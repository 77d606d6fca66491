//! Builds the commands of the kitty terminal graphics protocol: framed,
//! base64-carrying escape sequences that load, place and erase images.
pub mod encoding;
pub mod protocol;
pub mod cursor;
pub mod geometry;
pub mod dispatch;
