use crate::protocol::{decimal, decimal_string};
use vstd::prelude::*;
use vstd::string::*;

verus! {

/// Saves the cursor position on the terminal's own stack.
pub open spec fn save_sequence() -> Seq<char> {
    "\x1b[s"@
}

/// Restores the cursor position last saved.
pub open spec fn restore_sequence() -> Seq<char> {
    "\x1b[u"@
}

/// Moves the cursor to column `x`, row `y`, both counted from zero; the
/// sequence itself counts from one, row first.
pub open spec fn move_sequence(x: nat, y: nat) -> Seq<char> {
    "\x1b["@ + decimal(y + 1) + ";"@ + decimal(x + 1) + "H"@
}

/// The write that saves the cursor position.
pub fn save_cursor() -> (r: String)
    ensures
        r@ == save_sequence(),
{
    String::from_str("\x1b[s")
}

/// The write that restores the saved cursor position.
pub fn restore_cursor() -> (r: String)
    ensures
        r@ == restore_sequence(),
{
    String::from_str("\x1b[u")
}

/// The write that moves the cursor to column `x`, row `y`.
pub fn move_cursor(x: u32, y: u32) -> (r: String)
    ensures
        r@ == move_sequence(x as nat, y as nat),
{
    let mut out = String::from_str("\x1b[");
    out.append(decimal_string(y as u64 + 1).as_str());
    out.append(";");
    out.append(decimal_string(x as u64 + 1).as_str());
    out.append("H");
    out
}

} // verus!
