use crate::cursor::{
    move_cursor, move_sequence, restore_cursor, restore_sequence, save_cursor, save_sequence,
};
use crate::encoding::{base64_encode, lemma_base64_empty};
use crate::geometry::{fit, fit_bounds};
use crate::protocol::{
    clear_control, framed, load_control, load_control_string, place_control, place_control_string,
    protocol_end, protocol_start, send_graphics_command, transmit_control, transmit_control_string,
};
use vstd::prelude::*;
use vstd::string::*;

verus! {

/// What one invocation does with the terminal's graphics memory.
#[derive(Clone, Copy, Debug, PartialEq, Eq, Structural)]
pub enum Action {
    Load,
    Display,
    LoadAndDisplay,
    Clear,
}

/// Everything one invocation is asked to do.
#[derive(Debug)]
pub struct Options {
    /// The source image on disk.
    pub path: String,
    pub action: Action,
    /// The terminal's handle for the image: needed to load, optional to display.
    pub id: Option<u32>,
    /// Bounds on the footprint, in cells.
    pub cols: Option<u32>,
    pub rows: Option<u32>,
    /// Where to put the image, in cells from the top left corner.
    pub x: Option<u32>,
    pub y: Option<u32>,
    /// Whether the image may be drawn larger than its natural size.
    pub upscale: bool,
}

/// An image decoded to 8-bit RGBA whose pixels were written in full to the
/// file at `path`, for the terminal to read.
#[derive(Debug)]
pub struct Transfer {
    pub width: u32,
    pub height: u32,
    pub path: Vec<u8>,
}

/// The pixel size of an image, read without decoding it.
#[derive(Clone, Copy, Debug, PartialEq, Eq, Structural)]
pub struct ImageSize {
    pub width: u32,
    pub height: u32,
}

/// Why an action could not be carried out; nothing is written then.
#[derive(Clone, Copy, Debug, PartialEq, Eq, Structural)]
pub enum PreviewError {
    /// Loading names no image id.
    MissingId,
    /// The action needs the decoded image and none was given.
    MissingTransfer,
    /// The action needs the image's size and none was given.
    MissingSize,
    /// The image has no pixels on one axis.
    EmptyImage,
}

/// The text of each write, in order; each is written and flushed on its own.
pub open spec fn emitted(writes: Seq<String>) -> Seq<Seq<char>> {
    writes.map_values(|s: String| s@)
}

/// A result of the dispatcher, with its writes as text.
pub open spec fn outcome(r: Result<Vec<String>, PreviewError>) -> Result<Seq<Seq<char>>, PreviewError> {
    match r {
        Ok(writes) => Ok(emitted(writes@)),
        Err(e) => Err(e),
    }
}

pub open spec fn newline() -> Seq<char> {
    seq!['\n']
}

/// The writes that show `command`: bracketed by saving, moving and restoring
/// the cursor when a position is asked for; always followed by a newline.
pub open spec fn positioned(x: Option<u32>, y: Option<u32>, command: Seq<char>) -> Seq<Seq<char>> {
    if x is None && y is None {
        seq![command, newline()]
    } else {
        seq![
            save_sequence(),
            move_sequence(x.unwrap_or(0) as nat, y.unwrap_or(0) as nat),
            command,
            restore_sequence(),
            newline(),
        ]
    }
}

pub open spec fn clear_output() -> Seq<Seq<char>> {
    seq![framed(clear_control(), seq![])]
}

pub open spec fn load_output(o: Options, image: Option<&Transfer>) -> Result<Seq<Seq<char>>, PreviewError> {
    match o.id {
        None => Err(PreviewError::MissingId),
        Some(id) => match image {
            None => Err(PreviewError::MissingTransfer),
            Some(t) => Ok(
                seq![framed(load_control(t.width as nat, t.height as nat, id as nat), t.path@)],
            ),
        },
    }
}

pub open spec fn display_output(
    o: Options,
    image: Option<&Transfer>,
    size: Option<ImageSize>,
) -> Result<Seq<Seq<char>>, PreviewError> {
    match o.id {
        Some(id) => match size {
            None => Err(PreviewError::MissingSize),
            Some(s) => if s.width == 0 || s.height == 0 {
                Err(PreviewError::EmptyImage)
            } else {
                let f = fit(s.width, s.height, o.cols, o.rows, o.upscale);
                Ok(
                    positioned(
                        o.x,
                        o.y,
                        framed(place_control(f.0 as nat, f.1 as nat, id as nat), seq![]),
                    ),
                )
            },
        },
        None => match image {
            None => Err(PreviewError::MissingTransfer),
            Some(t) => if t.width == 0 || t.height == 0 {
                Err(PreviewError::EmptyImage)
            } else {
                let f = fit(t.width, t.height, o.cols, o.rows, o.upscale);
                Ok(
                    positioned(
                        o.x,
                        o.y,
                        framed(
                            transmit_control(t.width as nat, t.height as nat, f.0 as nat, f.1 as nat),
                            t.path@,
                        ),
                    ),
                )
            },
        },
    }
}

pub open spec fn load_and_display_output(
    o: Options,
    image: Option<&Transfer>,
    size: Option<ImageSize>,
) -> Result<Seq<Seq<char>>, PreviewError> {
    match load_output(o, image) {
        Err(e) => Err(e),
        Ok(first) => match display_output(o, image, size) {
            Err(e) => Err(e),
            Ok(second) => Ok(first + second),
        },
    }
}

pub open spec fn preview_output(
    o: Options,
    image: Option<&Transfer>,
    size: Option<ImageSize>,
) -> Result<Seq<Seq<char>>, PreviewError> {
    match o.action {
        Action::Load => load_output(o, image),
        Action::Display => display_output(o, image, size),
        Action::LoadAndDisplay => load_and_display_output(o, image, size),
        Action::Clear => Ok(clear_output()),
    }
}

/// Whether the action reads the decoded image (a `Transfer`).
pub open spec fn transfer_needed(o: Options) -> bool {
    match o.action {
        Action::Load | Action::LoadAndDisplay => true,
        Action::Display => o.id is None,
        Action::Clear => false,
    }
}

/// Whether the action reads only the image's size.
pub open spec fn size_needed(o: Options) -> bool {
    match o.action {
        Action::Display | Action::LoadAndDisplay => o.id is Some,
        _ => false,
    }
}

/// Clearing sends one command, the delete-all control data with an empty
/// payload field, whatever else the options and inputs hold.
pub proof fn lemma_clear_ignores_options(
    o: Options,
    image: Option<&Transfer>,
    size: Option<ImageSize>,
)
    requires
        o.action == Action::Clear,
    ensures
        preview_output(o, image, size) == Ok::<Seq<Seq<char>>, PreviewError>(
            seq![framed(clear_control(), seq![])],
        ),
        framed(clear_control(), seq![]) == protocol_start() + "a=d,d=a"@ + seq![';']
            + protocol_end(),
{
    assert(base64_encode(seq![]) =~= seq![]);
    assert(framed(clear_control(), seq![]) =~= protocol_start() + "a=d,d=a"@ + seq![';']
        + protocol_end());
}

/// Clearing twice gives the same single command twice, whatever the options
/// of either run.
pub proof fn lemma_clear_repeatable(
    o1: Options,
    o2: Options,
    image1: Option<&Transfer>,
    image2: Option<&Transfer>,
    size1: Option<ImageSize>,
    size2: Option<ImageSize>,
)
    requires
        o1.action == Action::Clear,
        o2.action == Action::Clear,
    ensures
        preview_output(o1, image1, size1) == preview_output(o2, image2, size2),
        preview_output(o1, image1, size1) matches Ok(w) && w.len() == 1,
{
}

/// Loading without an id fails before anything is written, with or without
/// a display after it.
pub proof fn lemma_load_needs_id(o: Options, image: Option<&Transfer>, size: Option<ImageSize>)
    requires
        o.action == Action::Load || o.action == Action::LoadAndDisplay,
        o.id is None,
    ensures
        preview_output(o, image, size) == Err::<Seq<Seq<char>>, PreviewError>(
            PreviewError::MissingId,
        ),
{
}

/// Showing a held image at a position writes, in order: save the cursor,
/// move it, the geometry-only command, restore the cursor, a newline.
pub proof fn lemma_display_held_at_position(o: Options, image: Option<&Transfer>, size: ImageSize)
    requires
        o.action == Action::Display,
        o.id is Some,
        o.x is Some,
        o.y is Some,
        size.width > 0,
        size.height > 0,
    ensures
        ({
            let f = fit(size.width, size.height, o.cols, o.rows, o.upscale);
            preview_output(o, image, Some(size)) == Ok::<Seq<Seq<char>>, PreviewError>(
                seq![
                    save_sequence(),
                    move_sequence(o.x.unwrap() as nat, o.y.unwrap() as nat),
                    framed(place_control(f.0 as nat, f.1 as nat, o.id.unwrap() as nat), seq![]),
                    restore_sequence(),
                    newline(),
                ],
            )
        }),
{
    let f = fit(size.width, size.height, o.cols, o.rows, o.upscale);
    let command = framed(place_control(f.0 as nat, f.1 as nat, o.id.unwrap() as nat), seq![]);
    assert(o.x.unwrap_or(0) == o.x.unwrap());
    assert(o.y.unwrap_or(0) == o.y.unwrap());
    assert(positioned(o.x, o.y, command) =~= seq![
        save_sequence(),
        move_sequence(o.x.unwrap() as nat, o.y.unwrap() as nat),
        command,
        restore_sequence(),
        newline(),
    ]);
}

/// Showing a decoded image with no id and no position writes the
/// self-contained command, whose payload field is not empty, then a newline.
pub proof fn lemma_display_sent_in_place(o: Options, t: &Transfer, size: Option<ImageSize>)
    requires
        o.action == Action::Display,
        o.id is None,
        o.x is None,
        o.y is None,
        t.width > 0,
        t.height > 0,
        t.path@.len() > 0,
    ensures
        ({
            let f = fit(t.width, t.height, o.cols, o.rows, o.upscale);
            preview_output(o, Some(t), size) == Ok::<Seq<Seq<char>>, PreviewError>(
                seq![
                    framed(
                        transmit_control(t.width as nat, t.height as nat, f.0 as nat, f.1 as nat),
                        t.path@,
                    ),
                    newline(),
                ],
            )
        }),
        base64_encode(t.path@).len() > 0,
{
    lemma_base64_empty(t.path@);
}

fn position(x: Option<u32>, y: Option<u32>, command: String) -> (r: Vec<String>)
    ensures
        emitted(r@) == positioned(x, y, command@),
{
    let ghost text = command@;
    let mut writes: Vec<String> = Vec::new();
    if x.is_none() && y.is_none() {
        writes.push(command);
        writes.push(String::from_str("\n"));
        proof {
            reveal_strlit("\n");
            assert(writes@.len() == 2);
            assert(writes@[0]@ == text);
            assert(writes@[1]@ == newline());
            assert(emitted(writes@) =~= seq![text, newline()]);
        }
    } else {
        let col: u32 = match x {
            Some(v) => v,
            None => 0,
        };
        let row: u32 = match y {
            Some(v) => v,
            None => 0,
        };
        writes.push(save_cursor());
        writes.push(move_cursor(col, row));
        writes.push(command);
        writes.push(restore_cursor());
        writes.push(String::from_str("\n"));
        proof {
            reveal_strlit("\n");
            assert(writes@.len() == 5);
            assert(writes@[2]@ == text);
            assert(writes@[4]@ == newline());
            assert(emitted(writes@) =~= seq![
                save_sequence(),
                move_sequence(col as nat, row as nat),
                text,
                restore_sequence(),
                newline(),
            ]);
        }
    }
    writes
}

/// The writes that erase every image the terminal holds.
pub fn clear() -> (r: Vec<String>)
    ensures
        emitted(r@) == clear_output(),
{
    let mut writes: Vec<String> = Vec::new();
    writes.push(send_graphics_command("a=d,d=a", None));
    proof {
        assert(emitted(writes@) =~= clear_output());
    }
    writes
}

/// The writes that load the decoded image into the terminal under the id of
/// `options`, without showing it.
pub fn load(options: &Options, image: Option<&Transfer>) -> (r: Result<Vec<String>, PreviewError>)
    ensures
        outcome(r) == load_output(*options, image),
{
    let id = match options.id {
        Some(id) => id,
        None => return Err(PreviewError::MissingId),
    };
    let t = match image {
        Some(t) => t,
        None => return Err(PreviewError::MissingTransfer),
    };
    let control = load_control_string(t.width, t.height, id);
    let mut writes: Vec<String> = Vec::new();
    writes.push(send_graphics_command(control.as_str(), Some(t.path.as_slice())));
    proof {
        assert(emitted(writes@) =~= seq![
            framed(load_control(t.width as nat, t.height as nat, id as nat), t.path@),
        ]);
    }
    Ok(writes)
}

/// The writes that show an image: the one held under the id of `options`,
/// sized from `size`; without an id the decoded image itself, sent along.
pub fn display(options: &Options, image: Option<&Transfer>, size: Option<ImageSize>) -> (r: Result<Vec<String>, PreviewError>)
    ensures
        outcome(r) == display_output(*options, image, size),
{
    let command = match options.id {
        Some(id) => {
            let s = match size {
                Some(s) => s,
                None => return Err(PreviewError::MissingSize),
            };
            if s.width == 0 || s.height == 0 {
                return Err(PreviewError::EmptyImage);
            }
            let (cols, rows) = fit_bounds(s.width, s.height, options.cols, options.rows, options.upscale);
            let control = place_control_string(cols, rows, id);
            send_graphics_command(control.as_str(), None)
        },
        None => {
            let t = match image {
                Some(t) => t,
                None => return Err(PreviewError::MissingTransfer),
            };
            if t.width == 0 || t.height == 0 {
                return Err(PreviewError::EmptyImage);
            }
            let (cols, rows) = fit_bounds(t.width, t.height, options.cols, options.rows, options.upscale);
            let control = transmit_control_string(t.width, t.height, cols, rows);
            send_graphics_command(control.as_str(), Some(t.path.as_slice()))
        },
    };
    Ok(position(options.x, options.y, command))
}

/// The writes of `load` followed by those of `display`, with the same options.
pub fn load_and_display(options: &Options, image: Option<&Transfer>, size: Option<ImageSize>) -> (r: Result<Vec<String>, PreviewError>)
    ensures
        outcome(r) == load_and_display_output(*options, image, size),
{
    let mut first = match load(options, image) {
        Ok(w) => w,
        Err(e) => return Err(e),
    };
    let mut second = match display(options, image, size) {
        Ok(w) => w,
        Err(e) => return Err(e),
    };
    let ghost a = first@;
    let ghost b = second@;
    first.append(&mut second);
    proof {
        assert(emitted(first@) =~= emitted(a) + emitted(b));
    }
    Ok(first)
}

/// The writes that carry out the action of `options`. `image` is the decoded
/// image when `needs_transfer` holds, `size` the image's size when
/// `needs_size` holds; each is ignored otherwise.
pub fn preview(options: &Options, image: Option<&Transfer>, size: Option<ImageSize>) -> (r: Result<Vec<String>, PreviewError>)
    ensures
        outcome(r) == preview_output(*options, image, size),
        (transfer_needed(*options) ==> image is Some) && (size_needed(*options) ==> size is Some)
            ==> !(r matches Err(PreviewError::MissingTransfer)) && !(r matches Err(
            PreviewError::MissingSize,
        )),
{
    match options.action {
        Action::Load => load(options, image),
        Action::Display => display(options, image, size),
        Action::LoadAndDisplay => load_and_display(options, image, size),
        Action::Clear => Ok(clear()),
    }
}

/// Whether the action needs the image decoded and written out first.
pub fn needs_transfer(options: &Options) -> (r: bool)
    ensures
        r == transfer_needed(*options),
{
    match options.action {
        Action::Load | Action::LoadAndDisplay => true,
        Action::Display => options.id.is_none(),
        Action::Clear => false,
    }
}

/// Whether the action needs the image's size only.
pub fn needs_size(options: &Options) -> (r: bool)
    ensures
        r == size_needed(*options),
{
    match options.action {
        Action::Display | Action::LoadAndDisplay => options.id.is_some(),
        _ => false,
    }
}

} // verus!
