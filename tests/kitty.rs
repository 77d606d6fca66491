use base64::engine::general_purpose;
use base64::Engine;
use pic::cursor::{move_cursor, restore_cursor, save_cursor};
use pic::dispatch::{
    clear, display, load, load_and_display, needs_size, needs_transfer, preview, Action,
    ImageSize, Options, PreviewError, Transfer,
};
use pic::geometry::fit_bounds;
use pic::protocol::{
    load_control_string, place_control_string, send_graphics_command, transmit_control_string,
};

fn options(action: Action, id: Option<u32>) -> Options {
    Options {
        path: String::from("picture.png"),
        action,
        id,
        cols: None,
        rows: None,
        x: None,
        y: None,
        upscale: false,
    }
}

fn transfer(width: u32, height: u32, path: &str) -> Transfer {
    Transfer { width, height, path: path.as_bytes().to_vec() }
}

fn payload_of(command: &str) -> Vec<u8> {
    let start = command.find(';').unwrap() + 1;
    let end = command.len() - 2;
    general_purpose::STANDARD.decode(&command[start..end]).unwrap()
}

#[test]
fn framing_without_payload() {
    assert_eq!(send_graphics_command("a=d,d=a", None), "\x1b_Ga=d,d=a;\x1b\\");
}

#[test]
fn framing_with_payload_round_trips() {
    let out = send_graphics_command("a=t", Some(b"hello"));
    assert_eq!(out, "\x1b_Ga=t;aGVsbG8=\x1b\\");
    assert_eq!(payload_of(&out), b"hello".to_vec());
    let bytes: Vec<u8> = (0u8..=255).collect();
    let out = send_graphics_command("q=2", Some(&bytes));
    assert!(out.starts_with("\x1b_Gq=2;"));
    assert!(out.ends_with("\x1b\\"));
    assert_eq!(payload_of(&out), bytes);
}

#[test]
fn framing_pads_short_groups() {
    assert_eq!(send_graphics_command("", Some(b"a")), "\x1b_G;YQ==\x1b\\");
    assert_eq!(send_graphics_command("", Some(b"ab")), "\x1b_G;YWI=\x1b\\");
    assert_eq!(send_graphics_command("", Some(b"abc")), "\x1b_G;YWJj\x1b\\");
}

#[test]
fn fit_without_bounds_keeps_aspect() {
    let (cols, rows) = fit_bounds(800, 400, None, None, false);
    assert_eq!((cols, rows), (800, 200));
    // one cell is one pixel wide and two pixels tall
    let (w, h) = (cols as i64, (rows * 2) as i64);
    assert!((w * 400 - h * 800).abs() <= 800);
}

#[test]
fn fit_without_upscale_keeps_natural_size() {
    assert_eq!(fit_bounds(10, 10, Some(100), Some(100), false), (10, 5));
}

#[test]
fn fit_with_upscale_fills_bounds() {
    assert_eq!(fit_bounds(10, 10, Some(100), Some(100), true), (100, 50));
}

#[test]
fn fit_shrinks_to_binding_axis() {
    assert_eq!(fit_bounds(1000, 1000, Some(100), Some(100), false), (100, 50));
    assert_eq!(fit_bounds(100, 100, Some(100), Some(10), true), (20, 10));
    assert_eq!(fit_bounds(100, 50, Some(10), None, true), (10, 2));
    assert_eq!(fit_bounds(100, 50, None, Some(5), false), (20, 5));
}

#[test]
fn fit_rounds_odd_heights_up_at_natural_size() {
    assert_eq!(fit_bounds(3, 7, None, None, false), (3, 4));
    assert_eq!(fit_bounds(u32::MAX, u32::MAX, None, None, false), (u32::MAX, u32::MAX / 2 + 1));
}

#[test]
fn control_strings_are_exact() {
    assert_eq!(load_control_string(640, 480, 9), "a=t,t=t,f=32,s=640,v=480,i=9,q=2");
    assert_eq!(place_control_string(80, 24, 0), "a=p,c=80,r=24,i=0,q=2");
    assert_eq!(transmit_control_string(1, 2, 3, 4), "a=T,t=t,f=32,s=1,v=2,c=3,r=4,q=2");
}

#[test]
fn cursor_sequences_are_exact() {
    assert_eq!(save_cursor(), "\x1b[s");
    assert_eq!(restore_cursor(), "\x1b[u");
    assert_eq!(move_cursor(0, 0), "\x1b[1;1H");
    assert_eq!(move_cursor(4, 9), "\x1b[10;5H");
}

#[test]
fn clear_ignores_options() {
    let expected = vec![String::from("\x1b_Ga=d,d=a;\x1b\\")];
    assert_eq!(clear(), expected);
    let mut o = options(Action::Clear, Some(3));
    o.x = Some(1);
    o.cols = Some(5);
    let t = transfer(2, 2, "/tmp/p");
    assert_eq!(preview(&o, Some(&t), Some(ImageSize { width: 2, height: 2 })), Ok(expected.clone()));
    assert_eq!(preview(&options(Action::Clear, None), None, None), Ok(expected));
}

#[test]
fn clear_twice_is_identical() {
    let first = clear();
    let second = clear();
    assert_eq!(first, second);
    assert_eq!(first.len(), 1);
}

#[test]
fn load_without_id_writes_nothing() {
    let t = transfer(4, 4, "/tmp/p");
    assert_eq!(load(&options(Action::Load, None), Some(&t)), Err(PreviewError::MissingId));
    assert_eq!(preview(&options(Action::Load, None), Some(&t), None), Err(PreviewError::MissingId));
    assert_eq!(
        preview(&options(Action::LoadAndDisplay, None), Some(&t), None),
        Err(PreviewError::MissingId)
    );
}

#[test]
fn load_sends_pixels_by_path() {
    let t = transfer(4, 3, "/tmp/pixels");
    let out = load(&options(Action::Load, Some(12)), Some(&t)).unwrap();
    assert_eq!(out.len(), 1);
    assert!(out[0].starts_with("\x1b_Ga=t,t=t,f=32,s=4,v=3,i=12,q=2;"));
    assert_eq!(payload_of(&out[0]), b"/tmp/pixels".to_vec());
    assert_eq!(load(&options(Action::Load, Some(12)), None), Err(PreviewError::MissingTransfer));
}

#[test]
fn display_with_id_at_position() {
    let mut o = options(Action::Display, Some(7));
    o.x = Some(1);
    o.y = Some(2);
    let out = preview(&o, None, Some(ImageSize { width: 10, height: 10 })).unwrap();
    assert_eq!(
        out,
        vec![
            String::from("\x1b[s"),
            String::from("\x1b[3;2H"),
            String::from("\x1b_Ga=p,c=10,r=5,i=7,q=2;\x1b\\"),
            String::from("\x1b[u"),
            String::from("\n"),
        ]
    );
}

#[test]
fn display_with_one_coordinate_uses_zero_for_other() {
    let mut o = options(Action::Display, Some(7));
    o.y = Some(4);
    let out = display(&o, None, Some(ImageSize { width: 2, height: 2 })).unwrap();
    assert_eq!(out.len(), 5);
    assert_eq!(out[1], "\x1b[5;1H");
}

#[test]
fn display_without_id_sends_image() {
    let t = transfer(6, 4, "/tmp/frame");
    let out = preview(&options(Action::Display, None), Some(&t), None).unwrap();
    assert_eq!(out.len(), 2);
    assert!(out[0].starts_with("\x1b_Ga=T,t=t,f=32,s=6,v=4,c=6,r=2,q=2;"));
    assert_eq!(payload_of(&out[0]), b"/tmp/frame".to_vec());
    assert!(!out[0].ends_with(";\x1b\\"));
    assert_eq!(out[1], "\n");
}

#[test]
fn load_and_display_concatenates() {
    let t = transfer(2, 2, "/tmp/both");
    let o = options(Action::LoadAndDisplay, Some(5));
    let out = load_and_display(&o, Some(&t), Some(ImageSize { width: 2, height: 2 })).unwrap();
    assert_eq!(out.len(), 3);
    assert!(out[0].starts_with("\x1b_Ga=t,t=t,f=32,s=2,v=2,i=5,q=2;"));
    assert_eq!(out[1], "\x1b_Ga=p,c=2,r=1,i=5,q=2;\x1b\\");
    assert_eq!(out[2], "\n");
    assert_eq!(preview(&o, Some(&t), Some(ImageSize { width: 2, height: 2 })), Ok(out));
}

#[test]
fn missing_inputs_are_reported() {
    assert_eq!(
        display(&options(Action::Display, Some(1)), None, None),
        Err(PreviewError::MissingSize)
    );
    assert_eq!(
        display(&options(Action::Display, None), None, None),
        Err(PreviewError::MissingTransfer)
    );
    assert_eq!(
        display(&options(Action::Display, Some(1)), None, Some(ImageSize { width: 0, height: 3 })),
        Err(PreviewError::EmptyImage)
    );
    let t = transfer(5, 0, "/tmp/empty");
    assert_eq!(
        display(&options(Action::Display, None), Some(&t), None),
        Err(PreviewError::EmptyImage)
    );
}

#[test]
fn needed_inputs_follow_action_and_id() {
    assert!(needs_transfer(&options(Action::Load, Some(1))));
    assert!(!needs_size(&options(Action::Load, Some(1))));
    assert!(needs_transfer(&options(Action::Display, None)));
    assert!(!needs_size(&options(Action::Display, None)));
    assert!(!needs_transfer(&options(Action::Display, Some(1))));
    assert!(needs_size(&options(Action::Display, Some(1))));
    assert!(needs_transfer(&options(Action::LoadAndDisplay, Some(1))));
    assert!(needs_size(&options(Action::LoadAndDisplay, Some(1))));
    assert!(!needs_transfer(&options(Action::Clear, None)));
    assert!(!needs_size(&options(Action::Clear, None)));
}
