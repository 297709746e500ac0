use shitty::cell::{map_dec_special, Pen};
use shitty::color::{ansi_16_color, parse_color_spec, parse_decimal, xterm_256_color, Color, Rgb};
use shitty::keymap::{append_key_input, append_text_input, ctrl_key_byte, push_key_bytes, Key};
use shitty::pty::{signal_target, winsize_of};
use shitty::terminal::{csi_count, csi_position, cursor_colors};

#[test]
fn xterm_table_values() {
    assert_eq!(xterm_256_color(1), Rgb { r: 128, g: 0, b: 0 });
    assert_eq!(xterm_256_color(9), Rgb { r: 255, g: 0, b: 0 });
    assert_eq!(xterm_256_color(16), Rgb { r: 0, g: 0, b: 0 });
    assert_eq!(xterm_256_color(17), Rgb { r: 0, g: 0, b: 95 });
    assert_eq!(xterm_256_color(196), Rgb { r: 255, g: 0, b: 0 });
    assert_eq!(xterm_256_color(231), Rgb { r: 255, g: 255, b: 255 });
    assert_eq!(xterm_256_color(232), Rgb { r: 8, g: 8, b: 8 });
    assert_eq!(xterm_256_color(255), Rgb { r: 238, g: 238, b: 238 });
    assert_eq!(ansi_16_color(7), Rgb { r: 192, g: 192, b: 192 });
    assert_eq!(ansi_16_color(15), Rgb { r: 255, g: 255, b: 255 });
}

#[test]
fn color_specs() {
    assert_eq!(parse_color_spec(b"#003366"), Some(Rgb { r: 0, g: 0x33, b: 0x66 }));
    assert_eq!(parse_color_spec(b"#f80"), Some(Rgb { r: 255, g: 136, b: 0 }));
    assert_eq!(parse_color_spec(b"#ffff00008000"), Some(Rgb { r: 255, g: 0, b: 127 }));
    assert_eq!(parse_color_spec(b"rgb:ff/80/00"), Some(Rgb { r: 255, g: 128, b: 0 }));
    assert_eq!(parse_color_spec(b"rgb:f/8/0"), Some(Rgb { r: 255, g: 136, b: 0 }));
    assert_eq!(parse_color_spec(b"rgb:FFFF/0/1"), Some(Rgb { r: 255, g: 0, b: 17 }));
    assert_eq!(parse_color_spec(b"?"), None);
    assert_eq!(parse_color_spec(b"#12345"), None);
    assert_eq!(parse_color_spec(b"#gg0000"), None);
    assert_eq!(parse_color_spec(b"rgb:1/2"), None);
    assert_eq!(parse_color_spec(b"rgb:1/2/3/4"), None);
    assert_eq!(parse_color_spec(b"rgb:12345/0/0"), None);
    assert_eq!(parse_color_spec(b"red"), None);
    assert_eq!(parse_color_spec(b""), None);
}

#[test]
fn decimals() {
    assert_eq!(parse_decimal(b"4"), Some(4));
    assert_eq!(parse_decimal(b"0104"), Some(104));
    assert_eq!(parse_decimal(b"65535"), Some(65535));
    assert_eq!(parse_decimal(b"65536"), None);
    assert_eq!(parse_decimal(b"99999999999"), None);
    assert_eq!(parse_decimal(b""), None);
    assert_eq!(parse_decimal(b"1a"), None);
}

#[test]
fn csi_parameters() {
    let ps = vec![vec![0u16], vec![7u16], vec![]];
    assert_eq!(csi_count(&ps, 0), 1);
    assert_eq!(csi_count(&ps, 1), 7);
    assert_eq!(csi_count(&ps, 2), 1);
    assert_eq!(csi_count(&ps, 9), 1);
    assert_eq!(csi_position(&ps, 1, 100), 6);
    assert_eq!(csi_position(&ps, 1, 3), 3);
    assert_eq!(csi_position(&ps, 0, 3), 0);
}

#[test]
fn dec_special_table() {
    assert_eq!(map_dec_special('j'), '┘');
    assert_eq!(map_dec_special('q'), '─');
    assert_eq!(map_dec_special('~'), '·');
    assert_eq!(map_dec_special('a'), 'a');
}

#[test]
fn pen_cells() {
    let pen = Pen {
        fg: Color::Indexed(2),
        bg: Color::Default,
        bold: true,
        italic: false,
        underline: true,
        reverse: false,
    };
    let cell = pen.cell('x', 1, false);
    assert_eq!(cell.fg, Color::Indexed(10));
    assert!(cell.underline());
    let blank = pen.blank();
    assert_eq!(blank.ch(), ' ');
    assert_eq!(blank.fg, Color::Default);
    assert!(!blank.underline());
}

#[test]
fn key_encoding() {
    let enc = |k: Key, ctrl: bool| {
        let mut out = Vec::new();
        append_key_input(k, ctrl, &mut out);
        out
    };
    assert_eq!(enc(Key::Enter, false), b"\r");
    assert_eq!(enc(Key::Backspace, false), vec![0x7f]);
    assert_eq!(enc(Key::Tab, false), b"\t");
    assert_eq!(enc(Key::Escape, false), vec![0x1b]);
    assert_eq!(enc(Key::Escape, true), vec![0x1b]);
    assert_eq!(enc(Key::ArrowUp, false), b"\x1b[A");
    assert_eq!(enc(Key::ArrowDown, false), b"\x1b[B");
    assert_eq!(enc(Key::ArrowRight, false), b"\x1b[C");
    assert_eq!(enc(Key::ArrowLeft, false), b"\x1b[D");
    assert_eq!(enc(Key::Function(1), false), b"\x1bOP");
    assert_eq!(enc(Key::Function(4), false), b"\x1bOS");
    assert_eq!(enc(Key::Function(5), false), b"\x1b[15~");
    assert_eq!(enc(Key::Function(6), false), b"\x1b[17~");
    assert_eq!(enc(Key::Function(10), false), b"\x1b[21~");
    assert_eq!(enc(Key::Function(11), false), b"");
    assert_eq!(enc(Key::Letter(b'C'), true), vec![0x03]);
    assert_eq!(enc(Key::Letter(b'z'), true), vec![0x1a]);
    assert_eq!(enc(Key::Letter(b'A'), false), b"");
    assert_eq!(enc(Key::Enter, true), b"");
    assert_eq!(ctrl_key_byte(Key::Letter(b'A')), Some(1));
    assert_eq!(ctrl_key_byte(Key::Other), None);
    let mut out = vec![b'x'];
    assert!(!push_key_bytes(Key::Other, &mut out));
    assert_eq!(out, b"x");
}

#[test]
fn text_input() {
    let mut out = Vec::new();
    append_text_input("é!".as_bytes(), false, &mut out);
    assert_eq!(out, "é!".as_bytes());
    append_text_input(b"c", true, &mut out);
    assert_eq!(out, "é!".as_bytes());
}

#[test]
fn winch_target_and_size() {
    assert_eq!(signal_target(42, 7), 42);
    assert_eq!(signal_target(-1, 7), 7);
    assert_eq!(signal_target(0, 7), 7);
    assert_eq!(winsize_of(80, 24), (80, 24));
    assert_eq!(winsize_of(100000, 3), (65535, 3));
}

#[test]
fn cursor_block_colors() {
    let white = Rgb { r: 255, g: 255, b: 255 };
    let black = Rgb { r: 0, g: 0, b: 0 };
    let red = Rgb { r: 255, g: 0, b: 0 };
    assert_eq!(cursor_colors(white, black, None), (white, black));
    assert_eq!(cursor_colors(black, black, None), (white, black));
    assert_eq!(cursor_colors(white, black, Some(red)), (red, black));
    assert_eq!(cursor_colors(white, red, Some(red)), (red, white));
}

#[test]
fn escape_is_sent_by_the_press_not_by_push_key_bytes() {
    let mut out = vec![b'x'];
    assert!(!push_key_bytes(Key::Escape, &mut out));
    assert_eq!(out, b"x");
    let mut out = Vec::new();
    append_key_input(Key::Escape, false, &mut out);
    assert_eq!(out, vec![0x1b]);
    let mut out = Vec::new();
    assert!(push_key_bytes(Key::Enter, &mut out));
    assert_eq!(out, b"\r");
}
