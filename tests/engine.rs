use shitty::cell::Cell;
use shitty::color::{Color, Rgb};
use shitty::terminal::{Action, TerminalGrid};

struct Collect {
    actions: Vec<Action>,
}

impl vte::Perform for Collect {
    fn print(&mut self, c: char) {
        self.actions.push(Action::Print(c));
    }

    fn execute(&mut self, byte: u8) {
        self.actions.push(Action::Execute(byte));
    }

    fn csi_dispatch(&mut self, params: &vte::Params, intermediates: &[u8], ignore: bool, c: char) {
        let params: Vec<Vec<u16>> = params.iter().map(|p| p.to_vec()).collect();
        self.actions.push(Action::Csi {
            params,
            intermediates: intermediates.to_vec(),
            ignore,
            action: u8::try_from(c).unwrap_or(0),
        });
    }

    fn esc_dispatch(&mut self, intermediates: &[u8], _ignore: bool, byte: u8) {
        self.actions.push(Action::Esc {
            intermediates: intermediates.to_vec(),
            byte,
        });
    }

    fn osc_dispatch(&mut self, params: &[&[u8]], bell_terminated: bool) {
        self.actions.push(Action::Osc {
            payload: params.iter().map(|p| p.to_vec()).collect(),
            bell_terminated,
        });
    }
}

fn feed(grid: &mut TerminalGrid, parser: &mut vte::Parser, bytes: &[u8]) {
    let mut c = Collect { actions: Vec::new() };
    for &b in bytes {
        parser.advance(&mut c, b);
    }
    grid.apply_all(&c.actions);
}

fn run(bytes: &[u8]) -> TerminalGrid {
    let mut grid = TerminalGrid::new(80, 24);
    let mut parser = vte::Parser::new();
    feed(&mut grid, &mut parser, bytes);
    grid
}

fn run_bytewise(bytes: &[u8]) -> TerminalGrid {
    let mut grid = TerminalGrid::new(80, 24);
    let mut parser = vte::Parser::new();
    for b in bytes {
        feed(&mut grid, &mut parser, std::slice::from_ref(b));
    }
    grid
}

fn ch(grid: &TerminalGrid, row: usize, col: usize) -> char {
    grid.cell_at(row, col).ch()
}

fn snapshot(grid: &TerminalGrid) -> (Vec<Cell>, (usize, usize), Rgb, Rgb, Option<Rgb>, bool) {
    let mut cells = Vec::new();
    for r in 0..grid.rows() {
        for c in 0..grid.cols() {
            cells.push(grid.cell_at(r, c));
        }
    }
    (
        cells,
        grid.cursor_pos(),
        grid.default_fg(),
        grid.default_bg(),
        grid.cursor_color(),
        grid.in_alt(),
    )
}

fn assert_invariants(grid: &TerminalGrid) {
    let (row, col) = grid.cursor_pos();
    assert!(row < grid.rows());
    assert!(col <= grid.cols());
    let (top, bottom) = grid.scroll_region();
    assert!(top <= bottom && bottom < grid.rows());
    for r in 0..grid.rows() {
        for c in 0..grid.cols() {
            if grid.cell_at(r, c).cont() {
                assert!(c > 0);
                assert_eq!(grid.cell_at(r, c - 1).width, 2);
            }
        }
    }
}

const SCENARIOS: [&[u8]; 6] = [
    b"AB\r\n",
    b"\x1b[31mRED\x1b[0m X",
    b"\x1b[1;31mHi\x1b[22m!",
    b"\x1b[2J\x1b[5;10HX",
    b"\x1b[?1049halt\x1b[?1049l",
    b"\x1b]11;#003366\x07\x1b[2J",
];

#[test]
fn text_then_crlf() {
    let g = run(b"AB\r\n");
    assert_eq!(ch(&g, 0, 0), 'A');
    assert_eq!(ch(&g, 0, 1), 'B');
    assert_eq!(g.cursor_pos(), (1, 0));
}

#[test]
fn sgr_color_and_reset() {
    let g = run(b"\x1b[31mRED\x1b[0m X");
    for (i, c) in ['R', 'E', 'D'].iter().enumerate() {
        let cell = g.cell_at(0, i);
        assert_eq!(cell.ch, *c);
        assert_eq!(cell.fg, Color::Indexed(1));
    }
    assert_eq!(ch(&g, 0, 3), ' ');
    assert_eq!(g.cell_at(0, 3).bg, Color::Default);
    assert_eq!(ch(&g, 0, 4), 'X');
    assert_eq!(g.cell_at(0, 4).fg, Color::Default);
}

#[test]
fn bold_brightens_then_normal_restores() {
    let g = run(b"\x1b[1;31mHi\x1b[22m!");
    for col in 0..2 {
        let cell = g.cell_at(0, col);
        assert_eq!(cell.fg, Color::Indexed(9));
        assert!(cell.bold);
        assert_eq!(g.resolve_color(cell.fg, true), Rgb { r: 255, g: 0, b: 0 });
    }
    let cell = g.cell_at(0, 2);
    assert_eq!(cell.ch, '!');
    assert_eq!(cell.fg, Color::Indexed(1));
    assert!(!cell.bold);
}

#[test]
fn clear_then_position() {
    let g = run(b"some text\r\nmore\x1b[2J\x1b[5;10HX");
    for r in 0..24 {
        for c in 0..80 {
            let expect = if (r, c) == (4, 9) { 'X' } else { ' ' };
            assert_eq!(ch(&g, r, c), expect);
        }
    }
    assert_eq!(g.cursor_pos(), (4, 10));
}

#[test]
fn alternate_screen_round_trip() {
    let mut g = TerminalGrid::new(80, 24);
    let mut p = vte::Parser::new();
    feed(&mut g, &mut p, b"hello\r\nwor");
    let before = snapshot(&g);
    feed(&mut g, &mut p, b"\x1b[?1049halt");
    assert!(g.in_alt());
    assert_eq!(ch(&g, 0, 0), 'a');
    assert_eq!(ch(&g, 0, 1), 'l');
    assert_eq!(ch(&g, 0, 2), 't');
    assert_eq!(ch(&g, 1, 0), ' ');
    feed(&mut g, &mut p, b"\x1b[?1049l");
    assert_eq!(snapshot(&g), before);
    assert_eq!(g.cursor_pos(), (1, 3));
}

#[test]
fn osc_default_background() {
    let mut g = TerminalGrid::new(80, 24);
    let mut p = vte::Parser::new();
    feed(&mut g, &mut p, b"\x1b]11;#003366\x07");
    assert_eq!(g.default_bg(), Rgb { r: 0x00, g: 0x33, b: 0x66 });
    feed(&mut g, &mut p, b"\x1b[2J");
    for r in 0..24 {
        for c in 0..80 {
            let cell = g.cell_at(r, c);
            assert_eq!(g.resolve_color(cell.bg, false), Rgb { r: 0x00, g: 0x33, b: 0x66 });
        }
    }
}

#[test]
fn scenarios_fed_byte_by_byte() {
    for s in SCENARIOS {
        assert_eq!(snapshot(&run(s)), snapshot(&run_bytewise(s)));
    }
}

#[test]
fn scenarios_fed_at_every_split() {
    for s in SCENARIOS {
        let whole = snapshot(&run(s));
        for k in 0..=s.len() {
            let mut g = TerminalGrid::new(80, 24);
            let mut p = vte::Parser::new();
            feed(&mut g, &mut p, &s[..k]);
            feed(&mut g, &mut p, &s[k..]);
            assert_eq!(snapshot(&g), whole);
        }
    }
}

#[test]
fn invariants_after_mixed_stream() {
    let mut g = TerminalGrid::new(7, 4);
    let mut p = vte::Parser::new();
    let stream = "ab中文x\x1b[3;2r\n\n\n\x1b[2@中\x1b[3P\x08\x08中\t\t\tz\x1b[1K\x1b[Lq\x1b[2M\x1bM\x1bM\x1b[5S\x1b[2T中中中中中\x1b[99C中\x1b[b\x1b[3b";
    for b in stream.as_bytes() {
        feed(&mut g, &mut p, std::slice::from_ref(b));
        assert_invariants(&g);
    }
}

#[test]
fn wide_glyph_takes_two_cells() {
    let g = run("中x".as_bytes());
    let lead = g.cell_at(0, 0);
    assert_eq!(lead.ch, '中');
    assert_eq!(lead.width, 2);
    assert!(!lead.cont());
    assert!(g.cell_at(0, 1).cont());
    assert_eq!(ch(&g, 0, 2), 'x');
    assert_eq!(g.cursor_pos(), (0, 3));
}

#[test]
fn wide_glyph_wraps_at_last_column() {
    let mut g = TerminalGrid::new(5, 3);
    let mut p = vte::Parser::new();
    feed(&mut g, &mut p, "abcd中".as_bytes());
    assert_eq!(ch(&g, 0, 3), 'd');
    assert_eq!(ch(&g, 0, 4), ' ');
    assert_eq!(ch(&g, 1, 0), '中');
    assert!(g.cell_at(1, 1).cont());
    assert_eq!(g.cursor_pos(), (1, 2));
}

#[test]
fn overwriting_half_of_wide_glyph_blanks_other_half() {
    let mut g = TerminalGrid::new(10, 2);
    let mut p = vte::Parser::new();
    feed(&mut g, &mut p, "中\x1b[1;2Hx".as_bytes());
    assert_eq!(ch(&g, 0, 0), ' ');
    assert_eq!(g.cell_at(0, 0).width, 1);
    assert_eq!(ch(&g, 0, 1), 'x');
    assert!(!g.cell_at(0, 1).cont());
}

#[test]
fn pending_wrap_at_end_of_line() {
    let mut g = TerminalGrid::new(3, 2);
    let mut p = vte::Parser::new();
    feed(&mut g, &mut p, b"abc");
    assert_eq!(g.cursor_pos(), (0, 3));
    feed(&mut g, &mut p, b"d");
    assert_eq!(ch(&g, 1, 0), 'd');
    assert_eq!(g.cursor_pos(), (1, 1));
}

#[test]
fn linefeed_at_bottom_scrolls() {
    let mut g = TerminalGrid::new(4, 3);
    let mut p = vte::Parser::new();
    feed(&mut g, &mut p, b"a\r\nb\r\nc\r\nd");
    assert_eq!(ch(&g, 0, 0), 'b');
    assert_eq!(ch(&g, 1, 0), 'c');
    assert_eq!(ch(&g, 2, 0), 'd');
}

#[test]
fn scroll_region_limits_scrolling() {
    let mut g = TerminalGrid::new(4, 4);
    let mut p = vte::Parser::new();
    feed(&mut g, &mut p, b"a\r\nb\r\nc\r\nd\x1b[2;3r");
    assert_eq!(g.scroll_region(), (1, 2));
    assert_eq!(g.cursor_pos(), (0, 0));
    feed(&mut g, &mut p, b"\x1b[3;1H\n");
    assert_eq!(ch(&g, 0, 0), 'a');
    assert_eq!(ch(&g, 1, 0), 'c');
    assert_eq!(ch(&g, 2, 0), ' ');
    assert_eq!(ch(&g, 3, 0), 'd');
}

#[test]
fn reverse_index_at_top_scrolls_down() {
    let mut g = TerminalGrid::new(4, 3);
    let mut p = vte::Parser::new();
    feed(&mut g, &mut p, b"a\r\nb\x1b[H\x1bM");
    assert_eq!(ch(&g, 0, 0), ' ');
    assert_eq!(ch(&g, 1, 0), 'a');
    assert_eq!(ch(&g, 2, 0), 'b');
}

#[test]
fn insert_and_delete_lines() {
    let mut g = TerminalGrid::new(4, 4);
    let mut p = vte::Parser::new();
    feed(&mut g, &mut p, b"a\r\nb\r\nc\r\nd\x1b[2;1H\x1b[L");
    let col0: Vec<char> = (0..4).map(|r| ch(&g, r, 0)).collect();
    assert_eq!(col0, vec!['a', ' ', 'b', 'c']);
    feed(&mut g, &mut p, b"\x1b[2M");
    let col0: Vec<char> = (0..4).map(|r| ch(&g, r, 0)).collect();
    assert_eq!(col0, vec!['a', 'c', ' ', ' ']);
}

#[test]
fn insert_delete_and_erase_chars() {
    let mut g = TerminalGrid::new(6, 1);
    let mut p = vte::Parser::new();
    feed(&mut g, &mut p, b"abcdef\x1b[1;2H\x1b[2@");
    let row: String = (0..6).map(|c| ch(&g, 0, c)).collect();
    assert_eq!(row, "a  bcd");
    feed(&mut g, &mut p, b"\x1b[3P");
    let row: String = (0..6).map(|c| ch(&g, 0, c)).collect();
    assert_eq!(row, "acd   ");
    feed(&mut g, &mut p, b"\x1b[1;1H\x1b[2X");
    let row: String = (0..6).map(|c| ch(&g, 0, c)).collect();
    assert_eq!(row, "  d   ");
}

#[test]
fn erase_line_modes() {
    let line = |seq: &[u8]| {
        let mut g = TerminalGrid::new(5, 1);
        let mut p = vte::Parser::new();
        feed(&mut g, &mut p, b"abcde\x1b[1;3H");
        feed(&mut g, &mut p, seq);
        (0..5).map(|c| ch(&g, 0, c)).collect::<String>()
    };
    assert_eq!(line(b"\x1b[K"), "ab   ");
    assert_eq!(line(b"\x1b[1K"), "   de");
    assert_eq!(line(b"\x1b[2K"), "     ");
}

#[test]
fn erase_display_to_cursor_only() {
    let mut g = TerminalGrid::new(3, 3);
    let mut p = vte::Parser::new();
    feed(&mut g, &mut p, b"abcdefghi\x1b[2;2H\x1b[1J");
    let all: String = (0..3).flat_map(|r| (0..3).map(move |c| (r, c))).map(|(r, c)| ch(&g, r, c)).collect();
    assert_eq!(all, "     fghi");
    assert_eq!(g.cursor_pos(), (1, 1));
    feed(&mut g, &mut p, b"\x1b[J");
    let all: String = (0..3).flat_map(|r| (0..3).map(move |c| (r, c))).map(|(r, c)| ch(&g, r, c)).collect();
    assert_eq!(all, "         ");
}

#[test]
fn erased_cells_take_current_background() {
    let g = run(b"\x1b[44m\x1b[2K");
    assert_eq!(g.cell_at(0, 10).bg, Color::Indexed(4));
    assert_eq!(g.cell_at(1, 10).bg, Color::Default);
}

#[test]
fn repeat_last_character() {
    let g = run(b"x\x1b[3b");
    let row: String = (0..5).map(|c| ch(&g, 0, c)).collect();
    assert_eq!(row, "xxxx ");
    assert_eq!(g.cursor_pos(), (0, 4));
}

#[test]
fn cursor_motion_clamps() {
    let mut g = TerminalGrid::new(10, 5);
    let mut p = vte::Parser::new();
    feed(&mut g, &mut p, b"\x1b[99;99H");
    assert_eq!(g.cursor_pos(), (4, 9));
    feed(&mut g, &mut p, b"\x1b[99A");
    assert_eq!(g.cursor_pos(), (0, 9));
    feed(&mut g, &mut p, b"\x1b[3D\x1b[2B");
    assert_eq!(g.cursor_pos(), (2, 6));
    feed(&mut g, &mut p, b"\x1b[E");
    assert_eq!(g.cursor_pos(), (3, 0));
    feed(&mut g, &mut p, b"\x1b[5G\x1b[2d");
    assert_eq!(g.cursor_pos(), (1, 4));
    feed(&mut g, &mut p, b"\x1b[F");
    assert_eq!(g.cursor_pos(), (0, 0));
}

#[test]
fn tab_stops_every_eight_columns() {
    let mut g = TerminalGrid::new(20, 2);
    let mut p = vte::Parser::new();
    feed(&mut g, &mut p, b"ab\t");
    assert_eq!(g.cursor_pos(), (0, 8));
    feed(&mut g, &mut p, b"\t\t\t");
    assert_eq!(g.cursor_pos(), (0, 19));
}

#[test]
fn backspace_stops_at_column_zero() {
    let g = run(b"a\x08\x08\x08");
    assert_eq!(g.cursor_pos(), (0, 0));
}

#[test]
fn save_and_restore_cursor() {
    let g = run(b"\x1b[3;4H\x1b7\x1b[H\x1b8");
    assert_eq!(g.cursor_pos(), (2, 3));
    let g = run(b"\x1b[5;6H\x1b[s\x1b[H\x1b[u");
    assert_eq!(g.cursor_pos(), (4, 5));
}

#[test]
fn dec_special_graphics() {
    let g = run(b"\x1b(0qx\x1b(Bq");
    assert_eq!(ch(&g, 0, 0), '─');
    assert_eq!(ch(&g, 0, 1), '│');
    assert_eq!(ch(&g, 0, 2), 'q');
    let g = run(b"\x1b)0a\x0eq\x0fq");
    assert_eq!(ch(&g, 0, 0), 'a');
    assert_eq!(ch(&g, 0, 1), '─');
    assert_eq!(ch(&g, 0, 2), 'q');
}

#[test]
fn combining_mark_joins_previous_glyph() {
    let g = run("e\u{301}x".as_bytes());
    assert_eq!(ch(&g, 0, 0), 'e');
    assert_eq!(g.glyph_at(0, 0), vec!['e', '\u{301}']);
    assert_eq!(ch(&g, 0, 1), 'x');
    assert_eq!(g.glyph_at(0, 1), vec!['x']);
    assert_eq!(g.cursor_pos(), (0, 2));
}

#[test]
fn combining_marks_accumulate() {
    let g = run("e\u{301}\u{302}\u{303}".as_bytes());
    assert_eq!(g.glyph_at(0, 0), vec!['e', '\u{301}', '\u{302}', '\u{303}']);
    assert_eq!(g.cursor_pos(), (0, 1));
    let g = run("中\u{301}\u{302}".as_bytes());
    assert_eq!(g.glyph_at(0, 0), vec!['中', '\u{301}', '\u{302}']);
    assert!(g.cell_at(0, 1).cont());
    let g = run("\u{301}a".as_bytes());
    assert_eq!(g.glyph_at(0, 0), vec!['a']);
}

#[test]
fn erase_from_right_half_keeps_left_half() {
    let mut g = TerminalGrid::new(6, 1);
    let mut p = vte::Parser::new();
    feed(&mut g, &mut p, "中\x08\x1b[K".as_bytes());
    assert_eq!(g.cursor_pos(), (0, 1));
    assert_eq!(ch(&g, 0, 0), '中');
    assert_eq!(g.cell_at(0, 0).width, 2);
    assert!(!g.cell_at(0, 1).cont());
    let mut g = TerminalGrid::new(6, 1);
    feed(&mut g, &mut p, "中\x08\x1b[X".as_bytes());
    assert_eq!(ch(&g, 0, 0), '中');
    assert_eq!(ch(&g, 0, 1), ' ');
}

#[test]
fn erase_ending_on_left_half_erases_right_half() {
    let mut g = TerminalGrid::new(6, 1);
    let mut p = vte::Parser::new();
    feed(&mut g, &mut p, "中x\x1b[1;1H\x1b[1K".as_bytes());
    assert_eq!(ch(&g, 0, 0), ' ');
    assert!(!g.cell_at(0, 1).cont());
    assert_eq!(ch(&g, 0, 2), 'x');
}

#[test]
fn cursor_visibility_mode() {
    let g = run(b"\x1b[?25l");
    assert!(!g.cursor_visible());
    let g = run(b"\x1b[?25l\x1b[?25h");
    assert!(g.cursor_visible());
}

#[test]
fn reverse_video_swaps_colors() {
    let g = run(b"\x1b[32;41;7mx");
    let cell = g.cell_at(0, 0);
    assert_eq!(cell.fg, Color::Indexed(1));
    assert_eq!(cell.bg, Color::Indexed(2));
    assert!(cell.reverse);
}

#[test]
fn extended_colors() {
    let g = run(b"\x1b[38;5;196;48;2;1;2;3mx\x1b[39;49my");
    let cell = g.cell_at(0, 0);
    assert_eq!(cell.fg, Color::Indexed(196));
    assert_eq!(cell.bg, Color::Rgb(Rgb { r: 1, g: 2, b: 3 }));
    assert_eq!(g.resolve_color(cell.fg, true), Rgb { r: 255, g: 0, b: 0 });
    let cell = g.cell_at(0, 1);
    assert_eq!(cell.fg, Color::Default);
    assert_eq!(cell.bg, Color::Default);
    let g = run(b"\x1b[1;38;5;3mx");
    assert_eq!(g.cell_at(0, 0).fg, Color::Indexed(11));
    let g = run(b"\x1b[95mx");
    assert_eq!(g.cell_at(0, 0).fg, Color::Indexed(13));
    let g = run(b"\x1b[4mx\x1b[24my");
    assert!(g.cell_at(0, 0).underline());
    assert!(!g.cell_at(0, 1).underline());
}

#[test]
fn palette_set_then_reset() {
    let mut g = TerminalGrid::new(80, 24);
    let mut p = vte::Parser::new();
    feed(&mut g, &mut p, b"\x1b]4;1;rgb:12/34/56\x07");
    assert_eq!(g.palette_entry(1), Some(Rgb { r: 0x12, g: 0x34, b: 0x56 }));
    assert_eq!(g.resolve_color(Color::Indexed(1), true), Rgb { r: 0x12, g: 0x34, b: 0x56 });
    feed(&mut g, &mut p, b"\x1b]104;1\x07");
    assert_eq!(g.palette_entry(1), None);
    assert_eq!(g.resolve_color(Color::Indexed(1), true), Rgb { r: 128, g: 0, b: 0 });
}

#[test]
fn palette_reset_all_and_query_ignored() {
    let mut g = TerminalGrid::new(80, 24);
    let mut p = vte::Parser::new();
    feed(&mut g, &mut p, b"\x1b]4;3;#ffffff;200;#010203\x1b\\");
    assert_eq!(g.palette_entry(3), Some(Rgb { r: 255, g: 255, b: 255 }));
    assert_eq!(g.palette_entry(200), Some(Rgb { r: 1, g: 2, b: 3 }));
    feed(&mut g, &mut p, b"\x1b]4;3;?\x07\x1b]4;300;#000000\x07");
    assert_eq!(g.palette_entry(3), Some(Rgb { r: 255, g: 255, b: 255 }));
    feed(&mut g, &mut p, b"\x1b]104\x07");
    assert_eq!(g.palette_entry(3), None);
    assert_eq!(g.palette_entry(200), None);
}

#[test]
fn dynamic_colors_set_and_reset() {
    let mut g = TerminalGrid::new(80, 24);
    let mut p = vte::Parser::new();
    feed(&mut g, &mut p, b"\x1b]10;rgb:ffff/0/8080\x07\x1b]12;#f00\x07");
    assert_eq!(g.default_fg(), Rgb { r: 255, g: 0, b: 128 });
    assert_eq!(g.cursor_color(), Some(Rgb { r: 255, g: 0, b: 0 }));
    feed(&mut g, &mut p, b"\x1b]10;?\x07");
    assert_eq!(g.default_fg(), Rgb { r: 255, g: 0, b: 128 });
    feed(&mut g, &mut p, b"\x1b]110\x07\x1b]112\x07\x1b]11;#102030\x07\x1b]111\x07");
    assert_eq!(g.default_fg(), Rgb { r: 255, g: 255, b: 255 });
    assert_eq!(g.cursor_color(), None);
    assert_eq!(g.default_bg(), Rgb { r: 0, g: 0, b: 0 });
}

#[test]
fn full_reset() {
    let mut g = TerminalGrid::new(10, 4);
    let mut p = vte::Parser::new();
    feed(&mut g, &mut p, b"\x1b[31mab\x1b[2;3r\x1b]11;#123456\x07\x1b[?1049h\x1b[?25l\x1bc");
    assert!(!g.in_alt());
    assert!(g.cursor_visible());
    assert_eq!(g.cursor_pos(), (0, 0));
    assert_eq!(g.scroll_region(), (0, 3));
    assert_eq!(g.default_bg(), Rgb { r: 0, g: 0, b: 0 });
    assert_eq!(ch(&g, 0, 0), ' ');
    feed(&mut g, &mut p, b"x");
    assert_eq!(g.cell_at(0, 0).fg, Color::Default);
}

#[test]
fn resize_round_trip_keeps_shape() {
    let mut g = TerminalGrid::new(80, 24);
    let mut p = vte::Parser::new();
    feed(&mut g, &mut p, b"\x1b[20;70Hhello\x1b[?1049h\x1b[10;5r");
    assert!(g.resize(40, 10));
    assert_eq!((g.cols(), g.rows()), (40, 10));
    assert_invariants(&g);
    assert!(g.resize(80, 24));
    assert_eq!((g.cols(), g.rows()), (80, 24));
    assert_invariants(&g);
    assert_eq!(g.scroll_region(), (0, 23));
    assert!(!g.resize(80, 24));
}

#[test]
fn resize_clamps_cursor_and_zero_size() {
    let mut g = TerminalGrid::new(80, 24);
    let mut p = vte::Parser::new();
    feed(&mut g, &mut p, b"\x1b[20;70H");
    assert!(g.resize(10, 5));
    assert_eq!(g.cursor_pos(), (4, 9));
    assert!(g.resize(0, 0));
    assert_eq!((g.cols(), g.rows()), (1, 1));
    assert_eq!(g.cursor_pos(), (0, 0));
    let g = TerminalGrid::new(0, 0);
    assert_eq!((g.cols(), g.rows()), (1, 1));
}

#[test]
fn alternate_screen_47_keeps_contents() {
    let mut g = TerminalGrid::new(10, 3);
    let mut p = vte::Parser::new();
    feed(&mut g, &mut p, b"main\x1b[?47h");
    assert!(g.in_alt());
    assert_eq!(g.cursor_pos(), (0, 0));
    feed(&mut g, &mut p, b"alt\x1b[?47l");
    assert!(!g.in_alt());
    assert_eq!(ch(&g, 0, 0), 'm');
    assert_eq!(g.cursor_pos(), (0, 4));
    feed(&mut g, &mut p, b"\x1b[?1047h");
    assert_eq!(ch(&g, 0, 0), 'a');
    assert_eq!(g.cursor_pos(), (0, 3));
}

#[test]
fn alt_round_trip_restores_pending_wrap_cursor() {
    let mut g = TerminalGrid::new(3, 2);
    let mut p = vte::Parser::new();
    feed(&mut g, &mut p, b"abc");
    assert_eq!(g.cursor_pos(), (0, 3));
    feed(&mut g, &mut p, b"\x1b[?1049hzz\x1b[?1049l");
    assert_eq!(g.cursor_pos(), (0, 3));
    assert_eq!(ch(&g, 0, 2), 'c');
}

#[test]
fn cell_outside_screen_is_default() {
    let g = TerminalGrid::new(2, 2);
    assert_eq!(g.cell_at(5, 5), Cell::default());
}

#[test]
fn alt_round_trip_through_other_mode_resets() {
    let mut g = TerminalGrid::new(10, 4);
    let mut p = vte::Parser::new();
    feed(&mut g, &mut p, b"ab\r\ncd");
    let before = g.cursor_pos();
    let row0: String = (0..10).map(|c| ch(&g, 0, c)).collect();
    feed(&mut g, &mut p, b"\x1b[?1049h\x1b[?25lxyz\x1b[2;3r\x1b[?25h\x1b[?1049l");
    assert!(!g.in_alt());
    assert_eq!(g.cursor_pos(), before);
    let row0_after: String = (0..10).map(|c| ch(&g, 0, c)).collect();
    assert_eq!(row0_after, row0);
}

#[test]
fn scroll_regions_stay_on_screen_for_both_screens() {
    let mut g = TerminalGrid::new(10, 6);
    let mut p = vte::Parser::new();
    feed(&mut g, &mut p, b"\x1b[2;5r\x1b[?1049h\x1b[3;4r");
    assert_eq!(g.scroll_region(), (2, 3));
    assert!(g.resize(10, 3));
    assert_eq!(g.scroll_region(), (0, 2));
    feed(&mut g, &mut p, b"\x1b[?1049l");
    assert_eq!(g.scroll_region(), (0, 2));
    assert_invariants(&g);
}

#[test]
fn resize_to_same_size_keeps_scroll_region() {
    let mut g = TerminalGrid::new(10, 6);
    let mut p = vte::Parser::new();
    feed(&mut g, &mut p, b"\x1b[2;5r");
    assert!(!g.resize(10, 6));
    assert_eq!(g.scroll_region(), (1, 4));
}
