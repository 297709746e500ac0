use vstd::prelude::*;

use crate::buffer::{
    blank_screen, set_marks, erase_rows, lf_view, min_int, ri_view, scroll_down_n, scroll_up_n,
    BufView,
};
use crate::cell::{blank_cell, default_cell, dec_special, pen_cell, plain_pen, Cell, Charset, Pen};
use crate::color::{color_spec_of, decimal_of, rgb, xterm_256, Color, Rgb};
use crate::line::{
    blank_line, delete_cells, erase_span, insert_blanks, line_ok, put_narrow, put_wide,
};
use crate::terminal::Action;

verus! {

/// The display width of a character by East Asian Width, `None` for a
/// control character.
pub uninterp spec fn char_width_of(c: char) -> Option<usize>;

/// The width a printed character takes: one column for printable ASCII,
/// `None` for a C0 control character, otherwise its East Asian Width.
pub open spec fn print_width(c: char) -> Option<usize> {
    if 0x20 <= c as u32 && (c as u32) < 0x7f {
        Some(1)
    } else if (c as u32) < 0x20 {
        None
    } else {
        char_width_of(c)
    }
}

/// What a `TerminalGrid` holds, as mathematical values.
pub struct TermView {
    pub cols: usize,
    pub rows: usize,
    /// The screen on display.
    pub live: BufView,
    /// The other screen: the alternate one (no lines until first used), or
    /// the primary one while the alternate is on display.
    pub alt: BufView,
    pub in_alt: bool,
    pub cursor_visible: bool,
    pub saved_cursor_1049: Option<(usize, usize)>,
    pub pen: Pen,
    pub g0: Charset,
    pub g1: Charset,
    pub use_g1: bool,
    pub last_printable: Option<char>,
    pub default_fg: Rgb,
    pub default_bg: Rgb,
    pub cursor_color: Option<Rgb>,
    pub palette: Seq<Option<Rgb>>,
    /// The combining marks of glyphs, each entry the marks that follow one
    /// base character; cells point into it.
    pub mark_store: Seq<Seq<char>>,
}

impl TermView {
    pub open spec fn wf(&self) -> bool {
        &&& self.live.wf(self.rows as nat, self.cols as nat)
        &&& (self.alt.grid.len() == 0 || self.alt.wf(self.rows as nat, self.cols as nat))
        &&& (self.in_alt ==> self.alt.wf(self.rows as nat, self.cols as nat))
        &&& self.alt.scroll_top <= self.alt.scroll_bottom < self.rows
        &&& self.palette.len() == 256
    }

    /// What erasing writes: a space in the current background.
    pub open spec fn blank(&self) -> Cell {
        blank_cell(self.pen)
    }

    pub open spec fn blank_line(&self) -> Seq<Cell> {
        blank_line(blank_cell(self.pen), self.cols as nat)
    }

    pub open spec fn with_live(&self, b: BufView) -> TermView {
        TermView { live: b, ..*self }
    }

    /// The cell at `(row, col)` of the screen on display.
    pub open spec fn cell(&self, row: int, col: int) -> Cell {
        self.live.grid[row][col]
    }

    pub open spec fn charset(&self) -> Charset {
        if self.use_g1 {
            self.g1
        } else {
            self.g0
        }
    }

    /// `c` through the character set in use.
    pub open spec fn mapped(&self, c: char) -> char {
        match self.charset() {
            Charset::Ascii => c,
            Charset::DecSpecial => dec_special(c),
        }
    }

    /// The color that `c` stands for now.
    pub open spec fn resolve(&self, c: Color, is_fg: bool) -> Rgb {
        match c {
            Color::Default => if is_fg {
                self.default_fg
            } else {
                self.default_bg
            },
            Color::Indexed(i) => match self.palette[i as int] {
                Some(x) => x,
                None => xterm_256(i),
            },
            Color::Rgb(x) => x,
        }
    }
}

pub open spec fn all_unset(n: nat) -> Seq<Option<Rgb>> {
    Seq::new(n, |i: int| None::<Rgb>)
}

/// The state of a fresh terminal of `cols` x `rows` (each at least 1).
pub open spec fn initial_view(cols: usize, rows: usize) -> TermView {
    TermView {
        cols,
        rows,
        live: BufView {
            grid: blank_screen(default_cell(), rows as nat, cols as nat),
            cursor_row: 0,
            cursor_col: 0,
            saved_cursor: (0, 0),
            scroll_top: 0,
            scroll_bottom: (rows - 1) as usize,
        },
        alt: BufView {
            grid: Seq::empty(),
            cursor_row: 0,
            cursor_col: 0,
            saved_cursor: (0, 0),
            scroll_top: 0,
            scroll_bottom: 0,
        },
        in_alt: false,
        cursor_visible: true,
        saved_cursor_1049: None,
        pen: plain_pen(),
        g0: Charset::Ascii,
        g1: Charset::Ascii,
        use_g1: false,
        last_printable: None,
        default_fg: rgb(255, 255, 255),
        default_bg: rgb(0, 0, 0),
        cursor_color: None,
        palette: all_unset(256),
        mark_store: Seq::empty(),
    }
}

/// The cursor moved to the start of the next line (scrolling if needed).
pub open spec fn wrap_view(b: BufView, bl: Seq<Cell>) -> BufView {
    lf_view(BufView { cursor_col: 0, ..b }, bl)
}

/// Printing a one-column glyph: wrap first if the cursor waits at the end of
/// the line, write, advance.
pub open spec fn print_narrow(t: TermView, ch: char) -> TermView {
    let b = if t.live.cursor_col >= t.cols {
        wrap_view(t.live, t.blank_line())
    } else {
        t.live
    };
    let row = b.cursor_row as int;
    let col = b.cursor_col as int;
    TermView {
        live: BufView {
            grid: b.grid.update(
                row,
                put_narrow(b.grid[row], col, pen_cell(t.pen, ch, 1, false), t.blank()),
            ),
            cursor_col: (col + 1) as usize,
            ..b
        },
        last_printable: Some(ch),
        ..t
    }
}

/// Printing a two-column glyph: wrap first if it does not fit, write both
/// halves, advance by two. On a one-column screen only the left half fits.
pub open spec fn print_wide(t: TermView, ch: char) -> TermView {
    let b = if t.live.cursor_col + 2 > t.cols && t.live.cursor_col > 0 {
        wrap_view(t.live, t.blank_line())
    } else {
        t.live
    };
    let row = b.cursor_row as int;
    let col = b.cursor_col as int;
    let lead = pen_cell(t.pen, ch, 2, false);
    let line = if col + 2 <= t.cols {
        put_wide(b.grid[row], col, lead, pen_cell(t.pen, ' ', 1, true), t.blank())
    } else {
        put_narrow(b.grid[row], col, lead, t.blank())
    };
    TermView {
        live: BufView {
            grid: b.grid.update(row, line),
            cursor_col: min_int(col + 2, t.cols as int) as usize,
            ..b
        },
        last_printable: Some(ch),
        ..t
    }
}

/// The combining marks that follow the character of `cell`.
pub open spec fn marks_of(t: TermView, cell: Cell) -> Seq<char> {
    match cell.marks {
        Some(i) => if i < t.mark_store.len() {
            t.mark_store[i as int]
        } else {
            Seq::empty()
        },
        None => Seq::empty(),
    }
}

/// The glyph that `cell` shows: its character, then its combining marks.
pub open spec fn glyph(t: TermView, cell: Cell) -> Seq<char> {
    seq![cell.ch] + marks_of(t, cell)
}

/// The column of the glyph left of the cursor (the left half of a wide one).
pub open spec fn glyph_left_of_cursor(t: TermView) -> int {
    let b = t.live;
    let col = b.cursor_col as int;
    if b.grid[b.cursor_row as int][col - 1].cont {
        col - 2
    } else {
        col - 1
    }
}

/// A zero-width character joins the glyph left of the cursor, if any: that
/// cell's marks become its old marks followed by `ch`, stored as a new entry.
pub open spec fn print_combining(t: TermView, ch: char) -> TermView {
    let b = t.live;
    let row = b.cursor_row as int;
    if b.cursor_col == 0 {
        t
    } else {
        let c = glyph_left_of_cursor(t);
        TermView {
            live: BufView {
                grid: b.grid.update(row, set_marks(b.grid[row], c, t.mark_store.len() as usize)),
                ..b
            },
            mark_store: t.mark_store.push(marks_of(t, b.grid[row][c]).push(ch)),
            ..t
        }
    }
}

/// Printing `ch` of display width `width` (`None`, a control character,
/// counts as one column).
pub open spec fn print_model(t: TermView, ch: char, width: Option<usize>) -> TermView {
    let w = match width {
        Some(w) => w,
        None => 1,
    };
    if w == 0 {
        print_combining(t, ch)
    } else if w == 1 {
        print_narrow(t, ch)
    } else {
        print_wide(t, ch)
    }
}

/// The column of the next tab stop (every eight columns), at most the last
/// column.
pub open spec fn next_tab(col: int, cols: int) -> int {
    min_int((col / 8 + 1) * 8, cols - 1)
}

/// A C0 control character.
pub open spec fn execute_model(t: TermView, byte: u8) -> TermView {
    let b = t.live;
    if byte == 0x08 {
        t.with_live(
            BufView {
                cursor_col: (if b.cursor_col > 0 {
                    b.cursor_col - 1
                } else {
                    0
                }) as usize,
                ..b
            },
        )
    } else if byte == 0x09 {
        t.with_live(BufView { cursor_col: next_tab(b.cursor_col as int, t.cols as int) as usize, ..b })
    } else if byte == 0x0a || byte == 0x0b || byte == 0x0c {
        t.with_live(lf_view(b, t.blank_line()))
    } else if byte == 0x0d {
        t.with_live(BufView { cursor_col: 0, ..b })
    } else if byte == 0x0e {
        TermView { use_g1: true, ..t }
    } else if byte == 0x0f {
        TermView { use_g1: false, ..t }
    } else {
        t
    }
}


/// Parameter `idx` of a CSI sequence (its first sub-parameter), or
/// `default` where it is missing.
pub open spec fn param_of(ps: Seq<Vec<u16>>, idx: int, default: u16) -> u16 {
    if 0 <= idx < ps.len() && ps[idx]@.len() > 0 {
        ps[idx]@[0]
    } else {
        default
    }
}

/// A count parameter: missing or zero means 1.
pub open spec fn count_param(ps: Seq<Vec<u16>>, idx: int) -> int {
    let v = param_of(ps, idx, 1);
    if v == 0 {
        1
    } else {
        v as int
    }
}

/// A 1-based position parameter as a 0-based index, at most `max`.
pub open spec fn position_param(ps: Seq<Vec<u16>>, idx: int, max: int) -> int {
    min_int(count_param(ps, idx) - 1, max)
}

pub open spec fn max_int(a: int, b: int) -> int {
    if a > b {
        a
    } else {
        b
    }
}

pub open spec fn set_cursor(t: TermView, row: int, col: int) -> TermView {
    t.with_live(BufView { cursor_row: row as usize, cursor_col: col as usize, ..t.live })
}

pub open spec fn set_line(t: TermView, l: Seq<Cell>) -> TermView {
    let b = t.live;
    t.with_live(BufView { grid: b.grid.update(b.cursor_row as int, l), ..b })
}

pub open spec fn set_grid(t: TermView, g: Seq<Seq<Cell>>) -> TermView {
    t.with_live(BufView { grid: g, ..t.live })
}

pub open spec fn cur_line(t: TermView) -> Seq<Cell> {
    t.live.grid[t.live.cursor_row as int]
}

/// ICH: `n` blanks inserted at the cursor.
pub open spec fn insert_chars_model(t: TermView, n: int) -> TermView {
    let col = t.live.cursor_col as int;
    if col < t.cols {
        set_line(t, insert_blanks(cur_line(t), col, min_int(n, t.cols - col), t.blank()))
    } else {
        t
    }
}

/// DCH: `n` cells deleted at the cursor.
pub open spec fn delete_chars_model(t: TermView, n: int) -> TermView {
    let col = t.live.cursor_col as int;
    if col < t.cols {
        set_line(t, delete_cells(cur_line(t), col, min_int(n, t.cols - col), t.blank()))
    } else {
        t
    }
}

/// ECH: `n` cells erased from the cursor on.
pub open spec fn erase_chars_model(t: TermView, n: int) -> TermView {
    let col = t.live.cursor_col as int;
    if col < t.cols {
        set_line(t, erase_span(cur_line(t), col, min_int(col + n, t.cols as int), t.blank()))
    } else {
        t
    }
}

/// ED: 0 from the cursor to the end, 1 from the start to the cursor, 2 and
/// 3 everything (and the cursor goes home).
pub open spec fn erase_display_model(t: TermView, mode: u16) -> TermView {
    let b = t.live;
    let row = b.cursor_row as int;
    let col = b.cursor_col as int;
    if mode == 0 {
        set_grid(
            t,
            erase_rows(
                b.grid.update(row, erase_span(b.grid[row], col, t.cols as int, t.blank())),
                row + 1,
                t.rows as int,
                t.blank_line(),
            ),
        )
    } else if mode == 1 {
        set_grid(
            t,
            erase_rows(b.grid, 0, row, t.blank_line()).update(
                row,
                erase_span(b.grid[row], 0, min_int(col + 1, t.cols as int), t.blank()),
            ),
        )
    } else if mode == 2 || mode == 3 {
        set_cursor(set_grid(t, erase_rows(b.grid, 0, t.rows as int, t.blank_line())), 0, 0)
    } else {
        t
    }
}

/// EL: 0 from the cursor to the end of the line, 1 from its start to the
/// cursor, 2 the whole line.
pub open spec fn erase_line_model(t: TermView, mode: u16) -> TermView {
    let col = t.live.cursor_col as int;
    if mode == 0 {
        set_line(t, erase_span(cur_line(t), col, t.cols as int, t.blank()))
    } else if mode == 1 {
        set_line(t, erase_span(cur_line(t), 0, min_int(col + 1, t.cols as int), t.blank()))
    } else if mode == 2 {
        set_line(t, erase_span(cur_line(t), 0, t.cols as int, t.blank()))
    } else {
        t
    }
}

pub open spec fn in_region(b: BufView) -> bool {
    b.scroll_top <= b.cursor_row <= b.scroll_bottom
}

/// IL: `n` blank lines inserted at the cursor row, within the scroll region.
pub open spec fn insert_lines_model(t: TermView, n: int) -> TermView {
    let b = t.live;
    if in_region(b) {
        set_grid(
            t,
            scroll_down_n(
                b.grid,
                b.cursor_row as int,
                b.scroll_bottom as int,
                t.blank_line(),
                min_int(n, b.scroll_bottom - b.cursor_row + 1) as nat,
            ),
        )
    } else {
        t
    }
}

/// DL: `n` lines deleted at the cursor row, within the scroll region.
pub open spec fn delete_lines_model(t: TermView, n: int) -> TermView {
    let b = t.live;
    if in_region(b) {
        set_grid(
            t,
            scroll_up_n(
                b.grid,
                b.cursor_row as int,
                b.scroll_bottom as int,
                t.blank_line(),
                min_int(n, b.scroll_bottom - b.cursor_row + 1) as nat,
            ),
        )
    } else {
        t
    }
}

/// SU: the scroll region moved up `n` lines.
pub open spec fn scroll_up_model(t: TermView, n: int) -> TermView {
    let b = t.live;
    set_grid(
        t,
        scroll_up_n(
            b.grid,
            b.scroll_top as int,
            b.scroll_bottom as int,
            t.blank_line(),
            min_int(n, b.scroll_bottom - b.scroll_top + 1) as nat,
        ),
    )
}

/// SD: the scroll region moved down `n` lines.
pub open spec fn scroll_down_model(t: TermView, n: int) -> TermView {
    let b = t.live;
    set_grid(
        t,
        scroll_down_n(
            b.grid,
            b.scroll_top as int,
            b.scroll_bottom as int,
            t.blank_line(),
            min_int(n, b.scroll_bottom - b.scroll_top + 1) as nat,
        ),
    )
}

/// `ch` printed `k` times.
pub open spec fn repeat_print(t: TermView, ch: char, k: nat) -> TermView
    decreases k,
{
    if k == 0 {
        t
    } else {
        print_model(repeat_print(t, ch, (k - 1) as nat), ch, print_width(ch))
    }
}

/// REP: the last printed character printed `n` more times.
pub open spec fn repeat_model(t: TermView, n: int) -> TermView {
    match t.last_printable {
        Some(ch) => repeat_print(t, ch, n as nat),
        None => t,
    }
}

/// The cursor saved (ESC 7, CSI s).
pub open spec fn save_cursor_model(t: TermView) -> TermView {
    t.with_live(
        BufView { saved_cursor: (t.live.cursor_row, t.live.cursor_col), ..t.live },
    )
}

/// The saved cursor restored (ESC 8, CSI u), clamped to the screen.
pub open spec fn restore_cursor_model(t: TermView) -> TermView {
    set_cursor(
        t,
        min_int(t.live.saved_cursor.0 as int, t.rows - 1),
        min_int(t.live.saved_cursor.1 as int, t.cols as int),
    )
}

/// DECSTBM: the scroll region set to rows `top..=bottom` (1-based; missing
/// or zero means the screen's edge), or to the whole screen if that is not
/// at least two rows; the cursor goes home.
pub open spec fn scroll_region_model(t: TermView, ps: Seq<Vec<u16>>) -> TermView {
    let top = count_param(ps, 0);
    let b0 = param_of(ps, 1, 0);
    let bottom = if b0 == 0 {
        t.rows as int
    } else {
        b0 as int
    };
    let top = min_int(top - 1, t.rows - 1);
    let bottom = min_int(max_int(bottom - 1, 0), t.rows - 1);
    let (top, bottom) = if top < bottom {
        (top, bottom)
    } else {
        (0, t.rows - 1)
    };
    t.with_live(
        BufView {
            scroll_top: top as usize,
            scroll_bottom: bottom as usize,
            cursor_row: 0,
            cursor_col: 0,
            ..t.live
        },
    )
}


/// How many parameters the SGR code at `i` takes: 3 for `38;5;N` and
/// `48;5;N`, 5 for `38;2;R;G;B` and `48;2;R;G;B`, otherwise 1.
pub open spec fn sgr_len(ps: Seq<u16>, i: int) -> int {
    let v = ps[i];
    if (v == 38 || v == 48) && i + 2 < ps.len() && ps[i + 1] == 5 {
        3
    } else if (v == 38 || v == 48) && i + 4 < ps.len() && ps[i + 1] == 2 {
        5
    } else {
        1
    }
}

pub open spec fn with_color(p: Pen, fg: bool, c: Color) -> Pen {
    if fg {
        Pen { fg: c, ..p }
    } else {
        Pen { bg: c, ..p }
    }
}

/// The pen after the SGR code at `i`. Color values above 255 leave the pen
/// as it is.
pub open spec fn sgr_pen(p: Pen, ps: Seq<u16>, i: int) -> Pen {
    let v = ps[i];
    if v == 0 {
        plain_pen()
    } else if v == 1 {
        Pen { bold: true, ..p }
    } else if v == 3 {
        Pen { italic: true, ..p }
    } else if v == 4 {
        Pen { underline: true, ..p }
    } else if v == 7 {
        Pen { reverse: true, ..p }
    } else if v == 22 {
        Pen { bold: false, ..p }
    } else if v == 23 {
        Pen { italic: false, ..p }
    } else if v == 24 {
        Pen { underline: false, ..p }
    } else if v == 27 {
        Pen { reverse: false, ..p }
    } else if 30 <= v <= 37 {
        Pen { fg: Color::Indexed((v - 30) as u8), ..p }
    } else if 40 <= v <= 47 {
        Pen { bg: Color::Indexed((v - 40) as u8), ..p }
    } else if 90 <= v <= 97 {
        Pen { fg: Color::Indexed((v - 90 + 8) as u8), ..p }
    } else if 100 <= v <= 107 {
        Pen { bg: Color::Indexed((v - 100 + 8) as u8), ..p }
    } else if v == 39 {
        Pen { fg: Color::Default, ..p }
    } else if v == 49 {
        Pen { bg: Color::Default, ..p }
    } else if sgr_len(ps, i) == 3 {
        if ps[i + 2] <= 255 {
            with_color(p, v == 38, Color::Indexed(ps[i + 2] as u8))
        } else {
            p
        }
    } else if sgr_len(ps, i) == 5 {
        if ps[i + 2] <= 255 && ps[i + 3] <= 255 && ps[i + 4] <= 255 {
            with_color(
                p,
                v == 38,
                Color::Rgb(rgb(ps[i + 2] as u8, ps[i + 3] as u8, ps[i + 4] as u8)),
            )
        } else {
            p
        }
    } else {
        p
    }
}

/// The SGR codes from `i` on applied left to right.
pub open spec fn sgr_from(p: Pen, ps: Seq<u16>, i: int) -> Pen
    decreases ps.len() - i,
{
    if i < 0 || i >= ps.len() {
        p
    } else {
        sgr_from(sgr_pen(p, ps, i), ps, i + sgr_len(ps, i))
    }
}

/// The first sub-parameter of each parameter (0 where there is none).
pub open spec fn firsts(ps: Seq<Vec<u16>>) -> Seq<u16> {
    Seq::new(ps.len(), |i: int| if ps[i]@.len() > 0 { ps[i]@[0] } else { 0 })
}

/// SGR: no parameter resets the pen; otherwise the codes apply in order.
pub open spec fn sgr_model(p: Pen, ps: Seq<Vec<u16>>) -> Pen {
    if ps.len() == 0 {
        plain_pen()
    } else {
        sgr_from(p, firsts(ps), 0)
    }
}

/// A blank alternate screen, as first used.
pub open spec fn fresh_alt(t: TermView) -> BufView {
    BufView {
        grid: blank_screen(default_cell(), t.rows as nat, t.cols as nat),
        cursor_row: 0,
        cursor_col: 0,
        saved_cursor: (0, 0),
        scroll_top: 0,
        scroll_bottom: (t.rows - 1) as usize,
    }
}

/// Entering the alternate screen: the cursor saved if `save`, the screens
/// swapped, the alternate one cleared (cursor home, whole-screen region) if
/// `clear`. Nothing happens if it is already on display.
pub open spec fn enter_model(t: TermView, save: bool, clear: bool) -> TermView {
    if t.in_alt {
        t
    } else {
        let alt = if t.alt.grid.len() == 0 {
            fresh_alt(t)
        } else {
            t.alt
        };
        let live = if clear {
            BufView {
                grid: blank_screen(blank_cell(t.pen), t.rows as nat, t.cols as nat),
                cursor_row: 0,
                cursor_col: 0,
                scroll_top: 0,
                scroll_bottom: (t.rows - 1) as usize,
                ..alt
            }
        } else {
            alt
        };
        TermView {
            live,
            alt: t.live,
            in_alt: true,
            saved_cursor_1049: if save {
                Some((t.live.cursor_row, t.live.cursor_col))
            } else {
                t.saved_cursor_1049
            },
            ..t
        }
    }
}

/// Leaving the alternate screen: the screens swapped back; if `restore` and
/// a cursor was saved on entry, it comes back (clamped) and is forgotten.
pub open spec fn exit_model(t: TermView, restore: bool) -> TermView {
    if !t.in_alt {
        t
    } else {
        match t.saved_cursor_1049 {
            Some(rc) => if restore {
                TermView {
                    live: BufView {
                        cursor_row: min_int(rc.0 as int, t.rows - 1) as usize,
                        cursor_col: min_int(rc.1 as int, t.cols as int) as usize,
                        ..t.alt
                    },
                    alt: t.live,
                    in_alt: false,
                    saved_cursor_1049: None,
                    ..t
                }
            } else {
                TermView { live: t.alt, alt: t.live, in_alt: false, ..t }
            },
            None => TermView { live: t.alt, alt: t.live, in_alt: false, ..t },
        }
    }
}

/// A DEC private mode set (`set`) or reset: 25 cursor visibility; 47 and
/// 1047 the alternate screen; 1049 the alternate screen with cursor save
/// and clear. Others are ignored.
pub open spec fn mode_model(t: TermView, p: u16, set: bool) -> TermView {
    if p == 25 {
        TermView { cursor_visible: set, ..t }
    } else if p == 47 || p == 1047 {
        if set {
            enter_model(t, false, false)
        } else {
            exit_model(t, false)
        }
    } else if p == 1049 {
        if set {
            enter_model(t, true, true)
        } else {
            exit_model(t, true)
        }
    } else {
        t
    }
}

pub open spec fn modes_from(t: TermView, ps: Seq<Vec<u16>>, set: bool, i: int) -> TermView
    decreases ps.len() - i,
{
    if i < 0 || i >= ps.len() {
        t
    } else {
        let t2 = if ps[i]@.len() > 0 {
            mode_model(t, ps[i]@[0], set)
        } else {
            t
        };
        modes_from(t2, ps, set, i + 1)
    }
}

/// Resize to `cols` x `rows` (a zero counts as 1). Unchanged dimensions
/// change nothing and give `false`. Otherwise both screens are blanked at the
/// new size, their cursors clamped, their scroll regions reset, the mark
/// store emptied (no cell points into it any more), and the result is
/// `true`.
pub open spec fn resize_model(t: TermView, cols: usize, rows: usize) -> (TermView, bool) {
    let c = if cols == 0 {
        1
    } else {
        cols
    };
    let r = if rows == 0 {
        1
    } else {
        rows
    };
    if c == t.cols && r == t.rows {
        (t, false)
    } else {
        let bl = blank_cell(t.pen);
        let live = BufView {
            grid: blank_screen(bl, r as nat, c as nat),
            cursor_row: min_int(t.live.cursor_row as int, r - 1) as usize,
            cursor_col: min_int(t.live.cursor_col as int, c - 1) as usize,
            saved_cursor: t.live.saved_cursor,
            scroll_top: 0,
            scroll_bottom: (r - 1) as usize,
        };
        let alt = BufView {
            grid: if t.alt.grid.len() == 0 {
                Seq::empty()
            } else {
                blank_screen(bl, r as nat, c as nat)
            },
            cursor_row: min_int(t.alt.cursor_row as int, r - 1) as usize,
            cursor_col: min_int(t.alt.cursor_col as int, c - 1) as usize,
            saved_cursor: t.alt.saved_cursor,
            scroll_top: 0,
            scroll_bottom: (r - 1) as usize,
        };
        (TermView { cols: c, rows: r, live, alt, mark_store: Seq::empty(), ..t }, true)
    }
}

/// A CSI sequence with final byte `f`.
pub open spec fn csi_model(t: TermView, ps: Seq<Vec<u16>>, private: bool, f: u8) -> TermView {
    let n = count_param(ps, 0);
    let row = t.live.cursor_row as int;
    let col = t.live.cursor_col as int;
    let last_row = t.rows - 1;
    let last_col = t.cols - 1;
    if f == 0x41 {
        set_cursor(t, max_int(row - n, 0), col)
    } else if f == 0x42 {
        set_cursor(t, min_int(row + n, last_row), col)
    } else if f == 0x43 {
        set_cursor(t, row, min_int(col + n, last_col))
    } else if f == 0x44 {
        set_cursor(t, row, max_int(col - n, 0))
    } else if f == 0x45 {
        set_cursor(t, min_int(row + n, last_row), 0)
    } else if f == 0x46 {
        set_cursor(t, max_int(row - n, 0), 0)
    } else if f == 0x47 {
        set_cursor(t, row, position_param(ps, 0, last_col))
    } else if f == 0x64 {
        set_cursor(t, position_param(ps, 0, last_row), col)
    } else if f == 0x48 || f == 0x66 {
        set_cursor(t, position_param(ps, 0, last_row), position_param(ps, 1, last_col))
    } else if f == 0x40 {
        insert_chars_model(t, n)
    } else if f == 0x50 {
        delete_chars_model(t, n)
    } else if f == 0x58 {
        erase_chars_model(t, n)
    } else if f == 0x4a {
        erase_display_model(t, param_of(ps, 0, 0))
    } else if f == 0x4b {
        erase_line_model(t, param_of(ps, 0, 0))
    } else if f == 0x4c {
        insert_lines_model(t, n)
    } else if f == 0x4d {
        delete_lines_model(t, n)
    } else if f == 0x53 {
        scroll_up_model(t, n)
    } else if f == 0x54 {
        scroll_down_model(t, n)
    } else if f == 0x62 {
        repeat_model(t, n)
    } else if f == 0x73 {
        save_cursor_model(t)
    } else if f == 0x75 {
        restore_cursor_model(t)
    } else if f == 0x72 {
        scroll_region_model(t, ps)
    } else if f == 0x6d {
        TermView { pen: sgr_model(t.pen, ps), ..t }
    } else if (f == 0x68 || f == 0x6c) && private {
        modes_from(t, ps, f == 0x68, 0)
    } else {
        t
    }
}

/// The character set that designator `d` names: `0` is DEC Special
/// Graphics, anything else ASCII.
pub open spec fn charset_of(d: u8) -> Charset {
    if d == 0x30 {
        Charset::DecSpecial
    } else {
        Charset::Ascii
    }
}

/// An ESC sequence with intermediates `inter` and final byte `f`.
pub open spec fn esc_model(t: TermView, inter: Seq<u8>, f: u8) -> TermView {
    if inter.len() == 0 {
        if f == 0x44 {
            t.with_live(lf_view(t.live, t.blank_line()))
        } else if f == 0x4d {
            t.with_live(ri_view(t.live, t.blank_line()))
        } else if f == 0x45 {
            t.with_live(BufView { cursor_col: 0, ..lf_view(t.live, t.blank_line()) })
        } else if f == 0x63 {
            initial_view(t.cols, t.rows)
        } else if f == 0x37 {
            save_cursor_model(t)
        } else if f == 0x38 {
            restore_cursor_model(t)
        } else {
            t
        }
    } else if inter.len() == 1 && inter[0] == 0x28 {
        TermView { g0: charset_of(f), ..t }
    } else if inter.len() == 1 && inter[0] == 0x29 {
        TermView { g1: charset_of(f), ..t }
    } else {
        t
    }
}

/// OSC 4: each `(index, spec)` pair from `i` on sets a palette entry; pairs
/// with an index above 255 or a spec that names no color are skipped.
pub open spec fn osc4_from(pal: Seq<Option<Rgb>>, ps: Seq<Vec<u8>>, i: int) -> Seq<Option<Rgb>>
    decreases ps.len() - i,
{
    if i < 0 || i + 1 >= ps.len() {
        pal
    } else {
        let k = decimal_of(ps[i]@);
        let c = color_spec_of(ps[i + 1]@);
        let pal2 = if k is Some && k->0 < 256 && c is Some {
            pal.update(k->0 as int, c)
        } else {
            pal
        };
        osc4_from(pal2, ps, i + 2)
    }
}

/// OSC 104: each index from `i` on is reset.
pub open spec fn osc104_from(pal: Seq<Option<Rgb>>, ps: Seq<Vec<u8>>, i: int) -> Seq<Option<Rgb>>
    decreases ps.len() - i,
{
    if i < 0 || i >= ps.len() {
        pal
    } else {
        let k = decimal_of(ps[i]@);
        let pal2 = if k is Some && k->0 < 256 {
            pal.update(k->0 as int, None)
        } else {
            pal
        };
        osc104_from(pal2, ps, i + 1)
    }
}

/// An OSC command: 4 and 104 set and reset palette entries; 10, 11, 12 set
/// the default foreground, background and cursor color; 110, 111, 112 reset
/// them. Others, and specs that name no color, are ignored.
pub open spec fn osc_model(t: TermView, ps: Seq<Vec<u8>>) -> TermView {
    if ps.len() == 0 {
        t
    } else {
        match decimal_of(ps[0]@) {
            None => t,
            Some(cmd) => if cmd == 4 {
                TermView { palette: osc4_from(t.palette, ps, 1), ..t }
            } else if cmd == 10 || cmd == 11 || cmd == 12 {
                if ps.len() < 2 {
                    t
                } else {
                    match color_spec_of(ps[1]@) {
                        Some(c) => if cmd == 10 {
                            TermView { default_fg: c, ..t }
                        } else if cmd == 11 {
                            TermView { default_bg: c, ..t }
                        } else {
                            TermView { cursor_color: Some(c), ..t }
                        },
                        None => t,
                    }
                }
            } else if cmd == 104 {
                if ps.len() < 2 {
                    TermView { palette: all_unset(256), ..t }
                } else {
                    TermView { palette: osc104_from(t.palette, ps, 1), ..t }
                }
            } else if cmd == 110 {
                TermView { default_fg: rgb(255, 255, 255), ..t }
            } else if cmd == 111 {
                TermView { default_bg: rgb(0, 0, 0), ..t }
            } else if cmd == 112 {
                TermView { cursor_color: None, ..t }
            } else {
                t
            },
        }
    }
}



/// The state after one parser action.
#[verifier::opaque]
pub open spec fn action_model(t: TermView, a: Action) -> TermView {
    match a {
        Action::Print(c) => print_model(t, t.mapped(c), print_width(t.mapped(c))),
        Action::Execute(b) => execute_model(t, b),
        Action::Csi { params, intermediates, ignore, action } => if ignore {
            t
        } else {
            csi_model(
                t,
                params@,
                intermediates@.len() > 0 && intermediates@[0] == 0x3f,
                action,
            )
        },
        Action::Esc { intermediates, byte } => esc_model(t, intermediates@, byte),
        Action::Osc { payload, bell_terminated } => osc_model(t, payload@),
    }
}

/// The state after the actions `acts`, in order.
pub open spec fn actions_model(t: TermView, acts: Seq<Action>) -> TermView
    decreases acts.len(),
{
    if acts.len() == 0 {
        t
    } else {
        action_model(actions_model(t, acts.drop_last()), acts.last())
    }
}

/// The invariants that hold in every reachable state: the cursor is on the
/// screen (its column may be one past the last: pending wrap); the scroll
/// regions of both screens lie within the screen; every right half of a
/// wide glyph stands just right of a cell of width 2.
pub open spec fn invariants_hold(t: TermView) -> bool {
    &&& t.live.cursor_row < t.rows
    &&& t.live.cursor_col <= t.cols
    &&& t.live.scroll_top <= t.live.scroll_bottom < t.rows
    &&& t.alt.scroll_top <= t.alt.scroll_bottom < t.rows
    &&& forall|r: int, c: int|
        0 <= r < t.rows && 0 <= c < t.cols && (#[trigger] t.cell(r, c)).cont ==> c > 0 && t.cell(
            r,
            c - 1,
        ).width == 2
}

/// A well-formed state keeps the invariants.
pub proof fn lemma_wf_invariants(t: TermView)
    requires
        t.wf(),
    ensures
        invariants_hold(t),
{
    assert forall|r: int, c: int|
        0 <= r < t.rows && 0 <= c < t.cols && (#[trigger] t.cell(r, c)).cont implies c > 0
        && t.cell(r, c - 1).width == 2 by {
        assert(line_ok(t.live.grid[r]));
    }
}

} // verus!
