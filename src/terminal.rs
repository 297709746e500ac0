use vstd::prelude::*;

use crate::buffer::{blank_screen, Buffer};
use crate::cell::{blank_cell, default_cell, map_dec_special, Cell, Charset, Pen};
use crate::color::{
    default_bg, default_fg, parse_color_spec, parse_decimal, xterm_256_color, Color, Rgb,
};
use crate::line::line_ok;
use crate::model::{
    action_model, actions_model, all_unset, char_width_of, count_param, csi_model,
    delete_chars_model, delete_lines_model, enter_model, erase_chars_model, erase_display_model,
    erase_line_model, esc_model, execute_model, exit_model, firsts, initial_view,
    insert_chars_model, insert_lines_model, invariants_hold, lemma_wf_invariants, mode_model,
    modes_from, osc104_from, osc4_from, glyph, osc_model, print_combining, param_of, position_param, print_model, print_width,
    repeat_model, repeat_print, resize_model, scroll_down_model, scroll_region_model,
    scroll_up_model, sgr_from, sgr_len, sgr_model, sgr_pen, TermView,
};

verus! {

/// Relies on `unicode_width::UnicodeWidthChar::width`: the column width of
/// `c`, `None` for control characters, one column for printable ASCII.
#[verifier::external_body]
fn char_width(c: char) -> (r: Option<usize>)
    ensures
        r == char_width_of(c),
        0x20 <= c as u32 && (c as u32) < 0x7f ==> r == Some(1usize),
        (c as u32) < 0x20 ==> r is None,
{
    unicode_width::UnicodeWidthChar::width(c)
}

/// One action of the escape-sequence parser.
pub enum Action {
    Print(char),
    Execute(u8),
    Csi { params: Vec<Vec<u16>>, intermediates: Vec<u8>, ignore: bool, action: u8 },
    Esc { intermediates: Vec<u8>, byte: u8 },
    Osc { payload: Vec<Vec<u8>>, bell_terminated: bool },
}

/// The terminal state engine: the screens, cursor, attributes, character
/// sets and colors, changed by the actions of the escape-sequence parser.
pub struct TerminalGrid {
    cols: usize,
    rows: usize,
    live: Buffer,
    alt: Buffer,
    in_alt: bool,
    cursor_visible: bool,
    saved_cursor_1049: Option<(usize, usize)>,
    pen: Pen,
    g0: Charset,
    g1: Charset,
    use_g1: bool,
    last_printable: Option<char>,
    default_fg: Rgb,
    default_bg: Rgb,
    cursor_color: Option<Rgb>,
    palette: Vec<Option<Rgb>>,
    mark_store: Vec<Vec<char>>,
    /// Whether anything was applied since the renderer last drew.
    changed: bool,
}

impl View for TerminalGrid {
    type V = TermView;

    closed spec fn view(&self) -> TermView {
        TermView {
            cols: self.cols,
            rows: self.rows,
            live: self.live@,
            alt: self.alt@,
            in_alt: self.in_alt,
            cursor_visible: self.cursor_visible,
            saved_cursor_1049: self.saved_cursor_1049,
            pen: self.pen,
            g0: self.g0,
            g1: self.g1,
            use_g1: self.use_g1,
            last_printable: self.last_printable,
            default_fg: self.default_fg,
            default_bg: self.default_bg,
            cursor_color: self.cursor_color,
            palette: self.palette@,
            mark_store: Seq::new(self.mark_store@.len(), |i: int| self.mark_store@[i]@),
        }
    }
}

fn copy_chars(v: &Vec<char>) -> (r: Vec<char>)
    ensures
        r@ == v@,
{
    let mut r: Vec<char> = Vec::new();
    let mut i: usize = 0;
    while i < v.len()
        invariant
            i <= v@.len(),
            r@ == v@.take(i as int),
        decreases v@.len() - i,
    {
        r.push(v[i]);
        i = i + 1;
        assert(r@ =~= v@.take(i as int));
    }
    assert(v@.take(i as int) =~= v@);
    r
}

fn unset_palette() -> (r: Vec<Option<Rgb>>)
    ensures
        r@ == all_unset(256),
{
    let mut v: Vec<Option<Rgb>> = Vec::new();
    let mut i: usize = 0;
    while i < 256
        invariant
            i <= 256,
            v@ == all_unset(i as nat),
        decreases 256 - i,
    {
        v.push(None);
        i = i + 1;
        assert(v@ =~= all_unset(i as nat));
    }
    v
}

/// One SGR code at `i`: the new pen and the index of the next code.
fn sgr_step(p: Pen, ps: &Vec<u16>, i: usize) -> (r: (Pen, usize))
    requires
        i < ps@.len(),
    ensures
        r.0 == sgr_pen(p, ps@, i as int),
        r.1 == i + sgr_len(ps@, i as int),
{
    let v = ps[i];
    let len = ps.len();
    let ext = v == 38 || v == 48;
    if v == 0 {
        (Pen::plain(), i + 1)
    } else if v == 1 {
        (Pen { bold: true, ..p }, i + 1)
    } else if v == 3 {
        (Pen { italic: true, ..p }, i + 1)
    } else if v == 4 {
        (Pen { underline: true, ..p }, i + 1)
    } else if v == 7 {
        (Pen { reverse: true, ..p }, i + 1)
    } else if v == 22 {
        (Pen { bold: false, ..p }, i + 1)
    } else if v == 23 {
        (Pen { italic: false, ..p }, i + 1)
    } else if v == 24 {
        (Pen { underline: false, ..p }, i + 1)
    } else if v == 27 {
        (Pen { reverse: false, ..p }, i + 1)
    } else if 30 <= v && v <= 37 {
        (Pen { fg: Color::Indexed((v - 30) as u8), ..p }, i + 1)
    } else if 40 <= v && v <= 47 {
        (Pen { bg: Color::Indexed((v - 40) as u8), ..p }, i + 1)
    } else if 90 <= v && v <= 97 {
        (Pen { fg: Color::Indexed((v - 90 + 8) as u8), ..p }, i + 1)
    } else if 100 <= v && v <= 107 {
        (Pen { bg: Color::Indexed((v - 100 + 8) as u8), ..p }, i + 1)
    } else if v == 39 {
        (Pen { fg: Color::Default, ..p }, i + 1)
    } else if v == 49 {
        (Pen { bg: Color::Default, ..p }, i + 1)
    } else if ext && len - i > 2 && ps[i + 1] == 5 {
        let n = ps[i + 2];
        if n <= 255 {
            let c = Color::Indexed(n as u8);
            if v == 38 {
                (Pen { fg: c, ..p }, i + 3)
            } else {
                (Pen { bg: c, ..p }, i + 3)
            }
        } else {
            (p, i + 3)
        }
    } else if ext && len - i > 4 && ps[i + 1] == 2 {
        let r = ps[i + 2];
        let g = ps[i + 3];
        let b = ps[i + 4];
        if r <= 255 && g <= 255 && b <= 255 {
            let c = Color::Rgb(Rgb { r: r as u8, g: g as u8, b: b as u8 });
            if v == 38 {
                (Pen { fg: c, ..p }, i + 5)
            } else {
                (Pen { bg: c, ..p }, i + 5)
            }
        } else {
            (p, i + 5)
        }
    } else {
        (p, i + 1)
    }
}

/// The colors of the cursor block and of the glyph drawn on it, over a cell
/// of colors `fg` on `bg`: the cursor color if one is set, else the cell's
/// foreground (white where that equals the background); the glyph takes
/// whichever cell color differs from the block.
pub fn cursor_colors(fg: Rgb, bg: Rgb, cursor: Option<Rgb>) -> (r: (Rgb, Rgb))
    ensures
        r.0 == (match cursor {
            Some(c) => c,
            None => if fg == bg {
                Rgb { r: 255, g: 255, b: 255 }
            } else {
                fg
            },
        }),
        r.1 == (if r.0 == bg {
            fg
        } else {
            bg
        }),
{
    let block = match cursor {
        Some(c) => c,
        None => if fg == bg {
            Rgb { r: 255, g: 255, b: 255 }
        } else {
            fg
        },
    };
    let glyph = if block == bg {
        fg
    } else {
        bg
    };
    (block, glyph)
}

/// Parameter `idx` (its first sub-parameter), or `default`.
pub fn param(params: &Vec<Vec<u16>>, idx: usize, default: u16) -> (r: u16)
    ensures
        r == param_of(params@, idx as int, default),
{
    if idx < params.len() && params[idx].len() > 0 {
        params[idx][0]
    } else {
        default
    }
}

/// A count parameter: missing or zero means 1.
pub fn csi_count(params: &Vec<Vec<u16>>, idx: usize) -> (r: usize)
    ensures
        r == count_param(params@, idx as int),
        1 <= r <= 0xffff,
{
    let n = param(params, idx, 1);
    if n == 0 {
        1
    } else {
        n as usize
    }
}

/// A 1-based position parameter as a 0-based index, at most `max`.
pub fn csi_position(params: &Vec<Vec<u16>>, idx: usize, max: usize) -> (r: usize)
    ensures
        r == position_param(params@, idx as int, max as int),
{
    let v = csi_count(params, idx) - 1;
    if v < max {
        v
    } else {
        max
    }
}

impl TerminalGrid {
    pub open spec fn wf(&self) -> bool {
        self@.wf()
    }

    /// Whether anything was applied since the renderer last drew.
    pub closed spec fn pending_render(&self) -> bool {
        self.changed
    }

    /// A blank terminal of `cols` x `rows`; a zero dimension counts as 1.
    pub fn new(cols: usize, rows: usize) -> (r: TerminalGrid)
        ensures
            r.wf(),
            !r.pending_render(),
            r@ == initial_view(
                if cols == 0 {
                    1
                } else {
                    cols
                },
                if rows == 0 {
                    1
                } else {
                    rows
                },
            ),
    {
        let cols = if cols == 0 {
            1
        } else {
            cols
        };
        let rows = if rows == 0 {
            1
        } else {
            rows
        };
        let pen = Pen::plain();
        let live = Buffer::new(rows, cols, pen.blank());
        let r = TerminalGrid {
            cols,
            rows,
            live,
            alt: Buffer::empty(),
            in_alt: false,
            cursor_visible: true,
            saved_cursor_1049: None,
            pen,
            g0: Charset::Ascii,
            g1: Charset::Ascii,
            use_g1: false,
            last_printable: None,
            default_fg: default_fg(),
            default_bg: default_bg(),
            cursor_color: None,
            palette: unset_palette(),
            mark_store: Vec::new(),
            changed: false,
        };
        assert(r.alt@.grid =~= Seq::<Seq<Cell>>::empty());
        assert(r@.mark_store =~= Seq::<Seq<char>>::empty());
        r
    }

    pub fn rows(&self) -> (r: usize)
        ensures
            r == self@.rows,
    {
        self.rows
    }

    pub fn cols(&self) -> (r: usize)
        ensures
            r == self@.cols,
    {
        self.cols
    }

    pub fn default_fg(&self) -> (r: Rgb)
        ensures
            r == self@.default_fg,
    {
        self.default_fg
    }

    pub fn default_bg(&self) -> (r: Rgb)
        ensures
            r == self@.default_bg,
    {
        self.default_bg
    }

    pub fn cursor_visible(&self) -> (r: bool)
        ensures
            r == self@.cursor_visible,
    {
        self.cursor_visible
    }

    pub fn cursor_color(&self) -> (r: Option<Rgb>)
        ensures
            r == self@.cursor_color,
    {
        self.cursor_color
    }

    /// `(row, col)` of the cursor on the screen on display.
    pub fn cursor_pos(&self) -> (r: (usize, usize))
        ensures
            r == (self@.live.cursor_row, self@.live.cursor_col),
    {
        (self.live.cursor_row, self.live.cursor_col)
    }

    pub fn in_alt(&self) -> (r: bool)
        ensures
            r == self@.in_alt,
    {
        self.in_alt
    }

    /// The current SGR state.
    pub fn pen(&self) -> (r: Pen)
        ensures
            r == self@.pen,
    {
        self.pen
    }

    /// The scroll region `(top, bottom)` of the screen on display.
    pub fn scroll_region(&self) -> (r: (usize, usize))
        ensures
            r == (self@.live.scroll_top, self@.live.scroll_bottom),
    {
        (self.live.scroll_top, self.live.scroll_bottom)
    }

    /// The cell at `(row, col)` of the screen on display; a default cell
    /// outside the screen.
    pub fn cell_at(&self, row: usize, col: usize) -> (r: Cell)
        requires
            self.wf(),
        ensures
            row < self@.rows && col < self@.cols ==> r == self@.cell(row as int, col as int),
            !(row < self@.rows && col < self@.cols) ==> r == default_cell(),
    {
        if row < self.rows && col < self.cols {
            assert(self.live@.grid[row as int].len() == self.cols);
            self.live.lines[row][col]
        } else {
            Cell::default()
        }
    }

    /// The glyph at `(row, col)` of the screen on display: its character and
    /// then its combining marks; a space outside the screen.
    pub fn glyph_at(&self, row: usize, col: usize) -> (r: Vec<char>)
        requires
            self.wf(),
        ensures
            row < self@.rows && col < self@.cols ==> r@ == glyph(self@, self@.cell(row as int, col as int)),
            !(row < self@.rows && col < self@.cols) ==> r@ == seq![' '],
    {
        let mut r: Vec<char> = Vec::new();
        if row < self.rows && col < self.cols {
            assert(self.live@.grid[row as int].len() == self.cols);
            let cell = self.live.lines[row][col];
            r.push(cell.ch);
            if let Some(i) = cell.marks {
                if i < self.mark_store.len() {
                    let mut k: usize = 0;
                    let ghost m = self.mark_store@[i as int]@;
                    while k < self.mark_store[i].len()
                        invariant
                            i < self.mark_store@.len(),
                            k <= m.len(),
                            m == self.mark_store@[i as int]@,
                            r@ == seq![cell.ch] + m.take(k as int),
                        decreases m.len() - k,
                    {
                        r.push(self.mark_store[i][k]);
                        k = k + 1;
                        assert(r@ =~= seq![cell.ch] + m.take(k as int));
                    }
                    assert(m.take(k as int) =~= m);
                }
            }
            assert(r@ =~= glyph(self@, self@.cell(row as int, col as int)));
        } else {
            r.push(' ');
        }
        r
    }

    /// The palette entry `index` as set by OSC 4, if it is set.
    pub fn palette_entry(&self, index: u8) -> (r: Option<Rgb>)
        requires
            self.wf(),
        ensures
            r == self@.palette[index as int],
    {
        self.palette[index as usize]
    }

    /// The color that `c` stands for now: the default foreground or
    /// background, a palette entry (set by OSC 4, else the xterm table), or
    /// the direct color.
    pub fn resolve_color(&self, c: Color, is_fg: bool) -> (r: Rgb)
        requires
            self.wf(),
        ensures
            r == self@.resolve(c, is_fg),
    {
        match c {
            Color::Default => if is_fg {
                self.default_fg
            } else {
                self.default_bg
            },
            Color::Indexed(i) => match self.palette[i as usize] {
                Some(x) => x,
                None => xterm_256_color(i),
            },
            Color::Rgb(x) => x,
        }
    }

    /// The displayed foreground and background of `cell`.
    pub fn resolve_cell_colors(&self, cell: &Cell) -> (r: (Rgb, Rgb))
        requires
            self.wf(),
        ensures
            r == (self@.resolve(cell.fg, true), self@.resolve(cell.bg, false)),
    {
        (self.resolve_color(cell.fg, true), self.resolve_color(cell.bg, false))
    }

    /// A zero-width character joins the glyph left of the cursor (see
    /// `print_combining`).
    fn put_combining(&mut self, ch: char)
        requires
            old(self).wf(),
        ensures
            final(self).wf(),
            final(self)@ == print_combining(old(self)@, ch),
    {
        let cols = self.cols;
        let col = self.live.cursor_col;
        if col == 0 {
            return ;
        }
        let row = self.live.cursor_row;
        assert(self.live@.grid[row as int].len() == cols);
        assert(line_ok(self.live@.grid[row as int]));
        let c = if self.live.lines[row][col - 1].cont {
            col - 2
        } else {
            col - 1
        };
        let cell = self.live.lines[row][c];
        let ghost store = self@.mark_store;
        let mut marks: Vec<char> = Vec::new();
        if let Some(i) = cell.marks {
            if i < self.mark_store.len() {
                marks = copy_chars(&self.mark_store[i]);
            }
        }
        marks.push(ch);
        let id = self.mark_store.len();
        self.mark_store.push(marks);
        assert(self@.mark_store =~= store.push(self.mark_store@[id as int]@));
        self.live.set_marks(row, c, id, cols);
    }

    /// Writes `ch` of display width `width` at the cursor with the current
    /// attributes (see `print_model`).
    pub fn put_char(&mut self, ch: char, width: Option<usize>)
        requires
            old(self).wf(),
        ensures
            final(self).wf(),
            final(self)@ == print_model(old(self)@, ch, width),
    {
        let w = match width {
            Some(w) => w,
            None => 1,
        };
        let bl = self.pen.blank();
        let cols = self.cols;
        let rows = self.rows;
        if w == 0 {
            self.put_combining(ch);        } else if w == 1 {
            if self.live.cursor_col >= cols {
                self.live.cursor_col = 0;
                self.live.linefeed(bl, cols);
            }
            let cell = self.pen.cell(ch, 1, false);
            let row = self.live.cursor_row;
            let col = self.live.cursor_col;
            self.live.write_narrow(row, col, cell, bl, cols);
            self.live.cursor_col = col + 1;
            self.last_printable = Some(ch);
        } else {
            if self.live.cursor_col >= cols - 1 && self.live.cursor_col > 0 {
                self.live.cursor_col = 0;
                self.live.linefeed(bl, cols);
            }
            let lead = self.pen.cell(ch, 2, false);
            let row = self.live.cursor_row;
            let col = self.live.cursor_col;
            if col + 2 <= cols {
                let tail = self.pen.cell(' ', 1, true);
                self.live.write_wide(row, col, lead, tail, bl, cols);
                self.live.cursor_col = col + 2;
            } else {
                self.live.write_narrow(row, col, lead, bl, cols);
                self.live.cursor_col = cols;
            }
            self.last_printable = Some(ch);
        }
    }

    /// The character set in use applied to `c`.
    pub fn map_charset_char(&self, c: char) -> (r: char)
        ensures
            r == self@.mapped(c),
    {
        let set = if self.use_g1 {
            self.g1
        } else {
            self.g0
        };
        match set {
            Charset::Ascii => c,
            Charset::DecSpecial => map_dec_special(c),
        }
    }

    /// Prints `c`: through the character set in use, at the width that
    /// East Asian Width gives it.
    pub fn print(&mut self, c: char)
        requires
            old(self).wf(),
        ensures
            final(self).wf(),
            final(self)@ == print_model(
                old(self)@,
                old(self)@.mapped(c),
                print_width(old(self)@.mapped(c)),
            ),
    {
        let ch = self.map_charset_char(c);
        let w = char_width(ch);
        self.put_char(ch, w);
    }

    /// Runs a C0 control character: BS, HT, LF/VT/FF, CR, SO, SI; others
    /// are ignored.
    pub fn execute(&mut self, byte: u8)
        requires
            old(self).wf(),
        ensures
            final(self).wf(),
            final(self)@ == execute_model(old(self)@, byte),
    {
        let cols = self.cols;
        if byte == 0x08 {
            if self.live.cursor_col > 0 {
                self.live.cursor_col = self.live.cursor_col - 1;
            }
        } else if byte == 0x09 {
            let col = self.live.cursor_col;
            if col >= cols - 1 {
                self.live.cursor_col = cols - 1;
            } else {
                let step = 8 - col % 8;
                if step >= cols - 1 - col {
                    self.live.cursor_col = cols - 1;
                } else {
                    self.live.cursor_col = col + step;
                }
            }
        } else if byte == 0x0a || byte == 0x0b || byte == 0x0c {
            let bl = self.pen.blank();
            self.live.linefeed(bl, cols);
        } else if byte == 0x0d {
            self.live.cursor_col = 0;
        } else if byte == 0x0e {
            self.use_g1 = true;
        } else if byte == 0x0f {
            self.use_g1 = false;
        }
    }

    /// ICH: inserts `n` blanks at the cursor, shifting the rest right.
    pub fn insert_chars(&mut self, n: usize)
        requires
            old(self).wf(),
        ensures
            final(self).wf(),
            final(self)@ == insert_chars_model(old(self)@, n as int),
    {
        let row = self.live.cursor_row;
        let col = self.live.cursor_col;
        let cols = self.cols;
        if col < cols {
            let k = if n < cols - col {
                n
            } else {
                cols - col
            };
            let bl = self.pen.blank();
            self.live.insert_blanks(row, col, k, bl, cols);
        }
    }

    /// DCH: deletes `n` cells at the cursor, shifting the rest left.
    pub fn delete_chars(&mut self, n: usize)
        requires
            old(self).wf(),
        ensures
            final(self).wf(),
            final(self)@ == delete_chars_model(old(self)@, n as int),
    {
        let row = self.live.cursor_row;
        let col = self.live.cursor_col;
        let cols = self.cols;
        if col < cols {
            let k = if n < cols - col {
                n
            } else {
                cols - col
            };
            let bl = self.pen.blank();
            self.live.delete_cells(row, col, k, bl, cols);
        }
    }

    /// ECH: erases `n` cells from the cursor on, without shifting.
    pub fn erase_chars(&mut self, n: usize)
        requires
            old(self).wf(),
        ensures
            final(self).wf(),
            final(self)@ == erase_chars_model(old(self)@, n as int),
    {
        let row = self.live.cursor_row;
        let col = self.live.cursor_col;
        let cols = self.cols;
        if col < cols {
            let hi = if n < cols - col {
                col + n
            } else {
                cols
            };
            let bl = self.pen.blank();
            self.live.erase_in_line(row, col, hi, bl, cols);
        }
    }

    /// ED (see `erase_display_model`).
    pub fn erase_display(&mut self, mode: u16)
        requires
            old(self).wf(),
        ensures
            final(self).wf(),
            final(self)@ == erase_display_model(old(self)@, mode),
    {
        let row = self.live.cursor_row;
        let col = self.live.cursor_col;
        let cols = self.cols;
        let rows = self.rows;
        let bl = self.pen.blank();
        if mode == 0 {
            self.live.erase_in_line(row, col, cols, bl, cols);
            self.live.erase_rows(row + 1, rows, bl, cols);
        } else if mode == 1 {
            self.live.erase_rows(0, row, bl, cols);
            let hi = if col < cols {
                col + 1
            } else {
                cols
            };
            self.live.erase_in_line(row, 0, hi, bl, cols);
        } else if mode == 2 || mode == 3 {
            self.live.erase_rows(0, rows, bl, cols);
            self.live.cursor_row = 0;
            self.live.cursor_col = 0;
        }
    }

    /// EL (see `erase_line_model`).
    pub fn erase_line(&mut self, mode: u16)
        requires
            old(self).wf(),
        ensures
            final(self).wf(),
            final(self)@ == erase_line_model(old(self)@, mode),
    {
        let row = self.live.cursor_row;
        let col = self.live.cursor_col;
        let cols = self.cols;
        let bl = self.pen.blank();
        if mode == 0 {
            self.live.erase_in_line(row, col, cols, bl, cols);
        } else if mode == 1 {
            let hi = if col < cols {
                col + 1
            } else {
                cols
            };
            self.live.erase_in_line(row, 0, hi, bl, cols);
        } else if mode == 2 {
            self.live.erase_in_line(row, 0, cols, bl, cols);
        }
    }

    /// IL: inserts `n` blank lines at the cursor row within the scroll region.
    pub fn insert_lines(&mut self, n: usize)
        requires
            old(self).wf(),
        ensures
            final(self).wf(),
            final(self)@ == insert_lines_model(old(self)@, n as int),
    {
        let row = self.live.cursor_row;
        let bottom = self.live.scroll_bottom;
        if self.live.scroll_top <= row && row <= bottom {
            let bl = self.pen.blank();
            let cols = self.cols;
            self.live.scroll_down(row, bottom, n, bl, cols);
        }
    }

    /// DL: deletes `n` lines at the cursor row within the scroll region.
    pub fn delete_lines(&mut self, n: usize)
        requires
            old(self).wf(),
        ensures
            final(self).wf(),
            final(self)@ == delete_lines_model(old(self)@, n as int),
    {
        let row = self.live.cursor_row;
        let bottom = self.live.scroll_bottom;
        if self.live.scroll_top <= row && row <= bottom {
            let bl = self.pen.blank();
            let cols = self.cols;
            self.live.scroll_up(row, bottom, n, bl, cols);
        }
    }

    /// SU: scrolls the scroll region up `n` lines.
    pub fn scroll_up(&mut self, n: usize)
        requires
            old(self).wf(),
        ensures
            final(self).wf(),
            final(self)@ == scroll_up_model(old(self)@, n as int),
    {
        let top = self.live.scroll_top;
        let bottom = self.live.scroll_bottom;
        let bl = self.pen.blank();
        let cols = self.cols;
        self.live.scroll_up(top, bottom, n, bl, cols);
    }

    /// SD: scrolls the scroll region down `n` lines.
    pub fn scroll_down(&mut self, n: usize)
        requires
            old(self).wf(),
        ensures
            final(self).wf(),
            final(self)@ == scroll_down_model(old(self)@, n as int),
    {
        let top = self.live.scroll_top;
        let bottom = self.live.scroll_bottom;
        let bl = self.pen.blank();
        let cols = self.cols;
        self.live.scroll_down(top, bottom, n, bl, cols);
    }

    /// REP: prints the last printed character `n` more times.
    pub fn repeat_last(&mut self, n: usize)
        requires
            old(self).wf(),
        ensures
            final(self).wf(),
            final(self)@ == repeat_model(old(self)@, n as int),
    {
        if let Some(ch) = self.last_printable {
            let w = char_width(ch);
            let mut k: usize = 0;
            while k < n
                invariant
                    k <= n,
                    self.wf(),
                    old(self)@.last_printable == Some(ch),
                    w == print_width(ch),
                    self@ == repeat_print(old(self)@, ch, k as nat),
                decreases n - k,
            {
                self.put_char(ch, w);
                k = k + 1;
            }
        }
    }

    /// DECSTBM (see `scroll_region_model`).
    pub fn set_scroll_region(&mut self, params: &Vec<Vec<u16>>)
        requires
            old(self).wf(),
        ensures
            final(self).wf(),
            final(self)@ == scroll_region_model(old(self)@, params@),
    {
        let rows = self.rows;
        let top = csi_count(params, 0);
        let b0 = param(params, 1, 0);
        let bottom: usize = if b0 == 0 {
            rows
        } else {
            b0 as usize
        };
        let top = if top - 1 < rows - 1 {
            top - 1
        } else {
            rows - 1
        };
        let bottom = if bottom == 0 {
            0
        } else if bottom - 1 < rows - 1 {
            bottom - 1
        } else {
            rows - 1
        };
        if top < bottom {
            self.live.scroll_top = top;
            self.live.scroll_bottom = bottom;
        } else {
            self.live.scroll_top = 0;
            self.live.scroll_bottom = rows - 1;
        }
        self.live.cursor_row = 0;
        self.live.cursor_col = 0;
    }

    /// SGR (see `sgr_model`).
    pub fn apply_sgr(&mut self, params: &Vec<Vec<u16>>)
        requires
            old(self).wf(),
        ensures
            final(self).wf(),
            final(self)@ == (TermView { pen: sgr_model(old(self)@.pen, params@), ..old(self)@ }),
    {
        if params.len() == 0 {
            self.pen = Pen::plain();
            return ;
        }
        let mut codes: Vec<u16> = Vec::new();
        let mut k: usize = 0;
        while k < params.len()
            invariant
                k <= params@.len(),
                codes@ == firsts(params@).take(k as int),
            decreases params@.len() - k,
        {
            if params[k].len() > 0 {
                codes.push(params[k][0]);
            } else {
                codes.push(0);
            }
            k = k + 1;
            assert(codes@ =~= firsts(params@).take(k as int));
        }
        assert(codes@ =~= firsts(params@));
        let ghost target = sgr_from(self.pen, codes@, 0);
        let mut i: usize = 0;
        while i < codes.len()
            invariant
                i <= codes@.len(),
                self.wf(),
                sgr_from(self.pen, codes@, i as int) == target,
                self@ == (TermView { pen: self.pen, ..old(self)@ }),
            decreases codes@.len() - i,
        {
            let (p, j) = sgr_step(self.pen, &codes, i);
            self.pen = p;
            i = if j < codes.len() {
                j
            } else {
                codes.len()
            };
        }
    }

    /// Enters the alternate screen (see `enter_model`).
    pub fn enter_alternate(&mut self, save_cursor: bool, clear: bool)
        requires
            old(self).wf(),
        ensures
            final(self).wf(),
            final(self)@ == enter_model(old(self)@, save_cursor, clear),
    {
        if self.in_alt {
            return ;
        }
        let rows = self.rows;
        let cols = self.cols;
        if save_cursor {
            self.saved_cursor_1049 = Some((self.live.cursor_row, self.live.cursor_col));
        }
        if self.alt.lines.len() == 0 {
            self.alt = Buffer::new(rows, cols, Cell::default());
        }
        std::mem::swap(&mut self.live, &mut self.alt);
        self.in_alt = true;
        if clear {
            let bl = self.pen.blank();
            self.live.erase_rows(0, rows, bl, cols);
            self.live.cursor_row = 0;
            self.live.cursor_col = 0;
            self.live.scroll_top = 0;
            self.live.scroll_bottom = rows - 1;
            assert(self.live@.grid =~= blank_screen(blank_cell(self.pen), rows as nat, cols as nat));
        }
    }

    /// Leaves the alternate screen (see `exit_model`).
    pub fn exit_alternate(&mut self, restore_cursor: bool)
        requires
            old(self).wf(),
        ensures
            final(self).wf(),
            final(self)@ == exit_model(old(self)@, restore_cursor),
    {
        if !self.in_alt {
            return ;
        }
        std::mem::swap(&mut self.live, &mut self.alt);
        self.in_alt = false;
        if restore_cursor {
            if let Some((row, col)) = self.saved_cursor_1049 {
                self.live.cursor_row = if row < self.rows - 1 {
                    row
                } else {
                    self.rows - 1
                };
                self.live.cursor_col = if col < self.cols {
                    col
                } else {
                    self.cols
                };
                self.saved_cursor_1049 = None;
            }
        }
    }

    /// Sets (`set`) or resets DEC private mode `p` (see `mode_model`).
    pub fn set_mode(&mut self, p: u16, set: bool)
        requires
            old(self).wf(),
        ensures
            final(self).wf(),
            final(self)@ == mode_model(old(self)@, p, set),
    {
        if p == 25 {
            self.cursor_visible = set;
        } else if p == 47 || p == 1047 {
            if set {
                self.enter_alternate(false, false);
            } else {
                self.exit_alternate(false);
            }
        } else if p == 1049 {
            if set {
                self.enter_alternate(true, true);
            } else {
                self.exit_alternate(true);
            }
        }
    }

    /// Resizes to `cols` x `rows` (see `resize_model`); `true` if the size
    /// changed.
    pub fn resize(&mut self, cols: usize, rows: usize) -> (changed: bool)
        requires
            old(self).wf(),
        ensures
            final(self).wf(),
            (final(self)@, changed) == resize_model(old(self)@, cols, rows),
            final(self).pending_render() == (old(self).pending_render() || changed),
    {
        let cols = if cols == 0 {
            1
        } else {
            cols
        };
        let rows = if rows == 0 {
            1
        } else {
            rows
        };
        if cols == self.cols && rows == self.rows {
            return false;
        }
        let bl = self.pen.blank();
        let mut live = Buffer::new(rows, cols, bl);
        live.cursor_row = if self.live.cursor_row < rows - 1 {
            self.live.cursor_row
        } else {
            rows - 1
        };
        live.cursor_col = if self.live.cursor_col < cols - 1 {
            self.live.cursor_col
        } else {
            cols - 1
        };
        live.saved_cursor = self.live.saved_cursor;
        let mut alt = if self.alt.lines.len() == 0 {
            Buffer::empty()
        } else {
            Buffer::new(rows, cols, bl)
        };
        alt.cursor_row = if self.alt.cursor_row < rows - 1 {
            self.alt.cursor_row
        } else {
            rows - 1
        };
        alt.cursor_col = if self.alt.cursor_col < cols - 1 {
            self.alt.cursor_col
        } else {
            cols - 1
        };
        alt.saved_cursor = self.alt.saved_cursor;
        alt.scroll_top = 0;
        alt.scroll_bottom = rows - 1;
        self.live = live;
        self.alt = alt;
        self.cols = cols;
        self.rows = rows;
        self.mark_store = Vec::new();
        self.changed = true;
        assert(self@.mark_store =~= Seq::<Seq<char>>::empty());
        assert(self.alt.lines@.len() == 0 ==> self.alt@.grid =~= Seq::<Seq<Cell>>::empty());
        true
    }

    /// RIS: back to the state of a fresh terminal of the same size.
    pub fn reset(&mut self)
        requires
            old(self).wf(),
        ensures
            final(self).wf(),
            final(self)@ == initial_view(old(self)@.cols, old(self)@.rows),
    {
        *self = TerminalGrid::new(self.cols, self.rows);
    }

    /// The CSI sequences that move the cursor relative to where it is.
    fn csi_move(&mut self, f: u8, params: &Vec<Vec<u16>>, private: bool)
        requires
            old(self).wf(),
            f == 0x41 || f == 0x42 || f == 0x43 || f == 0x44 || f == 0x45 || f == 0x46,
        ensures
            final(self).wf(),
            final(self)@ == csi_model(old(self)@, params@, private, f),
    {
        let n = csi_count(params, 0);
        let row = self.live.cursor_row;
        let col = self.live.cursor_col;
        let last_row = self.rows - 1;
        let last_col = self.cols - 1;
        if f == 0x41 {
            self.live.cursor_row = if n < row {
                row - n
            } else {
                0
            };
        } else if f == 0x42 || f == 0x45 {
            self.live.cursor_row = if n < last_row - row {
                row + n
            } else {
                last_row
            };
            if f == 0x45 {
                self.live.cursor_col = 0;
            }
        } else if f == 0x43 {
            self.live.cursor_col = if col < last_col && n < last_col - col {
                col + n
            } else {
                last_col
            };
        } else if f == 0x44 {
            self.live.cursor_col = if n < col {
                col - n
            } else {
                0
            };
        } else {
            self.live.cursor_row = if n < row {
                row - n
            } else {
                0
            };
            self.live.cursor_col = 0;
        }
    }

    /// The CSI sequences that place the cursor, and save and restore it.
    fn csi_place(&mut self, f: u8, params: &Vec<Vec<u16>>, private: bool)
        requires
            old(self).wf(),
            f == 0x47 || f == 0x64 || f == 0x48 || f == 0x66 || f == 0x73 || f == 0x75,
        ensures
            final(self).wf(),
            final(self)@ == csi_model(old(self)@, params@, private, f),
    {
        let row = self.live.cursor_row;
        let col = self.live.cursor_col;
        let last_row = self.rows - 1;
        let last_col = self.cols - 1;
        if f == 0x47 {
            self.live.cursor_col = csi_position(params, 0, last_col);
        } else if f == 0x64 {
            self.live.cursor_row = csi_position(params, 0, last_row);
        } else if f == 0x48 || f == 0x66 {
            self.live.cursor_row = csi_position(params, 0, last_row);
            self.live.cursor_col = csi_position(params, 1, last_col);
        } else if f == 0x73 {
            self.live.saved_cursor = (row, col);
        } else {
            let (r, c) = self.live.saved_cursor;
            self.live.cursor_row = if r < last_row {
                r
            } else {
                last_row
            };
            self.live.cursor_col = if c < self.cols {
                c
            } else {
                self.cols
            };
        }
    }

    /// The CSI sequences that insert, delete, erase, scroll and repeat.
    fn csi_edit(&mut self, f: u8, params: &Vec<Vec<u16>>, private: bool)
        requires
            old(self).wf(),
            f == 0x40 || f == 0x50 || f == 0x58 || f == 0x4a || f == 0x4b || f == 0x4c || f == 0x4d
                || f == 0x53 || f == 0x54 || f == 0x62,
        ensures
            final(self).wf(),
            final(self)@ == csi_model(old(self)@, params@, private, f),
    {
        let n = csi_count(params, 0);
        if f == 0x40 {
            self.insert_chars(n);
        } else if f == 0x50 {
            self.delete_chars(n);
        } else if f == 0x58 {
            self.erase_chars(n);
        } else if f == 0x4a {
            self.erase_display(param(params, 0, 0));
        } else if f == 0x4b {
            self.erase_line(param(params, 0, 0));
        } else if f == 0x4c {
            self.insert_lines(n);
        } else if f == 0x4d {
            self.delete_lines(n);
        } else if f == 0x53 {
            self.scroll_up(n);
        } else if f == 0x54 {
            self.scroll_down(n);
        } else {
            self.repeat_last(n);
        }
    }

    /// A CSI sequence with final byte `final_byte` (see `csi_model`).
    pub fn execute_csi(&mut self, final_byte: u8, params: &Vec<Vec<u16>>, private: bool)
        requires
            old(self).wf(),
        ensures
            final(self).wf(),
            final(self)@ == csi_model(old(self)@, params@, private, final_byte),
    {
        let f = final_byte;
        if f == 0x41 || f == 0x42 || f == 0x43 || f == 0x44 || f == 0x45 || f == 0x46 {
            self.csi_move(f, params, private);
        } else if f == 0x47 || f == 0x64 || f == 0x48 || f == 0x66 || f == 0x73 || f == 0x75 {
            self.csi_place(f, params, private);
        } else if f == 0x40 || f == 0x50 || f == 0x58 || f == 0x4a || f == 0x4b || f == 0x4c || f
            == 0x4d || f == 0x53 || f == 0x54 || f == 0x62 {
            self.csi_edit(f, params, private);
        } else if f == 0x72 {
            self.set_scroll_region(params);
        } else if f == 0x6d {
            self.apply_sgr(params);
        } else if (f == 0x68 || f == 0x6c) && private {
            let set = f == 0x68;
            let mut i: usize = 0;
            while i < params.len()
                invariant
                    i <= params@.len(),
                    self.wf(),
                    modes_from(self@, params@, set, i as int) == modes_from(
                        old(self)@,
                        params@,
                        set,
                        0,
                    ),
                decreases params@.len() - i,
            {
                if params[i].len() > 0 {
                    self.set_mode(params[i][0], set);
                }
                i = i + 1;
            }
        }
    }

    /// A CSI sequence as the parser hands it over: an ignored one (too many
    /// parameters or intermediates) does nothing; `?` first among the
    /// intermediates marks a private one.
    pub fn csi_dispatch(
        &mut self,
        params: &Vec<Vec<u16>>,
        intermediates: &[u8],
        ignore: bool,
        action: u8,
    )
        requires
            old(self).wf(),
        ensures
            final(self).wf(),
            ignore ==> final(self)@ == old(self)@,
            !ignore ==> final(self)@ == csi_model(
                old(self)@,
                params@,
                intermediates@.len() > 0 && intermediates@[0] == 0x3f,
                action,
            ),
    {
        if ignore {
            return ;
        }
        let private = intermediates.len() > 0 && intermediates[0] == 0x3f;
        self.execute_csi(action, params, private);
    }

    /// An ESC sequence (see `esc_model`).
    pub fn esc_dispatch(&mut self, intermediates: &[u8], byte: u8)
        requires
            old(self).wf(),
        ensures
            final(self).wf(),
            final(self)@ == esc_model(old(self)@, intermediates@, byte),
    {
        let cols = self.cols;
        if intermediates.len() == 0 {
            if byte == 0x44 {
                let bl = self.pen.blank();
                self.live.linefeed(bl, cols);
            } else if byte == 0x4d {
                let bl = self.pen.blank();
                self.live.reverse_index(bl, cols);
            } else if byte == 0x45 {
                let bl = self.pen.blank();
                self.live.linefeed(bl, cols);
                self.live.cursor_col = 0;
            } else if byte == 0x63 {
                self.reset();
            } else if byte == 0x37 {
                self.live.saved_cursor = (self.live.cursor_row, self.live.cursor_col);
            } else if byte == 0x38 {
                let (r, c) = self.live.saved_cursor;
                self.live.cursor_row = if r < self.rows - 1 {
                    r
                } else {
                    self.rows - 1
                };
                self.live.cursor_col = if c < cols {
                    c
                } else {
                    cols
                };
            }
        } else if intermediates.len() == 1 && (intermediates[0] == 0x28 || intermediates[0] == 0x29) {
            let set = if byte == 0x30 {
                Charset::DecSpecial
            } else {
                Charset::Ascii
            };
            if intermediates[0] == 0x28 {
                self.g0 = set;
            } else {
                self.g1 = set;
            }
        }
    }

    /// An OSC command (see `osc_model`).
    pub fn osc_dispatch(&mut self, params: &Vec<Vec<u8>>, bell_terminated: bool)
        requires
            old(self).wf(),
        ensures
            final(self).wf(),
            final(self)@ == osc_model(old(self)@, params@),
    {
        if params.len() == 0 {
            return ;
        }
        let cmd = match parse_decimal(params[0].as_slice()) {
            Some(c) => c,
            None => {
                return ;
            },
        };
        if cmd == 4 {
            let ghost target = osc4_from(self.palette@, params@, 1);
            let mut i: usize = 1;
            while i < params.len() - 1
                invariant
                    1 <= i <= params@.len(),
                    self.wf(),
                    osc4_from(self.palette@, params@, i as int) == target,
                    self@ == (TermView { palette: self.palette@, ..old(self)@ }),
                decreases params@.len() - i,
            {
                let k = parse_decimal(params[i].as_slice());
                let c = parse_color_spec(params[i + 1].as_slice());
                if let Some(k) = k {
                    if k < 256 {
                        if let Some(c) = c {
                            self.palette.set(k as usize, Some(c));
                        }
                    }
                }
                i = i + 2;
            }
        } else if cmd == 10 || cmd == 11 || cmd == 12 {
            if params.len() < 2 {
                return ;
            }
            if let Some(c) = parse_color_spec(params[1].as_slice()) {
                if cmd == 10 {
                    self.default_fg = c;
                } else if cmd == 11 {
                    self.default_bg = c;
                } else {
                    self.cursor_color = Some(c);
                }
            }
        } else if cmd == 104 {
            if params.len() < 2 {
                self.palette = unset_palette();
            } else {
                let ghost target = osc104_from(self.palette@, params@, 1);
                let mut i: usize = 1;
                while i < params.len()
                    invariant
                        1 <= i <= params@.len(),
                        self.wf(),
                        osc104_from(self.palette@, params@, i as int) == target,
                        self@ == (TermView { palette: self.palette@, ..old(self)@ }),
                    decreases params@.len() - i,
                {
                    if let Some(k) = parse_decimal(params[i].as_slice()) {
                        if k < 256 {
                            self.palette.set(k as usize, None);
                        }
                    }
                    i = i + 1;
                }
            }
        } else if cmd == 110 {
            self.default_fg = default_fg();
        } else if cmd == 111 {
            self.default_bg = default_bg();
        } else if cmd == 112 {
            self.cursor_color = None;
        }
    }

    /// Applies one parser action.
    pub fn apply(&mut self, a: &Action)
        requires
            old(self).wf(),
        ensures
            final(self).wf(),
            final(self)@ == action_model(old(self)@, *a),
            final(self).pending_render(),
    {
        reveal(action_model);
        match a {
            Action::Print(c) => self.print(*c),
            Action::Execute(b) => self.execute(*b),
            Action::Csi { params, intermediates, ignore, action } => self.csi_dispatch(
                params,
                intermediates.as_slice(),
                *ignore,
                *action,
            ),
            Action::Esc { intermediates, byte } => self.esc_dispatch(
                intermediates.as_slice(),
                *byte,
            ),
            Action::Osc { payload, bell_terminated } => self.osc_dispatch(payload, *bell_terminated),
        }
        self.changed = true;
    }

    /// Applies the parser actions of a stretch of input, in order. Whatever
    /// they are, the invariants hold afterwards.
    pub fn apply_all(&mut self, actions: &Vec<Action>)
        requires
            old(self).wf(),
        ensures
            final(self).wf(),
            final(self)@ == actions_model(old(self)@, actions@),
            final(self).pending_render() == (old(self).pending_render() || actions@.len() > 0),
            invariants_hold(final(self)@),
    {
        let mut i: usize = 0;
        while i < actions.len()
            invariant
                i <= actions@.len(),
                self.wf(),
                self.changed == (old(self).pending_render() || i > 0),
                self@ == actions_model(old(self)@, actions@.take(i as int)),
            decreases actions@.len() - i,
        {
            self.apply(&actions[i]);
            proof {
                assert(actions@.take(i as int + 1).drop_last() =~= actions@.take(i as int));
            }
            i = i + 1;
        }
        assert(actions@.take(i as int) =~= actions@);
        proof {
            lemma_wf_invariants(self@);
        }
    }

    /// Whether the screen may have changed since `mark_rendered`.
    pub fn has_changes(&self) -> (r: bool)
        ensures
            r == self.pending_render(),
    {
        self.changed
    }

    /// Records that the renderer has drawn the current state.
    pub fn mark_rendered(&mut self)
        ensures
            final(self)@ == old(self)@,
            !final(self).pending_render(),
    {
        self.changed = false;
    }
}

} // verus!
