use vstd::prelude::*;

use crate::cell::Cell;
use crate::line::{
    blank_line, delete_cells, deleted_cells, erase_cells, erase_span, insert_blanks,
    inserted_blanks, lemma_delete_cells_ok, lemma_erase_span_ok, lemma_insert_blanks_ok,
    lemma_put_narrow_ok, lemma_put_wide_ok, line_ok, new_line, plain_blank, put_narrow, put_wide,
};

verus! {

/// One screen: its cells, cursor, saved cursor and scroll region. The
/// primary and the alternate screen are each a `Buffer`.
pub struct Buffer {
    pub lines: Vec<Vec<Cell>>,
    pub cursor_row: usize,
    /// Column of the cursor; equal to the width in the pending-wrap state.
    pub cursor_col: usize,
    pub saved_cursor: (usize, usize),
    pub scroll_top: usize,
    pub scroll_bottom: usize,
}

/// What a `Buffer` holds, as mathematical values.
pub struct BufView {
    pub grid: Seq<Seq<Cell>>,
    pub cursor_row: usize,
    pub cursor_col: usize,
    pub saved_cursor: (usize, usize),
    pub scroll_top: usize,
    pub scroll_bottom: usize,
}

impl BufView {
    /// `rows` lines of `cols` cells that keep the wide-glyph rule, the cursor
    /// on screen (its column may be `cols`: pending wrap), and a scroll
    /// region within the screen.
    pub open spec fn wf(&self, rows: nat, cols: nat) -> bool {
        &&& rows >= 1
        &&& cols >= 1
        &&& self.grid.len() == rows
        &&& screen_ok(self.grid, cols)
        &&& self.cursor_row < rows
        &&& self.cursor_col <= cols
        &&& self.scroll_top <= self.scroll_bottom
        &&& self.scroll_bottom < rows
    }
}

impl View for Buffer {
    type V = BufView;

    open spec fn view(&self) -> BufView {
        BufView {
            grid: self.grid(),
            cursor_row: self.cursor_row,
            cursor_col: self.cursor_col,
            saved_cursor: self.saved_cursor,
            scroll_top: self.scroll_top,
            scroll_bottom: self.scroll_bottom,
        }
    }
}

/// Every line has `cols` cells and obeys the wide-glyph rule.
pub open spec fn screen_ok(g: Seq<Seq<Cell>>, cols: nat) -> bool {
    forall|r: int| 0 <= r < g.len() ==> (#[trigger] g[r]).len() == cols && line_ok(g[r])
}

pub open spec fn blank_screen(bl: Cell, rows: nat, cols: nat) -> Seq<Seq<Cell>> {
    Seq::new(rows, |r: int| blank_line(bl, cols))
}

/// The region `[top, bottom]` moved up one line; a blank line enters at
/// `bottom`.
pub open spec fn scroll_up_once(g: Seq<Seq<Cell>>, top: int, bottom: int, bl: Seq<Cell>) -> Seq<
    Seq<Cell>,
> {
    g.subrange(0, top) + g.subrange(top + 1, bottom + 1) + seq![bl] + g.subrange(
        bottom + 1,
        g.len() as int,
    )
}

/// The region `[top, bottom]` moved down one line; a blank line enters at
/// `top`.
pub open spec fn scroll_down_once(g: Seq<Seq<Cell>>, top: int, bottom: int, bl: Seq<Cell>) -> Seq<
    Seq<Cell>,
> {
    g.subrange(0, top) + seq![bl] + g.subrange(top, bottom) + g.subrange(bottom + 1, g.len() as int)
}

pub open spec fn scroll_up_n(g: Seq<Seq<Cell>>, top: int, bottom: int, bl: Seq<Cell>, n: nat) -> Seq<
    Seq<Cell>,
>
    decreases n,
{
    if n == 0 {
        g
    } else {
        scroll_up_once(scroll_up_n(g, top, bottom, bl, (n - 1) as nat), top, bottom, bl)
    }
}

pub open spec fn scroll_down_n(
    g: Seq<Seq<Cell>>,
    top: int,
    bottom: int,
    bl: Seq<Cell>,
    n: nat,
) -> Seq<Seq<Cell>>
    decreases n,
{
    if n == 0 {
        g
    } else {
        scroll_down_once(scroll_down_n(g, top, bottom, bl, (n - 1) as nat), top, bottom, bl)
    }
}

/// Rows `[lo, hi)` erased.
pub open spec fn erase_rows(g: Seq<Seq<Cell>>, lo: int, hi: int, bl: Seq<Cell>) -> Seq<Seq<Cell>> {
    Seq::new(g.len(), |r: int| if lo <= r < hi { bl } else { g[r] })
}

/// The cell at `c` pointed at entry `id` of the mark store.
pub open spec fn set_marks(l: Seq<Cell>, c: int, id: usize) -> Seq<Cell> {
    l.update(c, Cell { marks: Some(id), ..l[c] })
}

/// Line feed: at the bottom of the scroll region the region scrolls up;
/// otherwise the cursor moves down a row, if there is one.
pub open spec fn lf_view(b: BufView, bl: Seq<Cell>) -> BufView {
    if b.cursor_row == b.scroll_bottom {
        BufView {
            grid: scroll_up_once(b.grid, b.scroll_top as int, b.scroll_bottom as int, bl),
            ..b
        }
    } else {
        BufView { cursor_row: min_int(b.cursor_row + 1, b.grid.len() - 1) as usize, ..b }
    }
}

/// Reverse index: at the top of the scroll region the region scrolls down;
/// otherwise the cursor moves up a row, if there is one.
pub open spec fn ri_view(b: BufView, bl: Seq<Cell>) -> BufView {
    if b.cursor_row == b.scroll_top {
        BufView {
            grid: scroll_down_once(b.grid, b.scroll_top as int, b.scroll_bottom as int, bl),
            ..b
        }
    } else {
        BufView { cursor_row: (if b.cursor_row > 0 { b.cursor_row - 1 } else { 0 }) as usize, ..b }
    }
}

pub open spec fn min_int(a: int, b: int) -> int {
    if a < b {
        a
    } else {
        b
    }
}

pub proof fn lemma_scroll_up_ok(g: Seq<Seq<Cell>>, top: int, bottom: int, bl: Seq<Cell>, n: nat, cols: nat)
    requires
        screen_ok(g, cols),
        0 <= top <= bottom < g.len(),
        bl.len() == cols,
        line_ok(bl),
    ensures
        screen_ok(scroll_up_n(g, top, bottom, bl, n), cols),
        scroll_up_n(g, top, bottom, bl, n).len() == g.len(),
    decreases n,
{
    if n > 0 {
        lemma_scroll_up_ok(g, top, bottom, bl, (n - 1) as nat, cols);
        let h = scroll_up_n(g, top, bottom, bl, (n - 1) as nat);
        let s = scroll_up_once(h, top, bottom, bl);
        assert forall|r: int| 0 <= r < s.len() implies (#[trigger] s[r]).len() == cols && line_ok(
            s[r],
        ) by {
            if r < top {
                assert(s[r] == h[r]);
            } else if r < bottom {
                assert(s[r] == h[r + 1]);
            } else if r == bottom {
                assert(s[r] == bl);
            } else {
                assert(s[r] == h[r]);
            }
        }
    }
}

pub proof fn lemma_scroll_down_ok(
    g: Seq<Seq<Cell>>,
    top: int,
    bottom: int,
    bl: Seq<Cell>,
    n: nat,
    cols: nat,
)
    requires
        screen_ok(g, cols),
        0 <= top <= bottom < g.len(),
        bl.len() == cols,
        line_ok(bl),
    ensures
        screen_ok(scroll_down_n(g, top, bottom, bl, n), cols),
        scroll_down_n(g, top, bottom, bl, n).len() == g.len(),
    decreases n,
{
    if n > 0 {
        lemma_scroll_down_ok(g, top, bottom, bl, (n - 1) as nat, cols);
        let h = scroll_down_n(g, top, bottom, bl, (n - 1) as nat);
        let s = scroll_down_once(h, top, bottom, bl);
        assert forall|r: int| 0 <= r < s.len() implies (#[trigger] s[r]).len() == cols && line_ok(
            s[r],
        ) by {
            if r < top {
                assert(s[r] == h[r]);
            } else if r == top {
                assert(s[r] == bl);
            } else if r <= bottom {
                assert(s[r] == h[r - 1]);
            } else {
                assert(s[r] == h[r]);
            }
        }
    }
}

proof fn lemma_blank_line_ok(bl: Cell, cols: nat)
    requires
        plain_blank(bl),
    ensures
        line_ok(blank_line(bl, cols)),
        blank_line(bl, cols).len() == cols,
{
}

impl Buffer {
    /// The cells, row by row.
    pub open spec fn grid(&self) -> Seq<Seq<Cell>> {
        Seq::new(self.lines@.len(), |r: int| self.lines@[r]@)
    }

    /// A buffer of `rows` lines of `cols` cells.
    pub open spec fn wf(&self, rows: nat, cols: nat) -> bool {
        &&& rows >= 1
        &&& cols >= 1
        &&& self.lines@.len() == rows
        &&& screen_ok(self.grid(), cols)
        &&& self.cursor_row < rows
        &&& self.cursor_col <= cols
        &&& self.scroll_top <= self.scroll_bottom
        &&& self.scroll_bottom < rows
    }

    /// `self` and `o` agree on everything but the cells.
    pub open spec fn same_cursor(&self, o: &Buffer) -> bool {
        &&& self.cursor_row == o.cursor_row
        &&& self.cursor_col == o.cursor_col
        &&& self.saved_cursor == o.saved_cursor
        &&& self.scroll_top == o.scroll_top
        &&& self.scroll_bottom == o.scroll_bottom
    }

    /// A blank buffer of `rows` lines of `cols` cells, cursor at the origin,
    /// scroll region the whole screen.
    pub fn new(rows: usize, cols: usize, bl: Cell) -> (r: Buffer)
        requires
            rows >= 1,
            cols >= 1,
            plain_blank(bl),
        ensures
            r.wf(rows as nat, cols as nat),
            r.grid() == blank_screen(bl, rows as nat, cols as nat),
            r.cursor_row == 0,
            r.cursor_col == 0,
            r.saved_cursor == (0usize, 0usize),
            r.scroll_top == 0,
            r.scroll_bottom == rows - 1,
    {
        let mut lines: Vec<Vec<Cell>> = Vec::new();
        let mut i: usize = 0;
        while i < rows
            invariant
                i <= rows,
                lines@.len() == i,
                forall|k: int| 0 <= k < i ==> (#[trigger] lines@[k])@ == blank_line(bl, cols as nat),
            decreases rows - i,
        {
            let l = new_line(bl, cols);
            lines.push(l);
            i = i + 1;
        }
        let r = Buffer {
            lines,
            cursor_row: 0,
            cursor_col: 0,
            saved_cursor: (0, 0),
            scroll_top: 0,
            scroll_bottom: rows - 1,
        };
        proof {
            assert(r.grid() =~= blank_screen(bl, rows as nat, cols as nat));
            lemma_blank_line_ok(bl, cols as nat);
        }
        r
    }

    /// The buffer of no lines, standing for an alternate screen not yet used.
    pub fn empty() -> (r: Buffer)
        ensures
            r.lines@.len() == 0,
            r.cursor_row == 0,
            r.cursor_col == 0,
            r.saved_cursor == (0usize, 0usize),
            r.scroll_top == 0,
            r.scroll_bottom == 0,
    {
        Buffer {
            lines: Vec::new(),
            cursor_row: 0,
            cursor_col: 0,
            saved_cursor: (0, 0),
            scroll_top: 0,
            scroll_bottom: 0,
        }
    }

    /// Scrolls `[top, bottom]` up by `min(n, bottom - top + 1)` lines.
    pub fn scroll_up(&mut self, top: usize, bottom: usize, n: usize, bl: Cell, cols: usize)
        requires
            old(self).wf(old(self).lines@.len(), cols as nat),
            top <= bottom < old(self).lines@.len(),
            plain_blank(bl),
        ensures
            final(self).wf(old(self).lines@.len(), cols as nat),
            final(self).same_cursor(old(self)),
            final(self).grid() == scroll_up_n(
                old(self).grid(),
                top as int,
                bottom as int,
                blank_line(bl, cols as nat),
                min_int(n as int, bottom - top + 1) as nat,
            ),
    {
        let ghost g0 = self.grid();
        let ghost bline = blank_line(bl, cols as nat);
        let ghost rows = self.lines@.len();
        let len = self.lines.len();
        let count = if n <= bottom - top {
            n
        } else {
            bottom - top + 1
        };
        let mut k: usize = 0;
        proof {
            lemma_blank_line_ok(bl, cols as nat);
        }
        while k < count
            invariant
                k <= count,
                top <= bottom < rows,
                self.lines@.len() == rows,
                self.wf(rows, cols as nat),
                screen_ok(g0, cols as nat),
                g0.len() == rows,
                self.same_cursor(old(self)),
                bline == blank_line(bl, cols as nat),
                line_ok(bline),
                bline.len() == cols,
                self.grid() == scroll_up_n(g0, top as int, bottom as int, bline, k as nat),
            decreases count - k,
        {
            let ghost g = self.grid();
            self.lines.remove(top);
            let l = new_line(bl, cols);
            self.lines.insert(bottom, l);
            proof {
                let s = scroll_up_once(g, top as int, bottom as int, bline);
                assert forall|r: int| 0 <= r < rows implies #[trigger] self.grid()[r] == s[r] by {
                    if r < top {
                    } else if r < bottom {
                    } else if r == bottom {
                    } else {
                    }
                }
                assert(self.grid() =~= s);
                lemma_scroll_up_ok(g0, top as int, bottom as int, bline, (k + 1) as nat, cols as nat);
            }
            k = k + 1;
        }
    }

    /// Scrolls `[top, bottom]` down by `min(n, bottom - top + 1)` lines.
    pub fn scroll_down(&mut self, top: usize, bottom: usize, n: usize, bl: Cell, cols: usize)
        requires
            old(self).wf(old(self).lines@.len(), cols as nat),
            top <= bottom < old(self).lines@.len(),
            plain_blank(bl),
        ensures
            final(self).wf(old(self).lines@.len(), cols as nat),
            final(self).same_cursor(old(self)),
            final(self).grid() == scroll_down_n(
                old(self).grid(),
                top as int,
                bottom as int,
                blank_line(bl, cols as nat),
                min_int(n as int, bottom - top + 1) as nat,
            ),
    {
        let ghost g0 = self.grid();
        let ghost bline = blank_line(bl, cols as nat);
        let ghost rows = self.lines@.len();
        let len = self.lines.len();
        let count = if n <= bottom - top {
            n
        } else {
            bottom - top + 1
        };
        let mut k: usize = 0;
        proof {
            lemma_blank_line_ok(bl, cols as nat);
        }
        while k < count
            invariant
                k <= count,
                top <= bottom < rows,
                self.lines@.len() == rows,
                self.wf(rows, cols as nat),
                screen_ok(g0, cols as nat),
                g0.len() == rows,
                self.same_cursor(old(self)),
                bline == blank_line(bl, cols as nat),
                line_ok(bline),
                bline.len() == cols,
                self.grid() == scroll_down_n(g0, top as int, bottom as int, bline, k as nat),
            decreases count - k,
        {
            let ghost g = self.grid();
            self.lines.remove(bottom);
            let l = new_line(bl, cols);
            self.lines.insert(top, l);
            proof {
                let s = scroll_down_once(g, top as int, bottom as int, bline);
                assert forall|r: int| 0 <= r < rows implies #[trigger] self.grid()[r] == s[r] by {
                    if r < top {
                    } else if r == top {
                    } else if r <= bottom {
                    } else {
                    }
                }
                assert(self.grid() =~= s);
                lemma_scroll_down_ok(
                    g0,
                    top as int,
                    bottom as int,
                    bline,
                    (k + 1) as nat,
                    cols as nat,
                );
            }
            k = k + 1;
        }
    }

    /// Erases cells `[lo, hi)` of row `r` (see `erase_span`).
    pub fn erase_in_line(&mut self, r: usize, lo: usize, hi: usize, bl: Cell, cols: usize)
        requires
            old(self).wf(old(self).lines@.len(), cols as nat),
            r < old(self).lines@.len(),
            lo <= hi <= cols,
            plain_blank(bl),
        ensures
            final(self).wf(old(self).lines@.len(), cols as nat),
            final(self).same_cursor(old(self)),
            final(self).grid() == old(self).grid().update(
                r as int,
                erase_span(old(self).grid()[r as int], lo as int, hi as int, bl),
            ),
    {
        let ghost g = self.grid();
        let mut line: Vec<Cell> = Vec::new();
        self.lines.set_and_swap(r, &mut line);
        assert(line@ == g[r as int]);
        erase_cells(&mut line, lo, hi, bl, false);
        self.lines.set(r, line);
        proof {
            lemma_erase_span_ok(g[r as int], lo as int, hi as int, bl);
            assert(self.grid() =~= g.update(r as int, erase_span(g[r as int], lo as int, hi as int, bl)));
        }
    }

    /// Writes a one-column glyph `cell` at row `r`, column `c`.
    pub fn write_narrow(&mut self, r: usize, c: usize, cell: Cell, bl: Cell, cols: usize)
        requires
            old(self).wf(old(self).lines@.len(), cols as nat),
            r < old(self).lines@.len(),
            c < cols,
            !cell.cont,
            plain_blank(bl),
        ensures
            final(self).wf(old(self).lines@.len(), cols as nat),
            final(self).same_cursor(old(self)),
            final(self).grid() == old(self).grid().update(
                r as int,
                put_narrow(old(self).grid()[r as int], c as int, cell, bl),
            ),
    {
        let ghost g = self.grid();
        let mut line: Vec<Cell> = Vec::new();
        self.lines.set_and_swap(r, &mut line);
        assert(line@ == g[r as int]);
        erase_cells(&mut line, c, c + 1, bl, true);
        line.set(c, cell);
        self.lines.set(r, line);
        proof {
            lemma_put_narrow_ok(g[r as int], c as int, cell, bl);
            assert(self.grid() =~= g.update(r as int, put_narrow(g[r as int], c as int, cell, bl)));
        }
    }

    /// Writes a wide glyph at row `r`: `lead` at column `c`, `tail` at `c + 1`.
    pub fn write_wide(&mut self, r: usize, c: usize, lead: Cell, tail: Cell, bl: Cell, cols: usize)
        requires
            old(self).wf(old(self).lines@.len(), cols as nat),
            r < old(self).lines@.len(),
            c + 2 <= cols,
            !lead.cont,
            lead.width == 2,
            tail.cont,
            tail.width == 1,
            plain_blank(bl),
        ensures
            final(self).wf(old(self).lines@.len(), cols as nat),
            final(self).same_cursor(old(self)),
            final(self).grid() == old(self).grid().update(
                r as int,
                put_wide(old(self).grid()[r as int], c as int, lead, tail, bl),
            ),
    {
        let ghost g = self.grid();
        let mut line: Vec<Cell> = Vec::new();
        self.lines.set_and_swap(r, &mut line);
        assert(line@ == g[r as int]);
        erase_cells(&mut line, c, c + 2, bl, true);
        line.set(c, lead);
        line.set(c + 1, tail);
        self.lines.set(r, line);
        proof {
            lemma_put_wide_ok(g[r as int], c as int, lead, tail, bl);
            assert(self.grid() =~= g.update(
                r as int,
                put_wide(g[r as int], c as int, lead, tail, bl),
            ));
        }
    }

    /// Inserts `n` blanks at row `r`, column `c` (see `insert_blanks`).
    pub fn insert_blanks(&mut self, r: usize, c: usize, n: usize, bl: Cell, cols: usize)
        requires
            old(self).wf(old(self).lines@.len(), cols as nat),
            r < old(self).lines@.len(),
            c < cols,
            n <= cols - c,
            plain_blank(bl),
        ensures
            final(self).wf(old(self).lines@.len(), cols as nat),
            final(self).same_cursor(old(self)),
            final(self).grid() == old(self).grid().update(
                r as int,
                insert_blanks(old(self).grid()[r as int], c as int, n as int, bl),
            ),
    {
        let ghost g = self.grid();
        assert(g[r as int].len() == cols);
        let line = inserted_blanks(&self.lines[r], c, n, bl);
        self.lines.set(r, line);
        proof {
            lemma_insert_blanks_ok(g[r as int], c as int, n as int, bl);
            assert(self.grid() =~= g.update(
                r as int,
                insert_blanks(g[r as int], c as int, n as int, bl),
            ));
        }
    }

    /// Deletes `n` cells at row `r`, column `c` (see `delete_cells`).
    pub fn delete_cells(&mut self, r: usize, c: usize, n: usize, bl: Cell, cols: usize)
        requires
            old(self).wf(old(self).lines@.len(), cols as nat),
            r < old(self).lines@.len(),
            c < cols,
            n <= cols - c,
            plain_blank(bl),
        ensures
            final(self).wf(old(self).lines@.len(), cols as nat),
            final(self).same_cursor(old(self)),
            final(self).grid() == old(self).grid().update(
                r as int,
                delete_cells(old(self).grid()[r as int], c as int, n as int, bl),
            ),
    {
        let ghost g = self.grid();
        assert(g[r as int].len() == cols);
        let line = deleted_cells(&self.lines[r], c, n, bl);
        self.lines.set(r, line);
        proof {
            lemma_delete_cells_ok(g[r as int], c as int, n as int, bl);
            assert(self.grid() =~= g.update(
                r as int,
                delete_cells(g[r as int], c as int, n as int, bl),
            ));
        }
    }

    /// Points the cell at row `r`, column `c` at entry `id` of the mark store.
    pub fn set_marks(&mut self, r: usize, c: usize, id: usize, cols: usize)
        requires
            old(self).wf(old(self).lines@.len(), cols as nat),
            r < old(self).lines@.len(),
            c < cols,
        ensures
            final(self).wf(old(self).lines@.len(), cols as nat),
            final(self).same_cursor(old(self)),
            final(self).grid() == old(self).grid().update(
                r as int,
                set_marks(old(self).grid()[r as int], c as int, id),
            ),
    {
        let ghost g = self.grid();
        let mut line: Vec<Cell> = Vec::new();
        self.lines.set_and_swap(r, &mut line);
        assert(line@ == g[r as int]);
        let old_cell = line[c];
        line.set(c, Cell { marks: Some(id), ..old_cell });
        self.lines.set(r, line);
        proof {
            let l = set_marks(g[r as int], c as int, id);
            assert forall|i: int| 0 <= i < l.len() && (#[trigger] l[i]).cont implies i > 0
                && l[i - 1].width == 2 && l[i].width == 1 by {
                assert(g[r as int][i].cont);
            }
            assert(self.grid() =~= g.update(r as int, l));
        }
    }

    /// Erases rows `[lo, hi)`.
    pub fn erase_rows(&mut self, lo: usize, hi: usize, bl: Cell, cols: usize)
        requires
            old(self).wf(old(self).lines@.len(), cols as nat),
            lo <= hi <= old(self).lines@.len(),
            plain_blank(bl),
        ensures
            final(self).wf(old(self).lines@.len(), cols as nat),
            final(self).same_cursor(old(self)),
            final(self).grid() == erase_rows(
                old(self).grid(),
                lo as int,
                hi as int,
                blank_line(bl, cols as nat),
            ),
    {
        let ghost g = self.grid();
        let ghost rows = self.lines@.len();
        let mut i = lo;
        proof {
            lemma_blank_line_ok(bl, cols as nat);
        }
        while i < hi
            invariant
                lo <= i <= hi <= rows,
                self.lines@.len() == rows,
                g.len() == rows,
                self.wf(rows, cols as nat),
                self.same_cursor(old(self)),
                line_ok(blank_line(bl, cols as nat)),
                self.grid() == erase_rows(g, lo as int, i as int, blank_line(bl, cols as nat)),
            decreases hi - i,
        {
            let ghost prev = self.grid();
            let l = new_line(bl, cols);
            self.lines.set(i, l);
            proof {
                let e = erase_rows(g, lo as int, i + 1, blank_line(bl, cols as nat));
                assert forall|r: int| 0 <= r < rows implies #[trigger] self.grid()[r] == e[r] by {
                    if r != i {
                        assert(self.grid()[r] == prev[r]);
                    }
                }
                assert(self.grid() =~= e);
                assert forall|r: int| 0 <= r < rows implies (#[trigger] self.grid()[r]).len() == cols
                    && line_ok(self.grid()[r]) by {
                    if r != i {
                        assert(self.grid()[r] == prev[r]);
                    }
                }
            }
            i = i + 1;
        }
    }

    /// Line feed: at the bottom of the scroll region the region scrolls up;
    /// otherwise the cursor moves down a row, if there is one.
    pub fn linefeed(&mut self, bl: Cell, cols: usize)
        requires
            old(self).wf(old(self).lines@.len(), cols as nat),
            plain_blank(bl),
        ensures
            final(self).wf(old(self).lines@.len(), cols as nat),
            final(self)@ == lf_view(old(self)@, blank_line(bl, cols as nat)),
    {
        if self.cursor_row == self.scroll_bottom {
            let top = self.scroll_top;
            let bottom = self.scroll_bottom;
            self.scroll_up(top, bottom, 1, bl, cols);
            assert(scroll_up_n(old(self).grid(), top as int, bottom as int, blank_line(bl, cols as nat), 0)
                == old(self).grid());
            assert(scroll_up_n(old(self).grid(), top as int, bottom as int, blank_line(bl, cols as nat), 1)
                == scroll_up_once(old(self).grid(), top as int, bottom as int, blank_line(bl, cols as nat)));
        } else if self.cursor_row < self.lines.len() - 1 {
            self.cursor_row = self.cursor_row + 1;
        }
    }

    /// Reverse index: at the top of the scroll region the region scrolls
    /// down; otherwise the cursor moves up a row, if there is one.
    pub fn reverse_index(&mut self, bl: Cell, cols: usize)
        requires
            old(self).wf(old(self).lines@.len(), cols as nat),
            plain_blank(bl),
        ensures
            final(self).wf(old(self).lines@.len(), cols as nat),
            final(self)@ == ri_view(old(self)@, blank_line(bl, cols as nat)),
    {
        if self.cursor_row == self.scroll_top {
            let top = self.scroll_top;
            let bottom = self.scroll_bottom;
            self.scroll_down(top, bottom, 1, bl, cols);
            assert(scroll_down_n(old(self).grid(), top as int, bottom as int, blank_line(bl, cols as nat), 0)
                == old(self).grid());
            assert(scroll_down_n(old(self).grid(), top as int, bottom as int, blank_line(bl, cols as nat), 1)
                == scroll_down_once(old(self).grid(), top as int, bottom as int, blank_line(bl, cols as nat)));
        } else if self.cursor_row > 0 {
            self.cursor_row = self.cursor_row - 1;
        }
    }
}

} // verus!
