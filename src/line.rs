use vstd::prelude::*;

use crate::cell::Cell;

verus! {

/// The wide-glyph rule of a line: a right half stands just right of a left
/// half of width 2, and is itself one column wide.
pub open spec fn line_ok(l: Seq<Cell>) -> bool {
    forall|c: int|
        0 <= c < l.len() && (#[trigger] l[c]).cont ==> c > 0 && l[c - 1].width == 2 && l[c].width
            == 1
}

/// A cell that erasing writes: it is no right half, and one column wide.
pub open spec fn plain_blank(bl: Cell) -> bool {
    !bl.cont && bl.width == 1
}

pub open spec fn blank_line(bl: Cell, cols: nat) -> Seq<Cell> {
    Seq::new(cols, |i: int| bl)
}

/// Whether cell `i` is the right half of a wide glyph whose left half lies
/// in `[lo, hi)`.
pub open spec fn cut_right(l: Seq<Cell>, lo: int, hi: int, i: int) -> bool {
    lo < hi && i == hi && hi < l.len() && l[hi].cont
}

/// Whether cell `i` is the left half of a wide glyph whose right half lies
/// in `[lo, hi)`.
pub open spec fn cut_left(l: Seq<Cell>, lo: int, hi: int, i: int) -> bool {
    lo < hi && i == lo - 1 && l[lo].cont
}

/// The line with `[lo, hi)` erased to `bl`. A right half left without its
/// left half is erased too; nothing left of `lo` changes.
pub open spec fn erase_span(l: Seq<Cell>, lo: int, hi: int, bl: Cell) -> Seq<Cell> {
    Seq::new(
        l.len(),
        |i: int| if (lo <= i < hi) || cut_right(l, lo, hi, i) { bl } else { l[i] },
    )
}

/// The line made ready for a glyph written over `[lo, hi)`: those cells and
/// the other half of any wide glyph cut at either end are erased.
pub open spec fn clear_span(l: Seq<Cell>, lo: int, hi: int, bl: Cell) -> Seq<Cell> {
    Seq::new(
        l.len(),
        |i: int|
            if (lo <= i < hi) || cut_left(l, lo, hi, i) || cut_right(l, lo, hi, i) {
                bl
            } else {
                l[i]
            },
    )
}

/// The line with a one-column glyph written at `c`.
pub open spec fn put_narrow(l: Seq<Cell>, c: int, cell: Cell, bl: Cell) -> Seq<Cell> {
    clear_span(l, c, c + 1, bl).update(c, cell)
}

/// The line with a wide glyph written at `c`: its left half `lead` at `c`,
/// its right half `tail` at `c + 1`.
pub open spec fn put_wide(l: Seq<Cell>, c: int, lead: Cell, tail: Cell, bl: Cell) -> Seq<Cell> {
    clear_span(l, c, c + 2, bl).update(c, lead).update(c + 1, tail)
}

/// The line with `n` blanks inserted at `c`; cells pushed past the end are
/// lost, and a right half pushed away from its left half is erased.
pub open spec fn insert_blanks(l: Seq<Cell>, c: int, n: int, bl: Cell) -> Seq<Cell> {
    Seq::new(
        l.len(),
        |i: int|
            if i < c {
                l[i]
            } else if i < c + n || (i == c + n && l[c].cont) {
                bl
            } else {
                l[i - n]
            },
    )
}

/// The line with `n` cells deleted at `c`; the rest shifts left and blanks
/// fill the end. A right half that lands at `c` is erased.
pub open spec fn delete_cells(l: Seq<Cell>, c: int, n: int, bl: Cell) -> Seq<Cell> {
    Seq::new(
        l.len(),
        |i: int|
            if i < c {
                l[i]
            } else if i >= l.len() - n || (i == c && c + n < l.len() && l[c + n].cont) {
                bl
            } else {
                l[i + n]
            },
    )
}

pub proof fn lemma_erase_span_ok(l: Seq<Cell>, lo: int, hi: int, bl: Cell)
    requires
        line_ok(l),
        plain_blank(bl),
        0 <= lo <= hi <= l.len(),
    ensures
        line_ok(erase_span(l, lo, hi, bl)),
{
    let e = erase_span(l, lo, hi, bl);
    assert forall|i: int| 0 <= i < e.len() && (#[trigger] e[i]).cont implies i > 0 && e[i - 1].width
        == 2 && e[i].width == 1 by {
        assert(l[i].cont);
        assert(e[i - 1] == l[i - 1]);
    }
}

pub proof fn lemma_clear_span_ok(l: Seq<Cell>, lo: int, hi: int, bl: Cell)
    requires
        line_ok(l),
        plain_blank(bl),
        0 <= lo <= hi <= l.len(),
    ensures
        line_ok(clear_span(l, lo, hi, bl)),
{
    let e = clear_span(l, lo, hi, bl);
    assert forall|i: int| 0 <= i < e.len() && (#[trigger] e[i]).cont implies i > 0 && e[i - 1].width
        == 2 && e[i].width == 1 by {
        assert(l[i].cont);
        assert(e[i - 1] == l[i - 1]);
    }
}

pub proof fn lemma_put_narrow_ok(l: Seq<Cell>, c: int, cell: Cell, bl: Cell)
    requires
        line_ok(l),
        plain_blank(bl),
        !cell.cont,
        0 <= c < l.len(),
    ensures
        line_ok(put_narrow(l, c, cell, bl)),
{
    let e = clear_span(l, c, c + 1, bl);
    lemma_clear_span_ok(l, c, c + 1, bl);
    let p = put_narrow(l, c, cell, bl);
    assert forall|i: int| 0 <= i < p.len() && (#[trigger] p[i]).cont implies i > 0 && p[i - 1].width
        == 2 && p[i].width == 1 by {
        assert(e[i].cont);
        if i == c + 1 {
            assert(false);
        }
    }
}

pub proof fn lemma_put_wide_ok(l: Seq<Cell>, c: int, lead: Cell, tail: Cell, bl: Cell)
    requires
        line_ok(l),
        plain_blank(bl),
        !lead.cont,
        lead.width == 2,
        tail.cont,
        tail.width == 1,
        0 <= c && c + 2 <= l.len(),
    ensures
        line_ok(put_wide(l, c, lead, tail, bl)),
{
    let e = clear_span(l, c, c + 2, bl);
    lemma_clear_span_ok(l, c, c + 2, bl);
    let p = put_wide(l, c, lead, tail, bl);
    assert forall|i: int| 0 <= i < p.len() && (#[trigger] p[i]).cont implies i > 0 && p[i - 1].width
        == 2 && p[i].width == 1 by {
        if i != c + 1 {
            assert(e[i].cont);
            if i == c + 2 {
                assert(false);
            }
        }
    }
}

pub proof fn lemma_insert_blanks_ok(l: Seq<Cell>, c: int, n: int, bl: Cell)
    requires
        line_ok(l),
        plain_blank(bl),
        0 <= c < l.len(),
        0 <= n <= l.len() - c,
    ensures
        line_ok(insert_blanks(l, c, n, bl)),
{
    let p = insert_blanks(l, c, n, bl);
    assert forall|i: int| 0 <= i < p.len() && (#[trigger] p[i]).cont implies i > 0 && p[i - 1].width
        == 2 && p[i].width == 1 by {
        if i < c {
            assert(l[i].cont);
        } else {
            assert(l[i - n].cont);
            assert(l[i - n - 1].width == 2);
            if i - 1 == c + n {
                assert(!l[c].cont);
            }
        }
    }
}

pub proof fn lemma_delete_cells_ok(l: Seq<Cell>, c: int, n: int, bl: Cell)
    requires
        line_ok(l),
        plain_blank(bl),
        0 <= c < l.len(),
        0 <= n <= l.len() - c,
    ensures
        line_ok(delete_cells(l, c, n, bl)),
{
    let p = delete_cells(l, c, n, bl);
    assert forall|i: int| 0 <= i < p.len() && (#[trigger] p[i]).cont implies i > 0 && p[i - 1].width
        == 2 && p[i].width == 1 by {
        if i < c {
            assert(l[i].cont);
        } else {
            assert(l[i + n].cont);
            assert(l[i + n - 1].width == 2);
            if i - 1 == c {
                assert(!l[c + n].cont);
            }
        }
    }
}

/// A line of `cols` copies of `bl`.
pub fn new_line(bl: Cell, cols: usize) -> (r: Vec<Cell>)
    ensures
        r@ == blank_line(bl, cols as nat),
{
    let mut v: Vec<Cell> = Vec::new();
    let mut i: usize = 0;
    while i < cols
        invariant
            i <= cols,
            v@ == blank_line(bl, i as nat),
        decreases cols - i,
    {
        v.push(bl);
        i = i + 1;
        assert(v@ =~= blank_line(bl, i as nat));
    }
    v
}

/// Erases `[lo, hi)` of `line` (see `erase_span`), or with `whole_glyphs`
/// makes it ready for a write (see `clear_span`).
pub fn erase_cells(line: &mut Vec<Cell>, lo: usize, hi: usize, bl: Cell, whole_glyphs: bool)
    requires
        lo <= hi <= old(line)@.len(),
    ensures
        whole_glyphs ==> final(line)@ == clear_span(old(line)@, lo as int, hi as int, bl),
        !whole_glyphs ==> final(line)@ == erase_span(old(line)@, lo as int, hi as int, bl),
{
    let ghost l = line@;
    let left = whole_glyphs && lo > 0 && lo < hi && line[lo].cont;
    let right = lo < hi && hi < line.len() && line[hi].cont;
    let mut i = lo;
    while i < hi
        invariant
            lo <= i <= hi <= l.len(),
            line@.len() == l.len(),
            forall|k: int|
                0 <= k < l.len() ==> #[trigger] line@[k] == (if lo <= k < i {
                    bl
                } else {
                    l[k]
                }),
        decreases hi - i,
    {
        line.set(i, bl);
        i = i + 1;
    }
    if left {
        line.set(lo - 1, bl);
    }
    if right {
        line.set(hi, bl);
    }
    if whole_glyphs {
        assert(line@ =~= clear_span(l, lo as int, hi as int, bl));
    } else {
        assert(line@ =~= erase_span(l, lo as int, hi as int, bl));
    }
}

/// Builds the line with `n` blanks inserted at `c`.
pub fn inserted_blanks(line: &Vec<Cell>, c: usize, n: usize, bl: Cell) -> (r: Vec<Cell>)
    requires
        c < line@.len(),
        n <= line@.len() - c,
    ensures
        r@ == insert_blanks(line@, c as int, n as int, bl),
{
    let len = line.len();
    let cut = line[c].cont;
    let mut v: Vec<Cell> = Vec::new();
    let mut i: usize = 0;
    while i < len
        invariant
            i <= len == line@.len(),
            c < len,
            n <= len - c,
            cut == line@[c as int].cont,
            v@.len() == i,
            forall|k: int|
                0 <= k < i ==> #[trigger] v@[k] == insert_blanks(line@, c as int, n as int, bl)[k],
        decreases len - i,
    {
        if i < c {
            v.push(line[i]);
        } else if i < c + n || (i == c + n && cut) {
            v.push(bl);
        } else {
            v.push(line[i - n]);
        }
        i = i + 1;
    }
    assert(v@ =~= insert_blanks(line@, c as int, n as int, bl));
    v
}

/// Builds the line with `n` cells deleted at `c`.
pub fn deleted_cells(line: &Vec<Cell>, c: usize, n: usize, bl: Cell) -> (r: Vec<Cell>)
    requires
        c < line@.len(),
        n <= line@.len() - c,
    ensures
        r@ == delete_cells(line@, c as int, n as int, bl),
{
    let len = line.len();
    let cut = c + n < len && line[c + n].cont;
    let mut v: Vec<Cell> = Vec::new();
    let mut i: usize = 0;
    while i < len
        invariant
            i <= len == line@.len(),
            c < len,
            n <= len - c,
            cut == (c + n < len && line@[c + n].cont),
            v@.len() == i,
            forall|k: int|
                0 <= k < i ==> #[trigger] v@[k] == delete_cells(line@, c as int, n as int, bl)[k],
        decreases len - i,
    {
        if i < c {
            v.push(line[i]);
        } else if i >= len - n || (i == c && cut) {
            v.push(bl);
        } else {
            v.push(line[i + n]);
        }
        i = i + 1;
    }
    assert(v@ =~= delete_cells(line@, c as int, n as int, bl));
    v
}

} // verus!
