use vstd::prelude::*;

use crate::buffer::{blank_screen, screen_ok};
use crate::cell::{effective_fg, Cell};
use crate::color::{dec_value, decimal_of, xterm_256, Color};
use crate::line::{blank_line, line_ok, plain_blank};
use crate::model::{
    action_model, actions_model, csi_model, glyph, glyph_left_of_cursor, invariants_hold,
    lemma_wf_invariants, mode_model, modes_from, osc_model, print_combining, print_model,
    print_width, repeat_print, resize_model, TermView,
};
use crate::terminal::Action;

verus! {

proof fn lemma_blank_screen_ok(bl: Cell, rows: nat, cols: nat)
    requires
        plain_blank(bl),
    ensures
        screen_ok(blank_screen(bl, rows, cols), cols),
        blank_screen(bl, rows, cols).len() == rows,
{
    let g = blank_screen(bl, rows, cols);
    assert forall|r: int| 0 <= r < g.len() implies (#[trigger] g[r]).len() == cols && line_ok(
        g[r],
    ) by {
        assert(g[r] == blank_line(bl, cols));
    }
}

/// Resizing keeps a state well formed, at the dimensions asked for (a zero
/// counting as 1).
pub proof fn lemma_resize_wf(t: TermView, cols: usize, rows: usize)
    requires
        t.wf(),
    ensures
        resize_model(t, cols, rows).0.wf(),
        resize_model(t, cols, rows).0.cols == (if cols == 0 {
            1
        } else {
            cols
        }),
        resize_model(t, cols, rows).0.rows == (if rows == 0 {
            1
        } else {
            rows
        }),
{
    let c: usize = if cols == 0 {
        1
    } else {
        cols
    };
    let r: usize = if rows == 0 {
        1
    } else {
        rows
    };
    lemma_blank_screen_ok(crate::cell::blank_cell(t.pen), r as nat, c as nat);
}

/// A resize followed by a resize back to the first dimensions leaves a
/// well-formed state of the first dimensions, in which the invariants
/// hold; where the first resize changed the size, the scroll region is the
/// whole screen again.
pub proof fn lemma_resize_round_trip(t: TermView, cols: usize, rows: usize)
    requires
        t.wf(),
    ensures
        ({
            let t2 = resize_model(resize_model(t, cols, rows).0, t.cols, t.rows).0;
            &&& t2.wf()
            &&& t2.cols == t.cols
            &&& t2.rows == t.rows
            &&& invariants_hold(t2)
            &&& (resize_model(t, cols, rows).1 ==> t2.live.scroll_top == 0
                && t2.live.scroll_bottom == t.rows - 1)
        }),
{
    lemma_resize_wf(t, cols, rows);
    let t1 = resize_model(t, cols, rows).0;
    lemma_resize_wf(t1, t.cols, t.rows);
    lemma_wf_invariants(resize_model(t1, t.cols, t.rows).0);
}

proof fn lemma_osc4_len(pal: Seq<Option<crate::color::Rgb>>, ps: Seq<Vec<u8>>, i: int)
    requires
        pal.len() == 256,
    ensures
        crate::model::osc4_from(pal, ps, i).len() == pal.len(),
    decreases ps.len() - i,
{
    if !(i < 0 || i + 1 >= ps.len()) {
        let k = decimal_of(ps[i]@);
        let c = crate::color::color_spec_of(ps[i + 1]@);
        let pal2 = if k is Some && k->0 < 256 && c is Some {
            pal.update(k->0 as int, c)
        } else {
            pal
        };
        lemma_osc4_len(pal2, ps, i + 2);
    }
}

/// OSC 4 setting palette entry `idx`, then OSC 104 resetting it, brings the
/// entry back to the built-in xterm color.
pub proof fn lemma_palette_set_then_reset(
    t: TermView,
    idx: u8,
    set: Seq<Vec<u8>>,
    reset: Seq<Vec<u8>>,
    is_fg: bool,
)
    requires
        t.wf(),
        set.len() == 3,
        set[0]@ == seq![0x34u8],
        decimal_of(set[1]@) == Some(idx as u16),
        reset.len() == 2,
        reset[0]@ == seq![0x31u8, 0x30u8, 0x34u8],
        decimal_of(reset[1]@) == Some(idx as u16),
    ensures
        osc_model(osc_model(t, set), reset).resolve(Color::Indexed(idx), is_fg) == xterm_256(idx),
{
    assert(dec_value(set[0]@) == 4) by {
        reveal_with_fuel(dec_value, 2);
    }
    assert(decimal_of(set[0]@) == Some(4u16));
    assert(dec_value(reset[0]@) == 104) by {
        reveal_with_fuel(dec_value, 4);
        assert(reset[0]@.drop_last() =~= seq![0x31u8, 0x30u8]);
        assert(reset[0]@.drop_last().drop_last() =~= seq![0x31u8]);
        assert(reset[0]@.drop_last().drop_last().drop_last() =~= Seq::<u8>::empty());
    }
    assert(decimal_of(reset[0]@) == Some(104u16));
    let t1 = osc_model(t, set);
    lemma_osc4_len(t.palette, set, 1);
    assert(t1.palette.len() == 256);
    reveal_with_fuel(crate::model::osc104_from, 2);
    let t2 = osc_model(t1, reset);
    assert(t2.palette[idx as int] == None::<crate::color::Rgb>);
}

/// The SGR state after the codes `ps` (one parameter each).
pub open spec fn after_sgr(t: TermView, codes: Seq<Vec<u16>>) -> TermView {
    csi_model(t, codes, false, 0x6d)
}

/// Bold after foreground `30 + n` (n < 8) gives palette color `n + 8`; bold
/// off gives `n` back.
pub proof fn lemma_bold_brightens(
    t: TermView,
    n: u16,
    fg: Seq<Vec<u16>>,
    bold: Seq<Vec<u16>>,
    normal: Seq<Vec<u16>>,
)
    requires
        n < 8,
        fg.len() == 1,
        fg[0]@ == seq![(30 + n) as u16],
        bold.len() == 1,
        bold[0]@ == seq![1u16],
        normal.len() == 1,
        normal[0]@ == seq![22u16],
    ensures
        effective_fg(after_sgr(after_sgr(t, fg), bold).pen) == Color::Indexed((n + 8) as u8),
        effective_fg(after_sgr(after_sgr(after_sgr(t, fg), bold), normal).pen) == Color::Indexed(
            n as u8,
        ),
{
    reveal_with_fuel(crate::model::sgr_from, 2);
}

/// Entering the alternate screen with mode 1049 and leaving it again gives
/// back the primary screen and the cursor exactly.
pub proof fn lemma_alt_round_trip(t: TermView, mode: Seq<Vec<u16>>)
    requires
        t.wf(),
        !t.in_alt,
        mode.len() == 1,
        mode[0]@ == seq![1049u16],
    ensures
        ({
            let t2 = csi_model(csi_model(t, mode, true, 0x68), mode, true, 0x6c);
            &&& !t2.in_alt
            &&& t2.live.cursor_row == t.live.cursor_row
            &&& t2.live.cursor_col == t.live.cursor_col
            &&& t2.live.grid == t.live.grid
        }),
{
    reveal_with_fuel(crate::model::modes_from, 2);
}


/// A zero-width character appends itself to the glyph left of the cursor;
/// no other cell and not the cursor change.
pub proof fn lemma_combining_appends(t: TermView, ch: char)
    requires
        t.wf(),
        t.live.cursor_col > 0,
        t.mark_store.len() <= usize::MAX,
    ensures
        ({
            let row = t.live.cursor_row as int;
            let c = glyph_left_of_cursor(t);
            let t2 = print_combining(t, ch);
            &&& 0 <= c < t.cols
            &&& glyph(t2, t2.cell(row, c)) == glyph(t, t.cell(row, c)).push(ch)
            &&& t2.live.cursor_row == t.live.cursor_row
            &&& t2.live.cursor_col == t.live.cursor_col
            &&& forall|r: int, k: int|
                0 <= r < t.rows && 0 <= k < t.cols && (r != row || k != c) ==> #[trigger] t2.cell(
                    r,
                    k,
                ) == t.cell(r, k)
        }),
{
    let row = t.live.cursor_row as int;
    let col = t.live.cursor_col as int;
    assert(line_ok(t.live.grid[row]));
    assert(t.live.grid[row].len() == t.cols);
    let c = glyph_left_of_cursor(t);
    let t2 = print_combining(t, ch);
    let old_marks = crate::model::marks_of(t, t.cell(row, c));
    assert(t2.mark_store[t.mark_store.len() as int] == old_marks.push(ch));
    assert(glyph(t2, t2.cell(row, c)) =~= glyph(t, t.cell(row, c)).push(ch));
}

/// Whether DEC private mode `p` is one of the alternate-screen modes.
pub open spec fn is_alt_mode(p: u16) -> bool {
    p == 47 || p == 1047 || p == 1049
}

/// Whether parameter `i` of `ps` names an alternate-screen mode.
pub open spec fn names_alt_mode(ps: Seq<Vec<u16>>, i: int) -> bool {
    ps[i]@.len() > 0 && is_alt_mode(ps[i]@[0])
}

/// Whether action `a` leaves the alternate screen alone: it is not RIS and
/// not a reset of mode 47, 1047 or 1049 (each of which leaves the alternate
/// screen).
pub open spec fn keeps_alt(a: Action) -> bool {
    match a {
        Action::Esc { intermediates, byte } => !(intermediates@.len() == 0 && byte == 0x63),
        Action::Csi { params, intermediates, ignore, action } => ignore || !(
        intermediates@.len() > 0 && intermediates@[0] == 0x3f && action == 0x6c && exists|i: int|
            0 <= i < params@.len() && #[trigger] names_alt_mode(params@, i)),
        _ => true,
    }
}

/// What the alternate-screen round trip depends on stays as it is.
pub open spec fn same_alt_state(a: TermView, b: TermView) -> bool {
    &&& a.in_alt == b.in_alt
    &&& a.saved_cursor_1049 == b.saved_cursor_1049
    &&& a.cols == b.cols
    &&& a.rows == b.rows
    &&& a.alt == b.alt
}

proof fn lemma_repeat_keeps(t: TermView, ch: char, k: nat)
    ensures
        same_alt_state(repeat_print(t, ch, k), t),
    decreases k,
{
    if k > 0 {
        lemma_repeat_keeps(t, ch, (k - 1) as nat);
        let u = repeat_print(t, ch, (k - 1) as nat);
        assert(same_alt_state(print_model(u, ch, print_width(ch)), u));
    }
}

proof fn lemma_modes_set_keep(t: TermView, ps: Seq<Vec<u16>>, i: int)
    requires
        t.in_alt,
    ensures
        same_alt_state(modes_from(t, ps, true, i), t),
    decreases ps.len() - i,
{
    if !(i < 0 || i >= ps.len()) {
        let t2 = if ps[i]@.len() > 0 {
            mode_model(t, ps[i]@[0], true)
        } else {
            t
        };
        assert(same_alt_state(t2, t));
        lemma_modes_set_keep(t2, ps, i + 1);
    }
}

proof fn lemma_modes_reset_keep(t: TermView, ps: Seq<Vec<u16>>, i: int)
    requires
        t.in_alt,
        forall|j: int| 0 <= j < ps.len() ==> !#[trigger] names_alt_mode(ps, j),
    ensures
        same_alt_state(modes_from(t, ps, false, i), t),
    decreases ps.len() - i,
{
    if !(i < 0 || i >= ps.len()) {
        assert(!names_alt_mode(ps, i));
        let t2 = if ps[i]@.len() > 0 {
            mode_model(t, ps[i]@[0], false)
        } else {
            t
        };
        assert(same_alt_state(t2, t));
        lemma_modes_reset_keep(t2, ps, i + 1);
    }
}

proof fn lemma_csi_keeps(t: TermView, ps: Seq<Vec<u16>>, private: bool, f: u8)
    requires
        t.in_alt,
        private && f == 0x6c ==> forall|j: int| 0 <= j < ps.len() ==> !#[trigger] names_alt_mode(ps, j),
    ensures
        same_alt_state(csi_model(t, ps, private, f), t),
{
    if f == 0x62 {
        match t.last_printable {
            Some(ch) => lemma_repeat_keeps(t, ch, crate::model::count_param(ps, 0) as nat),
            None => {},
        }
    } else if f == 0x68 && private {
        lemma_modes_set_keep(t, ps, 0);
    } else if f == 0x6c && private {
        lemma_modes_reset_keep(t, ps, 0);
    }
}

/// In the alternate screen, an action that `keeps_alt` keeps the screen
/// pair, the saved 1049 cursor and the dimensions.
pub proof fn lemma_action_keeps_alt(t: TermView, a: Action)
    requires
        t.in_alt,
        keeps_alt(a),
    ensures
        same_alt_state(action_model(t, a), t),
{
    reveal(action_model);
    match a {
        Action::Csi { params, intermediates, ignore, action } => if !ignore {
            lemma_csi_keeps(
                t,
                params@,
                intermediates@.len() > 0 && intermediates@[0] == 0x3f,
                action,
            );
        },
        _ => {},
    }
}

proof fn lemma_actions_keep_alt(t: TermView, acts: Seq<Action>)
    requires
        t.in_alt,
        forall|i: int| 0 <= i < acts.len() ==> keeps_alt(#[trigger] acts[i]),
    ensures
        same_alt_state(actions_model(t, acts), t),
    decreases acts.len(),
{
    if acts.len() > 0 {
        let init = acts.drop_last();
        assert forall|i: int| 0 <= i < init.len() implies keeps_alt(#[trigger] init[i]) by {
            assert(init[i] == acts[i]);
        }
        lemma_actions_keep_alt(t, init);
        lemma_action_keeps_alt(actions_model(t, init), acts.last());
    }
}

/// Entering the alternate screen with mode 1049, then any actions that
/// `keeps_alt` (no RIS, no reset of mode 47, 1047 or 1049), then leaving it with
/// mode 1049, gives back the primary screen and the cursor exactly, and
/// forgets the saved cursor.
pub proof fn lemma_alt_round_trip_through(t: TermView, mode: Seq<Vec<u16>>, acts: Seq<Action>)
    requires
        t.wf(),
        !t.in_alt,
        mode.len() == 1,
        mode[0]@ == seq![1049u16],
        forall|i: int| 0 <= i < acts.len() ==> keeps_alt(#[trigger] acts[i]),
    ensures
        ({
            let t1 = csi_model(t, mode, true, 0x68);
            let t3 = csi_model(actions_model(t1, acts), mode, true, 0x6c);
            &&& !t3.in_alt
            &&& t3.saved_cursor_1049 is None
            &&& t3.live.cursor_row == t.live.cursor_row
            &&& t3.live.cursor_col == t.live.cursor_col
            &&& t3.live.grid == t.live.grid
        }),
{
    reveal_with_fuel(crate::model::modes_from, 2);
    let t1 = csi_model(t, mode, true, 0x68);
    assert(t1.in_alt);
    assert(t1.saved_cursor_1049 == Some((t.live.cursor_row, t.live.cursor_col)));
    lemma_actions_keep_alt(t1, acts);
}

/// Applying the actions `a` and then the actions `b` gives the same state
/// as applying `a + b` at once: how the input was cut into stretches does
/// not matter once the parser has produced the same actions.
pub proof fn lemma_actions_batches(t: TermView, a: Seq<Action>, b: Seq<Action>)
    ensures
        actions_model(actions_model(t, a), b) == actions_model(t, a + b),
    decreases b.len(),
{
    let s = a + b;
    if b.len() == 0 {
        assert(s =~= a);
    } else {
        let u = actions_model(t, a);
        lemma_actions_batches(t, a, b.drop_last());
        assert(s.drop_last() =~= a + b.drop_last());
        assert(s.last() == b.last());
        let mid = actions_model(u, b.drop_last());
        assert(actions_model(u, b) == action_model(mid, b.last()));
        assert(actions_model(t, s) == action_model(actions_model(t, s.drop_last()), s.last()));
    }
}

} // verus!
