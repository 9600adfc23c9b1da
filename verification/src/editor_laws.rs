//! What the editor's operations promise, stated over the editor's view:
//! where the cursor goes, what a redraw shows, and how a key prefix ends.

use vstd::prelude::*;
use crate::list::{lemma_distinct_bound, next_of};
use crate::darea::{TopText, BotText, EditArea, BTCuP, TTSaved, EAAll};
use crate::strings::pair_text;
use crate::termop::Op;
use crate::controller::{
    EditorView, view_wf, render, render_top, render_bottom, top_area, edit_area, bottom_area,
    up, down, left, right, fscrollup, fscrolldown, clamp_col, scroll_flags, dispatch, step, apply_mods,
    split_active, edit_ops, shown_line, shown_count, flagged, enter,
};
use crate::line::{split_kept, split_off, lemma_split_parts};
use crate::keys::{KeyCode, KeyEvent, Input, ctrl_char};

verus! {

/// Redrawing changes nothing but the redraw bookkeeping: the lines, the
/// cursor, the active line and everything else stay as they were.
pub proof fn lemma_render_keeps(v: EditorView)
    ensures
        #[trigger] render(v).1 == (EditorView {
            redisplay: render(v).1.redisplay,
            tt_left_len: render(v).1.tt_left_len,
            bt_left_len: render(v).1.bt_left_len,
            ..v
        }),
{
    reveal(top_area);
    reveal(edit_area);
    reveal(bottom_area);
    reveal(render_top);
    reveal(render_bottom);
}

/// Every stored line holds no more bytes than its capacity, knows its own
/// address, and has one of the (at most `u64::MAX`) addresses handed out
/// so far.
pub open spec fn heap_valid(v: EditorView) -> bool {
    &&& v.used <= u64::MAX
    &&& forall|a: u64| #[trigger] v.heap.dom().contains(a) ==> {
        &&& v.heap[a].wf()
        &&& v.heap[a].addr == a
        &&& 1 <= a <= v.used
    }
}

/// Scrolling down moves the view and the active line one line on and keeps
/// the cursor row; scrolling up does the same the other way.
proof fn lemma_scroll_keeps(v: EditorView)
    ensures
        ({
            let w = fscrolldown(v).1;
            let a = v.heap[v.activeline].next;
            &&& w.lines == v.lines
            &&& w.heap == v.heap
            &&& w.activeline == a
            &&& w.frame_start == ((v.frame_start.0 + 1) as u64, v.frame_start.1)
            &&& w.pos == (v.pos.0, clamp_col(v, a))
            &&& w.pref_x == v.pref_x
            &&& w.escctrl == v.escctrl
        }),
        ({
            let w = fscrollup(v).1;
            let a = v.heap[v.activeline].prev;
            &&& w.lines == v.lines
            &&& w.heap == v.heap
            &&& w.activeline == a
            &&& w.frame_start == ((v.frame_start.0 - 1) as u64, v.frame_start.1)
            &&& w.pos == (v.pos.0, clamp_col(v, a))
            &&& w.pref_x == v.pref_x
            &&& w.escctrl == v.escctrl
        }),
{
    let a = v.heap[v.activeline].next;
    lemma_render_keeps(EditorView {
        frame_start: ((v.frame_start.0 + 1) as u64, v.frame_start.1),
        redisplay: scroll_flags(v.redisplay),
        activeline: a,
        pos: (v.pos.0, clamp_col(v, a)),
        ..v
    });
    let b = v.heap[v.activeline].prev;
    lemma_render_keeps(EditorView {
        frame_start: ((v.frame_start.0 - 1) as u64, v.frame_start.1),
        redisplay: scroll_flags(v.redisplay),
        activeline: b,
        pos: (v.pos.0, clamp_col(v, b)),
        ..v
    });
}

/// There are no more lines than addresses handed out.
proof fn lemma_lines_fit(v: EditorView)
    requires
        view_wf(v),
        heap_valid(v),
    ensures
        v.lines.len() <= v.used <= u64::MAX,
{
    assert forall|i: int| 0 <= i < v.lines.len() implies 1 <= #[trigger] v.lines[i] <= v.used by {
        assert(v.heap.dom().contains(v.lines[i]));
    }
    lemma_distinct_bound(v.lines, v.used);
}

/// The commands `ops` print `t` at some point.
pub open spec fn prints(ops: Seq<Op>, t: Seq<char>) -> bool {
    exists|j: int| 0 <= j < ops.len() && ops[j] == Op::Print(t)
}

/// The smaller of `a` and `b`.
pub open spec fn min_of(a: int, b: int) -> int {
    if a <= b { a } else { b }
}

/// Law: moving down from a line that has a line after it always succeeds; the
/// cursor goes to that next line, at the preferred column when the line is
/// that long and at its end otherwise, and the lines themselves are left
/// alone. From the last line the cursor goes to the end of that line.
pub proof fn lemma_down_moves_to_next_line(v: EditorView)
    requires
        view_wf(v),
        heap_valid(v),
    ensures
        ({
            let k = v.frame_start.0 + v.pos.0;
            let w = down(v).1;
            &&& w.lines == v.lines
            &&& w.heap == v.heap
            &&& w.pos.1 <= w.heap[w.activeline].text.len()
            &&& k + 1 < v.lines.len() ==> {
                &&& down(v).2
                &&& w.frame_start.0 + w.pos.0 == k + 1
                &&& w.activeline == v.lines[k + 1]
                &&& w.pos.1 == min_of(v.pref_x as int, v.heap[v.lines[k + 1]].text.len() as int)
                &&& w.pref_x == v.pref_x
            }
            &&& k + 1 == v.lines.len() ==> {
                &&& w.activeline == v.activeline
                &&& w.frame_start == v.frame_start
                &&& w.pos == (v.pos.0, v.heap[v.activeline].text.len() as u64)
            }
        }),
{
    lemma_scroll_keeps(v);
    lemma_lines_fit(v);
    let k = v.frame_start.0 + v.pos.0;
    assert(v.heap.dom().contains(v.activeline));
    if k + 1 < v.lines.len() {
        assert(v.heap[v.lines[k]].next == v.lines[k + 1]);
        assert(v.heap.dom().contains(v.lines[k + 1]));
    }
}

/// Law: moving up from a line that has a line before it always succeeds; the
/// cursor goes to that line, at the preferred column when the line is that
/// long and at its end otherwise. On the first line the cursor goes to the
/// start of the line.
pub proof fn lemma_up_moves_to_previous_line(v: EditorView)
    requires
        view_wf(v),
    ensures
        ({
            let k = v.frame_start.0 + v.pos.0;
            let w = up(v).1;
            &&& w.lines == v.lines
            &&& w.heap == v.heap
            &&& k > 0 ==> {
                &&& up(v).2
                &&& w.frame_start.0 + w.pos.0 == k - 1
                &&& w.activeline == v.lines[k - 1]
                &&& w.pos.1 == min_of(v.pref_x as int, v.heap[v.lines[k - 1]].text.len() as int)
                &&& w.pos.1 <= w.heap[w.activeline].text.len()
                &&& w.pref_x == v.pref_x
            }
            &&& k == 0 ==> {
                &&& w.activeline == v.activeline
                &&& w.frame_start == v.frame_start
                &&& w.pos == (0u64, 0u64)
            }
        }),
{
    lemma_scroll_keeps(v);
    let k = v.frame_start.0 + v.pos.0;
    if k > 0 {
        assert(v.heap[v.lines[k]].prev == v.lines[k - 1]);
        assert(v.heap.dom().contains(v.lines[k - 1]));
    }
}

/// Law: moving left inside a line moves one column back. From the start of
/// a line that has a line before it, the cursor goes to the end of that
/// line; from the start of the first line it stays where it is.
pub proof fn lemma_left_wraps_to_end_of_previous_line(v: EditorView)
    requires
        view_wf(v),
        heap_valid(v),
    ensures
        ({
            let k = v.frame_start.0 + v.pos.0;
            let w = left(v).1;
            &&& w.lines == v.lines
            &&& w.heap == v.heap
            &&& !w.suppress || v.pos.1 > 0
            &&& v.pos.1 > 0 ==> {
                &&& w.activeline == v.activeline
                &&& w.frame_start == v.frame_start
                &&& w.pos == (v.pos.0, (v.pos.1 - 1) as u64)
                &&& w.pref_x == w.pos.1
            }
            &&& v.pos.1 == 0 && k > 0 ==> {
                &&& w.activeline == v.lines[k - 1]
                &&& w.frame_start.0 + w.pos.0 == k - 1
                &&& w.pos.1 == v.heap[v.lines[k - 1]].text.len()
                &&& w.pref_x == w.pos.1
            }
            &&& v.pos.1 == 0 && k == 0 ==> {
                &&& w.activeline == v.activeline
                &&& w.frame_start == v.frame_start
                &&& w.pos == v.pos
            }
        }),
{
    let u = EditorView { suppress: true, ..v };
    lemma_up_moves_to_previous_line(u);
    let k = v.frame_start.0 + v.pos.0;
    if k > 0 {
        assert(v.heap.dom().contains(v.lines[k - 1]));
    }
}

/// Law: moving right inside a line moves one column on. From the end of a
/// line that has a line after it, the cursor goes to the start of that line;
/// at the end of the last line it stays where it is.
pub proof fn lemma_right_wraps_to_start_of_next_line(v: EditorView)
    requires
        view_wf(v),
        heap_valid(v),
    ensures
        ({
            let k = v.frame_start.0 + v.pos.0;
            let len = v.heap[v.activeline].text.len();
            let w = right(v).1;
            &&& w.lines == v.lines
            &&& w.heap == v.heap
            &&& v.pos.1 < len ==> {
                &&& w.activeline == v.activeline
                &&& w.frame_start == v.frame_start
                &&& w.pos == (v.pos.0, (v.pos.1 + 1) as u64)
                &&& w.pref_x == w.pos.1
            }
            &&& v.pos.1 >= len && k + 1 < v.lines.len() ==> {
                &&& w.activeline == v.lines[k + 1]
                &&& w.frame_start.0 + w.pos.0 == k + 1
                &&& w.pos.1 == 0
                &&& w.pref_x == 0
            }
            &&& v.pos.1 >= len && k + 1 == v.lines.len() ==> {
                &&& w.activeline == v.activeline
                &&& w.frame_start == v.frame_start
                &&& w.pos == (v.pos.0, len as u64)
            }
        }),
{
    let u = EditorView { suppress: true, ..v };
    lemma_down_moves_to_next_line(u);
    lemma_lines_fit(v);
}

/// Clearing the top, edit-area, saved-status and bottom bits of the redraw
/// flags keeps the cursor-position bit, and clearing the top, edit-area and
/// saved-status bits keeps the bottom bit.
proof fn lemma_cursor_bits_survive(x: u64)
    ensures
        x & 64 != 0 ==> (x & !1u64) & !4u64 & 64 != 0,
        x & 64 != 0 ==> (x & !1u64) & !512u64 & !4u64 & 64 != 0,
        x & 64 != 0 ==> (x & !1u64) & !4u64 & !2u64 & 64 != 0,
        x & 64 != 0 ==> (x & !1u64) & !512u64 & !4u64 & !2u64 & 64 != 0,
        x & 2 != 0 ==> (x & !1u64) & !4u64 & 2 != 0,
        x & 2 != 0 ==> (x & !1u64) & !512u64 & !4u64 & 2 != 0,
        x & 2 != 0 ==> x != 0,
{
    assert(x & 2 != 0 ==> x != 0) by (bit_vector);
    assert(x & 64 != 0 ==> (x & !1u64) & !4u64 & 64 != 0) by (bit_vector);
    assert(x & 64 != 0 ==> (x & !1u64) & !512u64 & !4u64 & 64 != 0) by (bit_vector);
    assert(x & 64 != 0 ==> (x & !1u64) & !4u64 & !2u64 & 64 != 0) by (bit_vector);
    assert(x & 64 != 0 ==> (x & !1u64) & !512u64 & !4u64 & !2u64 & 64 != 0) by (bit_vector);
    assert(x & 2 != 0 ==> (x & !1u64) & !4u64 & 2 != 0) by (bit_vector);
    assert(x & 2 != 0 ==> (x & !1u64) & !512u64 & !4u64 & 2 != 0) by (bit_vector);
}

/// The bits of the display areas that a redraw looks at.
proof fn lemma_area_bits()
    ensures
        BTCuP == 64 && BotText == 2 && TopText == 1 && EditArea == 4 && TTSaved == 512,
{
    assert(1u64 << 6u64 == 64 && 1u64 << 1u64 == 2 && 1u64 << 0u64 == 1 && 1u64 << 2u64 == 4
        && 1u64 << 9u64 == 512) by (bit_vector);
}

/// Law: when the cursor position is redrawn, the bottom row shows the
/// position of the active line in the whole list (not its row on the
/// screen) and the cursor column.
pub proof fn lemma_bottom_row_shows_line_index(v: EditorView, i: int)
    requires
        view_wf(v),
        0 <= i < v.lines.len(),
        v.lines[i] == v.activeline,
        v.redisplay & BTCuP != 0,
    ensures
        render_bottom(v).0.len() > 5,
        render_bottom(v).0[5] == Op::Print(pair_text(i as nat, v.pos.1 as nat)),
{
    reveal(render_bottom);
    let k = v.frame_start.0 + v.pos.0;
    assert(v.lines[i] == v.lines[k]);
    assert(i == k);
}

/// Law: a redraw that covers the bottom area and the cursor position prints
/// the position of the active line in the whole list and the cursor column.
pub proof fn lemma_screen_shows_line_index(v: EditorView, i: int)
    requires
        view_wf(v),
        0 <= i < v.lines.len(),
        v.lines[i] == v.activeline,
        v.redisplay & BotText != 0,
        v.redisplay & BTCuP != 0,
    ensures
        prints(render(v).0, pair_text(i as nat, v.pos.1 as nat)),
{
    reveal(top_area);
    reveal(edit_area);
    reveal(bottom_area);
    reveal(render_top);
    lemma_cursor_bits_survive(v.redisplay);
    lemma_area_bits();
    let (top, vb) = top_area(v);
    let (edit, vc) = edit_area(vb);
    let vd = EditorView { redisplay: vc.redisplay & !BotText, ..vc };
    assert(vc.redisplay & BotText != 0);
    assert(vd.redisplay & BTCuP != 0);
    assert(bottom_area(vc) == render_bottom(vd));
    lemma_bottom_row_shows_line_index(vd, i);
    assert(v.redisplay != 0);
    let bot = render_bottom(vd).0;
    let tail = seq![Op::SetCurPos((v.pos.0 + 1) as u64, v.pos.1), Op::Flush, Op::ShowCursor];
    let all = seq![Op::HideCursor, Op::Queue, Op::TopLeft] + top + edit + bot + tail;
    assert(render(v).0 == all);
    let j = (3 + top.len() + edit.len() + 5) as int;
    assert(all[j] == bot[5]);
}

/// A redraw leaves a pending escape prefix as it was.
pub broadcast proof fn lemma_render_keeps_prefix(v: EditorView)
    ensures
        #[trigger] render(v).1.escctrl == v.escctrl,
{
    lemma_render_keeps(v);
}

/// What a key does once its modifiers are applied leaves the escape prefix
/// alone, unless the key is Esc itself.
proof fn lemma_dispatch_keeps_prefix(v: EditorView, code: KeyCode, lm: Seq<char>)
    requires
        !(code is Esc),
    ensures
        dispatch(v, code, lm).1.escctrl == v.escctrl,
{
    broadcast use lemma_render_keeps_prefix;
    lemma_scroll_keeps(v);
    lemma_scroll_keeps(split_active(v));
    lemma_scroll_keeps(EditorView { suppress: true, ..v });
}

/// Law: Esc makes the next key a control key, and only the next one. A key
/// pressed while the prefix is pending ends it (unless it is Esc again, which
/// starts it anew), so the plain key after it is taken as it is.
pub proof fn lemma_esc_prefix_applies_to_one_key(
    v: EditorView,
    k: KeyEvent,
    k2: KeyEvent,
    lm: Seq<char>,
)
    requires
        !k.release,
        !k2.control,
        k2.caps_lock == k2.shift,
    ensures
        !k.control && !v.escctrl && k.code is Esc ==> step(v, Input::KeyIn(k), lm).1.escctrl,
        v.escctrl ==> apply_mods(v, k).2 == (match k.code {
            KeyCode::Char(c) => KeyCode::Char(ctrl_char(c)),
            _ => k.code,
        }),
        v.escctrl && !(k.code is Esc) ==> !step(v, Input::KeyIn(k), lm).1.escctrl,
        v.escctrl && !(k.code is Esc) ==> apply_mods(step(v, Input::KeyIn(k), lm).1, k2).2 == k2.code,
        v.escctrl && k.code is Esc ==> step(v, Input::KeyIn(k), lm).1.escctrl,
{
    broadcast use lemma_render_keeps_prefix;
    let (o1, v1, code) = apply_mods(v, k);
    if v.escctrl || k.control {
        assert(code is Esc <==> k.code is Esc);
    }
    if !(code is Esc) {
        lemma_dispatch_keeps_prefix(v1, code, lm);
    }
}

/// Inserting an element that is not there keeps the elements distinct.
proof fn lemma_insert_fresh(s: Seq<u64>, k: int, x: u64)
    requires
        s.no_duplicates(),
        !s.contains(x),
        0 <= k <= s.len(),
    ensures
        s.insert(k, x).no_duplicates(),
{
    let t = s.insert(k, x);
    assert forall|i: int, j: int| 0 <= i < t.len() && 0 <= j < t.len() && i != j implies t[i] != t[j] by {
        if i != k && j != k {
            let i0 = if i < k { i } else { i - 1 };
            let j0 = if j < k { j } else { j - 1 };
            assert(t[i] == s[i0] && t[j] == s[j0]);
        } else if i == k {
            let j0 = if j < k { j } else { j - 1 };
            assert(t[j] == s[j0]);
        } else {
            let i0 = if i < k { i } else { i - 1 };
            assert(t[i] == s[i0]);
        }
    }
}

/// What splitting the active line does to the lines: the new line gets the
/// next address, goes right after the active line, and is its next line;
/// the bytes of the active line are shared out between the two, and every
/// other line keeps its bytes.
proof fn lemma_split_active_shape(v: EditorView)
    requires
        view_wf(v),
        heap_valid(v),
        v.used < u64::MAX,
    ensures
        ({
            let k = v.frame_start.0 + v.pos.0;
            let ac = (v.used + 1) as u64;
            let old_line = v.heap[v.activeline];
            let v1 = split_active(v);
            &&& !v.heap.dom().contains(ac)
            &&& v1.lines == v.lines.insert(k + 1, ac)
            &&& v1.lines.no_duplicates()
            &&& v1.heap.dom() == v.heap.dom().insert(ac)
            &&& v1.heap[v.activeline].text == split_kept(old_line, v.pos.1).text
            &&& v1.heap[ac].text == split_off(old_line, v.pos.1).text
            &&& v1.heap[v.activeline].next == ac
            &&& forall|a: u64| #[trigger] v.heap.dom().contains(a) && a != v.activeline ==> v1.heap[a].text
                == v.heap[a].text
            &&& v1.activeline == v.activeline
            &&& v1.frame_start == v.frame_start
            &&& v1.pos == v.pos
            &&& v1.size == v.size
            &&& v1.pref_x == v.pref_x
            &&& v1.redisplay == v.redisplay
            &&& v1.suppress == v.suppress
        }),
{
    let k = v.frame_start.0 + v.pos.0;
    let ac = (v.used + 1) as u64;
    let s = v.lines;
    let t = s.insert(k + 1, ac);
    assert(!v.heap.dom().contains(ac));
    assert(!s.contains(ac)) by {
        if s.contains(ac) {
            let j = s.index_of(ac);
            assert(v.heap.dom().contains(s[j]));
        }
    }
    lemma_insert_fresh(s, k + 1, ac);
    assert(t[k] == v.activeline);
    assert(t[k + 1] == ac);
    assert(t.contains(v.activeline));
    let idx = t.index_of(v.activeline);
    assert(t[idx] == t[k]);
    assert(idx == k);
    let v1 = split_active(v);
    assert(v1.heap.dom() =~= v.heap.dom().insert(ac));
    assert(v1.heap[v.activeline].next == next_of(t, k));
}

/// Drawing the first `n` lines prints line `i` as the first of three
/// commands per line.
proof fn lemma_edit_ops_print(v: EditorView, n: nat)
    ensures
        edit_ops(v, n).len() == 3 * n,
        forall|i: int| 0 <= i < n ==> #[trigger] edit_ops(v, n)[3 * i] == Op::Print(shown_line(v, i)),
    decreases n,
{
    if n > 0 {
        lemma_edit_ops_print(v, (n - 1) as nat);
        let e = edit_ops(v, (n - 1) as nat);
        assert forall|i: int| 0 <= i < n implies #[trigger] edit_ops(v, n)[3 * i] == Op::Print(shown_line(v, i)) by {
            if i < n - 1 {
                assert(edit_ops(v, n)[3 * i] == e[3 * i]);
            }
        }
    }
}

/// The flags that Enter sets keep the edit-area bit through the top area.
proof fn lemma_enter_flags_keep_edit_bit(x: u64)
    ensures
        (x | 15462u64) & !1u64 & 4 != 0,
        (x | 15462u64) & !1u64 & !512u64 & 4 != 0,
        (x | 15462u64) != 0,
{
    assert((x | 15462u64) & !1u64 & 4 != 0) by (bit_vector);
    assert((x | 15462u64) & !1u64 & !512u64 & 4 != 0) by (bit_vector);
    assert((x | 15462u64) != 0) by (bit_vector);
}

/// The flags that Enter sets.
proof fn lemma_enter_flag_bits()
    ensures
        BTCuP | BotText | EAAll == 15462u64,
{
    assert((1u64 << 6u64) | (1u64 << 1u64) | ((1u64 << 2u64) | (1u64 << 10u64) | (1u64 << 11u64) | (1u64
        << 12u64) | (1u64 << 13u64) | (1u64 << 5u64)) == 15462u64) by (bit_vector);
}

/// A redraw after the flags of Enter are set prints every line that the edit
/// area shows, as the lines are.
proof fn lemma_enter_redraw_prints_edit_area(w: EditorView)
    ensures
        ({
            let v = flagged(w, BTCuP | BotText | EAAll);
            forall|i: int| 0 <= i < shown_count(render(v).1) ==> prints(render(v).0, #[trigger] shown_line(render(v).1, i))
        }),
{
    reveal(top_area);
    reveal(edit_area);
    reveal(bottom_area);
    reveal(render_top);
    reveal(render_bottom);
    lemma_enter_flag_bits();
    lemma_area_bits();
    let v = flagged(w, BTCuP | BotText | EAAll);
    lemma_enter_flags_keep_edit_bit(w.redisplay);
    lemma_render_keeps(v);
    let (top, vb) = top_area(v);
    let vc = EditorView { redisplay: vb.redisplay & !EditArea, ..vb };
    assert(vb.redisplay & EditArea != 0);
    let n = shown_count(vc);
    let edit = edit_ops(vc, n);
    assert(edit_area(vb) == (edit, vc));
    let (bot, vd) = bottom_area(vc);
    let tail = seq![Op::SetCurPos((v.pos.0 + 1) as u64, v.pos.1), Op::Flush, Op::ShowCursor];
    let all = seq![Op::HideCursor, Op::Queue, Op::TopLeft] + top + edit + bot + tail;
    assert(render(v).0 == all);
    let f = render(v).1;
    assert(shown_count(f) == n);
    lemma_edit_ops_print(vc, n);
    assert forall|i: int| 0 <= i < shown_count(f) implies prints(render(v).0, #[trigger] shown_line(f, i)) by {
        let j = (3 + top.len() + 3 * i) as int;
        assert(shown_line(f, i) == shown_line(vc, i));
        assert(edit[3 * i] == Op::Print(shown_line(vc, i)));
        assert(all[j] == edit[3 * i]);
        assert(0 <= j < all.len());
    }
}

/// Law: Enter splits the active line at the cursor column and redraws. The
/// line keeps the bytes before the cursor and a new line right after it
/// gets the rest, so that the two put together are the old line; no other
/// line changes. The cursor goes to the new line, and every line that the
/// edit area shows is printed as it is after the split.
pub proof fn lemma_enter_splits_and_redraws(v: EditorView)
    requires
        view_wf(v),
        heap_valid(v),
        v.used < u64::MAX,
    ensures
        ({
            let k = v.frame_start.0 + v.pos.0;
            let old_text = v.heap[v.activeline].text;
            let (o, w, cont) = enter(v);
            &&& cont
            &&& w.lines.len() == v.lines.len() + 1
            &&& forall|i: int| 0 <= i <= k ==> #[trigger] w.lines[i] == v.lines[i]
            &&& forall|i: int| k < i < v.lines.len() ==> #[trigger] w.lines[i + 1] == v.lines[i]
            &&& !v.heap.dom().contains(w.lines[k + 1])
            &&& w.heap[w.lines[k]].text + w.heap[w.lines[k + 1]].text == old_text
            &&& v.pos.1 < old_text.len() ==> w.heap[w.lines[k]].text == old_text.take(v.pos.1 as int)
            &&& forall|i: int| 0 <= i < v.lines.len() && i != k ==> #[trigger] w.heap[v.lines[i]].text
                == v.heap[v.lines[i]].text
            &&& w.activeline == w.lines[k + 1]
            &&& w.frame_start.0 + w.pos.0 == k + 1
            &&& forall|i: int| 0 <= i < shown_count(w) ==> prints(o, #[trigger] shown_line(w, i))
        }),
{
    let k = v.frame_start.0 + v.pos.0;
    let ac = (v.used + 1) as u64;
    let old_line = v.heap[v.activeline];
    lemma_split_active_shape(v);
    lemma_lines_fit(v);
    lemma_split_parts(old_line, v.pos.1);
    let v1 = split_active(v);
    lemma_scroll_keeps(v1);
    let (od, wd, okd) = down(v1);
    assert(v1.lines[k + 1] == ac);
    assert(wd.activeline == ac);
    assert(wd.lines == v1.lines && wd.heap == v1.heap);
    assert(wd.frame_start.0 + wd.pos.0 == k + 1);
    let w2 = flagged(wd, BTCuP | BotText | EAAll);
    lemma_render_keeps(w2);
    lemma_enter_redraw_prints_edit_area(wd);
    let (o, w, cont) = enter(v);
    assert(o == od + render(w2).0);
    assert(w == render(w2).1);
    assert forall|i: int| 0 <= i < shown_count(w) implies prints(o, #[trigger] shown_line(w, i)) by {
        assert(prints(render(w2).0, shown_line(w, i)));
        let j = choose|j: int| 0 <= j < render(w2).0.len() && render(w2).0[j] == Op::Print(shown_line(w, i));
        assert(o[od.len() + j] == render(w2).0[j]);
    }
    assert forall|i: int| 0 <= i < v.lines.len() && i != k implies #[trigger] w.heap[v.lines[i]].text
        == v.heap[v.lines[i]].text by {
        assert(v.heap.dom().contains(v.lines[i]));
        assert(v.lines[i] != v.lines[k]);
    }
}

} // verus!
