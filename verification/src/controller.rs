//! The editor: its text, cursor and screen, driven one input event at a time.
//!
//! Every method that would touch the terminal instead appends [`TermOp`]
//! commands to an output buffer, which the host carries out in order.

use vstd::prelude::*;
use vstd::utf8::{encode_utf8, decode_utf8, is_char_boundary};
use crate::darea::{TopText, BotText, EditArea, TTAll, BTAll, EAAll, BTAllE, BTCuP, BTMsg, TTSaved, EACuL};
use crate::data::{FileMeta, Attrs, _MoveRestrict, _Display, elapsed_text};
use std::time::SystemTime;
use crate::keys::{KeyCode, KeyEvent, Input, ctrl_char, shift_char, low_byte_char, apply_key_ctrl, apply_key_shift};
use crate::line::{Line, LineHeap, LineView, bytes_as_chars, split_kept, split_off, removed};
use crate::list::{LineList, LineIter, linked, relink, byte_total};
use crate::measure::{text_width, centered, measure_text_width, pad_str_center};
use crate::statics::{debugging, debug_switch};
use crate::strings::{spaces, pair_text, pair_string, push_spaces, string_append, string_push, hex, decimal, push_hex, push_decimal};
use crate::termop::{TermOp, Op, ops_view, emit, emit_print};
use crate::editor_laws::heap_valid;

verus! {

broadcast use vstd::utf8::encode_utf8_decode_utf8;

pub const MINROWS: u64 = 10;
pub const MINCOLS: u64 = 50;
pub const BOTTOM_MARGIN: u64 = 5;

/// The help text on the last row.
pub open spec fn bottom_text() -> Seq<char> {
    "^X to quit, ^S to save, ^Q to force quit"@
}

/// Everything about the editor that its behaviour depends on.
pub struct EditorView {
    /// addresses of the lines, first to last
    pub lines: Seq<u64>,
    pub heap: Map<u64, LineView>,
    /// how many line addresses have been handed out
    pub used: nat,
    pub total_size: u64,
    pub title: Seq<char>,
    pub path: Seq<char>,
    pub escctrl: bool,
    pub activeline: u64,
    pub endflag: bool,
    pub waserr: bool,
    pub endreason: Seq<char>,
    /// rows, columns
    pub size: (u64, u64),
    /// rows, columns
    pub frame_start: (u64, u64),
    /// row, column
    pub pos: (u64, u64),
    pub pref_x: u64,
    pub suppress: bool,
    pub msg: Seq<char>,
    pub lastmod: Seq<char>,
    pub redisplay: u64,
    pub tt_left_len: usize,
    pub bt_left_len: usize,
}

/// The characters of `s` from byte `i` on, when `i` is a character boundary
/// of its UTF-8 bytes.
pub open spec fn byte_suffix(s: Seq<char>, i: int) -> Option<Seq<char>> {
    let b = encode_utf8(s);
    if is_char_boundary(b, i) { Some(decode_utf8(b.subrange(i, b.len() as int))) } else { None }
}

/// Prints `t` when there is something to print.
pub open spec fn print_opt(t: Option<Seq<char>>) -> Seq<Op> {
    match t {
        Some(x) => seq![Op::Print(x)],
        None => seq![],
    }
}

/// The size and save status shown at the top left.
pub open spec fn status_text(size: (u64, u64)) -> Seq<char> {
    pair_text(size.0 as nat, size.1 as nat) + " "@ + (if debug_switch(7) {
        "\u{1b}[38;2;220;0;0mSAVE DISABLED"@
    } else {
        "\u{1b}[38;2;0;200;0mSAVE ENABLED"@
    }) + "\u{1b}[0m"@
}

/// The separator printed at the end of the top row.
pub open spec fn bar_text() -> Seq<char> {
    "\u{1b}[D\u{1b}[38;2;150;150;150m|\u{1b}[0m\r\n"@
}

/// The top row: the status (when asked for) and the centred title.
#[verifier::opaque]
pub open spec fn render_top(v: EditorView) -> (Seq<Op>, EditorView) {
    let saved_on = v.redisplay & TTSaved != 0;
    let v1 = if saved_on {
        EditorView {
            redisplay: v.redisplay & !TTSaved,
            tt_left_len: text_width(status_text(v.size)) as usize,
            ..v
        }
    } else {
        v
    };
    let pre = if saved_on {
        (if v.tt_left_len > 0 {
            seq![Op::Print(spaces(v.tt_left_len as nat)), Op::TopLeft]
        } else {
            Seq::<Op>::empty()
        }) + seq![Op::Print(status_text(v.size))]
    } else {
        Seq::<Op>::empty()
    };
    let title = centered(v.title + "    "@ + v.lastmod, (v.size.1 as usize) as nat);
    (pre + print_opt(byte_suffix(title, v1.tt_left_len as int)) + seq![Op::Print(bar_text())], v1)
}

/// How line `k` is shown: its characters, or a notice when it is too wide.
pub open spec fn shown_line(v: EditorView, k: int) -> Seq<char> {
    let t = bytes_as_chars(v.heap[v.lines[k]].text);
    if text_width(t) > (v.size.1 as usize) as nat { "LINE TOO LONG"@ } else { t }
}

/// The commands that draw the first `k` lines of the edit area.
pub open spec fn edit_ops(v: EditorView, k: nat) -> Seq<Op>
    decreases k,
{
    if k == 0 {
        Seq::empty()
    } else {
        edit_ops(v, (k - 1) as nat) + seq![
            Op::Print(shown_line(v, k - 1)),
            Op::ClearToNewline,
            Op::Print("\r\n"@),
        ]
    }
}

/// How many lines the edit area shows.
pub open spec fn shown_count(v: EditorView) -> nat {
    let max = v.size.0 - BOTTOM_MARGIN + 1;
    if v.lines.len() < max { v.lines.len() } else { max as nat }
}

/// The bottom rows: the message, the cursor position and the help text.
#[verifier::opaque]
pub open spec fn render_bottom(v: EditorView) -> (Seq<Op>, EditorView) {
    let head = seq![
        Op::SetCurPos((v.size.0 - 2) as u64, 0),
        Op::Print(centered(v.msg, (v.size.1 as usize) as nat)),
        Op::ClearToNewline,
        Op::ResetCol,
        Op::SetCurRow(v.size.0),
    ];
    let cup_on = v.redisplay & BTCuP != 0;
    let y = pair_text((v.pos.0 + v.frame_start.0) as nat, (v.pos.1 + v.frame_start.1) as nat);
    let ylen = encode_utf8(y).len();
    let v1 = if cup_on {
        EditorView { redisplay: v.redisplay & !BTCuP, bt_left_len: ylen as usize, ..v }
    } else {
        v
    };
    let cup = if cup_on {
        seq![Op::Print(y)] + (if v.bt_left_len > ylen {
            seq![Op::Print(spaces((v.bt_left_len - ylen) as nat))]
        } else {
            Seq::<Op>::empty()
        })
    } else {
        Seq::<Op>::empty()
    };
    let alle_on = v1.redisplay & BTAllE != 0;
    let v2 = if alle_on { EditorView { redisplay: v1.redisplay & !BTAllE, ..v1 } } else { v1 };
    let alle = if alle_on {
        seq![Op::SetCurPos(v.size.0, v1.bt_left_len as u64)] + print_opt(
            byte_suffix(centered(bottom_text(), (v.size.1 as usize) as nat), v1.bt_left_len as int),
        )
    } else {
        Seq::<Op>::empty()
    };
    (head + cup + alle, v2)
}

/// The top area: drawn when its flag is set (which is then cleared), else the
/// cursor just moves one row down.
#[verifier::opaque]
pub open spec fn top_area(v: EditorView) -> (Seq<Op>, EditorView) {
    let va = EditorView { redisplay: v.redisplay & !TopText, ..v };
    if v.redisplay & TopText != 0 { render_top(va) } else { (seq![Op::Down], va) }
}

/// The edit area: drawn when its flag is set (which is then cleared).
#[verifier::opaque]
pub open spec fn edit_area(v: EditorView) -> (Seq<Op>, EditorView) {
    let vc = EditorView { redisplay: v.redisplay & !EditArea, ..v };
    if v.redisplay & EditArea != 0 { (edit_ops(vc, shown_count(vc)), vc) } else { (Seq::empty(), vc) }
}

/// The bottom area: drawn when its flag is set (which is then cleared).
#[verifier::opaque]
pub open spec fn bottom_area(v: EditorView) -> (Seq<Op>, EditorView) {
    let vd = EditorView { redisplay: v.redisplay & !BotText, ..v };
    if v.redisplay & BotText != 0 { render_bottom(vd) } else { (Seq::empty(), vd) }
}

/// Redrawing the screen: the commands, and the state afterwards. Each area
/// whose flag is set is drawn and its flag cleared; nothing happens when no
/// flag is set.
pub open spec fn render(v: EditorView) -> (Seq<Op>, EditorView) {
    if v.redisplay == 0 {
        (Seq::empty(), v)
    } else {
        let (top, vb) = top_area(v);
        let (edit, vc) = edit_area(vb);
        let (bot, vd) = bottom_area(vc);
        (
            seq![Op::HideCursor, Op::Queue, Op::TopLeft] + top + edit + bot + seq![
                Op::SetCurPos((v.pos.0 + 1) as u64, v.pos.1),
                Op::Flush,
                Op::ShowCursor,
            ],
            vd,
        )
    }
}

/// The smaller of the preferred column and the length of the line at `a`.
pub open spec fn clamp_col(v: EditorView, a: u64) -> u64 {
    let l = v.heap[a].text.len();
    if v.pref_x > l { l as u64 } else { v.pref_x }
}

/// The redraw flags after a scroll: the edit area is left alone, the top and
/// bottom areas are redrawn.
pub open spec fn scroll_flags(r: u64) -> u64 {
    (r & !EAAll) | (BTAll | TTAll)
}

/// Scrolling the view up by one row: the cursor stays on the top row.
pub open spec fn fscrollup(v: EditorView) -> (Seq<Op>, EditorView) {
    let a = v.heap[v.activeline].prev;
    let v2 = EditorView {
        frame_start: ((v.frame_start.0 - 1) as u64, v.frame_start.1),
        redisplay: scroll_flags(v.redisplay),
        activeline: a,
        pos: (v.pos.0, clamp_col(v, a)),
        ..v
    };
    (
        seq![
            Op::ScrollDown,
            Op::ClearToNewline,
            Op::SetCurPos((v.size.0 - BOTTOM_MARGIN + 2) as u64, 0),
            Op::ClearLine,
            Op::SetCurRow(1),
            Op::Print(bytes_as_chars(v.heap[a].text)),
        ] + render(v2).0,
        render(v2).1,
    )
}

/// Scrolling the view down by one row: the cursor stays on its row.
pub open spec fn fscrolldown(v: EditorView) -> (Seq<Op>, EditorView) {
    let a = v.heap[v.activeline].next;
    let v2 = EditorView {
        frame_start: ((v.frame_start.0 + 1) as u64, v.frame_start.1),
        redisplay: scroll_flags(v.redisplay),
        activeline: a,
        pos: (v.pos.0, clamp_col(v, a)),
        ..v
    };
    (
        seq![Op::ScrollUp, Op::Print(seq!['\r'] + bytes_as_chars(v.heap[a].text)), Op::ClearToEnd] + render(v2).0,
        render(v2).1,
    )
}

/// Moving the cursor up: the commands, the state afterwards, and whether the
/// move counts as done (a refused move counts as done unless errors are
/// being suppressed).
pub open spec fn up(v: EditorView) -> (Seq<Op>, EditorView, bool) {
    if v.pos.0 == 0 && v.frame_start.0 > 0 {
        (fscrollup(v).0, fscrollup(v).1, true)
    } else if v.pos.0 != 0 {
        let a = v.heap[v.activeline].prev;
        (
            seq![Op::HideCursor, Op::ShowCursor],
            EditorView { activeline: a, pos: ((v.pos.0 - 1) as u64, clamp_col(v, a)), ..v },
            true,
        )
    } else if v.pos.1 > 0 {
        (seq![Op::HideCursor, Op::ShowCursor], EditorView { pos: (v.pos.0, 0), pref_x: 0, ..v }, true)
    } else {
        (Seq::empty(), EditorView { pref_x: 0, ..v }, !v.suppress)
    }
}

/// Moving the cursor down (see [`up`]). At the last line the cursor goes to
/// the end of the line.
pub open spec fn down(v: EditorView) -> (Seq<Op>, EditorView, bool) {
    let c1 = v.pos.0 + v.frame_start.0 < v.lines.len() - 1;
    let l = v.heap[v.activeline].text.len() as u64;
    if v.pos.0 >= v.size.0 - BOTTOM_MARGIN && c1 {
        (fscrolldown(v).0, fscrolldown(v).1, true)
    } else if v.pos.0 < v.size.0 - BOTTOM_MARGIN && c1 {
        let a = v.heap[v.activeline].next;
        (
            seq![Op::HideCursor, Op::ShowCursor],
            EditorView { activeline: a, pos: ((v.pos.0 + 1) as u64, clamp_col(v, a)), ..v },
            true,
        )
    } else {
        (Seq::empty(), EditorView { pos: (v.pos.0, l), pref_x: l, ..v }, !v.suppress)
    }
}

/// Moving the cursor left; from the start of a line it goes to the end of
/// the line above.
pub open spec fn left(v: EditorView) -> (Seq<Op>, EditorView) {
    if v.pos.1 == 0 {
        let (o, w, ok) = up(EditorView { suppress: true, ..v });
        let w2 = if ok { EditorView { pos: (w.pos.0, w.heap[w.activeline].text.len() as u64), ..w } } else { w };
        (seq![Op::HideCursor] + o + seq![Op::ShowCursor], EditorView { pref_x: w2.pos.1, suppress: false, ..w2 })
    } else {
        (Seq::empty(), EditorView { pos: (v.pos.0, (v.pos.1 - 1) as u64), pref_x: (v.pos.1 - 1) as u64, ..v })
    }
}

/// Moving the cursor right; from the end of a line it goes to the start of
/// the line below.
pub open spec fn right(v: EditorView) -> (Seq<Op>, EditorView) {
    if v.pos.1 >= v.heap[v.activeline].text.len() {
        let (o, w, ok) = down(EditorView { suppress: true, ..v });
        let w2 = if ok { EditorView { pos: (w.pos.0, 0), ..w } } else { w };
        (seq![Op::HideCursor] + o + seq![Op::ShowCursor], EditorView { pref_x: w2.pos.1, suppress: false, ..w2 })
    } else {
        (Seq::empty(), EditorView { pos: (v.pos.0, (v.pos.1 + 1) as u64), pref_x: (v.pos.1 + 1) as u64, ..v })
    }
}

/// The message area showing `m` in brackets.
pub open spec fn with_msg(v: EditorView, m: Seq<char>) -> EditorView {
    EditorView { msg: "[ "@ + m + " ]"@, redisplay: v.redisplay | (BotText | BTMsg), ..v }
}

/// What the read-back shows of the line at `a`: its address and length,
/// its links, and its characters.
pub open spec fn readback_line(v: EditorView, a: u64) -> Seq<Op> {
    let l = v.heap[a];
    seq![
        Op::Print("READBACK ("@ + hex(a as nat) + ", "@ + decimal(l.text.len()) + ")\n"@),
        Op::Print("READBACK N/P ("@ + hex(l.prev as nat) + ", "@ + hex(l.next as nat) + ")\n"@),
        Op::Print(bytes_as_chars(l.text) + "\n"@),
    ]
}

/// The read-back of the first `k` lines.
pub open spec fn readback_lines(v: EditorView, k: nat) -> Seq<Op>
    decreases k,
{
    if k == 0 {
        Seq::empty()
    } else {
        readback_lines(v, (k - 1) as nat) + readback_line(v, v.lines[k - 1])
    }
}

/// The debugging read-back of the editor's content, shown outside raw mode.
pub open spec fn readback(v: EditorView) -> Seq<Op> {
    seq![
        Op::SaveRaw,
        Op::Print("TESTING\n"@),
        Op::Print("POS: "@ + pair_text(v.pos.0 as nat, v.pos.1 as nat) + "\n"@),
        Op::Print("ACTIVELINE: 0x"@ + hex(v.activeline as nat) + "\n"@),
    ] + readback_lines(v, v.lines.len()) + (if debug_switch(4) {
        seq![Op::Print("LOOP EXECUTED\n"@)]
    } else {
        Seq::empty()
    }) + seq![Op::RestoreRaw]
}

/// The bytes of the first `k` lines, each followed by CR LF.
pub open spec fn file_bytes(v: EditorView, k: nat) -> Seq<u8>
    decreases k,
{
    if k == 0 {
        Seq::empty()
    } else {
        file_bytes(v, (k - 1) as nat) + v.heap[v.lines[k - 1]].text + seq![13u8, 10u8]
    }
}

/// What saving writes: the lines separated by CR LF, the last one ending in CR.
pub open spec fn save_content(v: EditorView) -> Seq<u8> {
    let b = file_bytes(v, v.lines.len());
    if b.len() > 0 { b.drop_last() } else { b }
}

/// Whether saving is switched off: by the debugging switch, or after an error.
pub open spec fn save_skipped(v: EditorView) -> bool {
    debug_switch(7) || v.waserr
}

/// Saving, given the text `lm` that the clock gives for the time since the
/// last modification.
pub open spec fn save(v: EditorView, lm: Seq<char>) -> (Seq<Op>, EditorView) {
    if save_skipped(v) {
        (Seq::empty(), v)
    } else {
        (seq![Op::WriteFile(v.path, save_content(v))], EditorView { lastmod: lm, ..v })
    }
}

/// Ending the session: leave raw mode, save, forget the path, clear the
/// screen and say why the session ended.
pub open spec fn end(v: EditorView, lm: Seq<char>) -> (Seq<Op>, EditorView) {
    let (so, sv) = save(v, lm);
    (
        seq![Op::End, Op::Cleanup] + so + seq![Op::ClearScreen] + (if v.endreason.len() > 0 {
            seq![Op::Print("QUIT FOR REASON: "@ + v.endreason + "\n"@)]
        } else {
            Seq::empty()
        }),
        EditorView { path: Seq::empty(), ..sv },
    )
}

/// `v` with the redraw flags `x` added.
pub open spec fn flagged(v: EditorView, x: u64) -> EditorView {
    EditorView { redisplay: v.redisplay | x, ..v }
}

/// Redraws `v` and reports that the loop goes on.
pub open spec fn redraw(v: EditorView) -> (Seq<Op>, EditorView, bool) {
    (render(v).0, render(v).1, true)
}

/// A move (its commands and state), then a redraw of the cursor position.
pub open spec fn after_move(m: (Seq<Op>, EditorView, bool)) -> (Seq<Op>, EditorView, bool) {
    let w = flagged(m.1, BTCuP | BotText);
    (m.0 + render(w).0, render(w).1, true)
}

/// The same move for the result of a move that always succeeds.
pub open spec fn after_move2(m: (Seq<Op>, EditorView)) -> (Seq<Op>, EditorView, bool) {
    after_move((m.0, m.1, true))
}

/// Enter: the active line is split at the cursor column, the new line goes
/// right after it, the cursor moves down and the screen is redrawn.
pub open spec fn enter(v: EditorView) -> (Seq<Op>, EditorView, bool) {
    let v1 = split_active(v);
    let (o, w, ok) = down(v1);
    let w2 = flagged(w, BTCuP | BotText | EAAll);
    (o + render(w2).0, render(w2).1, true)
}

/// The active line split at the cursor column, with the new line linked in
/// right after it.
pub open spec fn split_active(v: EditorView) -> EditorView {
    let k = v.frame_start.0 + v.pos.0;
    let ac = (v.used + 1) as u64;
    let old_line = v.heap[v.activeline];
    let h1 = v.heap.insert(v.activeline, split_kept(old_line, v.pos.1)).insert(
        ac,
        LineView { addr: ac, ..split_off(old_line, v.pos.1) },
    );
    let lines = v.lines.insert(k + 1, ac);
    EditorView { lines, heap: relink(h1, lines), used: v.used + 1, ..v }
}

/// The escape prefix ending: the message is reset and redrawn alone, then
/// the earlier redraw flags come back.
pub open spec fn esc_reset(v: EditorView) -> (Seq<Op>, EditorView) {
    let w = with_msg(EditorView { redisplay: 0, ..v }, "_"@);
    (render(w).0, EditorView { redisplay: v.redisplay, ..render(w).1 })
}

/// The key code after the control or shift modifier is applied, with the
/// commands and state change that a pending escape prefix causes.
pub open spec fn apply_mods(v: EditorView, k: KeyEvent) -> (Seq<Op>, EditorView, KeyCode) {
    if k.control || v.escctrl {
        let (o, w) = if v.escctrl { esc_reset(v) } else { (Seq::<Op>::empty(), v) };
        (
            o,
            EditorView { escctrl: false, ..w },
            match k.code {
                KeyCode::Char(c) => KeyCode::Char(ctrl_char(c)),
                _ => k.code,
            },
        )
    } else if k.caps_lock != k.shift {
        (
            Seq::empty(),
            v,
            match k.code {
                KeyCode::Char(c) => KeyCode::Char(shift_char(c)),
                _ => k.code,
            },
        )
    } else {
        (Seq::empty(), v, k.code)
    }
}

/// What a character key does: control characters are commands (quit,
/// save, redraw, ...), anything else just redraws the cursor line.
pub open spec fn char_key(v: EditorView, c: char, lm: Seq<char>) -> (Seq<Op>, EditorView, bool) {
    if c == 17u8 as char {
        (Seq::empty(), EditorView { waserr: true, endreason: "FORCE QUIT"@, ..v }, false)
    } else if c == 24u8 as char {
        (Seq::empty(), EditorView { endreason: "CONTROL X"@, ..v }, false)
    } else if c == 19u8 as char {
        (save(v, lm).0, save(v, lm).1, true)
    } else if c == 21u8 as char {
        redraw(flagged(with_msg(v, "MODE SWITCH NOT IMPLEMENTED YET"@), BTAll))
    } else if c == 20u8 as char {
        if debug_switch(8) {
            let w = EditorView { redisplay: u64::MAX, ..v };
            (
                seq![Op::ClearScreen] + readback(v) + seq![Op::SaveRaw, Op::ReadKey, Op::RestoreRaw, Op::ClearScreen]
                    + render(w).0,
                render(w).1,
                true,
            )
        } else {
            (Seq::empty(), v, true)
        }
    } else if c == 18u8 as char {
        redraw(EditorView { redisplay: u64::MAX, ..v })
    } else if c == 6u8 as char {
        (seq![Op::Flush], v, true)
    } else if c == 4u8 as char {
        redraw(with_msg(v, "_"@))
    } else if c == 23u8 as char {
        redraw(EditorView { redisplay: BTAllE | BotText, bt_left_len: 0, ..v })
    } else if (low_byte_char(c) as u32) < 32 {
        redraw(with_msg(v, "INVALID CTRL SEQ"@))
    } else {
        redraw(flagged(v, BTCuP | BotText | EditArea | EACuL))
    }
}

/// What a key does once its modifiers are applied.
pub open spec fn dispatch(v: EditorView, code: KeyCode, lm: Seq<char>) -> (Seq<Op>, EditorView, bool) {
    match code {
        KeyCode::Esc => redraw(with_msg(EditorView { escctrl: true, ..v }, "ESC CTRL"@)),
        KeyCode::Char(c) => char_key(v, c, lm),
        KeyCode::Enter => enter(v),
        KeyCode::Up => after_move(up(v)),
        KeyCode::Down => after_move(down(v)),
        KeyCode::Left => after_move2(left(v)),
        KeyCode::Right => after_move2(right(v)),
        KeyCode::Other => (Seq::empty(), v, true),
    }
}

/// One input event: the commands, the state afterwards, and whether the
/// editor goes on reading input. Key releases and other events change nothing.
pub open spec fn step(v: EditorView, ev: Input, lm: Seq<char>) -> (Seq<Op>, EditorView, bool) {
    match ev {
        Input::KeyIn(k) => {
            if k.release {
                (Seq::empty(), v, true)
            } else {
                let (o1, v1, code) = apply_mods(v, k);
                let (o2, v2, cont) = dispatch(v1, code, lm);
                (o1 + o2, v2, cont)
            }
        },
        Input::Ignore => (Seq::empty(), v, true),
    }
}

/// The warning shown at startup while saving is switched off.
pub open spec fn save_warning() -> Seq<char> {
    "\u{1b}[38;2;200;200;0mWARNING:\u{1b}[0m DEBUG FLAG SEVEN IS SET, THIS WILL CAUSE ALL SAVE OPERATIONS TO FAIL SILENTLY\r\n"@
}

/// The startup notices that the debugging switches ask for: the read-back,
/// and the warning that saving is off, each followed by a wait for a key.
pub open spec fn startup(v: EditorView) -> Seq<Op> {
    (if debug_switch(5) { readback(v) + seq![Op::ReadKey] } else { Seq::empty() }) + (if debug_switch(7) {
        seq![Op::ClearScreen, Op::Print(save_warning()), Op::ReadKey]
    } else {
        Seq::empty()
    }) + (if debug_switch(63) { seq![Op::ClearLine, Op::ReadKey] } else { Seq::empty() })
}

/// Starting the session on a terminal of `term` rows and columns (a size set
/// earlier with `pretend_size` wins): a terminal below the minimum size ends
/// the session at once; otherwise raw mode starts and everything is drawn.
pub open spec fn start(v: EditorView, term: (u64, u64), lm: Seq<char>) -> (Seq<Op>, EditorView, bool) {
    let s0 = if v.size.0 != 0 { v.size.0 } else { term.0 };
    let s1 = if v.size.1 != 0 { v.size.1 } else { term.1 };
    if s0 < MINROWS || s1 < MINCOLS {
        let w = EditorView { waserr: true, endreason: "MINIMUM SIZE REQUIREMENTS NOT MET"@, ..v };
        (end(w, lm).0, end(w, lm).1, false)
    } else {
        let w = EditorView { size: (s0, s1), pref_x: 0, redisplay: u64::MAX, ..v };
        (
            seq![Op::Begin, Op::ClearScreen] + render(w).0 + (if debug_switch(6) {
                seq![Op::Cleanup]
            } else {
                Seq::empty()
            }) + seq![Op::Begin],
            render(w).1,
            true,
        )
    }
}

/// After the input loop: leave raw mode, then end the session.
pub open spec fn finish(v: EditorView, lm: Seq<char>) -> (Seq<Op>, EditorView) {
    (seq![Op::End, Op::Cleanup] + end(v, lm).0, end(v, lm).1)
}

/// What the sample session shows: the lines "l1" and "l2", the first split
/// after its first byte, the new line put first.
pub open spec fn arbtest_lines() -> Seq<Seq<char>> {
    seq!["1"@, "l"@, "l2"@]
}

/// Deleting the byte before the cursor: at the start of a line only a
/// message says that this is not possible yet.
pub open spec fn delete(v: EditorView) -> EditorView {
    if v.pos.1 == 0 {
        with_msg(v, "deleting whitespace isn't implemented yet!"@)
    } else {
        EditorView {
            heap: v.heap.insert(v.activeline, removed(v.heap[v.activeline], (v.pos.1 - 1) as u64)),
            pos: (v.pos.0, (v.pos.1 - 1) as u64),
            total_size: (v.total_size - 1) as u64,
            ..v
        }
    }
}

/// Clearing more bits keeps cleared bits clear.
proof fn lemma_still_clear(x: u64, y: u64, z: u64)
    ensures
        (x & !y) & y == 0,
        x & y == 0 ==> (x & !z) & y == 0,
{
    assert((x & !y) & y == 0) by (bit_vector);
    assert(x & y == 0 ==> (x & !z) & y == 0) by (bit_vector);
}

/// Law: a redraw clears the flags of the three areas (and draws whatever
/// was flagged); when nothing is flagged it sends nothing and changes nothing.
pub proof fn lemma_redraw_clears_area_flags(v: EditorView)
    ensures
        v.redisplay == 0 ==> render(v).0.len() == 0 && render(v).1 == v,
        v.redisplay != 0 ==> {
            &&& render(v).1.redisplay & TopText == 0
            &&& render(v).1.redisplay & EditArea == 0
            &&& render(v).1.redisplay & BotText == 0
        },
{
    reveal(top_area);
    reveal(edit_area);
    reveal(bottom_area);
    reveal(render_top);
    reveal(render_bottom);
    if v.redisplay != 0 {
        let r0 = v.redisplay;
        let r1 = r0 & !TopText;
        lemma_still_clear(r0, TopText, 0);
        lemma_still_clear(r1, TopText, TTSaved);
        let r2 = top_area(v).1.redisplay;
        assert(r2 == r1 || r2 == r1 & !TTSaved);
        assert(r2 & TopText == 0);
        let r3 = r2 & !EditArea;
        lemma_still_clear(r2, EditArea, 0);
        lemma_still_clear(r2, TopText, EditArea);
        assert(edit_area(top_area(v).1).1.redisplay == r3);
        let r4 = r3 & !BotText;
        lemma_still_clear(r3, BotText, 0);
        lemma_still_clear(r3, TopText, BotText);
        lemma_still_clear(r3, EditArea, BotText);
        let r5 = r4 & !BTCuP;
        lemma_still_clear(r4, TopText, BTCuP);
        lemma_still_clear(r4, EditArea, BTCuP);
        lemma_still_clear(r4, BotText, BTCuP);
        lemma_still_clear(r4, TopText, BTAllE);
        lemma_still_clear(r4, EditArea, BTAllE);
        lemma_still_clear(r4, BotText, BTAllE);
        lemma_still_clear(r5, TopText, BTAllE);
        lemma_still_clear(r5, EditArea, BTAllE);
        lemma_still_clear(r5, BotText, BTAllE);
    }
}

/// The characters of `s` from byte `i` on, when `i` is a character boundary.
fn suffix_from(s: &str, i: usize) -> (r: Option<String>)
    ensures
        r is Some <==> byte_suffix(s@, i as int) is Some,
        r matches Some(t) ==> byte_suffix(s@, i as int) == Some(t@),
{
    if s.is_char_boundary(i) {
        let (_a, b) = s.split_at(i);
        let t = b.to_owned();
        proof {
            vstd::utf8::encode_utf8_decode_utf8(b@);
        }
        Some(t)
    } else {
        None
    }
}

pub struct Controller {
    pub list: LineList,
    pub heap: LineHeap,
    pub meta: FileMeta,
    activeline: u64,
    endflag: bool,
    waserr: bool,
    endreason: String,
    attrs: Attrs,
    _lastcode: u64,
}

impl View for Controller {
    type V = EditorView;

    closed spec fn view(&self) -> EditorView {
        EditorView {
            lines: self.list@,
            heap: self.heap@,
            used: self.heap.used(),
            total_size: self.list.spec_total_size(),
            title: self.meta.title@,
            path: self.meta.path@,
            escctrl: self.meta.escctrl,
            activeline: self.activeline,
            endflag: self.endflag,
            waserr: self.waserr,
            endreason: self.endreason@,
            size: self.attrs.size,
            frame_start: self.attrs.frame_start,
            pos: self.attrs.pos,
            pref_x: self.attrs.pref_x,
            suppress: self.attrs.suppress_move_errs,
            msg: self.attrs.display.msg@,
            lastmod: self.attrs.display.lastmod@,
            redisplay: self.attrs.display.redisplay,
            tt_left_len: self.attrs.display.tt_left_len,
            bt_left_len: self.attrs.display.bt_left_len,
        }
    }
}

/// The lines are linked, there is at least one, and the active line is the
/// one at the cursor row.
pub open spec fn view_wf(v: EditorView) -> bool {
    &&& linked(v.lines, v.heap)
    &&& !v.heap.dom().contains(0)
    &&& v.lines.len() >= 1
    &&& v.frame_start.0 + v.pos.0 < v.lines.len()
    &&& v.activeline == v.lines[v.frame_start.0 + v.pos.0]
    &&& v.frame_start.1 == 0
}

/// A well-formed editor whose screen is large enough to draw on.
pub open spec fn view_ready(v: EditorView) -> bool {
    &&& view_wf(v)
    &&& v.size.0 >= MINROWS
    &&& v.size.1 >= MINCOLS
}

impl Controller {
    pub closed spec fn wf(&self) -> bool {
        &&& self.heap.wf()
        &&& self.list.wf(self.heap@)
        &&& view_wf(self@)
        &&& self.attrs.mov_restrict.up
        &&& self.attrs.mov_restrict.down
        &&& self.attrs.mov_restrict.left
        &&& self.attrs.mov_restrict.right
    }

    pub open spec fn ready(&self) -> bool {
        &&& self.wf()
        &&& view_ready(self@)
    }

    /// A well-formed editor meets what the laws of the editor ask of its
    /// view: linked lines, and stored lines that fit their capacity under the
    /// addresses handed out.
    pub proof fn lemma_view_valid(&self)
        requires
            self.wf(),
        ensures
            view_wf(self@),
            heap_valid(self@),
    {
        self.heap.lemma_bounded();
        assert forall|a: u64| #[trigger] self@.heap.dom().contains(a) implies {
            &&& self@.heap[a].wf()
            &&& self@.heap[a].addr == a
            &&& 1 <= a <= self@.used
        } by {
            self.heap.lemma_stored(a);
        }
    }

    /// Draws the lines of the edit area, from the first line on.
    fn render_edit(&self, out: &mut Vec<TermOp>)
        requires
            self.wf(),
            self@.size.0 >= BOTTOM_MARGIN,
        ensures
            ops_view(final(out)@) == ops_view(old(out)@) + edit_ops(self@, shown_count(self@)),
    {
        let ghost o = ops_view(out@);
        let ghost v = self@;
        let ghost s = self.list@;
        proof { self.list.lemma_wf(self.heap@); }
        let mut clineindex: u64 = 1;
        let clinemax: u64 = self.attrs.size.0 - BOTTOM_MARGIN + 1;
        let maxwidth: usize = self.attrs.size.1 as usize;
        let mut it: LineIter = self.list.into_iter();
        let ghost mut k: nat = 0;
        loop
            invariant_except_break
                self.wf(),
                v == self@,
                s == v.lines,
                clinemax == v.size.0 - BOTTOM_MARGIN + 1,
                maxwidth == v.size.1 as usize,
                k <= s.len(),
                k <= clinemax,
                clineindex == k + 1,
                k < s.len() ==> it@ == s[k as int],
                k == s.len() ==> it@ == 0,
                ops_view(out@) == o + edit_ops(v, k),
            ensures
                ops_view(out@) == o + edit_ops(v, shown_count(v)),
            decreases s.len() - k,
        {
            let laddr = match it.next(&self.heap) {
                Some(a) => a,
                None => {
                    assert(k == s.len());
                    assert(shown_count(v) == k);
                    break;
                },
            };
            if clineindex > clinemax {
                assert(shown_count(v) == k);
                break;
            }
            let fulstr = Line::to_string_a(&self.heap, laddr);
            if measure_text_width(fulstr.as_str()) > maxwidth {
                emit_print(out, "LINE TOO LONG".to_owned());
            } else {
                emit_print(out, fulstr);
            }
            emit(out, TermOp::ClearToNewline);
            emit_print(out, "\r\n".to_owned());
            clineindex = clineindex + 1;
            proof {
                assert(ops_view(out@) =~= o + edit_ops(v, k + 1));
                k = k + 1;
            }
        }
    }

    /// Draws the bottom rows.
    fn render_bottom(&mut self, out: &mut Vec<TermOp>)
        requires
            old(self).wf(),
            old(self)@.size.0 >= 2,
        ensures
            final(self).wf(),
            ops_view(final(out)@) == ops_view(old(out)@) + render_bottom(old(self)@).0,
            final(self)@ == render_bottom(old(self)@).1,
            final(self)@ == (EditorView {
                redisplay: final(self)@.redisplay,
                bt_left_len: final(self)@.bt_left_len,
                ..old(self)@
            }),
            final(self).heap == old(self).heap,
            final(self).list == old(self).list,
    {
        let ghost o = ops_view(out@);
        let ghost v = self@;
        proof { self.list.lemma_wf(self.heap@); }
        reveal(render_bottom);
        emit(out, TermOp::SetCurPos(self.attrs.size.0 - 2, 0));
        emit_print(out, pad_str_center(self.attrs.display.msg.as_str(), self.attrs.size.1 as usize));
        emit(out, TermOp::ClearToNewline);
        emit(out, TermOp::ResetCol);
        emit(out, TermOp::SetCurRow(self.attrs.size.0));
        proof { crate::statics::lemma_clear_unset(v.redisplay, BTCuP); }
        if crate::statics::cflag(&mut self.attrs.display.redisplay, BTCuP) {
            let lw = self.attrs.display.bt_left_len;
            let y = pair_string(
                self.attrs.pos.0 + self.attrs.frame_start.0,
                self.attrs.pos.1 + self.attrs.frame_start.1,
            );
            let ylen = y.as_str().as_bytes().len();
            emit_print(out, y);
            if lw > ylen {
                let mut sp = String::new();
                push_spaces(&mut sp, lw - ylen);
                emit_print(out, sp);
            }
            self.attrs.display.bt_left_len = ylen;
        }
        let ghost v1 = self@;
        proof { crate::statics::lemma_clear_unset(v1.redisplay, BTAllE); }
        if crate::statics::cflag(&mut self.attrs.display.redisplay, BTAllE) {
            emit(out, TermOp::SetCurPos(self.attrs.size.0, self.attrs.display.bt_left_len as u64));
            let padded = pad_str_center("^X to quit, ^S to save, ^Q to force quit", self.attrs.size.1 as usize);
            match suffix_from(padded.as_str(), self.attrs.display.bt_left_len) {
                Some(t) => emit_print(out, t),
                None => {},
            }
        }
        assert(ops_view(out@) =~= o + render_bottom(v).0);
        assert(self@ == render_bottom(v).1);
    }

    /// Appends the read-back of the first `k` lines (see [`readback`]).
    fn readback_upto(&self, out: &mut Vec<TermOp>)
        requires
            self.wf(),
        ensures
            ops_view(final(out)@) == ops_view(old(out)@) + readback_lines(self@, self@.lines.len()),
    {
        let ghost o = ops_view(out@);
        let ghost v = self@;
        let ghost s = self.list@;
        proof { self.list.lemma_wf(self.heap@); }
        let mut it: LineIter = self.list.into_iter();
        let ghost mut k: nat = 0;
        loop
            invariant_except_break
                self.wf(),
                v == self@,
                s == v.lines,
                k <= s.len(),
                k < s.len() ==> it@ == s[k as int],
                k == s.len() ==> it@ == 0,
                ops_view(out@) == o + readback_lines(v, k),
            ensures
                ops_view(out@) == o + readback_lines(v, s.len()),
            decreases s.len() - k,
        {
            let addr = match it.next(&self.heap) {
                Some(a) => a,
                None => {
                    break;
                },
            };
            let mut t1 = "READBACK (".to_owned();
            push_hex(&mut t1, addr);
            string_append(&mut t1, ", ");
            push_decimal(&mut t1, Line::len_a(&self.heap, addr));
            string_append(&mut t1, ")\n");
            emit_print(out, t1);
            let mut t2 = "READBACK N/P (".to_owned();
            push_hex(&mut t2, Line::get_prev_a(&self.heap, addr));
            string_append(&mut t2, ", ");
            push_hex(&mut t2, Line::get_next_a(&self.heap, addr));
            string_append(&mut t2, ")\n");
            emit_print(out, t2);
            let mut t3 = Line::to_string_a(&self.heap, addr);
            string_append(&mut t3, "\n");
            emit_print(out, t3);
            proof {
                assert(ops_view(out@) =~= o + readback_lines(v, k + 1));
                k = k + 1;
            }
        }
    }

    /// The debugging read-back (see [`readback`]).
    fn test_readback(&self, out: &mut Vec<TermOp>)
        requires
            self.wf(),
        ensures
            ops_view(final(out)@) == ops_view(old(out)@) + readback(self@),
    {
        let ghost o = ops_view(out@);
        let ghost v = self@;
        emit(out, TermOp::SaveRaw);
        emit_print(out, "TESTING\n".to_owned());
        let mut p = "POS: ".to_owned();
        string_append(&mut p, pair_string(self.attrs.pos.0, self.attrs.pos.1).as_str());
        string_append(&mut p, "\n");
        emit_print(out, p);
        let mut a = "ACTIVELINE: 0x".to_owned();
        push_hex(&mut a, self.activeline);
        string_append(&mut a, "\n");
        emit_print(out, a);
        let ghost o1 = ops_view(out@);
        self.readback_upto(out);
        if debugging(4) {
            emit_print(out, "LOOP EXECUTED\n".to_owned());
        }
        emit(out, TermOp::RestoreRaw);
        assert(ops_view(out@) =~= o + readback(v));
    }

    /// Clears the screen, shows the read-back and waits for a key.
    fn __dumpcontent(&self, out: &mut Vec<TermOp>)
        requires
            self.wf(),
        ensures
            ops_view(final(out)@) == ops_view(old(out)@) + seq![Op::ClearScreen] + readback(self@) + seq![
                Op::SaveRaw,
                Op::ReadKey,
                Op::RestoreRaw,
            ],
    {
        let ghost o = ops_view(out@);
        emit(out, TermOp::ClearScreen);
        self.test_readback(out);
        emit(out, TermOp::SaveRaw);
        emit(out, TermOp::ReadKey);
        emit(out, TermOp::RestoreRaw);
        assert(ops_view(out@) =~= o + seq![Op::ClearScreen] + readback(self@) + seq![
            Op::SaveRaw,
            Op::ReadKey,
            Op::RestoreRaw,
        ]);
    }

    /// The bytes that saving writes (see [`save_content`]).
    fn content_bytes(&self) -> (b: Vec<u8>)
        requires
            self.wf(),
        ensures
            b@ == save_content(self@),
    {
        let ghost v = self@;
        let ghost s = self.list@;
        proof { self.list.lemma_wf(self.heap@); }
        let mut sbuf: Vec<u8> = Vec::new();
        let mut it: LineIter = self.list.into_iter();
        let ghost mut k: nat = 0;
        loop
            invariant_except_break
                self.wf(),
                v == self@,
                s == v.lines,
                k <= s.len(),
                k < s.len() ==> it@ == s[k as int],
                k == s.len() ==> it@ == 0,
                sbuf@ == file_bytes(v, k),
            ensures
                sbuf@ == file_bytes(v, s.len()),
            decreases s.len() - k,
        {
            let laddr = match it.next(&self.heap) {
                Some(a) => a,
                None => {
                    break;
                },
            };
            let mut bytes = Line::iter_over(&self.heap, laddr).into_iter();
            let ghost start = sbuf@;
            loop
                invariant_except_break
                    bytes.data() == v.heap[laddr].text,
                    bytes.pos() <= bytes.data().len(),
                    sbuf@ == start + bytes.data().take(bytes.pos() as int),
                ensures
                    sbuf@ == start + v.heap[laddr].text,
                decreases bytes.data().len() - bytes.pos(),
            {
                match bytes.next() {
                    Some(b) => {
                        sbuf.push(b);
                        assert(sbuf@ =~= start + bytes.data().take(bytes.pos() as int));
                    },
                    None => {
                        assert(bytes.data().take(bytes.pos() as int) =~= bytes.data());
                        break;
                    },
                }
            }
            sbuf.push(13u8);
            sbuf.push(10u8);
            proof {
                assert(sbuf@ =~= file_bytes(v, k + 1));
                k = k + 1;
            }
        }
        sbuf.pop();
        assert(sbuf@ =~= save_content(v));
        sbuf
    }

    /// Saves the content (see [`save`]); with the debugging switch for fake
    /// saves on, nothing is written.
    fn save(&mut self, out: &mut Vec<TermOp>)
        requires
            old(self).wf(),
        ensures
            final(self).wf(),
            exists|secs: u64|
                {
                    &&& ops_view(final(out)@) == ops_view(old(out)@) + #[trigger] save(old(self)@, elapsed_text(secs as nat)).0
                    &&& final(self)@ == save(old(self)@, elapsed_text(secs as nat)).1
                },
            final(self).heap == old(self).heap,
            final(self).list == old(self).list,
    {
        let ghost o = ops_view(out@);
        let ghost v = self@;
        if debugging(7) {
            assert(ops_view(out@) =~= o + save(v, elapsed_text(0)).0);
            return;
        }
        if self.waserr {
            assert(ops_view(out@) =~= o + save(v, elapsed_text(0)).0);
            return;
        }
        self.attrs.display.lastmod = self.meta.fmt_last_modified();
        let ghost secs = choose|secs: u64| self.attrs.display.lastmod@ == elapsed_text(secs as nat);
        let content = self.content_bytes();
        emit(out, TermOp::WriteFile(self.meta.path.clone(), content));
        assert(ops_view(out@) =~= o + save(v, elapsed_text(secs as nat)).0);
    }

    /// Ends the session (see [`end`]).
    pub fn end(&mut self, out: &mut Vec<TermOp>)
        requires
            old(self).wf(),
        ensures
            final(self).wf(),
            exists|secs: u64|
                {
                    &&& ops_view(final(out)@) == ops_view(old(out)@) + #[trigger] end(old(self)@, elapsed_text(secs as nat)).0
                    &&& final(self)@ == end(old(self)@, elapsed_text(secs as nat)).1
                },
    {
        let ghost o = ops_view(out@);
        let ghost v = self@;
        emit(out, TermOp::End);
        emit(out, TermOp::Cleanup);
        let ghost o1 = ops_view(out@);
        self.save(out);
        let ghost secs = choose|secs: u64|
            {
                &&& ops_view(out@) == o1 + #[trigger] save(v, elapsed_text(secs as nat)).0
                &&& self@ == save(v, elapsed_text(secs as nat)).1
            };
        self.meta.path = String::new();
        emit(out, TermOp::ClearScreen);
        if !self.endreason.as_str().is_empty() {
            let mut m = "QUIT FOR REASON: ".to_owned();
            string_append(&mut m, self.endreason.as_str());
            string_append(&mut m, "\n");
            emit_print(out, m);
        }
        assert(ops_view(out@) =~= o + end(v, elapsed_text(secs as nat)).0);
        assert(self@ == end(v, elapsed_text(secs as nat)).1);
    }

    /// An editor for the file at `path`, titled `title`, whose content is
    /// `lines` and which was last modified at `last_modified`. The startup
    /// notices go to `out` (see [`startup`]).
    pub fn from_lines(
        title: String,
        path: String,
        lines: Vec<String>,
        last_modified: SystemTime,
        out: &mut Vec<TermOp>,
    ) -> (c: Controller)
        requires
            lines@.len() >= 1,
            byte_total(lines@) <= u64::MAX,
        ensures
            c.wf(),
            c@.lines.len() == lines@.len(),
            forall|i: int|
                0 <= i < lines@.len() ==> (#[trigger] c@.heap[c@.lines[i]]).text == encode_utf8(lines@[i]@),
            c@.heap.dom() == c@.lines.to_set(),
            c@.total_size == byte_total(lines@),
            c@.title == title@,
            c@.path == path@,
            !c@.escctrl,
            c@.activeline == c@.lines[0],
            c@.size == (0u64, 0u64),
            c@.frame_start == (0u64, 0u64),
            c@.pos == (0u64, 0u64),
            c@.pref_x == 0,
            !c@.suppress,
            c@.msg == "[ "@ + "_"@ + " ]"@,
            c@.redisplay == BotText | BTMsg,
            exists|secs: u64| c@.lastmod == elapsed_text(secs as nat),
            c@.tt_left_len == 0,
            c@.bt_left_len == 0,
            !c@.endflag,
            !c@.waserr,
            c@.endreason.len() == 0,
            ops_view(final(out)@) == ops_view(old(out)@) + startup(c@),
    {
        let ghost o = ops_view(out@);
        let _n = lines.len();
        let mut heap = LineHeap::new();
        let list = LineList::from_iter(&mut heap, lines);
        let meta = FileMeta { title, path, histpath: "".to_owned(), last_modified, escctrl: false };
        let mut x = Controller {
            list,
            heap,
            meta,
            activeline: 0,
            endflag: false,
            waserr: false,
            endreason: String::new(),
            attrs: Attrs {
                size: (0, 0),
                frame_start: (0, 0),
                pos: (0, 0),
                pref_x: 0,
                mov_restrict: _MoveRestrict::new(),
                suppress_move_errs: false,
                display: _Display::new(),
            },
            _lastcode: 0,
        };
        x.attrs.display.lastmod = x.meta.fmt_last_modified();
        proof {
            x.list.lemma_wf(x.heap@);
            x.heap.lemma_bounded();
            assert(x.heap@.dom() =~= x.list@.to_set());
        }
        x.activeline = x.list.index(&x.heap, 0);
        x._reset_msg();
        proof {
            let r: u64 = 0;
            assert(r | ((1u64 << 1u64) | (1u64 << 7u64)) == (1u64 << 1u64) | (1u64 << 7u64)) by (bit_vector)
                requires
                    r == 0,
            ;
        }
        if debugging(5) {
            x.test_readback(out);
            emit(out, TermOp::ReadKey);
        }
        if debugging(7) {
            emit(out, TermOp::ClearScreen);
            emit_print(
                out,
                "\u{1b}[38;2;200;200;0mWARNING:\u{1b}[0m DEBUG FLAG SEVEN IS SET, THIS WILL CAUSE ALL SAVE OPERATIONS TO FAIL SILENTLY\r\n".to_owned(),
            );
            emit(out, TermOp::ReadKey);
        }
        if debugging(63) {
            emit(out, TermOp::ClearLine);
            x.endflag = true;
            x.endreason = "FLAG 63".to_owned();
            x.waserr = true;
            emit(out, TermOp::ReadKey);
        }
        assert(ops_view(out@) =~= o + startup(x@));
        x
    }

    /// Makes the editor act as if the terminal had `rows` rows and `cols`
    /// columns (0 keeps the real one).
    pub fn pretend_size(&mut self, rows: u64, cols: u64)
        requires
            old(self).wf(),
        ensures
            final(self).wf(),
            final(self)@ == (EditorView { size: (rows, cols), ..old(self)@ }),
    {
        self.attrs.size = (rows, cols);
    }

    /// Starts the session (see [`start`]); gives whether the input loop runs.
    pub fn start(&mut self, term_size: (u64, u64), out: &mut Vec<TermOp>) -> (run: bool)
        requires
            old(self).wf(),
            !old(self)@.suppress,
        ensures
            final(self).wf(),
            !final(self)@.suppress,
            run ==> final(self).ready(),
            exists|secs: u64|
                {
                    &&& ops_view(final(out)@) == ops_view(old(out)@) + #[trigger] start(old(self)@, term_size, elapsed_text(secs as nat)).0
                    &&& final(self)@ == start(old(self)@, term_size, elapsed_text(secs as nat)).1
                    &&& run == start(old(self)@, term_size, elapsed_text(secs as nat)).2
                },
    {
        let ghost o = ops_view(out@);
        let ghost v = self@;
        let mut s: (u64, u64) = term_size;
        if self.attrs.size.0 != 0 {
            s.0 = self.attrs.size.0;
        }
        if self.attrs.size.1 != 0 {
            s.1 = self.attrs.size.1;
        }
        if s.0 < MINROWS || s.1 < MINCOLS {
            self.waserr = true;
            self.endreason = "MINIMUM SIZE REQUIREMENTS NOT MET".to_owned();
            let ghost w = self@;
            self.end(out);
            let ghost secs = choose|secs: u64|
                {
                    &&& ops_view(out@) == o + #[trigger] end(w, elapsed_text(secs as nat)).0
                    &&& self@ == end(w, elapsed_text(secs as nat)).1
                };
            assert(ops_view(out@) == o + start(v, term_size, elapsed_text(secs as nat)).0);
            return false;
        }
        self.attrs.size = s;
        self.attrs.pref_x = 0;
        emit(out, TermOp::Begin);
        emit(out, TermOp::ClearScreen);
        self.aflag();
        let ghost o1 = ops_view(out@);
        self.render_screen(out);
        let ghost o2 = ops_view(out@);
        if debugging(6) {
            emit(out, TermOp::Cleanup);
        }
        emit(out, TermOp::Begin);
        assert(ops_view(out@) =~= o + start(v, term_size, elapsed_text(0)).0);
        true
    }

    /// Ends the session once the input loop is over (see [`finish`]).
    pub fn finish(&mut self, out: &mut Vec<TermOp>)
        requires
            old(self).wf(),
        ensures
            final(self).wf(),
            exists|secs: u64|
                {
                    &&& ops_view(final(out)@) == ops_view(old(out)@) + #[trigger] finish(old(self)@, elapsed_text(secs as nat)).0
                    &&& final(self)@ == finish(old(self)@, elapsed_text(secs as nat)).1
                },
    {
        let ghost o = ops_view(out@);
        let ghost v = self@;
        emit(out, TermOp::End);
        emit(out, TermOp::Cleanup);
        let ghost o1 = ops_view(out@);
        self.end(out);
        let ghost secs = choose|secs: u64|
            {
                &&& ops_view(out@) == o1 + #[trigger] end(v, elapsed_text(secs as nat)).0
                &&& self@ == end(v, elapsed_text(secs as nat)).1
            };
        assert(ops_view(out@) =~= o + finish(v, elapsed_text(secs as nat)).0);
    }

    /// Whether another line can still be given an address (needed by Enter).
    pub fn has_room(&self) -> (b: bool)
        requires
            self.wf(),
        ensures
            b == (self@.used < u64::MAX),
    {
        self.heap.used_count() < u64::MAX
    }

    /// The lines that the sample session shows (see [`arbtest_lines`]).
    pub fn arbtest() -> (r: Vec<String>)
        ensures
            r@.len() == 3,
            forall|i: int| 0 <= i < 3 ==> (#[trigger] r@[i])@ == arbtest_lines()[i],
    {
        let mut heap = LineHeap::new();
        let mut v: Vec<String> = Vec::new();
        v.push("l1".to_owned());
        v.push("l2".to_owned());
        proof {
            reveal_strlit("l1");
            reveal_strlit("l2");
            reveal_strlit("1");
            reveal_strlit("l");
            assert(vstd::utf8::is_ascii_chars("l1"@));
            assert(vstd::utf8::is_ascii_chars("l2"@));
            vstd::utf8::is_ascii_chars_encode_utf8("l1"@);
            vstd::utf8::is_ascii_chars_encode_utf8("l2"@);
            assert(encode_utf8("l1"@) =~= seq![108u8, 49u8]);
            assert(encode_utf8("l2"@) =~= seq![108u8, 50u8]);
            reveal_with_fuel(byte_total, 3);
            assert(v@.drop_last().drop_last() =~= Seq::<String>::empty());
            assert(v@.drop_last().last() == v@[0]);
            assert(byte_total(v@) == 4);
        }
        let mut x = LineList::from_iter(&mut heap, v);
        proof {
            x.lemma_wf(heap@);
            heap.lemma_bounded();
        }
        let first = x.index(&heap, 0);
        let ghost h1 = heap@;
        let laddr = Line::split_a(&mut heap, first, 1);
        proof {
            assert forall|i: int| 0 <= i < x@.len() implies {
                &&& heap@.dom().contains(#[trigger] x@[i])
                &&& heap@[x@[i]].next == h1[x@[i]].next
                &&& heap@[x@[i]].prev == h1[x@[i]].prev
            } by {
                assert(h1.dom().contains(x@[i]));
            }
            x.lemma_wf_same_links(h1, heap@);
            assert(!x@.contains(laddr)) by {
                if x@.contains(laddr) {
                    let j = x@.index_of(laddr);
                    assert(h1.dom().contains(x@[j]));
                }
            }
        }
        let ghost h2 = heap@;
        x.insert(&mut heap, laddr, 0);
        let r = Controller::line_strings(&x, &heap);
        proof {
            assert(x@[0] == laddr);
            assert(heap@[x@[0]].text == h2[laddr].text);
            assert(h2[laddr].text =~= seq![49u8]);
            assert(heap@[x@[1]].text =~= seq![108u8]);
            assert(heap@[x@[2]].text == h1[x@[2]].text);
            assert(bytes_as_chars(seq![49u8]) =~= "1"@);
            assert(bytes_as_chars(seq![108u8]) =~= "l"@);
            assert(bytes_as_chars(seq![108u8, 50u8]) =~= "l2"@);
            assert(heap@[x@[2]].text =~= seq![108u8, 50u8]);
        }
        r
    }

    /// The characters of each line of `list`, in order.
    fn line_strings(list: &LineList, heap: &LineHeap) -> (r: Vec<String>)
        requires
            heap.wf(),
            list.wf(heap@),
        ensures
            r@.len() == list@.len(),
            forall|i: int| 0 <= i < list@.len() ==> (#[trigger] r@[i])@ == bytes_as_chars(heap@[list@[i]].text),
    {
        let ghost s = list@;
        proof {
            list.lemma_wf(heap@);
            heap.lemma_bounded();
        }
        let mut r: Vec<String> = Vec::new();
        let mut it: LineIter = list.into_iter();
        loop
            invariant_except_break
                heap.wf(),
                linked(s, heap@),
                !heap@.dom().contains(0),
                s == list@,
                r@.len() <= s.len(),
                r@.len() < s.len() ==> it@ == s[r@.len() as int],
                r@.len() == s.len() ==> it@ == 0,
                forall|i: int| 0 <= i < r@.len() ==> (#[trigger] r@[i])@ == bytes_as_chars(heap@[s[i]].text),
            ensures
                r@.len() == s.len(),
                forall|i: int| 0 <= i < r@.len() ==> (#[trigger] r@[i])@ == bytes_as_chars(heap@[s[i]].text),
            decreases s.len() - r@.len(),
        {
            match it.next(heap) {
                Some(l) => {
                    r.push(Line::to_string_a(heap, l));
                },
                None => {
                    break;
                },
            }
        }
        r
    }

    /// Handles one input event (see [`step`]); gives `false` once the
    /// editor should stop reading input.
    pub fn handle_event(&mut self, ev: Input, out: &mut Vec<TermOp>) -> (cont: bool)
        requires
            old(self).ready(),
            !old(self)@.suppress,
            old(self)@.used < u64::MAX,
        ensures
            final(self).ready(),
            !final(self)@.suppress,
            exists|secs: u64|
                {
                    &&& ops_view(final(out)@) == ops_view(old(out)@) + #[trigger] step(old(self)@, ev, elapsed_text(secs as nat)).0
                    &&& final(self)@ == step(old(self)@, ev, elapsed_text(secs as nat)).1
                    &&& cont == step(old(self)@, ev, elapsed_text(secs as nat)).2
                },
    {
        let ghost o = ops_view(out@);
        let ghost v = self@;
        match ev {
            Input::KeyIn(k) => {
                if k.release {
                    assert(ops_view(out@) =~= o + step(v, ev, elapsed_text(0)).0);
                    return true;
                }
                let code = self._apply_mods(k, out);
                let ghost o1 = ops_view(out@);
                let ghost v1 = self@;
                let cont = self._dispatch(code, out);
                let ghost secs = choose|secs: u64|
                    {
                        &&& ops_view(out@) == o1 + #[trigger] dispatch(v1, code, elapsed_text(secs as nat)).0
                        &&& self@ == dispatch(v1, code, elapsed_text(secs as nat)).1
                        &&& cont == dispatch(v1, code, elapsed_text(secs as nat)).2
                    };
                assert(ops_view(out@) =~= o + step(v, ev, elapsed_text(secs as nat)).0);
                cont
            },
            Input::Ignore => {
                assert(ops_view(out@) =~= o + step(v, ev, elapsed_text(0)).0);
                true
            },
        }
    }

    /// Applies the modifiers of a key (see [`apply_mods`]).
    fn _apply_mods(&mut self, k: KeyEvent, out: &mut Vec<TermOp>) -> (code: KeyCode)
        requires
            old(self).ready(),
            !old(self)@.suppress,
        ensures
            final(self).ready(),
            !final(self)@.suppress,
            ops_view(final(out)@) == ops_view(old(out)@) + apply_mods(old(self)@, k).0,
            final(self)@ == apply_mods(old(self)@, k).1,
            final(self)@.used == old(self)@.used,
            code == apply_mods(old(self)@, k).2,
    {
        let ghost o = ops_view(out@);
        let ghost v = self@;
        let mut code = k.code;
        if k.control || self.meta.escctrl {
            if self.meta.escctrl {
                let x = self.attrs.display.redisplay;
                self.attrs.display.redisplay = 0;
                self._reset_msg();
                self.render_screen(out);
                self.attrs.display.redisplay = x;
            }
            self.meta.escctrl = false;
            code = match apply_key_ctrl(code) {
                Ok(c) => c,
                Err(_) => code,
            };
        } else if k.caps_lock ^ k.shift {
            code = match apply_key_shift(code) {
                Ok(c) => c,
                Err(_) => code,
            };
        }
        assert(ops_view(out@) =~= o + apply_mods(v, k).0);
        code
    }

    /// What a key does once its modifiers are applied (see [`dispatch`]).
    fn _dispatch(&mut self, code: KeyCode, out: &mut Vec<TermOp>) -> (cont: bool)
        requires
            old(self).ready(),
            !old(self)@.suppress,
            old(self)@.used < u64::MAX,
        ensures
            final(self).ready(),
            !final(self)@.suppress,
            exists|secs: u64|
                {
                    &&& ops_view(final(out)@) == ops_view(old(out)@) + #[trigger] dispatch(old(self)@, code, elapsed_text(secs as nat)).0
                    &&& final(self)@ == dispatch(old(self)@, code, elapsed_text(secs as nat)).1
                    &&& cont == dispatch(old(self)@, code, elapsed_text(secs as nat)).2
                },
    {
        let ghost o = ops_view(out@);
        let ghost v = self@;
        match code {
            KeyCode::Esc => {
                self.meta.escctrl = true;
                self._msg("ESC CTRL");
                self.render_screen(out);
                assert(ops_view(out@) =~= o + dispatch(v, code, elapsed_text(0)).0);
                true
            },
            KeyCode::Char(c) => {
                let cont = self._char_key(c, out);
                let ghost secs = choose|secs: u64|
                    {
                        &&& ops_view(out@) == o + #[trigger] char_key(v, c, elapsed_text(secs as nat)).0
                        &&& self@ == char_key(v, c, elapsed_text(secs as nat)).1
                        &&& cont == char_key(v, c, elapsed_text(secs as nat)).2
                    };
                assert(ops_view(out@) == o + dispatch(v, code, elapsed_text(secs as nat)).0);
                cont
            },
            KeyCode::Enter => {
                let cont = self._enter(out);
                assert(ops_view(out@) == o + dispatch(v, code, elapsed_text(0)).0);
                cont
            },
            KeyCode::Up | KeyCode::Down | KeyCode::Left | KeyCode::Right => {
                self._arrow(code, out);
                assert(ops_view(out@) == o + dispatch(v, code, elapsed_text(0)).0);
                true
            },
            KeyCode::Other => {
                assert(ops_view(out@) =~= o + dispatch(v, code, elapsed_text(0)).0);
                true
            },
        }
    }

    /// An arrow key: the move, then a redraw of the cursor position.
    fn _arrow(&mut self, code: KeyCode, out: &mut Vec<TermOp>)
        requires
            old(self).ready(),
            !old(self)@.suppress,
            code == KeyCode::Up || code == KeyCode::Down || code == KeyCode::Left || code == KeyCode::Right,
        ensures
            final(self).ready(),
            !final(self)@.suppress,
            ops_view(final(out)@) == ops_view(old(out)@) + dispatch(old(self)@, code, Seq::empty()).0,
            final(self)@ == dispatch(old(self)@, code, Seq::empty()).1,
    {
        let ghost o = ops_view(out@);
        let ghost v = self@;
        match code {
            KeyCode::Up => {
                self._up(out);
            },
            KeyCode::Down => {
                self._down(out);
            },
            KeyCode::Left => {
                self._left(out);
            },
            _ => {
                self._right(out);
            },
        }
        let ghost o1 = ops_view(out@);
        self.sflag(BTCuP | BotText);
        self.render_screen(out);
        assert(ops_view(out@) =~= o + dispatch(v, code, Seq::empty()).0);
    }

    /// Enter (see [`enter`]).
    fn _enter(&mut self, out: &mut Vec<TermOp>) -> (cont: bool)
        requires
            old(self).ready(),
            old(self)@.used < u64::MAX,
        ensures
            final(self).ready(),
            final(self)@.suppress == old(self)@.suppress,
            ops_view(final(out)@) == ops_view(old(out)@) + enter(old(self)@).0,
            final(self)@ == enter(old(self)@).1,
            cont == enter(old(self)@).2,
    {
        let ghost o = ops_view(out@);
        let ghost v = self@;
        self.split_active();
        let ghost o1 = ops_view(out@);
        self._down(out);
        let ghost o2 = ops_view(out@);
        self.sflag(BTCuP | BotText | EAAll);
        self.render_screen(out);
        assert(ops_view(out@) =~= o + enter(v).0);
        true
    }

    /// Splits the active line at the cursor column (see [`split_active`]).
    fn split_active(&mut self)
        requires
            old(self).ready(),
            old(self)@.used < u64::MAX,
        ensures
            final(self).ready(),
            final(self)@ == split_active(old(self)@),
    {
        let ghost v = self@;
        proof {
            self.list.lemma_wf(self.heap@);
            self.heap.lemma_bounded();
        }
        let ghost h0 = self.heap@;
        let ac = Line::split_a(&mut self.heap, self.activeline, self.attrs.pos.1);
        proof {
            let s = self.list@;
            assert forall|i: int| 0 <= i < s.len() implies {
                &&& self.heap@.dom().contains(#[trigger] s[i])
                &&& self.heap@[s[i]].next == h0[s[i]].next
                &&& self.heap@[s[i]].prev == h0[s[i]].prev
            } by {
                assert(h0.dom().contains(s[i]));
            }
            self.list.lemma_wf_same_links(h0, self.heap@);
            assert(!s.contains(ac)) by {
                if s.contains(ac) {
                    let j = s.index_of(ac);
                    assert(h0.dom().contains(s[j]));
                }
            }
        }
        let idx = self.attrs.frame_start.0 + self.attrs.pos.0 + 1;
        self.list.insert(&mut self.heap, ac, idx);
        proof {
            self.list.lemma_wf(self.heap@);
            self.heap.lemma_bounded();
            assert(self.list@[idx - 1] == v.activeline);
        }
    }

    /// A character key (see [`char_key`]).
    fn _char_key(&mut self, c: char, out: &mut Vec<TermOp>) -> (cont: bool)
        requires
            old(self).ready(),
        ensures
            final(self).ready(),
            final(self)@.suppress == old(self)@.suppress,
            exists|secs: u64|
                {
                    &&& ops_view(final(out)@) == ops_view(old(out)@) + #[trigger] char_key(old(self)@, c, elapsed_text(secs as nat)).0
                    &&& final(self)@ == char_key(old(self)@, c, elapsed_text(secs as nat)).1
                    &&& cont == char_key(old(self)@, c, elapsed_text(secs as nat)).2
                },
    {
        let ghost o = ops_view(out@);
        let ghost v = self@;
        if c == 17u8 as char {
            self.waserr = true;
            self.endreason = "FORCE QUIT".to_owned();
            assert(ops_view(out@) =~= o + char_key(v, c, elapsed_text(0)).0);
            return false;
        }
        if c == 24u8 as char {
            self.endreason = "CONTROL X".to_owned();
            assert(ops_view(out@) =~= o + char_key(v, c, elapsed_text(0)).0);
            return false;
        }
        if c == 19u8 as char {
            self.save(out);
            let ghost secs = choose|secs: u64|
                {
                    &&& ops_view(out@) == o + #[trigger] save(v, elapsed_text(secs as nat)).0
                    &&& self@ == save(v, elapsed_text(secs as nat)).1
                };
            assert(ops_view(out@) == o + char_key(v, c, elapsed_text(secs as nat)).0);
            return true;
        }
        if c == 21u8 as char {
            self._msg("MODE SWITCH NOT IMPLEMENTED YET");
            self.sflag(BTAll);
            self.render_screen(out);
            assert(ops_view(out@) =~= o + char_key(v, c, elapsed_text(0)).0);
            return true;
        }
        if c == 20u8 as char {
            if debugging(8) {
                self.__dumpcontent(out);
                emit(out, TermOp::ClearScreen);
                self.aflag();
                self.render_screen(out);
            }
            assert(ops_view(out@) =~= o + char_key(v, c, elapsed_text(0)).0);
            return true;
        }
        if c == 18u8 as char {
            self.aflag();
            self.render_screen(out);
            assert(ops_view(out@) =~= o + char_key(v, c, elapsed_text(0)).0);
            return true;
        }
        if c == 6u8 as char {
            emit(out, TermOp::Flush);
            assert(ops_view(out@) =~= o + char_key(v, c, elapsed_text(0)).0);
            return true;
        }
        if c == 4u8 as char {
            self._reset_msg();
            self.render_screen(out);
            assert(ops_view(out@) =~= o + char_key(v, c, elapsed_text(0)).0);
            return true;
        }
        if c == 23u8 as char {
            self.cflag(!0u64);
            proof {
                let r = v.redisplay;
                assert(r & !(!0u64) == 0) by (bit_vector);
                assert((0u64 | (BTAllE | BotText)) == (BTAllE | BotText)) by (bit_vector);
            }
            self.sflag(BTAllE | BotText);
            self.attrs.display.bt_left_len = 0;
            self.render_screen(out);
            assert(ops_view(out@) =~= o + char_key(v, c, elapsed_text(0)).0);
            return true;
        }
        if (((c as u32) % 256) as u8) < 32u8 {
            self._msg("INVALID CTRL SEQ");
            self.render_screen(out);
            assert(ops_view(out@) =~= o + char_key(v, c, elapsed_text(0)).0);
            return true;
        }
        self.sflag(BTCuP | BotText | EditArea | EACuL);
        self.render_screen(out);
        assert(ops_view(out@) =~= o + char_key(v, c, elapsed_text(0)).0);
        true
    }

    /// Deletes the byte before the cursor (see [`delete`]).
    fn _delete(&mut self)
        requires
            old(self).wf(),
            old(self)@.pos.1 > 0 ==> old(self)@.total_size > 0,
        ensures
            final(self).wf(),
            final(self)@ == delete(old(self)@),
    {
        if self.attrs.pos.1 == 0 {
            self._msg("deleting whitespace isn't implemented yet!");
            return;
        }
        let ghost h0 = self.heap@;
        proof { self.list.lemma_wf(h0); }
        Line::remove_char_a(&mut self.heap, self.activeline, self.attrs.pos.1 - 1);
        proof {
            let s = self.list@;
            assert forall|i: int| 0 <= i < s.len() implies {
                &&& self.heap@.dom().contains(#[trigger] s[i])
                &&& self.heap@[s[i]].next == h0[s[i]].next
                &&& self.heap@[s[i]].prev == h0[s[i]].prev
            } by {
                assert(h0.dom().contains(s[i]));
            }
            self.list.lemma_wf_same_links(h0, self.heap@);
        }
        self.attrs.pos.1 = self.attrs.pos.1 - 1;
        let t = self.list.total_size();
        self.list.set_total_size(t - 1);
    }

    /// Shows `msg` in brackets in the message area.
    fn _msg(&mut self, msg: &str)
        requires
            old(self).wf(),
        ensures
            final(self).wf(),
            final(self)@ == with_msg(old(self)@, msg@),
            final(self).heap == old(self).heap,
            final(self).list == old(self).list,
    {
        let mut m = "[ ".to_owned();
        string_append(&mut m, msg);
        string_append(&mut m, " ]");
        self.attrs.display.msg = m;
        self.sflag(BotText | BTMsg);
    }

    /// Clears the message area (shows `_`).
    fn _reset_msg(&mut self)
        requires
            old(self).wf(),
        ensures
            final(self).wf(),
            final(self)@ == with_msg(old(self)@, "_"@),
            final(self).heap == old(self).heap,
            final(self).list == old(self).list,
    {
        self._msg("_")
    }

    fn gflag(&self, x: u64) -> (b: bool)
        ensures
            b == (self@.redisplay & x != 0),
    {
        crate::statics::gflag(self.attrs.display.redisplay, x)
    }

    fn sflag(&mut self, x: u64)
        requires
            old(self).wf(),
        ensures
            final(self).wf(),
            final(self)@ == (EditorView { redisplay: old(self)@.redisplay | x, ..old(self)@ }),
            final(self).heap == old(self).heap,
            final(self).list == old(self).list,
    {
        crate::statics::sflag(&mut self.attrs.display.redisplay, x);
    }

    fn cflag(&mut self, x: u64) -> (b: bool)
        requires
            old(self).wf(),
        ensures
            final(self).wf(),
            b == (old(self)@.redisplay & x != 0),
            final(self)@ == (EditorView { redisplay: old(self)@.redisplay & !x, ..old(self)@ }),
            final(self).heap == old(self).heap,
            final(self).list == old(self).list,
    {
        crate::statics::cflag(&mut self.attrs.display.redisplay, x)
    }

    fn aflag(&mut self)
        requires
            old(self).wf(),
        ensures
            final(self).wf(),
            final(self)@ == (EditorView { redisplay: u64::MAX, ..old(self)@ }),
            final(self).heap == old(self).heap,
            final(self).list == old(self).list,
    {
        crate::statics::aflag(&mut self.attrs.display.redisplay);
    }

    fn _fscrollup(&mut self, out: &mut Vec<TermOp>)
        requires
            old(self).ready(),
            old(self)@.pos.0 == 0,
            old(self)@.frame_start.0 > 0,
        ensures
            final(self)@.suppress == old(self)@.suppress,
            final(self).ready(),
            ops_view(final(out)@) == ops_view(old(out)@) + fscrollup(old(self)@).0,
            final(self)@ == fscrollup(old(self)@).1,
            final(self).heap == old(self).heap,
            final(self).list == old(self).list,
    {
        let ghost o = ops_view(out@);
        let ghost v = self@;
        proof { self.list.lemma_wf(self.heap@); }
        self.attrs.frame_start.0 = self.attrs.frame_start.0 - 1;
        crate::statics::cflag(&mut self.attrs.display.redisplay, EAAll);
        crate::statics::sflag(&mut self.attrs.display.redisplay, BTAll | TTAll);
        emit(out, TermOp::ScrollDown);
        emit(out, TermOp::ClearToNewline);
        self.activeline = Line::get_prev_a(&self.heap, self.activeline);
        let l = Line::len_a(&self.heap, self.activeline);
        self.attrs.pos.1 = self.attrs.pref_x;
        if self.attrs.pos.1 > l {
            self.attrs.pos.1 = l;
        }
        emit(out, TermOp::SetCurPos(self.attrs.size.0 - BOTTOM_MARGIN + 2, 0));
        emit(out, TermOp::ClearLine);
        emit(out, TermOp::SetCurRow(1));
        emit_print(out, Line::to_string_a(&self.heap, self.activeline));
        let ghost o2 = ops_view(out@);
        self.render_screen(out);
        assert(ops_view(out@) =~= o + fscrollup(v).0);
    }

    fn _fscrolldown(&mut self, out: &mut Vec<TermOp>)
        requires
            old(self).ready(),
            old(self)@.pos.0 + old(self)@.frame_start.0 < old(self)@.lines.len() - 1,
        ensures
            final(self)@.suppress == old(self)@.suppress,
            final(self).ready(),
            ops_view(final(out)@) == ops_view(old(out)@) + fscrolldown(old(self)@).0,
            final(self)@ == fscrolldown(old(self)@).1,
            final(self).heap == old(self).heap,
            final(self).list == old(self).list,
    {
        let ghost o = ops_view(out@);
        let ghost v = self@;
        proof { self.list.lemma_wf(self.heap@); }
        self.attrs.frame_start.0 = self.attrs.frame_start.0 + 1;
        crate::statics::cflag(&mut self.attrs.display.redisplay, EAAll);
        crate::statics::sflag(&mut self.attrs.display.redisplay, BTAll | TTAll);
        emit(out, TermOp::ScrollUp);
        self.activeline = Line::get_next_a(&self.heap, self.activeline);
        let l = Line::len_a(&self.heap, self.activeline);
        self.attrs.pos.1 = self.attrs.pref_x;
        if self.attrs.pos.1 > l {
            self.attrs.pos.1 = l;
        }
        let mut text = String::new();
        crate::strings::string_push(&mut text, '\r');
        string_append(&mut text, Line::to_string_a(&self.heap, self.activeline).as_str());
        emit_print(out, text);
        emit(out, TermOp::ClearToEnd);
        let ghost o2 = ops_view(out@);
        self.render_screen(out);
        assert(ops_view(out@) =~= o + fscrolldown(v).0);
    }

    /// Moves the cursor up (see [`up`]).
    fn _up(&mut self, out: &mut Vec<TermOp>) -> (ok: bool)
        requires
            old(self).ready(),
        ensures
            final(self)@.suppress == old(self)@.suppress,
            final(self).ready(),
            ops_view(final(out)@) == ops_view(old(out)@) + up(old(self)@).0,
            final(self)@ == up(old(self)@).1,
            ok == up(old(self)@).2,
            final(self).heap == old(self).heap,
            final(self).list == old(self).list,
    {
        let ghost o = ops_view(out@);
        let ghost v = self@;
        proof { self.list.lemma_wf(self.heap@); }
        if self.attrs.pos.0 == 0 && self.attrs.frame_start.0 > 0 {
            self._fscrollup(out);
            return true;
        }
        if self.attrs.pos.0 != 0 || self.attrs.pos.1 > 0 {
            let mut b = true;
            emit(out, TermOp::HideCursor);
            if self.attrs.pos.0 == 0 {
                self.attrs.pos.1 = 0;
                self.attrs.pref_x = 0;
            } else if self.attrs.mov_restrict.up || self.attrs.pos.0 > self.attrs.mov_restrict.up_max {
                self.activeline = Line::get_prev_a(&self.heap, self.activeline);
                let l2 = Line::len_a(&self.heap, self.activeline);
                self.attrs.pos.1 = self.attrs.pref_x;
                if self.attrs.pos.1 > l2 {
                    self.attrs.pos.1 = l2;
                }
                self.attrs.pos.0 = self.attrs.pos.0 - 1;
            } else {
                b = false;
            }
            emit(out, TermOp::ShowCursor);
            if b {
                assert(ops_view(out@) =~= o + up(v).0);
                return true;
            }
        }
        self.attrs.pref_x = 0;
        assert(ops_view(out@) =~= o + up(v).0);
        if !self.attrs.suppress_move_errs {
            return true;
        }
        false
    }

    /// Moves the cursor down (see [`down`]).
    fn _down(&mut self, out: &mut Vec<TermOp>) -> (ok: bool)
        requires
            old(self).ready(),
        ensures
            final(self)@.suppress == old(self)@.suppress,
            final(self).ready(),
            ops_view(final(out)@) == ops_view(old(out)@) + down(old(self)@).0,
            final(self)@ == down(old(self)@).1,
            ok == down(old(self)@).2,
            final(self).heap == old(self).heap,
            final(self).list == old(self).list,
    {
        let ghost o = ops_view(out@);
        let ghost v = self@;
        proof { self.list.lemma_wf(self.heap@); }
        let c1 = self.attrs.pos.0 + self.attrs.frame_start.0 < self.list.size() - 1;
        if self.attrs.pos.0 >= (self.attrs.size.0 - BOTTOM_MARGIN) && c1 {
            self._fscrolldown(out);
            return true;
        }
        let l = Line::len_a(&self.heap, self.activeline);
        if self.attrs.pos.0 < (self.attrs.size.0 - BOTTOM_MARGIN) && c1 {
            let mut b = true;
            emit(out, TermOp::HideCursor);
            if !c1 {
                self.attrs.pos.1 = l;
                self.attrs.pref_x = self.attrs.pos.1;
            } else if self.attrs.mov_restrict.down || self.attrs.pos.0 < self.attrs.mov_restrict.down_max {
                self.activeline = Line::get_next_a(&self.heap, self.activeline);
                let l2 = Line::len_a(&self.heap, self.activeline);
                self.attrs.pos.1 = self.attrs.pref_x;
                if self.attrs.pos.1 > l2 {
                    self.attrs.pos.1 = l2;
                }
                self.attrs.pos.0 = self.attrs.pos.0 + 1;
            } else {
                b = false;
            }
            emit(out, TermOp::ShowCursor);
            if b {
                assert(ops_view(out@) =~= o + down(v).0);
                return true;
            }
        }
        self.attrs.pos.1 = l;
        self.attrs.pref_x = l;
        assert(ops_view(out@) =~= o + down(v).0);
        if !self.attrs.suppress_move_errs {
            return true;
        }
        false
    }

    /// Moves the cursor left (see [`left`]).
    fn _left(&mut self, out: &mut Vec<TermOp>)
        requires
            old(self).ready(),
        ensures
            !old(self)@.suppress ==> !final(self)@.suppress,
            final(self).ready(),
            ops_view(final(out)@) == ops_view(old(out)@) + left(old(self)@).0,
            final(self)@ == left(old(self)@).1,
            final(self).heap == old(self).heap,
            final(self).list == old(self).list,
    {
        let ghost o = ops_view(out@);
        let ghost v = self@;
        if self.attrs.pos.1 == 0 {
            self.attrs.suppress_move_errs = true;
            emit(out, TermOp::HideCursor);
            if self._up(out) {
                self.attrs.pos.1 = Line::len_a(&self.heap, self.activeline);
            }
            emit(out, TermOp::ShowCursor);
            self.attrs.pref_x = self.attrs.pos.1;
            self.attrs.suppress_move_errs = false;
            assert(ops_view(out@) =~= o + left(v).0);
            return;
        }
        if self.attrs.mov_restrict.left || self.attrs.pos.1 > self.attrs.mov_restrict.left_max {
            self.attrs.pos.1 = self.attrs.pos.1 - 1;
            self.attrs.pref_x = self.attrs.pos.1;
        }
        assert(ops_view(out@) =~= o + left(v).0);
    }

    /// Moves the cursor right (see [`right`]).
    fn _right(&mut self, out: &mut Vec<TermOp>)
        requires
            old(self).ready(),
        ensures
            !old(self)@.suppress ==> !final(self)@.suppress,
            final(self).ready(),
            ops_view(final(out)@) == ops_view(old(out)@) + right(old(self)@).0,
            final(self)@ == right(old(self)@).1,
            final(self).heap == old(self).heap,
            final(self).list == old(self).list,
    {
        let ghost o = ops_view(out@);
        let ghost v = self@;
        if self.attrs.pos.1 >= Line::len_a(&self.heap, self.activeline) {
            self.attrs.suppress_move_errs = true;
            emit(out, TermOp::HideCursor);
            if self._down(out) {
                self.attrs.pos.1 = 0;
            }
            emit(out, TermOp::ShowCursor);
            self.attrs.pref_x = self.attrs.pos.1;
            self.attrs.suppress_move_errs = false;
            assert(ops_view(out@) =~= o + right(v).0);
            return;
        }
        if self.attrs.mov_restrict.right || self.attrs.pos.1 < self.attrs.mov_restrict.right_max || true {
            self.attrs.pos.1 = self.attrs.pos.1 + 1;
            self.attrs.pref_x = self.attrs.pos.1;
        }
        assert(ops_view(out@) =~= o + right(v).0);
    }

    /// Redraws the areas whose flags are set (see [`render`]).
    fn render_screen(&mut self, out: &mut Vec<TermOp>)
        requires
            old(self).wf(),
            old(self)@.size.0 >= BOTTOM_MARGIN,
        ensures
            final(self).wf(),
            ops_view(final(out)@) == ops_view(old(out)@) + render(old(self)@).0,
            final(self)@ == render(old(self)@).1,
            final(self)@ == (EditorView {
                redisplay: final(self)@.redisplay,
                tt_left_len: final(self)@.tt_left_len,
                bt_left_len: final(self)@.bt_left_len,
                ..old(self)@
            }),
            final(self).heap == old(self).heap,
            final(self).list == old(self).list,
    {
        let ghost o = ops_view(out@);
        let ghost v = self@;
        proof { self.list.lemma_wf(self.heap@); }
        if self.attrs.display.redisplay == 0 {
            assert(ops_view(out@) =~= o + render(v).0);
            return;
        }
        emit(out, TermOp::HideCursor);
        emit(out, TermOp::Queue);
        emit(out, TermOp::TopLeft);
        let ghost o1 = ops_view(out@);
        self.render_top_area(out);
        let ghost o2 = ops_view(out@);
        self.render_edit_area(out);
        let ghost o3 = ops_view(out@);
        self.render_bottom_area(out);
        let ghost o4 = ops_view(out@);
        emit(out, TermOp::SetCurPos(self.attrs.pos.0 + 1, self.attrs.pos.1));
        emit(out, TermOp::Flush);
        emit(out, TermOp::ShowCursor);
        assert(ops_view(out@) =~= o + render(v).0);
    }

    fn render_top_area(&mut self, out: &mut Vec<TermOp>)
        requires
            old(self).wf(),
        ensures
            final(self).wf(),
            ops_view(final(out)@) == ops_view(old(out)@) + top_area(old(self)@).0,
            final(self)@ == top_area(old(self)@).1,
            final(self)@ == (EditorView {
                redisplay: final(self)@.redisplay,
                tt_left_len: final(self)@.tt_left_len,
                ..old(self)@
            }),
            final(self).heap == old(self).heap,
            final(self).list == old(self).list,
    {
        let ghost o = ops_view(out@);
        let ghost v = self@;
        reveal(top_area);
        proof { crate::statics::lemma_clear_unset(v.redisplay, TopText); }
        if crate::statics::cflag(&mut self.attrs.display.redisplay, TopText) {
            self.render_top(out);
        } else {
            emit(out, TermOp::Down);
        }
        assert(ops_view(out@) =~= o + top_area(v).0);
    }

    fn render_edit_area(&mut self, out: &mut Vec<TermOp>)
        requires
            old(self).wf(),
            old(self)@.size.0 >= BOTTOM_MARGIN,
        ensures
            final(self).wf(),
            ops_view(final(out)@) == ops_view(old(out)@) + edit_area(old(self)@).0,
            final(self)@ == edit_area(old(self)@).1,
            final(self)@ == (EditorView { redisplay: final(self)@.redisplay, ..old(self)@ }),
            final(self).heap == old(self).heap,
            final(self).list == old(self).list,
    {
        let ghost o = ops_view(out@);
        let ghost v = self@;
        reveal(edit_area);
        proof { crate::statics::lemma_clear_unset(v.redisplay, EditArea); }
        if crate::statics::cflag(&mut self.attrs.display.redisplay, EditArea) {
            self.render_edit(out);
        }
        assert(ops_view(out@) =~= o + edit_area(v).0);
    }

    fn render_bottom_area(&mut self, out: &mut Vec<TermOp>)
        requires
            old(self).wf(),
            old(self)@.size.0 >= BOTTOM_MARGIN,
        ensures
            final(self).wf(),
            ops_view(final(out)@) == ops_view(old(out)@) + bottom_area(old(self)@).0,
            final(self)@ == bottom_area(old(self)@).1,
            final(self)@ == (EditorView {
                redisplay: final(self)@.redisplay,
                bt_left_len: final(self)@.bt_left_len,
                ..old(self)@
            }),
            final(self).heap == old(self).heap,
            final(self).list == old(self).list,
    {
        let ghost o = ops_view(out@);
        let ghost v = self@;
        reveal(bottom_area);
        proof { crate::statics::lemma_clear_unset(v.redisplay, BotText); }
        if crate::statics::cflag(&mut self.attrs.display.redisplay, BotText) {
            self.render_bottom(out);
        }
        assert(ops_view(out@) =~= o + bottom_area(v).0);
    }

    /// Draws the top row.
    fn render_top(&mut self, out: &mut Vec<TermOp>)
        requires
            old(self).wf(),
        ensures
            final(self).wf(),
            ops_view(final(out)@) == ops_view(old(out)@) + render_top(old(self)@).0,
            final(self)@ == render_top(old(self)@).1,
            final(self)@ == (EditorView {
                redisplay: final(self)@.redisplay,
                tt_left_len: final(self)@.tt_left_len,
                ..old(self)@
            }),
            final(self).heap == old(self).heap,
            final(self).list == old(self).list,
    {
        let ghost o = ops_view(out@);
        let ghost v = self@;
        proof { crate::statics::lemma_clear_unset(v.redisplay, TTSaved); }
        reveal(render_top);
        if crate::statics::cflag(&mut self.attrs.display.redisplay, TTSaved) {
            let lw = self.attrs.display.tt_left_len;
            if lw > 0 {
                let mut sp = String::new();
                push_spaces(&mut sp, lw);
                emit_print(out, sp);
                emit(out, TermOp::TopLeft);
            }
            let mut x = pair_string(self.attrs.size.0, self.attrs.size.1);
            string_append(&mut x, " ");
            if debugging(7) {
                string_append(&mut x, "\u{1b}[38;2;220;0;0mSAVE DISABLED");
            } else {
                string_append(&mut x, "\u{1b}[38;2;0;200;0mSAVE ENABLED");
            }
            string_append(&mut x, "\u{1b}[0m");
            assert(x@ == status_text(v.size));
            self.attrs.display.tt_left_len = measure_text_width(x.as_str());
            emit_print(out, x);
        }
        let mut t = self.meta.title.clone();
        string_append(&mut t, "    ");
        string_append(&mut t, self.attrs.display.lastmod.as_str());
        let padded = pad_str_center(t.as_str(), self.attrs.size.1 as usize);
        match suffix_from(padded.as_str(), self.attrs.display.tt_left_len) {
            Some(s) => emit_print(out, s),
            None => {},
        }
        emit_print(out, "\u{1b}[D\u{1b}[38;2;150;150;150m|\u{1b}[0m\r\n".to_owned());
        assert(ops_view(out@) =~= o + render_top(v).0);
        assert(self@ == render_top(v).1);
    }
}

} // verus!
