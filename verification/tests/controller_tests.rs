use linedit::controller::Controller;
use linedit::keys::{Input, KeyCode, KeyEvent};
use linedit::termop::TermOp;

fn p(s: &str) -> TermOp {
    TermOp::Print(s.to_owned())
}

fn key(code: KeyCode) -> Input {
    Input::KeyIn(KeyEvent { code, release: false, control: false, shift: false, caps_lock: false })
}

fn ctrl_key(c: char) -> Input {
    Input::KeyIn(KeyEvent { code: KeyCode::Char(c), release: false, control: true, shift: false, caps_lock: false })
}

fn editor(lines: &[&str]) -> (Controller, Vec<TermOp>) {
    let mut out = Vec::new();
    let c = Controller::from_lines(
        "t".to_owned(),
        "p".to_owned(),
        lines.iter().map(|s| s.to_string()).collect(),
        std::time::SystemTime::now(),
        &mut out,
    );
    (c, out)
}

fn started(lines: &[&str]) -> Controller {
    let (mut c, _) = editor(lines);
    let mut out = Vec::new();
    assert!(c.start((24, 80), &mut out));
    c
}

fn centred(s: &str, width: usize) -> String {
    let d = width - s.len();
    format!("{}{}{}", " ".repeat(d / 2), s, " ".repeat(d - d / 2))
}

const WARNING: &str = "\x1b[38;2;200;200;0mWARNING:\x1b[0m DEBUG FLAG SEVEN IS SET, THIS WILL CAUSE ALL SAVE OPERATIONS TO FAIL SILENTLY\r\n";

#[test]
fn startup_reads_back_and_warns() {
    let (_, out) = editor(&["hello", "world"]);
    assert_eq!(
        out,
        vec![
            TermOp::SaveRaw,
            p("TESTING\n"),
            p("POS: (0, 0)\n"),
            p("ACTIVELINE: 0x1\n"),
            p("READBACK (1, 5)\n"),
            p("READBACK N/P (0, 2)\n"),
            p("hello\n"),
            p("READBACK (2, 5)\n"),
            p("READBACK N/P (1, 0)\n"),
            p("world\n"),
            TermOp::RestoreRaw,
            TermOp::ReadKey,
            TermOp::ClearScreen,
            p(WARNING),
            TermOp::ReadKey,
        ]
    );
}

#[test]
fn too_small_terminal_ends_at_once() {
    let (mut c, _) = editor(&["x"]);
    let mut out = Vec::new();
    assert!(!c.start((5, 20), &mut out));
    assert_eq!(
        out,
        vec![
            TermOp::End,
            TermOp::Cleanup,
            TermOp::ClearScreen,
            p("QUIT FOR REASON: MINIMUM SIZE REQUIREMENTS NOT MET\n"),
        ]
    );
}

#[test]
fn pretend_size_wins_over_the_terminal() {
    let (mut c, _) = editor(&["x"]);
    c.pretend_size(5, 0);
    let mut out = Vec::new();
    assert!(!c.start((40, 100), &mut out));
}

#[test]
fn start_draws_everything() {
    let (mut c, _) = editor(&["hello", "world"]);
    let mut out = Vec::new();
    assert!(c.start((24, 80), &mut out));
    assert_eq!(&out[..6], &[
        TermOp::Begin,
        TermOp::ClearScreen,
        TermOp::HideCursor,
        TermOp::Queue,
        TermOp::TopLeft,
        p("(24, 80) \x1b[38;2;220;0;0mSAVE DISABLED\x1b[0m"),
    ]);
    assert!(out.contains(&p("hello")));
    assert!(out.contains(&p("world")));
    assert!(out.contains(&p(&centred("[ _ ]", 80))));
    assert!(out.contains(&p("(0, 0)")));
    assert_eq!(out[out.len() - 4..], [TermOp::SetCurPos(1, 0), TermOp::Flush, TermOp::ShowCursor, TermOp::Begin]);
}

#[test]
fn down_moves_the_cursor_and_redraws_its_position() {
    let mut c = started(&["hello", "world"]);
    let mut out = Vec::new();
    assert!(c.handle_event(key(KeyCode::Down), &mut out));
    assert_eq!(
        out,
        vec![
            TermOp::HideCursor,
            TermOp::ShowCursor,
            TermOp::HideCursor,
            TermOp::Queue,
            TermOp::TopLeft,
            TermOp::Down,
            TermOp::SetCurPos(22, 0),
            p(&centred("[ _ ]", 80)),
            TermOp::ClearToNewline,
            TermOp::ResetCol,
            TermOp::SetCurRow(24),
            p("(1, 0)"),
            TermOp::SetCurPos(2, 0),
            TermOp::Flush,
            TermOp::ShowCursor,
        ]
    );
}

#[test]
fn right_at_end_of_line_goes_to_next_line() {
    let mut c = started(&["ab", "cd"]);
    let mut out = Vec::new();
    c.handle_event(key(KeyCode::Right), &mut out);
    c.handle_event(key(KeyCode::Right), &mut out);
    out.clear();
    c.handle_event(key(KeyCode::Right), &mut out);
    assert!(out.contains(&p("(1, 0)")));
    out.clear();
    c.handle_event(key(KeyCode::Left), &mut out);
    assert!(out.contains(&p("(0, 2)")));
}

#[test]
fn up_at_top_goes_to_start_of_line() {
    let mut c = started(&["abc"]);
    let mut out = Vec::new();
    c.handle_event(key(KeyCode::Right), &mut out);
    out.clear();
    c.handle_event(key(KeyCode::Up), &mut out);
    assert!(out.contains(&p("(0, 0)")));
    out.clear();
    c.handle_event(key(KeyCode::Down), &mut out);
    assert!(out.contains(&p("(0, 3)")));
}

#[test]
fn enter_splits_the_line_and_moves_down() {
    let mut c = started(&["hello", "world"]);
    let mut out = Vec::new();
    assert!(c.handle_event(key(KeyCode::Enter), &mut out));
    assert!(out.contains(&p("(1, 0)")));
    out.clear();
    c.handle_event(ctrl_key('t'), &mut out);
    let reads: Vec<&TermOp> = out
        .iter()
        .filter(|o| matches!(o, TermOp::Print(s) if s.ends_with('\n') && !s.ends_with("\r\n") && !s.starts_with("READBACK") && !s.contains(':') && s != "TESTING\n"))
        .collect();
    assert_eq!(reads, vec![&p("\n"), &p("hello\n"), &p("world\n")]);
}

#[test]
fn enter_in_the_middle_splits_without_repeating_bytes() {
    let mut c = started(&["abcde"]);
    let mut out = Vec::new();
    c.handle_event(key(KeyCode::Right), &mut out);
    c.handle_event(key(KeyCode::Right), &mut out);
    assert!(c.handle_event(key(KeyCode::Enter), &mut out));
    out.clear();
    c.handle_event(ctrl_key('t'), &mut out);
    let reads: Vec<&TermOp> = out
        .iter()
        .filter(|o| matches!(o, TermOp::Print(s) if s.ends_with('\n') && !s.ends_with("\r\n") && !s.starts_with("READBACK") && !s.contains(':') && s != "TESTING\n"))
        .collect();
    assert_eq!(reads, vec![&p("ab\n"), &p("cde\n")]);
}

#[test]
fn control_q_forces_quit_and_control_x_quits() {
    let mut c = started(&["a"]);
    let mut out = Vec::new();
    assert!(!c.handle_event(ctrl_key('q'), &mut out));
    assert!(out.is_empty());
    c.finish(&mut out);
    assert_eq!(
        out,
        vec![
            TermOp::End,
            TermOp::Cleanup,
            TermOp::End,
            TermOp::Cleanup,
            TermOp::ClearScreen,
            p("QUIT FOR REASON: FORCE QUIT\n"),
        ]
    );
    let mut c2 = started(&["a"]);
    let mut out2 = Vec::new();
    assert!(!c2.handle_event(ctrl_key('x'), &mut out2));
    c2.finish(&mut out2);
    assert_eq!(out2.last(), Some(&p("QUIT FOR REASON: CONTROL X\n")));
}

#[test]
fn escape_makes_the_next_key_a_control_key() {
    let mut c = started(&["a"]);
    let mut out = Vec::new();
    assert!(c.handle_event(key(KeyCode::Esc), &mut out));
    assert!(out.contains(&p(&centred("[ ESC CTRL ]", 80))));
    out.clear();
    assert!(!c.handle_event(key(KeyCode::Char('q')), &mut out));
    assert!(out.contains(&p(&centred("[ _ ]", 80))));
}

#[test]
fn releases_and_other_events_change_nothing() {
    let mut c = started(&["a"]);
    let mut out = Vec::new();
    let release = Input::KeyIn(KeyEvent { code: KeyCode::Down, release: true, control: false, shift: false, caps_lock: false });
    assert!(c.handle_event(release, &mut out));
    assert!(c.handle_event(Input::Ignore, &mut out));
    assert!(c.handle_event(key(KeyCode::Other), &mut out));
    assert!(out.is_empty());
}

#[test]
fn control_keys_with_messages() {
    let mut c = started(&["a"]);
    let mut out = Vec::new();
    c.handle_event(ctrl_key('u'), &mut out);
    assert!(out.contains(&p(&centred("[ MODE SWITCH NOT IMPLEMENTED YET ]", 80))));
    out.clear();
    c.handle_event(ctrl_key('g'), &mut out);
    assert!(out.contains(&p(&centred("[ INVALID CTRL SEQ ]", 80))));
    out.clear();
    c.handle_event(ctrl_key('f'), &mut out);
    assert_eq!(out, vec![TermOp::Flush]);
    out.clear();
    c.handle_event(ctrl_key('s'), &mut out);
    assert!(out.is_empty());
}

#[test]
fn typing_only_redraws() {
    let mut c = started(&["abc"]);
    let mut out = Vec::new();
    let shifted = Input::KeyIn(KeyEvent { code: KeyCode::Char('z'), release: false, control: false, shift: true, caps_lock: false });
    assert!(c.handle_event(shifted, &mut out));
    assert!(out.contains(&p("abc")));
    assert!(out.contains(&p("(0, 0)")));
}

#[test]
fn sample_session_lines() {
    assert_eq!(Controller::arbtest(), vec!["1".to_owned(), "l".to_owned(), "l2".to_owned()]);
}

#[test]
fn room_for_new_lines() {
    let (c, _) = editor(&["a", "b"]);
    assert!(c.has_room());
}

#[test]
fn wide_lines_and_centred_messages() {
    let long = "x".repeat(81);
    let mut c = started(&[&long, "\x1b[0mab"]);
    let mut out = Vec::new();
    c.handle_event(ctrl_key('r'), &mut out);
    assert!(out.contains(&p("LINE TOO LONG")));
    assert!(out.contains(&p("\x1b[0mab")));
    assert!(out.contains(&p(&centred("[ _ ]", 80))));
    let bottom = "^X to quit, ^S to save, ^Q to force quit";
    let suffix = centred(bottom, 80)[6..].to_owned();
    assert!(out.contains(&p(&suffix)));
}

#[test]
fn active_line_follows_the_cursor() {
    let mut c = started(&["a", "b", "c"]);
    let mut out = Vec::new();
    c.handle_event(key(KeyCode::Down), &mut out);
    c.handle_event(key(KeyCode::Down), &mut out);
    c.handle_event(key(KeyCode::Up), &mut out);
    out.clear();
    c.handle_event(ctrl_key('t'), &mut out);
    assert!(out.contains(&p("ACTIVELINE: 0x2\n")));
    assert!(out.contains(&p("POS: (1, 0)\n")));
}

#[test]
fn redraw_all_then_nothing_left_for_the_areas() {
    let mut c = started(&["a"]);
    let mut out = Vec::new();
    c.handle_event(ctrl_key('r'), &mut out);
    out.clear();
    c.handle_event(key(KeyCode::Left), &mut out);
    assert!(out.contains(&TermOp::Down));
    assert!(!out.contains(&p("a")));
}
