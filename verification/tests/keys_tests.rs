use linedit::keys::{apply_key_ctrl, apply_key_shift, apply_key_unshift, KeyCode};

fn ctrl(c: char) -> KeyCode {
    apply_key_ctrl(KeyCode::Char(c)).unwrap()
}

fn shift(c: char) -> KeyCode {
    apply_key_shift(KeyCode::Char(c)).unwrap()
}

fn unshift(c: char) -> KeyCode {
    apply_key_unshift(KeyCode::Char(c)).unwrap()
}

#[test]
fn control_letters_give_control_codes() {
    assert_eq!(ctrl('q'), KeyCode::Char(17 as char));
    assert_eq!(ctrl('Q'), KeyCode::Char(17 as char));
    assert_eq!(ctrl('x'), KeyCode::Char(24 as char));
    assert_eq!(ctrl('a'), KeyCode::Char(1 as char));
    assert_eq!(ctrl('z'), KeyCode::Char(26 as char));
}

#[test]
fn control_symbols() {
    assert_eq!(ctrl('@'), KeyCode::Char(0 as char));
    assert_eq!(ctrl('['), KeyCode::Char(27 as char));
    assert_eq!(ctrl('\\'), KeyCode::Char(28 as char));
    assert_eq!(ctrl(']'), KeyCode::Char(29 as char));
    assert_eq!(ctrl('^'), KeyCode::Char(30 as char));
    assert_eq!(ctrl('_'), KeyCode::Char(31 as char));
}

#[test]
fn control_other_characters_keep_their_low_byte() {
    assert_eq!(ctrl('1'), KeyCode::Char('1'));
    assert_eq!(ctrl('\u{141}'), KeyCode::Char('A'));
}

#[test]
fn modifiers_leave_other_keys_alone() {
    assert_eq!(apply_key_ctrl(KeyCode::Enter).unwrap(), KeyCode::Enter);
    assert_eq!(apply_key_shift(KeyCode::Up).unwrap(), KeyCode::Up);
    assert_eq!(apply_key_unshift(KeyCode::Other).unwrap(), KeyCode::Other);
}

#[test]
fn shift_maps_digits_symbols_and_letters() {
    assert_eq!(shift('1'), KeyCode::Char('!'));
    assert_eq!(shift('0'), KeyCode::Char(')'));
    assert_eq!(shift('/'), KeyCode::Char('?'));
    assert_eq!(shift('\''), KeyCode::Char('"'));
    assert_eq!(shift('a'), KeyCode::Char('A'));
    assert_eq!(shift('A'), KeyCode::Char('A'));
    assert_eq!(shift(' '), KeyCode::Char(' '));
}

#[test]
fn unshift_undoes_shift() {
    for c in "abcxyz0123456789`-=,./';[]\\ ".chars() {
        match shift(c) {
            KeyCode::Char(s) => assert_eq!(unshift(s), KeyCode::Char(c)),
            _ => panic!("not a character"),
        }
    }
    assert_eq!(unshift('A'), KeyCode::Char('a'));
    assert_eq!(unshift('|'), KeyCode::Char('\\'));
}
