//! Keys as the editor sees them, and the control / shift mappings on them.

use vstd::prelude::*;

verus! {

#[verifier::external_type_specification]
#[verifier::external_body]
pub struct ExIoError(std::io::Error);

/// The keys that the editor tells apart.
#[derive(Clone, Copy, Debug, PartialEq, Eq, Structural)]
pub enum KeyCode {
    Char(char),
    Enter,
    Esc,
    Up,
    Down,
    Left,
    Right,
    /// any other key
    Other,
}

/// A key press or release with the modifiers that were held.
#[derive(Clone, Copy, Debug, PartialEq, Eq, Structural)]
pub struct KeyEvent {
    pub code: KeyCode,
    /// whether this is the release of a key
    pub release: bool,
    pub control: bool,
    pub shift: bool,
    pub caps_lock: bool,
}

/// An input event: a key, or something the editor ignores.
#[derive(Clone, Copy, Debug, PartialEq, Eq, Structural)]
pub enum Input {
    KeyIn(KeyEvent),
    Ignore,
}

pub open spec fn is_ascii_upper(c: char) -> bool {
    'A' <= c <= 'Z'
}

pub open spec fn is_ascii_lower(c: char) -> bool {
    'a' <= c <= 'z'
}

/// `char::to_ascii_lowercase`.
pub open spec fn ascii_lower(c: char) -> char {
    if is_ascii_upper(c) { ((c as u32) + 32) as char } else { c }
}

/// `char::to_ascii_uppercase`.
pub open spec fn ascii_upper(c: char) -> char {
    if is_ascii_lower(c) { ((c as u32) - 32) as char } else { c }
}

/// The low byte of a character, read back as a character.
pub open spec fn low_byte_char(c: char) -> char {
    (((c as u32) % 256) as u8) as char
}

/// The character that control together with `c` gives.
pub open spec fn ctrl_char(c: char) -> char {
    let l = ascii_lower(c);
    if l == '@' {
        0u8 as char
    } else if is_ascii_lower(l) {
        ((l as u32) - 96) as u8 as char
    } else if l == '[' {
        27u8 as char
    } else if l == '\\' {
        28u8 as char
    } else if l == ']' {
        29u8 as char
    } else if l == '^' {
        30u8 as char
    } else if l == '_' {
        31u8 as char
    } else {
        low_byte_char(c)
    }
}

/// The character that shift together with `c` gives (US layout).
pub open spec fn shift_char(c: char) -> char {
    match c {
        '0' => ')',
        '1' => '!',
        '2' => '@',
        '3' => '#',
        '4' => '$',
        '5' => '%',
        '6' => '^',
        '7' => '&',
        '8' => '*',
        '9' => '(',
        '`' => '~',
        '-' => '_',
        '=' => '+',
        ',' => '<',
        '.' => '>',
        '/' => '?',
        '\'' => '"',
        ';' => ':',
        '[' => '{',
        ']' => '}',
        '\\' => '|',
        _ => ascii_upper(c),
    }
}

/// The character that `c` is the shifted form of (US layout).
pub open spec fn unshift_char(c: char) -> char {
    match c {
        ')' => '0',
        '!' => '1',
        '@' => '2',
        '#' => '3',
        '$' => '4',
        '%' => '5',
        '^' => '6',
        '&' => '7',
        '*' => '8',
        '(' => '9',
        '~' => '`',
        '_' => '-',
        '+' => '=',
        '<' => ',',
        '>' => '.',
        '?' => '/',
        '"' => '\'',
        ':' => ';',
        '{' => '[',
        '}' => ']',
        '|' => '\\',
        _ => ascii_lower(c),
    }
}

/// The characters that shift changes other than letters.
pub open spec fn is_unshifted_symbol(c: char) -> bool {
    shift_char(c) != ascii_upper(c)
}

/// The characters that unshift changes other than letters.
pub open spec fn is_shifted_symbol(c: char) -> bool {
    unshift_char(c) != ascii_lower(c)
}

fn lower(c: char) -> (r: char)
    ensures
        r == ascii_lower(c),
{
    if c >= 'A' && c <= 'Z' {
        ((c as u8) + 32) as char
    } else {
        c
    }
}

fn upper(c: char) -> (r: char)
    ensures
        r == ascii_upper(c),
{
    if c >= 'a' && c <= 'z' {
        ((c as u8) - 32) as char
    } else {
        c
    }
}

/// Applies the control modifier to a character key; other keys stay as they are.
pub fn apply_key_ctrl(k: KeyCode) -> (r: Result<KeyCode, std::io::Error>)
    ensures
        r matches Ok(rk) && rk == (match k {
            KeyCode::Char(c) => KeyCode::Char(ctrl_char(c)),
            _ => k,
        }),
{
    match k {
        KeyCode::Char(c) => {
            let l = lower(c);
            let b: u8 = if l == '@' {
                0u8
            } else if l >= 'a' && l <= 'z' {
                (l as u8) - 96
            } else if l == '[' {
                27
            } else if l == '\\' {
                28
            } else if l == ']' {
                29
            } else if l == '^' {
                30
            } else if l == '_' {
                31
            } else {
                ((c as u32) % 256) as u8
            };
            Ok(KeyCode::Char(b as char))
        },
        _ => Ok(k),
    }
}

/// Applies the shift modifier to a character key; other keys stay as they are.
pub fn apply_key_shift(k: KeyCode) -> (r: Result<KeyCode, std::io::Error>)
    ensures
        r matches Ok(rk) && rk == (match k {
            KeyCode::Char(c) => KeyCode::Char(shift_char(c)),
            _ => k,
        }),
{
    match k {
        KeyCode::Char(c) => {
            Ok(
                KeyCode::Char(
                    match c {
                        '0' => ')',
                        '1' => '!',
                        '2' => '@',
                        '3' => '#',
                        '4' => '$',
                        '5' => '%',
                        '6' => '^',
                        '7' => '&',
                        '8' => '*',
                        '9' => '(',
                        '`' => '~',
                        '-' => '_',
                        '=' => '+',
                        ',' => '<',
                        '.' => '>',
                        '/' => '?',
                        '\'' => '"',
                        ';' => ':',
                        '[' => '{',
                        ']' => '}',
                        '\\' => '|',
                        _ => upper(c),
                    },
                ),
            )
        },
        _ => Ok(k),
    }
}

/// Undoes the shift modifier on a character key; other keys stay as they are.
pub fn apply_key_unshift(k: KeyCode) -> (r: Result<KeyCode, std::io::Error>)
    ensures
        r matches Ok(rk) && rk == (match k {
            KeyCode::Char(c) => KeyCode::Char(unshift_char(c)),
            _ => k,
        }),
{
    match k {
        KeyCode::Char(c) => {
            Ok(
                KeyCode::Char(
                    match c {
                        ')' => '0',
                        '!' => '1',
                        '@' => '2',
                        '#' => '3',
                        '$' => '4',
                        '%' => '5',
                        '^' => '6',
                        '&' => '7',
                        '*' => '8',
                        '(' => '9',
                        '~' => '`',
                        '_' => '-',
                        '+' => '=',
                        '<' => ',',
                        '>' => '.',
                        '?' => '/',
                        '"' => '\'',
                        ':' => ';',
                        '{' => '[',
                        '}' => ']',
                        '|' => '\\',
                        _ => lower(c),
                    },
                ),
            )
        },
        _ => Ok(k),
    }
}

/// Law: unshifting undoes shifting, for every character that is neither an
/// upper-case letter nor one of the shifted symbols; and shifting undoes
/// unshifting for every character that is neither a lower-case letter nor
/// one of the unshifted symbols.
pub proof fn lemma_shift_roundtrip(c: char)
    ensures
        !is_ascii_upper(c) && !is_shifted_symbol(c) ==> unshift_char(shift_char(c)) == c,
        !is_ascii_lower(c) && !is_unshifted_symbol(c) ==> shift_char(unshift_char(c)) == c,
{
}

} // verus!
