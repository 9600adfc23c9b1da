//! Small operations on `String` that the standard library offers and vstd does not specify.

use vstd::prelude::*;

verus! {

/// `String::push`: the string afterwards is the old one followed by `c`.
#[verifier::external_body]
pub(crate) fn string_push(s: &mut String, c: char)
    ensures
        final(s)@ == old(s)@.push(c),
{
    s.push(c);
}

/// The character of a digit below 16 (lower-case letters past 9).
pub open spec fn digit_char(d: nat) -> char {
    if d < 10 { ((48 + d) as u8) as char } else { ((87 + d) as u8) as char }
}

/// The decimal digits of `n`, most significant first.
pub open spec fn decimal(n: nat) -> Seq<char>
    decreases n,
{
    if n < 10 { seq![digit_char(n)] } else { decimal(n / 10).push(digit_char(n % 10)) }
}

/// The lower-case hexadecimal digits of `n`, most significant first.
pub open spec fn hex(n: nat) -> Seq<char>
    decreases n,
{
    if n < 16 { seq![digit_char(n)] } else { hex(n / 16).push(digit_char(n % 16)) }
}

/// `n` copies of the space character.
pub open spec fn spaces(n: nat) -> Seq<char> {
    Seq::new(n, |i: int| ' ')
}

/// How the pair `(a, b)` is written by `{:?}`.
pub open spec fn pair_text(a: nat, b: nat) -> Seq<char> {
    seq!['('] + decimal(a) + seq![',', ' '] + decimal(b) + seq![')']
}

fn digit(d: u64) -> (c: char)
    requires
        d < 16,
    ensures
        c == digit_char(d as nat),
{
    let d8: u8 = d as u8;
    if d8 < 10 {
        (48u8 + d8) as char
    } else {
        (87u8 + d8) as char
    }
}

/// Appends the decimal digits of `n` to `s`.
pub fn push_decimal(s: &mut String, n: u64)
    ensures
        final(s)@ == old(s)@ + decimal(n as nat),
    decreases n,
{
    if n >= 10 {
        push_decimal(s, n / 10);
    }
    string_push(s, digit(n % 10));
    proof {
        if n >= 10 {
            assert(decimal(n as nat) == decimal((n / 10) as nat).push(digit_char((n % 10) as nat)));
        }
    }
    assert(final(s)@ =~= old(s)@ + decimal(n as nat)) by {
        if n < 10 {
            assert(decimal(n as nat) == seq![digit_char(n as nat)]);
        }
    }
}

/// Appends the lower-case hexadecimal digits of `n` to `s`.
pub fn push_hex(s: &mut String, n: u64)
    ensures
        final(s)@ == old(s)@ + hex(n as nat),
    decreases n,
{
    if n >= 16 {
        push_hex(s, n / 16);
    }
    string_push(s, digit(n % 16));
    assert(final(s)@ =~= old(s)@ + hex(n as nat)) by {
        if n < 16 {
            assert(hex(n as nat) == seq![digit_char(n as nat)]);
        }
    }
}

/// The decimal digits of `n`.
pub fn decimal_string(n: u64) -> (s: String)
    ensures
        s@ == decimal(n as nat),
{
    let mut s = String::new();
    push_decimal(&mut s, n);
    assert(s@ =~= decimal(n as nat));
    s
}

/// Appends `n` spaces to `s`.
pub fn push_spaces(s: &mut String, n: usize)
    ensures
        final(s)@ == old(s)@ + spaces(n as nat),
{
    let mut i: usize = 0;
    while i < n
        invariant
            i <= n,
            s@ == old(s)@ + spaces(i as nat),
        decreases n - i,
    {
        string_push(s, ' ');
        i = i + 1;
        assert(s@ =~= old(s)@ + spaces(i as nat));
    }
}

/// `{:?}` of the pair `(a, b)`.
pub fn pair_string(a: u64, b: u64) -> (s: String)
    ensures
        s@ == pair_text(a as nat, b as nat),
{
    let mut s = String::new();
    string_push(&mut s, '(');
    push_decimal(&mut s, a);
    string_push(&mut s, ',');
    string_push(&mut s, ' ');
    push_decimal(&mut s, b);
    string_push(&mut s, ')');
    assert(s@ =~= pair_text(a as nat, b as nat));
    s
}

/// Appends the characters of `t` to `s`.
pub fn string_append(s: &mut String, t: &str)
    ensures
        final(s)@ == old(s)@ + t@,
{
    s.append(t);
}

} // verus!
