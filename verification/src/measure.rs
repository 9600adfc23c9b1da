//! Display width and centring of text, as the `console` crate computes them.

use vstd::prelude::*;
use crate::strings::spaces;

verus! {

/// The display width that `console::measure_text_width` reports for `s`
/// (ANSI escape sequences take no room).
pub uninterp spec fn text_width(s: Seq<char>) -> nat;

/// `s` centred in `width` columns: the missing columns are split into
/// spaces before (the smaller half) and after; text already that wide stays.
pub open spec fn centered(s: Seq<char>, width: nat) -> Seq<char> {
    if text_width(s) >= width {
        s
    } else {
        let d = (width - text_width(s)) as nat;
        spaces(d / 2) + s + spaces((d - d / 2) as nat)
    }
}

/// `console::measure_text_width`: the display width of `s`.
#[verifier::external_body]
pub(crate) fn measure_text_width(s: &str) -> (w: usize)
    ensures
        w == text_width(s@),
{
    console::measure_text_width(s)
}

/// `console::pad_str` with centre alignment and no truncation: `s` with
/// spaces around it to fill `width` columns, as [`centered`] says.
#[verifier::external_body]
pub(crate) fn pad_str_center(s: &str, width: usize) -> (r: String)
    ensures
        r@ == centered(s@, width as nat),
{
    console::pad_str(s, width, console::Alignment::Center, None).into_owned()
}

} // verus!
