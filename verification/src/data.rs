//! File metadata and the display state of the editor.

use vstd::prelude::*;
use std::time::{Duration, SystemTime, SystemTimeError};
use crate::strings::{decimal, push_decimal, string_push};

verus! {

#[verifier::external_type_specification]
#[verifier::external_body]
pub struct ExSystemTime(std::time::SystemTime);

#[verifier::external_type_specification]
#[verifier::external_body]
pub struct ExSystemTimeError(std::time::SystemTimeError);

/// `SystemTime::elapsed`: the time from `t` until now, or an error when the
/// clock reads earlier than `t`. It depends on the clock, so nothing is
/// stated of the result.
#[verifier::external_body]
fn elapsed(t: &SystemTime) -> Result<Duration, SystemTimeError> {
    t.elapsed()
}

/// `Duration::as_secs`: the whole seconds of `d`. A `Duration` is opaque
/// here, so nothing is stated of the value.
#[verifier::external_body]
fn duration_secs(d: &Duration) -> u64 {
    d.as_secs()
}

/// How a span of `secs` seconds is shown: years of 365 days, "weeks" of
/// 640800 seconds, days, hours, minutes and seconds.
pub open spec fn elapsed_text(secs: nat) -> Seq<char> {
    let years = secs / 31536000;
    let rweeks = secs % 31536000;
    let weeks = rweeks / 640800;
    let rdays = rweeks % 640800;
    let days = rdays / 86400;
    let rhours = rdays % 86400;
    let hours = rhours / 3600;
    let rminutes = rhours % 3600;
    let minutes = rminutes / 60;
    let seconds = rminutes % 60;
    decimal(years) + seq!['y', '-'] + decimal(weeks) + seq!['w', '-'] + decimal(days) + seq!['d', '-']
        + decimal(hours) + seq!['h', '-'] + decimal(minutes) + seq!['m', '-'] + decimal(seconds)
        + seq!['s']
}

/// Formats a span of seconds as `{}y-{}w-{}d-{}h-{}m-{}s`.
pub fn fmt_elapsed(last_modified: u64) -> (s: String)
    ensures
        s@ == elapsed_text(last_modified as nat),
{
    let years: u64 = last_modified / 31536000;
    let rweeks = last_modified % 31536000;
    let weeks: u64 = rweeks / 640800;
    let rdays = rweeks % 640800;
    let days: u64 = rdays / 86400;
    let rhours = rdays % 86400;
    let hours: u64 = rhours / 3600;
    let rminutes = rhours % 3600;
    let minutes: u64 = rminutes / 60;
    let seconds: u64 = rminutes % 60;
    let mut s = String::new();
    push_decimal(&mut s, years);
    string_push(&mut s, 'y');
    string_push(&mut s, '-');
    push_decimal(&mut s, weeks);
    string_push(&mut s, 'w');
    string_push(&mut s, '-');
    push_decimal(&mut s, days);
    string_push(&mut s, 'd');
    string_push(&mut s, '-');
    push_decimal(&mut s, hours);
    string_push(&mut s, 'h');
    string_push(&mut s, '-');
    push_decimal(&mut s, minutes);
    string_push(&mut s, 'm');
    string_push(&mut s, '-');
    push_decimal(&mut s, seconds);
    string_push(&mut s, 's');
    assert(s@ =~= elapsed_text(last_modified as nat));
    s
}

pub struct FileMeta {
    pub title: String,
    pub path: String,
    pub histpath: String,
    pub last_modified: SystemTime,
    pub escctrl: bool,
}

impl FileMeta {
    /// How long ago the file was last modified, as [`fmt_elapsed`] shows it.
    /// When the clock reads earlier than the modification time, the span is 0.
    pub fn fmt_last_modified(&self) -> (s: String)
        ensures
            exists|secs: u64| s@ == elapsed_text(secs as nat),
    {
        let secs: u64 = match elapsed(&self.last_modified) {
            Ok(d) => duration_secs(&d),
            Err(_) => 0,
        };
        fmt_elapsed(secs)
    }
}

pub struct _MoveRestrict {
    pub up: bool,
    pub down: bool,
    pub left: bool,
    pub right: bool,
    pub up_max: u64,
    pub down_max: u64,
    pub left_max: u64,
    pub right_max: u64,
}

impl _MoveRestrict {
    /// Every direction allowed, with no limits.
    pub fn new() -> (m: _MoveRestrict)
        ensures
            m.up && m.down && m.left && m.right,
            m.up_max == 0 && m.down_max == 0 && m.left_max == 0 && m.right_max == 0,
    {
        _MoveRestrict {
            up: true,
            down: true,
            left: true,
            right: true,
            up_max: 0,
            down_max: 0,
            left_max: 0,
            right_max: 0,
        }
    }
}

/// The message shown before any other.
pub open spec fn initial_msg() -> Seq<char> {
    "THIS IS A BUG, PLEASE CONTACT AUTHOR"@
}

pub struct _Display {
    pub msg: String,
    pub lastmod: String,
    /// registry:
    /// #### main sections
    /// - (`0`) - top text
    /// - (`1`) - bottom text
    /// - (`2`) - editable area
    /// #### subsections
    /// - (`3`)  - top text - blanket
    /// - (`4`)  - bottom text - blanket
    /// - (`5`)  - editable area - blanket
    /// - (`6`)  - bottom text - cur pos
    /// - (`7`)  - top text - saved
    /// - (`8`)  - EA - cur line only
    /// - (`9`)  - EA - cur + next line only
    /// - (`10`) - EA - cur + next lines
    /// - (`11`) - EA - cur + prev line only
    pub redisplay: u64,
    pub tt_left_len: usize,
    pub bt_left_len: usize,
}

impl _Display {
    pub fn new() -> (d: _Display)
        ensures
            d.msg@ == initial_msg(),
            d.lastmod@ == Seq::<char>::empty(),
            d.redisplay == 0,
            d.tt_left_len == 0,
            d.bt_left_len == 0,
    {
        _Display {
            msg: "THIS IS A BUG, PLEASE CONTACT AUTHOR".to_owned(),
            lastmod: String::new(),
            redisplay: 0,
            tt_left_len: 0,
            bt_left_len: 0,
        }
    }
}

pub struct Attrs {
    /// rows cols
    pub size: (u64, u64),
    /// rows cols
    pub frame_start: (u64, u64),
    /// row, col
    pub pos: (u64, u64),
    pub pref_x: u64,
    pub mov_restrict: _MoveRestrict,
    pub suppress_move_errs: bool,
    pub display: _Display,
}

} // verus!
