use linedit::data::{fmt_elapsed, FileMeta, _Display, _MoveRestrict};
use linedit::strings::{decimal_string, pair_string};

#[test]
fn elapsed_zero() {
    assert_eq!(fmt_elapsed(0), "0y-0w-0d-0h-0m-0s");
}

#[test]
fn elapsed_one_of_each() {
    assert_eq!(fmt_elapsed(31536000 + 640800 + 86400 + 3600 + 60 + 1), "1y-1w-1d-1h-1m-1s");
    assert_eq!(fmt_elapsed(604800), "0y-0w-7d-0h-0m-0s");
}

#[test]
fn last_modified_just_now() {
    let m = FileMeta {
        title: "t".to_owned(),
        path: "p".to_owned(),
        histpath: String::new(),
        last_modified: std::time::SystemTime::now(),
        escctrl: false,
    };
    let s = m.fmt_last_modified();
    assert!(s.starts_with("0y-0w-0d-0h-0m-"));
}

#[test]
fn last_modified_in_the_future_shows_zero() {
    let m = FileMeta {
        title: String::new(),
        path: String::new(),
        histpath: String::new(),
        last_modified: std::time::SystemTime::now() + std::time::Duration::from_secs(1000),
        escctrl: false,
    };
    assert_eq!(m.fmt_last_modified(), "0y-0w-0d-0h-0m-0s");
}

#[test]
fn defaults() {
    let m = _MoveRestrict::new();
    assert!(m.up && m.down && m.left && m.right);
    assert_eq!(m.up_max + m.down_max + m.left_max + m.right_max, 0);
    let d = _Display::new();
    assert_eq!(d.msg, "THIS IS A BUG, PLEASE CONTACT AUTHOR");
    assert_eq!(d.redisplay, 0);
    assert!(d.lastmod.is_empty());
}

#[test]
fn numbers_and_pairs() {
    assert_eq!(decimal_string(0), "0");
    assert_eq!(decimal_string(1234567890), "1234567890");
    assert_eq!(decimal_string(u64::MAX), "18446744073709551615");
    assert_eq!(pair_string(3, 40), "(3, 40)");
}

