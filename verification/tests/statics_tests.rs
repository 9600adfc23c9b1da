use linedit::darea::{BotText, EditArea, TopText, BTAll, BTAllE, BTCuP, BTMsg};
use linedit::statics::{aflag, cflag, debugging, gflag, sflag, DEBUGGING};

#[test]
fn debugging_switches() {
    assert_eq!(DEBUGGING, 0x1A0);
    assert!(debugging(5));
    assert!(debugging(7));
    assert!(debugging(8));
    assert!(!debugging(0));
    assert!(!debugging(6));
    assert!(!debugging(63));
}

#[test]
fn set_then_query_then_clear() {
    let mut r: u64 = 0;
    assert!(!gflag(r, TopText));
    sflag(&mut r, TopText | EditArea);
    assert!(gflag(r, TopText));
    assert!(gflag(r, EditArea));
    assert!(cflag(&mut r, TopText));
    assert!(!gflag(r, TopText));
    assert!(gflag(r, EditArea));
    assert!(!cflag(&mut r, TopText));
    assert_eq!(r, EditArea);
}

#[test]
fn all_flags() {
    let mut r: u64 = 3;
    aflag(&mut r);
    assert_eq!(r, u64::MAX);
}

#[test]
fn area_constants() {
    assert_eq!(TopText, 1);
    assert_eq!(BotText, 2);
    assert_eq!(BTAll, BotText | BTCuP | BTAllE | BTMsg);
    assert_eq!(BTAll, 2 | 64 | 16 | 128);
}
