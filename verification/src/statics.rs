//! Debugging switches and the bit-flag helpers used for redraw requests.

use vstd::prelude::*;

verus! {

/// The debugging switches that are on: bits 5, 7 and 8 (read-back of the
/// content on start, saving disabled, content dump on ^T).
pub const DEBUGGING: u64 = 0x1A0u64;

/// Whether debugging switch `x` is on.
pub open spec fn debug_switch(x: u64) -> bool {
    x == 5 || x == 7 || x == 8
}

/// Whether debugging switch `x` is on.
///
/// registry:
/// - (`0`)  -  Line
/// - (`1`)  -  LineList (Drop)
/// - (`2`)  -  LineList (From)
/// - (`3`)  -  LineIter
/// - (`4`)  -  Controller
/// - (`5`)  -  Controller -- test_readback
/// - (`6`)  -  Controller -- no input loop
/// - (`7`)  -  Controller -- fake save & fake normal exit
/// - (`8`)  -  Controller -- enable content dump
/// - (`9`)  -  Controller -- verbose positioning
/// - (`63`) -  MISC
pub fn debugging(x: u64) -> (b: bool)
    requires
        x < 64,
    ensures
        b == debug_switch(x),
{
    let b = DEBUGGING & (1u64 << x) > 0;
    assert((0x1A0u64 & (1u64 << x) > 0) == (x == 5 || x == 7 || x == 8)) by (bit_vector)
        requires
            x < 64,
    ;
    b
}

/// Queries the state of a flag: whether `reg` has any bit of `x`.
pub fn gflag(reg: u64, x: u64) -> (b: bool)
    ensures
        b == (reg & x != 0),
{
    let b = reg & x > 0;
    assert((reg & x > 0) == (reg & x != 0)) by (bit_vector);
    b
}

/// Sets a flag: adds the bits of `x` to `reg`.
pub fn sflag(reg: &mut u64, x: u64)
    ensures
        *final(reg) == *old(reg) | x,
{
    *reg = *reg | x;
}

/// Clears a flag and returns whether any of its bits was set.
pub fn cflag(reg: &mut u64, x: u64) -> (b: bool)
    ensures
        b == (*old(reg) & x != 0),
        *final(reg) == *old(reg) & !x,
{
    let r = *reg;
    let b = r & x > 0;
    assert((r & x > 0) == (r & x != 0)) by (bit_vector);
    *reg = r & !x;
    b
}

/// Sets every flag.
pub fn aflag(reg: &mut u64)
    ensures
        *final(reg) == u64::MAX,
{
    *reg = !0u64;
    assert(!0u64 == u64::MAX) by (bit_vector);
}

/// Clearing bits that are not set changes nothing.
pub proof fn lemma_clear_unset(reg: u64, x: u64)
    ensures
        reg & x == 0 ==> reg & !x == reg,
{
    assert(reg & x == 0 ==> reg & !x == reg) by (bit_vector);
}

/// Law: a flag that was just set reads as set, a flag that was just cleared
/// reads as clear, and clearing leaves the other bits as they were.
pub proof fn lemma_flag_laws(reg: u64, x: u64, y: u64)
    ensures
        x != 0 ==> (reg | x) & x != 0,
        (reg & !x) & x == 0,
        y & x == 0 ==> (reg & !x) & y == reg & y,
        (reg | x) & y == (reg & y) | (x & y),
{
    assert(x != 0 ==> (reg | x) & x != 0) by (bit_vector);
    assert((reg & !x) & x == 0) by (bit_vector);
    assert(y & x == 0 ==> (reg & !x) & y == reg & y) by (bit_vector);
    assert((reg | x) & y == (reg & y) | (x & y)) by (bit_vector);
}

} // verus!
