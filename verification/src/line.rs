//! Lines of text and the arena in which linked lines live.

use vstd::prelude::*;
use vstd::string::StringSliceAdditionalSpecFns;
use crate::strings::string_push;

verus! {

/// Rounds `n` up to the next even number.
pub open spec fn round_even(n: int) -> int {
    if n % 2 == 0 { n } else { n + 1 }
}

/// The capacity of a line made from `len` bytes: `len` rounded up to an even
/// number (a length of `u64::MAX` cannot be rounded up and is kept).
pub open spec fn initial_cap(len: int) -> int {
    if round_even(len) <= u64::MAX { round_even(len) } else { len }
}

/// The capacity that a line shrinks to when it has become mostly empty.
pub open spec fn shrunk_cap(cap: u64) -> int {
    round_even(cap as int / 2)
}

/// Whether removing one byte from a line of length `len` makes it shrink.
pub open spec fn shrinks(len: int, cap: u64) -> bool {
    len - 1 < cap as int / 4
}

/// The abstract value of a line: its links, its address, its bytes and its capacity.
pub struct LineView {
    pub next: u64,
    pub prev: u64,
    pub addr: u64,
    pub text: Seq<u8>,
    pub cap: u64,
}

impl LineView {
    /// A line never holds more bytes than its capacity.
    pub open spec fn wf(self) -> bool {
        self.text.len() <= self.cap
    }
}

/// The characters that a line of bytes reads as (one character per byte).
pub open spec fn bytes_as_chars(b: Seq<u8>) -> Seq<char> {
    Seq::new(b.len(), |i: int| b[i] as char)
}

/// The empty, unlinked line that is stored nowhere.
pub open spec fn empty_line() -> LineView {
    LineView { next: 0, prev: 0, addr: 0, text: Seq::empty(), cap: 0 }
}

/// The capacity after one byte is removed from a line.
pub open spec fn cap_after_removal(v: LineView) -> u64 {
    if shrinks(v.text.len() as int, v.cap) { shrunk_cap(v.cap) as u64 } else { v.cap }
}

/// `v` after appending `c`: full lines double their capacity.
pub open spec fn pushed(v: LineView, c: u8) -> LineView {
    LineView {
        text: v.text.push(c),
        cap: if v.text.len() == v.cap { (v.cap * 2) as u64 } else { v.cap },
        ..v
    }
}

/// `v` after removing its last byte.
pub open spec fn popped(v: LineView) -> LineView {
    LineView { text: v.text.drop_last(), cap: cap_after_removal(v), ..v }
}

/// `v` after inserting `c` before position `idx` (nothing happens past the end).
pub open spec fn inserted(v: LineView, idx: u64, c: u8) -> LineView {
    if idx > v.text.len() {
        v
    } else {
        LineView {
            text: v.text.insert(idx as int, c),
            cap: if v.cap == 0 { 2u64 } else if v.text.len() == v.cap { (v.cap * 2) as u64 } else { v.cap },
            ..v
        }
    }
}

/// `v` after removing the byte at `idx` (nothing happens past the end).
pub open spec fn removed(v: LineView, idx: u64) -> LineView {
    if idx >= v.text.len() {
        v
    } else {
        LineView { text: v.text.remove(idx as int), cap: cap_after_removal(v), ..v }
    }
}

/// The part of `v` that stays in place when it is split at `index`.
pub open spec fn split_kept(v: LineView, index: u64) -> LineView {
    let len = v.text.len();
    if len == 0 || (index > 0 && index >= len) {
        v
    } else if index == 0 {
        LineView { text: Seq::empty(), cap: 0, ..v }
    } else {
        LineView { text: v.text.take(index as int), ..v }
    }
}

/// The new, unlinked line that splitting `v` at `index` gives.
pub open spec fn split_off(v: LineView, index: u64) -> LineView {
    let len = v.text.len();
    if len == 0 || (index > 0 && index >= len) {
        empty_line()
    } else if index == 0 {
        LineView { next: 0, prev: 0, addr: 0, text: v.text, cap: v.cap }
    } else {
        LineView { next: 0, prev: 0, addr: 0, text: v.text.skip(index as int), cap: round_even(len - index) as u64 }
    }
}

/// Law: capacities stay even. A line made from fewer than `u64::MAX` bytes
/// starts with an even capacity, and every operation keeps an even capacity
/// even (the new line of a split always gets one).
pub proof fn lemma_caps_stay_even(v: LineView, c: u8, idx: u64, len: int)
    requires
        v.wf(),
        v.cap % 2 == 0,
        0 <= len < u64::MAX,
    ensures
        initial_cap(len) % 2 == 0,
        v.cap > 0 && (v.text.len() == v.cap ==> v.cap <= u64::MAX / 2) ==> pushed(v, c).cap % 2 == 0,
        v.text.len() > 0 ==> popped(v).cap % 2 == 0,
        (v.text.len() == v.cap ==> v.cap <= u64::MAX / 2) ==> inserted(v, idx, c).cap % 2 == 0,
        removed(v, idx).cap % 2 == 0,
        split_kept(v, idx).cap % 2 == 0,
        split_off(v, idx).cap % 2 == 0,
{
}

/// Law: popping right after pushing `c` gives `c` back and restores the bytes.
pub proof fn lemma_push_then_pop(v: LineView, c: u8)
    requires
        v.wf(),
        v.cap > 0,
        v.text.len() == v.cap ==> v.cap <= u64::MAX / 2,
    ensures
        pushed(v, c).cap > 0,
        pushed(v, c).text.last() == c,
        popped(pushed(v, c)).text == v.text,
{
    assert(pushed(v, c).text.drop_last() =~= v.text);
}

/// Law: removing at `idx` right after inserting `c` at `idx` gives `c` back
/// and restores the bytes.
pub proof fn lemma_insert_then_remove(v: LineView, idx: u64, c: u8)
    requires
        v.wf(),
        idx <= v.text.len(),
    ensures
        inserted(v, idx, c).text[idx as int] == c,
        removed(inserted(v, idx, c), idx).text == v.text,
{
    assert(inserted(v, idx, c).text.remove(idx as int) =~= v.text);
}

/// Law: a byte written with `set_char` inside the line is read back by `get_char`.
pub proof fn lemma_set_then_get(v: LineView, idx: u64, c: u8)
    requires
        idx < v.text.len(),
    ensures
        v.text.update(idx as int, c)[idx as int] == c,
        v.text.update(idx as int, c).len() == v.text.len(),
{
}

/// Law: splitting loses and repeats nothing. Inside the line the old line
/// keeps the bytes before the split point and the new line holds the bytes
/// from it on; at every index the two parts put together give the old bytes.
pub proof fn lemma_split_parts(v: LineView, index: u64)
    requires
        v.wf(),
    ensures
        index < v.text.len() ==> split_kept(v, index).text == v.text.take(index as int),
        index < v.text.len() ==> split_off(v, index).text == v.text.skip(index as int),
        split_kept(v, index).text + split_off(v, index).text == v.text,
        split_kept(v, index).wf(),
        split_off(v, index).wf(),
{
    let len = v.text.len();
    if len == 0 {
        assert(split_kept(v, index).text + split_off(v, index).text =~= v.text);
    } else if index == 0 {
        assert(v.text.skip(0) =~= v.text);
        assert(split_kept(v, index).text + split_off(v, index).text =~= v.text);
    } else if index >= len {
        assert(split_kept(v, index).text + split_off(v, index).text =~= v.text);
    } else {
        assert(v.text.take(index as int) + v.text.skip(index as int) =~= v.text);
    }
}

/// Represents a line of text with built in linked list functionality.
pub struct Line {
    /// address of the next line (0 if none)
    nextln: u64,
    /// address of the previous line (0 if none)
    prevln: u64,
    /// address at which this line is stored (0 if it is stored nowhere)
    addr: u64,
    /// the bytes of the line
    text: Vec<u8>,
    /// this line's capacity
    cap: u64,
}

impl View for Line {
    type V = LineView;

    closed spec fn view(&self) -> LineView {
        LineView { next: self.nextln, prev: self.prevln, addr: self.addr, text: self.text@, cap: self.cap }
    }
}

impl Line {
    pub open spec fn wf(&self) -> bool {
        self@.wf()
    }

    pub fn new() -> (l: Line)
        ensures
            l@ == (LineView { next: 0, prev: 0, addr: 0, text: Seq::empty(), cap: 0 }),
    {
        Line { nextln: 0, prevln: 0, addr: 0, text: Vec::new(), cap: 0 }
    }

    pub fn cap(&self) -> (c: u64)
        ensures
            c == self@.cap,
    {
        self.cap
    }

    pub fn len(&self) -> (n: u64)
        ensures
            n == self@.text.len(),
    {
        self.text.len() as u64
    }

    pub fn get_next(&self) -> (n: u64)
        ensures
            n == self@.next,
    {
        self.nextln
    }

    pub fn get_prev(&self) -> (p: u64)
        ensures
            p == self@.prev,
    {
        self.prevln
    }

    /// The address at which this line is stored, 0 when it is stored nowhere.
    pub fn get_addr(&self) -> (a: u64)
        ensures
            a == self@.addr,
    {
        self.addr
    }

    pub fn set_next(&mut self, n: u64)
        ensures
            final(self)@ == (LineView { next: n, ..old(self)@ }),
    {
        self.nextln = n;
    }

    pub fn set_prev(&mut self, n: u64)
        ensures
            final(self)@ == (LineView { prev: n, ..old(self)@ }),
    {
        self.prevln = n;
    }

    pub(crate) fn set_addr(&mut self, a: u64)
        ensures
            final(self)@ == (LineView { addr: a, ..old(self)@ }),
    {
        self.addr = a;
    }

    pub fn new_with_np(nextln: u64, prevln: u64) -> (l: Line)
        ensures
            l@ == (LineView { next: nextln, prev: prevln, addr: 0, text: Seq::empty(), cap: 0 }),
    {
        Line { nextln, prevln, addr: 0, text: Vec::new(), cap: 0 }
    }

    /// A line holding the bytes of `s`; an empty `s` gives an unlinked empty line.
    pub fn from_str_with_np(nextln: u64, prevln: u64, s: &str) -> (l: Line)
        ensures
            s.spec_bytes().len() == 0 ==> l@ == (LineView { next: 0, prev: 0, addr: 0, text: Seq::empty(), cap: 0 }),
            s.spec_bytes().len() > 0 ==> l@ == (LineView {
                next: nextln,
                prev: prevln,
                addr: 0,
                text: s.spec_bytes(),
                cap: initial_cap(s.spec_bytes().len() as int) as u64,
            }),
            l.wf(),
    {
        let bytes = s.as_bytes();
        if bytes.len() == 0 {
            return Line::new();
        }
        let text = vstd::slice::slice_to_vec(bytes);
        let len: u64 = bytes.len() as u64;
        let cap: u64 = if len % 2 == 0 {
            len
        } else if len < u64::MAX {
            len + 1
        } else {
            len
        };
        Line { nextln, prevln, addr: 0, text, cap }
    }

    pub fn from_str(s: &str) -> (l: Line)
        ensures
            s.spec_bytes().len() == 0 ==> l@.cap == 0,
            l@ == (LineView {
                next: 0,
                prev: 0,
                addr: 0,
                text: s.spec_bytes(),
                cap: initial_cap(s.spec_bytes().len() as int) as u64,
            }),
            l.wf(),
    {
        Line::from_str_with_np(0, 0, s)
    }

    /// Byte `idx` of the line, or 0 past its end.
    pub fn get_char(&self, idx: u64) -> (c: u8)
        ensures
            c == (if idx < self@.text.len() { self@.text[idx as int] } else { 0u8 }),
    {
        if idx >= self.text.len() as u64 {
            return 0;
        }
        self.text[idx as usize]
    }

    /// Gives the line the capacity `n` rounded up to an even number; the bytes stay.
    fn resize(&mut self, n: u64)
        requires
            old(self).wf(),
            n < u64::MAX,
            round_even(n as int) >= old(self)@.text.len(),
        ensures
            final(self)@ == (LineView { cap: round_even(n as int) as u64, ..old(self)@ }),
            final(self).wf(),
    {
        let n: u64 = if n % 2 == 0 { n } else { n + 1 };
        if n == self.cap {
            return;
        }
        self.cap = n;
    }

    /// Appends a byte, doubling the capacity when the line is full.
    /// A line without storage (capacity 0) cannot take a byte this way.
    pub fn push_char(&mut self, c: u8)
        requires
            old(self).wf(),
            old(self)@.cap > 0,
            old(self)@.text.len() == old(self)@.cap ==> old(self)@.cap <= u64::MAX / 2,
        ensures
            final(self)@ == pushed(old(self)@, c),
            final(self).wf(),
    {
        if self.cap == self.text.len() as u64 {
            self.resize(self.cap * 2);
        }
        self.text.push(c);
    }

    /// Removes and returns the last byte, halving the capacity when under a
    /// quarter of it stays in use; a line without storage gives 0.
    pub fn pop_char(&mut self) -> (c: u8)
        requires
            old(self).wf(),
            old(self)@.cap == 0 || old(self)@.text.len() > 0,
        ensures
            old(self)@.cap == 0 ==> c == 0 && final(self)@ == old(self)@,
            old(self)@.cap > 0 ==> c == old(self)@.text.last() && final(self)@ == popped(old(self)@),
            final(self).wf(),
    {
        if self.cap == 0 {
            return 0;
        }
        let il: u64 = self.text.len() as u64;
        let c = self.text.pop().unwrap();
        if il - 1 < self.cap / 4 {
            self.resize(self.cap / 2);
        }
        c
    }

    /// Inserts a byte before position `idx`; does nothing when `idx` is past the end.
    pub fn insert_char(&mut self, idx: u64, c: u8)
        requires
            old(self).wf(),
            old(self)@.text.len() == old(self)@.cap ==> old(self)@.cap <= u64::MAX / 2,
        ensures
            final(self)@ == inserted(old(self)@, idx, c),
            final(self).wf(),
    {
        let il: u64 = self.text.len() as u64;
        if idx > il {
            return;
        }
        if self.cap == 0 {
            self.resize(2);
        } else if self.cap == il {
            self.resize(self.cap * 2);
        }
        self.text.insert(idx as usize, c);
    }

    /// Removes and returns byte `idx`, halving the capacity when under a
    /// quarter of it stays in use; past the end it gives 0 and changes nothing.
    pub fn remove_char(&mut self, idx: u64) -> (c: u8)
        requires
            old(self).wf(),
        ensures
            c == (if idx < old(self)@.text.len() { old(self)@.text[idx as int] } else { 0u8 }),
            final(self)@ == removed(old(self)@, idx),
            final(self).wf(),
    {
        let il: u64 = self.text.len() as u64;
        if idx >= il {
            return 0;
        }
        if idx == il - 1 {
            let c = self.pop_char();
            assert(old(self)@.text.drop_last() =~= old(self)@.text.remove(idx as int));
            return c;
        }
        let c = self.text.remove(idx as usize);
        if il - 1 < self.cap / 4 {
            self.resize(self.cap / 2);
        }
        c
    }

    /// Splits this line in place at `index` and returns a new, unlinked line
    /// that holds the bytes from `index` on; this line keeps the bytes before
    /// `index`, and its capacity. At index 0 all the storage moves to the new
    /// line; an empty line, or an index at or past the end, leaves this line
    /// as it is and gives an empty line.
    pub fn split(&mut self, index: u64) -> (n: Line)
        requires
            old(self).wf(),
        ensures
            final(self).wf(),
            n.wf(),
            final(self)@ == split_kept(old(self)@, index),
            n@ == split_off(old(self)@, index),
    {
        let len: u64 = self.text.len() as u64;
        if len == 0 {
            return Line::new();
        }
        if index == 0 {
            let mut moved: Vec<u8> = Vec::new();
            std::mem::swap(&mut moved, &mut self.text);
            let n = Line { nextln: 0, prevln: 0, addr: 0, text: moved, cap: self.cap };
            self.cap = 0;
            return n;
        }
        if index >= len {
            return Line::new();
        }
        let mut rest: Vec<u8> = Vec::new();
        let mut a: u64 = index;
        while a < len
            invariant
                index <= a <= len,
                len == self.text@.len(),
                self.text@.len() <= usize::MAX,
                self.text@ == old(self)@.text,
                rest@ == old(self)@.text.subrange(index as int, a as int),
            decreases len - a,
        {
            rest.push(self.text[a as usize]);
            a = a + 1;
            assert(rest@ =~= old(self)@.text.subrange(index as int, a as int));
        }
        let s: u64 = len - index;
        let s: u64 = if s % 2 == 0 { s } else { s + 1 };
        self.text.truncate(index as usize);
        Line { nextln: 0, prevln: 0, addr: 0, text: rest, cap: s }
    }

    /// The line read as characters, one per byte.
    pub fn to_string(self) -> (s: String)
        ensures
            s@ == bytes_as_chars(self@.text),
    {
        self.chars()
    }

    fn chars(&self) -> (s: String)
        ensures
            s@ == bytes_as_chars(self@.text),
    {
        let mut s = String::new();
        let len = self.text.len();
        let mut i: usize = 0;
        while i < len
            invariant
                i <= len,
                len == self.text@.len(),
                s@ == bytes_as_chars(self@.text.take(i as int)),
            decreases len - i,
        {
            string_push(&mut s, self.text[i] as char);
            i = i + 1;
            assert(s@ =~= bytes_as_chars(self@.text.take(i as int)));
        }
        assert(self@.text.take(len as int) =~= self@.text);
        s
    }

    /// Bytes `start..end` of the line read as characters.
    pub fn substr(&self, start: u64, end: u64) -> (s: String)
        requires
            start <= end <= self@.text.len(),
            start < self@.text.len(),
        ensures
            s@ == bytes_as_chars(self@.text.subrange(start as int, end as int)),
    {
        let mut s = String::new();
        let mut i: u64 = start;
        let len: usize = self.text.len();
        while i < end
            invariant
                start <= i <= end,
                end <= len,
                len == self@.text.len(),
                s@ == bytes_as_chars(self@.text.subrange(start as int, i as int)),
            decreases end - i,
        {
            let b: u8 = self.text[i as usize];
            string_push(&mut s, b as char);
            i = i + 1;
            assert(s@ =~= bytes_as_chars(self@.text.subrange(start as int, i as int)));
        }
        s
    }

    /// A copy of this line: same links, address, bytes and capacity.
    fn duplicate(&self) -> (l: Line)
        ensures
            l@ == self@,
    {
        let text = vstd::slice::slice_to_vec(self.text.as_slice());
        Line { nextln: self.nextln, prevln: self.prevln, addr: self.addr, text, cap: self.cap }
    }

    /// Overwrites byte `idx`; does nothing past the end of the line.
    pub fn set_char(&mut self, idx: u64, c: u8)
        ensures
            final(self)@ == (LineView {
                text: if idx < old(self)@.text.len() { old(self)@.text.update(idx as int, c) } else { old(self)@.text },
                ..old(self)@
            }),
    {
        if idx >= self.text.len() as u64 {
            return;
        }
        self.text.set(idx as usize, c);
    }
}

/// The storage in which linked lines live. A line's address is its slot
/// number plus one; address 0 stands for "no line".
pub struct LineHeap {
    slots: Vec<Option<Line>>,
}

impl View for LineHeap {
    type V = Map<u64, LineView>;

    closed spec fn view(&self) -> Map<u64, LineView> {
        Map::new(
            |a: u64| 1 <= a <= self.slots@.len() && self.slots@[a - 1] is Some,
            |a: u64| self.slots@[a - 1]->Some_0@,
        )
    }
}

impl LineHeap {
    /// Every stored line is well formed and knows its own address.
    pub closed spec fn wf(&self) -> bool {
        &&& self.slots@.len() <= u64::MAX
        &&& forall|i: int|
            0 <= i < self.slots@.len() && (#[trigger] self.slots@[i]) is Some ==> {
                &&& self.slots@[i]->Some_0@.wf()
                &&& self.slots@[i]->Some_0@.addr == i + 1
            }
    }

    /// The number of addresses handed out so far; every stored address is at most this.
    pub closed spec fn used(&self) -> nat {
        self.slots@.len()
    }

    /// Facts about stored lines that follow from well-formedness.
    pub proof fn lemma_stored(&self, a: u64)
        requires
            self.wf(),
            self@.dom().contains(a),
        ensures
            self@[a].wf(),
            self@[a].addr == a,
            1 <= a <= self.used(),
            self.used() <= u64::MAX,
    {
        assert(self.slots@[a - 1] is Some);
    }

    /// The number of addresses handed out so far.
    pub fn used_count(&self) -> (n: u64)
        requires
            self.wf(),
        ensures
            n == self.used(),
    {
        self.slots.len() as u64
    }

    pub proof fn lemma_bounded(&self)
        requires
            self.wf(),
        ensures
            self.used() <= u64::MAX,
            forall|a: u64| #[trigger] self@.dom().contains(a) ==> 1 <= a <= self.used(),
    {
    }

    pub fn new() -> (h: LineHeap)
        ensures
            h.wf(),
            h@ == Map::<u64, LineView>::empty(),
            h.used() == 0,
    {
        let h = LineHeap { slots: Vec::new() };
        assert(h@ =~= Map::<u64, LineView>::empty());
        h
    }

    /// Stores `l` at a fresh address and returns that address.
    pub fn store(&mut self, l: Line) -> (a: u64)
        requires
            old(self).wf(),
            l.wf(),
            old(self).used() < u64::MAX,
        ensures
            final(self).wf(),
            a == old(self).used() + 1,
            !old(self)@.dom().contains(a),
            final(self)@ == old(self)@.insert(a, LineView { addr: a, ..l@ }),
            final(self).used() == old(self).used() + 1,
    {
        let mut l = l;
        let a: u64 = self.slots.len() as u64 + 1;
        l.set_addr(a);
        self.slots.push(Some(l));
        assert(self@ =~= old(self)@.insert(a, LineView { addr: a, ..l@ }));
        a
    }

    /// The line stored at `a`.
    fn line(&self, a: u64) -> (l: &Line)
        requires
            self.wf(),
            self@.dom().contains(a),
        ensures
            l@ == self@[a],
            l.wf(),
    {
        proof { self.lemma_stored(a); }
        let _n = self.slots.len();
        self.slots[(a - 1) as usize].as_ref().unwrap()
    }

    /// Takes the line stored at `a` out of its slot, leaving the slot empty.
    fn take(&mut self, a: u64) -> (l: Line)
        requires
            old(self).wf(),
            old(self)@.dom().contains(a),
        ensures
            l@ == old(self)@[a],
            l.wf(),
            final(self).slots@ == old(self).slots@.update(a - 1, None),
    {
        proof { old(self).lemma_stored(a); }
        let _n = self.slots.len();
        let l = self.slots[(a - 1) as usize].take();
        l.unwrap()
    }

    /// Puts `l` back into the slot that `take` emptied.
    fn put(&mut self, a: u64, l: Line, Ghost(orig): Ghost<LineHeap>)
        requires
            orig.wf(),
            orig@.dom().contains(a),
            old(self).slots@ == orig.slots@.update(a - 1, None),
            l.wf(),
            l@.addr == a,
        ensures
            final(self).wf(),
            final(self)@ == orig@.insert(a, l@),
            final(self).used() == orig.used(),
    {
        proof { orig.lemma_stored(a); }
        let _n = self.slots.len();
        self.slots.set((a - 1) as usize, Some(l));
        assert(self@ =~= orig@.insert(a, l@));
    }

    /// Removes the line at `laddr` and unlinks it: the line before it gets no
    /// next line and the line after it gets no previous line. A line that
    /// names itself as a neighbour has nothing left to unlink on that side.
    pub fn free(&mut self, laddr: u64)
        requires
            old(self).wf(),
            old(self)@.dom().contains(laddr),
            old(self)@[laddr].prev != 0 ==> old(self)@.dom().contains(old(self)@[laddr].prev),
            old(self)@[laddr].next != 0 ==> old(self)@.dom().contains(old(self)@[laddr].next),
        ensures
            final(self).wf(),
            final(self).used() == old(self).used(),
            ({
                let p = old(self)@[laddr].prev;
                let n = old(self)@[laddr].next;
                let h1 = old(self)@.remove(laddr);
                let h2 = if p != 0 && p != laddr { h1.insert(p, LineView { next: 0, ..h1[p] }) } else { h1 };
                let h3 = if n != 0 && n != laddr { h2.insert(n, LineView { prev: 0, ..h2[n] }) } else { h2 };
                final(self)@ == h3
            }),
    {
        proof { old(self).lemma_stored(laddr); }
        let ghost h0 = *self;
        let l = self.take(laddr);
        assert(self@ =~= old(self)@.remove(laddr));
        assert(self.wf());
        let p = l.get_prev();
        let n = l.get_next();
        if p != 0 && p != laddr {
            let ghost h1 = *self;
            let mut lp = self.take(p);
            lp.set_next(0);
            self.put(p, lp, Ghost(h1));
        }
        if n != 0 && n != laddr {
            let ghost h2 = *self;
            let mut ln = self.take(n);
            ln.set_prev(0);
            self.put(n, ln, Ghost(h2));
        }
    }
}

// Operations on the line stored at an address.
impl Line {
    pub fn cap_a(heap: &LineHeap, laddr: u64) -> (c: u64)
        requires
            heap.wf(),
            heap@.dom().contains(laddr),
        ensures
            c == heap@[laddr].cap,
    {
        heap.line(laddr).cap()
    }

    pub fn len_a(heap: &LineHeap, laddr: u64) -> (n: u64)
        requires
            heap.wf(),
            heap@.dom().contains(laddr),
        ensures
            n == heap@[laddr].text.len(),
    {
        heap.line(laddr).len()
    }

    pub fn get_next_a(heap: &LineHeap, laddr: u64) -> (n: u64)
        requires
            heap.wf(),
            heap@.dom().contains(laddr),
        ensures
            n == heap@[laddr].next,
    {
        heap.line(laddr).get_next()
    }

    pub fn get_prev_a(heap: &LineHeap, laddr: u64) -> (p: u64)
        requires
            heap.wf(),
            heap@.dom().contains(laddr),
        ensures
            p == heap@[laddr].prev,
    {
        heap.line(laddr).get_prev()
    }

    pub fn set_next_a(heap: &mut LineHeap, laddr: u64, n: u64)
        requires
            old(heap).wf(),
            old(heap)@.dom().contains(laddr),
        ensures
            final(heap).wf(),
            final(heap).used() == old(heap).used(),
            final(heap)@ == old(heap)@.insert(laddr, LineView { next: n, ..old(heap)@[laddr] }),
    {
        let ghost h = *heap;
        let mut l = heap.take(laddr);
        l.set_next(n);
        heap.put(laddr, l, Ghost(h));
    }

    pub fn set_prev_a(heap: &mut LineHeap, laddr: u64, n: u64)
        requires
            old(heap).wf(),
            old(heap)@.dom().contains(laddr),
        ensures
            final(heap).wf(),
            final(heap).used() == old(heap).used(),
            final(heap)@ == old(heap)@.insert(laddr, LineView { prev: n, ..old(heap)@[laddr] }),
    {
        let ghost h = *heap;
        let mut l = heap.take(laddr);
        l.set_prev(n);
        heap.put(laddr, l, Ghost(h));
    }

    /// A copy of the line stored at `addr`.
    pub fn from_addr(heap: &LineHeap, addr: u64) -> (l: Line)
        requires
            heap.wf(),
            heap@.dom().contains(addr),
        ensures
            l@ == heap@[addr],
            l.wf(),
    {
        heap.line(addr).duplicate()
    }

    /// An iterator over the bytes of the line stored at `laddr`.
    pub fn iter_over(heap: &LineHeap, laddr: u64) -> (it: WrappedInternIter)
        requires
            heap.wf(),
            heap@.dom().contains(laddr),
        ensures
            it.data() == heap@[laddr].text,
            it.pos() == 0,
    {
        let l = heap.line(laddr);
        WrappedInternIter { n: InternalIterator::new(vstd::slice::slice_to_vec(l.text.as_slice())) }
    }

    /// Splits the line at `laddr` (see [`Line::split`]) and stores the new
    /// line, returning its address.
    pub fn split_a(heap: &mut LineHeap, laddr: u64, index: u64) -> (naddr: u64)
        requires
            old(heap).wf(),
            old(heap)@.dom().contains(laddr),
            old(heap).used() < u64::MAX,
        ensures
            final(heap).wf(),
            final(heap).used() == old(heap).used() + 1,
            naddr == old(heap).used() + 1,
            !old(heap)@.dom().contains(naddr),
            final(heap)@ == old(heap)@.insert(laddr, split_kept(old(heap)@[laddr], index)).insert(
                naddr,
                LineView { addr: naddr, ..split_off(old(heap)@[laddr], index) },
            ),
    {
        let ghost h = *heap;
        let mut l = heap.take(laddr);
        let n = l.split(index);
        heap.put(laddr, l, Ghost(h));
        heap.store(n)
    }

    /// The line at `laddr` read as characters, one per byte.
    pub fn to_string_a(heap: &LineHeap, laddr: u64) -> (s: String)
        requires
            heap.wf(),
            heap@.dom().contains(laddr),
        ensures
            s@ == bytes_as_chars(heap@[laddr].text),
    {
        heap.line(laddr).chars()
    }

    pub fn substr_a(heap: &LineHeap, laddr: u64, start: u64, end: u64) -> (s: String)
        requires
            heap.wf(),
            heap@.dom().contains(laddr),
            start <= end <= heap@[laddr].text.len(),
            start < heap@[laddr].text.len(),
        ensures
            s@ == bytes_as_chars(heap@[laddr].text.subrange(start as int, end as int)),
    {
        heap.line(laddr).substr(start, end)
    }

    pub fn get_char_a(heap: &LineHeap, laddr: u64, idx: u64) -> (c: u8)
        requires
            heap.wf(),
            heap@.dom().contains(laddr),
        ensures
            c == (if idx < heap@[laddr].text.len() { heap@[laddr].text[idx as int] } else { 0u8 }),
    {
        heap.line(laddr).get_char(idx)
    }

    pub fn set_char_a(heap: &mut LineHeap, laddr: u64, idx: u64, c: u8)
        requires
            old(heap).wf(),
            old(heap)@.dom().contains(laddr),
        ensures
            final(heap).wf(),
            final(heap).used() == old(heap).used(),
            final(heap)@ == old(heap)@.insert(laddr, LineView {
                text: if idx < old(heap)@[laddr].text.len() {
                    old(heap)@[laddr].text.update(idx as int, c)
                } else {
                    old(heap)@[laddr].text
                },
                ..old(heap)@[laddr]
            }),
    {
        let ghost h = *heap;
        let mut l = heap.take(laddr);
        l.set_char(idx, c);
        heap.put(laddr, l, Ghost(h));
    }

    pub fn push_char_a(heap: &mut LineHeap, laddr: u64, c: u8)
        requires
            old(heap).wf(),
            old(heap)@.dom().contains(laddr),
            old(heap)@[laddr].cap > 0,
            old(heap)@[laddr].text.len() == old(heap)@[laddr].cap ==> old(heap)@[laddr].cap <= u64::MAX / 2,
        ensures
            final(heap).wf(),
            final(heap).used() == old(heap).used(),
            final(heap)@ == old(heap)@.insert(laddr, pushed(old(heap)@[laddr], c)),
    {
        let ghost h = *heap;
        let mut l = heap.take(laddr);
        l.push_char(c);
        heap.put(laddr, l, Ghost(h));
    }

    pub fn pop_char_a(heap: &mut LineHeap, laddr: u64) -> (c: u8)
        requires
            old(heap).wf(),
            old(heap)@.dom().contains(laddr),
            old(heap)@[laddr].cap == 0 || old(heap)@[laddr].text.len() > 0,
        ensures
            final(heap).wf(),
            final(heap).used() == old(heap).used(),
            old(heap)@[laddr].cap == 0 ==> c == 0 && final(heap)@ == old(heap)@,
            old(heap)@[laddr].cap > 0 ==> {
                &&& c == old(heap)@[laddr].text.last()
                &&& final(heap)@ == old(heap)@.insert(laddr, popped(old(heap)@[laddr]))
            },
    {
        let ghost h = *heap;
        let mut l = heap.take(laddr);
        let c = l.pop_char();
        heap.put(laddr, l, Ghost(h));
        proof {
            if old(heap)@[laddr].cap == 0 {
                assert(heap@ =~= old(heap)@);
            }
        }
        c
    }

    pub fn insert_char_a(heap: &mut LineHeap, laddr: u64, idx: u64, c: u8)
        requires
            old(heap).wf(),
            old(heap)@.dom().contains(laddr),
            old(heap)@[laddr].text.len() == old(heap)@[laddr].cap ==> old(heap)@[laddr].cap <= u64::MAX / 2,
        ensures
            final(heap).wf(),
            final(heap).used() == old(heap).used(),
            final(heap)@ == old(heap)@.insert(laddr, inserted(old(heap)@[laddr], idx, c)),
    {
        let ghost h = *heap;
        let mut l = heap.take(laddr);
        l.insert_char(idx, c);
        heap.put(laddr, l, Ghost(h));
        proof {
            if idx > old(heap)@[laddr].text.len() {
                assert(heap@ =~= old(heap)@);
            }
        }
    }

    pub fn remove_char_a(heap: &mut LineHeap, laddr: u64, idx: u64) -> (c: u8)
        requires
            old(heap).wf(),
            old(heap)@.dom().contains(laddr),
        ensures
            final(heap).wf(),
            final(heap).used() == old(heap).used(),
            c == (if idx < old(heap)@[laddr].text.len() { old(heap)@[laddr].text[idx as int] } else { 0u8 }),
            final(heap)@ == old(heap)@.insert(laddr, removed(old(heap)@[laddr], idx)),
    {
        let ghost h = *heap;
        let mut l = heap.take(laddr);
        let c = l.remove_char(idx);
        heap.put(laddr, l, Ghost(h));
        proof {
            if idx >= old(heap)@[laddr].text.len() {
                assert(heap@ =~= old(heap)@);
            }
        }
        c
    }
}

/// Iterates over a copy of the bytes of a line.
pub struct InternalIterator {
    data: Vec<u8>,
    i: u64,
}

impl InternalIterator {
    /// The bytes being walked.
    pub closed spec fn data(&self) -> Seq<u8> {
        self.data@
    }

    /// How many bytes have been handed out.
    pub closed spec fn pos(&self) -> nat {
        self.i as nat
    }

    pub(crate) fn new(data: Vec<u8>) -> (it: InternalIterator)
        ensures
            it.data() == data@,
            it.pos() == 0,
    {
        InternalIterator { data, i: 0 }
    }

    /// The next byte, or `None` once every byte has been handed out.
    pub fn next(&mut self) -> (b: Option<u8>)
        ensures
            final(self).data() == old(self).data(),
            old(self).pos() < old(self).data().len() ==> {
                &&& b == Some(old(self).data()[old(self).pos() as int])
                &&& final(self).pos() == old(self).pos() + 1
            },
            old(self).pos() >= old(self).data().len() ==> b is None && final(self).pos() == old(self).pos(),
    {
        let len = self.data.len();
        if self.i < len as u64 {
            let v = self.data[self.i as usize];
            self.i = self.i + 1;
            return Some(v);
        }
        None
    }
}

/// An iterable wrapper around an [`InternalIterator`].
pub struct WrappedInternIter {
    n: InternalIterator,
}

impl WrappedInternIter {
    pub closed spec fn data(&self) -> Seq<u8> {
        self.n.data()
    }

    pub closed spec fn pos(&self) -> nat {
        self.n.pos()
    }

    pub fn into_iter(self) -> (it: InternalIterator)
        ensures
            it.data() == self.data(),
            it.pos() == self.pos(),
    {
        self.n
    }
}

/// Stores a line in the heap and returns its address.
pub fn line_to_ptr(heap: &mut LineHeap, l: Line) -> (a: u64)
    requires
        old(heap).wf(),
        l.wf(),
        old(heap).used() < u64::MAX,
    ensures
        final(heap).wf(),
        a != 0,
        a == old(heap).used() + 1,
        !old(heap)@.dom().contains(a),
        final(heap)@ == old(heap)@.insert(a, LineView { addr: a, ..l@ }),
        final(heap).used() == old(heap).used() + 1,
{
    heap.store(l)
}

} // verus!
