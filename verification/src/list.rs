//! A doubly linked list of lines whose links live in a [`LineHeap`].

use vstd::prelude::*;
use crate::line::{LineHeap, LineView, Line, initial_cap, line_to_ptr};
use vstd::utf8::encode_utf8;
use vstd::string::StringSliceAdditionalSpecFns;

verus! {

/// The address after position `i` of `s` (0 after the last one).
pub open spec fn next_of(s: Seq<u64>, i: int) -> u64 {
    if i + 1 < s.len() { s[i + 1] } else { 0 }
}

/// The address before position `i` of `s` (0 before the first one).
pub open spec fn prev_of(s: Seq<u64>, i: int) -> u64 {
    if i > 0 { s[i - 1] } else { 0 }
}

/// `s` is a chain of stored lines, each of whose next link names the line
/// after it in `s`, the last one's naming no line (0).
pub open spec fn next_linked(s: Seq<u64>, heap: Map<u64, LineView>) -> bool {
    &&& forall|i: int| 0 <= i < s.len() ==> heap.dom().contains(#[trigger] s[i])
    &&& forall|i: int| 0 <= i < s.len() ==> (#[trigger] heap[s[i]]).next == next_of(s, i)
}

/// `s` is a chain of distinct stored lines, each linked to its neighbours in `s`.
pub open spec fn linked(s: Seq<u64>, heap: Map<u64, LineView>) -> bool {
    &&& s.no_duplicates()
    &&& forall|i: int| 0 <= i < s.len() ==> heap.dom().contains(#[trigger] s[i])
    &&& forall|i: int| 0 <= i < s.len() ==> (#[trigger] heap[s[i]]).next == next_of(s, i)
    &&& forall|i: int| 0 <= i < s.len() ==> (#[trigger] heap[s[i]]).prev == prev_of(s, i)
}

/// The bytes of the lines at the addresses `s`, in order.
pub open spec fn texts(s: Seq<u64>, heap: Map<u64, LineView>) -> Seq<Seq<u8>> {
    s.map_values(|a: u64| heap[a].text)
}

/// The address reached from `start` by following `k` next links.
pub open spec fn walk(heap: Map<u64, LineView>, start: u64, k: nat) -> u64
    decreases k,
{
    if k == 0 {
        start
    } else if start == 0 || !heap.dom().contains(start) {
        0
    } else {
        walk(heap, heap[start].next, (k - 1) as nat)
    }
}

/// `h2` differs from `h1` only in the links of the lines at the addresses `s`.
pub open spec fn relinked(h1: Map<u64, LineView>, h2: Map<u64, LineView>, s: Seq<u64>) -> bool {
    &&& h2.dom() == h1.dom()
    &&& forall|a: u64| #[trigger] h1.dom().contains(a) && !s.contains(a) ==> h2[a] == h1[a]
    &&& forall|a: u64|
        #[trigger] h1.dom().contains(a) ==> {
            &&& h2[a].text == h1[a].text
            &&& h2[a].cap == h1[a].cap
            &&& h2[a].addr == h1[a].addr
        }
}

/// The number of bytes of `s` in UTF-8.
pub open spec fn byte_len(s: String) -> nat {
    encode_utf8(s@).len()
}

/// The total number of UTF-8 bytes of the strings in `lines`.
pub open spec fn byte_total(lines: Seq<String>) -> nat
    decreases lines.len(),
{
    if lines.len() == 0 { 0 } else { byte_total(lines.drop_last()) + byte_len(lines.last()) }
}

/// `h` with the lines at the addresses `s` linked to their neighbours in `s`.
pub open spec fn relink(h: Map<u64, LineView>, s: Seq<u64>) -> Map<u64, LineView> {
    Map::new(
        |a: u64| h.dom().contains(a),
        |a: u64|
            if s.contains(a) {
                LineView { next: next_of(s, s.index_of(a)), prev: prev_of(s, s.index_of(a)), ..h[a] }
            } else {
                h[a]
            },
    )
}

/// Relinking is the only change that both keeps everything but the links
/// of `s` and links `s`: it is determined.
pub proof fn lemma_relinked_is_relink(h1: Map<u64, LineView>, h2: Map<u64, LineView>, s: Seq<u64>)
    requires
        relinked(h1, h2, s),
        linked(s, h2),
    ensures
        h2 == relink(h1, s),
{
    assert forall|a: u64| #[trigger] h2.dom().contains(a) implies h2[a] == relink(h1, s)[a] by {
        assert(h1.dom().contains(a));
        if s.contains(a) {
            let i = s.index_of(a);
            assert(s[i] == a);
            assert(h2[s[i]].next == next_of(s, i));
            assert(h2[s[i]].prev == prev_of(s, i));
        }
    }
    assert(h2 =~= relink(h1, s));
}

/// A doubly linked list of lines: its first and last addresses and its length.
#[derive(Clone, Copy)]
pub struct LineList {
    head: u64,
    tail: u64,
    size: u64,
    pub total_size: u64,
    pub iterdeath: bool,
    addrs: Ghost<Seq<u64>>,
}

impl View for LineList {
    type V = Seq<u64>;

    /// The addresses of the lines, first to last.
    closed spec fn view(&self) -> Seq<u64> {
        self.addrs@
    }
}

/// A distinct sequence of addresses in `1..=n` has at most `n` elements.
pub proof fn lemma_distinct_bound(s: Seq<u64>, n: nat)
    requires
        s.no_duplicates(),
        forall|i: int| 0 <= i < s.len() ==> 1 <= #[trigger] s[i] <= n,
    ensures
        s.len() <= n,
    decreases n,
{
    if n == 0 {
        if s.len() > 0 {
            assert(1 <= s[0] <= 0);
        }
    } else if s.contains(n as u64) {
        let j = s.index_of(n as u64);
        let t = s.remove(j);
        assert forall|i: int| 0 <= i < t.len() implies 1 <= #[trigger] t[i] <= (n - 1) as nat by {
            if i < j {
                assert(t[i] == s[i]);
            } else {
                assert(t[i] == s[i + 1]);
            }
        }
        assert forall|a: int, b: int| 0 <= a < t.len() && 0 <= b < t.len() && a != b implies t[a] != t[b] by {
            let a2 = if a < j { a } else { a + 1 };
            let b2 = if b < j { b } else { b + 1 };
            assert(t[a] == s[a2]);
            assert(t[b] == s[b2]);
        }
        lemma_distinct_bound(t, (n - 1) as nat);
    } else {
        assert forall|i: int| 0 <= i < s.len() implies 1 <= #[trigger] s[i] <= (n - 1) as nat by {
            if s[i] == n {
                assert(s.contains(n as u64));
            }
        }
        lemma_distinct_bound(s, (n - 1) as nat);
    }
}

/// The byte total of a prefix grows by the length of the next string.
pub proof fn lemma_byte_total_prefix(lines: Seq<String>, k: int)
    requires
        0 < k <= lines.len(),
    ensures
        byte_total(lines.take(k)) == byte_total(lines.take(k - 1)) + byte_len(lines[k - 1]),
        byte_total(lines.take(k)) <= byte_total(lines),
    decreases lines.len() - k,
{
    assert(lines.take(k).drop_last() =~= lines.take(k - 1));
    if k < lines.len() {
        lemma_byte_total_prefix(lines, k + 1);
    } else {
        assert(lines.take(k) =~= lines);
    }
}

impl LineList {
    /// The header agrees with the addresses, and the addresses are linked in `heap`.
    pub closed spec fn wf(&self, heap: Map<u64, LineView>) -> bool {
        let s = self.addrs@;
        &&& s.len() == self.size
        &&& self.head == (if s.len() == 0 { 0 } else { s[0] })
        &&& self.tail == (if s.len() == 0 { 0 } else { s.last() })
        &&& linked(s, heap)
    }

    /// The public `total_size` field.
    pub closed spec fn spec_total_size(&self) -> u64 {
        self.total_size
    }

    /// The public `iterdeath` field.
    pub closed spec fn spec_iterdeath(&self) -> bool {
        self.iterdeath
    }

    pub(crate) fn total_size(&self) -> (n: u64)
        ensures
            n == self.spec_total_size(),
    {
        self.total_size
    }

    pub(crate) fn set_total_size(&mut self, n: u64)
        ensures
            final(self).spec_total_size() == n,
            final(self)@ == old(self)@,
            forall|h: Map<u64, LineView>| old(self).wf(h) ==> #[trigger] final(self).wf(h),
            final(self).spec_head() == old(self).spec_head(),
            final(self).spec_size() == old(self).spec_size(),
            final(self).spec_iterdeath() == old(self).spec_iterdeath(),
    {
        self.total_size = n;
    }

    /// The address of the first line (0 when empty).
    pub closed spec fn spec_head(&self) -> u64 {
        self.head
    }

    pub proof fn lemma_wf(&self, heap: Map<u64, LineView>)
        requires
            self.wf(heap),
        ensures
            linked(self@, heap),
            self.spec_head() == (if self@.len() == 0 { 0 } else { self@[0] }),
            self.spec_size() == self@.len(),
            self@.len() <= u64::MAX,
    {
    }

    /// A list stays well formed in a heap that keeps its lines and their links.
    pub proof fn lemma_wf_same_links(&self, h1: Map<u64, LineView>, h2: Map<u64, LineView>)
        requires
            self.wf(h1),
            forall|i: int|
                0 <= i < self@.len() ==> {
                    &&& h2.dom().contains(#[trigger] self@[i])
                    &&& h2[self@[i]].next == h1[self@[i]].next
                    &&& h2[self@[i]].prev == h1[self@[i]].prev
                },
        ensures
            self.wf(h2),
    {
        let s = self@;
        assert forall|i: int| 0 <= i < s.len() implies (#[trigger] h2[s[i]]).next == next_of(s, i) && h2[s[i]].prev == prev_of(s, i) by {
            assert(h1[s[i]].next == next_of(s, i));
        }
    }

    pub fn new() -> (l: LineList)
        ensures
            l@ == Seq::<u64>::empty(),
            forall|h: Map<u64, LineView>| l.wf(h),
            l.spec_total_size() == 0,
            !l.spec_iterdeath(),
    {
        LineList { head: 0, tail: 0, size: 0, total_size: 0, iterdeath: false, addrs: Ghost(Seq::empty()) }
    }

    /// The address of the line at position `i`, walking from whichever end is
    /// nearer. From the tail the walk takes one step too many, so past the
    /// middle (`i > len / 2`) the line at position `i - 1` comes back.
    pub fn index(&self, heap: &LineHeap, i: u64) -> (r: u64)
        requires
            heap.wf(),
            self.wf(heap@),
            i < self@.len(),
        ensures
            r == (if i <= self@.len() / 2 { self@[i as int] } else { self@[i - 1] }),
    {
        let size = self.size;
        let ghost s = self.addrs@;
        let mut ret: u64 = self.head;
        if i <= size / 2 {
            let mut k: u64 = 0;
            while k < i
                invariant
                    k <= i < size,
                    size == s.len(),
                    linked(s, heap@),
                    heap.wf(),
                    ret == s[k as int],
                decreases i - k,
            {
                ret = Line::get_next_a(heap, ret);
                k = k + 1;
            }
        } else {
            ret = self.tail;
            let mut k: u64 = 0;
            while k < size - i
                invariant
                    0 < i < size,
                    k <= size - i,
                    size == s.len(),
                    linked(s, heap@),
                    heap.wf(),
                    ret == s[size - 1 - k],
                decreases size - i - k,
            {
                ret = Line::get_prev_a(heap, ret);
                k = k + 1;
            }
        }
        ret
    }

    /// Links the detached line at `laddr` into the list so that it ends up at
    /// position `index`.
    pub fn insert(&mut self, heap: &mut LineHeap, laddr: u64, index: u64)
        requires
            old(heap).wf(),
            old(self).wf(old(heap)@),
            old(heap)@.dom().contains(laddr),
            !old(self)@.contains(laddr),
            old(heap)@[laddr].next == 0,
            old(heap)@[laddr].prev == 0,
            index <= old(self)@.len(),
        ensures
            final(heap).wf(),
            final(heap).used() == old(heap).used(),
            final(self).wf(final(heap)@),
            final(self)@ == old(self)@.insert(index as int, laddr),
            relinked(old(heap)@, final(heap)@, final(self)@),
            final(heap)@ == relink(old(heap)@, final(self)@),
            final(self).spec_total_size() == old(self).spec_total_size(),
            final(self).spec_iterdeath() == old(self).spec_iterdeath(),
    {
        self.link_in(heap, laddr, index);
        proof { lemma_relinked_is_relink(old(heap)@, heap@, self@); }
    }

    /// The linking itself, walking from the nearer end to the line before
    /// position `index`.
    #[verifier::spinoff_prover]
    #[verifier::rlimit(40)]
    fn link_in(&mut self, heap: &mut LineHeap, laddr: u64, index: u64)
        requires
            old(heap).wf(),
            old(self).wf(old(heap)@),
            old(heap)@.dom().contains(laddr),
            !old(self)@.contains(laddr),
            old(heap)@[laddr].next == 0,
            old(heap)@[laddr].prev == 0,
            index <= old(self)@.len(),
        ensures
            final(heap).wf(),
            final(heap).used() == old(heap).used(),
            final(self).wf(final(heap)@),
            final(self)@ == old(self)@.insert(index as int, laddr),
            relinked(old(heap)@, final(heap)@, final(self)@),
            final(self).spec_total_size() == old(self).spec_total_size(),
            final(self).spec_iterdeath() == old(self).spec_iterdeath(),
    {
        let ghost s = self.addrs@;
        let ghost h0 = heap@;
        let ghost t = s.insert(index as int, laddr);
        proof {
            heap.lemma_bounded();
            heap.lemma_stored(laddr);
            lemma_distinct_bound(s.push(laddr), heap.used());
            assert(s.push(laddr).no_duplicates()) by {
                assert forall|a: int, b: int| 0 <= a < s.push(laddr).len() && 0 <= b < s.push(laddr).len() && a != b
                    implies s.push(laddr)[a] != s.push(laddr)[b] by {
                    if a < s.len() && b < s.len() {
                    } else if a < s.len() {
                        assert(s.contains(s[a]));
                    } else if b < s.len() {
                        assert(s.contains(s[b]));
                    }
                }
            }
        }
        self.size = self.size + 1;
        self.addrs = Ghost(t);
        assert(t.no_duplicates()) by {
            assert forall|a: int, b: int| 0 <= a < t.len() && 0 <= b < t.len() && a != b implies t[a] != t[b] by {
                if a == index && b != index {
                    let b2 = if b < index { b } else { b - 1 };
                    assert(t[b] == s[b2]);
                    assert(s.contains(s[b2]));
                } else if b == index && a != index {
                    let a2 = if a < index { a } else { a - 1 };
                    assert(t[a] == s[a2]);
                    assert(s.contains(s[a2]));
                } else if a != index && b != index {
                    let a2 = if a < index { a } else { a - 1 };
                    let b2 = if b < index { b } else { b - 1 };
                    assert(t[a] == s[a2]);
                    assert(t[b] == s[b2]);
                }
            }
        }
        if index == 0 {
            if self.head != 0 {
                Line::set_prev_a(heap, self.head, laddr);
                Line::set_next_a(heap, laddr, self.head);
            } else {
                self.tail = laddr;
            }
            self.head = laddr;
            proof {
                assert forall|j: int| 0 <= j < t.len() implies heap@.dom().contains(#[trigger] t[j]) && (#[trigger] heap@[t[j]]).next == next_of(t, j) && heap@[t[j]].prev == prev_of(t, j) by {
                    if j > 0 {
                        assert(t[j] == s[j - 1]);
                        assert(h0[s[j - 1]].next == next_of(s, j - 1));
                        assert(h0[s[j - 1]].prev == prev_of(s, j - 1));
                    }
                }
                assert forall|a: u64| #[trigger] h0.dom().contains(a) && !t.contains(a) implies heap@[a] == h0[a] by {
                    if s.len() > 0 && a == s[0] {
                        assert(t[1] == s[0]);
                    }
                    if a == laddr {
                        assert(t[0] == laddr);
                    }
                }
                assert(heap@.dom() =~= h0.dom());
            }
            return;
        }
        if index == self.size - 1 {
            if self.tail != 0 {
                Line::set_next_a(heap, self.tail, laddr);
                Line::set_prev_a(heap, laddr, self.tail);
            } else {
                self.head = laddr;
            }
            self.tail = laddr;
            proof {
                assert forall|j: int| 0 <= j < t.len() implies heap@.dom().contains(#[trigger] t[j]) && (#[trigger] heap@[t[j]]).next == next_of(t, j) && heap@[t[j]].prev == prev_of(t, j) by {
                    if j < s.len() {
                        assert(t[j] == s[j]);
                        assert(h0[s[j]].next == next_of(s, j));
                        assert(h0[s[j]].prev == prev_of(s, j));
                    }
                }
                assert forall|a: u64| #[trigger] h0.dom().contains(a) && !t.contains(a) implies heap@[a] == h0[a] by {
                    if a == s.last() {
                        assert(t[s.len() - 1] == s.last());
                    }
                    if a == laddr {
                        assert(t[s.len() as int] == laddr);
                    }
                }
                assert(heap@.dom() =~= h0.dom());
            }
            return;
        }
        let size = self.size;
        let mut pline: u64 = self.head;
        if index > (size - 1) / 2 {
            pline = self.tail;
            let mut k: u64 = 0;
            while k < size - index - 1
                invariant
                    0 < index < size - 1,
                    size == s.len() + 1,
                    k <= size - index - 1,
                    linked(s, h0),
                    heap@ == h0,
                    heap.wf(),
                    pline == s[size - 2 - k],
                decreases size - index - 1 - k,
            {
                pline = Line::get_prev_a(heap, pline);
                k = k + 1;
            }
        } else {
            let mut k: u64 = 0;
            while k < index - 1
                invariant
                    0 < index < size - 1,
                    size == s.len() + 1,
                    k <= index - 1,
                    linked(s, h0),
                    heap@ == h0,
                    heap.wf(),
                    pline == s[k as int],
                decreases index - 1 - k,
            {
                pline = Line::get_next_a(heap, pline);
                k = k + 1;
            }
        }
        let nline: u64 = Line::get_next_a(heap, pline);
        assert(pline == s[index - 1]);
        assert(nline == s[index as int]);
        Line::set_next_a(heap, pline, laddr);
        Line::set_next_a(heap, laddr, nline);
        Line::set_prev_a(heap, laddr, pline);
        if nline != 0 {
            Line::set_prev_a(heap, nline, laddr);
        }
        proof {
            assert(s.contains(s[index - 1]));
            assert(s.contains(s[index as int]));
            assert forall|j: int| 0 <= j < t.len() implies heap@.dom().contains(#[trigger] t[j]) && (#[trigger] heap@[t[j]]).next == next_of(t, j) && heap@[t[j]].prev == prev_of(t, j) by {
                if j < index {
                    assert(t[j] == s[j]);
                    assert(h0[s[j]].next == next_of(s, j));
                    assert(h0[s[j]].prev == prev_of(s, j));
                } else if j > index {
                    assert(t[j] == s[j - 1]);
                    assert(h0[s[j - 1]].next == next_of(s, j - 1));
                    assert(h0[s[j - 1]].prev == prev_of(s, j - 1));
                }
            }
            assert forall|a: u64| #[trigger] h0.dom().contains(a) && !t.contains(a) implies heap@[a] == h0[a] by {
                if a == s[index - 1] {
                    assert(t[index - 1] == s[index - 1]);
                }
                if a == s[index as int] {
                    assert(t[index + 1] == s[index as int]);
                }
                if a == laddr {
                    assert(t[index as int] == laddr);
                }
            }
            assert(heap@.dom() =~= h0.dom());
        }
    }

    /// Stores a new line holding the bytes of `s` and links it in at the end.
    fn append_str(&mut self, heap: &mut LineHeap, s: &str)
        requires
            old(heap).wf(),
            old(self).wf(old(heap)@),
            old(heap).used() < u64::MAX,
            old(self).spec_total_size() + s.spec_bytes().len() <= u64::MAX,
        ensures
            final(heap).wf(),
            final(heap).used() == old(heap).used() + 1,
            final(self).wf(final(heap)@),
            final(self)@ == old(self)@.push((old(heap).used() + 1) as u64),
            final(heap)@.dom() == old(heap)@.dom().insert((old(heap).used() + 1) as u64),
            !old(heap)@.dom().contains((old(heap).used() + 1) as u64),
            forall|a: u64|
                #[trigger] old(heap)@.dom().contains(a) && !old(self)@.contains(a) ==> final(heap)@[a] == old(heap)@[a],
            forall|a: u64|
                #[trigger] old(heap)@.dom().contains(a) ==> {
                    &&& final(heap)@[a].text == old(heap)@[a].text
                    &&& final(heap)@[a].cap == old(heap)@[a].cap
                    &&& final(heap)@[a].addr == old(heap)@[a].addr
                },
            ({
                let v = final(heap)@[(old(heap).used() + 1) as u64];
                &&& v.text == s.spec_bytes()
                &&& v.cap == initial_cap(s.spec_bytes().len() as int)
                &&& v.addr == old(heap).used() + 1
            }),
            final(self).spec_total_size() == old(self).spec_total_size() + s.spec_bytes().len(),
            final(self).spec_iterdeath() == old(self).spec_iterdeath(),
    {
        let len: u64 = s.as_bytes().len() as u64;
        let ghost sb = self.addrs@;
        let a = line_to_ptr(heap, Line::from_str(s));
        proof {
            assert(!sb.contains(a)) by {
                if sb.contains(a) {
                    let k = sb.index_of(a);
                    assert(old(heap)@.dom().contains(sb[k]));
                }
            }
            assert forall|k: int| 0 <= k < sb.len() implies (#[trigger] heap@[sb[k]]).next == next_of(sb, k) && heap@[sb[k]].prev == prev_of(sb, k) by {
                assert(old(heap)@.dom().contains(sb[k]));
            }
        }
        let idx = self.size;
        let ghost h1 = heap@;
        self.insert(heap, a, idx);
        self.total_size = self.total_size + len;
        proof {
            assert(sb.insert(idx as int, a) =~= sb.push(a));
            assert(heap@.dom() =~= old(heap)@.dom().insert(a));
            assert(self@.contains(a)) by { assert(self@[idx as int] == a); }
            assert forall|x: u64| #[trigger] old(heap)@.dom().contains(x) implies {
                &&& heap@[x].text == old(heap)@[x].text
                &&& heap@[x].cap == old(heap)@[x].cap
                &&& heap@[x].addr == old(heap)@[x].addr
                &&& (!sb.contains(x) ==> heap@[x] == old(heap)@[x])
            } by {
                assert(h1.dom().contains(x));
                assert(x != a);
                if !sb.contains(x) {
                    assert(!self@.contains(x)) by {
                        if self@.contains(x) {
                            let k = self@.index_of(x);
                            if k < sb.len() {
                                assert(self@[k] == sb[k]);
                            }
                        }
                    }
                }
            }
        }
    }

    /// A list holding one new line per string of `lines`, in order; the lines
    /// are stored in `heap` at fresh, consecutive addresses.
    pub fn from_iter(heap: &mut LineHeap, lines: Vec<String>) -> (l: LineList)
        requires
            old(heap).wf(),
            old(heap).used() + lines@.len() <= u64::MAX,
            byte_total(lines@) <= u64::MAX,
        ensures
            final(heap).wf(),
            final(heap).used() == old(heap).used() + lines@.len(),
            l.wf(final(heap)@),
            l@.len() == lines@.len(),
            forall|i: int| 0 <= i < lines@.len() ==> #[trigger] l@[i] == old(heap).used() + 1 + i,
            forall|i: int|
                0 <= i < lines@.len() ==> {
                    &&& (#[trigger] final(heap)@[l@[i]]).text == encode_utf8(lines@[i]@)
                    &&& final(heap)@[l@[i]].cap == initial_cap(byte_len(lines@[i]) as int)
                    &&& final(heap)@[l@[i]].addr == l@[i]
                },
            final(heap)@.dom() == old(heap)@.dom() + l@.to_set(),
            forall|a: u64| #[trigger] old(heap)@.dom().contains(a) ==> final(heap)@[a] == old(heap)@[a],
            l.spec_total_size() == byte_total(lines@),
            !l.spec_iterdeath(),
    {
        let ghost h0 = heap@;
        let ghost base = heap.used();
        let mut build = LineList::new();
        proof { heap.lemma_bounded(); }
        let n = lines.len();
        let mut i: usize = 0;
        while i < n
            invariant
                n == lines@.len(),
                i <= n,
                base + n <= u64::MAX,
                byte_total(lines@) <= u64::MAX,
                heap.wf(),
                heap.used() == base + i,
                build.wf(heap@),
                build@.len() == i,
                forall|k: int| 0 <= k < i ==> #[trigger] build@[k] == base + 1 + k,
                forall|k: int|
                    0 <= k < i ==> {
                        &&& (#[trigger] heap@[build@[k]]).text == encode_utf8(lines@[k]@)
                        &&& heap@[build@[k]].cap == initial_cap(byte_len(lines@[k]) as int)
                        &&& heap@[build@[k]].addr == build@[k]
                    },
                heap@.dom() == h0.dom() + build@.to_set(),
                forall|a: u64| #[trigger] h0.dom().contains(a) ==> heap@[a] == h0[a],
                forall|a: u64| #[trigger] h0.dom().contains(a) ==> 1 <= a <= base,
                build.spec_total_size() == byte_total(lines@.take(i as int)),
                !build.spec_iterdeath(),
            decreases n - i,
        {
            let s: &str = lines[i].as_str();
            proof {
                assert(lines@.take(i + 1).drop_last() =~= lines@.take(i as int));
                lemma_byte_total_prefix(lines@, i + 1);
            }
            let ghost hb = heap@;
            let ghost sb = build@;
            build.append_str(heap, s);
            proof {
                let sn = build@;
                sb.lemma_push_to_set_commute(sn[i as int]);
                assert(sn == sb.push(sn[i as int]));
                assert(heap@.dom() =~= h0.dom() + sn.to_set());
                assert forall|k: int| 0 <= k < i + 1 implies #[trigger] sn[k] == base + 1 + k by {
                    if k < i {
                        assert(sn[k] == sb[k]);
                    }
                }
                assert forall|a2: u64| #[trigger] h0.dom().contains(a2) implies heap@[a2] == h0[a2] by {
                    assert(hb.dom().contains(a2));
                    assert(!sb.contains(a2)) by {
                        if sb.contains(a2) {
                            let k = sb.index_of(a2);
                            assert(sb[k] == base + 1 + k);
                        }
                    }
                }
                assert forall|k: int| 0 <= k < i + 1 implies {
                    &&& (#[trigger] heap@[sn[k]]).text == encode_utf8(lines@[k]@)
                    &&& heap@[sn[k]].cap == initial_cap(byte_len(lines@[k]) as int)
                    &&& heap@[sn[k]].addr == sn[k]
                } by {
                    if k < i {
                        assert(sn[k] == sb[k]);
                        assert(hb.dom().contains(sb[k]));
                    }
                }
            }
            i = i + 1;
        }
        assert(lines@.take(n as int) =~= lines@);
        build
    }

    /// What dropping the list does to its lines: a list that was handed to an
    /// iterator leaves them alone, a one-line list frees its line, and a
    /// longer list leaves its lines in the heap. An empty list that was not
    /// handed to an iterator cannot be dropped this way.
    pub fn drop(self, heap: &mut LineHeap)
        requires
            old(heap).wf(),
            self.wf(old(heap)@),
            self@.len() > 0 || self.spec_iterdeath(),
        ensures
            final(heap).wf(),
            final(heap).used() == old(heap).used(),
            (!self.spec_iterdeath() && self@.len() == 1) ==> final(heap)@ == old(heap)@.remove(self@[0]),
            (self.spec_iterdeath() || self@.len() != 1) ==> final(heap)@ == old(heap)@,
    {
        if self.iterdeath {
            return;
        }
        if self.size == 1 {
            proof { heap.lemma_stored(self.head); }
            heap.free(self.head);
            proof {
                assert(heap@ =~= old(heap)@.remove(self@[0]));
            }
        }
    }

    /// An iterator over the addresses of the lines, starting at the first.
    pub fn into_iter(self) -> (it: LineIter)
        ensures
            it@ == self.spec_head(),
    {
        let mut me = self;
        me.iterdeath = true;
        LineIter::faddr(me.head)
    }

    /// The number of lines.
    pub closed spec fn spec_size(&self) -> u64 {
        self.size
    }

    /// The number of lines.
    pub fn size(&self) -> (n: u64)
        ensures
            n == self.spec_size(),
            forall|h: Map<u64, LineView>| #[trigger] self.wf(h) ==> n == self@.len(),
    {
        self.size
    }
}

/// Walks a chain of lines by their next links.
pub struct LineIter {
    l: u64,
}

impl View for LineIter {
    type V = u64;

    /// The address that the iterator hands out next (0 when done).
    closed spec fn view(&self) -> u64 {
        self.l
    }
}

impl LineIter {
    /// An iterator that starts at the line at address `l`.
    pub fn faddr(l: u64) -> (it: LineIter)
        ensures
            it@ == l,
    {
        LineIter { l }
    }

    /// The current address, after which the iterator moves to that line's
    /// next line; `None` once it has reached address 0.
    pub fn next(&mut self, heap: &LineHeap) -> (r: Option<u64>)
        requires
            heap.wf(),
            old(self)@ == 0 || heap@.dom().contains(old(self)@),
        ensures
            old(self)@ == 0 ==> r is None && final(self)@ == 0,
            old(self)@ != 0 ==> r == Some(old(self)@) && final(self)@ == heap@[old(self)@].next,
    {
        if self.l == 0 {
            return None;
        }
        let x = self.l;
        self.l = Line::get_next_a(heap, self.l);
        Some(x)
    }
}

/// Following next links from position `j` of a linked chain visits the later
/// positions in order and ends at 0 right after the last one.
pub proof fn lemma_walk_from(s: Seq<u64>, heap: Map<u64, LineView>, j: int, k: nat)
    requires
        next_linked(s, heap),
        !heap.dom().contains(0),
        0 <= j < s.len(),
        j + k <= s.len(),
    ensures
        j + k < s.len() ==> walk(heap, s[j], k) == s[j + k],
        j + k == s.len() ==> walk(heap, s[j], k) == 0,
    decreases k,
{
    if k > 0 {
        assert(heap.dom().contains(s[j]));
        assert(heap[s[j]].next == next_of(s, j));
        if j + 1 < s.len() {
            lemma_walk_from(s, heap, j + 1, (k - 1) as nat);
        } else {
            assert(k == 1);
            assert(walk(heap, 0, 0) == 0);
        }
    }
}

/// Law: iterating a well-formed list from its first line hands out the
/// addresses of the list in order, and then the end (address 0).
pub proof fn lemma_iteration_visits_list(list: LineList, heap: &LineHeap, k: nat)
    requires
        heap.wf(),
        list.wf(heap@),
        k <= list@.len(),
    ensures
        k < list@.len() ==> walk(heap@, list.spec_head(), k) == list@[k as int],
        k == list@.len() ==> walk(heap@, list.spec_head(), k) == 0,
{
    list.lemma_wf(heap@);
    heap.lemma_bounded();
    if list@.len() > 0 {
        lemma_walk_from(list@, heap@, 0, k);
    }
}

/// Law: one more step of a walk moves from the line reached so far to that
/// line's next line, and a walk that has reached 0 (or an address that holds
/// no line) stays at 0. Each call of [`LineIter::next`] is such a step.
pub proof fn lemma_walk_step(heap: Map<u64, LineView>, start: u64, j: nat)
    ensures
        walk(heap, start, j + 1) == ({
            let a = walk(heap, start, j);
            if a == 0 || !heap.dom().contains(a) { 0 } else { heap[a].next }
        }),
    decreases j,
{
    if start != 0 && heap.dom().contains(start) {
        assert(walk(heap, start, j + 1) == walk(heap, heap[start].next, j));
        if j > 0 {
            lemma_walk_step(heap, heap[start].next, (j - 1) as nat);
            assert(walk(heap, start, j) == walk(heap, heap[start].next, (j - 1) as nat));
        }
    } else if j > 0 {
        assert(walk(heap, start, j) == 0);
    }
}

/// Law: a walk from address 0 stays at 0, so an iterator that has handed out
/// its end keeps giving `None`.
pub proof fn lemma_walk_from_end(heap: Map<u64, LineView>, k: nat)
    ensures
        walk(heap, 0, k) == 0,
{
}

/// Law: iterating from the first line of any chain of stored lines (each
/// line's next link naming the one after it, the last line's naming none)
/// hands out the addresses of the chain in order, then the end (address 0)
/// on that and every later call. An empty chain starts at address 0.
pub proof fn lemma_iteration_visits_chain(heap: &LineHeap, chain: Seq<u64>, start: u64, k: nat)
    requires
        heap.wf(),
        next_linked(chain, heap@),
        start == (if chain.len() == 0 { 0 } else { chain[0] }),
    ensures
        k < chain.len() ==> walk(heap@, start, k) == chain[k as int],
        k >= chain.len() ==> walk(heap@, start, k) == 0,
    decreases k,
{
    heap.lemma_bounded();
    if k <= chain.len() {
        if chain.len() > 0 {
            lemma_walk_from(chain, heap@, 0, k);
        }
    } else {
        lemma_iteration_visits_chain(heap, chain, start, (k - 1) as nat);
        lemma_walk_step(heap@, start, (k - 1) as nat);
    }
}

} // verus!
