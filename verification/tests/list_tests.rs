use linedit::line::{line_to_ptr, Line, LineHeap};
use linedit::list::{LineIter, LineList};

fn strings(v: &[&str]) -> Vec<String> {
    v.iter().map(|s| s.to_string()).collect()
}

fn collect(list: &LineList, heap: &LineHeap) -> Vec<String> {
    let mut it = list.into_iter();
    let mut r = Vec::new();
    while let Some(a) = it.next(heap) {
        r.push(Line::to_string_a(heap, a));
    }
    r
}

#[test]
fn new_list_is_empty() {
    let l = LineList::new();
    assert_eq!(l.size(), 0);
    assert_eq!(l.total_size, 0);
    assert!(!l.iterdeath);
}

#[test]
fn from_iter_keeps_order_and_counts_bytes() {
    let mut h = LineHeap::new();
    let l = LineList::from_iter(&mut h, strings(&["ab", "", "cde"]));
    assert_eq!(l.size(), 3);
    assert_eq!(l.total_size, 5);
    assert_eq!(collect(&l, &h), strings(&["ab", "", "cde"]));
    assert_eq!(l.index(&h, 0), 1);
    assert_eq!(l.index(&h, 1), 2);
}

#[test]
fn index_past_the_middle_gives_the_line_before() {
    let mut h = LineHeap::new();
    let l = LineList::from_iter(&mut h, strings(&["a", "b", "c"]));
    assert_eq!(l.index(&h, 2), 2);
    let l4 = LineList::from_iter(&mut h, strings(&["w", "x", "y", "z"]));
    assert_eq!(l4.index(&h, 2), 6);
    assert_eq!(l4.index(&h, 3), 6);
}

#[test]
fn insert_at_front_middle_and_end() {
    let mut h = LineHeap::new();
    let mut l = LineList::from_iter(&mut h, strings(&["b", "d"]));
    let a = line_to_ptr(&mut h, Line::from_str("a"));
    l.insert(&mut h, a, 0);
    let c = line_to_ptr(&mut h, Line::from_str("c"));
    l.insert(&mut h, c, 2);
    let e = line_to_ptr(&mut h, Line::from_str("e"));
    l.insert(&mut h, e, 4);
    assert_eq!(l.size(), 5);
    assert_eq!(collect(&l, &h), strings(&["a", "b", "c", "d", "e"]));
    assert_eq!(Line::get_prev_a(&h, a), 0);
    assert_eq!(Line::get_next_a(&h, e), 0);
    assert_eq!(Line::get_prev_a(&h, c), 1);
}

#[test]
fn insert_into_empty_list() {
    let mut h = LineHeap::new();
    let mut l = LineList::new();
    let a = line_to_ptr(&mut h, Line::from_str("only"));
    l.insert(&mut h, a, 0);
    assert_eq!(l.size(), 1);
    assert_eq!(collect(&l, &h), strings(&["only"]));
}

#[test]
fn iteration_ends_after_the_last_line() {
    let mut h = LineHeap::new();
    let l = LineList::from_iter(&mut h, strings(&["x", "y"]));
    let mut it = l.into_iter();
    assert_eq!(it.next(&h), Some(1));
    assert_eq!(it.next(&h), Some(2));
    assert_eq!(it.next(&h), None);
    assert_eq!(it.next(&h), None);
    let mut empty = LineIter::faddr(0);
    assert_eq!(empty.next(&h), None);
}

#[test]
fn split_and_insert_as_in_the_sample_session() {
    let mut h = LineHeap::new();
    let mut l = LineList::from_iter(&mut h, strings(&["l1", "l2"]));
    let first = l.index(&h, 0);
    let laddr = Line::split_a(&mut h, first, 1);
    l.insert(&mut h, laddr, 0);
    assert_eq!(collect(&l, &h), strings(&["1", "l", "l2"]));
}

#[test]
fn dropping_a_one_line_list_frees_its_line() {
    let mut h = LineHeap::new();
    let l = LineList::from_iter(&mut h, strings(&["solo"]));
    let keep = LineList::from_iter(&mut h, strings(&["a", "b"]));
    l.drop(&mut h);
    keep.drop(&mut h);
    assert_eq!(h.used_count(), 3);
    assert_eq!(collect(&keep, &h), strings(&["a", "b"]));
    let mut l2 = LineList::from_iter(&mut h, strings(&["x"]));
    l2.iterdeath = true;
    l2.drop(&mut h);
    assert_eq!(Line::to_string_a(&h, 4), "x");
}

#[test]
fn iterating_a_hand_linked_chain_visits_it_in_order_then_ends() {
    let mut h = LineHeap::new();
    let a = line_to_ptr(&mut h, Line::from_str("a"));
    let b = line_to_ptr(&mut h, Line::from_str("b"));
    let c = line_to_ptr(&mut h, Line::from_str("c"));
    Line::set_next_a(&mut h, c, a);
    Line::set_next_a(&mut h, a, b);
    let mut it = LineIter::faddr(c);
    assert_eq!(it.next(&h), Some(c));
    assert_eq!(it.next(&h), Some(a));
    assert_eq!(it.next(&h), Some(b));
    assert_eq!(it.next(&h), None);
    assert_eq!(it.next(&h), None);
    assert_eq!(Line::to_string_a(&h, c), "c");
}
