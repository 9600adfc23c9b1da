use linedit::line::{line_to_ptr, Line, LineHeap};

fn text(l: Line) -> String {
    l.to_string()
}

#[test]
fn new_line_is_empty_and_unlinked() {
    let l = Line::new();
    assert_eq!(l.len(), 0);
    assert_eq!(l.cap(), 0);
    assert_eq!(l.get_next(), 0);
    assert_eq!(l.get_prev(), 0);
    assert_eq!(l.get_addr(), 0);
}

#[test]
fn new_with_np_keeps_links() {
    let l = Line::new_with_np(7, 9);
    assert_eq!(l.get_next(), 7);
    assert_eq!(l.get_prev(), 9);
    assert_eq!(l.len(), 0);
}

#[test]
fn from_str_rounds_capacity_up_to_even() {
    let l = Line::from_str("hello");
    assert_eq!(l.len(), 5);
    assert_eq!(l.cap(), 6);
    assert_eq!(l.get_char(0), b'h');
    assert_eq!(l.get_char(4), b'o');
    assert_eq!(l.get_char(5), 0);
    let e = Line::from_str("");
    assert_eq!(e.len(), 0);
    assert_eq!(e.cap(), 0);
}

#[test]
fn from_str_with_np_links_unless_empty() {
    let l = Line::from_str_with_np(3, 4, "ab");
    assert_eq!((l.get_next(), l.get_prev(), l.cap()), (3, 4, 2));
    let e = Line::from_str_with_np(3, 4, "");
    assert_eq!((e.get_next(), e.get_prev()), (0, 0));
}

#[test]
fn push_char_doubles_a_full_line() {
    let mut l = Line::from_str("ab");
    assert_eq!(l.cap(), 2);
    l.push_char(b'c');
    assert_eq!(l.cap(), 4);
    assert_eq!(l.len(), 3);
    l.push_char(b'd');
    assert_eq!(l.cap(), 4);
    assert_eq!(text(l), "abcd");
}

#[test]
fn push_then_pop_gives_the_byte_back() {
    let mut l = Line::from_str("xyz");
    l.push_char(b'!');
    assert_eq!(l.pop_char(), b'!');
    assert_eq!(text(l), "xyz");
}

#[test]
fn pop_char_without_storage_gives_zero() {
    let mut l = Line::new();
    assert_eq!(l.pop_char(), 0);
    assert_eq!(l.len(), 0);
}

#[test]
fn pop_char_shrinks_a_mostly_empty_line() {
    let mut l = Line::from_str("abcdefgh");
    assert_eq!(l.cap(), 8);
    for _ in 0..6 {
        l.pop_char();
    }
    assert_eq!(l.len(), 2);
    assert_eq!(l.cap(), 8);
    assert_eq!(l.pop_char(), b'b');
    assert_eq!(l.len(), 1);
    assert_eq!(l.cap(), 4);
}

#[test]
fn insert_char_into_empty_line_allocates_two() {
    let mut l = Line::new();
    l.insert_char(0, b'q');
    assert_eq!(l.cap(), 2);
    assert_eq!(text(l), "q");
}

#[test]
fn insert_char_past_end_does_nothing() {
    let mut l = Line::from_str("ab");
    l.insert_char(3, b'x');
    assert_eq!(l.len(), 2);
    assert_eq!(l.cap(), 2);
}

#[test]
fn insert_char_grows_full_line_and_keeps_order() {
    let mut l = Line::from_str("ac");
    l.insert_char(1, b'b');
    assert_eq!(l.cap(), 4);
    assert_eq!(text(l), "abc");
}

#[test]
fn insert_then_remove_gives_the_byte_back() {
    let mut l = Line::from_str("hello");
    l.insert_char(2, b'X');
    assert_eq!(l.get_char(2), b'X');
    assert_eq!(l.remove_char(2), b'X');
    assert_eq!(text(l), "hello");
}

#[test]
fn remove_char_past_end_gives_zero() {
    let mut l = Line::from_str("ab");
    assert_eq!(l.remove_char(2), 0);
    assert_eq!(text(l), "ab");
}

#[test]
fn remove_char_shrinks_a_mostly_empty_line() {
    let mut l = Line::from_str("abcdefgh");
    for _ in 0..5 {
        l.pop_char();
    }
    assert_eq!((l.len(), l.cap()), (3, 8));
    assert_eq!(l.remove_char(0), b'a');
    assert_eq!((l.len(), l.cap()), (2, 8));
    assert_eq!(l.remove_char(0), b'b');
    assert_eq!((l.len(), l.cap()), (1, 4));
    assert_eq!(text(l), "c");
}

#[test]
fn set_then_get() {
    let mut l = Line::from_str("abc");
    l.set_char(1, b'Z');
    assert_eq!(l.get_char(1), b'Z');
    l.set_char(9, b'Q');
    assert_eq!(text(l), "aZc");
}

#[test]
fn split_in_the_middle_keeps_the_bytes_before_the_index() {
    let mut l = Line::from_str("hello");
    let n = l.split(2);
    assert_eq!(n.len(), 3);
    assert_eq!(n.cap(), 4);
    assert_eq!(text(n), "llo");
    assert_eq!(l.len(), 2);
    assert_eq!(l.cap(), 6);
    assert_eq!(text(l), "he");
}

#[test]
fn split_is_lossless_at_every_index() {
    for i in 0..8u64 {
        let mut l = Line::from_str("abcde");
        let n = l.split(i);
        assert_eq!(text(l) + &text(n), "abcde");
    }
}

#[test]
fn split_at_zero_moves_everything() {
    let mut l = Line::from_str("hello");
    let n = l.split(0);
    assert_eq!((l.len(), l.cap()), (0, 0));
    assert_eq!(n.cap(), 6);
    assert_eq!(text(n), "hello");
}

#[test]
fn split_at_or_past_end_gives_empty_line() {
    let mut l = Line::from_str("hello");
    let n = l.split(5);
    assert_eq!((n.len(), n.cap()), (0, 0));
    assert_eq!(text(l), "hello");
    let mut e = Line::new();
    let n2 = e.split(0);
    assert_eq!(n2.len(), 0);
}

#[test]
fn substr_reads_a_range() {
    let l = Line::from_str("abcdef");
    assert_eq!(l.substr(1, 4), "bcd");
    assert_eq!(l.substr(2, 2), "");
}

#[test]
fn to_string_reads_each_byte_as_a_character() {
    let l = Line::from_str("é");
    assert_eq!(l.len(), 2);
    assert_eq!(text(l), "\u{c3}\u{a9}");
}

#[test]
fn heap_addresses_count_up_from_one() {
    let mut h = LineHeap::new();
    let a = line_to_ptr(&mut h, Line::from_str("one"));
    let b = line_to_ptr(&mut h, Line::from_str("two"));
    assert_eq!((a, b), (1, 2));
    assert_eq!(h.used_count(), 2);
    assert_eq!(Line::len_a(&h, a), 3);
    assert_eq!(Line::cap_a(&h, b), 4);
    assert_eq!(Line::from_addr(&h, b).get_addr(), 2);
    assert_eq!(Line::to_string_a(&h, a), "one");
    assert_eq!(Line::substr_a(&h, b, 1, 3), "wo");
}

#[test]
fn heap_line_operations_by_address() {
    let mut h = LineHeap::new();
    let a = line_to_ptr(&mut h, Line::from_str("ab"));
    Line::push_char_a(&mut h, a, b'c');
    assert_eq!(Line::cap_a(&h, a), 4);
    Line::insert_char_a(&mut h, a, 0, b'>');
    assert_eq!(Line::to_string_a(&h, a), ">abc");
    assert_eq!(Line::remove_char_a(&mut h, a, 1), b'a');
    assert_eq!(Line::pop_char_a(&mut h, a), b'c');
    Line::set_char_a(&mut h, a, 0, b'<');
    assert_eq!(Line::get_char_a(&h, a, 0), b'<');
    assert_eq!(Line::get_char_a(&h, a, 7), 0);
    assert_eq!(Line::to_string_a(&h, a), "<b");
    Line::set_next_a(&mut h, a, 5);
    Line::set_prev_a(&mut h, a, 6);
    assert_eq!((Line::get_next_a(&h, a), Line::get_prev_a(&h, a)), (5, 6));
}

#[test]
fn split_a_stores_the_new_line() {
    let mut h = LineHeap::new();
    let a = line_to_ptr(&mut h, Line::from_str("hello"));
    let n = Line::split_a(&mut h, a, 1);
    assert_eq!(n, 2);
    assert_eq!(Line::to_string_a(&h, a), "h");
    assert_eq!(Line::to_string_a(&h, n), "ello");
    let b = line_to_ptr(&mut h, Line::from_str("abcde"));
    let m = Line::split_a(&mut h, b, 2);
    assert_eq!(Line::to_string_a(&h, b), "ab");
    assert_eq!(Line::len_a(&h, b), 2);
    assert_eq!(Line::to_string_a(&h, m), "cde");
    assert_eq!(Line::get_next_a(&h, n), 0);
}

#[test]
fn free_unlinks_the_neighbours() {
    let mut h = LineHeap::new();
    let a = line_to_ptr(&mut h, Line::from_str("a"));
    let b = line_to_ptr(&mut h, Line::new_with_np(3, 1));
    let c = line_to_ptr(&mut h, Line::from_str("c"));
    Line::set_next_a(&mut h, a, b);
    Line::set_prev_a(&mut h, c, b);
    h.free(b);
    assert_eq!(Line::get_next_a(&h, a), 0);
    assert_eq!(Line::get_prev_a(&h, c), 0);
    assert_eq!(h.used_count(), 3);
}

#[test]
fn free_of_a_line_that_names_itself_unlinks_only_the_others() {
    let mut h = LineHeap::new();
    let a = line_to_ptr(&mut h, Line::from_str("a"));
    let b = line_to_ptr(&mut h, Line::new_with_np(2, 1));
    Line::set_next_a(&mut h, a, b);
    Line::set_next_a(&mut h, b, b);
    h.free(b);
    assert_eq!(Line::get_next_a(&h, a), 0);
    assert_eq!(Line::to_string_a(&h, a), "a");
    let c = line_to_ptr(&mut h, Line::new_with_np(3, 3));
    h.free(c);
    assert_eq!(h.used_count(), 3);
}

#[test]
fn iter_over_walks_the_bytes() {
    let mut h = LineHeap::new();
    let a = line_to_ptr(&mut h, Line::from_str("hi"));
    let mut it = Line::iter_over(&h, a).into_iter();
    assert_eq!(it.next(), Some(b'h'));
    assert_eq!(it.next(), Some(b'i'));
    assert_eq!(it.next(), None);
    assert_eq!(it.next(), None);
}
