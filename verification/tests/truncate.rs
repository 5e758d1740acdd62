use site_gen::truncate::truncate;

#[test]
fn short_text_stays_whole() {
    assert_eq!(truncate("test", 7), "test");
    assert_eq!(truncate("test", 4), "test");
    assert_eq!(truncate("", 0), "");
}

#[test]
fn cuts_at_white_space_on_the_mark() {
    assert_eq!(truncate("test test", 4), "test");
}

#[test]
fn cuts_at_the_nearer_white_space() {
    // white space at 4 only: one step after the mark
    assert_eq!(truncate("test test", 3), "test");
    // one step before the mark
    assert_eq!(truncate("test test", 5), "test");
    // before: 2 away, after: 3 away
    assert_eq!(truncate("ab cdefg hi", 5), "ab");
    // before: 4 away, after: 1 away
    assert_eq!(truncate("ab cdefg hi", 7), "ab cdefg");
}

#[test]
fn earlier_cut_wins_a_tie() {
    // white space at 2 and at 6, the mark at 4
    assert_eq!(truncate("ab cde fg", 4), "ab");
}

#[test]
fn cuts_at_the_mark_without_white_space() {
    assert_eq!(truncate("abcdefgh", 3), "abc");
}

#[test]
fn never_splits_a_character() {
    assert_eq!(truncate("te\u{1F600}t test", 5), "te\u{1F600}t");
    assert_eq!(truncate("te\u{1F600}t test", 3), "te\u{1F600}t");
    assert_eq!(truncate("\u{e9}\u{e9}\u{e9}\u{e9}\u{e9}", 2), "\u{e9}\u{e9}");
}

#[test]
fn agrees_with_truncate_text_on_its_own_examples() {
    let cases = [("test", 7), ("test test", 4), ("test test", 5), ("te\u{1F600}t test", 5)];
    for (text, len) in cases {
        assert_eq!(
            truncate(text, len),
            truncate_string_at_whitespace::truncate_text(text, len)
        );
    }
    let s = "This is a string that I want to truncate";
    assert_eq!(truncate(s, 12), "This is a");
    assert_eq!(truncate(s, 16), "This is a string");
}

#[test]
fn white_space_at_the_start_counts() {
    assert_eq!(truncate(" abcdefgh", 3), "");
    assert_eq!(truncate("\tabc def", 2), "");
}

#[test]
fn any_unicode_white_space_is_a_boundary() {
    assert_eq!(truncate("abc\u{2003}def", 3), "abc");
    assert_eq!(truncate("abcd\u{a0}efgh", 3), "abcd");
    assert_eq!(truncate("ab\ncdefgh", 3), "ab");
}

#[test]
fn zero_length_cuts_at_the_first_white_space_or_at_once() {
    assert_eq!(truncate("abc def", 0), "abc");
    assert_eq!(truncate("abcdef", 0), "");
    assert_eq!(truncate(" abc", 0), "");
}
