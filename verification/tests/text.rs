use site_gen::text::{chars_of, compare, compare_chars, join2, join3, string_of, to_decimal, trim, TextOrder};

#[test]
fn chars_and_back() {
    let v = chars_of("a\u{e9}\u{1F600}z");
    assert_eq!(v, vec!['a', '\u{e9}', '\u{1F600}', 'z']);
    assert_eq!(string_of(&v, 0, 4), "a\u{e9}\u{1F600}z");
    assert_eq!(string_of(&v, 1, 3), "\u{e9}\u{1F600}");
    assert_eq!(string_of(&v, 2, 2), "");
}

#[test]
fn trims_white_space_at_both_ends() {
    assert_eq!(trim("  a b \t\n"), "a b");
    assert_eq!(trim("a"), "a");
    assert_eq!(trim(" \u{a0}\u{2003}x\u{3000}"), "x");
    assert_eq!(trim("   "), "");
    assert_eq!(trim(""), "");
}

#[test]
fn writes_numbers_in_decimal() {
    assert_eq!(to_decimal(0), "0");
    assert_eq!(to_decimal(7), "7");
    assert_eq!(to_decimal(10), "10");
    assert_eq!(to_decimal(1234567890), "1234567890");
    assert_eq!(to_decimal(usize::MAX), usize::MAX.to_string());
}

#[test]
fn joins_texts() {
    assert_eq!(join2("ab", "cd"), "abcd");
    assert_eq!(join2("", ""), "");
    assert_eq!(join3("a", "", "c"), "ac");
}

#[test]
fn compares_like_a_dictionary() {
    assert_eq!(compare("a", "b"), TextOrder::Before);
    assert_eq!(compare("b", "a"), TextOrder::After);
    assert_eq!(compare("a", "a"), TextOrder::Same);
    assert_eq!(compare("", ""), TextOrder::Same);
    assert_eq!(compare("", "a"), TextOrder::Before);
    assert_eq!(compare("ab", "a"), TextOrder::After);
    assert_eq!(compare("a", "ab"), TextOrder::Before);
    assert_eq!(compare("Z", "a"), TextOrder::Before);
    assert_eq!(compare("abc", "abd"), TextOrder::Before);
}

#[test]
fn compares_as_strings_do() {
    let words = ["", "a", "ab", "b", "B", "\u{e9}", "z", "\u{1F600}", "\u{ffff}", "a\u{0}"];
    for x in words {
        for y in words {
            let expected = if x < y {
                TextOrder::Before
            } else if x == y {
                TextOrder::Same
            } else {
                TextOrder::After
            };
            assert_eq!(compare(x, y), expected);
            assert_eq!(compare_chars(&chars_of(x), &chars_of(y)), expected);
        }
    }
}
