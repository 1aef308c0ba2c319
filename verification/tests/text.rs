use dmn_tck_runner::text::{
    chars_of, compare_text, has_prefix, join, same_text, split, strip_prefix, to_numeral, Order,
};

#[test]
fn chars_of_keeps_every_character_in_order() {
    assert_eq!(chars_of("aé/"), vec!['a', 'é', '/']);
    assert_eq!(chars_of(""), Vec::<char>::new());
}

#[test]
fn compare_text_orders_lexicographically() {
    assert_eq!(compare_text("a", "b"), Order::Less);
    assert_eq!(compare_text("b", "a"), Order::Greater);
    assert_eq!(compare_text("abc", "abc"), Order::Equal);
    assert_eq!(compare_text("ab", "abc"), Order::Less);
    assert_eq!(compare_text("abc", "ab"), Order::Greater);
    assert_eq!(compare_text("", ""), Order::Equal);
    assert_eq!(compare_text("", "a"), Order::Less);
    assert_eq!(compare_text("B", "a"), Order::Less);
}

#[test]
fn compare_text_agrees_with_the_order_of_str() {
    let samples = ["", "a", "ab", "b", "é", "z", "a/b", "a-b", "日本", "~"];
    for x in samples {
        for y in samples {
            let expected = if x < y {
                Order::Less
            } else if x == y {
                Order::Equal
            } else {
                Order::Greater
            };
            assert_eq!(compare_text(x, y), expected);
        }
    }
}

#[test]
fn same_text_tells_equal_from_different() {
    assert!(same_text("xsd:decimal", "xsd:decimal"));
    assert!(!same_text("xsd:decimal", "xsd:double"));
    assert!(!same_text("a", "ab"));
    assert!(same_text("", ""));
}

#[test]
fn has_prefix_holds_of_prefixes_only() {
    assert!(has_prefix("/r/a", "/r/"));
    assert!(has_prefix("/r/a", ""));
    assert!(has_prefix("/r/", "/r/"));
    assert!(!has_prefix("/r", "/r/"));
    assert!(!has_prefix("/other", "/r/"));
}

#[test]
fn strip_prefix_removes_the_root_or_nothing() {
    assert_eq!(strip_prefix("/r/a", "/r/"), "a");
    assert_eq!(strip_prefix("/other", "/r/"), "/other");
    assert_eq!(strip_prefix("/r/", "/r/"), "");
    assert_eq!(strip_prefix("/r/é/b", "/r/é/"), "b");
}

#[test]
fn join_puts_the_separator_between_neighbours() {
    assert_eq!(join(&vec![], ", "), "");
    assert_eq!(join(&vec!["boom".to_string()], ", "), "boom");
    assert_eq!(join(&vec!["boom".to_string(), "ouch".to_string()], ", "), "boom, ouch");
    assert_eq!(join(&vec!["a".to_string(), "".to_string(), "c".to_string()], "/"), "a//c");
}

#[test]
fn split_gives_one_piece_more_than_separators() {
    assert_eq!(split("a.b.c", '.'), vec!["a", "b", "c"]);
    assert_eq!(split("", '.'), vec![""]);
    assert_eq!(split("a.", '.'), vec!["a", ""]);
    assert_eq!(split(".a", '.'), vec!["", "a"]);
    assert_eq!(split("abc", '.'), vec!["abc"]);
    assert_eq!(split("a..b", '.'), vec!["a", "", "b"]);
}

#[test]
fn to_numeral_writes_decimal_digits() {
    assert_eq!(to_numeral(0), "0");
    assert_eq!(to_numeral(7), "7");
    assert_eq!(to_numeral(10), "10");
    assert_eq!(to_numeral(1234567890), "1234567890");
    assert_eq!(to_numeral(usize::MAX), usize::MAX.to_string());
}
