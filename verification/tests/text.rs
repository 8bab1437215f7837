use cargo_ebuild::text::{chars_of, compare_chars, compare_text, decimal_string, join, same_text, Order};

#[test]
fn chars_of_keeps_every_character() {
    assert_eq!(chars_of("a-ß→z"), vec!['a', '-', 'ß', '→', 'z']);
    assert_eq!(chars_of(""), Vec::<char>::new());
}

#[test]
fn decimal_string_single_digits() {
    assert_eq!(decimal_string(0), "0");
    assert_eq!(decimal_string(1), "1");
    assert_eq!(decimal_string(9), "9");
}

#[test]
fn decimal_string_several_digits() {
    assert_eq!(decimal_string(10), "10");
    assert_eq!(decimal_string(42), "42");
    assert_eq!(decimal_string(100), "100");
    assert_eq!(decimal_string(1234567890), "1234567890");
}

#[test]
fn decimal_string_agrees_with_std_at_the_limit() {
    assert_eq!(decimal_string(usize::MAX), usize::MAX.to_string());
}

#[test]
fn join_of_nothing_is_empty() {
    assert_eq!(join(&Vec::new(), ", "), "");
}

#[test]
fn join_of_one_part_has_no_separator() {
    assert_eq!(join(&vec!["1.2.3".to_string()], " or "), "1.2.3");
}

#[test]
fn join_puts_separator_between_neighbours() {
    let parts = vec!["a".to_string(), "".to_string(), "c".to_string()];
    assert_eq!(join(&parts, "--"), "a----c");
}

#[test]
fn compare_text_orders_by_first_difference() {
    assert_eq!(compare_text("Apache-2.0", "MIT"), Order::Before);
    assert_eq!(compare_text("MIT", "Apache-2.0"), Order::After);
    assert_eq!(compare_text("MIT", "MIT"), Order::Same);
}

#[test]
fn compare_text_puts_a_prefix_first() {
    assert_eq!(compare_text("GPL-2", "GPL-2+"), Order::Before);
    assert_eq!(compare_text("GPL-2+", "GPL-2"), Order::After);
    assert_eq!(compare_text("", "a"), Order::Before);
    assert_eq!(compare_text("", ""), Order::Same);
}

#[test]
fn compare_text_agrees_with_the_order_of_strings() {
    let samples = ["", "a", "B", "ab", "aB", "b", "é", "z", "→", "0BSD", "ZLIB", "openssl"];
    for a in samples {
        for b in samples {
            let expected = if a < b {
                Order::Before
            } else if a == b {
                Order::Same
            } else {
                Order::After
            };
            assert_eq!(compare_text(a, b), expected);
            assert_eq!(compare_chars(&chars_of(a), &chars_of(b)), expected);
        }
    }
}

#[test]
fn same_text_tells_equal_from_different() {
    assert!(same_text("BSD-3-Clause", "BSD-3-Clause"));
    assert!(!same_text("BSD-3-Clause", "BSD-2-Clause"));
    assert!(!same_text("MIT", "MIT "));
    assert!(same_text("", ""));
}
