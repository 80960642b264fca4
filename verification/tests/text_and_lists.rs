use deploykeys_ui::listing::{bytes_equal, bytes_less};
use deploykeys_ui::page_size::{initial_page_size, page_size_presets, validate_page_size, DEFAULT_PAGE_SIZE, MAX_PAGE_SIZE};
use deploykeys_ui::pagination::{
    at_first_page, at_last_page, goto_page, next_page, page_bounds, page_count, previous_page, safe_page, submit_goto,
    total_label,
};
use deploykeys_ui::text::{
    ascii_lower_chars, chars_of, contains_chars, decimal_string, parse_unsigned_chars, replace_str, split_chars,
    str_eq, string_of, to_lowercase, trim,
};

fn s(v: &[char]) -> String {
    v.iter().collect()
}

#[test]
fn trim_strips_unicode_whitespace_on_both_ends() {
    assert_eq!(s(&trim("  hello world \t\n")), "hello world");
    assert_eq!(s(&trim("\u{3000}token\u{a0}")), "token");
    assert_eq!(s(&trim("   ")), "");
    assert_eq!(s(&trim("")), "");
    assert_eq!(s(&trim("a")), "a");
}

#[test]
fn to_lowercase_lowers_unicode() {
    assert_eq!(to_lowercase("HeLLo ÄÖ"), "hello äö");
    assert_eq!(to_lowercase(""), "");
}

#[test]
fn ascii_lower_leaves_other_letters() {
    assert_eq!(s(&ascii_lower_chars(&chars_of("ESCape Ä"))), "escape Ä");
}

#[test]
fn string_of_and_chars_of_round_trip() {
    let v = chars_of("密钥 keys");
    assert_eq!(v.len(), 7);
    assert_eq!(string_of(&v), "密钥 keys");
}

#[test]
fn contains_chars_finds_infixes() {
    assert!(contains_chars(&chars_of("deploy keys"), &chars_of("oy k")));
    assert!(contains_chars(&chars_of("abc"), &chars_of("")));
    assert!(!contains_chars(&chars_of("abc"), &chars_of("abcd")));
    assert!(!contains_chars(&chars_of("abc"), &chars_of("ac")));
}

#[test]
fn str_eq_compares_text() {
    assert!(str_eq("running", "running"));
    assert!(!str_eq("running", "Running"));
}

#[test]
fn decimal_string_writes_numbers() {
    assert_eq!(decimal_string(0), "0");
    assert_eq!(decimal_string(42), "42");
    assert_eq!(decimal_string(18446744073709551615), "18446744073709551615");
}

#[test]
fn parse_unsigned_follows_str_parse() {
    assert_eq!(parse_unsigned_chars(&chars_of("42"), 100), Some(42));
    assert_eq!(parse_unsigned_chars(&chars_of("+7"), 100), Some(7));
    assert_eq!(parse_unsigned_chars(&chars_of("0007"), 100), Some(7));
    assert_eq!(parse_unsigned_chars(&chars_of("101"), 100), None);
    assert_eq!(parse_unsigned_chars(&chars_of(""), 100), None);
    assert_eq!(parse_unsigned_chars(&chars_of("+"), 100), None);
    assert_eq!(parse_unsigned_chars(&chars_of("-1"), 100), None);
    assert_eq!(parse_unsigned_chars(&chars_of("1 2"), 100), None);
}

#[test]
fn replace_str_replaces_every_occurrence() {
    assert_eq!(replace_str("Total {}", "{}", "12"), "Total 12");
    assert_eq!(replace_str("{}{}", "{}", "ab"), "abab");
    assert_eq!(replace_str("none here", "{}", "x"), "none here");
    assert_eq!(replace_str("aaa", "aa", "b"), "ba");
}

#[test]
fn split_chars_keeps_empty_parts() {
    let parts = split_chars(&chars_of("a--b"), '-');
    let texts: Vec<String> = parts.iter().map(|p| s(p)).collect();
    assert_eq!(texts, vec!["a", "", "b"]);
    assert_eq!(split_chars(&chars_of(""), '-').len(), 1);
}

#[test]
fn bytes_order_is_str_order() {
    let pairs = [("a", "b"), ("ab", "a"), ("", "a"), ("Z", "a"), ("é", "z"), ("same", "same")];
    for (x, y) in pairs {
        assert_eq!(bytes_less(x.as_bytes(), y.as_bytes()), x < y, "{x} < {y}");
        assert_eq!(bytes_equal(x.as_bytes(), y.as_bytes()), x == y);
    }
}

#[test]
fn page_size_validation() {
    assert_eq!(validate_page_size(0), None);
    assert_eq!(validate_page_size(1), Some(1));
    assert_eq!(validate_page_size(MAX_PAGE_SIZE), Some(500));
    assert_eq!(validate_page_size(501), None);
    assert_eq!(initial_page_size(0), DEFAULT_PAGE_SIZE);
    assert_eq!(initial_page_size(20), 20);
    assert_eq!(page_size_presets(), vec![5, 10, 20]);
}

#[test]
fn page_count_rounds_up() {
    assert_eq!(page_count(0, 5), 0);
    assert_eq!(page_count(10, 5), 2);
    assert_eq!(page_count(11, 5), 3);
    assert_eq!(page_count(7, 0), 7);
}

#[test]
fn safe_page_clamps_into_range() {
    assert_eq!(safe_page(0, 3), 1);
    assert_eq!(safe_page(9, 3), 3);
    assert_eq!(safe_page(2, 3), 2);
    assert_eq!(safe_page(2, 0), 1);
}

#[test]
fn page_bounds_slice_the_list() {
    assert_eq!(page_bounds(11, 1, 5), (0, 5));
    assert_eq!(page_bounds(11, 3, 5), (10, 11));
    assert_eq!(page_bounds(11, 9, 5), (10, 11));
    assert_eq!(page_bounds(0, 1, 5), (0, 0));
    assert_eq!(page_bounds(3, 2, 0), (1, 2));
}

#[test]
fn pages_partition_every_item_once() {
    // Law: every item lies on exactly one page.
    let total = 23;
    let size = 5;
    let mut seen = vec![0; total];
    for p in 1..=page_count(total, size) {
        let (a, b) = page_bounds(total, p, size);
        for i in a..b {
            seen[i] += 1;
        }
    }
    assert!(seen.iter().all(|&c| c == 1));
}

#[test]
fn pager_moves_and_edges() {
    assert_eq!(previous_page(1, 3), 1);
    assert_eq!(previous_page(3, 3), 2);
    assert_eq!(next_page(1, 3), 2);
    assert_eq!(next_page(3, 3), 3);
    assert_eq!(next_page(7, 3), 3);
    assert!(at_first_page(0, 3));
    assert!(!at_first_page(2, 3));
    assert!(at_last_page(3, 3));
    assert!(at_last_page(1, 0));
    assert!(!at_last_page(2, 3));
}

#[test]
fn goto_page_parses_and_clamps() {
    assert_eq!(goto_page(" 2 ", 5), Some(2));
    assert_eq!(goto_page("99", 5), Some(5));
    assert_eq!(goto_page("0", 5), Some(1));
    assert_eq!(goto_page("+3", 5), Some(3));
    assert_eq!(goto_page("abc", 5), None);
    assert_eq!(goto_page("", 5), None);
    assert_eq!(goto_page("-1", 5), None);
}

#[test]
fn total_label_fills_the_count() {
    assert_eq!(total_label("Total {}", 12), "Total 12");
    assert_eq!(total_label("共 {} 条", 0), "共 0 条");
}

#[test]
fn goto_box_is_emptied_after_submit() {
    assert_eq!(submit_goto(" 3 ", 1, 5), (3, String::new()));
    assert_eq!(submit_goto("99", 1, 5), (5, String::new()));
    assert_eq!(submit_goto("x", 2, 5), (2, String::new()));
}
