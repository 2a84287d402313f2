use file_matcher::text::{chars_of, contains_chars, find_dot, occurs_at_index, parse_decimal_range};

fn chars(s: &str) -> Vec<char> {
    s.chars().collect()
}

#[test]
fn chars_of_gives_each_character_once() {
    assert_eq!(chars_of(""), Vec::<char>::new());
    assert_eq!(chars_of("a.b"), vec!['a', '.', 'b']);
    assert_eq!(chars_of("d\u{00e9}j\u{00e0}"), vec!['d', '\u{00e9}', 'j', '\u{00e0}']);
    assert_eq!(chars_of("\u{1f600}1"), vec!['\u{1f600}', '1']);
}

#[test]
fn occurs_at_index_compares_in_place() {
    let hay = chars("abcabc");
    assert!(occurs_at_index(&hay, &chars("abc"), 0));
    assert!(occurs_at_index(&hay, &chars("abc"), 3));
    assert!(!occurs_at_index(&hay, &chars("abc"), 1));
    assert!(!occurs_at_index(&hay, &chars("abc"), 4));
    assert!(!occurs_at_index(&hay, &chars("abc"), 100));
    assert!(occurs_at_index(&hay, &chars(""), 6));
    assert!(!occurs_at_index(&hay, &chars(""), 7));
    assert!(!occurs_at_index(&hay, &chars("abcabca"), 0));
    assert!(!occurs_at_index(&hay, &chars("x"), usize::MAX));
}

#[test]
fn contains_chars_finds_a_part_anywhere() {
    let hay = chars("iot_reward_share.17.csv");
    assert!(contains_chars(&hay, &chars("iot")));
    assert!(contains_chars(&hay, &chars("share.17")));
    assert!(contains_chars(&hay, &chars(".csv")));
    assert!(contains_chars(&hay, &chars("v")));
    assert!(contains_chars(&hay, &chars("")));
    assert!(contains_chars(&hay, &hay));
    assert!(!contains_chars(&hay, &chars("rewards")));
    assert!(!contains_chars(&hay, &chars("csvv")));
    assert!(!contains_chars(&hay, &chars("iot_reward_share.17.csv.")));
    assert!(contains_chars(&chars(""), &chars("")));
    assert!(!contains_chars(&chars(""), &chars("a")));
    assert!(contains_chars(&chars("aab"), &chars("ab")));
}

#[test]
fn find_dot_stops_at_the_first_period() {
    let s = chars("ab.cd.e");
    assert_eq!(find_dot(&s, 0), 2);
    assert_eq!(find_dot(&s, 2), 2);
    assert_eq!(find_dot(&s, 3), 5);
    assert_eq!(find_dot(&s, 6), 7);
    assert_eq!(find_dot(&s, 7), 7);
    assert_eq!(find_dot(&chars(""), 0), 0);
    assert_eq!(find_dot(&chars("abc"), 0), 3);
}

#[test]
fn parse_decimal_range_reads_digits_only() {
    let s = chars("x.0012.+5.-5..18446744073709551615.18446744073709551616");
    assert_eq!(parse_decimal_range(&s, 2, 6), Some(12));
    assert_eq!(parse_decimal_range(&s, 4, 6), Some(12));
    assert_eq!(parse_decimal_range(&s, 2, 4), Some(0));
    assert_eq!(parse_decimal_range(&s, 5, 6), Some(2));
    assert_eq!(parse_decimal_range(&s, 3, 3), None);
    assert_eq!(parse_decimal_range(&s, 1, 6), None);
    assert_eq!(parse_decimal_range(&s, 2, 7), None);
    assert_eq!(parse_decimal_range(&s, 7, 9), None);
    assert_eq!(parse_decimal_range(&s, 8, 9), Some(5));
    assert_eq!(parse_decimal_range(&s, 10, 12), None);
    assert_eq!(parse_decimal_range(&s, 14, 34), Some(u64::MAX));
    assert_eq!(parse_decimal_range(&s, 35, 55), None);
    assert_eq!(parse_decimal_range(&s, 35, 54), Some(1844674407370955161));
}
