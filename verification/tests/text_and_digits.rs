use lotto_scraper::analysis::{
    calculate_digital_root, follow_count, latest_with_root, most_common_root, root_counts,
    top_follower,
};
use lotto_scraper::text::{after_last, contains_sub, is_blank, str_eq, trim_str};

#[test]
fn trim_removes_surrounding_whitespace() {
    assert_eq!(trim_str("  123 456\t\n"), "123 456");
    assert_eq!(trim_str("abc"), "abc");
    assert_eq!(trim_str("   "), "");
    assert_eq!(trim_str(""), "");
    assert_eq!(trim_str(" ลาว "), "ลาว");
}

#[test]
fn blank_detects_whitespace_only_strings() {
    assert!(is_blank("  \t "));
    assert!(is_blank(""));
    assert!(!is_blank(" x "));
}

#[test]
fn contains_finds_substrings() {
    assert!(contains_sub("ผลรางวัลที่ 1 งวดนี้", "รางวัลที่ 1"));
    assert!(!contains_sub("เลขท้าย 2 ตัว", "รางวัลที่ 1"));
    assert!(contains_sub("abc", ""));
    assert!(!contains_sub("ab", "abc"));
    assert!(contains_sub("aaab", "aab"));
}

#[test]
fn after_last_takes_tail_after_separator() {
    assert_eq!(after_last("งวดวันที่ | 01-02-2024", '|'), " 01-02-2024");
    assert_eq!(after_last("a|b|c", '|'), "c");
    assert_eq!(after_last("no separator", '|'), "no separator");
    assert_eq!(after_last("trailing|", '|'), "");
    assert_eq!(after_last("", '|'), "");
}

#[test]
fn str_eq_compares_by_characters() {
    assert!(str_eq("งดออกผล", "งดออกผล"));
    assert!(!str_eq("งดออกผล", "งดออกผล "));
    assert!(!str_eq("a", "b"));
    assert!(str_eq("", ""));
}

#[test]
fn root_counts_tally_each_root() {
    // roots: 123 -> 6, 15 -> 6, 9 -> 9, 18 -> 9, 42 -> 6, "" -> 0
    let numbers: Vec<String> =
        ["123", "15", "9", "18", "42", ""].iter().map(|s| s.to_string()).collect();
    let counts = root_counts(&numbers);
    assert_eq!(counts.len(), 10);
    assert_eq!(counts[6], 3);
    assert_eq!(counts[9], 2);
    assert_eq!(counts[0], 1);
    assert_eq!(counts[1], 0);
}

#[test]
fn most_common_root_prefers_highest_count_then_smallest_root() {
    let counts = vec![0, 2, 5, 1, 0, 5, 0, 0, 0, 3];
    assert_eq!(most_common_root(&counts), 2);
    let all_zero = vec![0; 10];
    assert_eq!(most_common_root(&all_zero), 0);
}

#[test]
fn latest_with_root_searches_from_the_end() {
    let numbers: Vec<String> = ["123", "15", "9", "42"].iter().map(|s| s.to_string()).collect();
    assert_eq!(latest_with_root(&numbers, 6).as_deref(), Some("42"));
    assert_eq!(latest_with_root(&numbers, 9).as_deref(), Some("9"));
    assert_eq!(latest_with_root(&numbers, 4), None);
}

#[test]
fn follow_count_counts_adjacent_pairs() {
    let numbers: Vec<String> =
        ["a", "b", "a", "c", "a", "b", "a"].iter().map(|s| s.to_string()).collect();
    assert_eq!(follow_count(&numbers, "a", "b"), 2);
    assert_eq!(follow_count(&numbers, "a", "c"), 1);
    assert_eq!(follow_count(&numbers, "c", "a"), 1);
    assert_eq!(follow_count(&numbers, "b", "b"), 0);
}

#[test]
fn top_follower_picks_most_frequent_successor() {
    // "a" is the last entry; it is followed by "b" twice and "c" once.
    let numbers: Vec<String> =
        ["a", "b", "a", "c", "a", "b", "a"].iter().map(|s| s.to_string()).collect();
    assert_eq!(top_follower(&numbers).as_deref(), Some("b"));
    // The last entry never occurs earlier: nothing follows it.
    let fresh: Vec<String> = ["x", "y", "z"].iter().map(|s| s.to_string()).collect();
    assert_eq!(top_follower(&fresh), None);
    // Fewer than two entries: nothing follows anything.
    let single: Vec<String> = vec!["x".to_string()];
    assert_eq!(top_follower(&single), None);
}

#[test]
fn digital_root_exact_values() {
    assert_eq!(calculate_digital_root("123"), 6);
    assert_eq!(calculate_digital_root("999"), 9);
    assert_eq!(calculate_digital_root("55"), 1);
    assert_eq!(calculate_digital_root("0"), 0);
    assert_eq!(calculate_digital_root(""), 0);
    assert_eq!(calculate_digital_root("x9y9"), 9);
    assert_eq!(calculate_digital_root("987654321"), 9);
}
