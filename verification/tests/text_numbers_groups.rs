use ledger_ui::groups::{counts_by_key, group_by_key, group_by_key_ranked, indices_where, stable_order_by_int, stable_order_by_text};
use ledger_ui::numtext::{count_to_string, int_to_string, padded_to_string, parse_i32, parse_i64};
use ledger_ui::text::{before_first, byte_prefix, contains, contains_char, folded_contains, non_empty, split_on, starts_with, str_eq, str_less, text_or};

fn strings(v: &[&str]) -> Vec<String> {
    v.iter().map(|s| s.to_string()).collect()
}

#[test]
fn split_on_keeps_empty_pieces() {
    assert_eq!(split_on("a,b,,c", ','), strings(&["a", "b", "", "c"]));
    assert_eq!(split_on("", ','), strings(&[""]));
    assert_eq!(split_on("abc", ','), strings(&["abc"]));
}

#[test]
fn split_then_join_gives_the_text_back() {
    for s in ["2024-01-15", "--", "", "a-b-c-", "без-тире"] {
        assert_eq!(split_on(s, '-').join("-"), s);
    }
}

#[test]
fn before_first_cuts_at_the_separator() {
    assert_eq!(before_first("2024-01-15T10:00:00", 'T'), "2024-01-15");
    assert_eq!(before_first("2024-01-15", 'T'), "2024-01-15");
    assert_eq!(before_first("T", 'T'), "");
}

#[test]
fn prefixes_and_substrings() {
    assert!(starts_with("?edit=5", "?edit="));
    assert!(!starts_with("?e", "?edit="));
    assert!(contains("Материали", "риал"));
    assert!(!contains("abc", "abd"));
    assert!(contains("abc", ""));
    assert!(contains_char("user@example.com", '@'));
    assert!(!contains_char("userexample.com", '@'));
    assert!(str_eq("ДДС", "ДДС"));
    assert!(!str_eq("ДДС", "ддс"));
    assert_eq!(ledger_ui::text::concat("a", "б"), "aб");
}

#[test]
fn case_folded_search_lowercases_the_field() {
    assert!(folded_contains("ACME Ltd", "acme"));
    assert!(folded_contains("ФИРМА ООД", "фирма"));
    assert!(!folded_contains("ACME Ltd", "ACME"));
}

#[test]
fn text_order_is_the_order_of_str() {
    let samples = ["", "a", "b", "ab", "2024-01-15", "2024-01-16", "Я", "я", "z"];
    for a in samples {
        for b in samples {
            assert_eq!(str_less(a, b), a < b, "{} < {}", a, b);
        }
    }
}

#[test]
fn byte_prefix_takes_whole_bytes() {
    assert_eq!(byte_prefix("2024-03-15", 7), Some("2024-03".to_string()));
    assert_eq!(byte_prefix("2024", 7), None);
    assert_eq!(byte_prefix("abc", 3), Some("abc".to_string()));
}

#[test]
fn optional_text_helpers() {
    assert_eq!(text_or(&Some("x".to_string()), "-"), "x");
    assert_eq!(text_or(&None, "-"), "-");
    assert_eq!(non_empty(""), None);
    assert_eq!(non_empty("a"), Some("a".to_string()));
}

#[test]
fn parsing_integers_like_from_str() {
    assert_eq!(parse_i64("42"), Some(42));
    assert_eq!(parse_i64("+42"), Some(42));
    assert_eq!(parse_i64("-7"), Some(-7));
    assert_eq!(parse_i64("-"), None);
    assert_eq!(parse_i64(""), None);
    assert_eq!(parse_i64("1 2"), None);
    assert_eq!(parse_i64("9223372036854775807"), Some(i64::MAX));
    assert_eq!(parse_i64("-9223372036854775808"), Some(i64::MIN));
    assert_eq!(parse_i64("9223372036854775808"), None);
    assert_eq!(parse_i32("2147483647"), Some(i32::MAX));
    assert_eq!(parse_i32("2147483648"), None);
    assert_eq!(parse_i32("abc"), None);
}

#[test]
fn writing_integers_like_to_string_and_format() {
    assert_eq!(int_to_string(0), "0");
    assert_eq!(int_to_string(-120), "-120");
    assert_eq!(int_to_string(i64::MIN), i64::MIN.to_string());
    assert_eq!(count_to_string(0), "0");
    assert_eq!(count_to_string(1234), "1234");
    assert_eq!(padded_to_string(5, 2), format!("{:02}", 5));
    assert_eq!(padded_to_string(12, 2), "12");
    assert_eq!(padded_to_string(-5, 3), format!("{:03}", -5));
    assert_eq!(padded_to_string(2024, 4), "2024");
    assert_eq!(padded_to_string(7, 4), "0007");
}

#[test]
fn written_integers_read_back() {
    for n in [i64::MIN, -1, 0, 1, 99, i64::MAX] {
        assert_eq!(parse_i64(&int_to_string(n)), Some(n));
    }
}

#[test]
fn grouping_by_key_in_first_occurrence_order() {
    let (groups, owner) = group_by_key(&strings(&["b", "a", "b", "c", "a"]));
    assert_eq!(groups, vec![vec![0, 2], vec![1, 4], vec![3]]);
    assert_eq!(owner, vec![0, 1, 0, 2, 1]);
    let (none, no_owner) = group_by_key(&Vec::new());
    assert!(none.is_empty() && no_owner.is_empty());
}

#[test]
fn ranked_grouping_orders_groups_by_rank_then_first_occurrence() {
    let keys = strings(&["20", "x", "3", "20", "y"]);
    let ranks = vec![20, 999, 3, 20, 999];
    let (groups, owner) = group_by_key_ranked(&keys, &ranks);
    assert_eq!(groups, vec![vec![2], vec![0, 3], vec![1], vec![4]]);
    assert_eq!(owner, vec![1, 2, 0, 1, 3]);
}

#[test]
fn stable_orders() {
    assert_eq!(stable_order_by_int(&vec![3, 1, 3, 0]), vec![3, 1, 0, 2]);
    assert_eq!(stable_order_by_text(&strings(&["b", "a", "b", ""])), vec![3, 1, 0, 2]);
}

#[test]
fn counting_by_key() {
    let (counts, owner) = counts_by_key(&strings(&["draft", "posted", "draft"]));
    let pairs: Vec<(String, usize)> = counts.into_iter().map(|kc| (kc.key, kc.count)).collect();
    assert_eq!(pairs, vec![("draft".to_string(), 2), ("posted".to_string(), 1)]);
    assert_eq!(owner, vec![0, 1, 0]);
}

#[test]
fn selecting_flagged_indices() {
    assert_eq!(indices_where(&vec![true, false, true, true]), vec![0, 2, 3]);
    assert!(indices_where(&vec![false, false]).is_empty());
}
