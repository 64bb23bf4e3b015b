use construction_os::ids::{allocate_id, id_timestamp, parse_u64, DraftKind};
use construction_os::text::{
    clean_fenced_text, remove_all_str, str_contains_ci, str_eq, str_le, strip_data_uri, trim_str,
};

#[test]
fn allocated_ids_carry_tag_and_seconds() {
    assert_eq!(allocate_id(DraftKind::Invoice, 100), "INV-100");
    assert_eq!(allocate_id(DraftKind::Task, 0), "TSK-0");
    assert_eq!(allocate_id(DraftKind::Contact, 1700000000), "CON-1700000000");
    assert_eq!(allocate_id(DraftKind::Expense, 987654321), "EXP-987654321");
}

#[test]
fn ids_of_one_kind_allocated_within_one_second_collide() {
    // Uniqueness is deliberately not promised within a second: the store's
    // primary key surfaces such a collision instead.
    assert_eq!(
        allocate_id(DraftKind::Invoice, 77),
        allocate_id(DraftKind::Invoice, 77)
    );
}

#[test]
fn id_timestamp_recovers_allocation_time() {
    for kind in [
        DraftKind::Invoice,
        DraftKind::Task,
        DraftKind::Contact,
        DraftKind::Expense,
    ] {
        let id = allocate_id(kind, 1712345678);
        assert_eq!(id_timestamp(&id), 1712345678);
    }
}

#[test]
fn id_timestamp_is_non_decreasing_in_time() {
    let a = id_timestamp(&allocate_id(DraftKind::Invoice, 5));
    let b = id_timestamp(&allocate_id(DraftKind::Expense, 5));
    let c = id_timestamp(&allocate_id(DraftKind::Task, 9));
    assert!(a <= b && b <= c);
}

#[test]
fn id_timestamp_defaults_to_zero_when_unparsable() {
    assert_eq!(id_timestamp("junk"), 0);
    assert_eq!(id_timestamp("INV-"), 0);
    assert_eq!(id_timestamp("INV-12ab"), 0);
    assert_eq!(id_timestamp("INV-18446744073709551616"), 0);
    assert_eq!(id_timestamp(""), 0);
}

#[test]
fn id_timestamp_reads_between_the_first_dashes() {
    assert_eq!(id_timestamp("INV-100-2"), 100);
    assert_eq!(id_timestamp("INV-18446744073709551615"), u64::MAX);
}

#[test]
fn parse_u64_accepts_exactly_fitting_digit_runs() {
    assert_eq!(parse_u64("0"), Some(0));
    assert_eq!(parse_u64("18446744073709551615"), Some(u64::MAX));
    assert_eq!(parse_u64("18446744073709551616"), None);
    assert_eq!(parse_u64(""), None);
    assert_eq!(parse_u64("12x"), None);
}

#[test]
fn fenced_code_markers_are_removed_and_ends_trimmed() {
    assert_eq!(
        clean_fenced_text("```json\n{\"intent\":\"TASK\"}\n```"),
        "{\"intent\":\"TASK\"}"
    );
    assert_eq!(clean_fenced_text("  {\"a\":1} "), "{\"a\":1}");
    assert_eq!(clean_fenced_text(""), "");
}

#[test]
fn remove_all_scans_left_to_right_without_overlap() {
    assert_eq!(remove_all_str("abab", "ab"), "");
    assert_eq!(remove_all_str("aabb", "ab"), "ab");
    assert_eq!(remove_all_str("hello", "xyz"), "hello");
    assert_eq!(remove_all_str("hello", ""), "hello");
}

#[test]
fn trim_removes_whitespace_from_both_ends_only() {
    assert_eq!(trim_str(" \t\r\n a b \n"), "a b");
    assert_eq!(trim_str(""), "");
    assert_eq!(trim_str("   "), "");
}

#[test]
fn data_uri_prefix_is_stripped_at_the_first_comma() {
    assert_eq!(strip_data_uri("data:image/jpeg;base64,QUJD"), "QUJD");
    assert_eq!(strip_data_uri("QUJD"), "QUJD");
    assert_eq!(strip_data_uri("a,b,c"), "b,c");
}

#[test]
fn substring_search_ignores_ascii_case() {
    assert!(str_contains_ci("Mike's Concrete", "mike"));
    assert!(str_contains_ci("mike", "MIKE"));
    assert!(str_contains_ci("anything", ""));
    assert!(!str_contains_ci("Bob", "Mike"));
    assert!(!str_contains_ci("ab", "abc"));
}

#[test]
fn string_comparison_is_lexicographic() {
    assert!(str_le("Alice", "Bob"));
    assert!(!str_le("Bob", "Alice"));
    assert!(str_le("Ann", "Ann"));
    assert!(str_le("An", "Ann"));
    assert!(str_le("", "A"));
    assert!(str_eq("same", "same"));
    assert!(!str_eq("same", "Same"));
}
