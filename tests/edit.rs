use limited_input::edit::{blocks_key, process_edit, EditResult, InputConfig, Notification};
use limited_input::filter::CharFilter;

fn run(raw: &str, filter: CharFilter, max_len: Option<usize>, append_only: bool) -> EditResult {
    process_edit(raw, &InputConfig::new(filter, max_len, append_only))
}

#[test]
fn digits_without_limit() {
    let r = run("a1b2c3", CharFilter::AsciiDigit, None, false);
    assert_eq!(r.filtered_value, "123");
    assert!(!r.max_len_reached);
    assert_eq!(r.caret_position, None);
}

#[test]
fn uppercase_under_limit() {
    let r = run("HELLOworld", CharFilter::AsciiUppercase, Some(12), false);
    assert_eq!(r.filtered_value, "HELLO");
    assert!(!r.max_len_reached);
}

#[test]
fn digits_cut_at_limit() {
    let r = run("123456789", CharFilter::AsciiDigit, Some(6), false);
    assert_eq!(r.filtered_value, "123456");
    assert!(r.max_len_reached);
    let n = r.notifications();
    assert_eq!(n.len(), 2);
    assert!(matches!(&n[0], Notification::ValueChanged(v) if v == "123456"));
    assert!(matches!(&n[1], Notification::MaxLengthReached(v) if v == "123456"));
}

#[test]
fn empty_input() {
    for filter in [CharFilter::AsciiDigit, CharFilter::AsciiUppercase, CharFilter::OneOf(vec!['x'])] {
        for max_len in [None, Some(0), Some(1), Some(5)] {
            let r = run("", filter.clone(), max_len, false);
            assert_eq!(r.filtered_value, "");
            assert_eq!(r.max_len_reached, max_len == Some(0));
        }
    }
    let r = run("", CharFilter::AsciiDigit, Some(4), false);
    assert!(!r.max_len_reached);
}

#[test]
fn append_only_caret_at_end() {
    let r = run("12a34", CharFilter::AsciiDigit, Some(10), true);
    assert_eq!(r.filtered_value, "1234");
    assert_eq!(r.caret_position, Some(4));
    assert!(!r.max_len_reached);
    assert!(blocks_key(true, "ArrowLeft"));
    assert!(blocks_key(true, "ArrowRight"));
    assert!(blocks_key(true, "ArrowUp"));
    assert!(blocks_key(true, "ArrowDown"));
}

#[test]
fn keys_pass_when_not_append_only() {
    assert!(!blocks_key(false, "ArrowLeft"));
    assert!(!blocks_key(true, "a"));
    assert!(!blocks_key(true, "Backspace"));
    assert!(!blocks_key(true, "arrowleft"));
}

#[test]
fn kept_characters_pass_filter() {
    let r = run("x9Y8z7 !", CharFilter::AsciiDigit, None, false);
    assert!(r.filtered_value.chars().all(|c| c.is_ascii_digit()));
    let r = run("aBcDeF", CharFilter::AsciiUppercase, None, false);
    assert!(r.filtered_value.chars().all(|c| c.is_ascii_uppercase()));
    assert_eq!(r.filtered_value, "BDF");
}

#[test]
fn length_never_exceeds_limit() {
    for n in 0..12usize {
        let r = run("0a1b2c3d4e5f6g7h8i9", CharFilter::AsciiDigit, Some(n), false);
        assert!(r.filtered_value.chars().count() <= n);
        assert_eq!(r.filtered_value.chars().count(), n.min(10));
        assert_eq!(r.max_len_reached, n <= 10);
    }
}

#[test]
fn editing_twice_changes_nothing() {
    let cfg = InputConfig::new(CharFilter::AsciiDigit, Some(4), false);
    let once = process_edit("a9b8c7d6e5", &cfg);
    let twice = process_edit(&once.filtered_value, &cfg);
    assert_eq!(once.filtered_value, "9876");
    assert_eq!(twice.filtered_value, once.filtered_value);
    assert_eq!(twice.max_len_reached, once.max_len_reached);
}

#[test]
fn order_is_kept() {
    let r = run("3x1y2", CharFilter::AsciiDigit, None, false);
    assert_eq!(r.filtered_value, "312");
    let r = run("zAyBxC", CharFilter::OneOf(vec!['C', 'A', 'B']), Some(2), false);
    assert_eq!(r.filtered_value, "AB");
    assert!(r.max_len_reached);
}

#[test]
fn reached_only_with_limit() {
    let r = run("1234", CharFilter::AsciiDigit, None, false);
    assert!(!r.max_len_reached);
    let r = run("1234", CharFilter::AsciiDigit, Some(4), false);
    assert!(r.max_len_reached);
    let r = run("1234", CharFilter::AsciiDigit, Some(5), false);
    assert!(!r.max_len_reached);
    assert_eq!(r.notifications().len(), 1);
}

#[test]
fn non_ascii_counts_characters() {
    let r = run("äöx1ü", CharFilter::OneOf(vec!['ä', 'ö', 'ü']), Some(3), true);
    assert_eq!(r.filtered_value, "äöü");
    assert_eq!(r.caret_position, Some(3));
    assert!(r.max_len_reached);
}

#[test]
fn zero_limit_keeps_nothing() {
    let r = run("123", CharFilter::AsciiDigit, Some(0), false);
    assert_eq!(r.filtered_value, "");
    assert!(r.max_len_reached);
}

#[test]
fn notification_carries_value() {
    let r = run("ab12", CharFilter::AsciiDigit, Some(3), false);
    let n = r.notifications();
    assert_eq!(n.len(), 1);
    assert!(matches!(&n[0], Notification::ValueChanged(v) if v == "12"));
}
