//! Texts and counters.

use arcrelay_protocol::keyed::{decrement_counter, ByteSet, CounterTable};
use arcrelay_protocol::text::{
    byte_len, decimal_text, has_control, hex_bytes, hex_text, holds_text, insert_text, is_all_hex,
    is_blank, sanitize_text, split_text, str_eq, str_less, trim, truncate_utf8,
};

#[test]
fn texts_are_cut_between_characters() {
    assert_eq!(truncate_utf8("héllo".into(), 2), "h");
    assert_eq!(truncate_utf8("héllo".into(), 3), "hé");
    assert_eq!(truncate_utf8("项目".into(), 5), "项");
    assert_eq!(truncate_utf8("short".into(), 99), "short");
    assert_eq!(byte_len("项目"), 6);
}

#[test]
fn control_characters_become_blanks() {
    assert_eq!(sanitize_text("a\nb\u{7f}c".into(), 99), "a b c");
    assert_eq!(sanitize_text("abcdef".into(), 3), "abc");
    let once = sanitize_text("x\ty\u{85}z".into(), 4);
    assert_eq!(sanitize_text(once.clone(), 4), once);
    assert!(has_control("a\0"));
    assert!(!has_control("a b"));
}

#[test]
fn blanks_are_trimmed_as_in_the_standard_library() {
    for text in ["  a b ", "\u{a0}x\u{3000}", "", " \n", "plain"] {
        assert_eq!(trim(text), text.trim());
        assert_eq!(is_blank(text), text.trim().is_empty());
    }
}

#[test]
fn numbers_and_bytes_are_written_out() {
    assert_eq!(hex_text(0xab, 4), "00ab");
    assert_eq!(hex_text(u128::MAX, 32), "f".repeat(32));
    assert_eq!(hex_bytes(&[0, 255, 16]), "00ff10");
    assert_eq!(decimal_text(0), "0");
    assert_eq!(decimal_text(u64::MAX), u64::MAX.to_string());
    assert!(is_all_hex("09afAF"));
    assert!(!is_all_hex("g"));
}

#[test]
fn texts_are_split_and_ordered_by_their_bytes() {
    assert_eq!(split_text("a//b", '/'), vec!["a", "", "b"]);
    assert_eq!(split_text("", '/'), vec![""]);
    for (a, b) in [("a", "b"), ("a", "ab"), ("z", "é"), ("é", "项"), ("Z", "a")] {
        assert_eq!(str_less(a, b), a < b);
        assert_eq!(str_less(b, a), b < a);
        assert!(!str_less(a, a));
    }
    assert!(str_eq("a", "a") && !str_eq("a", "b"));
}

#[test]
fn a_list_of_texts_is_kept_in_order() {
    let mut list = vec![];
    for text in ["b", "a", "c"] {
        insert_text(&mut list, text.into());
    }
    assert_eq!(list, vec!["a", "b", "c"]);
    assert!(holds_text(&list, "b"));
    assert!(!holds_text(&list, "d"));
}

#[test]
fn counters_disappear_at_zero() {
    let mut table = CounterTable::new();
    assert_eq!(table.get(&[1]), 0);
    table.increment(&[1], 5);
    table.increment(&[2], 1);
    decrement_counter(&mut table, &[1], 3);
    assert_eq!(table.get(&[1]), 2);
    decrement_counter(&mut table, &[1], 9);
    decrement_counter(&mut table, &[2], 1);
    assert_eq!(table.get(&[1]), 0);
    assert!(table.is_empty());
}

#[test]
fn a_set_of_keys_holds_each_once() {
    let mut set = ByteSet::new();
    assert!(!set.contains(&[1]));
    assert!(set.insert(&[1]));
    assert!(!set.insert(&[1]));
    assert!(set.contains(&[1]));
    assert_eq!(set.len(), 1);
    assert!(set.remove(&[1]));
    assert!(!set.remove(&[1]));
    assert!(set.is_empty());
}
