use kex::table::Table;
use kex::text::{
    decimal, join, pad_right, push_hex, replace_all, same_text, text_between, trim_nul_tail,
};

#[test]
fn numbers_are_written() {
    assert_eq!(decimal(0), "0");
    assert_eq!(decimal(10), "10");
    assert_eq!(decimal(u64::MAX), u64::MAX.to_string());
    for n in [0u64, 9, 10, 15, 16, 255, 4096] {
        let mut out = String::from("0x");
        push_hex(&mut out, n);
        assert_eq!(out, format!("{n:#x}"));
    }
}

#[test]
fn padding_counts_characters() {
    assert_eq!(pad_right("né", 4), "né  ");
    assert_eq!(pad_right("abcd", 4), "abcd");
    assert_eq!(pad_right("abcde", 4), "abcde");
}

#[test]
fn joining_puts_separators_between() {
    let list = |items: &[&str]| items.iter().map(|s| s.to_string()).collect::<Vec<_>>();
    assert_eq!(join(&list(&[]), ", "), "");
    assert_eq!(join(&list(&["a"]), ", "), "a");
    assert_eq!(join(&list(&["a", "b", "c"]), ", "), "a, b, c");
}

#[test]
fn replacing_does_not_overlap() {
    for (s, from, to) in [("aaaa", "aa", "b"), ("abab", "ab", "abab"), ("xyz", "q", "r")] {
        assert_eq!(replace_all(s, from, to), s.replace(from, to));
    }
}

#[test]
fn nul_tail_is_trimmed() {
    assert_eq!(trim_nul_tail("ab\0\0"), "ab");
    assert_eq!(trim_nul_tail("\0a\0"), "\0a");
    assert_eq!(trim_nul_tail("\0"), "");
}

#[test]
fn texts_are_compared_and_cut() {
    assert!(same_text("é", "é"));
    assert!(!same_text("e", "é"));
    assert!(!same_text("a", "ab"));
    assert_eq!(text_between(&vec!['a', 'b', 'c'], 1, 3), "bc");
}

#[test]
fn table_remembers_the_order_of_keys() {
    let mut table: Table<String> = Table::new();
    table.insert("b".into(), "1".into());
    table.insert("a".into(), "2".into());
    table.insert("b".into(), "3".into());
    assert_eq!(table.len(), 2);
    assert_eq!(table.get("b").map(String::as_str), Some("3"));
    assert_eq!(table.entry_at(0).0, "b");
    table.get_mut("a").unwrap().push('!');
    assert_eq!(table.get("a").map(String::as_str), Some("2!"));
    assert_eq!(table.remove("b").as_deref(), Some("3"));
    assert!(!table.contains_key("b"));
    assert_eq!(table.drain_keys(), vec!["a".to_string()]);
    assert!(table.is_empty());
}
