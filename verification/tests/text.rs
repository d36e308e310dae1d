use pax_compiler::table::{position_of, StringTable};
use pax_compiler::text::{
    chars_of, decimal_text, is_text_le, join_texts, repeat_text, replace_text, same_text,
    split_text, text_ends_with,
};

#[test]
fn characters_are_listed() {
    assert_eq!(chars_of("añ"), vec!['a', 'ñ']);
    assert!(chars_of("").is_empty());
}

#[test]
fn texts_are_ordered_by_code_points() {
    assert!(is_text_le("", "a"));
    assert!(is_text_le("a", "ab"));
    assert!(!is_text_le("ab", "a"));
    assert!(is_text_le("Z", "a"));
    assert!(is_text_le("z", "é"));
    assert!(!is_text_le("é", "z"));
    assert!(is_text_le("same", "same"));
}

#[test]
fn equal_texts_are_the_same() {
    assert!(same_text("crate", "crate"));
    assert!(!same_text("crate", "crate::"));
    assert!(!same_text("a", "b"));
}

#[test]
fn texts_are_split_as_std_splits_them() {
    for (s, sep) in [
        ("a::b::c", "::"),
        ("", "::"),
        ("::", "::"),
        (":::", "::"),
        ("::::", "::"),
        ("abc", "::"),
        ("a::", "::"),
        ("aaaa", "aa"),
        ("aaaaa", "aa"),
    ] {
        let expected: Vec<String> = s.split(sep).map(|p| p.to_string()).collect();
        assert_eq!(split_text(s, sep), expected, "{} by {}", s, sep);
    }
}

#[test]
fn joining_undoes_splitting() {
    for s in ["a::b::c", "", "::", ":::", "x"] {
        assert_eq!(join_texts(&split_text(s, "::"), "::"), s);
    }
    assert_eq!(join_texts(&Vec::new(), ","), "");
}

#[test]
fn texts_are_replaced_as_std_replaces_them() {
    for (s, from, to) in [
        ("crate::a::B", "crate::", ""),
        ("mycrate::crate::B", "crate::", ""),
        ("pax-example-app", "-", "_"),
        ("aaa", "aa", "b"),
        ("none", "x", "y"),
        ("", "x", "y"),
    ] {
        assert_eq!(replace_text(s, from, to), s.replace(from, to));
    }
}

#[test]
fn replacing_leaves_nothing_to_replace() {
    let s = replace_text("-a--b-", "-", "_");
    assert_eq!(s, "_a__b_");
    assert!(!s.contains('-'));
}

#[test]
fn ends_are_found() {
    assert!(text_ends_with("x/pax-cartridge/Cargo.toml", "pax-cartridge/Cargo.toml"));
    assert!(!text_ends_with("pax-cartridge/Cargo.tom", "pax-cartridge/Cargo.toml"));
    assert!(!text_ends_with("l", "toml"));
    assert!(text_ends_with("anything", ""));
}

#[test]
fn texts_are_repeated() {
    assert_eq!(repeat_text("    ", 2), "        ");
    assert_eq!(repeat_text("ab", 0), "");
}

#[test]
fn numbers_are_written_in_decimal() {
    for n in [0usize, 7, 10, 99, 100, 12345, usize::MAX] {
        assert_eq!(decimal_text(n), n.to_string());
    }
}

#[test]
fn the_last_value_of_a_key_stands() {
    let mut table: StringTable<u8> = StringTable::new();
    table.insert("b".to_string(), 1);
    table.insert("a".to_string(), 2);
    table.insert("b".to_string(), 3);
    assert_eq!(table.entries, vec![("b".to_string(), 3), ("a".to_string(), 2)]);
    assert_eq!(table.get("b"), Some(&3));
    assert_eq!(table.get("c"), None);
    assert_eq!(table.position("a"), Some(1));
    assert_eq!(position_of(&table.entries, "c"), None);
}
