//! Text, sorting, maps and documents.

use finupdate::json::{parse, Json};
use finupdate::name_map::NameMap;
use finupdate::text;

#[test]
fn texts_are_searched_and_split() {
    assert_eq!(text::find("a:b:c", ":"), Some(1));
    assert_eq!(text::rfind("a:b:c", ":"), Some(3));
    assert_eq!(text::find("äöü", "ü"), Some(2));
    assert_eq!(text::split_once("a:b:c", ":"), Some(("a", "b:c")));
    assert_eq!(text::rsplit_once("a:b:c", ":"), Some(("a:b", "c")));
    assert_eq!(text::split_once("abc", ":"), None);
    assert_eq!(text::split("a//b", '/'), ["a", "", "b"]);
    assert_eq!(text::split("", '/'), [""]);
    assert_eq!(text::strip_prefix("prefix", "pre"), Some("fix"));
    assert_eq!(text::strip_suffix("prefix", "fix"), Some("pre"));
    assert_eq!(text::strip_prefix("prefix", "fix"), None);
    assert_eq!(text::replace("a:b:c", ':', '_'), "a_b_c");
    assert!(text::contains("haystack", "st"));
    assert!(!text::contains("haystack", "needle"));
    assert_eq!(text::slice("größe", 2, 4), "öß");
    assert_eq!(text::len("größe"), 5);
}

#[test]
fn joining_undoes_splitting() {
    for s in ["a/b/c", "", "/", "a//b/", "no separator"] {
        let parts = text::split(s, '/');
        assert_eq!(text::join_from(&parts, 0, "/"), s);
    }
}

#[test]
fn lines_end_with_or_without_a_return() {
    assert_eq!(text::lines("a\r\nb\n\nc"), ["a", "b", "", "c"]);
    assert_eq!(text::lines("a\n"), ["a"]);
    assert!(text::lines("").is_empty());
    assert_eq!(text::trim_matches("\"\"a\"b\"", '"'), "a\"b");
    assert_eq!(text::trim(" \t\u{a0}x y\u{3000}\n"), "x y");
}

#[test]
fn numbers_are_read_and_written() {
    assert_eq!(text::parse_i32("-2147483648"), Some(i32::MIN));
    assert_eq!(text::parse_i32("2147483648"), None);
    assert_eq!(text::parse_i32("+7"), Some(7));
    assert_eq!(text::parse_i32("-"), None);
    assert_eq!(text::parse_i32(""), None);
    assert_eq!(text::parse_i32("7 "), None);
    assert_eq!(text::parse_u32("4294967295"), Some(u32::MAX));
    assert_eq!(text::parse_u32("4294967296"), None);
    assert_eq!(text::parse_u32("-0"), None);
    assert_eq!(text::parse_usize("18446744073709551615"), Some(usize::MAX));
    assert_eq!(text::parse_usize("18446744073709551616"), None);
    let mut s = String::from("n=");
    text::push_decimal(&mut s, u64::MAX);
    assert_eq!(s, "n=18446744073709551615");
    let mut s = String::new();
    text::push_integer(&mut s, i32::MIN);
    text::push_integer(&mut s, 0);
    assert_eq!(s, "-21474836480");
}

#[test]
fn beginnings_are_cut_at_bytes() {
    assert_eq!(text::first_bytes("abcdef", 4), "abcd");
    assert_eq!(text::first_bytes("abc", 4), "abc");
    assert_eq!(text::first_bytes("äöü", 4), "äö");
    assert_eq!(text::first_bytes("äöü", 3), "ä");
    assert_eq!(text::first_bytes("€uro", 3), "€");
    assert_eq!(text::first_bytes("😀x", 4), "😀");
    assert_eq!(text::first_bytes("x", 0), "");
}

#[test]
fn texts_are_sorted_by_their_characters() {
    assert_eq!(text::sort_strs(vec!["b", "a", "", "ab", "B"]), ["", "B", "a", "ab", "b"]);
    assert!(text::str_le("a", "b"));
    assert!(!text::str_le("b", "ab"));
}

#[test]
fn maps_keep_one_value_for_a_name() {
    let mut m: NameMap<u32> = NameMap::new();
    assert!(m.is_empty());
    m.insert("b".to_string(), 1);
    m.insert("a".to_string(), 2);
    m.insert("b".to_string(), 3);
    assert_eq!(m.len(), 2);
    assert_eq!(m.get("b"), Some(&3));
    assert_eq!(m.get("c"), None);
    assert!(m.contains_key("a"));
    assert_eq!(m.keys(), ["a", "b"]);
}

#[test]
fn documents_are_read() {
    let doc = parse(br#"{"a":{"b":["x",1,null,true]},"a2":"t","a3":-1.5e3}"#).unwrap();
    assert_eq!(doc.text_at(&["a2"]), Some("t"));
    assert!(doc.text_at(&["a"]).is_none());
    assert!(doc.at(&["a", "missing"]).is_none());
    match doc.at(&["a", "b"]) {
        Some(Json::List(l)) => {
            assert_eq!(l.len(), 4);
            assert!(matches!(&l[0], Json::Text(s) if s == "x"));
            assert!(matches!(&l[1], Json::Number(n) if n == "1"));
            assert!(matches!(l[2], Json::Null));
            assert!(matches!(l[3], Json::Bool(true)));
        }
        other => panic!("got {other:?}"),
    }
    assert!(parse(b"{").is_none());
    assert!(parse(b"{} x").is_none());
}
