use remotelink::args::flag_value;
use remotelink::json::{parse_json, Json};
use remotelink::order::{rank_texts, sort, Rank};
use remotelink::paths::{join_path, last_component, parent_path};
use remotelink::platform::Platform;
use remotelink::text::{
    chars_of, compress_white, find_text, lines, lowercase, number, parse_unsigned, string_of, trim,
    trim_prefixes,
};
use remotelink::text_map::TextMap;

fn texts(list: &[&str]) -> Vec<String> {
    list.iter().map(|s| s.to_string()).collect()
}

#[test]
fn json_documents_are_read() {
    let doc = parse_json(
        r#"{"b": [1, -2, 2.5, true, null, "ä"], "a": {"x": 18446744073709551615}}"#.as_bytes(),
    )
    .unwrap();
    let list = doc.member("b").unwrap().list().unwrap();
    assert_eq!(list.len(), 6);
    assert_eq!(list[0].unsigned(), Some(1));
    assert_eq!(list[1].unsigned(), None);
    assert_eq!(list[2].double_bits(), Some(2.5f64.to_bits()));
    assert!(matches!(list[3], Json::Bool(true)));
    assert!(matches!(list[4], Json::Null));
    assert_eq!(list[5].text().map(|s| s.as_str()), Some("ä"));
    assert_eq!(doc.member("a").unwrap().member("x").unwrap().unsigned(), Some(u64::MAX));
    assert!(doc.member("c").is_none());
    assert!(parse_json(b"{").is_err());
    assert!(parse_json(&[0xff]).is_err());
}

#[test]
fn texts_are_sorted_by_their_characters() {
    assert_eq!(
        sort(texts(&["b", "a", "ab", "", "Z", "ä"])),
        texts(&["", "Z", "a", "ab", "b", "ä"])
    );
    assert!(matches!(rank_texts("a", "b"), Rank::Less));
    assert!(matches!(rank_texts("a", "a"), Rank::Same));
    assert!(matches!(rank_texts("b", "ab"), Rank::Greater));
}

#[test]
fn numbers_are_written_and_read() {
    assert_eq!(number(0), "0");
    assert_eq!(number(u64::MAX), "18446744073709551615");
    assert_eq!(parse_unsigned(&chars_of("18446744073709551615"), u64::MAX), Some(u64::MAX));
    assert_eq!(parse_unsigned(&chars_of("18446744073709551616"), u64::MAX), None);
    assert_eq!(parse_unsigned(&chars_of("65536"), 65535), None);
    assert_eq!(parse_unsigned(&chars_of("+7"), 65535), Some(7));
    assert_eq!(parse_unsigned(&chars_of(""), 65535), None);
    assert_eq!(parse_unsigned(&chars_of("-1"), 65535), None);
}

#[test]
fn texts_are_cut_like_std_does() {
    for s in ["", " a ", "\u{3000}x\u{a0}", "a\r\nb\n\nc", "\n", "a\rb", "x\n"] {
        let all = chars_of(s);
        assert_eq!(string_of(trim(&all)), s.trim());
        let cut: Vec<String> = lines(&all).into_iter().map(string_of).collect();
        let expected: Vec<String> = s.lines().map(|l| l.to_string()).collect();
        assert_eq!(cut, expected, "{s:?}");
    }
    assert_eq!(find_text(&chars_of("abcabc"), "ca"), Some(2));
    assert_eq!(find_text(&chars_of("abc"), ""), Some(0));
    assert_eq!(string_of(&lowercase(&chars_of("TrUe"))), "true");
    assert_eq!(string_of(trim_prefixes(&chars_of("././a"), "./")), "a");
    assert_eq!(string_of(&compress_white(&chars_of("a \t b"))), "a b");
}

#[test]
fn paths_are_joined_and_split() {
    for path in ["a/b", "a/./b", "/", "", "a", "a/", "/a", "./a", ".", "a/..", "a\\b"] {
        let expected = std::path::Path::new(path).parent().map(|p| p.to_str().unwrap().to_string());
        assert_eq!(parent_path(Platform::Linux, path), expected, "{path:?}");
        for name in ["b", "/b", "", "b/c", "\\b"] {
            let expected = std::path::Path::new(path).join(name);
            assert_eq!(join_path(Platform::Linux, path, name), expected.to_str().unwrap());
        }
    }
    let join = |base: &str, name: &str| join_path(Platform::Windows, base, name);
    assert_eq!(join("a", "b"), "a\\b");
    assert_eq!(join("a/", "b"), "a/b");
    assert_eq!(join("C:", "b"), "C:b");
    assert_eq!(join("C:\\a", "\\b"), "C:\\b");
    assert_eq!(join("C:\\a", "D:b"), "D:b");
    assert_eq!(join("\\\\srv\\share", "b"), "\\\\srv\\share\\b");
    let parent = |path: &str| parent_path(Platform::Windows, path);
    assert_eq!(parent("C:\\rl\\creds.json"), Some("C:\\rl".to_string()));
    assert_eq!(parent("C:\\creds.json"), Some("C:\\".to_string()));
    assert_eq!(parent("C:creds.json"), Some("C:".to_string()));
    assert_eq!(parent("C:\\"), None);
    assert_eq!(parent("C:"), None);
    assert_eq!(parent("a/b\\c"), Some("a/b".to_string()));
    assert_eq!(parent("\\\\srv\\share\\b"), Some("\\\\srv\\share\\".to_string()));
    assert_eq!(parent("\\\\srv\\share"), None);
    assert_eq!(last_component(Platform::Windows, "C:\\a\\b.rs\\"), "b.rs");
    assert_eq!(last_component(Platform::Linux, "a\\b"), "a\\b");
}

#[test]
fn flags_take_the_next_argument() {
    let a = texts(&["run", "--out", "x", "--out", "y"]);
    assert_eq!(flag_value(&a, "--out"), Some("x".to_string()));
    assert_eq!(flag_value(&a, "--in"), None);
    assert_eq!(flag_value(&texts(&["--out"]), "--out"), None);
}

#[test]
fn maps_keep_their_keys_in_order() {
    let mut m: TextMap<u64> = TextMap::new();
    m.insert("b".into(), 1);
    m.insert("a".into(), 2);
    m.insert("b".into(), 3);
    m.insert_if_absent("a".into(), 9);
    assert_eq!(m.len(), 2);
    assert_eq!(m.entry(0), ("a", 2));
    assert_eq!(m.entry(1), ("b", 3));
    assert_eq!(m.get("c"), None);
    assert!(m.has_other_key("a"));
}
