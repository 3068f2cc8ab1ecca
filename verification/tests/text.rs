use std::collections::BTreeMap;
use svitlo_store::name_map::NameMap;
use svitlo_store::text::{
    decimal_text, first_line, join_path, rank, same_text, text_after, to_chars, trim,
    trim_end_slashes, white_space, Rank,
};

#[test]
fn white_space_is_that_of_unicode() {
    for c in '\0'..=char::MAX {
        assert_eq!(white_space(c), c.is_whitespace(), "{:?}", c);
    }
}

#[test]
fn trim_removes_white_space_at_both_ends() {
    for s in ["", " ", "a", " a", "a ", "\t\u{a0} a b \r\n\u{3000}", "\u{2003}", "б в", " \u{200b} "] {
        assert_eq!(trim(s), s.trim());
    }
}

#[test]
fn trim_end_slashes_removes_slashes_at_the_end_only() {
    for s in ["", "/", "//", "a", "a/", "a//", "/a/b//", "https://cache.svitlolinux.org/"] {
        assert_eq!(trim_end_slashes(s), s.trim_end_matches('/'));
    }
}

#[test]
fn first_line_ends_before_the_line_feed() {
    assert_eq!(first_line(""), "");
    assert_eq!(first_line("\nb"), "");
    assert_eq!(first_line("a"), "a");
    assert_eq!(first_line("a\nb\nc"), "a");
    assert_eq!(first_line("я\r\nb"), "я\r");
}

#[test]
fn text_after_takes_the_first_occurrence() {
    assert_eq!(text_after("a-b-c-b-d", "-b-"), Some("c-b-d"));
    assert_eq!(text_after("-b-", "-b-"), Some(""));
    assert_eq!(text_after("abc", ""), Some("abc"));
    assert_eq!(text_after("", ""), Some(""));
    assert_eq!(text_after("ab", "abc"), None);
    assert_eq!(text_after("xyz", "-b-"), None);
    assert_eq!(text_after("жжж-ы-1", "-ы-"), Some("1"));
    assert_eq!(text_after("aab", "ab"), Some(""));
}

#[test]
fn rank_orders_as_strings_are_ordered() {
    let texts = ["", "a", "aa", "ab", "b", "B", "-", "wget", "wget2", "я", "\u{ffff}", "\u{10000}"];
    for a in texts {
        for b in texts {
            let expected = if a < b {
                Rank::Before
            } else if a == b {
                Rank::Same
            } else {
                Rank::After
            };
            assert_eq!(rank(a, b), expected);
            assert_eq!(same_text(a, b), a == b);
        }
    }
}

#[test]
fn to_chars_keeps_the_characters() {
    assert_eq!(to_chars("aя\u{10000}"), vec!['a', 'я', '\u{10000}']);
    assert!(to_chars("").is_empty());
}

#[test]
fn join_path_joins_as_paths_do() {
    for base in ["", "/", "/var", "/var/", "var"] {
        for part in ["", "x", "/x", "x/", "0.3", "../y"] {
            let expected = std::path::Path::new(base).join(part);
            assert_eq!(join_path(base, part), expected.to_str().unwrap());
        }
    }
}

#[test]
fn decimal_text_writes_numbers() {
    for n in [0, 7, 9, 10, 101, 2026, -1, -10, i32::MAX, i32::MIN] {
        assert_eq!(decimal_text(n), format!("{}", n));
    }
}

#[test]
fn name_map_walks_in_ascending_order() {
    let mut expected: BTreeMap<String, usize> = BTreeMap::new();
    let mut map: NameMap<usize> = NameMap::new();
    assert!(map.is_empty());
    let names = ["wget", "b", "a", "wget", "Ж", "", "ab", "b", "zlib", "a-b", "a.b"];
    for (i, name) in names.iter().enumerate() {
        expected.insert(name.to_string(), i);
        map.insert(name.to_string(), i);
        assert_eq!(map.len(), expected.len());
    }
    assert!(!map.is_empty());
    let walked: Vec<(String, usize)> =
        (0..map.len()).map(|i| (map.name_at(i).clone(), *map.value_at(i))).collect();
    let wanted: Vec<(String, usize)> = expected.iter().map(|(k, v)| (k.clone(), *v)).collect();
    assert_eq!(walked, wanted);
    for name in names {
        assert_eq!(map.get(name), expected.get(name));
        assert!(map.contains_key(name));
    }
    assert_eq!(map.get("curl"), None);
    assert!(!map.contains_key("wge"));
    let copy = map.clone();
    assert_eq!(copy.len(), map.len());
    assert_eq!(copy.get("a-b"), map.get("a-b"));
}
