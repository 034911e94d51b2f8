//! Text, numbers, paths, ordering and maps, held against the standard library.

use std::path::Path;

use toolu_runner::backoff;
use toolu_runner::hex;
use toolu_runner::number;
use toolu_runner::order;
use toolu_runner::path;
use toolu_runner::strmap::{copy_map, StringMap};
use toolu_runner::text;

const PATHS: [&str; 22] = [
    "", "/", ".", "..", "a", "a/", "a//", "a/b", "a/b/", "a//b", "./a", "a/./b", "a/.", "a/..", "/a", "/a/b",
    "//a//b//", "/.", "/..", "a/b.c", "a/.hidden", "é/ü.tar.gz",
];

#[test]
fn trim_agrees_with_std() {
    for s in ["", " ", "  a b \t\n", "\u{a0}x\u{2003}", "a", "\u{200b}a\u{200b}", "\u{85}é\u{3000}"] {
        assert_eq!(text::trim(s), s.trim());
    }
}

#[test]
fn trim_end_char_removes_every_trailing_occurrence() {
    assert_eq!(text::trim_end_char("a//", '/'), "a");
    assert_eq!(text::trim_end_char("///", '/'), "");
    assert_eq!(text::trim_end_char("/a", '/'), "/a");
}

#[test]
fn prefixes_and_suffixes_agree_with_std() {
    for s in ["", "a", "ab", "abc", "éa", "aé"] {
        for p in ["", "a", "ab", "b", "é", "abcd"] {
            assert_eq!(text::begins_with(s, p), s.starts_with(p));
            assert_eq!(text::finishes_with(s, p), s.ends_with(p));
            assert_eq!(text::after_prefix(s, p), s.strip_prefix(p));
            assert_eq!(text::before_suffix(s, p), s.strip_suffix(p));
            assert_eq!(text::contains_text(s, p), s.contains(p));
        }
    }
}

#[test]
fn split_agrees_with_std_and_join_undoes_it() {
    for s in ["", ".", "a.b", "..a..", "steps.x.outputs.y", "é.ü"] {
        let parts = text::split_char(s, '.');
        let expected: Vec<&str> = s.split('.').collect();
        assert_eq!(parts, expected);
        assert_eq!(text::join(&parts, "."), s);
    }
}

#[test]
fn before_text_takes_what_precedes_the_needle() {
    assert_eq!(text::before_text("abc; pass --url x", "; pass --url"), "abc");
    assert_eq!(text::before_text("abc", "; pass --url"), "abc");
}

#[test]
fn lower_case_is_ascii_only() {
    for s in ["", "GitHub.COM", "ÄÖÜ", "aZ09"] {
        assert_eq!(text::to_lower(s), s.to_ascii_lowercase());
        assert!(text::same_ignoring_case(s, &s.to_ascii_uppercase()));
    }
    assert!(!text::same_ignoring_case("ä", "Ä"));
}

#[test]
fn numbers_agree_with_std() {
    for n in [0u64, 1, 9, 10, 123_456, u64::MAX] {
        assert_eq!(number::show_u64(n), n.to_string());
        assert_eq!(number::parse_u64(&n.to_string()), Some(n));
    }
    for n in [0i64, -1, 42, i64::MIN, i64::MAX] {
        assert_eq!(number::show_i64(n), n.to_string());
        assert_eq!(number::parse_i64(&n.to_string()), Some(n));
    }
    assert_eq!(number::show_usize(7), "7");
    for s in ["", "+", "-", "+5", "-0", "-5", " 5", "5 ", "0x1", "18446744073709551616", "007", "9223372036854775808"] {
        assert_eq!(number::parse_u64(s), s.parse::<u64>().ok(), "{s}");
        assert_eq!(number::parse_i64(s), s.parse::<i64>().ok(), "{s}");
    }
}

#[test]
fn digits_alone_are_a_numeral() {
    assert_eq!(number::parse_digits("0042"), Some(42));
    assert_eq!(number::parse_digits("+42"), None);
    assert_eq!(number::parse_digits(""), None);
    assert_eq!(number::parse_digits("18446744073709551616"), None);
}

#[test]
fn components_agree_with_std() {
    for p in PATHS {
        let expected: Vec<String> =
            Path::new(p).components().map(|c| c.as_os_str().to_string_lossy().into_owned()).collect();
        assert_eq!(path::components_of(p), expected, "{p}");
    }
}

#[test]
fn path_parts_agree_with_std() {
    for p in PATHS {
        let std_path = Path::new(p);
        assert_eq!(path::is_absolute(p), std_path.is_absolute(), "{p}");
        assert_eq!(path::parent_of(p), std_path.parent().and_then(|x| x.to_str()), "{p}");
        assert_eq!(path::file_name_of(p), std_path.file_name().and_then(|x| x.to_str()), "{p}");
        assert_eq!(path::extension_of(p), std_path.extension().and_then(|x| x.to_str()), "{p}");
    }
}

#[test]
fn joining_and_stripping_agree_with_std() {
    for a in PATHS {
        for b in PATHS {
            assert_eq!(path::join(a, b), Path::new(a).join(b).to_str().unwrap(), "{a} + {b}");
            assert_eq!(path::is_under(a, b), Path::new(a).starts_with(b), "{a} under {b}");
            assert_eq!(path::is_same(a, b), Path::new(a) == Path::new(b), "{a} same {b}");
            assert_eq!(
                path::strip_base(a, b),
                Path::new(a).strip_prefix(b).ok().and_then(|x| x.to_str()),
                "{a} without {b}"
            );
        }
    }
}

#[test]
fn names_sort_by_their_bytes() {
    let names: Vec<String> = ["b", "a", "B", "é", "", "ab", "a-", "\u{10000}", "\u{ffff}"]
        .iter()
        .map(|s| s.to_string())
        .collect();
    let mut expected = names.clone();
    expected.sort();
    assert_eq!(order::sort_names(&names), expected);
    let mut reversed = names.clone();
    reversed.reverse();
    assert_eq!(order::sort_names(&reversed), expected);
    assert!(order::comes_first("a", "b"));
    assert!(order::comes_first("a", "a"));
    assert!(!order::comes_first("b", "a"));
}

#[test]
fn a_map_reads_what_was_written() {
    let mut m: StringMap<String> = StringMap::new();
    assert!(m.is_empty());
    m.insert("a".to_owned(), "1".to_owned());
    m.insert("b".to_owned(), "2".to_owned());
    m.insert("a".to_owned(), "3".to_owned());
    assert_eq!(m.len(), 2);
    assert_eq!(m.get("a"), Some(&"3".to_owned()));
    assert_eq!(m.get("b"), Some(&"2".to_owned()));
    assert_eq!(m.get("c"), None);
    assert_eq!((m.key_at(0), m.value_at(0).as_str()), ("a", "3"));
    assert!(m.contains_key("b") && !m.contains_key("c"));
    let copy = copy_map(&m);
    assert_eq!(copy.len(), 2);
    assert_eq!(copy.get("b"), Some(&"2".to_owned()));
}

#[test]
fn hexadecimal_has_two_digits_a_byte() {
    assert_eq!(hex::to_hex(&[]), "");
    assert_eq!(hex::to_hex(&[0, 1, 0x7f, 0xff]), "00017fff");
}

#[test]
fn backoff_doubles_up_to_its_cap() {
    let mut waits = Vec::new();
    let mut ms = backoff::BACKOFF_START;
    for _ in 0..8 {
        waits.push(ms);
        ms = backoff::next_backoff(ms);
    }
    assert_eq!(waits, [1_000, 2_000, 4_000, 8_000, 16_000, 32_000, 60_000, 60_000]);
    assert_eq!(backoff::next_backoff(u64::MAX), 60_000);
}

#[test]
fn jitter_stays_in_the_upper_half() {
    assert_eq!(backoff::with_jitter(1_000, 0), 500_000);
    assert_eq!(backoff::with_jitter(1_000, 499), 749_500);
    assert_eq!(backoff::with_jitter(1_000, 999), 999_500);
    assert_eq!(backoff::with_jitter(3, 0), 1_500);
    assert_eq!(backoff::with_jitter(u64::MAX, u64::MAX), u128::from(u64::MAX) * 1_000);
    assert_eq!(backoff::jittered_backoff(0), 0);
    assert_eq!(backoff::jittered_backoff(1), 500);
    for _ in 0..50 {
        assert!((1_500..3_000).contains(&backoff::jittered_backoff(3)));
    }
    let mut seen = std::collections::BTreeSet::new();
    for _ in 0..200 {
        let us = backoff::jittered_backoff(60_000);
        assert!((30_000_000..60_000_000).contains(&us));
        seen.insert(us);
    }
    assert!(seen.len() > 1);
}

#[test]
fn bytes_have_a_text_of_their_own() {
    let all: Vec<u8> = (0..=255).collect();
    let shown = text::text_of_bytes(&all);
    assert_eq!(shown.chars().count(), 256);
    assert_eq!(shown.chars().nth(0xe9), Some('é'));
    assert_eq!(text::bytes_of_text(&shown), Some(all));
    assert_eq!(text::text_of_bytes(b"plain"), "plain");
    assert_eq!(text::narrowed("caf\u{e9}"), b"caf\xe9");
    assert_eq!(text::bytes_of_text("\u{100}"), None);
    assert_eq!(text::bytes_of_text(""), Some(vec![]));
}

#[test]
fn cloned_maps_keep_keys_and_order() {
    let mut m: StringMap<u8> = StringMap::default();
    assert!(m.is_empty());
    m.insert("b".to_owned(), 1);
    m.insert("a".to_owned(), 2);
    let copy = m.clone();
    m.insert("b".to_owned(), 3);
    assert_eq!((copy.len(), copy.key_at(0), copy.key_at(1)), (2, "b", "a"));
    assert_eq!((copy.get("b"), m.get("b"), copy.get("c")), (Some(&1), Some(&3), None));
}
