//! Texts, numbers and paths, held against the standard library.

use a3s_box::bytes::{clip, end_of, len_in_bytes};
use a3s_box::commands::history::truncate_str;
use a3s_box::commands::kill::{parse_signal, SIGKILL};
use a3s_box::commands::logs::parse_duration;
use a3s_box::commands::seal::normalize_policy;
use a3s_box::number::{i32_text, i64_text, parse_i32, parse_i64, parse_u32, parse_u64, u128_text, u64_text};
use a3s_box::path::{file_name, is_absolute, parent, path_components, path_join, path_starts_with};
use a3s_box::sizes::size_in_words;
use a3s_box::sort::{sorted_order, str_less};
use a3s_box::split::{
    contains_char, index_of, is_whitespace, join, last_index_of, lines, replace, replace_char, rsplit_once, split,
    split_once, split_once_white, split_whitespace, to_ascii_lowercase, to_ascii_uppercase, trim, trim_end,
    trim_end_matches, trim_start,
};
use a3s_box::strmap::StrMap;
use a3s_box::text::{contains_str, ends_with, starts_with, strip_prefix, strip_suffix};

fn samples() -> Vec<&'static str> {
    vec![
        "",
        " ",
        "a",
        "a b",
        "  a  b  ",
        "a=b=c",
        "=",
        "==",
        "line\nother\r\nlast",
        "line\n",
        "\n\n",
        "\r",
        "a\r\r\n",
        "\u{2003}wide\u{85}",
        "gr\u{fc}n \u{1f600} x",
        "KEY=val ue",
        "abcabcab",
        "Stra\u{df}e",
        "/a//b/./c/",
        "a/../b",
        "\u{3000}=\u{3000}",
    ]
}

#[test]
fn white_space_is_that_of_the_standard_library() {
    for n in 0..=0x10ffffu32 {
        if let Some(c) = char::from_u32(n) {
            assert_eq!(is_whitespace(c), c.is_whitespace(), "{n:x}");
        }
    }
}

#[test]
fn texts_are_cut_as_the_standard_library_cuts_them() {
    for s in samples() {
        assert_eq!(trim(s), s.trim());
        assert_eq!(trim_start(s), s.trim_start());
        assert_eq!(trim_end(s), s.trim_end());
        assert_eq!(lines(s), s.lines().collect::<Vec<_>>());
        assert_eq!(split_whitespace(s), s.split_whitespace().collect::<Vec<_>>());
        assert_eq!(split_once_white(s), s.split_once(char::is_whitespace));
        for c in ['=', 'a', '\n', '/'] {
            assert_eq!(split_once(s, c), s.split_once(c));
            assert_eq!(rsplit_once(s, c), s.rsplit_once(c));
            assert_eq!(split(s, c), s.split(c).collect::<Vec<_>>());
            assert_eq!(contains_char(s, c), s.contains(c));
            assert_eq!(index_of(s, c), s.chars().position(|d| d == c));
            assert_eq!(last_index_of(s, c), s.chars().collect::<Vec<_>>().iter().rposition(|d| *d == c));
            assert_eq!(replace_char(s, c, "<>"), s.replace(c, "<>"));
        }
        for p in ["a", "ab", "abc", "=", " b", "\n"] {
            assert_eq!(starts_with(s, p), s.starts_with(p));
            assert_eq!(ends_with(s, p), s.ends_with(p));
            assert_eq!(strip_prefix(s, p), s.strip_prefix(p));
            assert_eq!(strip_suffix(s, p), s.strip_suffix(p));
            assert_eq!(contains_str(s, p), s.contains(p));
            assert_eq!(replace(s, p, "+"), s.replace(p, "+"));
            assert_eq!(trim_end_matches(s, p), s.trim_end_matches(p));
        }
        assert_eq!(to_ascii_uppercase(s), s.to_ascii_uppercase());
        assert_eq!(to_ascii_lowercase(s), s.to_ascii_lowercase());
        assert_eq!(len_in_bytes(s), s.len());
    }
    assert_eq!(join(&vec!["a".to_string(), "b".to_string()], ", "), "a, b");
    assert_eq!(clip("abcdef", 3), "abc");
    assert_eq!(clip("ab", 3), "ab");
}

#[test]
fn letter_case_is_that_of_unicode() {
    assert_eq!(parse_signal("\u{17f}igkill").unwrap(), SIGKILL);
    assert_eq!(parse_signal("sigkill").unwrap(), SIGKILL);
    assert_eq!(normalize_policy("chip-only").unwrap(), normalize_policy("CHIP-ONLY").unwrap());
    assert_eq!(normalize_policy("measurement-only").unwrap(), normalize_policy("MEASUREMENT-ONLY").unwrap());
    assert!(normalize_policy("C\u{130}P-ONLY").is_err());
}

#[test]
fn empty_durations_are_quoted() {
    assert_eq!(parse_duration("0s").unwrap_err(), format!("Invalid duration: {:?} (resolved to 0)", "0s"));
}

#[test]
fn numbers_are_read_and_written_as_the_standard_library_does() {
    let texts = [
        "", "0", "+0", "-0", "-1", "+7", "007", "42", " 1", "1 ", "4294967295", "4294967296", "2147483648",
        "-2147483648", "-2147483649", "18446744073709551615", "18446744073709551616", "9223372036854775808",
        "-9223372036854775808", "-9223372036854775809", "1_000", "+", "-", "--1", "\u{661}",
    ];
    for s in texts {
        assert_eq!(parse_u64(s), s.parse::<u64>().ok(), "{s}");
        assert_eq!(parse_u32(s), s.parse::<u32>().ok(), "{s}");
        assert_eq!(parse_i64(s), s.parse::<i64>().ok(), "{s}");
        assert_eq!(parse_i32(s), s.parse::<i32>().ok(), "{s}");
    }
    for n in [0u64, 1, 9, 10, 99, 12_345, u64::MAX] {
        assert_eq!(u64_text(n), n.to_string());
        assert_eq!(parse_u64(&u64_text(n)), Some(n));
        assert_eq!(u128_text(n as u128 * 10), (n as u128 * 10).to_string());
    }
    for n in [0i64, -1, 7, -10, i64::MIN, i64::MAX] {
        assert_eq!(i64_text(n), n.to_string());
        assert_eq!(parse_i64(&i64_text(n)), Some(n));
    }
    for n in [0i32, -1, 15, i32::MIN, i32::MAX] {
        assert_eq!(i32_text(n), n.to_string());
    }
}

#[test]
fn paths_are_those_of_unix() {
    let paths = ["", "/", "a", "/a", "a/", "/a/b", "a//b", "./a", "a/.", "/a/b/.", "../a", "/..", "a/b/..", "//x", "/a/./b"];
    for p in paths {
        let std_path = std::path::Path::new(p);
        assert_eq!(is_absolute(p), std_path.is_absolute(), "{p}");
        assert_eq!(parent(p), std_path.parent().map(|q| q.to_str().unwrap().to_string()), "{p}");
        assert_eq!(file_name(p), std_path.file_name().map(|q| q.to_str().unwrap().to_string()), "{p}");
        for base in paths {
            assert_eq!(path_starts_with(p, base), std_path.starts_with(base), "{p} {base}");
            assert_eq!(path_join(p, base), std_path.join(base).to_str().unwrap(), "{p} {base}");
        }
    }
    assert_eq!(path_components("/a//b/./c"), vec!["a", "b", "c"]);
}

#[test]
fn texts_are_ordered_as_the_standard_library_orders_them() {
    let keys: Vec<String> = samples().iter().map(|s| s.to_string()).collect();
    for a in &keys {
        for b in &keys {
            assert_eq!(str_less(a, b), a < b);
        }
    }
    let mut sorted = keys.clone();
    sorted.sort();
    let order = sorted_order(&keys);
    let arranged: Vec<String> = order.iter().map(|i| keys[*i].clone()).collect();
    assert_eq!(arranged, sorted);
}

#[test]
fn sizes_in_words_round_as_floats_do() {
    let mut n: u64 = 1;
    let mut seen: u64 = 0;
    while seen < 4000 {
        seen += 1;
        n = n.wrapping_mul(6364136223846793005).wrapping_add(1442695040888963407);
        let size = n >> (seen % 56);
        let b = size as f64;
        let expected = if size < 1024 {
            format!("{size} B")
        } else if size < 1024 * 1024 {
            format!("{:.1} KB", b / 1024.0)
        } else if size < 1024 * 1024 * 1024 {
            format!("{:.1} MB", b / (1024.0 * 1024.0))
        } else {
            format!("{:.1} GB", b / (1024.0 * 1024.0 * 1024.0))
        };
        assert_eq!(size_in_words(size, " ", true), expected, "{size}");
    }
}

#[test]
fn long_words_lose_their_end() {
    assert_eq!(truncate_str("", 0), "");
    assert_eq!(truncate_str("abcdef", 6), "abcdef");
    assert_eq!(truncate_str("abcdefg", 6), "abc...");
}

#[test]
fn maps_hold_each_key_once() {
    let mut map: StrMap<u32> = StrMap::new();
    map.insert("a".to_string(), 1);
    map.insert("b".to_string(), 2);
    map.insert("a".to_string(), 3);
    assert_eq!(map.len(), 2);
    assert_eq!(map.get("a"), Some(&3));
    assert!(map.contains_key("b"));
    assert_eq!(map.remove("b"), Some(2));
    assert_eq!(map.remove("b"), None);
    assert_eq!(map.entry(0), (&"a".to_string(), &3));
}

#[test]
fn texts_end_as_the_standard_library_cuts_them() {
    for s in samples() {
        for n in 0..=s.len() + 1 {
            let at = s.len().saturating_sub(n);
            if s.is_char_boundary(at) {
                assert_eq!(end_of(s, n), &s[at..]);
            }
        }
    }
}
