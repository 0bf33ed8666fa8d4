//! Text, numerals and byte offsets, held against the standard library.

use fffq::number::{decimal_text, read_int, IntError};
use fffq::text;
use fffq::utf8::{locate, width, Offset};

fn chars(s: &str) -> Vec<char> {
    s.chars().collect()
}

fn string(s: &[char]) -> String {
    s.iter().collect()
}

fn samples() -> Vec<String> {
    let pieces = ["", " ", "\n", "\r\n", "\r", "a", "bc", "\n\n", "é", "\u{3000}", "\t", "データ"];
    let mut all: Vec<String> = Vec::new();
    for a in pieces {
        for b in pieces {
            for c in pieces {
                for d in pieces {
                    all.push(format!("{a}{b}{c}{d}"));
                }
            }
        }
    }
    all
}

#[test]
fn white_space_is_that_of_unicode() {
    for v in 0..=0x10ffff {
        if let Some(c) = char::from_u32(v) {
            assert_eq!(text::is_blank(c), c.is_whitespace(), "{v:x}");
        }
    }
}

#[test]
fn characters_and_text_convert_both_ways() {
    for s in samples() {
        assert_eq!(text::to_chars(&s), chars(&s));
        assert_eq!(text::to_text(&chars(&s)), s);
    }
}

#[test]
fn trimming_agrees_with_std() {
    for s in samples() {
        assert_eq!(string(text::trimmed(&chars(&s))), s.trim());
    }
}

#[test]
fn lines_agree_with_std() {
    for s in samples() {
        let found: Vec<String> = text::all_lines(&chars(&s)).into_iter().map(string).collect();
        let expected: Vec<&str> = s.lines().collect();
        assert_eq!(found, expected, "{s:?}");
    }
}

#[test]
fn pieces_agree_with_std() {
    for s in samples() {
        let found: Vec<String> = text::all_pieces(&chars(&s), &['\n', '\n'])
            .into_iter()
            .map(string)
            .collect();
        let expected: Vec<&str> = s.split("\n\n").collect();
        assert_eq!(found, expected, "{s:?}");
    }
}

#[test]
fn words_agree_with_std() {
    for s in samples() {
        let all = chars(&s);
        let mut rest: &[char] = &all;
        let mut found: Vec<String> = Vec::new();
        while let Some((word, after)) = text::next_word(rest) {
            found.push(string(word));
            rest = after;
        }
        let expected: Vec<&str> = s.split_whitespace().collect();
        assert_eq!(found, expected, "{s:?}");
    }
}

#[test]
fn splits_agree_with_std() {
    for s in samples() {
        let all = chars(&s);
        let first = text::split_first(&all, &['\r', '\n']).map(|(a, b)| (string(a), string(b)));
        let expected = s.split_once("\r\n").map(|(a, b)| (a.to_string(), b.to_string()));
        assert_eq!(first, expected, "{s:?}");
        let last = text::split_last(&all, &['a']).map(|(a, b)| (string(a), string(b)));
        let expected = s.rsplit_once('a').map(|(a, b)| (a.to_string(), b.to_string()));
        assert_eq!(last, expected, "{s:?}");
    }
}

#[test]
fn searching_agrees_with_std() {
    for s in samples() {
        assert_eq!(text::has_text(&s, "ab"), s.contains("ab"));
        assert_eq!(text::has_text(&s, "é\n"), s.contains("é\n"));
        assert_eq!(text::find_first(&chars(&s), &['b', 'c']).is_some(), s.contains("bc"));
        assert_eq!(text::find_last(&chars(&s), &['b', 'c']).is_some(), s.contains("bc"));
    }
    assert_eq!(text::find_first(&chars("xbcbc"), &['b', 'c']), Some(1));
    assert_eq!(text::find_last(&chars("xbcbc"), &['b', 'c']), Some(3));
    assert!(text::matches_at(&chars("xbc"), &['b'], 1));
    assert!(!text::matches_at(&chars("xbc"), &['b'], 0));
    assert!(!text::matches_at(&chars("xbc"), &['c', 'd'], 2));
}

#[test]
fn case_is_ignored_for_ascii_only() {
    let words = ["Transfer-Encoding", "transfer-encoding", "CHUNKED", "chunked", "É", "é", "@", "`"];
    for a in words {
        for b in words {
            assert_eq!(text::equal_ignoring_case(a, b), a.eq_ignore_ascii_case(b), "{a} {b}");
        }
    }
}

#[test]
fn numbers_agree_with_std() {
    let words = [
        "", "0", "7", "00", "+7", "+", "-1", "-", "65535", "65536", "99999999999999999999", "7a",
        "a", "1 ", "６", "+0065535", "6553x", "655360x", "++1",
    ];
    for word in words {
        let found = read_int(&chars(word), 10, u16::MAX as u64);
        match word.parse::<u16>() {
            Ok(n) => assert_eq!(found, Ok(n as u64), "{word}"),
            Err(e) => assert_eq!(found.unwrap_err().message(), e.to_string(), "{word}"),
        }
    }
}

#[test]
fn hexadecimal_numbers_agree_with_std() {
    let words = [
        "", "0", "ff", "FF", "fF", "+1a", "g", "1g", "ffffffffffffffff", "10000000000000000", "0x1",
        "fffffffffffffffe",
    ];
    for word in words {
        let found = read_int(&chars(word), 16, usize::MAX as u64);
        match usize::from_str_radix(word, 16) {
            Ok(n) => assert_eq!(found, Ok(n as u64), "{word}"),
            Err(e) => assert_eq!(found.unwrap_err().message(), e.to_string(), "{word}"),
        }
    }
}

#[test]
fn number_errors_are_told_apart() {
    assert_eq!(read_int(&[], 10, 9), Err(IntError::Empty));
    assert_eq!(read_int(&['x'], 10, 9), Err(IntError::InvalidDigit));
    assert_eq!(read_int(&['1', '0'], 10, 9), Err(IntError::PosOverflow));
}

#[test]
fn numerals_read_back() {
    for n in [0u64, 1, 9, 10, 99, 100, 4711, 65535, u32::MAX as u64, u64::MAX] {
        assert_eq!(decimal_text(n), n.to_string());
        assert_eq!(read_int(&chars(&decimal_text(n)), 10, u64::MAX), Ok(n));
    }
}

#[test]
fn byte_offsets_agree_with_std() {
    for s in ["", "abc", "aéb", "データ", "a😀b"] {
        let all = chars(s);
        for n in 0..s.len() + 3 {
            let expected = if n > s.len() {
                Offset::Beyond
            } else if s.is_char_boundary(n) {
                Offset::At(s[..n].chars().count())
            } else {
                Offset::Inside
            };
            assert_eq!(locate(&all, n), expected, "{s} {n}");
        }
    }
    for c in ['a', 'é', 'デ', '😀'] {
        assert_eq!(width(c), c.len_utf8());
    }
}
