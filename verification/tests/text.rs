use echo_scribe::calendar::{today_for_filename, utc_date, Date};
use echo_scribe::numerals::{decimal_text, padded_decimal_text, parse_unsigned};
use echo_scribe::order::{comes_before, insert_ascending};
use echo_scribe::paths::{extension, file_name, file_stem, is_child_of, is_within, place, same_path};
use echo_scribe::search::{contains, replace, slice_bytes, starts_with, take_chars};
use echo_scribe::split::{join, lines, split_whitespace, trim, trim_to_option};
use echo_scribe::text::{is_ascii_punctuation, is_control, is_whitespace, same, to_ascii_lowercase};
use std::path::Path;

const SAMPLES: [&str; 18] = [
    "", "/", "a", "a/b", "/a/b.c", "a/", "a//b", ".", "..", "a/..", "a/.", "./a", ".hidden",
    "a.tar.gz", "/a/.b", "a.", "//", "é/ü.ß",
];

#[test]
fn paths_are_read_as_std_reads_them() {
    for p in SAMPLES {
        let q = Path::new(p);
        assert_eq!(file_name(p).as_deref(), q.file_name().map(|s| s.to_str().unwrap()), "{p}");
        assert_eq!(file_stem(p).as_deref(), q.file_stem().map(|s| s.to_str().unwrap()), "{p}");
        assert_eq!(extension(p).as_deref(), q.extension().map(|s| s.to_str().unwrap()), "{p}");
        for r in SAMPLES {
            assert_eq!(is_within(p, r), q.starts_with(r), "{p} in {r}");
            assert_eq!(same_path(p, r), q == Path::new(r), "{p} = {r}");
            assert_eq!(is_child_of(p, r), q.parent() == Some(Path::new(r)), "{p} < {r}");
            assert_eq!(place(p, r), q.join(r).to_str().unwrap(), "{p} + {r}");
        }
    }
}

#[test]
fn characters_are_told_apart_as_std_does() {
    for n in 0..0x3100u32 {
        if let Some(c) = char::from_u32(n) {
            assert_eq!(is_whitespace(c), c.is_whitespace(), "{n:x}");
            assert_eq!(is_control(c), c.is_control(), "{n:x}");
            assert_eq!(is_ascii_punctuation(c), c.is_ascii_punctuation(), "{n:x}");
        }
    }
}

const TEXTS: [&str; 12] = [
    "", " ", "a", " a b ", "a\r\nb\n", "\n", "a\n\nb", "\u{2003}x\u{a0}", "aXbXXc", "aaa", "é b\tc",
    "a\r",
];

#[test]
fn texts_are_cut_as_std_cuts_them() {
    for s in TEXTS {
        assert_eq!(trim(s), s.trim());
        assert_eq!(split_whitespace(s), s.split_whitespace().collect::<Vec<_>>());
        assert_eq!(lines(s), s.lines().collect::<Vec<_>>());
        assert_eq!(to_ascii_lowercase(s), s.to_ascii_lowercase());
        assert_eq!(take_chars(s, 2), s.chars().take(2).collect::<String>());
        for p in ["X", "a", "aa", " "] {
            assert_eq!(contains(s, p), s.contains(p));
            assert_eq!(starts_with(s, p), s.starts_with(p));
            assert_eq!(replace(s, p, "-+"), s.replace(p, "-+"), "{s:?} {p:?}");
        }
        for a in 0..5 {
            for b in 0..5 {
                assert_eq!(slice_bytes(s, a, b).as_deref(), s.get(a..b), "{s:?} {a} {b}");
            }
        }
        for t in TEXTS {
            assert_eq!(same(s, t), s == t);
            assert_eq!(comes_before(s, t), s < t);
        }
    }
    assert_eq!(trim_to_option("  "), None);
    assert_eq!(trim_to_option(" x "), Some("x".to_string()));
    assert_eq!(trim(&trim("  x  ")), "x");
    let list: Vec<String> = TEXTS.iter().map(|s| s.to_string()).collect();
    assert_eq!(join(&list, ", "), TEXTS.join(", "));
    let mut sorted: Vec<String> = Vec::new();
    for s in TEXTS {
        insert_ascending(&mut sorted, s.to_string());
    }
    let mut expected = list;
    expected.sort();
    expected.dedup();
    assert_eq!(sorted, expected);
}

#[test]
fn numbers_are_written_and_read() {
    for n in [0, 9, 10, 12345, u64::MAX] {
        assert_eq!(decimal_text(n), n.to_string());
        assert_eq!(parse_unsigned(&decimal_text(n)), Some(n));
    }
    assert_eq!(padded_decimal_text(7, 3), "007");
    assert_eq!(padded_decimal_text(1234, 3), "1234");
    for s in ["", "+", "-1", "+5", "007", "18446744073709551616", "1 ", "x"] {
        assert_eq!(parse_unsigned(s), s.parse::<u64>().ok(), "{s}");
    }
}

#[test]
fn days_are_counted_as_in_the_calendar() {
    assert_eq!(today_for_filename(0), "1970-01-01");
    assert_eq!(today_for_filename(86_399), "1970-01-01");
    assert_eq!(today_for_filename(951_782_400), "2000-02-29");
    assert_eq!(today_for_filename(951_868_800), "2000-03-01");
    assert_eq!(today_for_filename(4_107_542_400), "2100-03-01");
    assert_eq!(today_for_filename(4_107_456_000), "2100-02-28");
    assert_eq!(utc_date(1_716_300_000), Date { year: 2024, month: 5, day: 21 });
    for day in (0..60_000u64).step_by(97) {
        let secs = day * 86_400;
        let expected = chrono::DateTime::from_timestamp(secs as i64, 0).unwrap();
        assert_eq!(today_for_filename(secs), expected.format("%Y-%m-%d").to_string());
    }
}
