use soundcloud2mp4::number::{exact_units, is_zero, parse_decimal, to_units};
use soundcloud2mp4::text::{
    count_char, dec, dec_padded, dec_signed, from_chars, has, has_prefix, has_suffix, hex_padded,
    is_control, is_whitespace, join, lines, parse_unsigned, same_ignoring_case, seconds_1,
    seconds_2, seconds_3, seconds_6, to_chars, trim, trim_end, trim_start, words,
};
use soundcloud2mp4::utils::filesystem::{
    candidate_name, find_file_with_ext, format_duration, sanitize_filename, unique_path,
};
use soundcloud2mp4::utils::process::{
    capture_log, describe, spawn_err, stdout_line, version_of, StderrTail,
};

#[test]
fn character_classes_agree_with_the_standard_library() {
    for n in 0..0x11_0000u32 {
        if let Some(c) = char::from_u32(n) {
            assert_eq!(is_whitespace(c), c.is_whitespace(), "{n:x}");
            assert_eq!(is_control(c), c.is_control(), "{n:x}");
        }
    }
}

#[test]
fn trimming_agrees_with_the_standard_library() {
    for s in ["", " ", "a", " a ", "\t a b\u{3000}\n", "\u{a0}x\u{2003}", "no"] {
        assert_eq!(trim(s), s.trim());
        assert_eq!(trim_start(s), s.trim_start());
        assert_eq!(trim_end(s), s.trim_end());
    }
}

#[test]
fn lines_and_words_agree_with_the_standard_library() {
    for s in ["", "\n", "a", "a\n", "a\r\nb", "a\n\nb\n", "\r", " x  y\tz ", "a\rb\n"] {
        let l: Vec<String> = s.lines().map(|x| x.to_string()).collect();
        assert_eq!(lines(s), l, "{s:?}");
        let w: Vec<String> = s.split_whitespace().map(|x| x.to_string()).collect();
        assert_eq!(words(s), w, "{s:?}");
    }
}

#[test]
fn numbers_agree_with_the_standard_library() {
    for n in [0, 7, 10, 4_294_967_296, u64::MAX] {
        assert_eq!(dec(n), format!("{n}"));
        assert_eq!(dec_padded(n, 4), format!("{n:04}"));
        assert_eq!(hex_padded(n, 16), format!("{n:016x}"));
    }
    for n in [0, -1, 5, i64::MIN, i64::MAX] {
        assert_eq!(dec_signed(n), format!("{n}"));
    }
    for s in ["0", "007", "+5", "-5", "", "5x", "18446744073709551615", "18446744073709551616"] {
        assert_eq!(parse_unsigned(s, u64::MAX), s.parse::<u64>().ok(), "{s:?}");
    }
}

#[test]
fn lengths_are_written_with_fixed_places() {
    assert_eq!(seconds_1(1_250_000), "1.2");
    assert_eq!(seconds_1(1_350_000), "1.4");
    assert_eq!(seconds_2(213_800_000), "213.80");
    assert_eq!(seconds_3(215_000_000), "215.000");
    assert_eq!(seconds_6(20_500_001), "20.500001");
}

#[test]
fn finding_text() {
    assert!(has("hello world", "o w"));
    assert!(!has("hello", "lol"));
    assert!(has("x", ""));
    assert!(has_prefix("clip_1.mp4", "clip_") && has_suffix("clip_1.mp4", ".mp4"));
    assert!(same_ignoring_case("MP3", "mp3"));
    assert!(!same_ignoring_case("mp3", "mp4"));
    assert_eq!(count_char("a\tb\tc", '\t'), 2);
    assert_eq!(from_chars(&to_chars("äöü")), "äöü");
    assert_eq!(join(&["a".to_string(), "b".to_string()], ", "), "a, b");
    assert_eq!(join(&[], ", "), "");
}

#[test]
fn decimal_numbers_are_scaled_exactly() {
    let read = |s: &str| parse_decimal(&to_chars(s)).map(|d| to_units(&d, 6));
    assert_eq!(read("1.533333"), Some(1_533_333));
    assert_eq!(read("2"), Some(2_000_000));
    assert_eq!(read("1e3"), Some(1_000_000_000));
    assert_eq!(read(".5"), Some(500_000));
    assert_eq!(read("-1"), Some(1_000_000), "the sign is kept apart");
    assert!(parse_decimal(&to_chars("-1")).unwrap().negative);
    assert_eq!(read("1e999"), Some(u64::MAX));
    let exact = |s: &str| exact_units(&parse_decimal(&to_chars(s)).unwrap(), 6);
    assert_eq!(exact("1e999"), None);
    assert_eq!(exact("18446744073709.551615"), Some(u64::MAX));
    assert_eq!(exact("18446744073709.5516155"), None);
    assert_eq!(exact("0.0000001"), Some(0));
    assert!(is_zero(&parse_decimal(&to_chars("0.00e5")).unwrap()));
    assert!(!is_zero(&parse_decimal(&to_chars("0.0000001")).unwrap()));
    assert_eq!(read("x"), None);
    assert_eq!(read(""), None);
}

#[test]
fn file_names_are_made_safe() {
    let s = sanitize_filename("a/b\\c:d*e?f\"g<h>i|j");
    for c in ['/', '\\', ':', '*', '?', '"', '<', '>', '|'] {
        assert!(!s.contains(c), "{s}");
    }
    assert!(!sanitize_filename("").is_empty());
    assert!(!sanitize_filename("...").is_empty());
}

#[test]
fn names_that_are_taken_are_counted_up() {
    assert_eq!(candidate_name("a", "mp4", 1), "a.mp4");
    assert_eq!(candidate_name("a", "mp4", 3), "a (3).mp4");
    let taken = ["a.mp4", "a (2).mp4"];
    assert_eq!(
        unique_path("a", "mp4", |n: &str| taken.contains(&n)),
        Some("a (3).mp4".to_string())
    );
    assert_eq!(unique_path("b", "mp4", |_: &str| false), Some("b.mp4".to_string()));
}

#[test]
fn files_are_found_by_extension_in_any_case() {
    let names = vec!["x.txt".to_string(), "cover.JPG".to_string(), "y.png".to_string()];
    let exts = vec!["jpg".to_string(), "png".to_string()];
    assert_eq!(find_file_with_ext(&names, &exts), Some(1));
    assert_eq!(find_file_with_ext(&names[..1], &exts), None);
}

#[test]
fn durations_read_like_a_clock() {
    assert_eq!(format_duration(0), "0:00");
    assert_eq!(format_duration(59_499_999), "0:59");
    assert_eq!(format_duration(59_500_000), "1:00");
    assert_eq!(format_duration(3_661_000_000), "1:01:01");
}

#[test]
fn commands_are_described_with_quotes_where_needed() {
    let line = describe("ffmpeg", &["-i".to_string(), "a b.mp4".to_string()]);
    assert!(line.contains("ffmpeg"), "{line}");
    assert!(line.contains("\"a b.mp4\""), "{line}");
    assert!(spawn_err("yt-dlp", true, "x").contains("yt-dlp"));
    assert!(spawn_err("yt-dlp", false, "denied").contains("denied"));
    assert_eq!(stdout_line("ffmpeg", "   "), None);
    assert!(stdout_line("ffmpeg", " hi ").unwrap().contains("hi"));
    assert_eq!(version_of(None), None);
    assert_eq!(version_of(Some("2024.1\nmore")), Some("2024.1".to_string()));
    assert!(!capture_log("exit 0", "out", "err").is_empty());
}

#[test]
fn the_tail_keeps_the_newest_lines() {
    let mut tail = StderrTail::new();
    for i in 0..500 {
        tail.push("ffmpeg", &format!("line {i}"));
    }
    let text = tail.failure("ffmpeg", Some(1));
    assert!(text.contains("exited with code 1"), "{text}");
    assert!(text.contains("line 499"), "{text}");
    assert!(!text.contains("line 0\n"), "{text}");
    assert!(tail.push("ffmpeg", "  ").is_none());
}
