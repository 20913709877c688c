use qwen3_asr_wgpu::cli::{arg, flag, number_arg, wants_help};
use qwen3_asr_wgpu::manifest::{flatten_lines, mode_of, read_rows, row_window, RowError};
use qwen3_asr_wgpu::score::{edit_counts, normalize, truncate, units, Edits, Mode};
use qwen3_asr_wgpu::text::{eq_ignore_ascii_case, number, parse_u32, parse_u64, parse_usize, push_dec64};
use qwen3_asr_wgpu::unicode::{lowercased, split_whitespace, trim};

fn words(s: &str) -> Vec<String> {
    s.split(' ').filter(|w| !w.is_empty()).map(str::to_string).collect()
}

fn chars(s: &str) -> Vec<char> {
    s.chars().collect()
}

#[test]
fn normalizing_folds_case_and_punctuation() {
    assert_eq!(normalize("Hello,  WORLD!"), "hello world");
    assert_eq!(normalize("  Äpfel-Öl? "), "äpfel öl");
    assert_eq!(normalize("你好，世界"), "你好 世界");
    assert_eq!(normalize("?!"), "");
}

#[test]
fn units_by_mode() {
    assert_eq!(units("good morning", Mode::Wer), words("good morning"));
    assert_eq!(units("ab c", Mode::Cer), words("a b c"));
    assert!(units("", Mode::Wer).is_empty());
}

#[test]
fn counting_edits() {
    let e = edit_counts(&words("the cat sat"), &words("the cat sat"));
    assert_eq!(e, Edits { sub: 0, del: 0, ins: 0 });
    let e = edit_counts(&words("the cat sat"), &words("the dog sat down"));
    assert_eq!(e, Edits { sub: 1, del: 0, ins: 1 });
    let e = edit_counts(&words("a b c d"), &words("a d"));
    assert_eq!(e, Edits { sub: 0, del: 2, ins: 0 });
    let e = edit_counts(&words("a b"), &words(""));
    assert_eq!(e.total(), 2);
    assert_eq!(e.plus(&Edits { sub: 3, del: 0, ins: 1 }), Edits { sub: 3, del: 2, ins: 1 });
    assert_eq!(Edits::none().total(), 0);
}

#[test]
fn the_distance_is_the_least() {
    let e = edit_counts(&words("k i t t e n"), &words("s i t t i n g"));
    assert_eq!(e.total(), 3);
    let back = edit_counts(&words("s i t t i n g"), &words("k i t t e n"));
    assert_eq!(back.total(), 3);
}

#[test]
fn truncating_keeps_short_texts() {
    assert_eq!(truncate("short", 10), "short");
    assert_eq!(truncate("äöüäöü", 3).chars().take(3).collect::<String>(), "äöü");
}

#[test]
fn unicode_lower_case_and_space() {
    assert_eq!(lowercased("ÀÉÎ ABC"), "àéî abc");
    assert_eq!(lowercased("ΑΣ"), "ας");
    assert_eq!(trim(&chars("\u{3000} a b\n")), chars("a b"));
    let w = split_whitespace(&chars(" a\tbc\u{2003}d "));
    assert_eq!(w, vec![chars("a"), chars("bc"), chars("d")]);
}

#[test]
fn numbers_to_and_from_text() {
    assert_eq!(number(0), "0");
    assert_eq!(number(40960), "40960");
    let mut s = String::from("n=");
    push_dec64(&mut s, u64::MAX);
    assert_eq!(s, "n=18446744073709551615");
    assert_eq!(parse_u64("18446744073709551615"), Some(u64::MAX));
    assert_eq!(parse_u64("18446744073709551616"), None);
    assert_eq!(parse_u32("+7"), Some(7));
    assert_eq!(parse_u32("4294967296"), None);
    assert_eq!(parse_usize(""), None);
    assert_eq!(parse_usize("-1"), None);
    assert_eq!(parse_usize("007"), Some(7));
    assert!(eq_ignore_ascii_case("VulKan", "vulkan"));
    assert!(!eq_ignore_ascii_case("Ä", "ä"));
}

#[test]
fn arguments() {
    let args: Vec<String> = words("prog --model dir --limit 12 --bad x --last");
    assert_eq!(arg(&args, "--model"), Some("dir".to_string()));
    assert_eq!(arg(&args, "--last"), None);
    assert_eq!(arg(&args, "--none"), None);
    assert!(flag(&args, "--last"));
    assert!(!flag(&args, "last"));
    assert_eq!(number_arg(&args, "--limit", 5), 12);
    assert_eq!(number_arg(&args, "--bad", 5), 5);
    assert_eq!(number_arg(&args, "--other", 5), 5);
    assert!(!wants_help(&args));
    assert!(wants_help(&words("prog --help")));
}

#[test]
fn manifest_rows() {
    let rows = read_rows("a.wav\thello there\r\n\nb.wav\tx\n").unwrap();
    assert_eq!(rows.len(), 2);
    assert_eq!(rows[0].file, "a.wav");
    assert_eq!(rows[0].reference, "hello there");
    assert_eq!(rows[1].file, "b.wav");
    let e = read_rows("a.wav\tx\njust one column\n").unwrap_err();
    assert_eq!(e, RowError { line: 2, columns: 1 });
}

#[test]
fn manifest_modes_and_windows() {
    assert_eq!(mode_of(&Some("cer".to_string())), Some(Mode::Cer));
    assert_eq!(mode_of(&Some("wer".to_string())), Some(Mode::Wer));
    assert_eq!(mode_of(&Some("other".to_string())), None);
    assert_eq!(row_window(0, 10, 4), Some((0, 4)));
    assert_eq!(row_window(2, 1, 4), Some((2, 3)));
    assert_eq!(flatten_lines("a\r\nb"), "a  b");
}
