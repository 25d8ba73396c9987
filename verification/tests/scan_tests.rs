use grep::contains_folded;
use grep::decide_line;
use grep::equal_folded;
use grep::grep;
use grep::handle_file;
use grep::render_line;
use grep::FileText;
use grep::Flags;
use grep::LineAction;

fn lines_of(v: &[&str]) -> Vec<String> {
    v.iter().map(|s| s.to_string()).collect()
}

fn strings_of(v: &[&str]) -> Vec<String> {
    v.iter().map(|s| s.to_string()).collect()
}

#[test]
fn default_flags_report_containing_lines() {
    let flags = Flags::new();
    let out = handle_file("a.txt", "foo", &flags, &lines_of(&["foo", "foobar", "baz"]));
    assert_eq!(out, strings_of(&["foo", "foobar"]));
}

#[test]
fn show_line_number_prefixes_hits() {
    let mut flags = Flags::new();
    flags.show_line_number = true;
    let out = handle_file("a.txt", "foo", &flags, &lines_of(&["foo", "foobar", "baz"]));
    assert_eq!(out, strings_of(&["1:foo", "2:foobar"]));
}

#[test]
fn entire_line_only_requires_equality() {
    let mut flags = Flags::new();
    flags.entire_line_only = true;
    let out = handle_file("a.txt", "foo", &flags, &lines_of(&["foo", "foobar", "baz"]));
    assert_eq!(out, strings_of(&["foo"]));
}

#[test]
fn invert_mode_adds_non_matching_lines_and_keeps_hits() {
    // A hit line is still reported by the hit rule when invert mode is on;
    // the non-matching lines are reported bare by the invert rule.
    let mut flags = Flags::new();
    flags.invert_mode = true;
    let out = handle_file("a.txt", "foo", &flags, &lines_of(&["foo", "foobar", "baz"]));
    assert_eq!(out, strings_of(&["foo", "foobar", "baz"]));
}

#[test]
fn invert_mode_reports_complement_when_nothing_matches() {
    let mut flags = Flags::new();
    flags.invert_mode = true;
    let out = handle_file("a.txt", "quux", &flags, &lines_of(&["foo", "foobar", "baz"]));
    assert_eq!(out, strings_of(&["foo", "foobar", "baz"]));
}

#[test]
fn file_name_only_reports_path_once() {
    let mut flags = Flags::new();
    flags.file_name_only = true;
    let out = handle_file("a.txt", "foo", &flags, &lines_of(&["foo", "foobar", "baz"]));
    assert_eq!(out, strings_of(&["a.txt"]));
}

#[test]
fn file_name_only_reports_nothing_without_hit() {
    let mut flags = Flags::new();
    flags.file_name_only = true;
    let out = handle_file("a.txt", "quux", &flags, &lines_of(&["foo", "foobar", "baz"]));
    assert!(out.is_empty());
}

#[test]
fn case_insensitive_uppercase_pattern() {
    let mut flags = Flags::new();
    flags.case_insensitive = true;
    let out = handle_file("a.txt", "FOO", &flags, &lines_of(&["foo", "foobar", "baz"]));
    assert_eq!(out, strings_of(&["foo", "foobar"]));
}

#[test]
fn case_insensitive_uppercase_line() {
    let mut flags = Flags::new();
    flags.case_insensitive = true;
    let out = handle_file("a.txt", "foo", &flags, &lines_of(&["FOO", "FooBar", "baz"]));
    assert_eq!(out, strings_of(&["FOO", "FooBar"]));
}

#[test]
fn case_sensitive_by_default() {
    let flags = Flags::new();
    let out = handle_file("a.txt", "foo", &flags, &lines_of(&["FOO", "baz"]));
    assert!(out.is_empty());
}

#[test]
fn entire_line_case_insensitive() {
    let mut flags = Flags::new();
    flags.entire_line_only = true;
    flags.case_insensitive = true;
    let out = handle_file("a.txt", "FOO", &flags, &lines_of(&["foo", "foobar"]));
    assert_eq!(out, strings_of(&["foo"]));
}

#[test]
fn empty_pattern_contains_every_line() {
    let flags = Flags::new();
    let out = handle_file("a.txt", "", &flags, &lines_of(&["foo", "", "baz"]));
    assert_eq!(out, strings_of(&["foo", "", "baz"]));
}

#[test]
fn empty_pattern_entire_line_matches_only_empty_lines() {
    let mut flags = Flags::new();
    flags.entire_line_only = true;
    let out = handle_file("a.txt", "", &flags, &lines_of(&["foo", "", "baz"]));
    assert_eq!(out, strings_of(&[""]));
}

#[test]
fn empty_file_contributes_nothing() {
    let flags = Flags::new();
    let out = handle_file("a.txt", "foo", &flags, &Vec::new());
    assert!(out.is_empty());
}

#[test]
fn line_numbers_reach_two_digits() {
    let mut flags = Flags::new();
    flags.show_line_number = true;
    let text: Vec<String> = (0..11).map(|_| "x".to_string()).chain(["match".to_string()]).collect();
    let out = handle_file("a.txt", "match", &flags, &text);
    assert_eq!(out, strings_of(&["12:match"]));
}

#[test]
fn inverted_lines_are_never_prefixed() {
    // The documented asymmetry: line numbers apply only to hit lines.
    let mut flags = Flags::new();
    flags.show_line_number = true;
    flags.invert_mode = true;
    let out = handle_file("a.txt", "foo", &flags, &lines_of(&["foo", "baz"]));
    assert_eq!(out, strings_of(&["1:foo", "baz"]));
}

#[test]
fn file_name_only_with_invert_keeps_earlier_inverted_lines() {
    // The documented asymmetry: filename collapsing fires on the first hit,
    // but the inverted lines read before it are already reported.
    let mut flags = Flags::new();
    flags.file_name_only = true;
    flags.invert_mode = true;
    let out = handle_file("a.txt", "foo", &flags, &lines_of(&["bar", "foo", "later"]));
    assert_eq!(out, strings_of(&["bar", "a.txt"]));
}

#[test]
fn file_name_only_stops_at_first_hit() {
    let mut flags = Flags::new();
    flags.file_name_only = true;
    let out = handle_file("a.txt", "foo", &flags, &lines_of(&["foo", "foo", "foo"]));
    assert_eq!(out, strings_of(&["a.txt"]));
}

#[test]
fn grep_concatenates_files_in_order() {
    let flags = Flags::new();
    let files = vec![
        FileText { path: "a.txt".to_string(), lines: Some(lines_of(&["foo", "baz"])) },
        FileText { path: "b.txt".to_string(), lines: Some(lines_of(&["nope", "food"])) },
    ];
    let out = grep("foo", &flags, &files);
    assert_eq!(out, strings_of(&["foo", "food"]));
}

#[test]
fn unreadable_file_is_silently_skipped() {
    let flags = Flags::new();
    let readable = FileText { path: "a.txt".to_string(), lines: Some(lines_of(&["foo", "baz"])) };
    let missing = FileText { path: "missing.txt".to_string(), lines: None };
    let both = vec![
        FileText { path: readable.path.clone(), lines: readable.lines.clone() },
        missing,
    ];
    let only = vec![readable];
    assert_eq!(grep("foo", &flags, &both), grep("foo", &flags, &only));
}

#[test]
fn unreadable_file_alone_yields_nothing() {
    let mut flags = Flags::new();
    flags.invert_mode = true;
    let files = vec![FileText { path: "missing.txt".to_string(), lines: None }];
    assert!(grep("foo", &flags, &files).is_empty());
}

#[test]
fn file_name_only_in_grep_reports_each_hit_file() {
    let mut flags = Flags::new();
    flags.file_name_only = true;
    let files = vec![
        FileText { path: "a.txt".to_string(), lines: Some(lines_of(&["foo"])) },
        FileText { path: "b.txt".to_string(), lines: Some(lines_of(&["bar"])) },
        FileText { path: "c.txt".to_string(), lines: Some(lines_of(&["food"])) },
    ];
    let out = grep("foo", &flags, &files);
    assert_eq!(out, strings_of(&["a.txt", "c.txt"]));
}

#[test]
fn decide_line_hit() {
    let flags = Flags::new();
    assert_eq!(decide_line("oba", "foobar", &flags), LineAction::EmitHit);
}

#[test]
fn decide_line_inverted() {
    let mut flags = Flags::new();
    flags.invert_mode = true;
    assert_eq!(decide_line("zzz", "foobar", &flags), LineAction::EmitInverted);
}

#[test]
fn decide_line_ignore() {
    let flags = Flags::new();
    assert_eq!(decide_line("zzz", "foobar", &flags), LineAction::Ignore);
}

#[test]
fn decide_line_hit_wins_over_invert() {
    let mut flags = Flags::new();
    flags.invert_mode = true;
    assert_eq!(decide_line("foo", "foobar", &flags), LineAction::EmitHit);
}

#[test]
fn render_line_with_number() {
    assert_eq!(render_line(&"abc".to_string(), 10, true), "10:abc");
}

#[test]
fn render_line_without_number() {
    assert_eq!(render_line(&"abc".to_string(), 10, false), "abc");
}

#[test]
fn render_line_large_number() {
    assert_eq!(render_line(&"x".to_string(), 90210, true), "90210:x");
}

#[test]
fn contains_folded_cases() {
    assert!(contains_folded("foobar", "OBA", true));
    assert!(!contains_folded("foobar", "OBA", false));
    assert!(contains_folded("foobar", "oba", false));
    assert!(contains_folded("anything", "", true));
    assert!(!contains_folded("short", "much longer", false));
}

#[test]
fn equal_folded_cases() {
    assert!(equal_folded("FooBar", "fOOBAR", true));
    assert!(!equal_folded("FooBar", "fOOBAR", false));
    assert!(equal_folded("same", "same", false));
    assert!(!equal_folded("same", "sameish", true));
}

#[test]
fn new_flags_are_all_off() {
    let flags = Flags::new();
    assert!(!flags.show_line_number);
    assert!(!flags.file_name_only);
    assert!(!flags.case_insensitive);
    assert!(!flags.invert_mode);
    assert!(!flags.entire_line_only);
    assert_eq!(flags.pattern, "");
    assert!(flags.files.is_empty());
}
