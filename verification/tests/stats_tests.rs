use tokei_badge::stats::{
    aggregate, filter_entries, lines, parse_language_filter, ranking_label, sort_by_code_desc,
    LangEntry, LangStats,
};
use tokei_badge::strutil::split_comma;

fn entry(name: &str, code: u64) -> LangEntry {
    LangEntry {
        name: name.to_string(),
        stats: LangStats { code, comments: code / 10, blanks: code / 100, files: 1 },
    }
}

fn names(v: &[LangEntry]) -> Vec<&str> {
    v.iter().map(|e| e.name.as_str()).collect()
}

#[test]
fn sort_is_descending_by_code() {
    let v = vec![entry("A", 5), entry("B", 50), entry("C", 20)];
    let sorted = sort_by_code_desc(v);
    assert_eq!(names(&sorted), vec!["B", "C", "A"]);
}

#[test]
fn sort_is_stable_for_ties() {
    let v = vec![entry("A", 10), entry("B", 10), entry("C", 99), entry("D", 10)];
    let sorted = sort_by_code_desc(v);
    assert_eq!(names(&sorted), vec!["C", "A", "B", "D"]);
}

#[test]
fn aggregate_sums_every_field() {
    let v = vec![
        LangEntry { name: "A".into(), stats: LangStats { code: 1, comments: 2, blanks: 3, files: 4 } },
        LangEntry { name: "B".into(), stats: LangStats { code: 10, comments: 20, blanks: 30, files: 40 } },
    ];
    let total = aggregate(&v);
    assert_eq!(total, LangStats { code: 11, comments: 22, blanks: 33, files: 44 });
    assert_eq!(lines(&total), 11 + 22 + 33);
}

#[test]
fn aggregate_of_nothing_is_zero() {
    let total = aggregate(&Vec::new());
    assert_eq!(total, LangStats { code: 0, comments: 0, blanks: 0, files: 0 });
}

#[test]
fn saturating_sums_do_not_wrap() {
    let v = vec![
        LangEntry { name: "A".into(), stats: LangStats { code: u64::MAX, comments: 0, blanks: 0, files: 0 } },
        LangEntry { name: "B".into(), stats: LangStats { code: 5, comments: 0, blanks: 0, files: 0 } },
    ];
    assert_eq!(aggregate(&v).code, u64::MAX);
}

#[test]
fn empty_filter_keeps_everything() {
    let v = vec![entry("Rust", 1), entry("Python", 2)];
    let kept = filter_entries(v, &Vec::new());
    assert_eq!(names(&kept), vec!["Rust", "Python"]);
}

#[test]
fn filter_keeps_only_named_languages() {
    let v = vec![entry("Rust", 1), entry("Python", 2), entry("C", 3)];
    let kept = filter_entries(v, &vec!["Rust".to_string(), "C".to_string()]);
    assert_eq!(names(&kept), vec!["Rust", "C"]);
}

#[test]
fn language_filter_parses_known_names_and_drops_the_rest() {
    let parsed = parse_language_filter("rust,python,no-such-language");
    assert_eq!(parsed, vec!["Rust".to_string(), "Python".to_string()]);
    // An empty parameter recognizes nothing, so nothing is restricted.
    assert_eq!(parse_language_filter(""), Vec::<String>::new());
}

#[test]
fn ranking_label_cases() {
    let v = vec![entry("Rust", 9), entry("Python", 5)];
    assert_eq!(ranking_label(false, 1, &v), "");
    assert_eq!(ranking_label(true, 1, &v), "Rust");
    assert_eq!(ranking_label(true, 2, &v), "Python");
    assert_eq!(ranking_label(true, 0, &v), "N/A");
    assert_eq!(ranking_label(true, 3, &v), "N/A");
    assert_eq!(ranking_label(true, 1, &Vec::new()), "No Languages");
}

#[test]
fn split_comma_keeps_empty_pieces() {
    assert_eq!(split_comma(""), vec!["".to_string()]);
    assert_eq!(split_comma("a,b"), vec!["a".to_string(), "b".to_string()]);
    assert_eq!(split_comma("a,,b,"), vec!["a".to_string(), "".to_string(), "b".to_string(), "".to_string()]);
}
