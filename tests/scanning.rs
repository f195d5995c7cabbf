use tag_finder::{Config, FileScanner};

fn files(v: &[(&str, &str)]) -> Vec<(String, String)> {
    v.iter().map(|(p, c)| (p.to_string(), c.to_string())).collect()
}

#[test]
fn found_only_in_stylesheets_is_css_only() {
    let s = FileScanner::new();
    let r = s.scan("btn".to_string(), files(&[("a.css", ".btn{}"), ("b.scss", ".btn {}"), ("c.ts", "other")]));
    assert!(r.is_css_only);
    assert_eq!(r.css_files, vec!["a.css".to_string(), "b.scss".to_string()]);
    assert!(r.other_files.is_empty());
}

#[test]
fn found_in_stylesheet_and_script_is_not_css_only() {
    let s = FileScanner::new();
    let r = s.scan("btn".to_string(), files(&[("a.css", ".btn{}"), ("c.ts", "el.classList.add('btn')")]));
    assert!(!r.is_css_only);
    assert_eq!(r.css_files, vec!["a.css".to_string()]);
    assert_eq!(r.other_files, vec!["c.ts".to_string()]);
}

#[test]
fn not_found_anywhere_is_not_css_only() {
    let s = FileScanner::new();
    let r = s.scan("btn".to_string(), files(&[("a.css", ".button{}")]));
    assert!(!r.is_css_only);
    assert!(r.css_files.is_empty());
    assert!(r.other_files.is_empty());
}

#[test]
fn word_with_special_characters_uses_substring_search() {
    let s = FileScanner::new();
    let r = s.scan("a.b".to_string(), files(&[("x.js", "call(a.bc)"), ("y.js", "a b")]));
    assert_eq!(r.other_files, vec!["x.js".to_string()]);
    assert!(r.css_files.is_empty());
}

#[test]
fn configured_stylesheet_extensions_are_used() {
    let mut config = Config::default();
    config.scan.css_extensions = vec!["less".to_string()];
    let s = FileScanner::new().with_config(config);
    let r = s.scan("btn".to_string(), files(&[("a.less", ".btn{}"), ("a.css", ".btn{}")]));
    assert_eq!(r.css_files, vec!["a.less".to_string()]);
    assert_eq!(r.other_files, vec!["a.css".to_string()]);
    assert!(!r.is_css_only);
}

#[test]
fn file_matches_follows_word_rule() {
    let s = FileScanner::new();
    assert!(s.file_matches("btn", "a btn b"));
    assert!(!s.file_matches("btn", "btn-x"));
    assert!(s.is_css_file("dir/a.scss"));
    assert!(!s.is_css_file("dir/a.ts"));
}

#[test]
fn result_display_decisions() {
    let s = FileScanner::new();
    let css_only = s.scan("btn".to_string(), files(&[("a.css", "btn")]));
    let mixed = s.scan("btn".to_string(), files(&[("a.css", "btn"), ("a.js", "btn")]));
    let none = s.scan("btn".to_string(), files(&[("a.js", "x")]));
    assert!(tag_finder::scanner::should_show_results(&css_only, false));
    assert!(!tag_finder::scanner::should_show_results(&mixed, false));
    assert!(tag_finder::scanner::should_show_results(&mixed, true));
    assert!(tag_finder::scanner::has_non_css_matches(&mixed));
    assert!(!tag_finder::scanner::has_non_css_matches(&css_only));
    assert!(!tag_finder::scanner::has_non_css_matches(&none));
}
