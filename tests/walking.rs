use tag_finder::{
    calculate_progress_step_size, configure_threads, extract_first_element, extract_second_element,
    filter_and_extract, get_file_extension, has_extension, separate_items_by_condition, Config, FileFilter,
    FileWalker, ProgressReporter,
};

#[test]
fn node_modules_is_never_walked() {
    let w = FileWalker::new(".".to_string()).with_config(Config::default());
    assert!(!w.accepts("src/node_modules/lib/index.js"));
    assert!(!w.accepts("node_modules/a.css"));
    assert!(!w.accepts("./node_modules/readme"));
    assert!(w.accepts("src/app.js"));
    assert!(w.accepts("node_modules_old/a.css"));
    assert!(w.accepts("src/my_node_modules/a.ts"));
}

#[test]
fn rules_take_source_and_stylesheet_extensions() {
    let w = FileWalker::new(".".to_string()).with_config(Config::default());
    assert!(w.accepts("a/b.scss"));
    assert!(w.accepts("a/b.tsx"));
    assert!(!w.accepts("a/b.rs"));
    assert!(!w.accepts("a/Makefile"));
    let picked = w.select_files(vec!["x.html".to_string(), "dist/x.js".to_string(), "y.md".to_string(), "z.css".to_string()]);
    assert_eq!(picked, vec!["x.html".to_string(), "z.css".to_string()]);
}

#[test]
fn extension_filter_and_all_files() {
    let w = FileWalker::new(".".to_string()).with_extensions(vec!["rs"]);
    assert!(w.accepts("node_modules/a.rs"));
    assert!(!w.accepts("a.js"));
    let all = FileWalker::new(".".to_string());
    assert!(all.accepts("anything"));
    let custom = FileWalker::new(".".to_string()).with_filter(FileFilter::Extensions(vec!["md".to_string()]));
    assert!(custom.accepts("README.md"));
    assert_eq!(custom.directory(), ".");
}

#[test]
fn thread_count_is_kept() {
    let w = configure_threads(FileWalker::new("d".to_string()), Some(3));
    assert_eq!(w.get_thread_count(), Some(3));
    let w2 = configure_threads(FileWalker::new("d".to_string()), None);
    assert_eq!(w2.get_thread_count(), None);
}

#[test]
fn config_rules() {
    let c = Config::default();
    assert!(c.should_exclude_dir("node_modules"));
    assert!(c.should_exclude_dir("node_modules/pkg"));
    assert!(!c.should_exclude_dir("node_modulesx"));
    assert!(!c.should_exclude_dir("src"));
    assert!(c.should_include_file("a/b.tsx"));
    assert!(!c.should_include_file("a/b.css"));
    assert!(c.is_css_file("a/b.css"));
    assert!(!c.is_css_file("a/b"));
}

#[test]
fn file_extensions() {
    assert_eq!(get_file_extension("a/b.tar.gz"), Some("gz".to_string()));
    assert_eq!(get_file_extension(".bashrc"), None);
    assert_eq!(get_file_extension("dir.x/file"), None);
    assert_eq!(get_file_extension("file."), Some("".to_string()));
    assert_eq!(get_file_extension("x/.hidden.css"), Some("css".to_string()));
    assert!(has_extension("a.css", &["scss", "css"]));
    assert!(!has_extension("a.cs", &["scss", "css"]));
}

#[test]
fn progress_step_size() {
    assert_eq!(calculate_progress_step_size(100, 20), 5);
    assert_eq!(calculate_progress_step_size(10, 20), 1);
    assert_eq!(calculate_progress_step_size(0, 20), 1);
}

#[test]
fn progress_reporter_ticks() {
    let mut p = ProgressReporter::new(3, "Reading".to_string()).with_step_size(2);
    assert!(!p.tick());
    assert!(p.tick());
    assert!(p.tick());
    assert_eq!(p.get_current(), 3);
    assert_eq!(p.status_line(), "Reading 3/3");
    let mut q = ProgressReporter::new(40, "Scan".to_string());
    assert!(!q.tick());
    assert!(q.tick());
    assert_eq!(q.status_line(), "Scan 2/40");
}

#[test]
fn collection_helpers() {
    let items = vec![(1, 'a'), (2, 'b'), (3, 'c')];
    assert_eq!(extract_first_element(items.clone()), vec![1, 2, 3]);
    assert_eq!(extract_second_element(items.clone()), vec!['a', 'b', 'c']);
    assert_eq!(filter_and_extract(items, |p: &(i32, char)| p.0 != 2), vec![1, 3]);
    let (even, odd) = separate_items_by_condition(vec![1, 2, 3, 4, 5], |x: &i32| x % 2 == 0);
    assert_eq!(even, vec![2, 4]);
    assert_eq!(odd, vec![1, 3, 5]);
}

#[test]
fn widest_line_ignores_control_characters() {
    assert_eq!(tag_finder::utils::get_max_line_length("ab\n\u{1b}[1mxyz\n"), 6);
    assert_eq!(tag_finder::utils::get_max_line_length("\tab"), 2);
    assert_eq!(tag_finder::utils::get_max_line_length(""), 60);
    assert_eq!(tag_finder::utils::get_max_line_length("\n"), 0);
}
