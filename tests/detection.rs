use tag_finder::{Config, CssParser, UnusedDetector};

fn files(v: &[(&str, &str)]) -> Vec<(String, String)> {
    v.iter().map(|(p, c)| (p.to_string(), c.to_string())).collect()
}

fn names(v: &[tag_finder::CssClass]) -> Vec<String> {
    v.iter().map(|c| c.name.clone()).collect()
}

#[test]
fn header_used_footer_unused() {
    let d = UnusedDetector::new(".".to_string());
    let r = d
        .report_for_files(files(&[("style.css", ".header{}.footer{}"), ("index.html", "<div class=\"header\">")]))
        .unwrap();
    assert_eq!(r.total_classes, 2);
    assert_eq!(names(&r.used_classes), vec!["header".to_string()]);
    assert_eq!(names(&r.unused_classes), vec!["footer".to_string()]);
    assert_eq!(r.by_file.len(), 1);
    assert_eq!(r.by_file[0].0, "style.css");
    let entries: Vec<(String, bool)> = r.by_file[0].1.iter().map(|u| (u.class.name.clone(), u.is_unused)).collect();
    assert_eq!(entries, vec![("header".to_string(), false), ("footer".to_string(), true)]);
}

#[test]
fn class_referenced_only_from_another_stylesheet_is_unused() {
    let d = UnusedDetector::new(".".to_string());
    let r = d
        .report_for_files(files(&[("a.css", ".card{}"), ("b.scss", ".panel { @extend .card; }")]))
        .unwrap();
    assert_eq!(r.total_classes, 3);
    assert!(r.used_classes.is_empty());
    assert_eq!(names(&r.unused_classes), vec!["card".to_string(), "panel".to_string(), "card".to_string()]);
    assert_eq!(r.by_file.len(), 2);
}

#[test]
fn dynamic_pattern_rescues_classes() {
    let d = UnusedDetector::new(".".to_string());
    let r = d
        .report_for_files(files(&[
            ("types.css", ".type-fire{}\n.type-water{}\n.lonely{}"),
            ("app.js", "const c = `type-${kind}`;"),
        ]))
        .unwrap();
    assert_eq!(r.total_classes, 3);
    assert_eq!(names(&r.used_classes), vec!["type-fire".to_string(), "type-water".to_string()]);
    assert_eq!(names(&r.unused_classes), vec!["lonely".to_string()]);
}

#[test]
fn exact_matches_come_before_pattern_matches() {
    let d = UnusedDetector::new(".".to_string());
    let r = d
        .report_for_files(files(&[
            ("s.css", ".type-fire{}\n.header{}\n.type-water{}"),
            ("app.js", "x = `type-${k}`; h = 'header';"),
        ]))
        .unwrap();
    assert_eq!(names(&r.used_classes), vec!["header".to_string(), "type-fire".to_string(), "type-water".to_string()]);
    assert!(r.unused_classes.is_empty());
    assert_eq!(r.total_classes, r.used_classes.len() + r.unused_classes.len());
}

#[test]
fn shared_suffix_narrows_the_pattern() {
    let d = UnusedDetector::new(".".to_string());
    let r = d
        .report_for_files(files(&[("s.css", ".type-fire{}\n.type-ice{}"), ("app.js", "x = `type-${k}`;")]))
        .unwrap();
    assert!(r.used_classes.is_empty());
    assert_eq!(names(&r.unused_classes), vec!["type-fire".to_string(), "type-ice".to_string()]);
}

#[test]
fn only_configured_stylesheets_are_extracted() {
    let mut config = Config::default();
    config.scan.css_extensions = vec!["less".to_string()];
    let d = UnusedDetector::new(".".to_string()).with_config(config);
    let r = d.report_for_files(files(&[("a.less", ".alpha{}"), ("b.css", ".beta{}")])).unwrap();
    assert_eq!(r.total_classes, 1);
    assert_eq!(r.unused_classes[0].name, "alpha");
    assert_eq!(r.unused_classes[0].file, "a.less");
}

#[test]
fn empty_input_gives_empty_report() {
    let d = UnusedDetector::new(".".to_string());
    let r = d.report_for_files(vec![]).unwrap();
    assert_eq!(r.total_classes, 0);
    assert!(r.by_file.is_empty());
}

#[test]
fn by_file_groups_each_class_once() {
    let d = UnusedDetector::new(".".to_string());
    let r = d
        .report_for_files(files(&[("a.css", ".one{} .two{}"), ("b.css", ".one{}"), ("x.html", "one")]))
        .unwrap();
    assert_eq!(r.total_classes, 3);
    let total: usize = r.by_file.iter().map(|g| g.1.len()).sum();
    assert_eq!(total, 3);
    assert_eq!(r.by_file[0].0, "a.css");
    assert_eq!(r.by_file[1].0, "b.css");
    for (file, entries) in &r.by_file {
        for e in entries {
            assert_eq!(&e.class.file, file);
        }
    }
}

#[test]
fn extraction_keeps_first_declaration_per_file() {
    let p = CssParser::new();
    let r = p
        .extract_classes_parallel(files(&[
            ("a.css", ".btn .btn\n.btn-primary .x1 .12 .a\n// .skipped\n.btn"),
            ("b.css", ".btn"),
        ]))
        .unwrap();
    let got: Vec<(String, String, usize)> = r.iter().map(|c| (c.name.clone(), c.file.clone(), c.line)).collect();
    assert_eq!(
        got,
        vec![
            ("btn".to_string(), "a.css".to_string(), 1),
            ("btn-primary".to_string(), "a.css".to_string(), 2),
            ("x1".to_string(), "a.css".to_string(), 2),
            ("btn".to_string(), "b.css".to_string(), 1),
        ]
    );
}

#[test]
fn extraction_twice_gives_same_result() {
    let p = CssParser::new();
    let input = files(&[("a.css", ".b1 .b2 .b1\n.b3")]);
    let r1 = p.extract_classes_parallel(input.clone()).unwrap();
    let r2 = p.extract_classes_parallel(input).unwrap();
    let v1: Vec<(String, String, usize)> = r1.iter().map(|c| (c.name.clone(), c.file.clone(), c.line)).collect();
    let v2: Vec<(String, String, usize)> = r2.iter().map(|c| (c.name.clone(), c.file.clone(), c.line)).collect();
    assert_eq!(v1, v2);
    assert_eq!(v1.len(), 3);
}

#[test]
fn unused_classes_of_one_file() {
    let d = UnusedDetector::new(".".to_string());
    let r = d
        .report_for_files(files(&[("a.css", ".one{} .two{}"), ("b.css", ".three{}"), ("x.html", "one")]))
        .unwrap();
    let a: Vec<String> = r.get_unused_classes_in_file("a.css").iter().map(|u| u.class.name.clone()).collect();
    assert_eq!(a, vec!["two".to_string()]);
    assert!(r.get_unused_classes_in_file("a.css").iter().all(|u| u.is_unused));
    assert_eq!(r.get_unused_classes_in_file("b.css").len(), 1);
    assert!(r.get_unused_classes_in_file("missing.css").is_empty());
}
