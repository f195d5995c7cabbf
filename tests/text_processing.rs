use tag_finder::{DynamicPattern, TagError, TextProcessor};

fn pattern(prefix: &str, suffix: &str) -> DynamicPattern {
    DynamicPattern {
        prefix: prefix.to_string(),
        suffix: suffix.to_string(),
        pattern: format!("{}*{}", prefix, suffix),
        matching_classes: vec![],
    }
}

#[test]
fn exact_word_inside_hyphenated_token_is_not_a_match() {
    let p = TextProcessor::new();
    assert!(!p.find_exact_words("btn-primary button", "btn"));
}

#[test]
fn exact_word_standing_alone_matches() {
    let p = TextProcessor::new();
    assert!(p.find_exact_words("btn primary", "btn"));
}

#[test]
fn exact_word_in_middle_of_token_is_not_a_match() {
    let p = TextProcessor::new();
    assert!(!p.find_exact_words("my-btn-class", "btn"));
}

#[test]
fn exact_word_bounded_by_punctuation() {
    let p = TextProcessor::new();
    assert!(p.find_exact_words("<div class=\"header\">", "header"));
    assert!(p.find_exact_words("x_y", "x_y"));
    assert!(!p.find_exact_words("x_y", "x"));
    assert!(!p.find_exact_words("", "x"));
    assert!(!p.find_exact_words("a.b", "a.b"));
}

#[test]
fn exact_word_unicode_letters_join_tokens() {
    let p = TextProcessor::new();
    assert!(!p.find_exact_words("ébtn", "btn"));
    assert!(p.find_exact_words("é btn", "btn"));
}

#[test]
fn three_names_with_shared_prefix_give_one_pattern() {
    let p = TextProcessor::new();
    let names = vec!["type-fire".to_string(), "type-water".to_string(), "type-grass".to_string()];
    let pats = p.detect_dynamic_patterns(&names);
    assert_eq!(pats.len(), 1);
    assert_eq!(pats[0].prefix, "type-");
    assert_eq!(pats[0].suffix, "");
    assert_eq!(pats[0].pattern, "type-*");
    assert_eq!(pats[0].matching_classes, names);
}

#[test]
fn names_without_separator_give_no_pattern() {
    let p = TextProcessor::new();
    let names = vec!["a".to_string(), "b".to_string()];
    assert!(p.detect_dynamic_patterns(&names).is_empty());
}

#[test]
fn single_member_group_gives_no_pattern() {
    let p = TextProcessor::new();
    let names = vec!["type-fire".to_string(), "size-lg".to_string()];
    assert!(p.detect_dynamic_patterns(&names).is_empty());
}

#[test]
fn pattern_with_prefix_and_suffix() {
    let p = TextProcessor::new();
    let names = vec!["btn-red-lg".to_string(), "header".to_string(), "btn-blue-lg".to_string()];
    let pats = p.detect_dynamic_patterns(&names);
    assert_eq!(pats.len(), 1);
    assert_eq!(pats[0].prefix, "btn-");
    assert_eq!(pats[0].suffix, "-lg");
    assert_eq!(pats[0].pattern, "btn-*-lg");
    assert_eq!(pats[0].matching_classes, vec!["btn-red-lg".to_string(), "btn-blue-lg".to_string()]);
}

#[test]
fn short_prefix_gives_no_pattern() {
    let p = TextProcessor::new();
    let names = vec!["-a".to_string(), "-b".to_string()];
    assert!(p.detect_dynamic_patterns(&names).is_empty());
}

#[test]
fn groups_come_in_order_of_first_appearance() {
    let p = TextProcessor::new();
    let names = vec![
        "size-sm".to_string(),
        "type-fire".to_string(),
        "size-lg".to_string(),
        "type-ice".to_string(),
    ];
    let pats = p.detect_dynamic_patterns(&names);
    assert_eq!(pats.len(), 2);
    assert_eq!(pats[0].prefix, "size-");
    assert_eq!(pats[1].prefix, "type-");
}

#[test]
fn template_interpolation_is_pattern_usage() {
    let p = TextProcessor::new();
    assert!(p.find_pattern_usage("const c = `type-${pokemonType}`;", &pattern("type-", "")));
}

#[test]
fn concatenation_is_pattern_usage() {
    let p = TextProcessor::new();
    assert!(p.find_pattern_usage("el.className = \"type-\" + kind;", &pattern("type-", "")));
    assert!(p.find_pattern_usage("'btn-' + size + '-lg'", &pattern("btn-", "-lg")));
}

#[test]
fn unrelated_content_is_not_pattern_usage() {
    let p = TextProcessor::new();
    assert!(!p.find_pattern_usage("nothing to see here", &pattern("type-", "")));
    assert!(!p.find_pattern_usage("\"type-fire\"", &pattern("type-", "")));
}

#[test]
fn pattern_prefix_is_matched_literally() {
    let p = TextProcessor::new();
    assert!(p.find_pattern_usage("a.b-${x}", &pattern("a.b-", "")));
    assert!(!p.find_pattern_usage("aXb-${x}", &pattern("a.b-", "")));
}

#[test]
fn process_content_skips_comments_and_blank_lines() {
    let p = TextProcessor::new().add_pattern("css_class", r"\.([a-zA-Z][a-zA-Z0-9_-]*)").unwrap();
    let content = "  // .x\n.a .bb\n\n/* .c */\n.dd\r\n   \n.ee";
    let ms = p.process_content(content);
    let got: Vec<(String, String, usize, usize)> = ms
        .iter()
        .map(|m| (m.pattern_name.clone(), m.matched_text.clone(), m.line, m.column))
        .collect();
    assert_eq!(
        got,
        vec![
            ("css_class".to_string(), "a".to_string(), 2, 1),
            ("css_class".to_string(), "bb".to_string(), 2, 4),
            ("css_class".to_string(), "dd".to_string(), 5, 1),
            ("css_class".to_string(), "ee".to_string(), 7, 1),
        ]
    );
}

#[test]
fn process_content_applies_patterns_in_order() {
    let p = TextProcessor::new()
        .add_pattern("id", r"#([a-z]+)")
        .unwrap()
        .add_pattern("class", r"\.([a-z]+)")
        .unwrap();
    let ms = p.process_content(".a #b");
    assert_eq!(ms.len(), 2);
    assert_eq!(ms[0].pattern_name, "id");
    assert_eq!(ms[0].matched_text, "b");
    assert_eq!(ms[1].pattern_name, "class");
    assert_eq!(ms[1].matched_text, "a");
}

#[test]
fn invalid_pattern_is_rejected() {
    let r = TextProcessor::new().add_pattern("bad", "(");
    assert!(matches!(r, Err(TagError::InvalidPattern(_))));
}
