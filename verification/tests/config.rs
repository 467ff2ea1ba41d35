use whittle::config::{Config, InternalDots, TrailingDot};

#[test]
fn defaults_match_python_script_behavior() {
    let c = Config::default();
    assert!(c.scope.lowercase);
    assert_eq!(c.scope.replace.len(), 2);
    assert!(c.scope.replace.iter().any(|r| r.from == "/" && r.to == "-"));
    assert!(
        c.scope
            .replace
            .iter()
            .any(|r| r.from == "\\" && r.to == "-")
    );
    assert!(c.description.lowercase);
    assert!(c.description.collapse_whitespace);
    assert_eq!(c.description.trailing_dot, TrailingDot::Strip);
    assert_eq!(c.description.internal_dots, InternalDots::KeepInNumbers);
    assert!(c.description.strip_chars.contains(&'/'));
    assert!(c.description.strip_chars.contains(&'\\'));
    assert!(c.description.strip_chars.contains(&'['));
    assert!(c.description.strip_chars.contains(&']'));
    assert!(c.description.strip_chars.contains(&'{'));
    assert!(c.description.strip_chars.contains(&'}'));
    assert!(!c.body.keep);
    assert!(!c.footers.keep);
    assert!(c.footers.deny.iter().any(|s| s == "Co-Authored-By"));
    assert_eq!(c.rules.max_subject_length, 72);
    assert!(c.rules.require_conventional);
    assert!(c.rules.allowed_types.contains(&"feat".to_string()));
}

#[test]
fn default_type_lowercasing_is_on() {
    assert!(Config::default().type_.lowercase);
}

#[test]
fn default_description_replace_table_is_the_and_rule() {
    let c = Config::default();
    let table: Vec<(&str, &str, bool)> = c
        .description
        .replace
        .iter()
        .map(|r| (r.from.as_str(), r.to.as_str(), r.regex))
        .collect();
    assert_eq!(table, vec![(r"\band\b", "&", true)]);
}
