use whittle::config::Config;
use whittle::diagnostic::Severity;
use whittle::lint::lint;
use whittle::transform::CommitParts;

fn parse(raw: &str) -> CommitParts {
    CommitParts::parse(raw).expect("parse")
}

#[test]
fn allowed_type_passes() {
    let p = parse("feat: x");
    let diags = lint(&p, &Config::default());
    assert!(diags.is_empty());
}

#[test]
fn disallowed_type_fails() {
    let p = parse("wip: hack");
    let diags = lint(&p, &Config::default());
    assert_eq!(diags.len(), 1);
    assert_eq!(diags[0].code, "type.disallowed");
}

#[test]
fn empty_allowed_types_skips_check() {
    let mut cfg = Config::default();
    cfg.rules.allowed_types = vec![];
    let p = parse("wip: hack");
    let diags = lint(&p, &cfg);
    assert!(diags.iter().all(|d| d.code != "type.disallowed"));
}

#[test]
fn allowed_types_case_insensitive() {
    let mut cfg = Config::default();
    cfg.rules.allowed_types = vec!["FEAT".into()];
    let p = parse("feat: x");
    assert!(lint(&p, &cfg).is_empty());
}

#[test]
fn exact_max_subject_length_passes() {
    let desc: String = "x".repeat(72 - "feat: ".len());
    let raw = format!("feat: {desc}");
    let p = parse(&raw);
    assert_eq!(p.subject().chars().count(), 72);
    assert!(lint(&p, &Config::default()).is_empty());
}

#[test]
fn one_over_max_subject_length_fails() {
    let desc: String = "x".repeat(73 - "feat: ".len());
    let raw = format!("feat: {desc}");
    let p = parse(&raw);
    let diags = lint(&p, &Config::default());
    assert!(diags.iter().any(|d| d.code == "subject.too-long"));
}

#[test]
fn subject_length_counts_unicode_scalars_not_bytes() {
    let desc: String = "é".repeat(60);
    let raw = format!("feat: {desc}");
    let p = parse(&raw);
    let subject_chars = p.subject().chars().count();
    assert_eq!(subject_chars, 66);
    assert!(lint(&p, &Config::default()).is_empty());
}

#[test]
fn multiple_diagnostics_reported() {
    let mut cfg = Config::default();
    cfg.rules.max_subject_length = 5;
    cfg.rules.allowed_types = vec!["fix".into()];
    let p = parse("feat: too long for sure");
    let diags = lint(&p, &cfg);
    let codes: Vec<&str> = diags.iter().map(|d| d.code).collect();
    assert!(codes.contains(&"type.disallowed"));
    assert!(codes.contains(&"subject.too-long"));
}

#[test]
fn lint_messages_quote_the_numbers() {
    let mut cfg = Config::default();
    cfg.rules.max_subject_length = 5;
    cfg.rules.allowed_types = vec!["fix".into(), "docs".into()];
    let p = parse("feat: abc");
    let diags = lint(&p, &cfg);
    assert_eq!(diags.len(), 2);
    assert!(diags.iter().all(|d| d.severity == Severity::Error));
    assert_eq!(
        diags[0].message(),
        "type `feat` is not in allowed_types (fix, docs)"
    );
    assert_eq!(diags[1].message(), "subject is 9 chars; max allowed is 5");
    assert_eq!(diags[1].detail.as_deref(), Some("9/5"));
}
