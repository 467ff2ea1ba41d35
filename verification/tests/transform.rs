use whittle::config::{Config, InternalDots, Replace, TrailingDot};
use whittle::diagnostic::Severity;
use whittle::transform::{
    apply_replace, collapse_whitespace, strip_dots_outside_numbers, strip_chars, strip_trailing_dots,
    transform, CommitParts, Footer,
};

fn defaults() -> Config {
    Config::default()
}

fn fix(raw: &str) -> String {
    let mut parts = CommitParts::parse(raw).expect("parse");
    let _diags = transform(&mut parts, &defaults());
    parts.render()
}

#[test]
fn collapse_whitespace_collapses_runs() {
    assert_eq!(collapse_whitespace("a   b\t\tc\n\nd"), "a b c d");
}

#[test]
fn collapse_whitespace_no_change_for_single_spaces() {
    assert_eq!(collapse_whitespace("a b c"), "a b c");
}

#[test]
fn strip_trailing_dots_removes_multiple() {
    assert_eq!(strip_trailing_dots("foo..."), "foo");
    assert_eq!(strip_trailing_dots("foo"), "foo");
    assert_eq!(strip_trailing_dots(""), "");
}

#[test]
fn strip_dots_outside_numbers_keeps_version() {
    assert_eq!(
        strip_dots_outside_numbers("bump 1.2.3 yes"),
        "bump 1.2.3 yes"
    );
}

#[test]
fn strip_dots_outside_numbers_strips_between_letters() {
    assert_eq!(strip_dots_outside_numbers("readme.md"), "readmemd");
}

#[test]
fn strip_dots_outside_numbers_strips_at_edges() {
    assert_eq!(strip_dots_outside_numbers(".foo."), "foo");
}

#[test]
fn strip_dots_outside_numbers_strips_digit_then_letter() {
    assert_eq!(strip_dots_outside_numbers("v0.x"), "v0x");
}

#[test]
fn apply_replace_regex_word_boundary() {
    let r = Replace {
        from: r"\band\b".into(),
        to: "&".into(),
        regex: true,
    };
    assert_eq!(apply_replace("foo and bar", &r), "foo & bar");
    assert_eq!(apply_replace("band aid", &r), "band aid");
    assert_eq!(apply_replace("Land", &r), "Land");
}

#[test]
fn apply_replace_literal() {
    let r = Replace {
        from: "/".into(),
        to: "-".into(),
        regex: false,
    };
    assert_eq!(apply_replace("a/b/c", &r), "a-b-c");
}

#[test]
fn apply_replace_invalid_regex_falls_through() {
    let r = Replace {
        from: "[invalid".into(),
        to: "x".into(),
        regex: true,
    };
    assert_eq!(apply_replace("hello", &r), "hello");
}

#[test]
fn footer_render_reinstates_space_after_colon() {
    let f = Footer {
        token: "Co-Authored-By".into(),
        separator: ":".into(),
        value: "Alice <a@b>".into(),
    };
    assert_eq!(f.render(), "Co-Authored-By: Alice <a@b>");
}

#[test]
fn footer_render_keeps_hash_separator_style() {
    let p = CommitParts::parse("feat: x\n\nRefs #12").unwrap();
    let f = p.footers.first().expect("one footer");
    assert_eq!(f.separator, " #", "parser separator shape changed");
    assert_eq!(f.render(), "Refs #12");
}

#[test]
fn ref_style_footers_survive_a_keep_round_trip() {
    let raw = "feat: x\n\nbody\n\nCloses #128\nRefs #12";
    let mut cfg = Config::default();
    cfg.body.keep = true;
    cfg.footers.keep = true;
    cfg.footers.deny = vec![];
    let mut p = CommitParts::parse(raw).unwrap();
    let _diags = transform(&mut p, &cfg);
    let out = p.render();
    assert!(out.contains("Closes #128"), "got: {out}");
    assert!(out.contains("Refs #12"), "got: {out}");
    assert!(!out.contains("# 12"), "extra space injected: {out}");
}

#[test]
fn denied_footer_diagnostic_quotes_a_valid_trailer() {
    let raw = "feat: x\n\nCo-Authored-By: Alice <a@b>";
    let mut cfg = Config::default();
    cfg.footers.keep = true;
    let mut p = CommitParts::parse(raw).unwrap();
    let diags = transform(&mut p, &cfg);
    let d = diags
        .iter()
        .find(|d| d.code == "footer.denied")
        .expect("footer.denied");
    assert_eq!(d.before.as_deref(), Some("Co-Authored-By: Alice <a@b>"));
    assert_eq!(d.detail.as_deref(), Some("Co-Authored-By"));
}

#[test]
fn dropped_footers_diagnostic_quotes_valid_trailers() {
    let raw = "feat: x\n\nCo-Authored-By: Alice <a@b>\nRefs: #12";
    let mut p = CommitParts::parse(raw).unwrap();
    let diags = transform(&mut p, &defaults());
    let d = diags
        .iter()
        .find(|d| d.code == "footers.dropped")
        .expect("footers.dropped");
    assert_eq!(
        d.before.as_deref(),
        Some("Co-Authored-By: Alice <a@b>\nRefs: #12")
    );
}

#[test]
fn kept_footers_round_trip_as_valid_trailers() {
    let raw = "feat: x\n\nbody\n\nCo-Authored-By: Alice <a@b>\nRefs: #12";
    let mut cfg = Config::default();
    cfg.body.keep = true;
    cfg.footers.keep = true;
    cfg.footers.deny = vec![];
    let mut p = CommitParts::parse(raw).unwrap();
    let _diags = transform(&mut p, &cfg);
    let out = p.render();
    assert!(out.contains("Co-Authored-By: Alice <a@b>"), "got: {out}");
    assert!(out.contains("Refs: #12"), "got: {out}");
}

#[test]
fn empty_body_produces_no_dropped_diagnostic() {
    let raw = "feat: x\n\n \n\nRefs: #1";
    let mut p = CommitParts::parse(raw).unwrap();
    let diags = transform(&mut p, &defaults());
    assert!(
        !diags.iter().any(|d| d.code == "body.dropped"),
        "whitespace-only body has nothing to report as removed"
    );
}

#[test]
fn type_lowercasing_is_independent_of_scope_lowercasing() {
    let mut cfg = Config::default();
    cfg.scope.lowercase = false;
    let mut p = CommitParts::parse("Chore(API): Bump Thing").unwrap();
    let diags = transform(&mut p, &cfg);
    assert_eq!(p.type_, "chore");
    assert_eq!(p.scope.as_deref(), Some("API"));
    assert!(diags.iter().any(|d| d.code == "type.lowercased"));
}

#[test]
fn type_lowercasing_can_be_disabled_on_its_own() {
    let mut cfg = Config::default();
    cfg.type_.lowercase = false;
    let mut p = CommitParts::parse("Chore: Bump Thing").unwrap();
    let diags = transform(&mut p, &cfg);
    assert_eq!(p.type_, "Chore");
    assert!(!diags.iter().any(|d| d.code == "type.lowercased"));
}

#[test]
fn type_diagnostic_precedes_description_diagnostics() {
    let mut p = CommitParts::parse("Chore: Bump Thing").unwrap();
    let diags = transform(&mut p, &defaults());
    let first = diags.first().expect("at least one diagnostic");
    assert_eq!(first.code, "type.lowercased");
}

#[test]
fn parse_simple_conventional() {
    let p = CommitParts::parse("feat: add thing").unwrap();
    assert_eq!(p.type_, "feat");
    assert_eq!(p.scope, None);
    assert!(!p.breaking);
    assert_eq!(p.description, "add thing");
}

#[test]
fn parse_with_scope() {
    let p = CommitParts::parse("fix(api): handle null").unwrap();
    assert_eq!(p.scope.as_deref(), Some("api"));
}

#[test]
fn parse_breaking_bang() {
    let p = CommitParts::parse("feat!: drop legacy api").unwrap();
    assert!(p.breaking);
}

#[test]
fn parse_breaking_via_footer() {
    let raw = "feat: rework api\n\nBREAKING CHANGE: clients must migrate";
    let p = CommitParts::parse(raw).unwrap();
    assert!(p.breaking);
}

#[test]
fn parse_with_body_and_footers() {
    let raw =
        "feat(api): add probe\n\nLonger explanation.\n\nCo-Authored-By: A <a@x>\nRefs: #42";
    let p = CommitParts::parse(raw).unwrap();
    assert_eq!(p.body.as_deref(), Some("Longer explanation."));
    assert_eq!(p.footers.len(), 2);
    assert_eq!(p.footers[0].token, "Co-Authored-By");
}

#[test]
fn parse_non_conventional_errors() {
    assert!(CommitParts::parse("just words").is_err());
}

#[test]
fn render_preserves_structure() {
    let raw = "feat(api): add probe\n\nbody";
    let p = CommitParts::parse(raw).unwrap();
    let rendered = p.render();
    assert!(rendered.starts_with("feat(api): add probe"));
    assert!(rendered.contains("body"));
}

#[test]
fn render_breaking_bang_included() {
    let p = CommitParts {
        type_: "feat".into(),
        scope: None,
        breaking: true,
        description: "x".into(),
        body: None,
        footers: vec![],
    };
    assert_eq!(p.render(), "feat!: x");
}

#[test]
fn subject_combines_components() {
    let p = CommitParts {
        type_: "fix".into(),
        scope: Some("api".into()),
        breaking: false,
        description: "foo".into(),
        body: None,
        footers: vec![],
    };
    assert_eq!(p.subject(), "fix(api): foo");
}

#[test]
fn transform_scope_lowercases_and_replaces_slash() {
    let out = fix("fix(API/Users): NULL");
    assert_eq!(out, "fix(api-users): null");
}

#[test]
fn transform_description_strips_brackets() {
    let out = fix("fix: a [b] c {d} e");
    assert_eq!(out, "fix: a b c d e");
}

#[test]
fn transform_description_strips_backslash() {
    let out = fix(r"fix: path a\b\c");
    assert_eq!(out, "fix: path abc");
}

#[test]
fn transform_description_collapses_whitespace() {
    let out = fix("fix:   foo    bar");
    assert_eq!(out, "fix: foo bar");
}

#[test]
fn transform_description_strips_trailing_dot() {
    let out = fix("fix: foo.");
    assert_eq!(out, "fix: foo");
}

#[test]
fn transform_description_keeps_version_dots() {
    let out = fix("chore: bump foo 1.2.3");
    assert_eq!(out, "chore: bump foo 1.2.3");
}

#[test]
fn transform_description_strips_internal_non_version_dot() {
    let out = fix("docs: update readme.md");
    assert_eq!(out, "docs: update readmemd");
}

#[test]
fn transform_drops_body_by_default() {
    let out = fix("feat: x\n\nbody text here");
    assert_eq!(out, "feat: x");
}

#[test]
fn transform_drops_all_footers_by_default() {
    let out = fix("feat: x\n\nbody\n\nRefs: #1\nReviewed-by: alice");
    assert_eq!(out, "feat: x");
}

#[test]
fn transform_keeps_body_when_configured() {
    let mut cfg = Config::default();
    cfg.body.keep = true;
    let mut p = CommitParts::parse("feat: x\n\nbody text").unwrap();
    let _diags = transform(&mut p, &cfg);
    assert!(p.render().contains("body text"));
}

#[test]
fn transform_keeps_non_denied_footers_when_configured() {
    let mut cfg = Config::default();
    cfg.footers.keep = true;
    cfg.footers.deny = vec!["Co-Authored-By".into()];
    let raw = "feat: x\n\nbody\n\nCo-Authored-By: a <a@x>\nRefs: #1";
    let mut p = CommitParts::parse(raw).unwrap();
    let _diags = transform(&mut p, &cfg);
    let rendered = p.render();
    assert!(!rendered.contains("Co-Authored-By"));
    assert!(rendered.contains("Refs"));
}

#[test]
fn transform_footer_deny_is_case_insensitive() {
    let mut cfg = Config::default();
    cfg.footers.keep = true;
    cfg.footers.deny = vec!["co-authored-by".into()];
    let raw = "feat: x\n\nbody\n\nCo-Authored-By: a <a@x>";
    let mut p = CommitParts::parse(raw).unwrap();
    let _diags = transform(&mut p, &cfg);
    assert!(!p.render().contains("Co-Authored-By"));
}

#[test]
fn transform_handles_breaking_bang() {
    let out = fix("Feat!: Drop Legacy API");
    assert_eq!(out, "feat!: drop legacy api");
}

#[test]
fn transform_handles_breaking_with_scope() {
    let out = fix("Feat(API)!: Drop /v1");
    assert_eq!(out, "feat(api)!: drop v1");
}

#[test]
fn transform_lowercases_uppercase_and() {
    let out = fix("Chore: A AND B");
    assert_eq!(out, "chore: a & b");
}

#[test]
fn transform_does_not_replace_inner_and() {
    let out = fix("fix: handle band aid");
    assert_eq!(out, "fix: handle band aid");
}

#[test]
fn transform_internal_dots_none_strips_all() {
    let mut cfg = Config::default();
    cfg.description.internal_dots = InternalDots::NoDots;
    let mut p = CommitParts::parse("chore: bump 1.2.3").unwrap();
    let _diags = transform(&mut p, &cfg);
    assert_eq!(p.description, "bump 123");
}

#[test]
fn transform_trailing_dot_keep() {
    let mut cfg = Config::default();
    cfg.description.trailing_dot = TrailingDot::Keep;
    cfg.description.internal_dots = InternalDots::All;
    let mut p = CommitParts::parse("chore: foo.").unwrap();
    let _diags = transform(&mut p, &cfg);
    assert_eq!(p.description, "foo.");
}

#[test]
fn transform_lowercase_disabled_keeps_case() {
    let mut cfg = Config::default();
    cfg.description.lowercase = false;
    cfg.scope.lowercase = false;
    let mut p = CommitParts::parse("Fix(API): Handle Null").unwrap();
    let _diags = transform(&mut p, &cfg);
    assert_eq!(p.scope.as_deref(), Some("API"));
    assert_eq!(p.description, "Handle Null");
}

#[test]
fn transform_multiple_replace_rules() {
    let mut cfg = Config::default();
    cfg.description.replace = vec![
        Replace {
            from: "foo".into(),
            to: "FOO".into(),
            regex: false,
        },
        Replace {
            from: "FOO".into(),
            to: "bar".into(),
            regex: false,
        },
    ];
    let mut p = CommitParts::parse("fix: foo here").unwrap();
    let _diags = transform(&mut p, &cfg);
    assert_eq!(p.description, "bar here");
}

#[test]
fn transform_empty_strip_chars_is_noop() {
    let mut cfg = Config::default();
    cfg.description.strip_chars = vec![];
    let mut p = CommitParts::parse("fix: [keep] /these\\").unwrap();
    let _diags = transform(&mut p, &cfg);
    assert!(p.description.contains('['));
    assert!(p.description.contains('/'));
}

#[test]
fn transform_scope_with_multiple_slashes() {
    let out = fix("feat(a/b/c/d): x");
    assert_eq!(out, "feat(a-b-c-d): x");
}

#[test]
fn transform_idempotent() {
    let out1 = fix("Chore: Bump A and B.");
    let out2 = {
        let mut p = CommitParts::parse(&out1).unwrap();
        let _diags = transform(&mut p, &defaults());
        p.render()
    };
    assert_eq!(out1, out2);
}

#[test]
fn transform_preserves_unicode() {
    let out = fix("feat: café résumé");
    assert_eq!(out, "feat: café résumé");
}

#[test]
fn transform_diagnostics_are_warnings_that_change_something() {
    let mut p = CommitParts::parse("Chore(API/X): Bump A and B.\n\nbody\n\nRefs: #1").unwrap();
    let diags = transform(&mut p, &defaults());
    assert!(!diags.is_empty());
    for d in &diags {
        assert_eq!(d.severity, Severity::Warning);
        assert!(!d.applied);
        assert_ne!(d.before, d.after);
    }
    assert_eq!(p.render(), "chore(api-x): bump a & b");
}

#[test]
fn a_clean_message_yields_no_diagnostics() {
    let mut p = CommitParts::parse("fix(api): handle null ids").unwrap();
    let diags = transform(&mut p, &defaults());
    assert!(diags.is_empty());
    assert_eq!(p.render(), "fix(api): handle null ids");
}

#[test]
fn strip_chars_removes_every_listed_char() {
    assert_eq!(strip_chars("a[b]/c", &['[', ']', '/']), "abc");
    assert_eq!(strip_chars("abc", &[]), "abc");
}

#[test]
fn collapse_whitespace_keeps_one_space_at_the_ends() {
    assert_eq!(collapse_whitespace("  a  b  "), " a b ");
    assert_eq!(collapse_whitespace(""), "");
}

#[test]
fn parse_rejects_an_empty_message() {
    let e = CommitParts::parse("").unwrap_err();
    assert!(e.starts_with("not a conventional commit: "), "got: {e}");
}

#[test]
fn render_joins_body_and_footers_with_blank_lines() {
    let p = CommitParts {
        type_: "feat".into(),
        scope: Some("api".into()),
        breaking: false,
        description: "x".into(),
        body: Some("why".into()),
        footers: vec![Footer {
            token: "Refs".into(),
            separator: ":".into(),
            value: "#1".into(),
        }],
    };
    assert_eq!(p.render(), "feat(api): x\n\nwhy\n\nRefs: #1");
}

#[test]
fn a_fixed_message_is_left_alone_on_a_second_pass() {
    let out1 = fix("fix: foo. ");
    let mut p = CommitParts::parse(&out1).unwrap();
    let diags = transform(&mut p, &defaults());
    assert!(diags.is_empty());
    assert_eq!(p.render(), out1);
}
