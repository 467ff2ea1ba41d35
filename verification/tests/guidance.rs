use whittle::config::{Config, InternalDots, Replace};
use whittle::diagnostic::{Diagnostic, Field};
use whittle::guidance::{guidance, mangled_description, rules, MAX_MANGLING_CHECK_LEN};

fn diag(code: &'static str) -> Diagnostic {
    Diagnostic::transform(code, Field::Description)
}

#[test]
fn only_tripped_rules_are_emitted() {
    let g = guidance(&[diag("description.trailing-dot")], &Config::default());
    assert_eq!(g.len(), 1);
    assert!(g[0].contains("do not end the subject"));
}

#[test]
fn repeated_codes_yield_one_line() {
    let g = guidance(
        &[
            diag("description.dots-stripped"),
            diag("description.dots-stripped"),
        ],
        &Config::default(),
    );
    assert_eq!(g.len(), 1);
}

#[test]
fn dots_rule_follows_internal_dots_setting() {
    let mut cfg = Config::default();
    cfg.description.internal_dots = InternalDots::NoDots;
    let g = guidance(&[diag("description.dots-stripped")], &cfg);
    assert!(g[0].contains("at all"), "got: {g:?}");

    cfg.description.internal_dots = InternalDots::KeepInNumbers;
    let g = guidance(&[diag("description.dots-stripped")], &cfg);
    assert!(g[0].contains("only between digits"), "got: {g:?}");
}

#[test]
fn lossy_transforms_are_called_out() {
    let g = guidance(
        &[diag("body.dropped"), diag("footers.dropped")],
        &Config::default(),
    );
    assert!(g.iter().any(|l| l.contains("body is discarded")));
    assert!(g.iter().any(|l| l.contains("Co-Authored-By")));
}

#[test]
fn disallowed_type_lists_the_allowed_ones() {
    let mut cfg = Config::default();
    cfg.rules.allowed_types = vec!["feat".into(), "fix".into()];
    let g = guidance(&[diag("type.disallowed")], &cfg);
    assert_eq!(g[0], "use one of these types: feat, fix");
}

fn ruined(description: &str) -> Vec<(String, String)> {
    mangled_description(description, &Config::default().description)
}

#[test]
fn fusing_two_words_is_mangling() {
    assert_eq!(
        ruined("restore actions/checkout in release.yml"),
        vec![
            (
                "actions/checkout".to_string(),
                "actionscheckout".to_string()
            ),
            ("release.yml".to_string(), "releaseyml".to_string()),
        ]
    );
}

#[test]
fn three_words_fused_report_the_authored_spelling() {
    assert_eq!(
        ruined("handle src/lib.rs error"),
        vec![("src/lib.rs".to_string(), "srclibrs".to_string())]
    );
}

#[test]
fn a_short_segment_still_counts_once_it_joins_a_longer_run() {
    assert_eq!(
        ruined("handle src/a.rs error"),
        vec![("src/a.rs".to_string(), "srcars".to_string())]
    );
}

#[test]
fn trailing_dot_removal_is_not_mangling() {
    assert!(ruined("bump a & b.").is_empty());
}

#[test]
fn bracket_removal_at_token_edges_is_not_mangling() {
    assert!(ruined("handle [null] ids").is_empty());
}

#[test]
fn version_pins_are_not_mangling() {
    assert!(ruined("pin node 24.x").is_empty());
    assert!(ruined("drop the 0.x fallback").is_empty());
    assert!(ruined("bump serde to 1.2.3-rc.1").is_empty());
    assert!(ruined("fix e.g. spacing").is_empty());
}

#[test]
fn a_replaced_word_is_not_examined_here() {
    assert!(ruined("bump a and b").is_empty());
}

#[test]
fn a_replace_rule_causing_fusion_is_not_flagged() {
    let mut cfg = Config::default().description;
    cfg.replace = vec![Replace {
        from: ":".into(),
        to: String::new(),
        regex: false,
    }];
    assert!(mangled_description("handle src:lib error", &cfg).is_empty());
}

#[test]
fn isolated_punctuation_tokens_fuse_nothing() {
    assert!(ruined("bump a & b .").is_empty());
    assert!(ruined("split a / b comparison").is_empty());
}

#[test]
fn no_spaces_around_the_separator_still_fuses() {
    assert_eq!(
        ruined("split release/notes.here"),
        vec![(
            "release/notes.here".to_string(),
            "releasenoteshere".to_string()
        )]
    );
}

#[test]
fn lowercasing_alone_is_not_mangling() {
    assert!(ruined("Bump A").is_empty());
}

#[test]
fn a_repeated_word_does_not_hide_a_real_fusion() {
    assert_eq!(
        ruined("rename node.js to nodejs"),
        vec![("node.js".to_string(), "nodejs".to_string())]
    );
}

#[test]
fn decomposed_unicode_still_fuses() {
    let nfd_cafe = "caf\u{0065}\u{0301}.txt";
    assert_eq!(
        ruined(&format!("rename {nfd_cafe} today")),
        vec![(nfd_cafe.to_string(), "cafe\u{0301}txt".to_string())]
    );
}

#[test]
fn unchanged_description_yields_nothing() {
    assert!(ruined("bump a & b").is_empty());
}

#[test]
fn a_description_over_the_length_cap_is_skipped() {
    let huge = "a".repeat(MAX_MANGLING_CHECK_LEN + 1);
    assert!(mangled_description(&huge, &Config::default().description).is_empty());
}

#[test]
fn a_description_at_the_length_cap_is_still_examined() {
    let mut s = "ab/cd ".to_string();
    s.push_str(&"c".repeat(MAX_MANGLING_CHECK_LEN - 6));
    assert_eq!(s.len(), MAX_MANGLING_CHECK_LEN);
    assert_eq!(
        mangled_description(&s, &Config::default().description),
        vec![("ab/cd".to_string(), "abcd".to_string())]
    );
}

#[test]
fn unknown_codes_are_ignored() {
    assert!(guidance(&[diag("something.else")], &Config::default()).is_empty());
}

#[test]
fn rules_cover_the_defaults() {
    let r = rules(&Config::default());
    assert!(r.iter().any(|l| l.contains("Conventional Commit")));
    assert!(r.iter().any(|l| l.contains("72 characters")));
    assert!(r.iter().any(|l| l.contains("body is discarded")));
    assert!(r.iter().any(|l| l.contains("Co-Authored-By")));
    assert!(r.iter().any(|l| l.contains("only between digits")));
}

#[test]
fn rules_reflect_a_keep_everything_config() {
    let mut cfg = Config::default();
    cfg.body.keep = true;
    cfg.footers.keep = true;
    cfg.footers.deny = vec![];
    let r = rules(&cfg);
    assert!(!r.iter().any(|l| l.contains("discarded")), "got: {r:?}");
}

#[test]
fn guidance_lines_never_repeat() {
    let g = guidance(
        &[
            diag("description.trailing-dot"),
            diag("body.dropped"),
            diag("description.trailing-dot"),
            diag("body.dropped"),
        ],
        &Config::default(),
    );
    assert_eq!(g.len(), 2);
    assert_ne!(g[0], g[1]);
}

#[test]
fn guidance_of_a_repeated_list_is_unchanged() {
    let ds = vec![
        diag("description.trailing-dot"),
        diag("body.dropped"),
        diag("type.disallowed"),
    ];
    let mut twice = ds.clone();
    twice.extend(ds.clone());
    assert_eq!(
        guidance(&twice, &Config::default()),
        guidance(&ds, &Config::default())
    );
}
