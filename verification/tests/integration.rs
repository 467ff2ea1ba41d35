use serde_json::Value;
use whittle::config::{Config, Replace};
use whittle::diagnostic::{Diagnostic, DiagnosticJson};
use whittle::guidance::rules;
use whittle::transform::CommitParts;
use whittle::{evaluate, human_report, judge, rules_command, rules_listing, Mode, Outcome};

/// What one run of `check` or `fix` on a file holding `content` produces.
struct Run {
    code: i32,
    stderr: String,
    file: String,
    outcome: Outcome,
    mode: Mode,
}

fn run_with(mode: Mode, content: &str, config: &Config, config_path: Option<&str>) -> Run {
    let outcome = evaluate(content, config, mode);
    let code = outcome.exit_code(mode);
    let lines = human_report(&outcome, mode, &rules_command(config_path));
    let stderr: String = lines.iter().map(|l| format!("{l}\n")).collect();
    let file = outcome.write.clone().unwrap_or_else(|| content.to_string());
    Run {
        code,
        stderr,
        file,
        outcome,
        mode,
    }
}

fn check(content: &str) -> Run {
    run_with(Mode::Check, content, &Config::default(), None)
}

fn fix(content: &str) -> Run {
    run_with(Mode::Fix, content, &Config::default(), None)
}

fn check_with(content: &str, config: &Config) -> Run {
    run_with(Mode::Check, content, config, Some("whittle.toml"))
}

fn fix_with(content: &str, config: &Config) -> Run {
    run_with(Mode::Fix, content, config, Some("whittle.toml"))
}

fn opt(s: Option<&str>) -> Value {
    match s {
        Some(s) => Value::from(s),
        None => Value::Null,
    }
}

fn diag_json(d: &Diagnostic) -> Value {
    let j = DiagnosticJson::from_diagnostic(d);
    let mut m = serde_json::Map::new();
    m.insert("code".into(), Value::from(j.code));
    m.insert("severity".into(), Value::from(j.severity.as_str()));
    m.insert("kind".into(), Value::from(j.kind.as_str()));
    m.insert("field".into(), Value::from(j.field.as_str()));
    m.insert("before".into(), opt(j.before));
    m.insert("after".into(), opt(j.after));
    m.insert("detail".into(), opt(j.detail));
    m.insert("applied".into(), Value::from(j.applied));
    m.insert("message".into(), Value::from(j.message));
    Value::Object(m)
}

/// The `--format json` report of a run.
fn json(r: &Run) -> Value {
    let o = &r.outcome;
    let mut m = serde_json::Map::new();
    m.insert("version".into(), Value::from(1));
    m.insert("mode".into(), Value::from(r.mode.as_str()));
    m.insert("file".into(), Value::from("COMMIT_EDITMSG"));
    m.insert("ok".into(), Value::from(r.code == 0));
    m.insert("original".into(), Value::from(o.original.as_str()));
    m.insert("normalized".into(), opt(o.normalized.as_deref()));
    m.insert(
        "diagnostics".into(),
        Value::Array(o.diagnostics.iter().map(diag_json).collect()),
    );
    m.insert(
        "guidance".into(),
        Value::Array(o.guidance.iter().map(|g| Value::from(g.as_str())).collect()),
    );
    Value::Object(m)
}

fn keep_everything() -> Config {
    let mut cfg = Config::default();
    cfg.body.keep = true;
    cfg.footers.keep = true;
    cfg.footers.deny = vec![];
    cfg
}

fn literal(from: &str, to: &str) -> Replace {
    Replace {
        from: from.into(),
        to: to.into(),
        regex: false,
    }
}

fn rules_stdout(config: &Config) -> String {
    rules_listing(&rules(config))
        .iter()
        .map(|l| format!("{l}\n"))
        .collect()
}

#[test]
fn fix_lowercases_and_replaces_and_with_amp() {
    let r = fix("Chore: Bump oxfmt to 0.51.0 and oxlint to 1.66.0.\n");
    assert_eq!(r.code, 0);
    assert_eq!(r.file, "chore: bump oxfmt to 0.51.0 & oxlint to 1.66.0\n");
}

#[test]
fn fix_normalizes_scope_separator() {
    let r = fix("fix(api/users): Handle [null] / undefined ids\n");
    assert_eq!(r.code, 0);
    assert_eq!(r.file, "fix(api-users): handle null undefined ids\n");
}

#[test]
fn fix_keeps_version_dots() {
    let r = fix("chore: bump foo 1.2.3 and bar 4.5.6\n");
    assert_eq!(r.code, 0);
    assert_eq!(r.file, "chore: bump foo 1.2.3 & bar 4.5.6\n");
}

#[test]
fn fix_drops_body_and_trailers() {
    let r = fix(
        "feat(api): add health probe\n\nLonger body that explains why.\n\nCo-Authored-By: Foo <foo@bar.com>\n",
    );
    assert_eq!(r.code, 0);
    assert_eq!(r.file, "feat(api): add health probe\n");
}

#[test]
fn check_fails_on_too_long_subject() {
    let r = check(
        "feat: this is a really long subject line that should exceed seventy two chars in total\n",
    );
    assert_ne!(r.code, 0);
    assert!(r.stderr.contains("subject.too-long"));
}

#[test]
fn check_fails_on_disallowed_type() {
    let r = check("wip: hack something\n");
    assert_ne!(r.code, 0);
    assert!(r.stderr.contains("type.disallowed"));
}

#[test]
fn check_fails_on_non_conventional() {
    let r = check("just update stuff\n");
    assert_ne!(r.code, 0);
    assert!(r.stderr.contains("not a conventional commit"));
}

#[test]
fn fix_then_check_round_trip() {
    let fixed = fix("Refactor: Split Module and Tidy.\n");
    assert_eq!(fixed.code, 0);
    let checked = check(&fixed.file);
    assert_eq!(checked.code, 0);
    assert_eq!(checked.file, "refactor: split module & tidy\n");
}

#[test]
fn comments_are_ignored() {
    let r = fix(
        "# please enter the commit message for your changes\nfeat: add thing\n# Lines starting with # will be ignored.\n",
    );
    assert_eq!(r.code, 0);
    assert_eq!(r.file, "feat: add thing\n");
}

#[test]
fn empty_file_is_noop() {
    let r = fix("");
    assert_eq!(r.code, 0);
    assert_eq!(r.file, "");
}

#[test]
fn whitespace_only_file_is_noop() {
    let r = fix("   \n\n  \t \n");
    assert_eq!(r.code, 0);
    assert_eq!(r.file, "   \n\n  \t \n");
}

#[test]
fn comment_only_file_is_noop() {
    let r = fix("# only a comment\n# another comment\n");
    assert_eq!(r.code, 0);
    assert!(r.outcome.write.is_none());
}

#[test]
fn subject_at_72_chars_passes() {
    let suffix: String = "x".repeat(72 - "feat: ".len());
    let r = check(&format!("feat: {suffix}\n"));
    assert_eq!(r.code, 0);
}

#[test]
fn subject_at_73_chars_fails() {
    let suffix: String = "x".repeat(73 - "feat: ".len());
    let r = check(&format!("feat: {suffix}\n"));
    assert_ne!(r.code, 0);
}

#[test]
fn breaking_change_bang_preserved() {
    let r = fix("Feat!: Drop legacy API.\n");
    assert_eq!(r.code, 0);
    assert_eq!(r.file, "feat!: drop legacy api\n");
}

#[test]
fn breaking_change_with_scope_bang_preserved() {
    let r = fix("Feat(API)!: drop /v1 and /v2\n");
    assert_eq!(r.code, 0);
    assert_eq!(r.file, "feat(api)!: drop v1 & v2\n");
}

#[test]
fn check_does_not_modify_file() {
    let original = "Chore: Bump A and B.\n";
    let r = check(original);
    assert_ne!(r.code, 0);
    assert!(r.outcome.write.is_none());
    assert_eq!(r.file, original);
}

#[test]
fn check_passes_on_already_normalized_message() {
    let r = check("chore: bump a & b\n");
    assert_eq!(r.code, 0);
}

#[test]
fn check_reports_pending_rewrites_and_suggests_message() {
    let r = check("Chore: Bump A and B.\n");
    assert_ne!(r.code, 0);
    let stderr = &r.stderr;
    assert!(stderr.contains("description.lowercased"), "got: {stderr}");
    assert!(stderr.contains("type.lowercased"), "got: {stderr}");
    assert!(stderr.contains("suggested message:"), "got: {stderr}");
    assert!(stderr.contains("chore: bump a & b"), "got: {stderr}");
}

#[test]
fn check_reports_dropped_body_and_denied_footer() {
    let msg = "feat: add probe\n\nwhy this change\n\nCo-Authored-By: a <a@b>\n";
    let r = check(msg);
    assert_ne!(r.code, 0);
    let stderr = &r.stderr;
    assert!(stderr.contains("body.dropped"), "got: {stderr}");
    assert!(stderr.contains("would be removed"), "got: {stderr}");
    assert_eq!(r.file, msg, "check must not write");
}

#[test]
fn fix_reports_what_it_changed_instead_of_staying_silent() {
    let r = fix("feat: add probe\n\nwhy this change\n");
    assert_eq!(r.code, 0);
    let stderr = &r.stderr;
    assert!(stderr.contains("body.dropped"), "got: {stderr}");
    assert!(stderr.contains("body removed"), "got: {stderr}");
    assert!(!stderr.contains("would be removed"), "got: {stderr}");
    assert_eq!(r.file, "feat: add probe\n");
}

#[test]
fn json_report_carries_typed_params_and_normalized_message() {
    let r = check("Chore: Bump A and B.\n\nbody text\n");
    assert_ne!(r.code, 0);
    let v = json(&r);

    assert_eq!(v["version"], 1);
    assert_eq!(v["mode"], "check");
    assert_eq!(v["ok"], false);
    assert_eq!(v["normalized"], "chore: bump a & b");

    let diags = v["diagnostics"].as_array().unwrap();
    let body = diags
        .iter()
        .find(|d| d["code"] == "body.dropped")
        .expect("body.dropped diagnostic");
    assert_eq!(body["severity"], "warning");
    assert_eq!(body["field"], "body");
    assert_eq!(body["before"], "body text");
    assert!(body["after"].is_null(), "removal has no `after`");
    assert_eq!(body["message"], "body would be removed (1 line)");
}

#[test]
fn json_report_is_ok_for_a_clean_message() {
    let r = check("chore: bump a & b\n");
    assert_eq!(r.code, 0);
    let v = json(&r);
    assert_eq!(v["ok"], true);
    assert!(v["diagnostics"].as_array().unwrap().is_empty());
}

#[test]
fn json_report_marks_rule_violations_as_errors() {
    let r = check("wip: hack\n");
    assert_ne!(r.code, 0);
    let v = json(&r);
    let diags = v["diagnostics"].as_array().unwrap();
    let d = diags
        .iter()
        .find(|d| d["code"] == "type.disallowed")
        .expect("type.disallowed diagnostic");
    assert_eq!(d["severity"], "error");
    assert_eq!(d["field"], "type");
}

#[test]
fn json_report_covers_non_conventional_messages() {
    let r = check("just some words\n");
    assert_ne!(r.code, 0);
    let v = json(&r);
    let diags = v["diagnostics"].as_array().unwrap();
    assert_eq!(diags[0]["code"], "commit.not-conventional");
    assert_eq!(diags[0]["severity"], "error");
    assert!(v["normalized"].is_null(), "got: {}", v["normalized"]);
}

fn verbose_commit_msg(subject: &str) -> String {
    format!(
        "{subject}\n\n\
         # Please enter the commit message for your changes.\n\
         # ------------------------ >8 ------------------------\n\
         # Do not modify or remove the line above.\n\
         # Everything below it will be ignored.\n\
         diff --git a/f.txt b/f.txt\n\
         new file mode 100644\n\
         index 0000000..ce01362\n\
         --- /dev/null\n\
         +++ b/f.txt\n\
         @@ -0,0 +1 @@\n\
         +hello\n"
    )
}

#[test]
fn check_passes_a_verbose_commit_whose_subject_is_clean() {
    let r = check(&verbose_commit_msg("feat: add f"));
    assert_eq!(r.code, 0);
}

#[test]
fn verbose_commit_diff_is_not_treated_as_a_body() {
    let r = check(&verbose_commit_msg("feat: add f"));
    assert_eq!(r.code, 0);
    let v = json(&r);
    assert_eq!(v["original"], "feat: add f");
    assert!(
        !v.to_string().contains("diff --git"),
        "the diff must not leak into the report"
    );
    assert!(v["diagnostics"].as_array().unwrap().is_empty());
}

#[test]
fn verbose_commit_still_reports_a_real_subject_problem() {
    let r = check(&verbose_commit_msg("Feat: Add F."));
    assert_ne!(r.code, 0);
    let stderr = &r.stderr;
    assert!(stderr.contains("suggested message:"), "got: {stderr}");
    assert!(stderr.contains("feat: add f"), "got: {stderr}");
    assert!(!stderr.contains("body.dropped"), "got: {stderr}");
}

#[test]
fn ref_style_trailers_are_not_corrupted_by_fix() {
    let r = fix_with("feat: x\n\nbody here\n\nCloses #128\n", &keep_everything());
    assert_eq!(r.code, 0);
    assert_eq!(r.file, "feat: x\n\nbody here\n\nCloses #128\n");
}

#[test]
fn check_agrees_with_fix_on_ref_style_trailers() {
    let msg = "feat: x\n\nbody here\n\nCloses #128\n";
    let r = check_with(msg, &keep_everything());
    assert_eq!(r.code, 0);
    assert_eq!(r.file, msg);
}

#[test]
fn fix_refuses_to_write_a_message_that_would_not_parse() {
    let original = "fix: [...]\n";
    let r = fix(original);
    assert_ne!(r.code, 0);
    let stderr = &r.stderr;
    assert!(stderr.contains("normalize.invalid-result"), "got: {stderr}");
    assert_eq!(r.file, original, "file must be left untouched");
}

#[test]
fn check_offers_no_suggestion_when_normalization_would_not_parse() {
    let r = check("fix: [...]\n");
    assert_ne!(r.code, 0);
    let v = json(&r);
    assert!(v["normalized"].is_null());
    assert_eq!(v["ok"], false);
}

#[test]
fn invalid_result_path_still_reports_a_rule_violation() {
    let r = check("wip: [...]\n");
    assert_ne!(r.code, 0);
    let stderr = &r.stderr;
    assert!(stderr.contains("normalize.invalid-result"), "got: {stderr}");
    assert!(stderr.contains("type.disallowed"), "got: {stderr}");
}

#[test]
fn json_normalized_is_withheld_while_a_rule_violation_remains() {
    let r = check("Wip: Hack Something.\n");
    assert_ne!(r.code, 0);
    let v = json(&r);
    assert!(v["normalized"].is_null(), "got: {}", v["normalized"]);
}

#[test]
fn structural_only_reformatting_gets_a_diagnostic_and_guidance() {
    let mut cfg = Config::default();
    cfg.body.keep = true;
    cfg.footers.keep = true;
    let r = check_with("feat: add probe\n\n\n\nwhy this matters\n", &cfg);
    assert_ne!(r.code, 0);
    let stderr = &r.stderr;
    assert!(stderr.contains("message.reformatted"), "got: {stderr}");
    assert!(
        stderr.contains("how to write a message whittle accepts:"),
        "got: {stderr}"
    );
    assert!(stderr.contains("suggested message:"), "got: {stderr}");
}

#[test]
fn json_report_is_never_empty_on_the_structural_reformat_path() {
    let mut cfg = Config::default();
    cfg.body.keep = true;
    cfg.footers.keep = true;
    let r = check_with("feat: add probe\n\n\n\nwhy this matters\n", &cfg);
    assert_ne!(r.code, 0);
    let v = json(&r);
    assert!(!v["diagnostics"].as_array().unwrap().is_empty());
    assert!(!v["guidance"].as_array().unwrap().is_empty());
}

#[test]
fn check_passes_when_replace_rules_cancel_out() {
    let mut cfg = Config::default();
    cfg.description.replace = vec![literal("foo", "bar"), literal("bar", "foo")];
    let r = check_with("feat: foo\n", &cfg);
    assert_eq!(r.code, 0);
}

#[test]
fn check_withholds_suggestion_when_a_rule_violation_remains() {
    let r = check("Wip: Hack Something.\n");
    assert_ne!(r.code, 0);
    let stderr = &r.stderr;
    assert!(stderr.contains("type.disallowed"), "got: {stderr}");
    assert!(
        !stderr.contains("suggested message:"),
        "a suggestion that fails again must not be offered: {stderr}"
    );
}

#[test]
fn json_report_is_emitted_for_a_missing_file() {
    let o = Outcome::failed("could not read /nonexistent/COMMIT_EDITMSG");
    let r = Run {
        code: o.exit_code(Mode::Check),
        stderr: String::new(),
        file: String::new(),
        outcome: o,
        mode: Mode::Check,
    };
    let v = json(&r);
    assert_eq!(v["ok"], false);
    assert_eq!(v["diagnostics"][0]["code"], "whittle.failed");
}

#[test]
fn json_fix_report_agrees_with_its_exit_code() {
    let r = fix("Chore: Bump A and B.\n\nbody\n");
    assert_eq!(r.code, 0);
    let v = json(&r);
    assert_eq!(v["mode"], "fix");
    assert_eq!(v["ok"], true);
    assert_eq!(v["normalized"], "chore: bump a & b");
    let diags = v["diagnostics"].as_array().unwrap();
    assert!(!diags.is_empty());
    assert!(
        diags.iter().all(|d| d["applied"] == true),
        "fix-mode diagnostics are already on disk"
    );
    assert_eq!(r.file, "chore: bump a & b\n");
}

#[test]
fn json_fix_report_is_not_ok_when_a_rule_is_violated() {
    let r = fix("wip: hack\n");
    assert_ne!(r.code, 0);
    let v = json(&r);
    assert_eq!(v["ok"], false);
}

#[test]
fn json_diagnostics_distinguish_removal_from_violation() {
    let r = check("wip: Hack.\n\nbody text\n");
    assert_ne!(r.code, 0);
    let v = json(&r);
    let diags = v["diagnostics"].as_array().unwrap();

    let body = diags.iter().find(|d| d["code"] == "body.dropped").unwrap();
    assert_eq!(body["kind"], "removal");
    assert!(body["after"].is_null());

    let violation = diags
        .iter()
        .find(|d| d["code"] == "type.disallowed")
        .unwrap();
    assert_eq!(violation["kind"], "violation");
    assert!(violation["after"].is_null());

    let rewrite = diags
        .iter()
        .find(|d| d["code"] == "description.lowercased")
        .unwrap();
    assert_eq!(rewrite["kind"], "rewrite");
    assert!(rewrite["after"].is_string());
}

#[test]
fn rewrite_messages_distinguish_pending_from_applied() {
    let checked = check("feat: Add Thing\n");
    assert_ne!(checked.code, 0);
    let pending = &checked.stderr;

    let fixed = fix("feat: Add Thing\n");
    assert_eq!(fixed.code, 0);
    let applied = &fixed.stderr;

    assert!(pending.contains("description:"), "got: {pending}");
    assert!(applied.contains("description rewritten:"), "got: {applied}");
    assert_ne!(pending, applied, "check and fix must not read identically");
}

#[test]
fn check_explains_the_rules_it_tripped() {
    let r = check("ci: restore actions/checkout@v6 in release.yml\n\nwhy\n\nCo-Authored-By: A <a@b>\n");
    assert_ne!(r.code, 0);
    let stderr = &r.stderr;
    assert!(
        stderr.contains("how to write a message whittle accepts:"),
        "got: {stderr}"
    );
    assert!(stderr.contains("only between digits"), "got: {stderr}");
    assert!(
        stderr.contains("do not use these characters"),
        "got: {stderr}"
    );
    assert!(stderr.contains("whittle rules"), "got: {stderr}");
}

#[test]
fn lossy_transforms_are_spelled_out_to_the_caller() {
    let r = check("feat: add probe\n\nlong rationale\n\nCo-Authored-By: A <a@b>\n");
    assert_ne!(r.code, 0);
    let stderr = &r.stderr;
    assert!(stderr.contains("body is discarded"), "got: {stderr}");
    assert!(stderr.contains("Co-Authored-By"), "got: {stderr}");
}

#[test]
fn fix_also_explains_the_rules_so_the_caller_learns() {
    let r = fix("Chore: Bump readme.md and stuff.\n");
    assert_eq!(r.code, 0);
    assert!(
        r.stderr.contains("how to write a message whittle accepts:"),
        "got: {}",
        r.stderr
    );
}

#[test]
fn a_clean_message_gets_no_guidance_noise() {
    let r = check("chore: bump a & b\n");
    assert_eq!(r.code, 0);
    assert_eq!(r.stderr, "", "a compliant message must print nothing");
}

#[test]
fn json_report_carries_guidance() {
    let r = check("Chore: Bump readme.md.\n");
    assert_ne!(r.code, 0);
    let v = json(&r);
    let g = v["guidance"].as_array().expect("guidance array");
    assert!(!g.is_empty());
    assert!(
        g.iter().any(|l| l.as_str().unwrap().contains("lowercase")),
        "got: {g:?}"
    );
}

#[test]
fn check_demands_rewording_and_offers_no_mangled_suggestion() {
    let r = check("fix: handle src/lib.rs parse error\n");
    assert_ne!(r.code, 0);
    let stderr = &r.stderr;
    assert!(
        stderr.contains("`src/lib.rs` would become `srclibrs`"),
        "the ruined token must be named: {stderr}"
    );
    assert!(
        !stderr.contains("suggested message:"),
        "an illegible subject must never be offered for adoption: {stderr}"
    );
}

#[test]
fn check_names_every_mangled_token() {
    let r = check("ci: restore actions/checkout@v6 in release.yml\n");
    assert_ne!(r.code, 0);
    let stderr = &r.stderr;
    assert!(stderr.contains("`actions/checkout@v6`"), "got: {stderr}");
    assert!(stderr.contains("`release.yml`"), "got: {stderr}");
}

#[test]
fn cosmetic_rewrites_still_get_a_suggestion() {
    let r = check("Chore: Bump A and B.\n");
    assert_ne!(r.code, 0);
    let stderr = &r.stderr;
    assert!(stderr.contains("suggested message:"), "got: {stderr}");
    assert!(stderr.contains("chore: bump a & b"), "got: {stderr}");
    assert!(!stderr.contains("needs-rewording"), "got: {stderr}");
}

#[test]
fn fix_still_applies_the_configured_rules_unchanged() {
    let r = fix("fix: handle src/lib.rs parse error\n");
    assert_eq!(r.code, 0);
    assert_eq!(r.file, "fix: handle srclibrs parse error\n");
}

#[test]
fn json_report_marks_rewording_as_a_violation_per_token() {
    let r = check("fix: handle src/lib.rs parse error\n");
    assert_ne!(r.code, 0);
    let v = json(&r);
    let d = v["diagnostics"]
        .as_array()
        .unwrap()
        .iter()
        .find(|d| d["code"] == "subject.needs-rewording")
        .expect("subject.needs-rewording")
        .clone();
    assert_eq!(d["severity"], "error");
    assert_eq!(d["kind"], "violation");
    assert_eq!(d["before"], "src/lib.rs");
    assert_eq!(d["after"], "srclibrs");
}

#[test]
fn version_pins_are_not_treated_as_mangling() {
    for msg in [
        "ci: pin node 24.x\n",
        "chore: bump serde to 1.2.3-rc.1\n",
        "fix: drop the 0.x fallback\n",
    ] {
        let r = check(msg);
        assert!(
            !r.stderr.contains("needs-rewording"),
            "{msg:?} must not demand a rewording: {}",
            r.stderr
        );
    }
}

#[test]
fn a_cosmetic_whole_span_change_is_not_mangling() {
    let r = check("fix: bump a & b .\n");
    assert_ne!(r.code, 0);
    let stderr = &r.stderr;
    assert!(!stderr.contains("needs-rewording"), "got: {stderr}");
    assert!(stderr.contains("suggested message:"), "got: {stderr}");
    assert!(stderr.contains("fix: bump a & b"), "got: {stderr}");
}

#[test]
fn reworded_tokens_quote_the_authored_spelling() {
    let r = check("docs: DESCRIBE Some/Path.md\n");
    assert_ne!(r.code, 0);
    assert!(r.stderr.contains("`Some/Path.md`"), "got: {}", r.stderr);
}

#[test]
fn json_withholds_normalized_when_a_rewording_is_needed() {
    let r = check("fix: handle src/lib.rs parse error\n");
    assert_ne!(r.code, 0);
    let v = json(&r);
    assert!(v["normalized"].is_null(), "got: {}", v["normalized"]);
}

#[test]
fn a_replace_rule_causing_fusion_gets_an_ordinary_suggestion() {
    let mut cfg = Config::default();
    cfg.description.strip_chars = vec![];
    cfg.description.replace = vec![literal(":", "")];
    let r = check_with("fix: handle src:lib error\n", &cfg);
    assert_ne!(r.code, 0);
    let stderr = &r.stderr;
    assert!(!stderr.contains("needs-rewording"), "got: {stderr}");
    assert!(stderr.contains("suggested message:"), "got: {stderr}");
    assert!(stderr.contains("fix: handle srclib error"), "got: {stderr}");
}

#[test]
fn guidance_describes_a_custom_scope_replace_rule() {
    let mut cfg = Config::default();
    cfg.scope.replace = vec![literal("_", "-")];
    let r = check_with("chore(a_b): bump a & b\n", &cfg);
    assert_ne!(r.code, 0);
    let stderr = &r.stderr;
    assert!(
        stderr.contains("in the scope, `a_b` becomes `a-b`"),
        "got: {stderr}"
    );
    assert!(
        !stderr.contains("do not use `/` or `\\` in the scope"),
        "got: {stderr}"
    );
}

#[test]
fn guidance_does_not_contradict_an_inverted_replace_rule() {
    let mut cfg = Config::default();
    cfg.description.replace = vec![literal("&", "and")];
    let r = check_with("chore: bump a & b\n", &cfg);
    assert_ne!(r.code, 0);
    let stderr = &r.stderr;
    assert!(
        stderr.contains("in the description, `bump a & b` becomes `bump a and b`"),
        "got: {stderr}"
    );
    assert!(
        !stderr.contains("`&` not `and`"),
        "must not advise the opposite of the config: {stderr}"
    );
}

#[test]
fn denied_footer_guidance_does_not_claim_all_footers_are_dropped() {
    let mut cfg = Config::default();
    cfg.body.keep = true;
    cfg.footers.keep = true;
    cfg.footers.deny = vec!["Co-Authored-By".into()];
    let r = check_with("feat: x\n\nbody\n\nRefs: #12\nCo-Authored-By: A <a@b>\n", &cfg);
    assert_ne!(r.code, 0);
    let stderr = &r.stderr;
    assert!(
        stderr.contains("these footers are discarded: Co-Authored-By"),
        "got: {stderr}"
    );
    assert!(
        !stderr.contains("do not rely on trailers"),
        "Refs: trailers are kept by this config: {stderr}"
    );
}

#[test]
fn the_ruleset_hint_carries_the_active_config() {
    let mut cfg = Config::default();
    cfg.rules.max_subject_length = 50;
    let r = check_with("Chore: Bump A and B.\n", &cfg);
    assert_ne!(r.code, 0);
    let stderr = &r.stderr;
    assert!(stderr.contains("--config"), "got: {stderr}");
    assert!(stderr.contains("rules"), "got: {stderr}");
    assert!(
        stderr.contains("full ruleset: whittle --config whittle.toml rules"),
        "got: {stderr}"
    );
}

#[test]
fn invalid_result_guidance_names_the_offending_characters() {
    let r = check("fix: [...]\n");
    assert_ne!(r.code, 0);
    let stderr = &r.stderr;
    assert!(
        stderr.contains("do not use these characters"),
        "got: {stderr}"
    );
    assert!(stderr.contains("only between digits"), "got: {stderr}");
}

#[test]
fn rules_subcommand_lists_the_active_ruleset() {
    let stdout = rules_stdout(&Config::default());
    assert!(stdout.contains("Conventional Commit"), "got: {stdout}");
    assert!(stdout.contains("72 characters"), "got: {stdout}");
    assert!(stdout.contains("body is discarded"), "got: {stdout}");
}

#[test]
fn rules_subcommand_reflects_a_custom_config() {
    let mut cfg = Config::default();
    cfg.rules.max_subject_length = 50;
    cfg.rules.allowed_types = vec!["feat".into(), "fix".into()];
    cfg.body.keep = true;
    let stdout = rules_stdout(&cfg);
    assert!(stdout.contains("50 characters"), "got: {stdout}");
    assert!(stdout.contains("feat, fix"), "got: {stdout}");
    assert!(!stdout.contains("body is discarded"), "got: {stdout}");
}

#[test]
fn rules_subcommand_lists_the_replace_tables() {
    let stdout = rules_stdout(&Config::default());
    assert!(stdout.contains("in the description"), "got: {stdout}");
    assert!(stdout.contains("in the scope"), "got: {stdout}");
}

#[test]
fn rules_subcommand_omits_checks_the_config_disables() {
    let mut cfg = Config::default();
    cfg.rules.allowed_types = vec![];
    cfg.rules.require_conventional = false;
    let stdout = rules_stdout(&cfg);
    assert!(!stdout.contains("use one of these types"), "got: {stdout}");
    assert!(!stdout.contains("Conventional Commit"), "got: {stdout}");
}

#[test]
fn rules_listing_has_a_header_and_one_bullet_per_rule() {
    let r = rules(&Config::default());
    let listing = rules_listing(&r);
    assert_eq!(listing.len(), r.len() + 1);
    assert_eq!(listing[0], "whittle commit message rules:");
    assert_eq!(listing[1], format!("  - {}", r[0]));
}

#[test]
fn json_report_normalized_is_trimmed_on_the_empty_path() {
    let r = check("# only comments\n#\n\n\n");
    assert_eq!(r.code, 0);
    let v = json(&r);
    assert_eq!(v["ok"], true);
    assert_eq!(v["original"], "");
    assert_eq!(v["normalized"], "");
}

#[test]
fn fix_exits_zero_despite_reporting_rewrites() {
    let r = fix("Chore: Bump A and B.\n");
    assert_eq!(r.code, 0);
    assert_eq!(r.file, "chore: bump a & b\n");
}

#[test]
fn fix_is_idempotent() {
    let first = fix("Refactor: Split MODULE and Tidy./\n");
    assert_eq!(first.code, 0);
    let second = fix(&first.file);
    assert_eq!(second.code, 0);
    assert_eq!(first.file, second.file);
    assert!(second.outcome.write.is_none());
}

#[test]
fn unicode_description_preserved() {
    let r = fix("feat: café résumé naïve\n");
    assert_eq!(r.code, 0);
    assert_eq!(r.file, "feat: café résumé naïve\n");
}

#[test]
fn missing_file_errors() {
    let o = Outcome::failed("could not read does-not-exist");
    assert_eq!(o.exit_code(Mode::Fix), 1);
    assert_eq!(o.exit_code(Mode::Check), 1);
    assert!(o.normalized.is_none());
}

#[test]
fn custom_config_keeps_body() {
    let mut cfg = Config::default();
    cfg.body.keep = true;
    let r = fix_with("feat: x\n\nThis body must survive.\n", &cfg);
    assert_eq!(r.code, 0);
    assert!(r.file.contains("This body must survive."), "got: {:?}", r.file);
}

#[test]
fn custom_config_allows_lower_max_length() {
    let mut cfg = Config::default();
    cfg.rules.max_subject_length = 10;
    let r = check_with("feat: hello world\n", &cfg);
    assert_ne!(r.code, 0);
}

#[test]
fn custom_config_keeps_footers_except_denied() {
    let mut cfg = Config::default();
    cfg.footers.keep = true;
    cfg.footers.deny = vec!["Co-Authored-By".into()];
    let r = fix_with("feat: x\n\nbody\n\nCo-Authored-By: a <a@x>\nRefs: #1\n", &cfg);
    assert_eq!(r.code, 0);
    assert!(!r.file.contains("Co-Authored-By"), "got: {:?}", r.file);
    assert!(r.file.contains("Refs"), "got: {:?}", r.file);
}

#[test]
fn custom_config_allow_extra_type() {
    let mut cfg = Config::default();
    cfg.rules.allowed_types = vec!["feat".into(), "fix".into(), "wip".into()];
    let r = check_with("wip: experimental thing\n", &cfg);
    assert_eq!(r.code, 0);
}

#[test]
fn custom_config_disables_lowercase() {
    let mut cfg = Config::default();
    cfg.scope.lowercase = false;
    cfg.description.lowercase = false;
    let r = fix_with("fix(API): Handle Null\n", &cfg);
    assert_eq!(r.code, 0);
    assert!(r.file.contains("API"), "got: {:?}", r.file);
    assert!(r.file.contains("Handle Null"), "got: {:?}", r.file);
}

#[test]
fn file_with_no_trailing_newline_handled() {
    let r = fix("feat: x");
    assert_eq!(r.code, 0);
    assert_eq!(r.file, "feat: x\n");
}

#[test]
fn check_passes_already_normalized() {
    let r = check("feat: add the thing\n");
    assert_eq!(r.code, 0);
}

#[test]
fn long_running_realistic_message() {
    let r = fix(
        "Feat(API/Users)!: Add /v2 endpoint and migrate clients.\n\nBody explaining motivation.\n\nCloses #128\nCo-Authored-By: A <a@x>\n",
    );
    assert_eq!(r.code, 0);
    let out = &r.file;
    assert!(
        out.starts_with("feat(api-users)!: add v2 endpoint & migrate clients"),
        "got: {out:?}"
    );
    assert!(!out.contains("Co-Authored-By"), "got: {out:?}");
    assert!(!out.contains("Body explaining"), "got: {out:?}");
}

#[test]
fn a_message_that_is_not_conventional_passes_when_not_required() {
    let mut cfg = Config::default();
    cfg.rules.require_conventional = false;
    let r = check_with("just some words\n", &cfg);
    assert_eq!(r.code, 0);
    assert_eq!(r.outcome.normalized.as_deref(), Some("just some words"));
}

#[test]
fn fix_writes_nothing_when_the_file_is_already_canonical() {
    let r = fix("feat: add the thing\n");
    assert_eq!(r.code, 0);
    assert!(r.outcome.write.is_none());
    assert!(r.outcome.diagnostics.is_empty());
}

#[test]
fn both_modes_judge_the_same_message() {
    let raw = "# comment\nChore: Bump A and B.\n\nbody\n";
    let c = check(raw);
    let f = fix(raw);
    assert_eq!(c.outcome.original, f.outcome.original);
    assert_eq!(c.outcome.original, "Chore: Bump A and B.\n\nbody");
    assert_eq!(c.outcome.needs_rewrite, f.outcome.needs_rewrite);
    assert!(c.outcome.needs_rewrite);
}

#[test]
fn a_passing_check_leaves_fix_only_the_formatting() {
    let raw = "# please enter the commit message\nfeat: add thing\n\n\n";
    let c = check(raw);
    assert_eq!(c.code, 0);
    let f = fix(raw);
    assert_eq!(f.code, 0);
    assert_eq!(f.outcome.normalized, c.outcome.normalized);
    assert_eq!(f.outcome.write.as_deref(), Some("feat: add thing\n"));
}

#[test]
fn check_reports_pending_and_fix_reports_applied() {
    let raw = "Wip: Hack.\n\nbody text\n";
    let c = check(raw);
    assert!(c.outcome.diagnostics.iter().all(|d| !d.applied));
    let f = fix(raw);
    assert!(f
        .outcome
        .diagnostics
        .iter()
        .filter(|d| d.severity == whittle::diagnostic::Severity::Warning)
        .all(|d| d.applied));
    assert!(f
        .outcome
        .diagnostics
        .iter()
        .any(|d| d.code == "type.disallowed" && !d.applied));
}

#[test]
fn judge_decides_from_given_parse_results() {
    let parts = CommitParts {
        type_: "Chore".into(),
        scope: None,
        breaking: false,
        description: "Bump A and B.".into(),
        body: None,
        footers: vec![],
    };
    let o = judge(
        "Chore: Bump A and B.\n",
        Ok(parts.clone()),
        Ok(()),
        &Config::default(),
        Mode::Check,
    );
    assert_eq!(o.normalized.as_deref(), Some("chore: bump a & b"));
    assert!(o.needs_rewrite);
    assert!(o.write.is_none());

    let fixed = judge(
        "Chore: Bump A and B.\n",
        Ok(parts.clone()),
        Ok(()),
        &Config::default(),
        Mode::Fix,
    );
    assert_eq!(fixed.write.as_deref(), Some("chore: bump a & b\n"));

    let refused = judge(
        "Chore: Bump A and B.\n",
        Ok(parts),
        Err("no description".into()),
        &Config::default(),
        Mode::Fix,
    );
    assert!(refused.write.is_none());
    assert!(refused.normalized.is_none());
    assert!(refused
        .diagnostics
        .iter()
        .any(|d| d.code == "normalize.invalid-result"));

    let unparsed = judge(
        "just words\n",
        Err("bad".into()),
        Ok(()),
        &Config::default(),
        Mode::Check,
    );
    assert_eq!(unparsed.diagnostics[0].code, "commit.not-conventional");
    assert_eq!(unparsed.diagnostics[0].message(), "bad");
}

#[test]
fn description_rewrites_chain_from_authored_to_normalized() {
    let mut p = CommitParts::parse("chore: Bump A and B.").unwrap();
    let diags = whittle::transform::transform(&mut p, &Config::default());
    let desc: Vec<_> = diags
        .iter()
        .filter(|d| d.field == whittle::diagnostic::Field::Description)
        .collect();
    assert!(desc.len() >= 3);
    assert_eq!(desc[0].before.as_deref(), Some("Bump A and B."));
    for w in desc.windows(2) {
        assert_eq!(w[0].after, w[1].before);
    }
    assert_eq!(desc.last().unwrap().after.as_deref(), Some("bump a & b"));
    assert_eq!(p.description, "bump a & b");
}
