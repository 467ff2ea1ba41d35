use whittle::diagnostic::{Diagnostic, DiagnosticJson, Field, Kind, Severity};

#[test]
fn generic_rewrite_message() {
    let d = Diagnostic::transform("description.trailing-dot", Field::Description)
        .rewrite("Add Foo.", "add foo");
    assert_eq!(d.message(), "description: \"Add Foo.\" -> \"add foo\"");
}

#[test]
fn pending_body_reads_as_would() {
    let d = Diagnostic::transform("body.dropped", Field::Body)
        .removing("why")
        .detail("3 lines");
    assert_eq!(d.message(), "body would be removed (3 lines)");
}

#[test]
fn applied_body_reads_as_past_tense() {
    let mut d = Diagnostic::transform("body.dropped", Field::Body).removing("why");
    d.applied = true;
    assert_eq!(d.message(), "body removed");
}

#[test]
fn denied_footer_names_the_token() {
    let d = Diagnostic::transform("footer.denied", Field::Footers)
        .removing("a <a@b>")
        .detail("Co-Authored-By");
    assert_eq!(d.message(), "footer `Co-Authored-By` would be removed");
}

#[test]
fn override_wins_over_derived_text() {
    let d = Diagnostic::error("subject.too-long", Field::Subject)
        .message_override("subject is 80 chars; max allowed is 72");
    assert_eq!(d.message(), "subject is 80 chars; max allowed is 72");
}

#[test]
fn mark_applied_flips_tense_in_bulk() {
    let mut diags = vec![Diagnostic::transform("body.dropped", Field::Body).removing("x")];
    Diagnostic::mark_applied(&mut diags);
    assert_eq!(diags[0].message(), "body removed");
}

#[test]
fn transforms_warn_and_rules_error() {
    assert_eq!(
        Diagnostic::transform("body.dropped", Field::Body).severity,
        Severity::Warning
    );
    assert_eq!(
        Diagnostic::error("subject.too-long", Field::Subject).severity,
        Severity::Error
    );
}

#[test]
fn applied_rewrite_reads_rewritten() {
    let mut d = Diagnostic::transform("type.lowercased", Field::Type).rewrite("Feat", "feat");
    d.applied = true;
    assert_eq!(d.message(), "type rewritten: \"Feat\" -> \"feat\"");
}

#[test]
fn pending_and_applied_removal_messages() {
    let mut d = Diagnostic::transform("scope.x", Field::Scope).removing("api");
    assert_eq!(d.message(), "scope: \"api\" would be removed");
    d.applied = true;
    assert_eq!(d.message(), "scope: \"api\" removed");
}

#[test]
fn bare_code_message_names_field_and_code() {
    let d = Diagnostic::error("x.y", Field::Message);
    assert_eq!(d.message(), "message: x.y");
}

#[test]
fn dropped_footers_message_with_count() {
    let d = Diagnostic::transform("footers.dropped", Field::Footers)
        .removing("Refs: #1")
        .detail("2");
    assert_eq!(d.message(), "all footers would be removed (2)");
}

#[test]
fn denied_footer_without_detail_uses_question_mark() {
    let d = Diagnostic::transform("footer.denied", Field::Footers).removing("x");
    assert_eq!(d.message(), "footer `?` would be removed");
}

#[test]
fn names_of_enums() {
    assert_eq!(Severity::Warning.as_str(), "warning");
    assert_eq!(Severity::Error.as_str(), "error");
    assert_eq!(Field::Type.as_str(), "type");
    assert_eq!(Field::Scope.as_str(), "scope");
    assert_eq!(Field::Description.as_str(), "description");
    assert_eq!(Field::Subject.as_str(), "subject");
    assert_eq!(Field::Body.as_str(), "body");
    assert_eq!(Field::Footers.as_str(), "footers");
    assert_eq!(Field::Message.as_str(), "message");
    assert_eq!(Kind::Rewrite.as_str(), "rewrite");
    assert_eq!(Kind::Removal.as_str(), "removal");
    assert_eq!(Kind::Violation.as_str(), "violation");
}

#[test]
fn json_kind_distinguishes_rewrite_removal_violation() {
    let rewrite = Diagnostic::transform("a", Field::Type).rewrite("A", "a");
    let removal = Diagnostic::transform("body.dropped", Field::Body).removing("b");
    let violation = Diagnostic::error("type.disallowed", Field::Type).removing("wip");
    assert_eq!(DiagnosticJson::from_diagnostic(&rewrite).kind, Kind::Rewrite);
    assert_eq!(DiagnosticJson::from_diagnostic(&removal).kind, Kind::Removal);
    let j = DiagnosticJson::from_diagnostic(&violation);
    assert_eq!(j.kind, Kind::Violation);
    assert_eq!(j.before, Some("wip"));
    assert_eq!(j.after, None);
    assert_eq!(j.code, "type.disallowed");
    assert_eq!(j.message, "type: \"wip\" would be removed");
}
