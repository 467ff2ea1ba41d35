//! Lint diagnostics for parsed conventional commits.
use vstd::prelude::*;

use crate::config::Config;
use crate::diagnostic::{
    bare, diag_views, with_detail, with_message, with_removal, Diagnostic, DiagnosticView, Field,
    Severity,
};
use crate::text::{
    any_eq_ignore_ascii_case, contains_ignore_ascii_case, decimal_spec, join, join_spec, to_chars,
    usize_to_string, views,
};
use crate::transform::{subject_spec, CommitParts, CommitPartsView};

verus! {

/// The `type.disallowed` error for type `t` against the allowed list.
pub open spec fn disallowed_diag(t: Seq<char>, allowed: Seq<Seq<char>>) -> DiagnosticView {
    let list = join_spec(allowed, ", "@);
    with_message(
        with_detail(with_removal(bare("type.disallowed"@, Severity::Error, Field::Type), t), list),
        "type `"@ + t + "` is not in allowed_types ("@ + list + ")"@,
    )
}

/// The `subject.too-long` error for `subject` against `max` characters.
pub open spec fn too_long_diag(subject: Seq<char>, max: nat) -> DiagnosticView {
    let len = decimal_spec(subject.len());
    with_message(
        with_detail(
            with_removal(bare("subject.too-long"@, Severity::Error, Field::Subject), subject),
            len + "/"@ + decimal_spec(max),
        ),
        "subject is "@ + len + " chars; max allowed is "@ + decimal_spec(max),
    )
}

/// A non-empty allowed list that no entry of matches the type (ignoring
/// ASCII case) is a violation; so is a subject longer, in characters, than
/// the maximum.
pub open spec fn lint_spec(p: CommitPartsView, c: Config) -> Seq<DiagnosticView> {
    let allowed = views(c.rules.allowed_types@);
    let subject = subject_spec(p);
    let type_check = if allowed.len() > 0 && !any_eq_ignore_ascii_case(allowed, p.type_) {
        seq![disallowed_diag(p.type_, allowed)]
    } else {
        Seq::<DiagnosticView>::empty()
    };
    let length_check = if subject.len() > c.rules.max_subject_length {
        seq![too_long_diag(subject, c.rules.max_subject_length as nat)]
    } else {
        Seq::<DiagnosticView>::empty()
    };
    type_check + length_check
}

/// Check `parts` against the configured rules.
///
/// Every diagnostic returned is an error: unlike a transform, no rewrite
/// whittle can perform will satisfy these.
pub fn lint(parts: &CommitParts, config: &Config) -> (out: Vec<Diagnostic>)
    ensures
        diag_views(out@) == lint_spec(parts@, *config),
        forall|i: int| 0 <= i < out@.len() ==> (#[trigger] out@[i]).severity == Severity::Error,
{
    let mut out: Vec<Diagnostic> = Vec::new();
    let rules = &config.rules;
    let ghost allowed = views(rules.allowed_types@);
    if rules.allowed_types.len() > 0 && !contains_ignore_ascii_case(
        &rules.allowed_types,
        parts.type_.as_str(),
    ) {
        let list = join(rules.allowed_types.as_slice(), ", ");
        let mut message = String::new();
        message.append("type `");
        message.append(parts.type_.as_str());
        message.append("` is not in allowed_types (");
        message.append(list.as_str());
        message.append(")");
        proof {
            assert(message@ =~= "type `"@ + parts.type_@ + "` is not in allowed_types ("@ + list@
                + ")"@);
        }
        let d = Diagnostic::error("type.disallowed", Field::Type).removing(
            parts.type_.as_str(),
        ).detail(list.as_str()).message_override(message.as_str());
        out.push(d);
    }
    let ghost first = diag_views(out@);
    let subject = parts.subject();
    let subject_len = to_chars(subject.as_str()).len();
    if subject_len > rules.max_subject_length {
        let len_text = usize_to_string(subject_len);
        let max_text = usize_to_string(rules.max_subject_length);
        let mut detail = len_text.clone();
        detail.append("/");
        detail.append(max_text.as_str());
        let mut message = String::new();
        message.append("subject is ");
        message.append(len_text.as_str());
        message.append(" chars; max allowed is ");
        message.append(max_text.as_str());
        proof {
            assert(detail@ =~= len_text@ + "/"@ + max_text@);
            assert(message@ =~= "subject is "@ + len_text@ + " chars; max allowed is "@
                + max_text@);
        }
        let d = Diagnostic::error("subject.too-long", Field::Subject).removing(
            subject.as_str(),
        ).detail(detail.as_str()).message_override(message.as_str());
        let ghost before = out@;
        out.push(d);
        proof {
            assert(diag_views(out@) =~= diag_views(before).push(d@));
        }
    }
    proof {
        assert(diag_views(out@) =~= lint_spec(parts@, *config));
    }
    out
}

} // verus!
