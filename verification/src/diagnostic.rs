//! Structured diagnostics: typed fields consumers can branch on, not just
//! prose. [`Diagnostic::message`] derives human text from them.
use vstd::prelude::*;

use crate::text::{str_eq, to_owned};

verus! {

/// Warning: whittle can rewrite it. Error: no rewrite fixes it.
#[derive(Debug, Clone, Copy, PartialEq, Eq, Structural)]
pub enum Severity {
    Warning,
    Error,
}

pub open spec fn severity_name(s: Severity) -> Seq<char> {
    match s {
        Severity::Warning => "warning"@,
        Severity::Error => "error"@,
    }
}

impl Severity {
    pub fn as_str(self) -> (r: &'static str)
        ensures
            r@ == severity_name(self),
    {
        match self {
            Severity::Warning => "warning",
            Severity::Error => "error",
        }
    }
}

#[derive(Debug, Clone, Copy, PartialEq, Eq, Structural)]
pub enum Field {
    Type,
    Scope,
    Description,
    Subject,
    Body,
    Footers,
    Message,
}

pub open spec fn field_name(f: Field) -> Seq<char> {
    match f {
        Field::Type => "type"@,
        Field::Scope => "scope"@,
        Field::Description => "description"@,
        Field::Subject => "subject"@,
        Field::Body => "body"@,
        Field::Footers => "footers"@,
        Field::Message => "message"@,
    }
}

impl Field {
    pub fn as_str(self) -> (r: &'static str)
        ensures
            r@ == field_name(self),
    {
        match self {
            Field::Type => "type",
            Field::Scope => "scope",
            Field::Description => "description",
            Field::Subject => "subject",
            Field::Body => "body",
            Field::Footers => "footers",
            Field::Message => "message",
        }
    }
}

#[derive(Debug, Clone)]
pub struct Diagnostic {
    /// Stable, dotted identifier, e.g. `description.trailing-dot`.
    pub code: &'static str,
    pub severity: Severity,
    pub field: Field,
    pub before: Option<String>,
    /// None means the content is removed entirely.
    pub after: Option<String>,
    pub detail: Option<String>,
    /// Written to disk (`fix`) vs still pending (`check`).
    pub applied: bool,
    pub message_override: Option<String>,
}

/// A diagnostic as plain values.
pub struct DiagnosticView {
    pub code: Seq<char>,
    pub severity: Severity,
    pub field: Field,
    pub before: Option<Seq<char>>,
    pub after: Option<Seq<char>>,
    pub detail: Option<Seq<char>>,
    pub applied: bool,
    pub message_override: Option<Seq<char>>,
}

pub open spec fn opt_view(o: Option<String>) -> Option<Seq<char>> {
    match o {
        Some(s) => Some(s@),
        None => None,
    }
}

impl View for Diagnostic {
    type V = DiagnosticView;

    open spec fn view(&self) -> DiagnosticView {
        DiagnosticView {
            code: self.code@,
            severity: self.severity,
            field: self.field,
            before: opt_view(self.before),
            after: opt_view(self.after),
            detail: opt_view(self.detail),
            applied: self.applied,
            message_override: opt_view(self.message_override),
        }
    }
}

pub open spec fn diag_views(v: Seq<Diagnostic>) -> Seq<DiagnosticView> {
    v.map_values(|d: Diagnostic| d@)
}

/// A fresh diagnostic with nothing but its code, severity and field.
pub open spec fn bare(code: Seq<char>, severity: Severity, field: Field) -> DiagnosticView {
    DiagnosticView {
        code,
        severity,
        field,
        before: None,
        after: None,
        detail: None,
        applied: false,
        message_override: None,
    }
}

pub open spec fn with_rewrite(d: DiagnosticView, before: Seq<char>, after: Seq<char>) -> DiagnosticView {
    DiagnosticView { before: Some(before), after: Some(after), ..d }
}

pub open spec fn with_removal(d: DiagnosticView, before: Seq<char>) -> DiagnosticView {
    DiagnosticView { before: Some(before), after: None, ..d }
}

pub open spec fn with_detail(d: DiagnosticView, detail: Seq<char>) -> DiagnosticView {
    DiagnosticView { detail: Some(detail), ..d }
}

pub open spec fn with_message(d: DiagnosticView, message: Seq<char>) -> DiagnosticView {
    DiagnosticView { message_override: Some(message), ..d }
}

pub open spec fn applied(d: DiagnosticView) -> DiagnosticView {
    DiagnosticView { applied: true, ..d }
}

/// The text `message` derives when no override is set.
pub open spec fn derived_message(d: DiagnosticView) -> Seq<char> {
    let would = if d.applied {
        ""@
    } else {
        "would be "@
    };
    let suffix = match d.detail {
        Some(x) => " ("@ + x + ")"@,
        None => Seq::<char>::empty(),
    };
    if d.code == "body.dropped"@ {
        "body "@ + would + "removed"@ + suffix
    } else if d.code == "footers.dropped"@ {
        "all footers "@ + would + "removed"@ + suffix
    } else if d.code == "footer.denied"@ {
        let token = match d.detail {
            Some(x) => x,
            None => "?"@,
        };
        "footer `"@ + token + "` "@ + would + "removed"@
    } else {
        match (d.before, d.after) {
            (Some(b), Some(a)) => {
                let verb = if d.applied {
                    " rewritten"@
                } else {
                    ""@
                };
                field_name(d.field) + verb + ": \""@ + b + "\" -> \""@ + a + "\""@
            },
            (Some(b), None) => field_name(d.field) + ": \""@ + b + "\" "@ + would + "removed"@,
            _ => field_name(d.field) + ": "@ + d.code,
        }
    }
}

/// `message`: the override when one is set, else the derived text.
pub open spec fn message_spec(d: DiagnosticView) -> Seq<char> {
    match d.message_override {
        Some(m) => m,
        None => derived_message(d),
    }
}

fn clone_opt(o: &Option<String>) -> (r: Option<String>)
    ensures
        opt_view(r) == opt_view(*o),
{
    match o {
        Some(s) => Some(s.clone()),
        None => None,
    }
}

impl Diagnostic {
    pub fn transform(code: &'static str, field: Field) -> (r: Self)
        ensures
            r@ == bare(code@, Severity::Warning, field),
    {
        Diagnostic {
            code,
            severity: Severity::Warning,
            field,
            before: None,
            after: None,
            detail: None,
            applied: false,
            message_override: None,
        }
    }

    pub fn error(code: &'static str, field: Field) -> (r: Self)
        ensures
            r@ == bare(code@, Severity::Error, field),
    {
        Diagnostic {
            code,
            severity: Severity::Error,
            field,
            before: None,
            after: None,
            detail: None,
            applied: false,
            message_override: None,
        }
    }

    pub fn rewrite(self, before: &str, after: &str) -> (r: Self)
        ensures
            r@ == with_rewrite(self@, before@, after@),
    {
        let mut d = self;
        d.before = Some(to_owned(before));
        d.after = Some(to_owned(after));
        d
    }

    pub fn removing(self, before: &str) -> (r: Self)
        ensures
            r@ == with_removal(self@, before@),
    {
        let mut d = self;
        d.before = Some(to_owned(before));
        d.after = None;
        d
    }

    pub fn detail(self, detail: &str) -> (r: Self)
        ensures
            r@ == with_detail(self@, detail@),
    {
        let mut d = self;
        d.detail = Some(to_owned(detail));
        d
    }

    pub fn message_override(self, message: &str) -> (r: Self)
        ensures
            r@ == with_message(self@, message@),
    {
        let mut d = self;
        d.message_override = Some(to_owned(message));
        d
    }

    /// Marks every diagnostic as written to disk; nothing else changes.
    pub fn mark_applied(diags: &mut Vec<Self>)
        ensures
            diag_views(final(diags)@) == diag_views(old(diags)@).map_values(
                |d: DiagnosticView| applied(d),
            ),
    {
        let mut i: usize = 0;
        while i < diags.len()
            invariant
                i <= diags@.len(),
                diags@.len() == old(diags)@.len(),
                forall|j: int| 0 <= j < i ==> #[trigger] diags@[j]@ == applied(old(diags)@[j]@),
                forall|j: int| i <= j < diags@.len() ==> #[trigger] diags@[j] == old(diags)@[j],
            decreases diags@.len() - i,
        {
            diags[i].applied = true;
            i += 1;
        }
        proof {
            assert(diag_views(diags@) =~= diag_views(old(diags)@).map_values(
                |d: DiagnosticView| applied(d),
            ));
        }
    }

    /// Human text: the override when one is set, else text derived from
    /// the code, field, before/after and detail.
    pub fn message(&self) -> (r: String)
        ensures
            r@ == message_spec(self@),
    {
        if let Some(m) = &self.message_override {
            return m.clone();
        }
        let would = if self.applied {
            ""
        } else {
            "would be "
        };
        let mut suffix = String::new();
        if let Some(d) = &self.detail {
            suffix.append(" (");
            suffix.append(d.as_str());
            suffix.append(")");
            proof {
                assert(suffix@ =~= " ("@ + d@ + ")"@);
            }
        }
        let ghost w = would@;
        let ghost sfx = suffix@;
        let mut out = String::new();
        if str_eq(self.code, "body.dropped") {
            out.append("body ");
            out.append(would);
            out.append("removed");
            out.append(suffix.as_str());
            proof {
                assert(out@ =~= "body "@ + w + "removed"@ + sfx);
            }
        } else if str_eq(self.code, "footers.dropped") {
            out.append("all footers ");
            out.append(would);
            out.append("removed");
            out.append(suffix.as_str());
            proof {
                assert(out@ =~= "all footers "@ + w + "removed"@ + sfx);
            }
        } else if str_eq(self.code, "footer.denied") {
            out.append("footer `");
            let ghost token = match self@.detail {
                Some(t) => t,
                None => "?"@,
            };
            match &self.detail {
                Some(t) => out.append(t.as_str()),
                None => out.append("?"),
            }
            out.append("` ");
            out.append(would);
            out.append("removed");
            proof {
                assert(out@ =~= "footer `"@ + token + "` "@ + w + "removed"@);
            }
        } else {
            out.append(self.field.as_str());
            let ghost f = field_name(self.field);
            match (&self.before, &self.after) {
                (Some(b), Some(a)) => {
                    let ghost verb = if self.applied {
                        " rewritten"@
                    } else {
                        ""@
                    };
                    let verb_str = if self.applied {
                        " rewritten"
                    } else {
                        ""
                    };
                    out.append(verb_str);
                    out.append(": \"");
                    out.append(b.as_str());
                    out.append("\" -> \"");
                    out.append(a.as_str());
                    out.append("\"");
                    proof {
                        assert(out@ =~= f + verb + ": \""@ + b@ + "\" -> \""@ + a@ + "\""@);
                    }
                },
                (Some(b), None) => {
                    out.append(": \"");
                    out.append(b.as_str());
                    out.append("\" ");
                    out.append(would);
                    out.append("removed");
                    proof {
                        assert(out@ =~= f + ": \""@ + b@ + "\" "@ + w + "removed"@);
                    }
                },
                _ => {
                    out.append(": ");
                    out.append(self.code);
                    proof {
                        assert(out@ =~= f + ": "@ + self.code@);
                    }
                },
            }
        }
        out
    }
}

/// Disambiguates `after: null`: deleted vs. rejected.
#[derive(Debug, Clone, Copy, PartialEq, Eq, Structural)]
pub enum Kind {
    Rewrite,
    Removal,
    /// `after`, if present, is illustrative only — never adopt it.
    Violation,
}

pub open spec fn kind_name(k: Kind) -> Seq<char> {
    match k {
        Kind::Rewrite => "rewrite"@,
        Kind::Removal => "removal"@,
        Kind::Violation => "violation"@,
    }
}

impl Kind {
    pub fn as_str(self) -> (r: &'static str)
        ensures
            r@ == kind_name(self),
    {
        match self {
            Kind::Rewrite => "rewrite",
            Kind::Removal => "removal",
            Kind::Violation => "violation",
        }
    }
}

/// An error is a violation; a warning with an `after` is a rewrite, one
/// without is a removal.
pub open spec fn kind_of(severity: Severity, has_after: bool) -> Kind {
    match severity {
        Severity::Error => Kind::Violation,
        Severity::Warning => if has_after {
            Kind::Rewrite
        } else {
            Kind::Removal
        },
    }
}

/// A [`Diagnostic`] as a report entry: its kind spelled out and its message derived.
#[derive(Debug)]
pub struct DiagnosticJson<'a> {
    pub code: &'a str,
    pub severity: Severity,
    pub kind: Kind,
    pub field: Field,
    pub before: Option<&'a str>,
    pub after: Option<&'a str>,
    pub detail: Option<&'a str>,
    pub applied: bool,
    pub message: String,
}

pub open spec fn opt_str_view(o: Option<&str>) -> Option<Seq<char>> {
    match o {
        Some(s) => Some(s@),
        None => None,
    }
}

fn borrow_opt<'a>(o: &'a Option<String>) -> (r: Option<&'a str>)
    ensures
        opt_str_view(r) == opt_view(*o),
{
    match o {
        Some(s) => Some(s.as_str()),
        None => None,
    }
}

impl<'a> DiagnosticJson<'a> {
    /// The report entry for `d`.
    pub fn from_diagnostic(d: &'a Diagnostic) -> (r: DiagnosticJson<'a>)
        ensures
            r.code@ == d.code@,
            r.severity == d.severity,
            r.kind == kind_of(d.severity, d.after is Some),
            r.field == d.field,
            opt_str_view(r.before) == opt_view(d.before),
            opt_str_view(r.after) == opt_view(d.after),
            opt_str_view(r.detail) == opt_view(d.detail),
            r.applied == d.applied,
            r.message@ == message_spec(d@),
    {
        let kind = match d.severity {
            Severity::Error => Kind::Violation,
            Severity::Warning => if d.after.is_some() {
                Kind::Rewrite
            } else {
                Kind::Removal
            },
        };
        DiagnosticJson {
            code: d.code,
            severity: d.severity,
            kind,
            field: d.field,
            before: borrow_opt(&d.before),
            after: borrow_opt(&d.after),
            detail: borrow_opt(&d.detail),
            applied: d.applied,
            message: d.message(),
        }
    }
}

} // verus!
