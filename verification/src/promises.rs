//! What the comment stripping, the lint, the rendering, the guidance and
//! the ruleset promise, stated over their inputs and results.
use vstd::prelude::*;

use crate::config::{rule_views, Config, ReplaceView};
use crate::diagnostic::{DiagnosticView, Field, Severity};
use crate::guidance::{
    guidance_line, guidance_spec, length_line_spec, line_if, line_opt, rules_case, rules_chars,
    rules_shape, rules_spec, rules_tail, types_line_spec,
};
use crate::lint::lint_spec;
use crate::text::{decimal_spec, join_spec, lines_spec, trim_spec, views};
use crate::transform::{
    apply_rule, body_diags, chain_diags, chain_value, denied_diag, desc_collapsed, desc_dotted,
    desc_replaced, desc_stripped, desc_trailing, description_diags, footer_line, footers_diags,
    footers_value, is_denied, lowered, render_spec, scope_diags, spacing_diags, step_diags, strip_diags,
    subject_spec, transform_diags, type_diags, type_value, CommitPartsView, FooterView,
};
use crate::{scissors_line, strip_comments_spec, uncommented};

verus! {

broadcast use vstd::seq_lib::group_seq_properties;

/// A line git treats as a comment: it starts with `#`.
pub open spec fn comment_line(l: Seq<char>) -> bool {
    l.len() > 0 && l[0] == '#'
}

proof fn lemma_uncommented_is_filtered_prefix(ls: Seq<Seq<char>>) -> (n: int)
    ensures
        0 <= n <= ls.len(),
        forall|j: int| 0 <= j < n ==> !scissors_line(#[trigger] ls[j]),
        n < ls.len() ==> scissors_line(ls[n]),
        uncommented(ls) == ls.take(n).filter(|l: Seq<char>| !comment_line(l)),
    decreases ls.len(),
{
    let keep = |l: Seq<char>| !comment_line(l);
    if ls.len() == 0 || scissors_line(ls[0]) {
        assert(ls.take(0) =~= Seq::<Seq<char>>::empty());
        reveal(Seq::filter);
        0
    } else {
        let rest = ls.drop_first();
        let m = lemma_uncommented_is_filtered_prefix(rest);
        assert(ls.take(m + 1) =~= seq![ls[0]] + rest.take(m));
        rest.take(m).lemma_filter_prepend(ls[0], keep);
        assert forall|j: int| 0 <= j < m + 1 implies !scissors_line(#[trigger] ls[j]) by {
            if j > 0 {
                assert(ls[j] == rest[j - 1]);
            }
        }
        if m + 1 < ls.len() {
            assert(ls[m + 1] == rest[m]);
        }
        m + 1
    }
}

/// Comment stripping keeps, in order, exactly the lines before git's
/// scissors line that do not start with `#`, and joins them with newlines:
/// no line that starts with `#` survives.
pub proof fn comment_lines_never_survive(raw: Seq<char>)
    ensures
        strip_comments_spec(raw) == join_spec(uncommented(lines_spec(raw)), "\n"@),
        forall|i: int|
            0 <= i < uncommented(lines_spec(raw)).len() ==> !comment_line(
                #[trigger] uncommented(lines_spec(raw))[i],
            ),
        exists|n: int|
            #![trigger lines_spec(raw).take(n)]
            0 <= n <= lines_spec(raw).len() && (forall|j: int|
                0 <= j < n ==> !scissors_line(#[trigger] lines_spec(raw)[j])) && (n < lines_spec(
                raw,
            ).len() ==> scissors_line(lines_spec(raw)[n])) && uncommented(lines_spec(raw))
                == lines_spec(raw).take(n).filter(|l: Seq<char>| !comment_line(l)),
{
    let ls = lines_spec(raw);
    let n = lemma_uncommented_is_filtered_prefix(ls);
    let k = uncommented(ls);
    assert forall|i: int| 0 <= i < k.len() implies !comment_line(#[trigger] k[i]) by {
        ls.take(n).lemma_filter_pred(|l: Seq<char>| !comment_line(l), i);
    }
    assert(k == ls.take(n).filter(|l: Seq<char>| !comment_line(l)));
}

// ---------------------------------------------------------------------------
// The subject and its length
// ---------------------------------------------------------------------------

/// The subject is the rendered message's first part, and its length counts
/// every component: the type, the scope with its brackets, the `!`, the
/// `: ` and the description.
pub proof fn subject_is_the_whole_first_line(p: CommitPartsView)
    ensures
        render_spec(p).take(subject_spec(p).len() as int) == subject_spec(p),
        subject_spec(p).len() == p.type_.len() + match p.scope {
            Some(s) => s.len() + 2int,
            None => 0int,
        } + (if p.breaking {
            1int
        } else {
            0int
        }) + 2 + p.description.len(),
{
    reveal_strlit("(");
    reveal_strlit(")");
    reveal_strlit("!");
    reveal_strlit(": ");
    let r = render_spec(p);
    let s = subject_spec(p);
    assert(r.take(s.len() as int) =~= s);
}

/// The lint reports `subject.too-long` exactly when the whole subject line
/// (type, scope, `!`, description) has more characters than allowed, and
/// then quotes that line.
pub proof fn too_long_exactly_when_the_subject_is(p: CommitPartsView, c: Config)
    ensures
        (exists|i: int|
            0 <= i < lint_spec(p, c).len() && #[trigger] lint_spec(p, c)[i].code
                == "subject.too-long"@) <==> subject_spec(p).len() > c.rules.max_subject_length,
        forall|i: int|
            0 <= i < lint_spec(p, c).len() && #[trigger] lint_spec(p, c)[i].code
                == "subject.too-long"@ ==> lint_spec(p, c)[i].before == Some(subject_spec(p))
                && lint_spec(p, c)[i].severity == Severity::Error,
{
    reveal_strlit("subject.too-long");
    reveal_strlit("type.disallowed");
    let l = lint_spec(p, c);
    let s = subject_spec(p);
    if s.len() > c.rules.max_subject_length {
        assert(l[l.len() - 1].code == "subject.too-long"@);
    }
    assert forall|i: int| 0 <= i < l.len() && #[trigger] l[i].code == "subject.too-long"@ implies l[i].before
        == Some(s) && l[i].severity == Severity::Error && s.len() > c.rules.max_subject_length by {
        assert("subject.too-long"@[0] != "type.disallowed"@[0]);
    }
}

// ---------------------------------------------------------------------------
// The footer block
// ---------------------------------------------------------------------------

/// Everything before the footer block.
pub open spec fn head_of(p: CommitPartsView) -> Seq<char> {
    subject_spec(p) + match p.body {
        Some(b) => "\n\n"@ + b,
        None => Seq::<char>::empty(),
    }
}

proof fn lemma_render_parts(p: CommitPartsView)
    ensures
        p.footers.len() == 0 ==> render_spec(p) == head_of(p),
        p.footers.len() > 0 ==> render_spec(p) == head_of(p) + "\n\n"@ + join_spec(
            p.footers.map_values(|x: FooterView| footer_line(x)),
            "\n"@,
        ),
{
    if p.footers.len() == 0 {
        assert(render_spec(p) =~= head_of(p));
    } else {
        assert(render_spec(p) =~= head_of(p) + "\n\n"@ + join_spec(
            p.footers.map_values(|x: FooterView| footer_line(x)),
            "\n"@,
        ));
    }
}

/// The trailers follow the rest of the message after one blank line, and
/// each further trailer goes on the very next line: adding a trailer after
/// the last one adds a single newline and that trailer's line.
pub proof fn trailers_go_on_consecutive_lines(p: CommitPartsView, f: FooterView)
    ensures
        p.footers.len() == 0 ==> render_spec(CommitPartsView { footers: seq![f], ..p })
            == render_spec(p) + "\n\n"@ + footer_line(f),
        p.footers.len() > 0 ==> render_spec(CommitPartsView { footers: p.footers.push(f), ..p })
            == render_spec(p) + "\n"@ + footer_line(f),
{
    lemma_render_parts(p);
    if p.footers.len() == 0 {
        let q = CommitPartsView { footers: seq![f], ..p };
        assert(head_of(q) == head_of(p));
        lemma_render_parts(q);
        assert(q.footers.map_values(|x: FooterView| footer_line(x)) =~= seq![footer_line(f)]);
        assert(join_spec(seq![footer_line(f)], "\n"@) == footer_line(f));
    } else {
        let q = CommitPartsView { footers: p.footers.push(f), ..p };
        assert(head_of(q) == head_of(p));
        lemma_render_parts(q);
        let lines = p.footers.map_values(|x: FooterView| footer_line(x));
        let lines2 = q.footers.map_values(|x: FooterView| footer_line(x));
        assert(lines2 =~= lines.push(footer_line(f)));
        assert(lines2.drop_last() =~= lines);
        assert(join_spec(lines2, "\n"@) == join_spec(lines, "\n"@) + "\n"@ + footer_line(f));
        assert(head_of(p) + "\n\n"@ + (join_spec(lines, "\n"@) + "\n"@ + footer_line(f)) =~= head_of(
            p,
        ) + "\n\n"@ + join_spec(lines, "\n"@) + "\n"@ + footer_line(f));
    }
}

// ---------------------------------------------------------------------------
// Every reported rule is taught
// ---------------------------------------------------------------------------

/// A too-long subject is taught the length limit in force.
pub proof fn too_long_subject_is_taught(d: DiagnosticView, c: Config)
    requires
        d.code == "subject.too-long"@,
    ensures
        guidance_line(d, c) == Some(
            "keep the whole subject line to "@ + decimal_spec(c.rules.max_subject_length as nat)
                + " characters or fewer"@,
        ),
{
    reveal_strlit("subject.too-long");
    reveal_strlit("commit.not-conventional");
    reveal_strlit("type.disallowed");
    assert("subject.too-long"@.len() != "commit.not-conventional"@.len());
    assert(d.code != "commit.not-conventional"@);
    assert(d.code != "type.disallowed"@);
}

pub open spec fn taught(d: DiagnosticView, c: Config) -> bool {
    guidance_line(d, c) is Some
}

pub open spec fn all_taught(ds: Seq<DiagnosticView>, c: Config) -> bool {
    forall|i: int| 0 <= i < ds.len() ==> taught(#[trigger] ds[i], c)
}

/// The codes the lint and the normalization report.
pub open spec fn reported_code(code: Seq<char>) -> bool {
    ||| code == "type.disallowed"@
    ||| code == "subject.too-long"@
    ||| code == "type.lowercased"@
    ||| code == "scope.lowercased"@
    ||| code == "description.lowercased"@
    ||| code == "description.chars-stripped"@
    ||| code == "description.dots-stripped"@
    ||| code == "description.trailing-dot"@
    ||| code == "description.whitespace-collapsed"@
    ||| code == "description.trimmed"@
    ||| code == "body.dropped"@
    ||| code == "footers.dropped"@
    ||| code == "footer.denied"@
}

proof fn lemma_code_taught(d: DiagnosticView, c: Config)
    requires
        reported_code(d.code) || ((d.code == "scope.replaced"@ || d.code
            == "description.replaced"@) && d.before is Some && d.after is Some),
    ensures
        taught(d, c),
{
    reveal_strlit("commit.not-conventional");
    reveal_strlit("type.disallowed");
    reveal_strlit("subject.too-long");
    reveal_strlit("type.lowercased");
    reveal_strlit("scope.lowercased");
    reveal_strlit("scope.replaced");
    reveal_strlit("description.lowercased");
    reveal_strlit("description.replaced");
    reveal_strlit("description.chars-stripped");
    reveal_strlit("description.dots-stripped");
    reveal_strlit("description.trailing-dot");
    reveal_strlit("description.whitespace-collapsed");
    reveal_strlit("description.trimmed");
    reveal_strlit("body.dropped");
    reveal_strlit("footers.dropped");
    reveal_strlit("footer.denied");
    if d.code == "type.disallowed"@ {
        assert("type.disallowed"@.len() != "commit.not-conventional"@.len());
    } else if d.code == "subject.too-long"@ {
        assert("subject.too-long"@.len() != "commit.not-conventional"@.len());
        assert("subject.too-long"@.len() != "type.disallowed"@.len());
    } else if d.code == "type.lowercased"@ {
        assert("type.lowercased"@.len() != "commit.not-conventional"@.len());
        assert("type.lowercased"@[5] != "type.disallowed"@[5]);
        assert("type.lowercased"@.len() != "subject.too-long"@.len());
    } else if d.code == "scope.lowercased"@ {
        assert("scope.lowercased"@.len() != "commit.not-conventional"@.len());
        assert("scope.lowercased"@.len() != "type.disallowed"@.len());
        assert("scope.lowercased"@[1] != "subject.too-long"@[1]);
        assert("scope.lowercased"@.len() != "type.lowercased"@.len());
    } else if d.code == "scope.replaced"@ {
        assert("scope.replaced"@.len() != "commit.not-conventional"@.len());
        assert("scope.replaced"@.len() != "type.disallowed"@.len());
        assert("scope.replaced"@.len() != "subject.too-long"@.len());
        assert("scope.replaced"@.len() != "type.lowercased"@.len());
        assert("scope.replaced"@.len() != "scope.lowercased"@.len());
    } else if d.code == "description.lowercased"@ {
        assert("description.lowercased"@.len() != "commit.not-conventional"@.len());
        assert("description.lowercased"@.len() != "type.disallowed"@.len());
        assert("description.lowercased"@.len() != "subject.too-long"@.len());
        assert("description.lowercased"@.len() != "type.lowercased"@.len());
        assert("description.lowercased"@.len() != "scope.lowercased"@.len());
        assert("description.lowercased"@.len() != "scope.replaced"@.len());
    } else if d.code == "description.replaced"@ {
        assert("description.replaced"@.len() != "commit.not-conventional"@.len());
        assert("description.replaced"@.len() != "type.disallowed"@.len());
        assert("description.replaced"@.len() != "subject.too-long"@.len());
        assert("description.replaced"@.len() != "type.lowercased"@.len());
        assert("description.replaced"@.len() != "scope.lowercased"@.len());
        assert("description.replaced"@.len() != "scope.replaced"@.len());
        assert("description.replaced"@.len() != "description.lowercased"@.len());
    } else if d.code == "description.chars-stripped"@ {
        assert("description.chars-stripped"@.len() != "commit.not-conventional"@.len());
        assert("description.chars-stripped"@.len() != "type.disallowed"@.len());
        assert("description.chars-stripped"@.len() != "subject.too-long"@.len());
        assert("description.chars-stripped"@.len() != "type.lowercased"@.len());
        assert("description.chars-stripped"@.len() != "scope.lowercased"@.len());
        assert("description.chars-stripped"@.len() != "scope.replaced"@.len());
        assert("description.chars-stripped"@.len() != "description.lowercased"@.len());
        assert("description.chars-stripped"@.len() != "description.replaced"@.len());
    } else if d.code == "description.dots-stripped"@ {
        assert("description.dots-stripped"@.len() != "commit.not-conventional"@.len());
        assert("description.dots-stripped"@.len() != "type.disallowed"@.len());
        assert("description.dots-stripped"@.len() != "subject.too-long"@.len());
        assert("description.dots-stripped"@.len() != "type.lowercased"@.len());
        assert("description.dots-stripped"@.len() != "scope.lowercased"@.len());
        assert("description.dots-stripped"@.len() != "scope.replaced"@.len());
        assert("description.dots-stripped"@.len() != "description.lowercased"@.len());
        assert("description.dots-stripped"@.len() != "description.replaced"@.len());
        assert("description.dots-stripped"@.len() != "description.chars-stripped"@.len());
    } else if d.code == "description.trailing-dot"@ {
        assert("description.trailing-dot"@.len() != "commit.not-conventional"@.len());
        assert("description.trailing-dot"@.len() != "type.disallowed"@.len());
        assert("description.trailing-dot"@.len() != "subject.too-long"@.len());
        assert("description.trailing-dot"@.len() != "type.lowercased"@.len());
        assert("description.trailing-dot"@.len() != "scope.lowercased"@.len());
        assert("description.trailing-dot"@.len() != "scope.replaced"@.len());
        assert("description.trailing-dot"@.len() != "description.lowercased"@.len());
        assert("description.trailing-dot"@.len() != "description.replaced"@.len());
        assert("description.trailing-dot"@.len() != "description.chars-stripped"@.len());
        assert("description.trailing-dot"@.len() != "description.dots-stripped"@.len());
    } else if d.code == "description.whitespace-collapsed"@ {
        assert("description.whitespace-collapsed"@.len() != "commit.not-conventional"@.len());
        assert("description.whitespace-collapsed"@.len() != "type.disallowed"@.len());
        assert("description.whitespace-collapsed"@.len() != "subject.too-long"@.len());
        assert("description.whitespace-collapsed"@.len() != "type.lowercased"@.len());
        assert("description.whitespace-collapsed"@.len() != "scope.lowercased"@.len());
        assert("description.whitespace-collapsed"@.len() != "scope.replaced"@.len());
        assert("description.whitespace-collapsed"@.len() != "description.lowercased"@.len());
        assert("description.whitespace-collapsed"@.len() != "description.replaced"@.len());
        assert("description.whitespace-collapsed"@.len() != "description.chars-stripped"@.len());
        assert("description.whitespace-collapsed"@.len() != "description.dots-stripped"@.len());
        assert("description.whitespace-collapsed"@.len() != "description.trailing-dot"@.len());
    } else if d.code == "description.trimmed"@ {
        assert("description.trimmed"@.len() != "commit.not-conventional"@.len());
        assert("description.trimmed"@.len() != "type.disallowed"@.len());
        assert("description.trimmed"@.len() != "subject.too-long"@.len());
        assert("description.trimmed"@.len() != "type.lowercased"@.len());
        assert("description.trimmed"@.len() != "scope.lowercased"@.len());
        assert("description.trimmed"@.len() != "scope.replaced"@.len());
        assert("description.trimmed"@.len() != "description.lowercased"@.len());
        assert("description.trimmed"@.len() != "description.replaced"@.len());
        assert("description.trimmed"@.len() != "description.chars-stripped"@.len());
        assert("description.trimmed"@.len() != "description.dots-stripped"@.len());
        assert("description.trimmed"@.len() != "description.trailing-dot"@.len());
        assert("description.trimmed"@.len() != "description.whitespace-collapsed"@.len());
    } else if d.code == "body.dropped"@ {
        assert("body.dropped"@.len() != "commit.not-conventional"@.len());
        assert("body.dropped"@.len() != "type.disallowed"@.len());
        assert("body.dropped"@.len() != "subject.too-long"@.len());
        assert("body.dropped"@.len() != "type.lowercased"@.len());
        assert("body.dropped"@.len() != "scope.lowercased"@.len());
        assert("body.dropped"@.len() != "scope.replaced"@.len());
        assert("body.dropped"@.len() != "description.lowercased"@.len());
        assert("body.dropped"@.len() != "description.replaced"@.len());
        assert("body.dropped"@.len() != "description.chars-stripped"@.len());
        assert("body.dropped"@.len() != "description.dots-stripped"@.len());
        assert("body.dropped"@.len() != "description.trailing-dot"@.len());
        assert("body.dropped"@.len() != "description.whitespace-collapsed"@.len());
        assert("body.dropped"@.len() != "description.trimmed"@.len());
    } else if d.code == "footers.dropped"@ {
        assert("footers.dropped"@.len() != "commit.not-conventional"@.len());
        assert("footers.dropped"@[0] != "type.disallowed"@[0]);
        assert("footers.dropped"@.len() != "subject.too-long"@.len());
        assert("footers.dropped"@[0] != "type.lowercased"@[0]);
        assert("footers.dropped"@.len() != "scope.lowercased"@.len());
        assert("footers.dropped"@.len() != "scope.replaced"@.len());
        assert("footers.dropped"@.len() != "description.lowercased"@.len());
        assert("footers.dropped"@.len() != "description.replaced"@.len());
        assert("footers.dropped"@.len() != "description.chars-stripped"@.len());
        assert("footers.dropped"@.len() != "description.dots-stripped"@.len());
        assert("footers.dropped"@.len() != "description.trailing-dot"@.len());
        assert("footers.dropped"@.len() != "description.whitespace-collapsed"@.len());
        assert("footers.dropped"@.len() != "description.trimmed"@.len());
        assert("footers.dropped"@.len() != "body.dropped"@.len());
    } else if d.code == "footer.denied"@ {
        assert("footer.denied"@.len() != "commit.not-conventional"@.len());
        assert("footer.denied"@.len() != "type.disallowed"@.len());
        assert("footer.denied"@.len() != "subject.too-long"@.len());
        assert("footer.denied"@.len() != "type.lowercased"@.len());
        assert("footer.denied"@.len() != "scope.lowercased"@.len());
        assert("footer.denied"@.len() != "scope.replaced"@.len());
        assert("footer.denied"@.len() != "description.lowercased"@.len());
        assert("footer.denied"@.len() != "description.replaced"@.len());
        assert("footer.denied"@.len() != "description.chars-stripped"@.len());
        assert("footer.denied"@.len() != "description.dots-stripped"@.len());
        assert("footer.denied"@.len() != "description.trailing-dot"@.len());
        assert("footer.denied"@.len() != "description.whitespace-collapsed"@.len());
        assert("footer.denied"@.len() != "description.trimmed"@.len());
        assert("footer.denied"@.len() != "body.dropped"@.len());
        assert("footer.denied"@.len() != "footers.dropped"@.len());
    }
}

proof fn lemma_taught_add(a: Seq<DiagnosticView>, b: Seq<DiagnosticView>, c: Config)
    requires
        all_taught(a, c),
        all_taught(b, c),
    ensures
        all_taught(a + b, c),
{
    assert forall|i: int| 0 <= i < (a + b).len() implies taught(#[trigger] (a + b)[i], c) by {
        if i < a.len() {
            assert((a + b)[i] == a[i]);
        } else {
            assert((a + b)[i] == b[i - a.len()]);
        }
    }
}

proof fn lemma_step_taught(code: Seq<char>, field: Field, v: Seq<char>, n: Seq<char>, c: Config)
    requires
        reported_code(code) || code == "scope.replaced"@ || code == "description.replaced"@,
    ensures
        all_taught(step_diags(code, field, v, n), c),
{
    if n != v {
        lemma_code_taught(step_diags(code, field, v, n)[0], c);
    }
}

proof fn lemma_chain_taught(v: Seq<char>, rules: Seq<ReplaceView>, code: Seq<char>, field: Field, c: Config)
    requires
        code == "scope.replaced"@ || code == "description.replaced"@,
    ensures
        all_taught(chain_diags(v, rules, code, field), c),
    decreases rules.len(),
{
    if rules.len() > 0 {
        lemma_chain_taught(v, rules.drop_last(), code, field, c);
        let prev = chain_value(v, rules.drop_last());
        lemma_step_taught(code, field, prev, apply_rule(prev, rules.last()), c);
        lemma_taught_add(
            chain_diags(v, rules.drop_last(), code, field),
            step_diags(code, field, prev, apply_rule(prev, rules.last())),
            c,
        );
    }
}

proof fn lemma_transform_taught(p: CommitPartsView, c: Config)
    ensures
        all_taught(transform_diags(p, c), c),
{
    reveal_strlit("type.lowercased");
    reveal_strlit("scope.lowercased");
    reveal_strlit("description.lowercased");
    reveal_strlit("description.chars-stripped");
    reveal_strlit("description.dots-stripped");
    reveal_strlit("description.trailing-dot");
    reveal_strlit("description.whitespace-collapsed");
    reveal_strlit("description.trimmed");
    let td = type_diags(p.type_, c);
    lemma_step_taught("type.lowercased"@, Field::Type, p.type_, type_value(p.type_, c), c);
    let sd = scope_diags(p.scope, c);
    if let Some(s) = p.scope {
        let s1 = lowered(s, c.scope.lowercase);
        lemma_step_taught("scope.lowercased"@, Field::Scope, s, s1, c);
        lemma_chain_taught(s1, rule_views(c.scope.replace@), "scope.replaced"@, Field::Scope, c);
        lemma_taught_add(
            step_diags("scope.lowercased"@, Field::Scope, s, s1),
            chain_diags(s1, rule_views(c.scope.replace@), "scope.replaced"@, Field::Scope),
            c,
        );
    }
    let dc = c.description;
    let f = Field::Description;
    let d0 = p.description;
    let d1 = lowered(d0, dc.lowercase);
    let d2 = desc_replaced(d0, dc);
    let d3 = desc_stripped(d2, dc);
    let d4 = desc_dotted(d3, dc);
    let d5 = desc_trailing(d4, dc);
    let d6 = desc_collapsed(d5, dc);
    let a = step_diags("description.lowercased"@, f, d0, d1);
    let b = chain_diags(d1, rule_views(dc.replace@), "description.replaced"@, f);
    let s3 = step_diags("description.chars-stripped"@, f, d2, d3);
    let s4 = step_diags("description.dots-stripped"@, f, d3, d4);
    let s5 = step_diags("description.trailing-dot"@, f, d4, d5);
    let s6 = step_diags("description.whitespace-collapsed"@, f, d5, d6);
    let s7 = step_diags("description.trimmed"@, f, d6, trim_spec(d6));
    lemma_step_taught("description.lowercased"@, f, d0, d1, c);
    lemma_chain_taught(d1, rule_views(dc.replace@), "description.replaced"@, f, c);
    lemma_step_taught("description.chars-stripped"@, f, d2, d3, c);
    lemma_step_taught("description.dots-stripped"@, f, d3, d4, c);
    lemma_step_taught("description.trailing-dot"@, f, d4, d5, c);
    lemma_step_taught("description.whitespace-collapsed"@, f, d5, d6, c);
    lemma_step_taught("description.trimmed"@, f, d6, trim_spec(d6), c);
    lemma_taught_add(a, b, c);
    lemma_taught_add(s3, s4, c);
    lemma_taught_add(a + b, s3 + s4, c);
    lemma_taught_add(s5, s6, c);
    lemma_taught_add(s5 + s6, s7, c);
    lemma_taught_add(a + b + (s3 + s4), s5 + s6 + s7, c);
    assert(strip_diags(d2, dc) == s3 + s4);
    assert(spacing_diags(d4, dc) == s5 + s6 + s7);
    let dd = description_diags(d0, dc);
    assert(dd =~= a + b + (s3 + s4) + (s5 + s6 + s7));
    let bd = body_diags(p.body, c.body.keep);
    if bd.len() > 0 {
        reveal_strlit("body.dropped");
        lemma_code_taught(bd[0], c);
    }
    let fd = footers_diags(p.footers, c.footers);
    if !c.footers.keep {
        if fd.len() > 0 {
            reveal_strlit("footers.dropped");
            lemma_code_taught(fd[0], c);
        }
    } else {
        reveal_strlit("footer.denied");
        let kept = p.footers.filter(|x: FooterView| is_denied(x.token, views(c.footers.deny@)));
        assert forall|i: int| 0 <= i < fd.len() implies taught(#[trigger] fd[i], c) by {
            assert(fd[i] == denied_diag(kept[i]));
            lemma_code_taught(fd[i], c);
        }
    }
    lemma_taught_add(td, sd, c);
    lemma_taught_add(td + sd, dd, c);
    lemma_taught_add(td + sd + dd, bd, c);
    lemma_taught_add(td + sd + dd + bd, fd, c);
}

/// Every rule the lint or the normalization reports is taught: each of
/// their diagnostics has an instruction, and the guidance for them holds it.
pub proof fn every_reported_rule_is_taught(p: CommitPartsView, c: Config)
    ensures
        forall|i: int|
            0 <= i < (transform_diags(p, c) + lint_spec(p, c)).len() ==> match #[trigger] guidance_line(
                (transform_diags(p, c) + lint_spec(p, c))[i],
                c,
            ) {
                Some(l) => guidance_spec(transform_diags(p, c) + lint_spec(p, c), c).contains(l),
                None => false,
            },
{
    reveal_strlit("type.disallowed");
    reveal_strlit("subject.too-long");
    lemma_transform_taught(p, c);
    let l = lint_spec(p, c);
    assert forall|i: int| 0 <= i < l.len() implies taught(#[trigger] l[i], c) by {
        lemma_code_taught(l[i], c);
    }
    let ds = transform_diags(p, c) + l;
    lemma_taught_add(transform_diags(p, c), l, c);
    crate::laws::lemma_guidance_holds_each_line(ds, c);
    assert forall|i: int| 0 <= i < ds.len() implies match #[trigger] guidance_line(ds[i], c) {
        Some(x) => guidance_spec(ds, c).contains(x),
        None => false,
    } by {
        assert(taught(ds[i], c));
    }
}

// ---------------------------------------------------------------------------
// The footer rule in the ruleset
// ---------------------------------------------------------------------------

/// The line that says every footer is dropped.
pub open spec fn all_footers_dropped_text() -> Seq<char> {
    "all footers are discarded, including `Co-Authored-By` — do not rely on trailers"@
}

/// A line that does not open with `a`, so it is not that line.
pub open spec fn opens_otherwise(l: Seq<char>) -> bool {
    l.len() > 0 && l[0] != 'a'
}

pub open spec fn all_open_otherwise(ls: Seq<Seq<char>>) -> bool {
    forall|i: int| 0 <= i < ls.len() ==> opens_otherwise(#[trigger] ls[i])
}

proof fn lemma_open_otherwise_add(a: Seq<Seq<char>>, b: Seq<Seq<char>>)
    requires
        all_open_otherwise(a),
        all_open_otherwise(b),
    ensures
        all_open_otherwise(a + b),
{
    assert forall|i: int| 0 <= i < (a + b).len() implies opens_otherwise(#[trigger] (a + b)[i]) by {
        if i < a.len() {
            assert((a + b)[i] == a[i]);
        } else {
            assert((a + b)[i] == b[i - a.len()]);
        }
    }
}

proof fn lemma_line_if_open(cond: bool, l: Seq<char>)
    requires
        opens_otherwise(l),
    ensures
        all_open_otherwise(line_if(cond, l)),
{
}

proof fn lemma_line_opt_open(l: Option<Seq<char>>)
    requires
        l matches Some(x) ==> opens_otherwise(x),
    ensures
        all_open_otherwise(line_opt(l)),
{
}

proof fn lemma_opens(a: Seq<char>, b: Seq<char>)
    requires
        opens_otherwise(a),
    ensures
        opens_otherwise(a + b),
{
    assert((a + b)[0] == a[0]);
}

proof fn lemma_rules_open_otherwise(c: Config)
    ensures
        all_open_otherwise(rules_shape(c)),
        all_open_otherwise(rules_case(c)),
        all_open_otherwise(rules_chars(c)),
        c.footers.keep ==> all_open_otherwise(rules_tail(c)),
{
    let w1 = "write the subject as a Conventional Commit: `type(scope): description`"@;
    let w2 = "write the type in lowercase"@;
    let w3 = "write the scope in lowercase"@;
    let w4 = "write the description in lowercase"@;
    let w5 = "do not end the subject with a `.`"@;
    let w6 = "separate words with a single space"@;
    let w7 = "no leading or trailing space in the description"@;
    let w8 = "the body is discarded — put everything that matters in the subject line"@;
    reveal_strlit("write the subject as a Conventional Commit: `type(scope): description`");
    reveal_strlit("write the type in lowercase");
    reveal_strlit("write the scope in lowercase");
    reveal_strlit("write the description in lowercase");
    reveal_strlit("do not end the subject with a `.`");
    reveal_strlit("separate words with a single space");
    reveal_strlit("no leading or trailing space in the description");
    reveal_strlit("the body is discarded — put everything that matters in the subject line");
    reveal_strlit("use one of these types: ");
    reveal_strlit("keep the whole subject line to ");
    reveal_strlit("in the ");
    reveal_strlit("do not use these characters in the description: ");
    reveal_strlit("do not use `.` in the description at all, including at the end — write file names without their extension");
    reveal_strlit("use `.` only between digits, as in `1.2.3`, and never at the end of the subject — write file names without their extension, e.g. `release workflow` not `release.yml`");
    reveal_strlit("dots are kept in the description");
    reveal_strlit("these footers are discarded: ");
    assert(opens_otherwise(w1) && opens_otherwise(w2) && opens_otherwise(w3) && opens_otherwise(w4));
    assert(opens_otherwise(w5) && opens_otherwise(w6) && opens_otherwise(w7) && opens_otherwise(w8));
    // shape
    let allowed = views(c.rules.allowed_types@);
    lemma_opens("use one of these types: "@, join_spec(allowed, ", "@));
    lemma_opens(
        "keep the whole subject line to "@,
        decimal_spec(c.rules.max_subject_length as nat),
    );
    lemma_opens(
        "keep the whole subject line to "@ + decimal_spec(c.rules.max_subject_length as nat),
        " characters or fewer"@,
    );
    let l1 = line_if(c.rules.require_conventional, w1);
    let l2 = line_if(allowed.len() > 0, types_line_spec(allowed));
    let l3 = seq![length_line_spec(c.rules.max_subject_length as nat)];
    lemma_line_if_open(c.rules.require_conventional, w1);
    lemma_line_if_open(allowed.len() > 0, types_line_spec(allowed));
    lemma_open_otherwise_add(l1, l2);
    lemma_open_otherwise_add(l1 + l2, l3);
    // case
    let sr = crate::guidance::replace_rule_line_spec("scope"@, rule_views(c.scope.replace@));
    let dr = crate::guidance::replace_rule_line_spec(
        "description"@,
        rule_views(c.description.replace@),
    );
    if let Some(x) = sr {
        let rs = rule_views(c.scope.replace@);
        lemma_opens("in the "@, "scope"@ + ", "@ + join_spec(rs.map_values(|r: ReplaceView| crate::guidance::rule_text(r)), ", "@) + " — write the result directly"@);
        assert(x =~= "in the "@ + ("scope"@ + ", "@ + join_spec(rs.map_values(|r: ReplaceView| crate::guidance::rule_text(r)), ", "@) + " — write the result directly"@));
    }
    if let Some(x) = dr {
        let rs = rule_views(c.description.replace@);
        lemma_opens("in the "@, "description"@ + ", "@ + join_spec(rs.map_values(|r: ReplaceView| crate::guidance::rule_text(r)), ", "@) + " — write the result directly"@);
        assert(x =~= "in the "@ + ("description"@ + ", "@ + join_spec(rs.map_values(|r: ReplaceView| crate::guidance::rule_text(r)), ", "@) + " — write the result directly"@));
    }
    let c1 = line_if(c.type_.lowercase, w2);
    let c2 = line_if(c.scope.lowercase, w3);
    let c3 = line_opt(sr);
    let c4 = line_if(c.description.lowercase, w4);
    let c5 = line_opt(dr);
    lemma_line_if_open(c.type_.lowercase, w2);
    lemma_line_if_open(c.scope.lowercase, w3);
    lemma_line_opt_open(sr);
    lemma_line_if_open(c.description.lowercase, w4);
    lemma_line_opt_open(dr);
    lemma_open_otherwise_add(c1, c2);
    lemma_open_otherwise_add(c1 + c2, c3);
    lemma_open_otherwise_add(c1 + c2 + c3, c4);
    lemma_open_otherwise_add(c1 + c2 + c3 + c4, c5);
    // chars
    let d = c.description;
    let quoted = d.strip_chars@.map_values(|ch: char| crate::guidance::quoted_char(ch));
    lemma_opens("do not use these characters in the description: "@, join_spec(quoted, " "@));
    let dots = crate::guidance::dots_rule_spec(d.internal_dots);
    assert(opens_otherwise(dots));
    let h1 = line_if(d.strip_chars@.len() > 0, crate::guidance::strip_chars_line_spec(d.strip_chars@));
    let h2 = seq![dots];
    let h3 = line_if(d.trailing_dot == crate::config::TrailingDot::Strip && d.internal_dots == crate::config::InternalDots::All, w5);
    let h4 = line_if(d.collapse_whitespace, w6);
    let h5 = seq![w7];
    lemma_line_if_open(d.strip_chars@.len() > 0, crate::guidance::strip_chars_line_spec(d.strip_chars@));
    lemma_line_if_open(d.trailing_dot == crate::config::TrailingDot::Strip && d.internal_dots == crate::config::InternalDots::All, w5);
    lemma_line_if_open(d.collapse_whitespace, w6);
    lemma_open_otherwise_add(h1, h2);
    lemma_open_otherwise_add(h1 + h2, h3);
    lemma_open_otherwise_add(h1 + h2 + h3, h4);
    lemma_open_otherwise_add(h1 + h2 + h3 + h4, h5);
    // tail, when footers are kept
    if c.footers.keep {
        let deny = views(c.footers.deny@);
        let t1 = line_if(!c.body.keep, w8);
        lemma_line_if_open(!c.body.keep, w8);
        let t2 = line_if(deny.len() > 0, crate::guidance::denied_footers_line_spec(deny));
        if deny.len() > 0 {
            lemma_opens("these footers are discarded: "@, join_spec(deny, ", "@));
            lemma_line_if_open(deny.len() > 0, crate::guidance::denied_footers_line_spec(deny));
        } else {
            assert(t2.len() == 0);
        }
        lemma_open_otherwise_add(t1, t2);
    }
}

/// The ruleset's footer line agrees with what happens to the footers: when
/// footers are kept it names the denied ones (if any) and never claims that
/// all footers are dropped; it says all footers go exactly when they are
/// not kept, which is when every footer is dropped.
pub proof fn ruleset_footer_line_matches_the_config(c: Config)
    ensures
        c.footers.keep && c.footers.deny@.len() > 0 ==> rules_spec(c).contains(
            "these footers are discarded: "@ + join_spec(views(c.footers.deny@), ", "@),
        ),
        rules_spec(c).contains(all_footers_dropped_text()) <==> !c.footers.keep,
        rules_spec(c).contains(all_footers_dropped_text()) ==> forall|fs: Seq<FooterView>|
            #[trigger] footers_value(fs, c.footers).len() == 0,
{
    reveal_strlit("all footers are discarded, including `Co-Authored-By` — do not rely on trailers");
    let r = rules_spec(c);
    let head = rules_shape(c) + rules_case(c) + rules_chars(c);
    assert(r == head + rules_tail(c));
    lemma_rules_open_otherwise(c);
    lemma_open_otherwise_add(rules_shape(c), rules_case(c));
    lemma_open_otherwise_add(rules_shape(c) + rules_case(c), rules_chars(c));
    let deny = views(c.footers.deny@);
    if c.footers.keep {
        lemma_open_otherwise_add(head, rules_tail(c));
        if r.contains(all_footers_dropped_text()) {
            let i = choose|i: int| 0 <= i < r.len() && r[i] == all_footers_dropped_text();
            assert(opens_otherwise(r[i]));
        }
        if deny.len() > 0 {
            let t = rules_tail(c);
            let x = crate::guidance::denied_footers_line_spec(deny);
            assert(t[t.len() - 1] == x);
            assert(r[r.len() - 1] == x);
        }
    } else {
        assert(r[r.len() - 1] == all_footers_dropped_text());
    }
}

} // verus!
