//! Properties that hold across the library's functions, proved over the
//! specifications their contracts use.
use vstd::prelude::*;

use crate::config::Config;
use crate::diagnostic::{applied, DiagnosticView, Severity};
use crate::guidance::{guidance_spec, push_unique_spec};
use crate::lint::lint_spec;
use crate::diagnostic::Field;
use crate::config::rule_views;
use crate::text::{trim_spec, views};
use crate::transform::{
    body_diags, chain_diags, denied_diag, desc_collapsed, desc_dotted, desc_replaced,
    desc_stripped, desc_trailing, description_diags, footers_diags, is_denied, lowered,
    parse_spec, render_spec, scope_diags, spacing_diags, step_diags, strip_diags,
    transform_diags, type_diags, CommitPartsView, FooterView,
};
use crate::{
    errors_only, evaluate_spec, exit_code_spec, final_diags, has_error, human_report_spec,
    is_error, original_spec, rewording_diag, ruined_spec, settled_diags, Mode,
};

verus! {

broadcast use vstd::seq_lib::group_seq_properties;

proof fn lemma_has_error_add(a: Seq<DiagnosticView>, b: Seq<DiagnosticView>)
    ensures
        has_error(a + b) == (has_error(a) || has_error(b)),
{
    if has_error(a) {
        let i = choose|i: int| 0 <= i < a.len() && (#[trigger] a[i]).severity == Severity::Error;
        assert((a + b)[i] == a[i]);
    }
    if has_error(b) {
        let i = choose|i: int| 0 <= i < b.len() && (#[trigger] b[i]).severity == Severity::Error;
        assert((a + b)[a.len() + i] == b[i]);
    }
    if has_error(a + b) {
        let i = choose|i: int|
            0 <= i < (a + b).len() && (#[trigger] (a + b)[i]).severity == Severity::Error;
        if i < a.len() {
            assert(a[i] == (a + b)[i]);
        } else {
            assert(b[i - a.len()] == (a + b)[i]);
        }
    }
}

proof fn lemma_has_error_applied(a: Seq<DiagnosticView>)
    ensures
        has_error(a.map_values(|d: DiagnosticView| applied(d))) == has_error(a),
{
    let m = a.map_values(|d: DiagnosticView| applied(d));
    if has_error(a) {
        let i = choose|i: int| 0 <= i < a.len() && (#[trigger] a[i]).severity == Severity::Error;
        assert(m[i] == applied(a[i]));
    }
    if has_error(m) {
        let i = choose|i: int| 0 <= i < m.len() && (#[trigger] m[i]).severity == Severity::Error;
        assert(m[i] == applied(a[i]));
    }
}

/// A sequence of errors with no error in it is empty.
proof fn lemma_errors_only_clean(a: Seq<DiagnosticView>)
    ensures
        !has_error(errors_only(a)) ==> errors_only(a).len() == 0,
{
    let e = errors_only(a);
    if e.len() > 0 {
        a.lemma_filter_pred(|d: DiagnosticView| is_error(d), 0);
        assert(e[0].severity == Severity::Error);
    }
}

/// Every entry of the lint is an error, so a lint without an error is empty.
proof fn lemma_lint_clean(p: crate::transform::CommitPartsView, c: Config)
    ensures
        !has_error(lint_spec(p, c)) ==> lint_spec(p, c).len() == 0,
{
    let l = lint_spec(p, c);
    if l.len() > 0 {
        assert(l[0].severity == Severity::Error);
    }
}

/// Every rewording demand is an error.
proof fn lemma_rewordings_are_errors(r: Seq<(Seq<char>, Seq<char>)>)
    ensures
        r.len() > 0 ==> has_error(r.map_values(|p: (Seq<char>, Seq<char>)| rewording_diag(p))),
{
    let m = r.map_values(|p: (Seq<char>, Seq<char>)| rewording_diag(p));
    if r.len() > 0 {
        assert(m[0] == rewording_diag(r[0]));
    }
}

/// A run judges the parser's own results: `evaluate` is `judge` given what
/// parsing the judged message and its normalization gave.
pub proof fn evaluate_judges_the_parse_results(raw: Seq<char>, c: Config, mode: Mode)
    ensures
        evaluate_spec(raw, c, mode) == crate::judge_spec(
            raw,
            parse_spec(original_spec(raw)),
            match parse_spec(original_spec(raw)) {
                Ok(p) => crate::reparse_spec(p, c),
                Err(_) => Ok(()),
            },
            c,
            mode,
        ),
{
}

/// `check` never writes the file: it only reports what `fix` would change.
pub proof fn check_never_writes(raw: Seq<char>, c: Config)
    ensures
        evaluate_spec(raw, c, Mode::Check).write is None,
{
}

/// A message offered for adoption carries no error: adopting it does not
/// fail on a rule the run already knew about.
pub proof fn adoptable_message_has_no_error(raw: Seq<char>, c: Config, mode: Mode)
    ensures
        evaluate_spec(raw, c, mode).normalized is Some ==> !has_error(
            evaluate_spec(raw, c, mode).diagnostics,
        ),
        evaluate_spec(raw, c, mode).normalized is Some ==> exit_code_spec(
            evaluate_spec(raw, c, mode),
            Mode::Fix,
        ) == 0,
{
}

/// `fix` never writes a message that would not parse: what it writes is a
/// parsing message followed by a newline.
pub proof fn fix_writes_only_parsing_messages(raw: Seq<char>, c: Config)
    ensures
        match evaluate_spec(raw, c, Mode::Fix).write {
            Some(w) => exists|n: Seq<char>| #[trigger] parse_spec(n) is Ok && w == n + "\n"@,
            None => true,
        },
{
    let original = original_spec(raw);
    if original.len() > 0 {
        if let Ok(p) = parse_spec(original) {
            let tp = crate::transform::transformed(p, c);
            let n = render_spec(tp);
            if parse_spec(n) is Ok {
                assert(parse_spec(n) is Ok);
            }
        }
    }
}

/// Both modes judge the same message and agree on whether it needs a rewrite.
pub proof fn modes_judge_the_same_message(raw: Seq<char>, c: Config)
    ensures
        evaluate_spec(raw, c, Mode::Check).original == evaluate_spec(raw, c, Mode::Fix).original,
        evaluate_spec(raw, c, Mode::Check).original == original_spec(raw),
        evaluate_spec(raw, c, Mode::Check).needs_rewrite == evaluate_spec(
            raw,
            c,
            Mode::Fix,
        ).needs_rewrite,
{
}

/// A message that passes `check` also passes `fix`, which offers the same
/// message and writes at most its canonical formatting: the message and a
/// newline.
pub proof fn passing_check_means_fix_only_reformats(raw: Seq<char>, c: Config)
    requires
        exit_code_spec(evaluate_spec(raw, c, Mode::Check), Mode::Check) == 0,
    ensures
        exit_code_spec(evaluate_spec(raw, c, Mode::Fix), Mode::Fix) == 0,
        evaluate_spec(raw, c, Mode::Fix).normalized == evaluate_spec(raw, c, Mode::Check).normalized,
        match evaluate_spec(raw, c, Mode::Fix).write {
            Some(w) => w == original_spec(raw) + "\n"@,
            None => true,
        },
{
    let original = original_spec(raw);
    if original.len() > 0 {
        if let Ok(p) = parse_spec(original) {
            let tp = crate::transform::transformed(p, c);
            let tdiags = crate::transform::transform_diags(p, c);
            let n = render_spec(tp);
            if parse_spec(n) is Ok {
                let s = settled_diags(original, n, tdiags);
                let ruined = ruined_spec(p.description, c, Mode::Check);
                let rw = ruined.map_values(|q: (Seq<char>, Seq<char>)| rewording_diag(q));
                let none: Seq<(Seq<char>, Seq<char>)> = Seq::empty();
                let rw0 = none.map_values(|q: (Seq<char>, Seq<char>)| rewording_diag(q));
                let l = lint_spec(tp, c);
                assert(final_diags(original, n, tp, tdiags, ruined, c, Mode::Check) == (s + rw) + l);
                lemma_has_error_add(s + rw, l);
                lemma_has_error_add(s, rw);
                lemma_rewordings_are_errors(ruined);
                assert(rw0 =~= Seq::<DiagnosticView>::empty());
                assert(s + rw0 =~= s);
                assert(final_diags(original, n, tp, tdiags, none, c, Mode::Fix) == s.map_values(
                    |x: DiagnosticView| applied(x),
                ) + l);
                lemma_has_error_applied(s);
                lemma_has_error_add(s.map_values(|x: DiagnosticView| applied(x)), l);
            }
        }
    }
}

proof fn lemma_passing_check_is_silent(raw: Seq<char>, c: Config)
    requires
        exit_code_spec(evaluate_spec(raw, c, Mode::Check), Mode::Check) == 0,
    ensures
        evaluate_spec(raw, c, Mode::Check).diagnostics.len() == 0,
        !evaluate_spec(raw, c, Mode::Check).needs_rewrite,
{
    let original = original_spec(raw);
    if original.len() > 0 {
        if let Ok(p) = parse_spec(original) {
            let tp = crate::transform::transformed(p, c);
            let tdiags = crate::transform::transform_diags(p, c);
            let n = render_spec(tp);
            if parse_spec(n) is Ok {
                let s = settled_diags(original, n, tdiags);
                let ruined = ruined_spec(p.description, c, Mode::Check);
                let rw = ruined.map_values(|q: (Seq<char>, Seq<char>)| rewording_diag(q));
                let l = lint_spec(tp, c);
                assert(final_diags(original, n, tp, tdiags, ruined, c, Mode::Check) == (s + rw) + l);
                lemma_has_error_add(s + rw, l);
                lemma_has_error_add(s, rw);
                lemma_rewordings_are_errors(ruined);
                lemma_errors_only_clean(tdiags);
                lemma_lint_clean(tp, c);
                assert((s + rw) + l =~= Seq::<DiagnosticView>::empty());
            }
        }
    }
}

/// A message that passes `check` gets no report at all: no diagnostic, no
/// guidance and no suggestion.
pub proof fn passing_check_prints_nothing(raw: Seq<char>, c: Config, rules_command: Seq<char>)
    requires
        exit_code_spec(evaluate_spec(raw, c, Mode::Check), Mode::Check) == 0,
    ensures
        evaluate_spec(raw, c, Mode::Check).diagnostics.len() == 0,
        evaluate_spec(raw, c, Mode::Check).guidance.len() == 0,
        human_report_spec(evaluate_spec(raw, c, Mode::Check), Mode::Check, rules_command).len()
            == 0,
{
    lemma_passing_check_is_silent(raw, c);
    let o = evaluate_spec(raw, c, Mode::Check);
    assert(o.diagnostics =~= Seq::<DiagnosticView>::empty());
    assert(guidance_spec(Seq::<DiagnosticView>::empty(), c).len() == 0);
    assert(o.diagnostics.map_values(|d: DiagnosticView| crate::diag_line(d)) =~= Seq::<
        Seq<char>,
    >::empty());
}

/// The guidance names each instruction once.
pub proof fn guidance_has_no_duplicates(diags: Seq<DiagnosticView>, c: Config)
    ensures
        guidance_spec(diags, c).no_duplicates(),
    decreases diags.len(),
{
    if diags.len() > 0 {
        guidance_has_no_duplicates(diags.drop_last(), c);
        let acc = guidance_spec(diags.drop_last(), c);
        match crate::guidance::guidance_line(diags.last(), c) {
            Some(l) => {
                if !acc.contains(l) {
                    assert(push_unique_spec(acc, l) == acc.push(l));
                    assert forall|i: int, j: int|
                        0 <= i < acc.push(l).len() && 0 <= j < acc.push(l).len() && i != j
                            implies acc.push(l)[i] != acc.push(l)[j] by {
                        if i == acc.len() {
                            assert(acc[j] == acc.push(l)[j]);
                        } else if j == acc.len() {
                            assert(acc[i] == acc.push(l)[i]);
                        }
                    }
                }
            },
            None => {},
        }
    }
}

/// A pending warning that, when it carries a replacement, changes the text.
pub open spec fn pending_change(d: DiagnosticView) -> bool {
    &&& d.severity == Severity::Warning
    &&& !d.applied
    &&& (d.after is Some ==> d.before is Some && d.before != d.after)
}

pub open spec fn all_pending_changes(ds: Seq<DiagnosticView>) -> bool {
    forall|i: int| 0 <= i < ds.len() ==> pending_change(#[trigger] ds[i])
}

proof fn lemma_pending_add(a: Seq<DiagnosticView>, b: Seq<DiagnosticView>)
    requires
        all_pending_changes(a),
        all_pending_changes(b),
    ensures
        all_pending_changes(a + b),
{
    assert forall|i: int| 0 <= i < (a + b).len() implies pending_change(#[trigger] (a + b)[i]) by {
        if i < a.len() {
            assert((a + b)[i] == a[i]);
        } else {
            assert((a + b)[i] == b[i - a.len()]);
        }
    }
}

proof fn lemma_chain_pending(
    value: Seq<char>,
    rules: Seq<crate::config::ReplaceView>,
    code: Seq<char>,
    field: crate::diagnostic::Field,
)
    ensures
        all_pending_changes(crate::transform::chain_diags(value, rules, code, field)),
    decreases rules.len(),
{
    if rules.len() > 0 {
        lemma_chain_pending(value, rules.drop_last(), code, field);
        let prev = crate::transform::chain_value(value, rules.drop_last());
        lemma_pending_add(
            crate::transform::chain_diags(value, rules.drop_last(), code, field),
            crate::transform::step_diags(
                code,
                field,
                prev,
                crate::transform::apply_rule(prev, rules.last()),
            ),
        );
    }
}

/// Every rewrite the normalization reports is a pending warning, and each
/// replacement it reports changes the text it names.
pub proof fn transform_reports_pending_changes(p: CommitPartsView, c: Config)
    ensures
        all_pending_changes(transform_diags(p, c)),
{
    let td = type_diags(p.type_, c);
    let sd = scope_diags(p.scope, c);
    let dd = description_diags(p.description, c.description);
    let bd = body_diags(p.body, c.body.keep);
    let fd = footers_diags(p.footers, c.footers);
    if let Some(s) = p.scope {
        let s1 = lowered(s, c.scope.lowercase);
        lemma_chain_pending(s1, rule_views(c.scope.replace@), "scope.replaced"@, Field::Scope);
        lemma_pending_add(
            step_diags("scope.lowercased"@, Field::Scope, s, s1),
            chain_diags(s1, rule_views(c.scope.replace@), "scope.replaced"@, Field::Scope),
        );
    }
    let dc = c.description;
    let d0 = p.description;
    let d1 = lowered(d0, dc.lowercase);
    let d2 = desc_replaced(d0, dc);
    let d4 = desc_dotted(desc_stripped(d2, dc), dc);
    let f = Field::Description;
    lemma_chain_pending(d1, rule_views(dc.replace@), "description.replaced"@, f);
    let a = step_diags("description.lowercased"@, f, d0, d1);
    let b = chain_diags(d1, rule_views(dc.replace@), "description.replaced"@, f);
    lemma_pending_add(a, b);
    let d3 = desc_stripped(d2, dc);
    lemma_pending_add(
        step_diags("description.chars-stripped"@, f, d2, d3),
        step_diags("description.dots-stripped"@, f, d3, d4),
    );
    lemma_pending_add(a + b, strip_diags(d2, dc));
    let d5 = desc_trailing(d4, dc);
    let d6 = desc_collapsed(d5, dc);
    lemma_pending_add(
        step_diags("description.trailing-dot"@, f, d4, d5),
        step_diags("description.whitespace-collapsed"@, f, d5, d6),
    );
    lemma_pending_add(
        step_diags("description.trailing-dot"@, f, d4, d5) + step_diags(
            "description.whitespace-collapsed"@,
            f,
            d5,
            d6,
        ),
        step_diags("description.trimmed"@, f, d6, trim_spec(d6)),
    );
    lemma_pending_add(a + b + strip_diags(d2, dc), spacing_diags(d4, dc));
    if c.footers.keep {
        let kept = p.footers.filter(|x: FooterView| is_denied(x.token, views(c.footers.deny@)));
        let m = kept.map_values(|x: FooterView| denied_diag(x));
        assert forall|i: int| 0 <= i < m.len() implies pending_change(#[trigger] m[i]) by {
            assert(m[i] == denied_diag(kept[i]));
        }
    }
    lemma_pending_add(td, sd);
    lemma_pending_add(td + sd, dd);
    lemma_pending_add(td + sd + dd, bd);
    lemma_pending_add(td + sd + dd + bd, fd);
}

/// Only tripped rules are taught: every guidance line is the instruction of
/// some diagnostic it was given.
pub proof fn guidance_comes_from_the_diagnostics(diags: Seq<DiagnosticView>, c: Config)
    ensures
        forall|k: int|
            0 <= k < guidance_spec(diags, c).len() ==> exists|i: int|
                0 <= i < diags.len() && #[trigger] crate::guidance::guidance_line(diags[i], c)
                    == Some(#[trigger] guidance_spec(diags, c)[k]),
    decreases diags.len(),
{
    if diags.len() > 0 {
        let prev = diags.drop_last();
        guidance_comes_from_the_diagnostics(prev, c);
        let acc = guidance_spec(prev, c);
        let g = guidance_spec(diags, c);
        assert forall|k: int| 0 <= k < g.len() implies exists|i: int|
            0 <= i < diags.len() && #[trigger] crate::guidance::guidance_line(diags[i], c)
                == Some(#[trigger] g[k]) by {
            if k < acc.len() {
                assert(g[k] == acc[k]);
                let i = choose|i: int|
                    0 <= i < prev.len() && #[trigger] crate::guidance::guidance_line(prev[i], c)
                        == Some(#[trigger] acc[k]);
                assert(prev[i] == diags[i]);
            } else {
                let last = diags.len() - 1;
                assert(diags[last] == diags.last());
            }
        }
    }
}

/// In `check` mode every mangled token of the authored description becomes
/// one rewording error, in order, quoting the authored spelling, between the
/// rewrites and the lint; `fix` adds none (its rewrites are marked applied).
pub proof fn rewordings_only_in_check(raw: Seq<char>, c: Config)
    ensures
        match parse_spec(original_spec(raw)) {
            Ok(p) => original_spec(raw).len() > 0 && parse_spec(
                render_spec(crate::transform::transformed(p, c)),
            ) is Ok ==> {
                let tp = crate::transform::transformed(p, c);
                let s = settled_diags(original_spec(raw), render_spec(tp), transform_diags(p, c));
                &&& evaluate_spec(raw, c, Mode::Check).diagnostics == s
                    + crate::guidance::mangled_spec(p.description, c.description).map_values(
                    |q: (Seq<char>, Seq<char>)| rewording_diag(q),
                ) + lint_spec(tp, c)
                &&& evaluate_spec(raw, c, Mode::Fix).diagnostics == s.map_values(
                    |x: DiagnosticView| applied(x),
                ) + lint_spec(tp, c)
            },
            Err(_) => true,
        },
{
    let original = original_spec(raw);
    if let Ok(p) = parse_spec(original) {
        let tp = crate::transform::transformed(p, c);
        let n = render_spec(tp);
        if original.len() > 0 && parse_spec(n) is Ok {
            let tdiags = transform_diags(p, c);
            let s = settled_diags(original, n, tdiags);
            let none: Seq<(Seq<char>, Seq<char>)> = Seq::empty();
            let rw0 = none.map_values(|q: (Seq<char>, Seq<char>)| rewording_diag(q));
            assert(rw0 =~= Seq::<DiagnosticView>::empty());
            assert(s + rw0 =~= s);
            assert(final_diags(original, n, tp, tdiags, none, c, Mode::Fix) == s.map_values(
                |x: DiagnosticView| applied(x),
            ) + lint_spec(tp, c));
        }
    }
}

/// A rewrite of `field` in the pipeline: a pending warning with a before
/// and a different after.
pub open spec fn rewrite_link(d: DiagnosticView, field: Field) -> bool {
    &&& d.severity == Severity::Warning
    &&& !d.applied
    &&& d.field == field
    &&& d.before is Some
    &&& d.after is Some
    &&& d.before != d.after
}

/// `ds` records a run of rewrites from `from` to `to`: each one starts where
/// the previous one ended; none means nothing changed.
pub open spec fn chains(ds: Seq<DiagnosticView>, from: Seq<char>, to: Seq<char>, field: Field) -> bool {
    &&& forall|i: int| 0 <= i < ds.len() ==> rewrite_link(#[trigger] ds[i], field)
    &&& ds.len() == 0 ==> from == to
    &&& ds.len() > 0 ==> ds[0].before == Some(from) && ds.last().after == Some(to)
    &&& forall|k: int| 0 <= k < ds.len() - 1 ==> #[trigger] links_at(ds, k)
}

/// The rewrite at `k + 1` starts where the one at `k` ended.
pub open spec fn links_at(ds: Seq<DiagnosticView>, k: int) -> bool {
    ds[k].after == ds[k + 1].before
}

proof fn lemma_chains_add(
    a: Seq<DiagnosticView>,
    b: Seq<DiagnosticView>,
    x: Seq<char>,
    y: Seq<char>,
    z: Seq<char>,
    field: Field,
)
    requires
        chains(a, x, y, field),
        chains(b, y, z, field),
    ensures
        chains(a + b, x, z, field),
{
    let ab = a + b;
    assert forall|i: int| 0 <= i < ab.len() implies rewrite_link(#[trigger] ab[i], field) by {
        if i < a.len() {
            assert(ab[i] == a[i]);
        } else {
            assert(ab[i] == b[i - a.len()]);
        }
    }
    if a.len() == 0 {
        assert(ab =~= b);
    } else if b.len() == 0 {
        assert(ab =~= a);
    } else {
        assert(ab[0] == a[0]);
        assert(ab.last() == b.last());
        assert forall|k: int| 0 <= k < ab.len() - 1 implies #[trigger] links_at(ab, k) by {
            if k < a.len() - 1 {
                assert(links_at(a, k));
                assert(ab[k] == a[k]);
                assert(ab[k + 1] == a[k + 1]);
            } else if k == a.len() - 1 {
                assert(ab[k] == a.last());
                assert(ab[k + 1] == b[0]);
            } else {
                assert(links_at(b, k - a.len()));
                assert(ab[k] == b[k - a.len()]);
                assert(ab[k + 1] == b[k - a.len() + 1]);
            }
        }
    }
}

proof fn lemma_step_chains(code: Seq<char>, field: Field, value: Seq<char>, next: Seq<char>)
    ensures
        chains(step_diags(code, field, value, next), value, next, field),
{
}

proof fn lemma_chain_diags_chain(value: Seq<char>, rules: Seq<crate::config::ReplaceView>, code: Seq<char>, field: Field)
    ensures
        chains(
            chain_diags(value, rules, code, field),
            value,
            crate::transform::chain_value(value, rules),
            field,
        ),
    decreases rules.len(),
{
    if rules.len() > 0 {
        lemma_chain_diags_chain(value, rules.drop_last(), code, field);
        let prev = crate::transform::chain_value(value, rules.drop_last());
        let next = crate::transform::apply_rule(prev, rules.last());
        lemma_step_chains(code, field, prev, next);
        lemma_chains_add(
            chain_diags(value, rules.drop_last(), code, field),
            step_diags(code, field, prev, next),
            value,
            prev,
            next,
            field,
        );
    }
}

/// The description rewrites chain in pipeline order: the first starts from
/// the authored description, each starts where the previous ended, the last
/// ends at the normalized description, and none means it is unchanged.
pub proof fn description_rewrites_chain(d0: Seq<char>, c: crate::config::DescriptionConfig)
    ensures
        chains(
            description_diags(d0, c),
            d0,
            crate::transform::description_value(d0, c),
            Field::Description,
        ),
{
    let f = Field::Description;
    let d1 = lowered(d0, c.lowercase);
    let d2 = desc_replaced(d0, c);
    let d3 = desc_stripped(d2, c);
    let d4 = desc_dotted(d3, c);
    let d5 = desc_trailing(d4, c);
    let d6 = desc_collapsed(d5, c);
    let d7 = trim_spec(d6);
    let a = step_diags("description.lowercased"@, f, d0, d1);
    let b = chain_diags(d1, rule_views(c.replace@), "description.replaced"@, f);
    let s3 = step_diags("description.chars-stripped"@, f, d2, d3);
    let s4 = step_diags("description.dots-stripped"@, f, d3, d4);
    let s5 = step_diags("description.trailing-dot"@, f, d4, d5);
    let s6 = step_diags("description.whitespace-collapsed"@, f, d5, d6);
    let s7 = step_diags("description.trimmed"@, f, d6, d7);
    lemma_step_chains("description.lowercased"@, f, d0, d1);
    lemma_chain_diags_chain(d1, rule_views(c.replace@), "description.replaced"@, f);
    lemma_step_chains("description.chars-stripped"@, f, d2, d3);
    lemma_step_chains("description.dots-stripped"@, f, d3, d4);
    lemma_step_chains("description.trailing-dot"@, f, d4, d5);
    lemma_step_chains("description.whitespace-collapsed"@, f, d5, d6);
    lemma_step_chains("description.trimmed"@, f, d6, d7);
    lemma_chains_add(a, b, d0, d1, d2, f);
    lemma_chains_add(s3, s4, d2, d3, d4, f);
    lemma_chains_add(a + b, s3 + s4, d0, d2, d4, f);
    lemma_chains_add(s5, s6, d4, d5, d6, f);
    lemma_chains_add(s5 + s6, s7, d4, d6, d7, f);
    lemma_chains_add(a + b + (s3 + s4), s5 + s6 + s7, d0, d4, d7, f);
    assert(strip_diags(d2, c) == s3 + s4);
    assert(spacing_diags(d4, c) == s5 + s6 + s7);
    assert(description_diags(d0, c) =~= a + b + (s3 + s4) + (s5 + s6 + s7));
}

/// Each diagnostic's instruction is among the guidance for a list that
/// holds it.
pub(crate) proof fn lemma_guidance_holds_each_line(diags: Seq<DiagnosticView>, c: Config)
    ensures
        forall|i: int|
            0 <= i < diags.len() ==> match #[trigger] crate::guidance::guidance_line(diags[i], c) {
                Some(l) => guidance_spec(diags, c).contains(l),
                None => true,
            },
    decreases diags.len(),
{
    if diags.len() > 0 {
        let prev = diags.drop_last();
        lemma_guidance_holds_each_line(prev, c);
        let acc = guidance_spec(prev, c);
        let g = guidance_spec(diags, c);
        assert forall|x: Seq<char>| acc.contains(x) implies g.contains(x) by {
            let j = choose|j: int| 0 <= j < acc.len() && acc[j] == x;
            match crate::guidance::guidance_line(diags.last(), c) {
                Some(l) => {
                    if !acc.contains(l) {
                        assert(g[j] == acc.push(l)[j]);
                    }
                },
                None => {},
            }
        }
        assert forall|i: int| 0 <= i < diags.len() implies match #[trigger] crate::guidance::guidance_line(diags[i], c) {
            Some(l) => g.contains(l),
            None => true,
        } by {
            if i < prev.len() {
                assert(diags[i] == prev[i]);
                assert(crate::guidance::guidance_line(prev[i], c) == crate::guidance::guidance_line(diags[i], c));
            } else {
                assert(diags[i] == diags.last());
                match crate::guidance::guidance_line(diags.last(), c) {
                    Some(l) => {
                        if !acc.contains(l) {
                            assert(g[acc.len() as int] == l);
                        }
                    },
                    None => {},
                }
            }
        }
    }
}

/// Diagnostics whose instructions are already in the guidance add nothing
/// to it.
proof fn lemma_guidance_absorbs(ds: Seq<DiagnosticView>, es: Seq<DiagnosticView>, c: Config)
    requires
        forall|i: int|
            0 <= i < es.len() ==> match #[trigger] crate::guidance::guidance_line(es[i], c) {
                Some(l) => guidance_spec(ds, c).contains(l),
                None => true,
            },
    ensures
        guidance_spec(ds + es, c) == guidance_spec(ds, c),
    decreases es.len(),
{
    if es.len() == 0 {
        assert(ds + es =~= ds);
    } else {
        let prev = es.drop_last();
        assert forall|i: int| 0 <= i < prev.len() implies match #[trigger] crate::guidance::guidance_line(prev[i], c) {
            Some(l) => guidance_spec(ds, c).contains(l),
            None => true,
        } by {
            assert(prev[i] == es[i]);
        }
        lemma_guidance_absorbs(ds, prev, c);
        assert((ds + es).drop_last() =~= ds + prev);
        assert((ds + es).last() == es[es.len() - 1]);
    }
}

/// Guidance is the first occurrence of each diagnostic's instruction, so
/// giving the same diagnostics twice teaches nothing more.
pub proof fn guidance_of_a_repeated_list(diags: Seq<DiagnosticView>, c: Config)
    ensures
        guidance_spec(diags + diags, c) == guidance_spec(diags, c),
{
    lemma_guidance_holds_each_line(diags, c);
    lemma_guidance_absorbs(diags, diags, c);
}

pub open spec fn none_applied(ds: Seq<DiagnosticView>) -> bool {
    forall|i: int| 0 <= i < ds.len() ==> !(#[trigger] ds[i]).applied
}

pub open spec fn warnings_applied(ds: Seq<DiagnosticView>) -> bool {
    forall|i: int|
        0 <= i < ds.len() ==> (#[trigger] ds[i]).severity == Severity::Warning ==> ds[i].applied
}

pub open spec fn all_errors(ds: Seq<DiagnosticView>) -> bool {
    forall|i: int| 0 <= i < ds.len() ==> (#[trigger] ds[i]).severity == Severity::Error
}

proof fn lemma_none_applied_add(a: Seq<DiagnosticView>, b: Seq<DiagnosticView>)
    requires
        none_applied(a),
        none_applied(b),
    ensures
        none_applied(a + b),
{
    assert forall|i: int| 0 <= i < (a + b).len() implies !(#[trigger] (a + b)[i]).applied by {
        if i < a.len() {
            assert((a + b)[i] == a[i]);
        } else {
            assert((a + b)[i] == b[i - a.len()]);
        }
    }
}

proof fn lemma_all_errors_add(a: Seq<DiagnosticView>, b: Seq<DiagnosticView>)
    requires
        all_errors(a),
        all_errors(b),
    ensures
        all_errors(a + b),
{
    assert forall|i: int| 0 <= i < (a + b).len() implies (#[trigger] (a + b)[i]).severity
        == Severity::Error by {
        if i < a.len() {
            assert((a + b)[i] == a[i]);
        } else {
            assert((a + b)[i] == b[i - a.len()]);
        }
    }
}

/// The errors of a sequence whose entries are all pending stay pending.
proof fn lemma_errors_only_of(a: Seq<DiagnosticView>)
    ensures
        all_errors(errors_only(a)),
        none_applied(a) ==> none_applied(errors_only(a)),
{
    let e = errors_only(a);
    assert forall|i: int| 0 <= i < e.len() implies (#[trigger] e[i]).severity
        == Severity::Error by {
        a.lemma_filter_pred(|d: DiagnosticView| is_error(d), i);
    }
    if none_applied(a) {
        assert forall|i: int| 0 <= i < e.len() implies !(#[trigger] e[i]).applied by {
            assert(e.contains(e[i]));
            a.lemma_filter_contains_rev(|d: DiagnosticView| is_error(d), e[i]);
            let j = choose|j: int| 0 <= j < a.len() && a[j] == e[i];
            assert(!a[j].applied);
        }
    }
}

proof fn lemma_lint_pending_errors(p: CommitPartsView, c: Config)
    ensures
        all_errors(lint_spec(p, c)),
        none_applied(lint_spec(p, c)),
{
}

proof fn lemma_rewordings_pending_errors(r: Seq<(Seq<char>, Seq<char>)>)
    ensures
        all_errors(r.map_values(|q: (Seq<char>, Seq<char>)| rewording_diag(q))),
        none_applied(r.map_values(|q: (Seq<char>, Seq<char>)| rewording_diag(q))),
{
    let m = r.map_values(|q: (Seq<char>, Seq<char>)| rewording_diag(q));
    assert forall|i: int| 0 <= i < m.len() implies (#[trigger] m[i]).severity == Severity::Error
        && !m[i].applied by {
        assert(m[i] == rewording_diag(r[i]));
    }
}

proof fn lemma_transform_pending(p: CommitPartsView, c: Config)
    ensures
        none_applied(transform_diags(p, c)),
        none_applied(errors_only(transform_diags(p, c))),
        all_errors(errors_only(transform_diags(p, c))),
{
    let tdiags = transform_diags(p, c);
    transform_reports_pending_changes(p, c);
    assert forall|i: int| 0 <= i < tdiags.len() implies !(#[trigger] tdiags[i]).applied by {
        assert(pending_change(tdiags[i]));
    }
    lemma_errors_only_of(tdiags);
}

proof fn lemma_invalid_pending_errors(
    original: Seq<char>,
    tp: CommitPartsView,
    tdiags: Seq<DiagnosticView>,
    n: Seq<char>,
    e: Seq<char>,
    c: Config,
)
    requires
        none_applied(errors_only(tdiags)),
        all_errors(errors_only(tdiags)),
    ensures
        none_applied(crate::invalid_outcome(original, tp, tdiags, n, e, c).diagnostics),
        all_errors(crate::invalid_outcome(original, tp, tdiags, n, e, c).diagnostics),
{
    let head = errors_only(tdiags).push(crate::invalid_result_diag(original, n, e));
    assert forall|i: int| 0 <= i < head.len() implies !(#[trigger] head[i]).applied
        && head[i].severity == Severity::Error by {
        if i < errors_only(tdiags).len() {
            assert(head[i] == errors_only(tdiags)[i]);
        }
    }
    lemma_lint_pending_errors(tp, c);
    lemma_none_applied_add(head, lint_spec(tp, c));
    lemma_all_errors_add(head, lint_spec(tp, c));
}

proof fn lemma_check_settled_pending(
    raw: Seq<char>,
    original: Seq<char>,
    authored: Seq<char>,
    tp: CommitPartsView,
    tdiags: Seq<DiagnosticView>,
    c: Config,
)
    requires
        none_applied(tdiags),
        none_applied(errors_only(tdiags)),
    ensures
        none_applied(
            crate::settled_outcome(raw, original, authored, tp, tdiags, c, Mode::Check).diagnostics,
        ),
{
    let n = render_spec(tp);
    let s = settled_diags(original, n, tdiags);
    assert(none_applied(s)) by {
        if n != original && tdiags.len() == 0 {
            assert(s == seq![crate::reformatted_diag()]);
        }
    }
    let ruined = ruined_spec(authored, c, Mode::Check);
    let rw = ruined.map_values(|q: (Seq<char>, Seq<char>)| rewording_diag(q));
    lemma_rewordings_pending_errors(ruined);
    lemma_lint_pending_errors(tp, c);
    let l = lint_spec(tp, c);
    lemma_none_applied_add(s, rw);
    lemma_none_applied_add(s + rw, l);
    assert(final_diags(original, n, tp, tdiags, ruined, c, Mode::Check) == (s + rw) + l);
}

proof fn lemma_check_pending(raw: Seq<char>, c: Config)
    ensures
        none_applied(evaluate_spec(raw, c, Mode::Check).diagnostics),
{
    let original = original_spec(raw);
    if original.len() > 0 {
        if let Ok(p) = parse_spec(original) {
            let tp = crate::transform::transformed(p, c);
            let tdiags = transform_diags(p, c);
            let n = render_spec(tp);
            lemma_transform_pending(p, c);
            match parse_spec(n) {
                Ok(_) => {
                    lemma_check_settled_pending(raw, original, p.description, tp, tdiags, c);
                },
                Err(e) => {
                    lemma_invalid_pending_errors(original, tp, tdiags, n, e, c);
                },
            }
        }
    }
}

proof fn lemma_fix_settled_applied(
    raw: Seq<char>,
    original: Seq<char>,
    authored: Seq<char>,
    tp: CommitPartsView,
    tdiags: Seq<DiagnosticView>,
    c: Config,
)
    ensures
        warnings_applied(
            crate::settled_outcome(raw, original, authored, tp, tdiags, c, Mode::Fix).diagnostics,
        ),
{
    let n = render_spec(tp);
    let s = settled_diags(original, n, tdiags);
    let l = lint_spec(tp, c);
    lemma_lint_pending_errors(tp, c);
    let none: Seq<(Seq<char>, Seq<char>)> = Seq::empty();
    let rw0 = none.map_values(|q: (Seq<char>, Seq<char>)| rewording_diag(q));
    assert(rw0 =~= Seq::<DiagnosticView>::empty());
    assert(s + rw0 =~= s);
    let m = s.map_values(|x: DiagnosticView| applied(x));
    assert(final_diags(original, n, tp, tdiags, none, c, Mode::Fix) == m + l);
    assert forall|i: int|
        0 <= i < (m + l).len() && (#[trigger] (m + l)[i]).severity
            == Severity::Warning implies (m + l)[i].applied by {
        if i < m.len() {
            assert((m + l)[i] == applied(s[i]));
        } else {
            assert((m + l)[i] == l[i - m.len()]);
        }
    }
}

proof fn lemma_fix_applied(raw: Seq<char>, c: Config)
    ensures
        warnings_applied(evaluate_spec(raw, c, Mode::Fix).diagnostics),
{
    let original = original_spec(raw);
    if original.len() > 0 {
        if let Ok(p) = parse_spec(original) {
            let tp = crate::transform::transformed(p, c);
            let tdiags = transform_diags(p, c);
            let n = render_spec(tp);
            lemma_transform_pending(p, c);
            match parse_spec(n) {
                Ok(_) => {
                    lemma_fix_settled_applied(raw, original, p.description, tp, tdiags, c);
                },
                Err(e) => {
                    lemma_invalid_pending_errors(original, tp, tdiags, n, e, c);
                },
            }
        }
    }
}

/// `check` reports every diagnostic as pending; `fix` reports every rewrite
/// it made as applied. (Its errors stay pending: no rewrite fixes them.)
pub proof fn modes_mark_rewrites_pending_or_applied(raw: Seq<char>, c: Config)
    ensures
        none_applied(evaluate_spec(raw, c, Mode::Check).diagnostics),
        warnings_applied(evaluate_spec(raw, c, Mode::Fix).diagnostics),
{
    lemma_check_pending(raw, c);
    lemma_fix_applied(raw, c);
}

} // verus!
