//! Lint and auto-normalize Conventional Commit messages.
//!
//! `check` simulates normalization and fails without writing; `fix` writes
//! it. Both judge the message by its semantic content (git's comment block
//! and scissors section stripped, trimmed); `fix` additionally canonicalizes
//! that formatting on disk.
use vstd::prelude::*;

pub mod config;
pub mod diagnostic;
pub mod guidance;
pub mod idempotence;
pub mod laws;
pub mod lint;
pub mod promises;
pub mod text;
pub mod transform;

use crate::diagnostic::{
    applied, bare, diag_views, with_message, with_rewrite, Diagnostic, DiagnosticView, Field,
    Severity,
};
use crate::guidance::{guidance, guidance_spec, mangled_description, mangled_spec, pair_views, push_unique, push_unique_spec};
use crate::lint::{lint, lint_spec};
use crate::transform::{parse_result_view, parse_spec, render_spec, transform, transform_diags, transformed, CommitParts, CommitPartsView};
use crate::config::Config;
use crate::text::{str_eq, from_chars, join, join_spec, lines, lines_spec, to_chars, trim, trim_spec, views};

verus! {

/// `check` reports what `fix` would change; `fix` writes it.
#[derive(Debug, Clone, Copy, PartialEq, Eq, Structural)]
pub enum Mode {
    Check,
    Fix,
}

pub open spec fn mode_name(m: Mode) -> Seq<char> {
    match m {
        Mode::Check => "check"@,
        Mode::Fix => "fix"@,
    }
}

impl Mode {
    pub fn as_str(self) -> (r: &'static str)
        ensures
            r@ == mode_name(self),
    {
        match self {
            Mode::Check => "check",
            Mode::Fix => "fix",
        }
    }
}

/// The command that prints the active ruleset.
pub open spec fn rules_command_spec(config_path: Option<Seq<char>>) -> Seq<char> {
    match config_path {
        Some(p) => "whittle --config "@ + p + " rules"@,
        None => "whittle rules"@,
    }
}

/// The command that prints the active ruleset, naming the configuration file
/// (as displayed) when there is one.
pub fn rules_command(config_path: Option<&str>) -> (r: String)
    ensures
        r@ == rules_command_spec(
            match config_path {
                Some(p) => Some(p@),
                None => None,
            },
        ),
{
    match config_path {
        Some(p) => {
            let mut out = String::new();
            out.append("whittle --config ");
            out.append(p);
            out.append(" rules");
            proof {
                assert(out@ =~= "whittle --config "@ + p@ + " rules"@);
            }
            out
        },
        None => crate::text::to_owned("whittle rules"),
    }
}

// ---------------------------------------------------------------------------
// Git comments
// ---------------------------------------------------------------------------

pub open spec fn starts_with_hash(line: Seq<char>) -> bool {
    line.len() > 0 && line[0] == '#'
}

/// Whether `line` holds `>8` somewhere.
pub open spec fn has_scissors_mark(line: Seq<char>) -> bool {
    exists|i: int| 0 <= i && i + 1 < line.len() && #[trigger] line[i] == '>' && line[i + 1] == '8'
}

/// git's scissors line: a comment that holds `>8`.
pub open spec fn scissors_line(line: Seq<char>) -> bool {
    starts_with_hash(line) && has_scissors_mark(line)
}

/// The lines before the first scissors line that are not `#` comments.
pub open spec fn uncommented(ls: Seq<Seq<char>>) -> Seq<Seq<char>>
    decreases ls.len(),
{
    if ls.len() == 0 || scissors_line(ls[0]) {
        Seq::empty()
    } else if starts_with_hash(ls[0]) {
        uncommented(ls.drop_first())
    } else {
        seq![ls[0]] + uncommented(ls.drop_first())
    }
}

/// The message without `#` comment lines and without everything from the
/// scissors line on, its remaining lines joined by newlines.
pub open spec fn strip_comments_spec(raw: Seq<char>) -> Seq<char> {
    join_spec(uncommented(lines_spec(raw)), "\n"@)
}

/// Whether `line` is git's scissors line.
pub fn is_scissors_line(line: &str) -> (r: bool)
    ensures
        r == scissors_line(line@),
{
    let v = to_chars(line);
    if v.len() == 0 || v[0] != '#' {
        return false;
    }
    let mut i: usize = 0;
    while i < v.len() - 1
        invariant
            v@ == line@,
            v@.len() > 0,
            v@[0] == '#',
            i < v@.len(),
            forall|j: int| 0 <= j < i && j + 1 < v@.len() ==> !(#[trigger] v@[j] == '>' && v@[j + 1] == '8'),
        decreases v@.len() - i,
    {
        if v[i] == '>' && v[i + 1] == '8' {
            proof {
                assert(line@[i as int] == '>' && line@[i + 1] == '8');
            }
            return true;
        }
        i += 1;
    }
    false
}

/// Drops `#` comment lines and everything from the scissors line onward —
/// `git commit -v` appends the diff there uncommented, before git itself strips it.
pub fn strip_git_comments(raw: &str) -> (r: String)
    ensures
        r@ == strip_comments_spec(raw@),
{
    let all = lines(raw);
    let ghost ls = views(all@);
    let mut kept: Vec<String> = Vec::new();
    let mut i: usize = 0;
    proof {
        assert(ls.skip(0) =~= ls);
        assert(views(kept@) + uncommented(ls) =~= uncommented(ls));
    }
    while i < all.len()
        invariant
            ls == views(all@),
            i <= ls.len(),
            views(kept@) + uncommented(ls.skip(i as int)) == uncommented(ls),
        ensures
            views(kept@) == uncommented(ls),
        decreases ls.len() - i,
    {
        let ghost rest = ls.skip(i as int);
        proof {
            assert(rest[0] == all@[i as int]@);
            assert(rest.drop_first() =~= ls.skip(i + 1));
        }
        if is_scissors_line(all[i].as_str()) {
            proof {
                assert(uncommented(rest) == Seq::<Seq<char>>::empty());
                assert(views(kept@) =~= views(kept@) + Seq::<Seq<char>>::empty());
            }
            break ;
        }
        let v = to_chars(all[i].as_str());
        if !(v.len() > 0 && v[0] == '#') {
            let ghost before = views(kept@);
            kept.push(all[i].clone());
            proof {
                assert(views(kept@) =~= before.push(rest[0]));
                assert(before + uncommented(rest) =~= views(kept@) + uncommented(rest.drop_first()));
            }
        }
        i += 1;
        proof {
            if i == ls.len() {
                assert(ls.skip(i as int) =~= Seq::<Seq<char>>::empty());
                assert(views(kept@) =~= views(kept@) + Seq::<Seq<char>>::empty());
            }
        }
    }
    join(kept.as_slice(), "\n")
}


// ---------------------------------------------------------------------------
// Outcome of a run
// ---------------------------------------------------------------------------

/// What a run found: the message as judged, what to adopt (if anything),
/// the diagnostics, the instructions they teach, and what `fix` writes.
#[derive(Debug)]
pub struct Outcome {
    pub original: String,
    /// The message to adopt, or `None` if nothing is adoptable.
    pub normalized: Option<String>,
    pub diagnostics: Vec<Diagnostic>,
    pub guidance: Vec<String>,
    pub needs_rewrite: bool,
    /// The new file content, in `fix` mode when it differs from the file.
    pub write: Option<String>,
}

pub struct OutcomeView {
    pub original: Seq<char>,
    pub normalized: Option<Seq<char>>,
    pub diagnostics: Seq<DiagnosticView>,
    pub guidance: Seq<Seq<char>>,
    pub needs_rewrite: bool,
    pub write: Option<Seq<char>>,
}

impl View for Outcome {
    type V = OutcomeView;

    open spec fn view(&self) -> OutcomeView {
        OutcomeView {
            original: self.original@,
            normalized: crate::diagnostic::opt_view(self.normalized),
            diagnostics: diag_views(self.diagnostics@),
            guidance: views(self.guidance@),
            needs_rewrite: self.needs_rewrite,
            write: crate::diagnostic::opt_view(self.write),
        }
    }
}

/// Nothing to report: the message stands as it is.
pub open spec fn clean_spec(original: Seq<char>) -> OutcomeView {
    OutcomeView {
        original,
        normalized: Some(original),
        diagnostics: Seq::empty(),
        guidance: Seq::empty(),
        needs_rewrite: false,
        write: None,
    }
}

pub open spec fn failed_diag(message: Seq<char>) -> DiagnosticView {
    with_message(bare("whittle.failed"@, Severity::Error, Field::Message), message)
}

/// The run could not be carried out.
pub open spec fn failed_spec(message: Seq<char>) -> OutcomeView {
    OutcomeView {
        original: Seq::empty(),
        normalized: None,
        diagnostics: seq![failed_diag(message)],
        guidance: Seq::empty(),
        needs_rewrite: false,
        write: None,
    }
}

pub open spec fn has_error(diags: Seq<DiagnosticView>) -> bool {
    exists|i: int| 0 <= i < diags.len() && (#[trigger] diags[i]).severity == Severity::Error
}

/// `check` fails on a pending rewrite or an error; `fix` only on an error.
pub open spec fn exit_code_spec(o: OutcomeView, mode: Mode) -> i32 {
    let failing = match mode {
        Mode::Check => o.needs_rewrite || has_error(o.diagnostics),
        Mode::Fix => has_error(o.diagnostics),
    };
    if failing {
        1
    } else {
        0
    }
}

fn any_error(diags: &Vec<Diagnostic>) -> (r: bool)
    ensures
        r == has_error(diag_views(diags@)),
{
    let mut i: usize = 0;
    while i < diags.len()
        invariant
            i <= diags@.len(),
            forall|j: int| 0 <= j < i ==> diags@[j].severity != Severity::Error,
        decreases diags@.len() - i,
    {
        if diags[i].severity == Severity::Error {
            proof {
                assert(diag_views(diags@)[i as int].severity == Severity::Error);
            }
            return true;
        }
        i += 1;
    }
    proof {
        assert forall|j: int| 0 <= j < diag_views(diags@).len() implies (#[trigger] diag_views(
            diags@,
        )[j]).severity != Severity::Error by {
            assert(diag_views(diags@)[j] == diags@[j]@);
        }
    }
    false
}

impl Outcome {
    pub fn clean(original: String) -> (r: Self)
        ensures
            r@ == clean_spec(original@),
    {
        let normalized = Some(original.clone());
        let r = Outcome {
            original,
            normalized,
            diagnostics: Vec::new(),
            guidance: Vec::new(),
            needs_rewrite: false,
            write: None,
        };
        proof {
            assert(diag_views(r.diagnostics@) =~= Seq::<DiagnosticView>::empty());
            assert(views(r.guidance@) =~= Seq::<Seq<char>>::empty());
        }
        r
    }

    pub fn failed(message: &str) -> (r: Self)
        ensures
            r@ == failed_spec(message@),
    {
        let mut diagnostics: Vec<Diagnostic> = Vec::new();
        diagnostics.push(Diagnostic::error("whittle.failed", Field::Message).message_override(message));
        let r = Outcome {
            original: String::new(),
            normalized: None,
            diagnostics,
            guidance: Vec::new(),
            needs_rewrite: false,
            write: None,
        };
        proof {
            assert(diag_views(r.diagnostics@) =~= seq![failed_diag(message@)]);
            assert(views(r.guidance@) =~= Seq::<Seq<char>>::empty());
        }
        r
    }

    pub fn has_errors(&self) -> (r: bool)
        ensures
            r == has_error(self@.diagnostics),
    {
        any_error(&self.diagnostics)
    }

    /// 0 on success, 1 on a failing run.
    pub fn exit_code(&self, mode: Mode) -> (r: i32)
        ensures
            r == exit_code_spec(self@, mode),
    {
        let failing = match mode {
            Mode::Check => self.needs_rewrite || self.has_errors(),
            Mode::Fix => self.has_errors(),
        };
        if failing {
            1
        } else {
            0
        }
    }
}


// ---------------------------------------------------------------------------
// Judging a message
// ---------------------------------------------------------------------------

pub open spec fn not_conventional_diag(original: Seq<char>, error: Seq<char>) -> DiagnosticView {
    with_message(
        crate::diagnostic::with_removal(
            bare("commit.not-conventional"@, Severity::Error, Field::Message),
            original,
        ),
        error,
    )
}

pub open spec fn invalid_result_diag(original: Seq<char>, normalized: Seq<char>, error: Seq<char>) -> DiagnosticView {
    with_message(
        with_rewrite(
            bare("normalize.invalid-result"@, Severity::Error, Field::Message),
            original,
            normalized,
        ),
        "normalizing would produce a message that does not parse ("@ + error
            + "); file left untouched"@,
    )
}

pub open spec fn reformatted_diag() -> DiagnosticView {
    with_message(
        bare("message.reformatted"@, Severity::Warning, Field::Message),
        "the message needs reformatting (blank lines, footer spacing, or a `BREAKING CHANGE:` footer turning into `!`) — see the suggested message below"@,
    )
}

pub open spec fn rewording_diag(pair: (Seq<char>, Seq<char>)) -> DiagnosticView {
    with_message(
        with_rewrite(
            bare("subject.needs-rewording"@, Severity::Error, Field::Description),
            pair.0,
            pair.1,
        ),
        "`"@ + pair.0 + "` would become `"@ + pair.1 + "` — reword it instead"@,
    )
}

pub open spec fn is_error(d: DiagnosticView) -> bool {
    d.severity == Severity::Error
}

pub open spec fn errors_only(ds: Seq<DiagnosticView>) -> Seq<DiagnosticView> {
    ds.filter(|d: DiagnosticView| is_error(d))
}

/// Each of `lines` appended to `acc` unless already present.
pub open spec fn merge_unique(acc: Seq<Seq<char>>, lines: Seq<Seq<char>>) -> Seq<Seq<char>>
    decreases lines.len(),
{
    if lines.len() == 0 {
        acc
    } else {
        push_unique_spec(merge_unique(acc, lines.drop_last()), lines.last())
    }
}

/// The message does not parse: rejected, with nothing to adopt.
pub open spec fn unparsed_outcome(original: Seq<char>, error: Seq<char>, c: Config) -> OutcomeView {
    let d = seq![not_conventional_diag(original, error)];
    OutcomeView {
        original,
        normalized: None,
        diagnostics: d,
        guidance: guidance_spec(d, c),
        needs_rewrite: false,
        write: None,
    }
}

/// Normalizing would give a message that does not parse: the file is left
/// untouched and the rule violations are still reported.
pub open spec fn invalid_outcome(
    original: Seq<char>,
    tp: CommitPartsView,
    tdiags: Seq<DiagnosticView>,
    normalized: Seq<char>,
    error: Seq<char>,
    c: Config,
) -> OutcomeView {
    let d = errors_only(tdiags).push(invalid_result_diag(original, normalized, error)) + lint_spec(
        tp,
        c,
    );
    OutcomeView {
        original,
        normalized: None,
        diagnostics: d,
        guidance: merge_unique(guidance_spec(tdiags, c), guidance_spec(d, c)),
        needs_rewrite: false,
        write: None,
    }
}

/// The rewrites to report: when the message changes with no step to say
/// why, a reformatting notice; when it does not change, only errors.
pub open spec fn settled_diags(original: Seq<char>, normalized: Seq<char>, tdiags: Seq<DiagnosticView>) -> Seq<DiagnosticView> {
    let needs = normalized != original;
    if needs && tdiags.len() == 0 {
        seq![reformatted_diag()]
    } else if !needs {
        errors_only(tdiags)
    } else {
        tdiags
    }
}

/// `check` names every token that the deletions would fuse.
pub open spec fn ruined_spec(authored: Seq<char>, c: Config, mode: Mode) -> Seq<(Seq<char>, Seq<char>)> {
    if mode == Mode::Check {
        mangled_spec(authored, c.description)
    } else {
        Seq::empty()
    }
}

/// `fix` writes the normalized message and a newline, when that differs
/// from the file.
pub open spec fn write_spec(raw: Seq<char>, normalized: Seq<char>, mode: Mode) -> Option<Seq<char>> {
    if mode == Mode::Fix && normalized + "\n"@ != raw {
        Some(normalized + "\n"@)
    } else {
        None
    }
}

pub open spec fn final_diags(
    original: Seq<char>,
    normalized: Seq<char>,
    tp: CommitPartsView,
    tdiags: Seq<DiagnosticView>,
    ruined: Seq<(Seq<char>, Seq<char>)>,
    c: Config,
    mode: Mode,
) -> Seq<DiagnosticView> {
    let d = settled_diags(original, normalized, tdiags) + ruined.map_values(
        |p: (Seq<char>, Seq<char>)| rewording_diag(p),
    );
    let d = if mode == Mode::Fix {
        d.map_values(|x: DiagnosticView| applied(x))
    } else {
        d
    };
    d + lint_spec(tp, c)
}

/// The normalized message parses: it is adoptable exactly when nothing
/// needs rewording and no error remains.
pub open spec fn settled_outcome(
    raw: Seq<char>,
    original: Seq<char>,
    authored: Seq<char>,
    tp: CommitPartsView,
    tdiags: Seq<DiagnosticView>,
    c: Config,
    mode: Mode,
) -> OutcomeView {
    let normalized = render_spec(tp);
    let ruined = ruined_spec(authored, c, mode);
    let d = final_diags(original, normalized, tp, tdiags, ruined, c, mode);
    OutcomeView {
        original,
        normalized: if ruined.len() == 0 && !has_error(d) {
            Some(normalized)
        } else {
            None
        },
        diagnostics: d,
        guidance: guidance_spec(d, c),
        needs_rewrite: normalized != original,
        write: write_spec(raw, normalized, mode),
    }
}

/// The message as judged: comments and the scissors section gone, trimmed.
pub open spec fn original_spec(raw: Seq<char>) -> Seq<char> {
    trim_spec(strip_comments_spec(raw))
}

/// What a run makes of the file content `raw`.
pub open spec fn evaluate_spec(raw: Seq<char>, c: Config, mode: Mode) -> OutcomeView {
    let original = original_spec(raw);
    if original.len() == 0 {
        clean_spec(original)
    } else {
        match parse_spec(original) {
            Err(e) => if !c.rules.require_conventional {
                clean_spec(original)
            } else {
                unparsed_outcome(original, e, c)
            },
            Ok(p) => {
                let tp = transformed(p, c);
                let tdiags = transform_diags(p, c);
                let normalized = render_spec(tp);
                match parse_spec(normalized) {
                    Err(e) => invalid_outcome(original, tp, tdiags, normalized, e, c),
                    Ok(_) => settled_outcome(raw, original, p.description, tp, tdiags, c, mode),
                }
            },
        }
    }
}

/// What parsing the normalized form of the parts `p` gives, without the parts.
pub open spec fn reparse_spec(p: CommitPartsView, c: Config) -> Result<(), Seq<char>> {
    match parse_spec(render_spec(transformed(p, c))) {
        Ok(_) => Ok(()),
        Err(e) => Err(e),
    }
}

pub open spec fn unit_view(r: Result<(), String>) -> Result<(), Seq<char>> {
    match r {
        Ok(_) => Ok(()),
        Err(e) => Err(e@),
    }
}

/// What a run makes of the file content `raw`, given what parsing the judged
/// message gave (`parsed`) and what parsing its normalization gave
/// (`reparsed`, consulted only when `parsed` is `Ok`).
pub open spec fn judge_spec(
    raw: Seq<char>,
    parsed: Result<CommitPartsView, Seq<char>>,
    reparsed: Result<(), Seq<char>>,
    c: Config,
    mode: Mode,
) -> OutcomeView {
    let original = original_spec(raw);
    if original.len() == 0 {
        clean_spec(original)
    } else {
        match parsed {
            Err(e) => if !c.rules.require_conventional {
                clean_spec(original)
            } else {
                unparsed_outcome(original, e, c)
            },
            Ok(p) => {
                let tp = transformed(p, c);
                let tdiags = transform_diags(p, c);
                let normalized = render_spec(tp);
                match reparsed {
                    Err(e) => invalid_outcome(original, tp, tdiags, normalized, e, c),
                    Ok(_) => settled_outcome(raw, original, p.description, tp, tdiags, c, mode),
                }
            },
        }
    }
}

fn keep_errors(diags: Vec<Diagnostic>) -> (r: Vec<Diagnostic>)
    ensures
        diag_views(r@) == errors_only(diag_views(diags@)),
{
    let mut out: Vec<Diagnostic> = Vec::new();
    let ghost dv = diag_views(diags@);
    let ghost pred = |d: DiagnosticView| is_error(d);
    let mut rest = diags;
    let mut i: usize = 0;
    proof {
        reveal(Seq::filter);
        assert(dv.take(0) =~= Seq::<DiagnosticView>::empty());
        assert(diag_views(out@) =~= Seq::<DiagnosticView>::empty());
    }
    let n = rest.len();
    while i < n
        invariant
            n == dv.len(),
            rest@.len() == n,
            forall|j: int| i <= j < n ==> (#[trigger] rest@[j])@ == dv[j],
            rest@.len() == n,
            pred == (|d: DiagnosticView| is_error(d)),
            i <= n,
            diag_views(out@) == dv.take(i as int).filter(pred),
        decreases n - i,
    {
        proof {
            reveal(Seq::filter);
            assert(dv.take(i + 1).drop_last() =~= dv.take(i as int));
        }
        let mut d = Diagnostic::error("", Field::Message);
        std::mem::swap(&mut d, &mut rest[i]);
        let ghost dview = d@;
        if d.severity == Severity::Error {
            let ghost before = diag_views(out@);
            out.push(d);
            proof {
                assert(diag_views(out@) =~= before.push(dview));
            }
        }
        i += 1;
    }
    proof {
        assert(dv.take(n as int) =~= dv);
    }
    out
}


fn push_diag(diags: &mut Vec<Diagnostic>, d: Diagnostic)
    ensures
        diag_views(final(diags)@) == diag_views(old(diags)@).push(d@),
{
    let ghost before = diag_views(diags@);
    diags.push(d);
    proof {
        assert(diag_views(diags@) =~= before.push(d@));
    }
}

fn append_diags(diags: &mut Vec<Diagnostic>, more: Vec<Diagnostic>)
    ensures
        diag_views(final(diags)@) == diag_views(old(diags)@) + diag_views(more@),
{
    let mut more = more;
    let ghost before = diag_views(diags@);
    let ghost extra = diag_views(more@);
    diags.append(&mut more);
    proof {
        assert(diag_views(diags@) =~= before + extra);
    }
}

fn merge_guidance(acc: &mut Vec<String>, lines: Vec<String>)
    ensures
        views(final(acc)@) == merge_unique(views(old(acc)@), views(lines@)),
{
    let ghost start = views(acc@);
    let mut i: usize = 0;
    proof {
        assert(views(lines@).take(0) =~= Seq::<Seq<char>>::empty());
    }
    while i < lines.len()
        invariant
            i <= lines@.len(),
            views(acc@) == merge_unique(start, views(lines@).take(i as int)),
        decreases lines@.len() - i,
    {
        proof {
            assert(views(lines@).take(i + 1).drop_last() =~= views(lines@).take(i as int));
            assert(views(lines@).take(i + 1).last() == lines@[i as int]@);
        }
        push_unique(acc, lines[i].clone());
        i += 1;
    }
    proof {
        assert(views(lines@).take(lines@.len() as int) =~= views(lines@));
    }
}

fn unparsed(original: String, error: &str, config: &Config) -> (o: Outcome)
    ensures
        o@ == unparsed_outcome(original@, error@, *config),
{
    let diag = Diagnostic::error("commit.not-conventional", Field::Message).removing(
        original.as_str(),
    ).message_override(error);
    let mut diagnostics: Vec<Diagnostic> = Vec::new();
    push_diag(&mut diagnostics, diag);
    proof {
        assert(diag_views(diagnostics@) =~= seq![not_conventional_diag(original@, error@)]);
    }
    let g = guidance(diagnostics.as_slice(), config);
    Outcome { original, normalized: None, diagnostics, guidance: g, needs_rewrite: false, write: None }
}

fn invalid(
    original: String,
    parts: &CommitParts,
    diagnostics: Vec<Diagnostic>,
    normalized: &str,
    error: &str,
    config: &Config,
) -> (o: Outcome)
    ensures
        o@ == invalid_outcome(
            original@,
            parts@,
            diag_views(diagnostics@),
            normalized@,
            error@,
            *config,
        ),
{
    let mut g = guidance(diagnostics.as_slice(), config);
    let mut kept = keep_errors(diagnostics);
    let mut message = String::new();
    message.append("normalizing would produce a message that does not parse (");
    message.append(error);
    message.append("); file left untouched");
    proof {
        assert(message@ =~= "normalizing would produce a message that does not parse ("@ + error@
            + "); file left untouched"@);
    }
    let d = Diagnostic::error("normalize.invalid-result", Field::Message).rewrite(
        original.as_str(),
        normalized,
    ).message_override(message.as_str());
    push_diag(&mut kept, d);
    append_diags(&mut kept, lint(parts, config));
    let more = guidance(kept.as_slice(), config);
    merge_guidance(&mut g, more);
    Outcome {
        original,
        normalized: None,
        diagnostics: kept,
        guidance: g,
        needs_rewrite: false,
        write: None,
    }
}

fn rewording(before: &str, after: &str) -> (d: Diagnostic)
    ensures
        d@ == rewording_diag((before@, after@)),
{
    let mut message = String::new();
    message.append("`");
    message.append(before);
    message.append("` would become `");
    message.append(after);
    message.append("` — reword it instead");
    proof {
        assert(message@ =~= "`"@ + before@ + "` would become `"@ + after@ + "` — reword it instead"@);
    }
    Diagnostic::error("subject.needs-rewording", Field::Description).rewrite(before, after).message_override(
        message.as_str(),
    )
}

fn push_rewordings(diags: &mut Vec<Diagnostic>, ruined: &Vec<(String, String)>)
    ensures
        diag_views(final(diags)@) == diag_views(old(diags)@) + pair_views(ruined@).map_values(
            |p: (Seq<char>, Seq<char>)| rewording_diag(p),
        ),
{
    let ghost start = diag_views(diags@);
    let ghost pv = pair_views(ruined@);
    let mut i: usize = 0;
    proof {
        assert(start + pv.take(0).map_values(|p: (Seq<char>, Seq<char>)| rewording_diag(p))
            =~= start);
    }
    while i < ruined.len()
        invariant
            pv == pair_views(ruined@),
            i <= ruined@.len(),
            diag_views(diags@) == start + pv.take(i as int).map_values(
                |p: (Seq<char>, Seq<char>)| rewording_diag(p),
            ),
        decreases ruined@.len() - i,
    {
        let d = rewording(ruined[i].0.as_str(), ruined[i].1.as_str());
        push_diag(diags, d);
        i += 1;
        proof {
            assert(pv.take(i as int).map_values(|p: (Seq<char>, Seq<char>)| rewording_diag(p))
                =~= pv.take(i - 1).map_values(|p: (Seq<char>, Seq<char>)| rewording_diag(p)).push(
                rewording_diag(pv[i - 1]),
            ));
        }
    }
    proof {
        assert(pv.take(ruined@.len() as int) =~= pv);
    }
}

fn reformatted() -> (d: Diagnostic)
    ensures
        d@ == reformatted_diag(),
{
    Diagnostic::transform("message.reformatted", Field::Message).message_override(
        "the message needs reformatting (blank lines, footer spacing, or a `BREAKING CHANGE:` footer turning into `!`) — see the suggested message below",
    )
}

#[verifier::rlimit(30)]
fn settled(
    raw: &str,
    original: String,
    authored: &str,
    parts: &CommitParts,
    diagnostics: Vec<Diagnostic>,
    normalized: String,
    config: &Config,
    mode: Mode,
) -> (o: Outcome)
    requires
        normalized@ == render_spec(parts@),
    ensures
        o@ == settled_outcome(
            raw@,
            original@,
            authored@,
            parts@,
            diag_views(diagnostics@),
            *config,
            mode,
        ),
{
    let needs_rewrite = !str_eq(normalized.as_str(), original.as_str());
    let mut diags = if needs_rewrite && diagnostics.len() == 0 {
        let mut v: Vec<Diagnostic> = Vec::new();
        push_diag(&mut v, reformatted());
        proof {
            assert(diag_views(v@) =~= seq![reformatted_diag()]);
        }
        v
    } else if !needs_rewrite {
        keep_errors(diagnostics)
    } else {
        diagnostics
    };
    let ruined = if mode == Mode::Check {
        mangled_description(authored, &config.description)
    } else {
        let v: Vec<(String, String)> = Vec::new();
        proof {
            assert(pair_views(v@) =~= Seq::<(Seq<char>, Seq<char>)>::empty());
        }
        v
    };
    push_rewordings(&mut diags, &ruined);
    let mut write: Option<String> = None;
    if mode == Mode::Fix {
        let mut content = normalized.clone();
        content.append("\n");
        if !str_eq(content.as_str(), raw) {
            write = Some(content);
        }
        Diagnostic::mark_applied(&mut diags);
    }
    append_diags(&mut diags, lint(parts, config));
    let g = guidance(diags.as_slice(), config);
    let adoptable = ruined.len() == 0 && !any_error(&diags);
    Outcome {
        original,
        normalized: if adoptable {
            Some(normalized)
        } else {
            None
        },
        diagnostics: diags,
        guidance: g,
        needs_rewrite,
        write,
    }
}

/// Judges the file content `raw` under `config`: in `check` mode what `fix`
/// would change, in `fix` mode what it writes.
pub fn evaluate(raw: &str, config: &Config, mode: Mode) -> (o: Outcome)
    ensures
        o@ == evaluate_spec(raw@, *config, mode),
{
    let stripped = strip_git_comments(raw);
    let original = trim(stripped.as_str());
    if original.as_str().is_empty() {
        return Outcome::clean(original);
    }
    let mut parts = match CommitParts::parse(original.as_str()) {
        Ok(p) => p,
        Err(e) => {
            if !config.rules.require_conventional {
                return Outcome::clean(original);
            }
            return unparsed(original, e.as_str(), config);
        },
    };
    let authored = parts.description.clone();
    let diagnostics = transform(&mut parts, config);
    let normalized = parts.render();
    match CommitParts::parse(normalized.as_str()) {
        Err(e) => invalid(original, &parts, diagnostics, normalized.as_str(), e.as_str(), config),
        Ok(_) => settled(raw, original, authored.as_str(), &parts, diagnostics, normalized, config, mode),
    }
}


/// Judges the file content `raw` under `config` from the parse results:
/// `parsed` is what parsing the judged message (comments and scissors
/// section gone, trimmed) gave, `reparsed` what parsing its normalization
/// gave. `evaluate` is this function applied to the parser's own results.
pub fn judge(
    raw: &str,
    parsed: Result<CommitParts, String>,
    reparsed: Result<(), String>,
    config: &Config,
    mode: Mode,
) -> (o: Outcome)
    ensures
        o@ == judge_spec(raw@, parse_result_view(parsed), unit_view(reparsed), *config, mode),
{
    let stripped = strip_git_comments(raw);
    let original = trim(stripped.as_str());
    if original.as_str().is_empty() {
        return Outcome::clean(original);
    }
    let mut parts = match parsed {
        Ok(p) => p,
        Err(e) => {
            if !config.rules.require_conventional {
                return Outcome::clean(original);
            }
            return unparsed(original, e.as_str(), config);
        },
    };
    let authored = parts.description.clone();
    let diagnostics = transform(&mut parts, config);
    let normalized = parts.render();
    match reparsed {
        Err(e) => invalid(original, &parts, diagnostics, normalized.as_str(), e.as_str(), config),
        Ok(_) => settled(raw, original, authored.as_str(), &parts, diagnostics, normalized, config, mode),
    }
}


// ---------------------------------------------------------------------------
// Human-readable report
// ---------------------------------------------------------------------------

pub open spec fn diag_line(d: DiagnosticView) -> Seq<char> {
    "whittle["@ + d.code + "]: "@ + crate::diagnostic::message_spec(d)
}

pub open spec fn prefixed(prefix: Seq<char>, lines: Seq<Seq<char>>) -> Seq<Seq<char>> {
    lines.map_values(|l: Seq<char>| prefix + l)
}

/// The guidance block: a header, one bullet per instruction, and where the
/// full ruleset is; nothing when there is no guidance.
pub open spec fn guidance_block(g: Seq<Seq<char>>, rules_command: Seq<char>) -> Seq<Seq<char>> {
    if g.len() > 0 {
        seq![""@, "how to write a message whittle accepts:"@] + prefixed("  - "@, g) + seq![
            ""@,
            "full ruleset: "@ + rules_command,
        ]
    } else {
        Seq::empty()
    }
}

/// The suggestion block, only in `check` mode for a pending rewrite with no
/// error left.
pub open spec fn suggestion_block(o: OutcomeView, mode: Mode) -> Seq<Seq<char>> {
    match o.normalized {
        Some(n) => if mode == Mode::Check && o.needs_rewrite && !has_error(o.diagnostics) {
            seq![""@, "suggested message:"@] + prefixed("  "@, lines_spec(n))
        } else {
            Seq::empty()
        },
        None => Seq::empty(),
    }
}

/// The lines a human run writes to stderr: one per diagnostic, then the
/// guidance, then the suggested message.
pub open spec fn human_report_spec(o: OutcomeView, mode: Mode, rules_command: Seq<char>) -> Seq<Seq<char>> {
    o.diagnostics.map_values(|d: DiagnosticView| diag_line(d)) + guidance_block(
        o.guidance,
        rules_command,
    ) + suggestion_block(o, mode)
}

fn push_str_line(out: &mut Vec<String>, l: &str)
    ensures
        views(final(out)@) == views(old(out)@).push(l@),
{
    let ghost before = views(out@);
    out.push(crate::text::to_owned(l));
    proof {
        assert(views(out@) =~= before.push(l@));
    }
}

fn push_prefixed(out: &mut Vec<String>, prefix: &str, lines: &Vec<String>)
    ensures
        views(final(out)@) == views(old(out)@) + prefixed(prefix@, views(lines@)),
{
    let ghost start = views(out@);
    let mut i: usize = 0;
    proof {
        assert(start + prefixed(prefix@, views(lines@).take(0)) =~= start);
    }
    while i < lines.len()
        invariant
            i <= lines@.len(),
            views(out@) == start + prefixed(prefix@, views(lines@).take(i as int)),
        decreases lines@.len() - i,
    {
        let mut l = crate::text::to_owned(prefix);
        l.append(lines[i].as_str());
        let ghost before = views(out@);
        out.push(l);
        i += 1;
        proof {
            assert(views(out@) =~= before.push(l@));
            assert(prefixed(prefix@, views(lines@).take(i as int)) =~= prefixed(
                prefix@,
                views(lines@).take(i - 1),
            ).push(prefix@ + lines@[i - 1]@));
        }
    }
    proof {
        assert(views(lines@).take(lines@.len() as int) =~= views(lines@));
    }
}

/// The lines a human run writes to stderr.
pub fn human_report(outcome: &Outcome, mode: Mode, rules_command: &str) -> (r: Vec<String>)
    ensures
        views(r@) == human_report_spec(outcome@, mode, rules_command@),
{
    let mut out: Vec<String> = Vec::new();
    let ghost dv = diag_views(outcome.diagnostics@);
    let mut i: usize = 0;
    proof {
        assert(views(out@) =~= dv.take(0).map_values(|d: DiagnosticView| diag_line(d)));
    }
    while i < outcome.diagnostics.len()
        invariant
            dv == diag_views(outcome.diagnostics@),
            i <= dv.len(),
            views(out@) == dv.take(i as int).map_values(|d: DiagnosticView| diag_line(d)),
        decreases dv.len() - i,
    {
        let d = &outcome.diagnostics[i];
        let mut l = crate::text::to_owned("whittle[");
        l.append(d.code);
        l.append("]: ");
        let m = d.message();
        l.append(m.as_str());
        let ghost before = views(out@);
        out.push(l);
        i += 1;
        proof {
            assert(views(out@) =~= before.push(l@));
            assert(dv.take(i as int).map_values(|d: DiagnosticView| diag_line(d)) =~= dv.take(
                i - 1,
            ).map_values(|d: DiagnosticView| diag_line(d)).push(diag_line(dv[i - 1])));
        }
    }
    proof {
        assert(dv.take(dv.len() as int) =~= dv);
    }
    let ghost after_diags = views(out@);
    if outcome.guidance.len() > 0 {
        push_str_line(&mut out, "");
        push_str_line(&mut out, "how to write a message whittle accepts:");
        push_prefixed(&mut out, "  - ", &outcome.guidance);
        push_str_line(&mut out, "");
        let mut l = crate::text::to_owned("full ruleset: ");
        l.append(rules_command);
        let ghost before = views(out@);
        out.push(l);
        proof {
            assert(views(out@) =~= before.push(l@));
        }
    }
    proof {
        assert(views(out@) =~= after_diags + guidance_block(views(outcome.guidance@), rules_command@));
    }
    let ghost after_guidance = views(out@);
    if let Some(n) = &outcome.normalized {
        if mode == Mode::Check && outcome.needs_rewrite && !outcome.has_errors() {
            push_str_line(&mut out, "");
            push_str_line(&mut out, "suggested message:");
            let ls = lines(n.as_str());
            push_prefixed(&mut out, "  ", &ls);
        }
    }
    proof {
        assert(views(out@) =~= after_guidance + suggestion_block(outcome@, mode));
    }
    out
}

/// The lines `whittle rules` prints: a header and one bullet per rule.
pub open spec fn rules_listing_spec(rules: Seq<Seq<char>>) -> Seq<Seq<char>> {
    seq!["whittle commit message rules:"@] + prefixed("  - "@, rules)
}

pub fn rules_listing(rules: &Vec<String>) -> (r: Vec<String>)
    ensures
        views(r@) == rules_listing_spec(views(rules@)),
{
    let mut out: Vec<String> = Vec::new();
    push_str_line(&mut out, "whittle commit message rules:");
    push_prefixed(&mut out, "  - ", rules);
    out
}

} // verus!
