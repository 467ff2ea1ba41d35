//! Transform engine: applies normalization rules to a parsed Conventional Commit.
use vstd::prelude::*;

use crate::config::{rule_views, Config, DescriptionConfig, FootersConfig, InternalDots, Replace, ReplaceView, TrailingDot};
use crate::diagnostic::{
    bare, diag_views, with_detail, with_removal, with_rewrite, Diagnostic, DiagnosticView, Field,
    Severity,
};
use crate::text::{
    any_eq_ignore_ascii_case, contains_ignore_ascii_case,
    char_to_string, decimal_spec, eq_ignore_ascii_case, eq_ignore_ascii_case_spec, from_chars,
    is_ascii_digit, is_digit, is_whitespace, is_ws, join, join_spec, lines, lines_spec, lowercase,
    replace_literal, replace_spec, str_eq, to_chars, to_lowercase, trim, trim_end, trim_end_char,
    trim_end_char_spec, trim_end_spec, trim_spec, usize_to_string, views,
};

verus! {

#[derive(Debug, Clone)]
pub struct CommitParts {
    pub type_: String,
    pub scope: Option<String>,
    pub breaking: bool,
    pub description: String,
    pub body: Option<String>,
    pub footers: Vec<Footer>,
}

#[derive(Debug)]
pub struct Footer {
    pub token: String,
    pub separator: String,
    pub value: String,
}

pub struct FooterView {
    pub token: Seq<char>,
    pub separator: Seq<char>,
    pub value: Seq<char>,
}

impl View for Footer {
    type V = FooterView;

    open spec fn view(&self) -> FooterView {
        FooterView { token: self.token@, separator: self.separator@, value: self.value@ }
    }
}

pub struct CommitPartsView {
    pub type_: Seq<char>,
    pub scope: Option<Seq<char>>,
    pub breaking: bool,
    pub description: Seq<char>,
    pub body: Option<Seq<char>>,
    pub footers: Seq<FooterView>,
}

pub open spec fn opt_seq(o: Option<String>) -> Option<Seq<char>> {
    match o {
        Some(s) => Some(s@),
        None => None,
    }
}

pub open spec fn footer_views(fs: Seq<Footer>) -> Seq<FooterView> {
    fs.map_values(|f: Footer| f@)
}

impl View for CommitParts {
    type V = CommitPartsView;

    open spec fn view(&self) -> CommitPartsView {
        CommitPartsView {
            type_: self.type_@,
            scope: opt_seq(self.scope),
            breaking: self.breaking,
            description: self.description@,
            body: opt_seq(self.body),
            footers: footer_views(self.footers@),
        }
    }
}

// ---------------------------------------------------------------------------
// Rendering
// ---------------------------------------------------------------------------

/// A footer as a git trailer line: `token: value`, or `token #value` for the
/// reference separator.
pub open spec fn footer_line(f: FooterView) -> Seq<char> {
    if trim_spec(f.separator) == "#"@ {
        f.token + " #"@ + f.value
    } else {
        f.token + trim_spec(f.separator) + " "@ + f.value
    }
}

/// The footers as trailer lines joined by newlines.
pub open spec fn footers_text(fs: Seq<FooterView>) -> Seq<char> {
    join_spec(fs.map_values(|f: FooterView| footer_line(f)), "\n"@)
}

/// `type(scope)!: description`, with the scope and `!` only when present.
pub open spec fn subject_spec(p: CommitPartsView) -> Seq<char> {
    let scope = match p.scope {
        Some(s) => "("@ + s + ")"@,
        None => Seq::<char>::empty(),
    };
    let bang = if p.breaking {
        "!"@
    } else {
        Seq::<char>::empty()
    };
    p.type_ + scope + bang + ": "@ + p.description
}

/// The subject, then the body and the footer block, each after a blank line.
pub open spec fn render_spec(p: CommitPartsView) -> Seq<char> {
    let body = match p.body {
        Some(b) => "\n\n"@ + b,
        None => Seq::<char>::empty(),
    };
    let footers = if p.footers.len() > 0 {
        "\n\n"@ + footers_text(p.footers)
    } else {
        Seq::<char>::empty()
    };
    subject_spec(p) + body + footers
}

impl Footer {
    /// `git_conventional` gives a bare separator and a trimmed value; the
    /// whitespace is reinstated so the line stays a git trailer. Its ref
    /// separator is `" #"` (leading space), so it is compared trimmed.
    pub fn render(&self) -> (r: String)
        ensures
            r@ == footer_line(self@),
    {
        let sep = trim(self.separator.as_str());
        let mut out = self.token.clone();
        if str_eq(sep.as_str(), "#") {
            out.append(" #");
            out.append(self.value.as_str());
            proof {
                assert(out@ =~= self.token@ + " #"@ + self.value@);
            }
        } else {
            out.append(sep.as_str());
            out.append(" ");
            out.append(self.value.as_str());
            proof {
                assert(out@ =~= self.token@ + sep@ + " "@ + self.value@);
            }
        }
        out
    }
}

/// The footers as trailer lines joined by newlines.
pub fn render_footers(footers: &[Footer]) -> (r: String)
    ensures
        r@ == footers_text(footer_views(footers@)),
{
    let mut lines: Vec<String> = Vec::new();
    let mut i: usize = 0;
    while i < footers.len()
        invariant
            i <= footers@.len(),
            views(lines@) == footer_views(footers@.take(i as int)).map_values(
                |f: FooterView| footer_line(f),
            ),
        decreases footers@.len() - i,
    {
        let line = footers[i].render();
        let ghost old_lines = lines@;
        lines.push(line);
        i += 1;
        proof {
            assert(views(lines@) =~= views(old_lines).push(line@));
            assert(footer_views(footers@.take(i as int)) =~= footer_views(
                footers@.take(i - 1),
            ).push(footers@[i - 1]@));
            assert(footer_views(footers@.take(i as int)).map_values(
                |f: FooterView| footer_line(f),
            ) =~= footer_views(footers@.take(i - 1)).map_values(|f: FooterView| footer_line(f)).push(
                footer_line(footers@[i - 1]@),
            ));
        }
    }
    proof {
        assert(footers@.take(footers@.len() as int) =~= footers@);
    }
    join(lines.as_slice(), "\n")
}

fn append_subject(out: &mut String, p: &CommitParts)
    ensures
        final(out)@ == old(out)@ + subject_spec(p@),
{
    let ghost start = out@;
    out.append(p.type_.as_str());
    let ghost scope = match p@.scope {
        Some(s) => "("@ + s + ")"@,
        None => Seq::<char>::empty(),
    };
    if let Some(scope_text) = &p.scope {
        out.append("(");
        out.append(scope_text.as_str());
        out.append(")");
    }
    proof {
        assert(out@ =~= start + p.type_@ + scope);
    }
    let ghost mid = out@;
    let ghost bang = if p.breaking {
        "!"@
    } else {
        Seq::<char>::empty()
    };
    if p.breaking {
        out.append("!");
    }
    out.append(": ");
    out.append(p.description.as_str());
    proof {
        assert(out@ =~= mid + bang + ": "@ + p.description@);
        assert(out@ =~= start + subject_spec(p@));
    }
}

impl CommitParts {
    pub fn render(&self) -> (r: String)
        ensures
            r@ == render_spec(self@),
    {
        let mut out = String::new();
        append_subject(&mut out, self);
        let ghost subject = out@;
        let ghost body = match self@.body {
            Some(b) => "\n\n"@ + b,
            None => Seq::<char>::empty(),
        };
        if let Some(b) = &self.body {
            out.append("\n\n");
            out.append(b.as_str());
        }
        proof {
            assert(out@ =~= subject + body);
        }
        let ghost with_body = out@;
        if self.footers.len() > 0 {
            let text = render_footers(self.footers.as_slice());
            out.append("\n\n");
            out.append(text.as_str());
            proof {
                assert(out@ =~= with_body + ("\n\n"@ + footers_text(self@.footers)));
            }
        } else {
            proof {
                assert(out@ =~= with_body + Seq::<char>::empty());
            }
        }
        out
    }

    pub fn subject(&self) -> (r: String)
        ensures
            r@ == subject_spec(self@),
    {
        let mut out = String::new();
        append_subject(&mut out, self);
        proof {
            assert(out@ =~= subject_spec(self@));
        }
        out
    }
}

// ---------------------------------------------------------------------------
// Parsing
// ---------------------------------------------------------------------------

/// What `git_conventional::Commit::parse` makes of a message: its parts on
/// success, its error's text on failure. A function of the message alone.
pub uninterp spec fn conventional_commit(message: Seq<char>) -> Result<CommitPartsView, Seq<char>>;

/// `git_conventional::Commit::parse`, its result converted field by field.
/// Nothing is stated of which messages parse nor of the parts beyond the
/// name `conventional_commit`: the grammar is the crate's own.
#[verifier::external_body]
fn parse_conventional(message: &str) -> (r: Result<CommitParts, String>)
    ensures
        match r {
            Ok(p) => conventional_commit(message@) == Ok::<CommitPartsView, Seq<char>>(p@),
            Err(e) => conventional_commit(message@) == Err::<CommitPartsView, Seq<char>>(e@),
        },
{
    let c = git_conventional::Commit::parse(message).map_err(|e| e.to_string())?;
    let footers = c.footers().iter().map(|f| Footer {
        token: f.token().to_string(),
        separator: f.separator().to_string(),
        value: f.value().to_string(),
    });
    Ok(CommitParts {
        type_: c.type_().as_str().to_string(),
        scope: c.scope().map(|s| s.as_str().to_string()),
        breaking: c.breaking(),
        description: c.description().to_string(),
        body: c.body().map(|b| b.to_string()),
        footers: footers.collect(),
    })
}

/// `CommitParts::parse`: the message with trailing whitespace removed, as
/// `git_conventional` reads it; its error text behind a fixed prefix.
pub open spec fn parse_spec(raw: Seq<char>) -> Result<CommitPartsView, Seq<char>> {
    match conventional_commit(trim_end_spec(raw)) {
        Ok(p) => Ok(p),
        Err(e) => Err("not a conventional commit: "@ + e),
    }
}

pub open spec fn parse_result_view(r: Result<CommitParts, String>) -> Result<
    CommitPartsView,
    Seq<char>,
> {
    match r {
        Ok(p) => Ok(p@),
        Err(e) => Err(e@),
    }
}

impl CommitParts {
    /// Parses a Conventional Commit message.
    pub fn parse(raw: &str) -> (r: Result<Self, String>)
        ensures
            parse_result_view(r) == parse_spec(raw@),
    {
        let message = trim_end(raw);
        match parse_conventional(message.as_str()) {
            Ok(p) => Ok(p),
            Err(e) => {
                let mut text = String::new();
                text.append("not a conventional commit: ");
                text.append(e.as_str());
                proof {
                    assert(text@ =~= "not a conventional commit: "@ + e@);
                }
                Err(text)
            },
        }
    }
}

// ---------------------------------------------------------------------------
// Single rewrites
// ---------------------------------------------------------------------------

/// What `Regex::new(pattern)` then `replace_all(haystack, replacement)`
/// give: `None` when the pattern does not compile, else the haystack with
/// every match replaced (with `$` group references expanded).
pub uninterp spec fn regex_replace_all(pattern: Seq<char>, haystack: Seq<char>, replacement: Seq<char>) -> Option<Seq<char>>;

/// `regex::Regex::new` followed by `Regex::replace_all`: the pattern's
/// compile error becomes `None`. The replacement itself is named, not
/// stated: it is the regex crate's matching semantics.
#[verifier::external_body]
fn regex_replace(pattern: &str, haystack: &str, replacement: &str) -> (r: Option<String>)
    ensures
        match r {
            Some(s) => regex_replace_all(pattern@, haystack@, replacement@) == Some(s@),
            None => regex_replace_all(pattern@, haystack@, replacement@) is None,
        },
{
    let re = regex::Regex::new(pattern).ok()?;
    Some(re.replace_all(haystack, replacement).into_owned())
}

/// One replace rule applied to `input`: a regex rule whose pattern does not
/// compile leaves it unchanged.
pub open spec fn apply_rule(input: Seq<char>, r: ReplaceView) -> Seq<char> {
    if r.regex {
        match regex_replace_all(r.from, input, r.to) {
            Some(out) => out,
            None => input,
        }
    } else {
        replace_spec(input, r.from, r.to)
    }
}

pub fn apply_replace(input: &str, r: &Replace) -> (out: String)
    ensures
        out@ == apply_rule(input@, r@),
{
    if r.regex {
        match regex_replace(r.from.as_str(), input, r.to.as_str()) {
            Some(out) => out,
            None => crate::text::to_owned(input),
        }
    } else {
        replace_literal(input, r.from.as_str(), r.to.as_str())
    }
}

/// Every maximal run of whitespace replaced by a single space.
pub open spec fn collapse_ws_spec(s: Seq<char>) -> Seq<char>
    decreases s.len(),
{
    if s.len() == 0 {
        s
    } else {
        let r = collapse_ws_spec(s.drop_last());
        if !is_ws(s.last()) {
            r.push(s.last())
        } else if s.len() >= 2 && is_ws(s[s.len() - 2]) {
            r
        } else {
            r.push(' ')
        }
    }
}

/// `Regex::new(r"\s+").replace_all(s, " ")`: `\s` is Unicode `White_Space`.
pub fn collapse_whitespace(s: &str) -> (r: String)
    ensures
        r@ == collapse_ws_spec(s@),
{
    let v = to_chars(s);
    let mut out: Vec<char> = Vec::new();
    let mut i: usize = 0;
    while i < v.len()
        invariant
            v@ == s@,
            i <= v@.len(),
            out@ == collapse_ws_spec(v@.take(i as int)),
        decreases v@.len() - i,
    {
        proof {
            assert(v@.take(i + 1).drop_last() =~= v@.take(i as int));
        }
        let c = v[i];
        if !is_whitespace(c) {
            out.push(c);
        } else if i >= 1 && is_whitespace(v[i - 1]) {
        } else {
            out.push(' ');
        }
        i += 1;
    }
    proof {
        assert(v@.take(v@.len() as int) =~= v@);
    }
    from_chars(out.as_slice())
}

/// Trailing dots removed.
pub fn strip_trailing_dots(s: &str) -> (r: String)
    ensures
        r@ == trim_end_char_spec(s@, '.'),
{
    trim_end_char(s, '.')
}

/// Whether position `i` has an ASCII digit on both sides.
pub open spec fn dot_between_digits(s: Seq<char>, i: int) -> bool {
    &&& 1 <= i
    &&& i + 1 < s.len()
    &&& is_digit(s[i - 1])
    &&& is_digit(s[i + 1])
}

/// Whether character `i` survives dot stripping: it is not a dot, or it is a
/// dot between two digits.
pub open spec fn keeps_char(s: Seq<char>, i: int) -> bool {
    s[i] != '.' || dot_between_digits(s, i)
}

/// The characters among the first `n` of `s` that survive dot stripping.
pub open spec fn kept_prefix(s: Seq<char>, n: int) -> Seq<char>
    decreases n,
{
    if n <= 0 {
        Seq::<char>::empty()
    } else if keeps_char(s, n - 1) {
        kept_prefix(s, n - 1).push(s[n - 1])
    } else {
        kept_prefix(s, n - 1)
    }
}

/// Every dot removed except those with a digit on both sides.
pub open spec fn strip_dots_spec(s: Seq<char>) -> Seq<char> {
    kept_prefix(s, s.len() as int)
}

/// Whether `chars[i]` has an ASCII digit on both sides.
pub fn is_dot_between_digits(chars: &[char], i: usize) -> (r: bool)
    ensures
        r == dot_between_digits(chars@, i as int),
{
    i >= 1 && i < chars.len() && i + 1 < chars.len() && is_ascii_digit(chars[i - 1])
        && is_ascii_digit(chars[i + 1])
}

pub fn strip_dots_outside_numbers(s: &str) -> (r: String)
    ensures
        r@ == strip_dots_spec(s@),
{
    let chars = to_chars(s);
    let mut out: Vec<char> = Vec::new();
    let mut i: usize = 0;
    while i < chars.len()
        invariant
            chars@ == s@,
            i <= chars@.len(),
            out@ == kept_prefix(chars@, i as int),
        decreases chars@.len() - i,
    {
        let ch = chars[i];
        if ch == '.' {
            if is_dot_between_digits(chars.as_slice(), i) {
                out.push('.');
            }
        } else {
            out.push(ch);
        }
        i += 1;
    }
    from_chars(out.as_slice())
}

/// Every character in `set` removed.
pub open spec fn strip_chars_spec(s: Seq<char>, set: Seq<char>) -> Seq<char> {
    s.filter(|c: char| !set.contains(c))
}

fn contains_char(set: &[char], c: char) -> (r: bool)
    ensures
        r == set@.contains(c),
{
    let mut i: usize = 0;
    while i < set.len()
        invariant
            i <= set@.len(),
            forall|j: int| 0 <= j < i ==> set@[j] != c,
        decreases set@.len() - i,
    {
        if set[i] == c {
            return true;
        }
        i += 1;
    }
    false
}

pub fn strip_chars(s: &str, set: &[char]) -> (r: String)
    ensures
        r@ == strip_chars_spec(s@, set@),
{
    let chars = to_chars(s);
    let ghost keep = |c: char| !set@.contains(c);
    let mut out: Vec<char> = Vec::new();
    let mut i: usize = 0;
    proof {
        reveal(Seq::filter);
        assert(chars@.take(0) =~= Seq::<char>::empty());
    }
    while i < chars.len()
        invariant
            chars@ == s@,
            keep == (|c: char| !set@.contains(c)),
            i <= chars@.len(),
            out@ == chars@.take(i as int).filter(keep),
        decreases chars@.len() - i,
    {
        proof {
            reveal(Seq::filter);
            assert(chars@.take(i + 1).drop_last() =~= chars@.take(i as int));
        }
        if !contains_char(set, chars[i]) {
            out.push(chars[i]);
        }
        i += 1;
    }
    proof {
        assert(chars@.take(chars@.len() as int) =~= chars@);
    }
    from_chars(out.as_slice())
}

/// Every dot removed.
pub open spec fn remove_dots_spec(s: Seq<char>) -> Seq<char> {
    replace_spec(s, "."@, ""@)
}


// ---------------------------------------------------------------------------
// The transform pipeline
// ---------------------------------------------------------------------------

/// The warning a rewrite from `before` to `after` reports.
pub open spec fn rewrite_diag(code: Seq<char>, field: Field, before: Seq<char>, after: Seq<char>) -> DiagnosticView {
    with_rewrite(bare(code, Severity::Warning, field), before, after)
}

/// A step reports a rewrite exactly when it changed the value.
pub open spec fn step_diags(code: Seq<char>, field: Field, value: Seq<char>, next: Seq<char>) -> Seq<DiagnosticView> {
    if next != value {
        seq![rewrite_diag(code, field, value, next)]
    } else {
        Seq::<DiagnosticView>::empty()
    }
}

/// `value` after the replace rules, applied in order.
pub open spec fn chain_value(value: Seq<char>, rules: Seq<ReplaceView>) -> Seq<char>
    decreases rules.len(),
{
    if rules.len() == 0 {
        value
    } else {
        apply_rule(chain_value(value, rules.drop_last()), rules.last())
    }
}

/// The rewrites the replace rules report, in order.
pub open spec fn chain_diags(value: Seq<char>, rules: Seq<ReplaceView>, code: Seq<char>, field: Field) -> Seq<DiagnosticView>
    decreases rules.len(),
{
    if rules.len() == 0 {
        Seq::<DiagnosticView>::empty()
    } else {
        let prev = chain_value(value, rules.drop_last());
        chain_diags(value, rules.drop_last(), code, field) + step_diags(
            code,
            field,
            prev,
            apply_rule(prev, rules.last()),
        )
    }
}

pub open spec fn lowered(s: Seq<char>, on: bool) -> Seq<char> {
    if on {
        lowercase(s)
    } else {
        s
    }
}

pub open spec fn type_value(t: Seq<char>, c: Config) -> Seq<char> {
    lowered(t, c.type_.lowercase)
}

pub open spec fn type_diags(t: Seq<char>, c: Config) -> Seq<DiagnosticView> {
    step_diags("type.lowercased"@, Field::Type, t, type_value(t, c))
}

pub open spec fn scope_value(scope: Option<Seq<char>>, c: Config) -> Option<Seq<char>> {
    match scope {
        Some(s) => Some(chain_value(lowered(s, c.scope.lowercase), rule_views(c.scope.replace@))),
        None => None,
    }
}

pub open spec fn scope_diags(scope: Option<Seq<char>>, c: Config) -> Seq<DiagnosticView> {
    match scope {
        Some(s) => {
            let s1 = lowered(s, c.scope.lowercase);
            step_diags("scope.lowercased"@, Field::Scope, s, s1) + chain_diags(
                s1,
                rule_views(c.scope.replace@),
                "scope.replaced"@,
                Field::Scope,
            )
        },
        None => Seq::<DiagnosticView>::empty(),
    }
}

/// The description after lowercasing and the replace rules.
pub open spec fn desc_replaced(d: Seq<char>, c: DescriptionConfig) -> Seq<char> {
    chain_value(lowered(d, c.lowercase), rule_views(c.replace@))
}

pub open spec fn desc_stripped(d: Seq<char>, c: DescriptionConfig) -> Seq<char> {
    if c.strip_chars@.len() > 0 {
        strip_chars_spec(d, c.strip_chars@)
    } else {
        d
    }
}

pub open spec fn desc_dotted(d: Seq<char>, c: DescriptionConfig) -> Seq<char> {
    match c.internal_dots {
        InternalDots::All => d,
        InternalDots::NoDots => remove_dots_spec(d),
        InternalDots::KeepInNumbers => strip_dots_spec(d),
    }
}

pub open spec fn desc_trailing(d: Seq<char>, c: DescriptionConfig) -> Seq<char> {
    if c.trailing_dot == TrailingDot::Strip {
        trim_end_char_spec(d, '.')
    } else {
        d
    }
}

pub open spec fn desc_collapsed(d: Seq<char>, c: DescriptionConfig) -> Seq<char> {
    if c.collapse_whitespace {
        collapse_ws_spec(d)
    } else {
        d
    }
}

/// The character-level cleanup that follows the replace rules: strip the
/// configured characters, strip dots, strip a trailing dot, collapse
/// whitespace, trim.
pub open spec fn cleanup(d: Seq<char>, c: DescriptionConfig) -> Seq<char> {
    trim_spec(desc_collapsed(desc_trailing(desc_dotted(desc_stripped(d, c), c), c), c))
}

/// The normalized description.
pub open spec fn description_value(d: Seq<char>, c: DescriptionConfig) -> Seq<char> {
    cleanup(desc_replaced(d, c), c)
}

/// The rewrites of stripping characters and dots.
pub open spec fn strip_diags(d2: Seq<char>, c: DescriptionConfig) -> Seq<DiagnosticView> {
    let f = Field::Description;
    let d3 = desc_stripped(d2, c);
    let d4 = desc_dotted(d3, c);
    step_diags("description.chars-stripped"@, f, d2, d3) + step_diags(
        "description.dots-stripped"@,
        f,
        d3,
        d4,
    )
}

/// The rewrites of the trailing-dot, whitespace and trim steps.
pub open spec fn spacing_diags(d4: Seq<char>, c: DescriptionConfig) -> Seq<DiagnosticView> {
    let f = Field::Description;
    let d5 = desc_trailing(d4, c);
    let d6 = desc_collapsed(d5, c);
    step_diags("description.trailing-dot"@, f, d4, d5) + step_diags(
        "description.whitespace-collapsed"@,
        f,
        d5,
        d6,
    ) + step_diags("description.trimmed"@, f, d6, trim_spec(d6))
}

pub open spec fn description_diags(d0: Seq<char>, c: DescriptionConfig) -> Seq<DiagnosticView> {
    let d1 = lowered(d0, c.lowercase);
    let d2 = desc_replaced(d0, c);
    step_diags("description.lowercased"@, Field::Description, d0, d1) + chain_diags(
        d1,
        rule_views(c.replace@),
        "description.replaced"@,
        Field::Description,
    ) + strip_diags(d2, c) + spacing_diags(desc_dotted(desc_stripped(d2, c), c), c)
}

/// The `body.dropped` warning for a body `b`: its line count as detail.
pub open spec fn body_dropped_diag(b: Seq<char>) -> DiagnosticView {
    let n = lines_spec(b).len();
    let noun = if n == 1 {
        "line"@
    } else {
        "lines"@
    };
    with_detail(
        with_removal(bare("body.dropped"@, Severity::Warning, Field::Body), b),
        decimal_spec(n) + " "@ + noun,
    )
}

/// Unless kept, the body goes; a body of only whitespace goes unreported.
pub open spec fn body_value(body: Option<Seq<char>>, keep: bool) -> Option<Seq<char>> {
    if keep {
        body
    } else {
        None
    }
}

pub open spec fn body_diags(body: Option<Seq<char>>, keep: bool) -> Seq<DiagnosticView> {
    match body {
        Some(b) => if !keep && trim_spec(b).len() > 0 {
            seq![body_dropped_diag(b)]
        } else {
            Seq::<DiagnosticView>::empty()
        },
        None => Seq::<DiagnosticView>::empty(),
    }
}

/// Whether a footer token is on the deny list, ignoring ASCII case.
pub open spec fn is_denied(token: Seq<char>, deny: Seq<Seq<char>>) -> bool {
    any_eq_ignore_ascii_case(deny, token)
}

pub open spec fn denied_diag(f: FooterView) -> DiagnosticView {
    with_detail(
        with_removal(bare("footer.denied"@, Severity::Warning, Field::Footers), footer_line(f)),
        f.token,
    )
}

/// Unless kept, every footer goes; when kept, the denied ones go.
pub open spec fn footers_value(fs: Seq<FooterView>, c: FootersConfig) -> Seq<FooterView> {
    if !c.keep {
        Seq::<FooterView>::empty()
    } else {
        fs.filter(|f: FooterView| !is_denied(f.token, views(c.deny@)))
    }
}

pub open spec fn footers_diags(fs: Seq<FooterView>, c: FootersConfig) -> Seq<DiagnosticView> {
    if !c.keep {
        if fs.len() > 0 {
            seq![
                with_detail(
                    with_removal(
                        bare("footers.dropped"@, Severity::Warning, Field::Footers),
                        footers_text(fs),
                    ),
                    decimal_spec(fs.len()),
                ),
            ]
        } else {
            Seq::<DiagnosticView>::empty()
        }
    } else {
        fs.filter(|f: FooterView| is_denied(f.token, views(c.deny@))).map_values(
            |f: FooterView| denied_diag(f),
        )
    }
}

/// The parts after every configured normalization.
pub open spec fn transformed(p: CommitPartsView, c: Config) -> CommitPartsView {
    CommitPartsView {
        type_: type_value(p.type_, c),
        scope: scope_value(p.scope, c),
        breaking: p.breaking,
        description: description_value(p.description, c.description),
        body: body_value(p.body, c.body.keep),
        footers: footers_value(p.footers, c.footers),
    }
}

/// Every rewrite the normalization reports, in pipeline order: type, scope,
/// description, body, footers.
pub open spec fn transform_diags(p: CommitPartsView, c: Config) -> Seq<DiagnosticView> {
    type_diags(p.type_, c) + scope_diags(p.scope, c) + description_diags(
        p.description,
        c.description,
    ) + body_diags(p.body, c.body.keep) + footers_diags(p.footers, c.footers)
}

/// Record `code` if `next` differs from `value`, then keep `next`.
fn step(value: &mut String, code: &'static str, field: Field, diags: &mut Vec<Diagnostic>, next: String)
    ensures
        final(value)@ == next@,
        diag_views(final(diags)@) == diag_views(old(diags)@) + step_diags(
            code@,
            field,
            old(value)@,
            next@,
        ),
{
    if next != *value {
        let d = Diagnostic::transform(code, field).rewrite(value.as_str(), next.as_str());
        let ghost before = diags@;
        diags.push(d);
        proof {
            assert(diag_views(diags@) =~= diag_views(before).push(d@));
        }
        *value = next;
    } else {
        proof {
            assert(diag_views(diags@) =~= diag_views(diags@) + Seq::<DiagnosticView>::empty());
        }
    }
}

/// Every replace rule applied in order, each change recorded under `code`.
fn replace_each(value: &mut String, rules: &Vec<Replace>, code: &'static str, field: Field, diags: &mut Vec<Diagnostic>)
    ensures
        final(value)@ == chain_value(old(value)@, rule_views(rules@)),
        diag_views(final(diags)@) == diag_views(old(diags)@) + chain_diags(
            old(value)@,
            rule_views(rules@),
            code@,
            field,
        ),
{
    let ghost start = value@;
    let ghost start_diags = diag_views(diags@);
    let mut i: usize = 0;
    proof {
        assert(rule_views(rules@).take(0) =~= Seq::<ReplaceView>::empty());
        assert(start_diags + Seq::<DiagnosticView>::empty() =~= start_diags);
    }
    while i < rules.len()
        invariant
            i <= rules@.len(),
            value@ == chain_value(start, rule_views(rules@).take(i as int)),
            diag_views(diags@) == start_diags + chain_diags(
                start,
                rule_views(rules@).take(i as int),
                code@,
                field,
            ),
        decreases rules@.len() - i,
    {
        let ghost before_diags = diag_views(diags@);
        proof {
            assert(rule_views(rules@).take(i + 1).drop_last() =~= rule_views(rules@).take(
                i as int,
            ));
        }
        let next = apply_replace(value.as_str(), &rules[i]);
        step(value, code, field, diags, next);
        i += 1;
        proof {
            assert(start_diags + chain_diags(start, rule_views(rules@).take(i as int), code@, field)
                =~= before_diags + step_diags(
                code@,
                field,
                chain_value(start, rule_views(rules@).take(i - 1)),
                next@,
            ));
        }
    }
    proof {
        assert(rule_views(rules@).take(rules@.len() as int) =~= rule_views(rules@));
    }
}

fn transform_type(parts: &mut CommitParts, config: &Config, diags: &mut Vec<Diagnostic>)
    ensures
        final(parts)@ == (CommitPartsView { type_: type_value(old(parts)@.type_, *config), ..old(parts)@ }),
        diag_views(final(diags)@) == diag_views(old(diags)@) + type_diags(old(parts)@.type_, *config),
{
    if config.type_.lowercase {
        let next = to_lowercase(parts.type_.as_str());
        step(&mut parts.type_, "type.lowercased", Field::Type, diags, next);
    } else {
        proof {
            assert(diag_views(diags@) =~= diag_views(diags@) + Seq::<DiagnosticView>::empty());
        }
    }
}

fn transform_scope(parts: &mut CommitParts, config: &Config, diags: &mut Vec<Diagnostic>)
    ensures
        final(parts)@ == (CommitPartsView { scope: scope_value(old(parts)@.scope, *config), ..old(parts)@ }),
        diag_views(final(diags)@) == diag_views(old(diags)@) + scope_diags(old(parts)@.scope, *config),
{
    let ghost start_diags = diag_views(diags@);
    match parts.scope.take() {
        None => {
            proof {
                assert(diag_views(diags@) =~= start_diags + Seq::<DiagnosticView>::empty());
            }
        },
        Some(scope) => {
            let mut s = scope;
            let ghost s0 = s@;
            if config.scope.lowercase {
                let next = to_lowercase(s.as_str());
                step(&mut s, "scope.lowercased", Field::Scope, diags, next);
            } else {
                proof {
                    assert(diag_views(diags@) =~= diag_views(diags@)
                        + Seq::<DiagnosticView>::empty());
                }
            }
            let ghost mid = diag_views(diags@);
            replace_each(&mut s, &config.scope.replace, "scope.replaced", Field::Scope, diags);
            parts.scope = Some(s);
            proof {
                let s1 = lowered(s0, config.scope.lowercase);
                assert(diag_views(diags@) =~= start_diags + (step_diags(
                    "scope.lowercased"@,
                    Field::Scope,
                    s0,
                    s1,
                ) + chain_diags(s1, rule_views(config.scope.replace@), "scope.replaced"@, Field::Scope)));
            }
        },
    }
}


fn strip_steps(d: &mut String, cfg: &DescriptionConfig, diags: &mut Vec<Diagnostic>)
    ensures
        final(d)@ == desc_dotted(desc_stripped(old(d)@, *cfg), *cfg),
        diag_views(final(diags)@) == diag_views(old(diags)@) + strip_diags(old(d)@, *cfg),
{
    let f = Field::Description;
    let ghost start = diag_views(diags@);
    let next = if cfg.strip_chars.len() > 0 {
        strip_chars(d.as_str(), cfg.strip_chars.as_slice())
    } else {
        d.clone()
    };
    step(d, "description.chars-stripped", f, diags, next);
    let ghost mid = diag_views(diags@);
    let next = match cfg.internal_dots {
        InternalDots::All => d.clone(),
        InternalDots::NoDots => replace_literal(d.as_str(), ".", ""),
        InternalDots::KeepInNumbers => strip_dots_outside_numbers(d.as_str()),
    };
    step(d, "description.dots-stripped", f, diags, next);
    proof {
        assert(diag_views(diags@) =~= start + strip_diags(old(d)@, *cfg));
    }
}

fn spacing_steps(d: &mut String, cfg: &DescriptionConfig, diags: &mut Vec<Diagnostic>)
    ensures
        final(d)@ == trim_spec(desc_collapsed(desc_trailing(old(d)@, *cfg), *cfg)),
        diag_views(final(diags)@) == diag_views(old(diags)@) + spacing_diags(old(d)@, *cfg),
{
    let f = Field::Description;
    let ghost start = diag_views(diags@);
    let next = if cfg.trailing_dot == TrailingDot::Strip {
        strip_trailing_dots(d.as_str())
    } else {
        d.clone()
    };
    step(d, "description.trailing-dot", f, diags, next);
    let next = if cfg.collapse_whitespace {
        collapse_whitespace(d.as_str())
    } else {
        d.clone()
    };
    step(d, "description.whitespace-collapsed", f, diags, next);
    let next = trim(d.as_str());
    step(d, "description.trimmed", f, diags, next);
    proof {
        assert(diag_views(diags@) =~= start + spacing_diags(old(d)@, *cfg));
    }
}

#[verifier::spinoff_prover]
#[verifier::rlimit(40)]
fn transform_description(parts: &mut CommitParts, config: &Config, diags: &mut Vec<Diagnostic>)
    ensures
        final(parts)@ == (CommitPartsView {
            description: description_value(old(parts)@.description, config.description),
            ..old(parts)@
        }),
        diag_views(final(diags)@) == diag_views(old(diags)@) + description_diags(
            old(parts)@.description,
            config.description,
        ),
{
    let cfg = &config.description;
    let f = Field::Description;
    let ghost start = diag_views(diags@);
    let mut d = parts.description.clone();
    let next = if cfg.lowercase {
        to_lowercase(d.as_str())
    } else {
        d.clone()
    };
    step(&mut d, "description.lowercased", f, diags, next);
    replace_each(&mut d, &cfg.replace, "description.replaced", f, diags);
    strip_steps(&mut d, cfg, diags);
    spacing_steps(&mut d, cfg, diags);
    proof {
        assert(diag_views(diags@) =~= start + description_diags(old(parts)@.description, *cfg));
    }
    parts.description = d;
}

fn transform_body(parts: &mut CommitParts, config: &Config, diags: &mut Vec<Diagnostic>)
    ensures
        final(parts)@ == (CommitPartsView {
            body: body_value(old(parts)@.body, config.body.keep),
            ..old(parts)@
        }),
        diag_views(final(diags)@) == diag_views(old(diags)@) + body_diags(
            old(parts)@.body,
            config.body.keep,
        ),
{
    let ghost start = diag_views(diags@);
    proof {
        assert(start =~= start + Seq::<DiagnosticView>::empty());
    }
    if config.body.keep {
        return ;
    }
    let body = match parts.body.take() {
        Some(b) => b,
        None => {
            return ;
        },
    };
    let trimmed = trim(body.as_str());
    if trimmed.as_str().is_empty() {
        return ;
    }
    let n = lines(body.as_str()).len();
    let count = usize_to_string(n);
    let mut detail = count;
    detail.append(" ");
    if n == 1 {
        detail.append("line");
    } else {
        detail.append("lines");
    }
    let d = Diagnostic::transform("body.dropped", Field::Body).removing(body.as_str()).detail(
        detail.as_str(),
    );
    diags.push(d);
    proof {
        assert(d@ == body_dropped_diag(body@));
        assert(diag_views(diags@) =~= start + seq![d@]);
    }
}


fn transform_footers(parts: &mut CommitParts, config: &Config, diags: &mut Vec<Diagnostic>)
    ensures
        final(parts)@ == (CommitPartsView {
            footers: footers_value(old(parts)@.footers, config.footers),
            ..old(parts)@
        }),
        diag_views(final(diags)@) == diag_views(old(diags)@) + footers_diags(
            old(parts)@.footers,
            config.footers,
        ),
{
    let ghost start = diag_views(diags@);
    let ghost fs = old(parts)@.footers;
    if !config.footers.keep {
        if parts.footers.len() > 0 {
            let rendered = render_footers(parts.footers.as_slice());
            let count = usize_to_string(parts.footers.len());
            let d = Diagnostic::transform("footers.dropped", Field::Footers).removing(
                rendered.as_str(),
            ).detail(count.as_str());
            diags.push(d);
            parts.footers = Vec::new();
            proof {
                assert(diag_views(diags@) =~= start + footers_diags(fs, config.footers));
                assert(footer_views(parts.footers@) =~= Seq::<FooterView>::empty());
            }
        } else {
            proof {
                assert(diag_views(diags@) =~= start + Seq::<DiagnosticView>::empty());
                assert(footer_views(parts.footers@) =~= Seq::<FooterView>::empty());
            }
        }
        return ;
    }
    let ghost deny = views(config.footers.deny@);
    let ghost keep_pred = |f: FooterView| !is_denied(f.token, deny);
    let ghost deny_pred = |f: FooterView| is_denied(f.token, deny);
    let mut kept: Vec<Footer> = Vec::new();
    let mut old_footers: Vec<Footer> = Vec::new();
    std::mem::swap(&mut old_footers, &mut parts.footers);
    let mut i: usize = 0;
    proof {
        reveal(Seq::filter);
        assert(fs.take(0) =~= Seq::<FooterView>::empty());
        assert(start =~= start + Seq::<FooterView>::empty().filter(deny_pred).map_values(
            |f: FooterView| denied_diag(f),
        ));
    }
    while i < old_footers.len()
        invariant
            footer_views(old_footers@) == fs,
            deny == views(config.footers.deny@),
            keep_pred == (|f: FooterView| !is_denied(f.token, deny)),
            deny_pred == (|f: FooterView| is_denied(f.token, deny)),
            i <= fs.len(),
            footer_views(kept@) == fs.take(i as int).filter(keep_pred),
            diag_views(diags@) == start + fs.take(i as int).filter(deny_pred).map_values(
                |f: FooterView| denied_diag(f),
            ),
        decreases fs.len() - i,
    {
        proof {
            reveal(Seq::filter);
            assert(fs.take(i + 1).drop_last() =~= fs.take(i as int));
            assert(fs.take(i + 1).last() == old_footers@[i as int]@);
        }
        let f = &old_footers[i];
        let ghost before_diags = diag_views(diags@);
        let ghost before_kept = footer_views(kept@);
        if contains_ignore_ascii_case(&config.footers.deny, f.token.as_str()) {
            let line = f.render();
            let d = Diagnostic::transform("footer.denied", Field::Footers).removing(
                line.as_str(),
            ).detail(f.token.as_str());
            diags.push(d);
            proof {
                let prev = fs.take(i as int).filter(deny_pred);
                assert(fs.take(i + 1).filter(deny_pred) == prev.push(f@));
                assert(prev.push(f@).map_values(|x: FooterView| denied_diag(x))
                    =~= prev.map_values(|x: FooterView| denied_diag(x)).push(denied_diag(f@)));
                assert(diag_views(diags@) =~= before_diags.push(d@));
                assert(fs.take(i + 1).filter(keep_pred) == fs.take(i as int).filter(keep_pred));
            }
        } else {
            kept.push(f.clone());
            proof {
                assert(footer_views(kept@) =~= before_kept.push(f@));
                assert(fs.take(i + 1).filter(deny_pred) == fs.take(i as int).filter(deny_pred));
            }
        }
        i += 1;
    }
    proof {
        assert(fs.take(fs.len() as int) =~= fs);
    }
    parts.footers = kept;
}

impl Clone for Footer {
    fn clone(&self) -> (r: Self)
        ensures
            r@ == self@,
    {
        Footer {
            token: self.token.clone(),
            separator: self.separator.clone(),
            value: self.value.clone(),
        }
    }
}

/// Applies every configured normalization, reporting each rewrite (pending —
/// see [`Diagnostic::mark_applied`]).
pub fn transform(parts: &mut CommitParts, config: &Config) -> (diags: Vec<Diagnostic>)
    ensures
        final(parts)@ == transformed(old(parts)@, *config),
        diag_views(diags@) == transform_diags(old(parts)@, *config),
{
    let mut diags: Vec<Diagnostic> = Vec::new();
    proof {
        assert(diag_views(diags@) =~= Seq::<DiagnosticView>::empty());
    }
    transform_type(parts, config, &mut diags);
    transform_scope(parts, config, &mut diags);
    transform_description(parts, config, &mut diags);
    transform_body(parts, config, &mut diags);
    transform_footers(parts, config, &mut diags);
    proof {
        assert(diag_views(diags@) =~= transform_diags(old(parts)@, *config));
    }
    diags
}

} // verus!
