//! Turns diagnostics into instructions: what to write instead, not just what changed.
use vstd::prelude::*;

use crate::config::{Config, DescriptionConfig, InternalDots, Replace, ReplaceView, TrailingDot};
use crate::diagnostic::{Diagnostic, DiagnosticView};
use crate::text::{
    decimal_spec, from_chars, join, join_spec, replace_literal, split_whitespace, str_eq,
    to_chars, usize_to_string, utf8_len, utf8_len_exceeds, views, words_spec,
};
use crate::transform::{remove_dots_spec, strip_chars, strip_chars_spec, strip_dots_outside_numbers, strip_dots_spec};

verus! {

// ---------------------------------------------------------------------------
// Word characters
// ---------------------------------------------------------------------------

/// Whether `c` has the Unicode `Alphabetic` property, as `char::is_alphabetic`
/// answers from the tables `std` ships.
pub uninterp spec fn alphabetic(c: char) -> bool;

/// `char::is_alphabetic`. Its answer is named, not stated: it is the Unicode
/// `Alphabetic` property of `c`.
#[verifier::external_body]
fn is_alphabetic(c: char) -> (r: bool)
    ensures
        r == alphabetic(c),
{
    c.is_alphabetic()
}

/// Combining diacritical marks (so decomposed Unicode reads as one letter).
pub open spec fn combining_mark(c: char) -> bool {
    let n = c as u32;
    ||| (0x0300 <= n && n <= 0x036F)
    ||| (0x1AB0 <= n && n <= 0x1AFF)
    ||| (0x1DC0 <= n && n <= 0x1DFF)
    ||| (0x20D0 <= n && n <= 0x20FF)
    ||| (0xFE20 <= n && n <= 0xFE2F)
}

/// Alphabetic, or a combining mark. Digits are not word characters: a digit
/// run fusing with a suffix (`24.x` -> `24x`) is fine.
pub open spec fn word_char(c: char) -> bool {
    alphabetic(c) || combining_mark(c)
}

fn is_combining_mark(c: char) -> (r: bool)
    ensures
        r == combining_mark(c),
{
    let n = c as u32;
    (0x0300 <= n && n <= 0x036F) || (0x1AB0 <= n && n <= 0x1AFF) || (0x1DC0 <= n && n <= 0x1DFF)
        || (0x20D0 <= n && n <= 0x20FF) || (0xFE20 <= n && n <= 0xFE2F)
}

fn is_word_char(c: char) -> (r: bool)
    ensures
        r == word_char(c),
{
    is_alphabetic(c) || is_combining_mark(c)
}

/// The number of word characters directly before position `at`.
pub open spec fn run_before(a: Seq<char>, at: int) -> nat
    decreases at,
{
    if at <= 0 || at > a.len() || !word_char(a[at - 1]) {
        0
    } else {
        1 + run_before(a, at - 1)
    }
}

/// The number of word characters from position `at` on.
pub open spec fn run_after(a: Seq<char>, at: int) -> nat
    decreases a.len() - at,
{
    if at < 0 || at >= a.len() || !word_char(a[at]) {
        0
    } else {
        1 + run_after(a, at + 1)
    }
}

fn word_run_len_before(a: &[char], at: usize) -> (r: usize)
    requires
        at <= a@.len(),
    ensures
        r == run_before(a@, at as int),
{
    let mut j: usize = at;
    let mut n: usize = 0;
    while j > 0 && is_word_char(a[j - 1])
        invariant
            j <= at <= a@.len(),
            n + j == at,
            run_before(a@, at as int) == n + run_before(a@, j as int),
        decreases j,
    {
        j -= 1;
        n += 1;
    }
    n
}

fn word_run_len_after(a: &[char], at: usize) -> (r: usize)
    requires
        at <= a@.len(),
    ensures
        r == run_after(a@, at as int),
{
    let mut j: usize = at;
    let mut n: usize = 0;
    while j < a.len() && is_word_char(a[j])
        invariant
            at <= j <= a@.len(),
            n + at == j,
            run_after(a@, at as int) == n + run_after(a@, j as int),
        decreases a@.len() - j,
    {
        j += 1;
        n += 1;
    }
    n
}

// ---------------------------------------------------------------------------
// Fusion detection
// ---------------------------------------------------------------------------

/// Whether the deletion gap that ends at position `at` of `after` joins two
/// words of two or more characters each.
pub open spec fn gap_fuses(after: Seq<char>, at: int) -> bool {
    run_before(after, at) >= 2 && run_after(after, at) >= 2
}

/// Matching `before[i..]` against `after[ai..]` greedily, character by
/// character: whether some deletion gap (a run of unmatched characters of
/// `before`) ends where two words of `after` meet.
pub open spec fn fuses_from(before: Seq<char>, after: Seq<char>, i: int, ai: int, in_gap: bool) -> bool
    decreases before.len() - i,
{
    if i < 0 || i >= before.len() {
        in_gap && gap_fuses(after, ai)
    } else if 0 <= ai < after.len() && before[i] == after[ai] {
        (in_gap && gap_fuses(after, ai)) || fuses_from(before, after, i + 1, ai + 1, false)
    } else {
        fuses_from(before, after, i + 1, ai, true)
    }
}

/// Whether the deletion from `before` to `after` placed two real words
/// (alphabetic runs of 2+ characters) directly adjacent.
pub open spec fn fuses_words(before: Seq<char>, after: Seq<char>) -> bool {
    fuses_from(before, after, 0, 0, false)
}

/// Whether the deletion placed two real words (alphabetic runs of 2+ chars,
/// digits excluded) directly adjacent. `before`/`after` must be a
/// deletion-only transform (see `mangled_description`).
fn deletion_fuses_words(before: &str, after: &str) -> (r: bool)
    ensures
        r == fuses_words(before@, after@),
{
    let b = to_chars(before);
    let a = to_chars(after);
    let mut ai: usize = 0;
    let mut i: usize = 0;
    let mut in_gap = false;
    while i < b.len()
        invariant
            b@ == before@,
            a@ == after@,
            i <= b@.len(),
            ai <= a@.len(),
            fuses_words(before@, after@) == fuses_from(b@, a@, i as int, ai as int, in_gap),
        decreases b@.len() - i,
    {
        if ai < a.len() && b[i] == a[ai] {
            if in_gap && word_run_len_before(a.as_slice(), ai) >= 2 && word_run_len_after(
                a.as_slice(),
                ai,
            ) >= 2 {
                return true;
            }
            ai += 1;
            i += 1;
            in_gap = false;
        } else {
            i += 1;
            in_gap = true;
        }
    }
    in_gap && word_run_len_before(a.as_slice(), ai) >= 2 && word_run_len_after(a.as_slice(), ai)
        >= 2
}

// ---------------------------------------------------------------------------
// Mangling
// ---------------------------------------------------------------------------

/// Above this many bytes, analysis is skipped: `subject.too-long` already
/// rejects such a description.
pub const MAX_MANGLING_CHECK_LEN: usize = 500;

/// A token after `strip_chars`.
pub open spec fn token_stripped(token: Seq<char>, c: DescriptionConfig) -> Seq<char> {
    if c.strip_chars@.len() == 0 {
        token
    } else {
        strip_chars_spec(token, c.strip_chars@)
    }
}

/// A token after `strip_chars` and `internal_dots`.
pub open spec fn token_dotted(token: Seq<char>, c: DescriptionConfig) -> Seq<char> {
    let s = token_stripped(token, c);
    match c.internal_dots {
        InternalDots::All => s,
        InternalDots::NoDots => remove_dots_spec(s),
        InternalDots::KeepInNumbers => strip_dots_spec(s),
    }
}

/// The token with what it becomes, when either deletion step fuses words.
pub open spec fn mangled_token_spec(token: Seq<char>, c: DescriptionConfig) -> Option<(Seq<char>, Seq<char>)> {
    let s = token_stripped(token, c);
    let d = token_dotted(token, c);
    let strip_fuses = s != token && fuses_words(token, s);
    let dots_fuses = d != s && fuses_words(s, d);
    if strip_fuses || dots_fuses {
        Some((token, d))
    } else {
        None
    }
}

/// Tokens that would come out fused with their neighbour, as `(before, after)`,
/// for descriptions of at most `MAX_MANGLING_CHECK_LEN` bytes.
pub open spec fn mangled_spec(description: Seq<char>, c: DescriptionConfig) -> Seq<(Seq<char>, Seq<char>)> {
    if utf8_len(description) > MAX_MANGLING_CHECK_LEN {
        Seq::empty()
    } else {
        words_spec(description).filter_map(|t: Seq<char>| mangled_token_spec(t, c))
    }
}

pub open spec fn pair_views(v: Seq<(String, String)>) -> Seq<(Seq<char>, Seq<char>)> {
    v.map_values(|p: (String, String)| (p.0@, p.1@))
}

fn mangled_token(token: &str, config: &DescriptionConfig) -> (r: Option<(String, String)>)
    ensures
        match r {
            Some(p) => mangled_token_spec(token@, *config) == Some((p.0@, p.1@)),
            None => mangled_token_spec(token@, *config) is None,
        },
{
    let after_strip = if config.strip_chars.len() == 0 {
        crate::text::to_owned(token)
    } else {
        strip_chars(token, config.strip_chars.as_slice())
    };
    let strip_fuses = !str_eq(after_strip.as_str(), token) && deletion_fuses_words(
        token,
        after_strip.as_str(),
    );
    let after_dots = match config.internal_dots {
        InternalDots::All => after_strip.clone(),
        InternalDots::NoDots => replace_literal(after_strip.as_str(), ".", ""),
        InternalDots::KeepInNumbers => strip_dots_outside_numbers(after_strip.as_str()),
    };
    let dots_fuses = !str_eq(after_dots.as_str(), after_strip.as_str()) && deletion_fuses_words(
        after_strip.as_str(),
        after_dots.as_str(),
    );
    if strip_fuses || dots_fuses {
        Some((crate::text::to_owned(token), after_dots))
    } else {
        None
    }
}

/// Tokens that would come out fused with their neighbour, as `(before, after)`.
/// Only checks `strip_chars`/`internal_dots`, never `.replace` — a `.replace`
/// rule's `to` value is the author's own deliberate choice.
pub fn mangled_description(description: &str, config: &DescriptionConfig) -> (r: Vec<(String, String)>)
    ensures
        pair_views(r@) == mangled_spec(description@, *config),
{
    let mut out: Vec<(String, String)> = Vec::new();
    if utf8_len_exceeds(description, MAX_MANGLING_CHECK_LEN) {
        proof {
            assert(pair_views(out@) =~= Seq::<(Seq<char>, Seq<char>)>::empty());
        }
        return out;
    }
    let tokens = split_whitespace(description);
    let ghost f = |t: Seq<char>| mangled_token_spec(t, *config);
    let mut i: usize = 0;
    proof {
        assert(views(tokens@).take(0) =~= Seq::<Seq<char>>::empty());
        assert(pair_views(out@) =~= Seq::<(Seq<char>, Seq<char>)>::empty());
    }
    while i < tokens.len()
        invariant
            f == (|t: Seq<char>| mangled_token_spec(t, *config)),
            i <= tokens@.len(),
            pair_views(out@) == views(tokens@).take(i as int).filter_map(f),
        decreases tokens@.len() - i,
    {
        proof {
            assert(views(tokens@).take(i + 1).drop_last() =~= views(tokens@).take(i as int));
            assert(views(tokens@).take(i + 1).last() == tokens@[i as int]@);
        }
        let ghost before = pair_views(out@);
        match mangled_token(tokens[i].as_str(), config) {
            Some(p) => {
                let ghost pv = (p.0@, p.1@);
                out.push(p);
                proof {
                    assert(pair_views(out@) =~= before + seq![pv]);
                }
            },
            None => {},
        }
        i += 1;
    }
    proof {
        assert(views(tokens@).take(tokens@.len() as int) =~= views(tokens@));
    }
    out
}


// ---------------------------------------------------------------------------
// Instruction lines
// ---------------------------------------------------------------------------

pub open spec fn quoted_char(c: char) -> Seq<char> {
    "`"@ + seq![c] + "`"@
}

pub open spec fn strip_chars_line_spec(chars: Seq<char>) -> Seq<char> {
    "do not use these characters in the description: "@ + join_spec(
        chars.map_values(|c: char| quoted_char(c)),
        " "@,
    )
}

pub open spec fn dots_rule_spec(dots: InternalDots) -> Seq<char> {
    match dots {
        InternalDots::NoDots => "do not use `.` in the description at all, including at the end — write file names without their extension"@,
        InternalDots::KeepInNumbers => "use `.` only between digits, as in `1.2.3`, and never at the end of the subject — write file names without their extension, e.g. `release workflow` not `release.yml`"@,
        InternalDots::All => "dots are kept in the description"@,
    }
}

pub open spec fn footers_dropped_line_spec() -> Seq<char> {
    "all footers are discarded, including `Co-Authored-By` — do not rely on trailers"@
}

pub open spec fn denied_footers_line_spec(deny: Seq<Seq<char>>) -> Seq<char> {
    if deny.len() == 0 {
        footers_dropped_line_spec()
    } else {
        "these footers are discarded: "@ + join_spec(deny, ", "@)
    }
}

pub open spec fn types_line_spec(allowed: Seq<Seq<char>>) -> Seq<char> {
    "use one of these types: "@ + join_spec(allowed, ", "@)
}

pub open spec fn length_line_spec(max: nat) -> Seq<char> {
    "keep the whole subject line to "@ + decimal_spec(max) + " characters or fewer"@
}

/// `in the {field}, `{before}` becomes `{after}` — write the result directly`.
pub open spec fn rewrite_line_spec(field: Seq<char>, before: Seq<char>, after: Seq<char>) -> Seq<char> {
    "in the "@ + field + ", `"@ + before + "` becomes `"@ + after + "` — write the result directly"@
}

fn strip_chars_line(chars: &[char]) -> (r: String)
    ensures
        r@ == strip_chars_line_spec(chars@),
{
    let mut quoted: Vec<String> = Vec::new();
    let mut i: usize = 0;
    while i < chars.len()
        invariant
            i <= chars@.len(),
            views(quoted@) == chars@.take(i as int).map_values(|c: char| quoted_char(c)),
        decreases chars@.len() - i,
    {
        let mut q = String::new();
        q.append("`");
        let cs = crate::text::char_to_string(chars[i]);
        q.append(cs.as_str());
        q.append("`");
        let ghost before = views(quoted@);
        quoted.push(q);
        i += 1;
        proof {
            assert(q@ =~= quoted_char(chars@[i - 1]));
            assert(views(quoted@) =~= before.push(q@));
            assert(chars@.take(i as int).map_values(|c: char| quoted_char(c)) =~= chars@.take(
                i - 1,
            ).map_values(|c: char| quoted_char(c)).push(quoted_char(chars@[i - 1])));
        }
    }
    proof {
        assert(chars@.take(chars@.len() as int) =~= chars@);
    }
    let list = join(quoted.as_slice(), " ");
    let mut out = String::new();
    out.append("do not use these characters in the description: ");
    out.append(list.as_str());
    proof {
        assert(out@ =~= strip_chars_line_spec(chars@));
    }
    out
}

fn dots_rule(dots: InternalDots) -> (r: String)
    ensures
        r@ == dots_rule_spec(dots),
{
    let s = match dots {
        InternalDots::NoDots => "do not use `.` in the description at all, including at the end — write file names without their extension",
        InternalDots::KeepInNumbers => "use `.` only between digits, as in `1.2.3`, and never at the end of the subject — write file names without their extension, e.g. `release workflow` not `release.yml`",
        InternalDots::All => "dots are kept in the description",
    };
    crate::text::to_owned(s)
}

fn footers_dropped_line() -> (r: String)
    ensures
        r@ == footers_dropped_line_spec(),
{
    crate::text::to_owned(
        "all footers are discarded, including `Co-Authored-By` — do not rely on trailers",
    )
}

fn denied_footers_line(deny: &Vec<String>) -> (r: String)
    ensures
        r@ == denied_footers_line_spec(views(deny@)),
{
    if deny.len() == 0 {
        return footers_dropped_line();
    }
    let list = join(deny.as_slice(), ", ");
    let mut out = String::new();
    out.append("these footers are discarded: ");
    out.append(list.as_str());
    proof {
        assert(out@ =~= "these footers are discarded: "@ + list@);
    }
    out
}

fn types_line(allowed: &Vec<String>) -> (r: String)
    ensures
        r@ == types_line_spec(views(allowed@)),
{
    let list = join(allowed.as_slice(), ", ");
    let mut out = String::new();
    out.append("use one of these types: ");
    out.append(list.as_str());
    proof {
        assert(out@ =~= "use one of these types: "@ + list@);
    }
    out
}

fn length_line(max: usize) -> (r: String)
    ensures
        r@ == length_line_spec(max as nat),
{
    let n = usize_to_string(max);
    let mut out = String::new();
    out.append("keep the whole subject line to ");
    out.append(n.as_str());
    out.append(" characters or fewer");
    proof {
        assert(out@ =~= "keep the whole subject line to "@ + n@ + " characters or fewer"@);
    }
    out
}

fn rewrite_line(field: &str, before: &str, after: &str) -> (r: String)
    ensures
        r@ == rewrite_line_spec(field@, before@, after@),
{
    let mut out = String::new();
    out.append("in the ");
    out.append(field);
    out.append(", `");
    out.append(before);
    out.append("` becomes `");
    out.append(after);
    out.append("` — write the result directly");
    proof {
        assert(out@ =~= rewrite_line_spec(field@, before@, after@));
    }
    out
}

/// The instruction a diagnostic teaches, if its code has one.
pub open spec fn guidance_line(d: DiagnosticView, c: Config) -> Option<Seq<char>> {
    let code = d.code;
    if code == "commit.not-conventional"@ {
        Some("write the subject as a Conventional Commit: `type(scope): description`, e.g. `fix(api): handle null ids`"@)
    } else if code == "type.disallowed"@ {
        Some(types_line_spec(views(c.rules.allowed_types@)))
    } else if code == "subject.too-long"@ {
        Some(length_line_spec(c.rules.max_subject_length as nat))
    } else if code == "type.lowercased"@ {
        Some("write the type in lowercase"@)
    } else if code == "scope.lowercased"@ {
        Some("write the scope in lowercase"@)
    } else if code == "scope.replaced"@ {
        match (d.before, d.after) {
            (Some(b), Some(a)) => Some(rewrite_line_spec("scope"@, b, a)),
            _ => None,
        }
    } else if code == "description.lowercased"@ {
        Some("write the description in lowercase"@)
    } else if code == "description.replaced"@ {
        match (d.before, d.after) {
            (Some(b), Some(a)) => Some(rewrite_line_spec("description"@, b, a)),
            _ => None,
        }
    } else if code == "description.chars-stripped"@ {
        Some(strip_chars_line_spec(c.description.strip_chars@))
    } else if code == "description.dots-stripped"@ {
        Some(dots_rule_spec(c.description.internal_dots))
    } else if code == "description.trailing-dot"@ {
        Some("do not end the subject with a `.`"@)
    } else if code == "description.whitespace-collapsed"@ {
        Some("separate words with a single space"@)
    } else if code == "description.trimmed"@ {
        Some("no leading or trailing space in the description"@)
    } else if code == "body.dropped"@ {
        Some("the body is discarded — put everything that matters in the subject line"@)
    } else if code == "footers.dropped"@ {
        Some(footers_dropped_line_spec())
    } else if code == "footer.denied"@ {
        Some(denied_footers_line_spec(views(c.footers.deny@)))
    } else if code == "normalize.invalid-result"@ {
        Some("write a description of plain words: after normalization it must not be empty"@)
    } else if code == "subject.needs-rewording"@ {
        Some("say the same thing in words rather than symbols: name the thing, do not paste its path, filename or package spec"@)
    } else if code == "message.reformatted"@ {
        Some("adopt the suggested message below as-is — its formatting (blank lines, footer spacing, breaking-change marker) is corrected structurally, not by any rule above"@)
    } else {
        None
    }
}

fn line(s: &str) -> (r: Option<String>)
    ensures
        r matches Some(x) && x@ == s@,
{
    Some(crate::text::to_owned(s))
}

fn rewrite_guidance(field: &str, d: &Diagnostic) -> (r: Option<String>)
    ensures
        match r {
            Some(x) => match (d@.before, d@.after) {
                (Some(b), Some(a)) => x@ == rewrite_line_spec(field@, b, a),
                _ => false,
            },
            None => !(d@.before is Some && d@.after is Some),
        },
{
    match (&d.before, &d.after) {
        (Some(b), Some(a)) => Some(rewrite_line(field, b.as_str(), a.as_str())),
        _ => None,
    }
}

fn guidance_line_for(d: &Diagnostic, config: &Config) -> (r: Option<String>)
    ensures
        match r {
            Some(x) => guidance_line(d@, *config) == Some(x@),
            None => guidance_line(d@, *config) is None,
        },
{
    let code = d.code;
    if str_eq(code, "commit.not-conventional") {
        line("write the subject as a Conventional Commit: `type(scope): description`, e.g. `fix(api): handle null ids`")
    } else if str_eq(code, "type.disallowed") {
        Some(types_line(&config.rules.allowed_types))
    } else if str_eq(code, "subject.too-long") {
        Some(length_line(config.rules.max_subject_length))
    } else if str_eq(code, "type.lowercased") {
        line("write the type in lowercase")
    } else if str_eq(code, "scope.lowercased") {
        line("write the scope in lowercase")
    } else if str_eq(code, "scope.replaced") {
        rewrite_guidance("scope", d)
    } else if str_eq(code, "description.lowercased") {
        line("write the description in lowercase")
    } else if str_eq(code, "description.replaced") {
        rewrite_guidance("description", d)
    } else if str_eq(code, "description.chars-stripped") {
        Some(strip_chars_line(config.description.strip_chars.as_slice()))
    } else if str_eq(code, "description.dots-stripped") {
        Some(dots_rule(config.description.internal_dots))
    } else if str_eq(code, "description.trailing-dot") {
        line("do not end the subject with a `.`")
    } else if str_eq(code, "description.whitespace-collapsed") {
        line("separate words with a single space")
    } else if str_eq(code, "description.trimmed") {
        line("no leading or trailing space in the description")
    } else if str_eq(code, "body.dropped") {
        line("the body is discarded — put everything that matters in the subject line")
    } else if str_eq(code, "footers.dropped") {
        Some(footers_dropped_line())
    } else if str_eq(code, "footer.denied") {
        Some(denied_footers_line(&config.footers.deny))
    } else if str_eq(code, "normalize.invalid-result") {
        line("write a description of plain words: after normalization it must not be empty")
    } else if str_eq(code, "subject.needs-rewording") {
        line("say the same thing in words rather than symbols: name the thing, do not paste its path, filename or package spec")
    } else if str_eq(code, "message.reformatted") {
        line("adopt the suggested message below as-is — its formatting (blank lines, footer spacing, breaking-change marker) is corrected structurally, not by any rule above")
    } else {
        None
    }
}

/// `line` appended unless already present.
pub open spec fn push_unique_spec(acc: Seq<Seq<char>>, line: Seq<char>) -> Seq<Seq<char>> {
    if acc.contains(line) {
        acc
    } else {
        acc.push(line)
    }
}

/// The instructions for the rules the diagnostics tripped, in order of
/// first appearance, each once.
pub open spec fn guidance_spec(diags: Seq<DiagnosticView>, c: Config) -> Seq<Seq<char>>
    decreases diags.len(),
{
    if diags.len() == 0 {
        Seq::empty()
    } else {
        let acc = guidance_spec(diags.drop_last(), c);
        match guidance_line(diags.last(), c) {
            Some(l) => push_unique_spec(acc, l),
            None => acc,
        }
    }
}

/// Appends `line` to `out` unless `out` already holds it.
pub fn push_unique(out: &mut Vec<String>, line: String)
    ensures
        views(final(out)@) == push_unique_spec(views(old(out)@), line@),
{
    let mut i: usize = 0;
    while i < out.len()
        invariant
            i <= out@.len(),
            out@ == old(out)@,
            forall|j: int| 0 <= j < i ==> views(out@)[j] != line@,
        decreases out@.len() - i,
    {
        if out[i] == line {
            proof {
                assert(views(out@)[i as int] == line@);
            }
            return ;
        }
        i += 1;
    }
    let ghost before = views(out@);
    out.push(line);
    proof {
        assert(views(out@) =~= before.push(line@));
    }
}

/// Instructions for the rules `diags` tripped, in a stable order and deduped.
pub fn guidance(diags: &[Diagnostic], config: &Config) -> (out: Vec<String>)
    ensures
        views(out@) == guidance_spec(crate::diagnostic::diag_views(diags@), *config),
{
    let mut out: Vec<String> = Vec::new();
    let ghost dv = crate::diagnostic::diag_views(diags@);
    let mut i: usize = 0;
    proof {
        assert(dv.take(0) =~= Seq::<DiagnosticView>::empty());
        assert(views(out@) =~= Seq::<Seq<char>>::empty());
    }
    while i < diags.len()
        invariant
            dv == crate::diagnostic::diag_views(diags@),
            i <= diags@.len(),
            views(out@) == guidance_spec(dv.take(i as int), *config),
        decreases diags@.len() - i,
    {
        proof {
            assert(dv.take(i + 1).drop_last() =~= dv.take(i as int));
            assert(dv.take(i + 1).last() == diags@[i as int]@);
        }
        match guidance_line_for(&diags[i], config) {
            Some(l) => push_unique(&mut out, l),
            None => {},
        }
        i += 1;
    }
    proof {
        assert(dv.take(diags@.len() as int) =~= dv);
    }
    out
}


// ---------------------------------------------------------------------------
// The whole ruleset
// ---------------------------------------------------------------------------

/// How one replace rule reads in the ruleset.
pub open spec fn rule_text(r: ReplaceView) -> Seq<char> {
    if r.regex {
        "the pattern `"@ + r.from + "` becomes `"@ + r.to + "`"@
    } else {
        "`"@ + r.from + "` becomes `"@ + r.to + "`"@
    }
}

/// A replace table described, or `None` when it is empty.
pub open spec fn replace_rule_line_spec(field: Seq<char>, rules: Seq<ReplaceView>) -> Option<Seq<char>> {
    if rules.len() == 0 {
        None
    } else {
        Some(
            "in the "@ + field + ", "@ + join_spec(rules.map_values(|r: ReplaceView| rule_text(r)), ", "@)
                + " — write the result directly"@,
        )
    }
}

fn rule_text_of(r: &Replace) -> (s: String)
    ensures
        s@ == rule_text(r@),
{
    let mut out = String::new();
    if r.regex {
        out.append("the pattern `");
    } else {
        out.append("`");
    }
    out.append(r.from.as_str());
    out.append("` becomes `");
    out.append(r.to.as_str());
    out.append("`");
    proof {
        assert(out@ =~= rule_text(r@));
    }
    out
}

/// Describe a `replace` table, or `None` when it is empty.
fn replace_rule_line(field: &str, rules: &Vec<Replace>) -> (r: Option<String>)
    ensures
        match r {
            Some(x) => replace_rule_line_spec(field@, crate::config::rule_views(rules@)) == Some(x@),
            None => replace_rule_line_spec(field@, crate::config::rule_views(rules@)) is None,
        },
{
    if rules.len() == 0 {
        return None;
    }
    let ghost rv = crate::config::rule_views(rules@);
    let mut pairs: Vec<String> = Vec::new();
    let mut i: usize = 0;
    while i < rules.len()
        invariant
            rv == crate::config::rule_views(rules@),
            i <= rules@.len(),
            views(pairs@) == rv.take(i as int).map_values(|r: ReplaceView| rule_text(r)),
        decreases rules@.len() - i,
    {
        let t = rule_text_of(&rules[i]);
        let ghost before = views(pairs@);
        pairs.push(t);
        i += 1;
        proof {
            assert(views(pairs@) =~= before.push(t@));
            assert(rv.take(i as int).map_values(|r: ReplaceView| rule_text(r)) =~= rv.take(
                i - 1,
            ).map_values(|r: ReplaceView| rule_text(r)).push(rule_text(rv[i - 1])));
        }
    }
    proof {
        assert(rv.take(rules@.len() as int) =~= rv);
    }
    let list = join(pairs.as_slice(), ", ");
    let mut out = String::new();
    out.append("in the ");
    out.append(field);
    out.append(", ");
    out.append(list.as_str());
    out.append(" — write the result directly");
    proof {
        assert(out@ =~= "in the "@ + field@ + ", "@ + list@ + " — write the result directly"@);
    }
    Some(out)
}

pub open spec fn line_if(cond: bool, l: Seq<char>) -> Seq<Seq<char>> {
    if cond {
        seq![l]
    } else {
        Seq::empty()
    }
}

pub open spec fn line_opt(l: Option<Seq<char>>) -> Seq<Seq<char>> {
    match l {
        Some(x) => seq![x],
        None => Seq::empty(),
    }
}

/// The rules about the shape of the message: conventional form, types, length.
pub open spec fn rules_shape(c: Config) -> Seq<Seq<char>> {
    let allowed = views(c.rules.allowed_types@);
    line_if(
        c.rules.require_conventional,
        "write the subject as a Conventional Commit: `type(scope): description`"@,
    ) + line_if(allowed.len() > 0, types_line_spec(allowed)) + seq![
        length_line_spec(c.rules.max_subject_length as nat),
    ]
}

/// The rules about case and the replace tables.
pub open spec fn rules_case(c: Config) -> Seq<Seq<char>> {
    line_if(c.type_.lowercase, "write the type in lowercase"@) + line_if(
        c.scope.lowercase,
        "write the scope in lowercase"@,
    ) + line_opt(replace_rule_line_spec("scope"@, crate::config::rule_views(c.scope.replace@)))
        + line_if(c.description.lowercase, "write the description in lowercase"@) + line_opt(
        replace_rule_line_spec("description"@, crate::config::rule_views(c.description.replace@)),
    )
}

/// The rules about characters, dots and spacing in the description.
pub open spec fn rules_chars(c: Config) -> Seq<Seq<char>> {
    let d = c.description;
    line_if(d.strip_chars@.len() > 0, strip_chars_line_spec(d.strip_chars@)) + seq![
        dots_rule_spec(d.internal_dots),
    ] + line_if(
        d.trailing_dot == TrailingDot::Strip && d.internal_dots == InternalDots::All,
        "do not end the subject with a `.`"@,
    ) + line_if(d.collapse_whitespace, "separate words with a single space"@) + seq![
        "no leading or trailing space in the description"@,
    ]
}

/// The rules about the body and the footers.
pub open spec fn rules_tail(c: Config) -> Seq<Seq<char>> {
    let deny = views(c.footers.deny@);
    line_if(
        !c.body.keep,
        "the body is discarded — put everything that matters in the subject line"@,
    ) + if c.footers.keep {
        line_if(deny.len() > 0, denied_footers_line_spec(deny))
    } else {
        seq![footers_dropped_line_spec()]
    }
}

/// The full active ruleset.
pub open spec fn rules_spec(c: Config) -> Seq<Seq<char>> {
    rules_shape(c) + rules_case(c) + rules_chars(c) + rules_tail(c)
}

fn push_line(out: &mut Vec<String>, l: String)
    ensures
        views(final(out)@) == views(old(out)@).push(l@),
{
    let ghost before = views(out@);
    out.push(l);
    proof {
        assert(views(out@) =~= before.push(l@));
    }
}

fn push_shape(out: &mut Vec<String>, config: &Config)
    ensures
        views(final(out)@) == views(old(out)@) + rules_shape(*config),
{
    let ghost start = views(out@);
    if config.rules.require_conventional {
        push_line(
            out,
            crate::text::to_owned(
                "write the subject as a Conventional Commit: `type(scope): description`",
            ),
        );
    }
    let ghost a = views(out@);
    if config.rules.allowed_types.len() > 0 {
        push_line(out, types_line(&config.rules.allowed_types));
    }
    let ghost b = views(out@);
    push_line(out, length_line(config.rules.max_subject_length));
    proof {
        assert(views(out@) =~= start + rules_shape(*config));
    }
}

fn push_opt(out: &mut Vec<String>, l: Option<String>)
    ensures
        views(final(out)@) == views(old(out)@) + match l {
            Some(x) => seq![x@],
            None => Seq::<Seq<char>>::empty(),
        },
{
    match l {
        Some(x) => push_line(out, x),
        None => {
            proof {
                assert(views(out@) =~= views(out@) + Seq::<Seq<char>>::empty());
            }
        },
    }
}

fn push_case(out: &mut Vec<String>, config: &Config)
    ensures
        views(final(out)@) == views(old(out)@) + rules_case(*config),
{
    let ghost start = views(out@);
    if config.type_.lowercase {
        push_line(out, crate::text::to_owned("write the type in lowercase"));
    }
    if config.scope.lowercase {
        push_line(out, crate::text::to_owned("write the scope in lowercase"));
    }
    push_opt(out, replace_rule_line("scope", &config.scope.replace));
    if config.description.lowercase {
        push_line(out, crate::text::to_owned("write the description in lowercase"));
    }
    push_opt(out, replace_rule_line("description", &config.description.replace));
    proof {
        assert(views(out@) =~= start + rules_case(*config));
    }
}

fn push_chars(out: &mut Vec<String>, config: &Config)
    ensures
        views(final(out)@) == views(old(out)@) + rules_chars(*config),
{
    let ghost start = views(out@);
    let d = &config.description;
    if d.strip_chars.len() > 0 {
        push_line(out, strip_chars_line(d.strip_chars.as_slice()));
    }
    push_line(out, dots_rule(d.internal_dots));
    if d.trailing_dot == TrailingDot::Strip && d.internal_dots == InternalDots::All {
        push_line(out, crate::text::to_owned("do not end the subject with a `.`"));
    }
    if d.collapse_whitespace {
        push_line(out, crate::text::to_owned("separate words with a single space"));
    }
    push_line(out, crate::text::to_owned("no leading or trailing space in the description"));
    proof {
        assert(views(out@) =~= start + rules_chars(*config));
    }
}

fn push_tail(out: &mut Vec<String>, config: &Config)
    ensures
        views(final(out)@) == views(old(out)@) + rules_tail(*config),
{
    let ghost start = views(out@);
    if !config.body.keep {
        push_line(
            out,
            crate::text::to_owned(
                "the body is discarded — put everything that matters in the subject line",
            ),
        );
    }
    if config.footers.keep {
        if config.footers.deny.len() > 0 {
            push_line(out, denied_footers_line(&config.footers.deny));
        }
    } else {
        push_line(out, footers_dropped_line());
    }
    proof {
        assert(views(out@) =~= start + rules_tail(*config));
    }
}

/// The full active ruleset, for `whittle rules`.
pub fn rules(config: &Config) -> (out: Vec<String>)
    ensures
        views(out@) == rules_spec(*config),
{
    let mut out: Vec<String> = Vec::new();
    proof {
        assert(views(out@) =~= Seq::<Seq<char>>::empty());
    }
    push_shape(&mut out, config);
    push_case(&mut out, config);
    push_chars(&mut out, config);
    push_tail(&mut out, config);
    proof {
        assert(views(out@) =~= rules_spec(*config));
    }
    out
}

} // verus!
