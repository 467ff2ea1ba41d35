//! The description cleanup settles in one pass: applying it to its own
//! output changes nothing.
use vstd::prelude::*;

use crate::config::{rule_views, Config, DescriptionConfig, InternalDots, ReplaceView, TrailingDot};
use crate::diagnostic::{DiagnosticView, Field};
use crate::text::{
    is_digit, is_ws, lowercase, replace_spec, trim_end_char_spec, trim_end_spec, trim_spec,
    trim_start_spec, views,
};
use crate::transform::{
    apply_rule, body_diags, body_value, chain_diags, chain_value, cleanup, collapse_ws_spec,
    desc_collapsed, desc_dotted, desc_replaced, desc_stripped, desc_trailing, description_diags,
    description_value, footers_diags, footers_value, is_denied, keeps_char, kept_prefix, lowered,
    scope_diags, scope_value, spacing_diags, step_diags, strip_chars_spec, strip_diags,
    transform_diags, transformed, type_diags, type_value, CommitPartsView, FooterView,
};

verus! {

/// Every character of `s` satisfies `u`.
pub open spec fn all_chars(s: Seq<char>, u: spec_fn(char) -> bool) -> bool {
    forall|i: int| 0 <= i < s.len() ==> u(#[trigger] s[i])
}

pub open spec fn not_in(set: Seq<char>) -> spec_fn(char) -> bool {
    |ch: char| !set.contains(ch)
}

pub open spec fn not_dot() -> spec_fn(char) -> bool {
    |ch: char| ch != '.'
}

/// A dot next to position `i` of `s` only ever touches a digit.
pub open spec fn dot_pair_at(s: Seq<char>, i: int) -> bool {
    (s[i] == '.' ==> is_digit(s[i + 1])) && (s[i + 1] == '.' ==> is_digit(s[i]))
}

pub open spec fn dot_pairs(s: Seq<char>) -> bool {
    forall|i: int| 0 <= i && i + 1 < s.len() ==> #[trigger] dot_pair_at(s, i)
}

pub open spec fn dot_ends(s: Seq<char>) -> bool {
    s.len() == 0 || (s[0] != '.' && s.last() != '.')
}

/// Whitespace at `i` is a single space not followed by more whitespace.
pub open spec fn ws_at(s: Seq<char>, i: int) -> bool {
    is_ws(s[i]) ==> s[i] == ' ' && (i + 1 < s.len() ==> !is_ws(s[i + 1]))
}

pub open spec fn collapsed(s: Seq<char>) -> bool {
    forall|i: int| 0 <= i < s.len() ==> #[trigger] ws_at(s, i)
}

pub open spec fn trimmed(s: Seq<char>) -> bool {
    s.len() == 0 || (!is_ws(s[0]) && !is_ws(s.last()))
}

pub open spec fn dots_settled(s: Seq<char>, mode: InternalDots) -> bool {
    match mode {
        InternalDots::All => true,
        InternalDots::NoDots => all_chars(s, not_dot()),
        InternalDots::KeepInNumbers => dot_pairs(s) && dot_ends(s),
    }
}

/// What the cleanup leaves: no stripped character, dots as configured,
/// whitespace collapsed when configured, nothing to trim.
pub open spec fn settled(x: Seq<char>, c: DescriptionConfig) -> bool {
    &&& all_chars(x, not_in(c.strip_chars@))
    &&& dots_settled(x, c.internal_dots)
    &&& (c.collapse_whitespace ==> collapsed(x))
    &&& trimmed(x)
}

/// The replacement for a character when whitespace collapses.
pub open spec fn collapsed_char(ch: char) -> char {
    if is_ws(ch) {
        ' '
    } else {
        ch
    }
}

// ---------------------------------------------------------------------------
// A settled description is a fixed point.
// ---------------------------------------------------------------------------

proof fn lemma_remove_dots_fixed(s: Seq<char>)
    requires
        all_chars(s, not_dot()),
    ensures
        replace_spec(s, "."@, ""@) == s,
    decreases s.len(),
{
    reveal_strlit(".");
    reveal_strlit("");
    if s.len() >= 1 {
        assert(not_dot()(s[0]));
        assert(s.take(1)[0] == s[0]);
        assert(s.take(1) != "."@);
        assert(all_chars(s.drop_first(), not_dot())) by {
            assert forall|i: int| 0 <= i < s.drop_first().len() implies not_dot()(
                #[trigger] s.drop_first()[i],
            ) by {
                assert(s.drop_first()[i] == s[i + 1]);
            }
        }
        lemma_remove_dots_fixed(s.drop_first());
        assert(seq![s[0]] + s.drop_first() =~= s);
    }
}

proof fn lemma_kept_prefix_all(s: Seq<char>, n: int)
    requires
        0 <= n <= s.len(),
        forall|i: int| 0 <= i < n ==> #[trigger] keeps_char(s, i),
    ensures
        kept_prefix(s, n) == s.take(n),
    decreases n,
{
    if n > 0 {
        lemma_kept_prefix_all(s, n - 1);
        assert(keeps_char(s, n - 1));
        assert(s.take(n - 1).push(s[n - 1]) =~= s.take(n));
    } else {
        assert(s.take(0) =~= Seq::<char>::empty());
    }
}

proof fn lemma_collapse_fixed(s: Seq<char>)
    requires
        collapsed(s),
    ensures
        collapse_ws_spec(s) == s,
    decreases s.len(),
{
    if s.len() > 0 {
        let d = s.drop_last();
        assert(collapsed(d)) by {
            assert forall|i: int| 0 <= i < d.len() implies #[trigger] ws_at(d, i) by {
                assert(ws_at(s, i));
            }
        }
        lemma_collapse_fixed(d);
        assert(ws_at(s, s.len() - 1));
        if s.len() >= 2 {
            assert(ws_at(s, s.len() - 2));
        }
        assert(d.push(s.last()) =~= s);
    }
}

proof fn lemma_trim_fixed(s: Seq<char>)
    requires
        trimmed(s),
    ensures
        trim_spec(s) == s,
{
    assert(trim_start_spec(s) == s);
    assert(trim_end_spec(s) == s);
}

proof fn lemma_settled_fixed(x: Seq<char>, c: DescriptionConfig)
    requires
        settled(x, c),
        !(c.internal_dots == InternalDots::All && c.trailing_dot == TrailingDot::Strip),
    ensures
        desc_stripped(x, c) == x,
        desc_dotted(x, c) == x,
        desc_trailing(x, c) == x,
        desc_collapsed(x, c) == x,
        trim_spec(x) == x,
        cleanup(x, c) == x,
{
    let set = c.strip_chars@;
    if set.len() > 0 {
        lemma_filter_keeps_all_of(x, not_in(set));
        assert(strip_chars_spec(x, set) == x.filter(not_in(set)));
    }
    assert(desc_stripped(x, c) == x);
    match c.internal_dots {
        InternalDots::All => {},
        InternalDots::NoDots => {
            lemma_remove_dots_fixed(x);
        },
        InternalDots::KeepInNumbers => {
            assert forall|i: int| 0 <= i < x.len() implies #[trigger] keeps_char(x, i) by {
                if x[i] == '.' {
                    if i > 0 {
                        assert(dot_pair_at(x, i - 1));
                    }
                    if i + 1 < x.len() {
                        assert(dot_pair_at(x, i));
                    }
                }
            }
            lemma_kept_prefix_all(x, x.len() as int);
            assert(x.take(x.len() as int) =~= x);
        },
    }
    assert(desc_dotted(x, c) == x);
    if c.trailing_dot == TrailingDot::Strip && x.len() > 0 {
        if c.internal_dots == InternalDots::NoDots {
            assert(not_dot()(x[x.len() - 1]));
        }
        assert(x.last() != '.');
    }
    assert(desc_trailing(x, c) == x);
    if c.collapse_whitespace {
        lemma_collapse_fixed(x);
    }
    assert(desc_collapsed(x, c) == x);
    lemma_trim_fixed(x);
}

// ---------------------------------------------------------------------------
// The cleanup leaves a settled description.
// ---------------------------------------------------------------------------

proof fn lemma_strip_settles(d: Seq<char>, set: Seq<char>)
    ensures
        all_chars(strip_chars_spec(d, set), not_in(set)),
{
    let r = strip_chars_spec(d, set);
    assert forall|i: int| 0 <= i < r.len() implies not_in(set)(#[trigger] r[i]) by {
        d.lemma_filter_pred(not_in(set), i);
        assert(strip_chars_spec(d, set) == d.filter(not_in(set)));
    }
}

proof fn lemma_remove_dots_chars(s: Seq<char>, u: spec_fn(char) -> bool)
    requires
        all_chars(s, u),
    ensures
        all_chars(replace_spec(s, "."@, ""@), u),
        all_chars(replace_spec(s, "."@, ""@), not_dot()),
    decreases s.len(),
{
    reveal_strlit(".");
    reveal_strlit("");
    let r = replace_spec(s, "."@, ""@);
    if s.len() >= 1 {
        if s.take(1) == "."@ {
            assert(all_chars(s.skip(1), u)) by {
                assert forall|i: int| 0 <= i < s.skip(1).len() implies u(#[trigger] s.skip(1)[i]) by {
                    assert(s.skip(1)[i] == s[i + 1]);
                }
            }
            lemma_remove_dots_chars(s.skip(1), u);
            assert(r =~= ""@ + replace_spec(s.skip(1), "."@, ""@));
            assert(r =~= replace_spec(s.skip(1), "."@, ""@));
        } else {
            assert(s[0] != '.') by {
                if s[0] == '.' {
                    assert(s.take(1) =~= "."@);
                }
            }
            assert(all_chars(s.drop_first(), u)) by {
                assert forall|i: int| 0 <= i < s.drop_first().len() implies u(
                    #[trigger] s.drop_first()[i],
                ) by {
                    assert(s.drop_first()[i] == s[i + 1]);
                }
            }
            lemma_remove_dots_chars(s.drop_first(), u);
            let rest = replace_spec(s.drop_first(), "."@, ""@);
            assert(r == seq![s[0]] + rest);
            assert(u(s[0]));
            assert forall|i: int| 0 <= i < r.len() implies u(#[trigger] r[i]) && not_dot()(r[i]) by {
                if i > 0 {
                    assert(r[i] == rest[i - 1]);
                }
            }
        }
    }
}

proof fn lemma_kept_prefix_chars(s: Seq<char>, n: int, u: spec_fn(char) -> bool)
    requires
        0 <= n <= s.len(),
        all_chars(s, u),
    ensures
        all_chars(kept_prefix(s, n), u),
    decreases n,
{
    if n > 0 {
        lemma_kept_prefix_chars(s, n - 1, u);
        let k = kept_prefix(s, n - 1);
        assert(u(s[n - 1]));
        assert forall|i: int| 0 <= i < k.push(s[n - 1]).len() implies u(
            #[trigger] k.push(s[n - 1])[i],
        ) by {
            if i < k.len() {
                assert(k.push(s[n - 1])[i] == k[i]);
            }
        }
    }
}

/// Dot stripping leaves every dot between two digits. A dot at the end of a
/// prefix is followed, in the full text, by a digit.
proof fn lemma_kept_prefix_dots(s: Seq<char>, n: int)
    requires
        0 <= n <= s.len(),
    ensures
        dot_pairs(kept_prefix(s, n)),
        kept_prefix(s, n).len() > 0 ==> kept_prefix(s, n)[0] != '.',
        kept_prefix(s, n).len() > 0 && kept_prefix(s, n).last() == '.' ==> n < s.len()
            && is_digit(s[n]),
        n > 0 && keeps_char(s, n - 1) ==> kept_prefix(s, n).len() > 0 && kept_prefix(s, n).last()
            == s[n - 1],
    decreases n,
{
    if n > 0 {
        lemma_kept_prefix_dots(s, n - 1);
        let k0 = kept_prefix(s, n - 1);
        let ch = s[n - 1];
        if keeps_char(s, n - 1) {
            let k = k0.push(ch);
            if ch == '.' {
                assert(keeps_char(s, n - 2));
            }
            assert forall|i: int| 0 <= i && i + 1 < k.len() implies #[trigger] dot_pair_at(k, i) by {
                if i + 1 < k0.len() {
                    assert(dot_pair_at(k0, i));
                }
            }
        }
    }
}

proof fn lemma_trim_end_char_prefix(s: Seq<char>, ch: char)
    ensures
        trim_end_char_spec(s, ch).len() <= s.len(),
        trim_end_char_spec(s, ch) == s.take(trim_end_char_spec(s, ch).len() as int),
        trim_end_char_spec(s, ch).len() == 0 || trim_end_char_spec(s, ch).last() != ch,
    decreases s.len(),
{
    if s.len() > 0 && s.last() == ch {
        lemma_trim_end_char_prefix(s.drop_last(), ch);
        let t = trim_end_char_spec(s.drop_last(), ch);
        assert(s.drop_last().take(t.len() as int) =~= s.take(t.len() as int));
    } else {
        assert(s.take(s.len() as int) =~= s);
    }
}

/// A prefix keeps the per-character and per-pair properties.
proof fn lemma_prefix_keeps(s: Seq<char>, e: int, u: spec_fn(char) -> bool)
    requires
        0 <= e <= s.len(),
    ensures
        all_chars(s, u) ==> all_chars(s.take(e), u),
        dot_pairs(s) ==> dot_pairs(s.take(e)),
{
    let t = s.take(e);
    if all_chars(s, u) {
        assert forall|i: int| 0 <= i < t.len() implies u(#[trigger] t[i]) by {
            assert(t[i] == s[i]);
        }
    }
    if dot_pairs(s) {
        assert forall|i: int| 0 <= i && i + 1 < t.len() implies #[trigger] dot_pair_at(t, i) by {
            assert(dot_pair_at(s, i));
        }
    }
}

proof fn lemma_collapse_ends(s: Seq<char>)
    requires
        s.len() > 0,
    ensures
        collapse_ws_spec(s).len() > 0,
        collapse_ws_spec(s).last() == collapsed_char(s.last()),
        collapse_ws_spec(s)[0] == collapsed_char(s[0]),
    decreases s.len(),
{
    if s.len() > 1 {
        lemma_collapse_ends(s.drop_last());
        let r = collapse_ws_spec(s.drop_last());
        assert(s.drop_last().last() == s[s.len() - 2]);
        assert(s.drop_last()[0] == s[0]);
        if !is_ws(s.last()) {
            assert(r.push(s.last())[0] == r[0]);
        } else if !is_ws(s[s.len() - 2]) {
            assert(r.push(' ')[0] == r[0]);
        }
    } else {
        assert(collapse_ws_spec(s.drop_last()).len() == 0);
        if is_ws(s.last()) {
            assert(collapse_ws_spec(s) == Seq::<char>::empty().push(' '));
        } else {
            assert(collapse_ws_spec(s) == Seq::<char>::empty().push(s.last()));
        }
    }
}

proof fn lemma_collapse_chars(s: Seq<char>, u: spec_fn(char) -> bool)
    requires
        all_chars(s, u),
        u(' '),
    ensures
        all_chars(collapse_ws_spec(s), u),
    decreases s.len(),
{
    if s.len() > 0 {
        let d = s.drop_last();
        assert(all_chars(d, u)) by {
            assert forall|i: int| 0 <= i < d.len() implies u(#[trigger] d[i]) by {
                assert(d[i] == s[i]);
            }
        }
        lemma_collapse_chars(d, u);
        let r = collapse_ws_spec(d);
        assert(u(s[s.len() - 1]));
        assert forall|i: int| 0 <= i < collapse_ws_spec(s).len() implies u(
            #[trigger] collapse_ws_spec(s)[i],
        ) by {
            if i < r.len() {
                assert(collapse_ws_spec(s)[i] == r[i]);
            }
        }
    }
}

proof fn lemma_collapse_collapsed(s: Seq<char>)
    ensures
        collapsed(collapse_ws_spec(s)),
    decreases s.len(),
{
    if s.len() > 0 {
        let d = s.drop_last();
        lemma_collapse_collapsed(d);
        let r = collapse_ws_spec(d);
        let out = collapse_ws_spec(s);
        if d.len() > 0 {
            lemma_collapse_ends(d);
            assert(d.last() == s[s.len() - 2]);
        }
        assert forall|i: int| 0 <= i < out.len() implies #[trigger] ws_at(out, i) by {
            if i < r.len() {
                assert(out[i] == r[i]);
                assert(ws_at(r, i));
                if i + 1 < r.len() {
                    assert(out[i + 1] == r[i + 1]);
                }
            }
        }
    }
}

proof fn lemma_collapse_dots(s: Seq<char>)
    requires
        dot_pairs(s),
    ensures
        dot_pairs(collapse_ws_spec(s)),
    decreases s.len(),
{
    if s.len() > 0 {
        let d = s.drop_last();
        assert(dot_pairs(d)) by {
            assert forall|i: int| 0 <= i && i + 1 < d.len() implies #[trigger] dot_pair_at(d, i) by {
                assert(dot_pair_at(s, i));
            }
        }
        lemma_collapse_dots(d);
        let r = collapse_ws_spec(d);
        let out = collapse_ws_spec(s);
        if d.len() > 0 {
            lemma_collapse_ends(d);
            assert(d.last() == s[s.len() - 2]);
            assert(dot_pair_at(s, s.len() - 2));
        }
        assert forall|i: int| 0 <= i && i + 1 < out.len() implies #[trigger] dot_pair_at(out, i) by {
            if i + 1 < r.len() {
                assert(out[i] == r[i]);
                assert(out[i + 1] == r[i + 1]);
                assert(dot_pair_at(r, i));
            } else {
                assert(out[i] == r[i]);
            }
        }
    }
}

/// Trimming keeps a middle section: everything before it and after it is
/// whitespace, and its ends are not.
proof fn lemma_trim_start_at(s: Seq<char>) -> (a: int)
    ensures
        0 <= a <= s.len(),
        trim_start_spec(s) == s.skip(a),
        forall|j: int| 0 <= j < a ==> is_ws(#[trigger] s[j]),
        a < s.len() ==> !is_ws(s[a]),
    decreases s.len(),
{
    if s.len() > 0 && is_ws(s[0]) {
        let a1 = lemma_trim_start_at(s.drop_first());
        assert(s.drop_first().skip(a1) =~= s.skip(a1 + 1));
        assert forall|j: int| 0 <= j < a1 + 1 implies is_ws(#[trigger] s[j]) by {
            if j > 0 {
                assert(s[j] == s.drop_first()[j - 1]);
            }
        }
        if a1 + 1 < s.len() {
            assert(s[a1 + 1] == s.drop_first()[a1]);
        }
        a1 + 1
    } else {
        assert(s.skip(0) =~= s);
        0
    }
}

proof fn lemma_trim_end_at(s: Seq<char>) -> (e: int)
    ensures
        0 <= e <= s.len(),
        trim_end_spec(s) == s.take(e),
        forall|j: int| e <= j < s.len() ==> is_ws(#[trigger] s[j]),
        e > 0 ==> !is_ws(s[e - 1]),
    decreases s.len(),
{
    if s.len() > 0 && is_ws(s.last()) {
        let e1 = lemma_trim_end_at(s.drop_last());
        assert(s.drop_last().take(e1) =~= s.take(e1));
        assert forall|j: int| e1 <= j < s.len() implies is_ws(#[trigger] s[j]) by {
            if j < s.len() - 1 {
                assert(s[j] == s.drop_last()[j]);
            }
        }
        if e1 > 0 {
            assert(s[e1 - 1] == s.drop_last()[e1 - 1]);
        }
        e1
    } else {
        assert(s.take(s.len() as int) =~= s);
        s.len() as int
    }
}

proof fn lemma_trim_settles(s: Seq<char>, u: spec_fn(char) -> bool)
    ensures
        trimmed(trim_spec(s)),
        all_chars(s, u) ==> all_chars(trim_spec(s), u),
        dot_pairs(s) ==> dot_pairs(trim_spec(s)),
        dot_pairs(s) && dot_ends(s) ==> dot_ends(trim_spec(s)),
        collapsed(s) ==> collapsed(trim_spec(s)),
{
    let a = lemma_trim_start_at(s);
    let t = s.skip(a);
    let e = lemma_trim_end_at(t);
    let x = t.take(e);
    assert(trim_spec(s) == x);
    assert forall|i: int| 0 <= i < x.len() implies #[trigger] x[i] == s[a + i] by {}
    if x.len() > 0 {
        assert(x[0] == t[0]);
        assert(x.last() == t[e - 1]);
    }
    if all_chars(s, u) {
        assert forall|i: int| 0 <= i < x.len() implies u(#[trigger] x[i]) by {
            assert(x[i] == s[a + i]);
        }
    }
    if dot_pairs(s) {
        assert forall|i: int| 0 <= i && i + 1 < x.len() implies #[trigger] dot_pair_at(x, i) by {
            assert(x[i] == s[a + i]);
            assert(x[i + 1] == s[a + i + 1]);
            assert(dot_pair_at(s, a + i));
        }
        if dot_ends(s) && x.len() > 0 {
            if a > 0 {
                assert(dot_pair_at(s, a - 1));
                assert(is_ws(s[a - 1]));
            }
            if a + e < s.len() {
                assert(t[e] == s[a + e]);
                assert(is_ws(t[e]));
                assert(dot_pair_at(s, a + e - 1));
            }
        }
    }
    if collapsed(s) {
        assert forall|i: int| 0 <= i < x.len() implies #[trigger] ws_at(x, i) by {
            assert(ws_at(s, a + i));
            if i + 1 < x.len() {
                assert(x[i + 1] == s[a + i + 1]);
            }
        }
    }
}

/// The cleaned description is settled: trimmed, free of the stripped
/// characters, with whitespace collapsed to single spaces when configured,
/// and with its dots as configured (none at all, or each between two
/// digits). It needs the same restrictions as idempotence.
pub proof fn cleanup_settles_the_description(d: Seq<char>, c: DescriptionConfig)
    requires
        !(c.internal_dots == InternalDots::All && c.trailing_dot == TrailingDot::Strip),
        c.collapse_whitespace ==> !c.strip_chars@.contains(' '),
    ensures
        settled(cleanup(d, c), c),
{
    let set = c.strip_chars@;
    let u = not_in(set);
    let s1 = desc_stripped(d, c);
    if set.len() > 0 {
        lemma_strip_settles(d, set);
    }
    assert(all_chars(s1, u));
    let s2 = desc_dotted(s1, c);
    match c.internal_dots {
        InternalDots::All => {},
        InternalDots::NoDots => {
            lemma_remove_dots_chars(s1, u);
        },
        InternalDots::KeepInNumbers => {
            lemma_kept_prefix_chars(s1, s1.len() as int, u);
            lemma_kept_prefix_dots(s1, s1.len() as int);
        },
    }
    assert(all_chars(s2, u));
    assert(dots_settled(s2, c.internal_dots));
    let s3 = desc_trailing(s2, c);
    if c.trailing_dot == TrailingDot::Strip {
        lemma_trim_end_char_prefix(s2, '.');
        let e = s3.len() as int;
        lemma_prefix_keeps(s2, e, u);
        lemma_prefix_keeps(s2, e, not_dot());
        if s3.len() > 0 {
            assert(s3[0] == s2[0]);
        }
    }
    assert(all_chars(s3, u));
    assert(dots_settled(s3, c.internal_dots));
    let s4 = desc_collapsed(s3, c);
    if c.collapse_whitespace {
        assert(u(' '));
        lemma_collapse_chars(s3, u);
        lemma_collapse_collapsed(s3);
        match c.internal_dots {
            InternalDots::All => {},
            InternalDots::NoDots => {
                lemma_collapse_chars(s3, not_dot());
            },
            InternalDots::KeepInNumbers => {
                lemma_collapse_dots(s3);
                if s3.len() > 0 {
                    lemma_collapse_ends(s3);
                }
            },
        }
    }
    assert(all_chars(s4, u));
    assert(dots_settled(s4, c.internal_dots));
    lemma_trim_settles(s4, u);
    lemma_trim_settles(s4, not_dot());
}

/// With dots kept only in numbers, every dot of a settled description sits
/// between two ASCII digits.
pub proof fn settled_dots_sit_between_digits(x: Seq<char>, c: DescriptionConfig)
    requires
        settled(x, c),
        c.internal_dots == InternalDots::KeepInNumbers,
    ensures
        forall|i: int|
            0 <= i < x.len() && #[trigger] x[i] == '.' ==> crate::transform::dot_between_digits(
                x,
                i,
            ),
{
    assert forall|i: int| 0 <= i < x.len() && #[trigger] x[i] == '.' implies crate::transform::dot_between_digits(x, i) by {
        if i > 0 {
            assert(dot_pair_at(x, i - 1));
        }
        if i + 1 < x.len() {
            assert(dot_pair_at(x, i));
        }
    }
}

/// The description the normalization leaves is settled.
pub proof fn normalized_description_is_settled(p: CommitPartsView, c: Config)
    requires
        !(c.description.internal_dots == InternalDots::All && c.description.trailing_dot
            == TrailingDot::Strip),
        c.description.collapse_whitespace ==> !c.description.strip_chars@.contains(' '),
    ensures
        settled(transformed(p, c).description, c.description),
{
    cleanup_settles_the_description(desc_replaced(p.description, c.description), c.description);
}

/// The description cleanup (strip the configured characters, strip dots,
/// strip a trailing dot, collapse whitespace, trim) is idempotent: cleaning
/// a cleaned description changes nothing. It needs a dot rule other than
/// keeping every dot while stripping a trailing one, and, when whitespace
/// collapses, a space that is not among the stripped characters.
pub proof fn description_cleanup_is_idempotent(d: Seq<char>, c: DescriptionConfig)
    requires
        !(c.internal_dots == InternalDots::All && c.trailing_dot == TrailingDot::Strip),
        c.collapse_whitespace ==> !c.strip_chars@.contains(' '),
    ensures
        cleanup(cleanup(d, c), c) == cleanup(d, c),
{
    cleanup_settles_the_description(d, c);
    lemma_settled_fixed(cleanup(d, c), c);
}

/// The built-in description settings meet both conditions, so with them the
/// cleanup always settles in one pass.
pub proof fn default_cleanup_is_idempotent(d: Seq<char>, c: Config)
    requires
        crate::config::is_default_config(c),
    ensures
        cleanup(cleanup(d, c.description), c.description) == cleanup(d, c.description),
{
    let set = c.description.strip_chars@;
    assert(!set.contains(' ')) by {
        if set.contains(' ') {
            let i = choose|i: int| 0 <= i < set.len() && set[i] == ' ';
            assert(set == crate::config::default_strip_chars());
        }
    }
    description_cleanup_is_idempotent(d, c.description);
}

// ---------------------------------------------------------------------------
// The whole normalization
// ---------------------------------------------------------------------------

/// Each replace rule leaves `s` as it is.
pub open spec fn rules_keep(s: Seq<char>, rules: Seq<ReplaceView>) -> bool {
    forall|i: int| 0 <= i < rules.len() ==> #[trigger] apply_rule(s, rules[i]) == s
}

/// Lowercasing (where configured) and each replace rule leave the
/// normalized type, scope and description as they are.
pub open spec fn case_and_rules_settle(p: CommitPartsView, c: Config) -> bool {
    let q = transformed(p, c);
    &&& (c.type_.lowercase ==> lowercase(q.type_) == q.type_)
    &&& match q.scope {
        Some(s) => (c.scope.lowercase ==> lowercase(s) == s) && rules_keep(
            s,
            rule_views(c.scope.replace@),
        ),
        None => true,
    }
    &&& (c.description.lowercase ==> lowercase(q.description) == q.description)
    &&& rules_keep(q.description, rule_views(c.description.replace@))
}

proof fn lemma_chain_keeps(s: Seq<char>, rules: Seq<ReplaceView>, code: Seq<char>, field: Field)
    requires
        rules_keep(s, rules),
    ensures
        chain_value(s, rules) == s,
        chain_diags(s, rules, code, field).len() == 0,
    decreases rules.len(),
{
    if rules.len() > 0 {
        assert(rules_keep(s, rules.drop_last())) by {
            assert forall|i: int| 0 <= i < rules.drop_last().len() implies #[trigger] apply_rule(
                s,
                rules.drop_last()[i],
            ) == s by {
                assert(rules.drop_last()[i] == rules[i]);
            }
        }
        lemma_chain_keeps(s, rules.drop_last(), code, field);
        assert(apply_rule(s, rules[rules.len() - 1]) == s);
    }
}

proof fn lemma_filter_keeps_all_of<A>(s: Seq<A>, pred: spec_fn(A) -> bool)
    requires
        forall|i: int| 0 <= i < s.len() ==> pred(#[trigger] s[i]),
    ensures
        s.filter(pred) == s,
    decreases s.len(),
{
    reveal(Seq::filter);
    if s.len() > 0 {
        assert forall|i: int| 0 <= i < s.drop_last().len() implies pred(
            #[trigger] s.drop_last()[i],
        ) by {
            assert(s.drop_last()[i] == s[i]);
        }
        lemma_filter_keeps_all_of(s.drop_last(), pred);
        assert(pred(s[s.len() - 1]));
        assert(s.drop_last().push(s.last()) =~= s);
    }
}

proof fn lemma_filter_drops_all_of<A>(s: Seq<A>, pred: spec_fn(A) -> bool)
    requires
        forall|i: int| 0 <= i < s.len() ==> !pred(#[trigger] s[i]),
    ensures
        s.filter(pred).len() == 0,
    decreases s.len(),
{
    reveal(Seq::filter);
    if s.len() > 0 {
        assert forall|i: int| 0 <= i < s.drop_last().len() implies !pred(
            #[trigger] s.drop_last()[i],
        ) by {
            assert(s.drop_last()[i] == s[i]);
        }
        lemma_filter_drops_all_of(s.drop_last(), pred);
        assert(!pred(s[s.len() - 1]));
    }
}

/// The normalization is idempotent as far as its own steps go: when
/// lowercasing and the replace rules leave the normalized type, scope and
/// description unchanged, a second pass changes nothing and reports
/// nothing. (The cleanup steps always settle in one pass; lowercasing and
/// the replace rules are not known to.) The same restrictions as for the
/// description cleanup apply.
pub proof fn transform_is_idempotent(p: CommitPartsView, c: Config)
    requires
        !(c.description.internal_dots == InternalDots::All && c.description.trailing_dot
            == TrailingDot::Strip),
        c.description.collapse_whitespace ==> !c.description.strip_chars@.contains(' '),
        case_and_rules_settle(p, c),
    ensures
        transformed(transformed(p, c), c) == transformed(p, c),
        transform_diags(transformed(p, c), c).len() == 0,
{
    let q = transformed(p, c);
    let dc = c.description;
    // type
    assert(type_value(q.type_, c) == q.type_);
    assert(type_diags(q.type_, c).len() == 0);
    // scope
    if let Some(s) = q.scope {
        lemma_chain_keeps(s, rule_views(c.scope.replace@), "scope.replaced"@, Field::Scope);
        assert(lowered(s, c.scope.lowercase) == s);
        assert(scope_value(q.scope, c) == q.scope);
        assert(scope_diags(q.scope, c).len() == 0);
    }
    // description
    let x = q.description;
    cleanup_settles_the_description(desc_replaced(p.description, dc), dc);
    lemma_settled_fixed(x, dc);
    assert(lowered(x, dc.lowercase) == x);
    lemma_chain_keeps(x, rule_views(dc.replace@), "description.replaced"@, Field::Description);
    assert(desc_replaced(x, dc) == x);
    assert(description_value(x, dc) == x);
    assert(strip_diags(x, dc).len() == 0);
    assert(spacing_diags(x, dc).len() == 0);
    assert(description_diags(x, dc).len() == 0);
    // body
    assert(body_value(q.body, c.body.keep) == q.body);
    assert(body_diags(q.body, c.body.keep).len() == 0);
    // footers
    let deny = views(c.footers.deny@);
    if c.footers.keep {
        let keep = |f: FooterView| !is_denied(f.token, deny);
        let fs = q.footers;
        assert(fs == p.footers.filter(keep));
        assert forall|i: int| 0 <= i < fs.len() implies keep(#[trigger] fs[i]) by {
            p.footers.lemma_filter_pred(keep, i);
        }
        lemma_filter_keeps_all_of(fs, keep);
        lemma_filter_drops_all_of(fs, |f: FooterView| is_denied(f.token, deny));
        assert(footers_value(fs, c.footers) == fs);
    }
    assert(footers_diags(q.footers, c.footers).len() == 0);
    assert(transformed(q, c) == q);
    assert(transform_diags(q, c) =~= Seq::<DiagnosticView>::empty());
}

} // verus!
