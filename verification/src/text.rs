//! Character-level text utilities, each with the exact behaviour of the
//! `str` operation it stands for stated as a spec function over `Seq<char>`.
use vstd::prelude::*;
use vstd::std_specs::iter::IteratorSpec;

verus! {

// ---------------------------------------------------------------------------
// Character classes
// ---------------------------------------------------------------------------

/// The Unicode `White_Space` property, as `char::is_whitespace` and the
/// regex class `\s` define it.
pub open spec fn is_ws(c: char) -> bool {
    ||| ('\t' <= c && c <= '\r')
    ||| c == ' '
    ||| c == '\u{85}'
    ||| c == '\u{A0}'
    ||| c == '\u{1680}'
    ||| ('\u{2000}' <= c && c <= '\u{200A}')
    ||| c == '\u{2028}'
    ||| c == '\u{2029}'
    ||| c == '\u{202F}'
    ||| c == '\u{205F}'
    ||| c == '\u{3000}'
}

pub open spec fn is_digit(c: char) -> bool {
    '0' <= c && c <= '9'
}

/// ASCII case folding of one character; every other character is unchanged.
pub open spec fn ascii_lower(c: char) -> char {
    if 'A' <= c && c <= 'Z' {
        ((c as u32) + 32) as char
    } else {
        c
    }
}

pub fn is_whitespace(c: char) -> (b: bool)
    ensures
        b == is_ws(c),
{
    ('\t' <= c && c <= '\r') || c == ' ' || c == '\u{85}' || c == '\u{A0}' || c == '\u{1680}'
        || ('\u{2000}' <= c && c <= '\u{200A}') || c == '\u{2028}' || c == '\u{2029}' || c
        == '\u{202F}' || c == '\u{205F}' || c == '\u{3000}'
}

pub fn is_ascii_digit(c: char) -> (b: bool)
    ensures
        b == is_digit(c),
{
    '0' <= c && c <= '9'
}

fn to_ascii_lower(c: char) -> (r: char)
    ensures
        r == ascii_lower(c),
{
    if 'A' <= c && c <= 'Z' {
        let b: u8 = (c as u32) as u8;
        (b + 32) as char
    } else {
        c
    }
}

// ---------------------------------------------------------------------------
// Conversions between strings and characters
// ---------------------------------------------------------------------------

/// The characters of `s`, in order.
pub fn to_chars(s: &str) -> (out: Vec<char>)
    ensures
        out@ == s@,
{
    let mut out: Vec<char> = Vec::new();
    let mut it = s.chars();
    proof {
        broadcast use vstd::string::group_string_axioms;
    }
    loop
        invariant
            it.obeys_prophetic_iter_laws(),
            out@ + it.remaining() == s@,
            it.decrease() is Some,
        ensures
            out@ == s@,
        decreases it.decrease()->0,
    {
        proof {
            broadcast use vstd::string::group_string_axioms;
        }
        match it.next() {
            Some(c) => {
                out.push(c);
            },
            None => {
                break ;
            },
        }
    }
    out
}

/// `FromIterator<char> for String`: the string made of `chars`, in order.
#[verifier::external_body]
pub(crate) fn from_chars(chars: &[char]) -> (s: String)
    ensures
        s@ == chars@,
{
    chars.iter().collect()
}

/// A string holding a copy of `s`.
pub fn to_owned(s: &str) -> (r: String)
    ensures
        r@ == s@,
{
    s.to_owned()
}

fn chars_eq(a: &[char], b: &[char]) -> (r: bool)
    ensures
        r == (a@ == b@),
{
    if a.len() != b.len() {
        return false;
    }
    let mut i: usize = 0;
    while i < a.len()
        invariant
            a@.len() == b@.len(),
            i <= a@.len(),
            forall|j: int| 0 <= j < i ==> a@[j] == b@[j],
        decreases a@.len() - i,
    {
        if a[i] != b[i] {
            return false;
        }
        i += 1;
    }
    assert(a@ =~= b@);
    true
}

/// `str == str`.
pub fn str_eq(a: &str, b: &str) -> (r: bool)
    ensures
        r == (a@ == b@),
{
    let x = to_chars(a);
    let y = to_chars(b);
    chars_eq(x.as_slice(), y.as_slice())
}

// ---------------------------------------------------------------------------
// ASCII-case-insensitive equality
// ---------------------------------------------------------------------------

/// `str::eq_ignore_ascii_case`: equal once every ASCII letter is folded to
/// lowercase (non-ASCII characters must match exactly).
pub open spec fn eq_ignore_ascii_case_spec(a: Seq<char>, b: Seq<char>) -> bool {
    &&& a.len() == b.len()
    &&& forall|i: int| 0 <= i < a.len() ==> ascii_lower(#[trigger] a[i]) == ascii_lower(b[i])
}

pub fn eq_ignore_ascii_case(a: &str, b: &str) -> (r: bool)
    ensures
        r == eq_ignore_ascii_case_spec(a@, b@),
{
    let x = to_chars(a);
    let y = to_chars(b);
    if x.len() != y.len() {
        return false;
    }
    let mut i: usize = 0;
    while i < x.len()
        invariant
            x@ == a@,
            y@ == b@,
            x@.len() == y@.len(),
            i <= x@.len(),
            forall|j: int| 0 <= j < i ==> ascii_lower(#[trigger] a@[j]) == ascii_lower(b@[j]),
        decreases x@.len() - i,
    {
        if to_ascii_lower(x[i]) != to_ascii_lower(y[i]) {
            return false;
        }
        i += 1;
    }
    true
}

// ---------------------------------------------------------------------------
// Trimming
// ---------------------------------------------------------------------------

/// `str::trim_start`: leading whitespace removed.
pub open spec fn trim_start_spec(s: Seq<char>) -> Seq<char>
    decreases s.len(),
{
    if s.len() > 0 && is_ws(s[0]) {
        trim_start_spec(s.drop_first())
    } else {
        s
    }
}

/// `str::trim_end`: trailing whitespace removed.
pub open spec fn trim_end_spec(s: Seq<char>) -> Seq<char>
    decreases s.len(),
{
    if s.len() > 0 && is_ws(s.last()) {
        trim_end_spec(s.drop_last())
    } else {
        s
    }
}

/// `str::trim`: leading and trailing whitespace removed.
pub open spec fn trim_spec(s: Seq<char>) -> Seq<char> {
    trim_end_spec(trim_start_spec(s))
}

/// `str::trim_end_matches(c)` for one character `c`.
pub open spec fn trim_end_char_spec(s: Seq<char>, c: char) -> Seq<char>
    decreases s.len(),
{
    if s.len() > 0 && s.last() == c {
        trim_end_char_spec(s.drop_last(), c)
    } else {
        s
    }
}

proof fn lemma_trim_start_skip(s: Seq<char>, i: int)
    requires
        0 <= i <= s.len(),
        forall|j: int| 0 <= j < i ==> is_ws(#[trigger] s[j]),
    ensures
        trim_start_spec(s) == trim_start_spec(s.skip(i)),
    decreases i,
{
    if i > 0 {
        assert(s.skip(1) =~= s.drop_first());
        lemma_trim_start_skip(s.drop_first(), i - 1);
        assert(s.drop_first().skip(i - 1) =~= s.skip(i));
    } else {
        assert(s.skip(0) =~= s);
    }
}

proof fn lemma_trim_end_take(s: Seq<char>, e: int)
    requires
        0 <= e <= s.len(),
        forall|j: int| e <= j < s.len() ==> is_ws(#[trigger] s[j]),
    ensures
        trim_end_spec(s) == trim_end_spec(s.take(e)),
    decreases s.len() - e,
{
    if e < s.len() {
        lemma_trim_end_take(s.drop_last(), e);
        assert(s.drop_last().take(e) =~= s.take(e));
    } else {
        assert(s.take(e) =~= s);
    }
}

proof fn lemma_trim_end_char_take(s: Seq<char>, c: char, e: int)
    requires
        0 <= e <= s.len(),
        forall|j: int| e <= j < s.len() ==> #[trigger] s[j] == c,
    ensures
        trim_end_char_spec(s, c) == trim_end_char_spec(s.take(e), c),
    decreases s.len() - e,
{
    if e < s.len() {
        lemma_trim_end_char_take(s.drop_last(), c, e);
        assert(s.drop_last().take(e) =~= s.take(e));
    } else {
        assert(s.take(e) =~= s);
    }
}

/// Index bounds `(start, end)` of `trim_spec(s@)` within `s`.
fn trim_bounds(s: &[char]) -> (r: (usize, usize))
    ensures
        r.0 <= r.1 <= s@.len(),
        s@.subrange(r.0 as int, r.1 as int) == trim_spec(s@),
{
    let mut start: usize = 0;
    while start < s.len() && is_whitespace(s[start])
        invariant
            start <= s@.len(),
            forall|j: int| 0 <= j < start ==> is_ws(#[trigger] s@[j]),
        decreases s@.len() - start,
    {
        start += 1;
    }
    proof {
        lemma_trim_start_skip(s@, start as int);
    }
    let ghost t = s@.skip(start as int);
    assert(trim_start_spec(t) == t);
    let mut end: usize = s.len();
    while end > start && is_whitespace(s[end - 1])
        invariant
            start <= end <= s@.len(),
            t == s@.skip(start as int),
            forall|j: int| end - start <= j < t.len() ==> is_ws(#[trigger] t[j]),
        decreases end,
    {
        end -= 1;
    }
    proof {
        lemma_trim_end_take(t, end - start);
        assert(t.take(end - start) =~= s@.subrange(start as int, end as int));
    }
    (start, end)
}

/// `str::trim`.
pub fn trim(s: &str) -> (r: String)
    ensures
        r@ == trim_spec(s@),
{
    let v = to_chars(s);
    let (a, b) = trim_bounds(v.as_slice());
    from_chars(&v.as_slice()[a..b])
}

/// `str::trim_end`.
pub fn trim_end(s: &str) -> (r: String)
    ensures
        r@ == trim_end_spec(s@),
{
    let v = to_chars(s);
    let mut end: usize = v.len();
    while end > 0 && is_whitespace(v[end - 1])
        invariant
            end <= v@.len(),
            forall|j: int| end <= j < v@.len() ==> is_ws(#[trigger] v@[j]),
        decreases end,
    {
        end -= 1;
    }
    proof {
        lemma_trim_end_take(v@, end as int);
    }
    from_chars(&v.as_slice()[0..end])
}

/// `str::trim_end_matches(c)` for one character `c`.
pub fn trim_end_char(s: &str, c: char) -> (r: String)
    ensures
        r@ == trim_end_char_spec(s@, c),
{
    let v = to_chars(s);
    let mut end: usize = v.len();
    while end > 0 && v[end - 1] == c
        invariant
            end <= v@.len(),
            forall|j: int| end <= j < v@.len() ==> #[trigger] v@[j] == c,
        decreases end,
    {
        end -= 1;
    }
    proof {
        lemma_trim_end_char_take(v@, c, end as int);
    }
    from_chars(&v.as_slice()[0..end])
}


// ---------------------------------------------------------------------------
// Splitting
// ---------------------------------------------------------------------------

/// `str::split` on every character that satisfies `sep`: the pieces between
/// separators, always at least one (the empty string gives one empty piece).
pub open spec fn split_spec(s: Seq<char>, sep: spec_fn(char) -> bool) -> Seq<Seq<char>>
    decreases s.len(),
{
    if s.len() == 0 {
        seq![Seq::<char>::empty()]
    } else {
        let pieces = split_spec(s.drop_last(), sep);
        if sep(s.last()) {
            pieces.push(Seq::<char>::empty())
        } else {
            pieces.update(pieces.len() - 1, pieces.last().push(s.last()))
        }
    }
}

proof fn lemma_split_nonempty(s: Seq<char>, sep: spec_fn(char) -> bool)
    ensures
        split_spec(s, sep).len() >= 1,
    decreases s.len(),
{
    if s.len() > 0 {
        lemma_split_nonempty(s.drop_last(), sep);
    }
}

pub open spec fn is_newline(c: char) -> bool {
    c == '\n'
}

pub open spec fn strip_cr(l: Seq<char>) -> Seq<char> {
    if l.len() > 0 && l.last() == '\r' {
        l.drop_last()
    } else {
        l
    }
}

/// `str::lines`: the pieces between `\n` separators, each that ended in a
/// `\n` stripped of one trailing `\r`; a final empty piece is not a line.
pub open spec fn lines_spec(s: Seq<char>) -> Seq<Seq<char>> {
    let pieces = split_spec(s, |c: char| is_newline(c));
    let ended = pieces.drop_last().map_values(|l: Seq<char>| strip_cr(l));
    if pieces.last().len() == 0 {
        ended
    } else {
        ended.push(pieces.last())
    }
}

/// `str::split_whitespace`: the non-empty pieces between whitespace.
pub open spec fn words_spec(s: Seq<char>) -> Seq<Seq<char>> {
    split_spec(s, |c: char| is_ws(c)).filter(|w: Seq<char>| w.len() > 0)
}

pub open spec fn views(v: Seq<String>) -> Seq<Seq<char>> {
    v.map_values(|x: String| x@)
}

/// `str::lines`.
pub fn lines(s: &str) -> (r: Vec<String>)
    ensures
        views(r@) == lines_spec(s@),
{
    let v = to_chars(s);
    let ghost sep = |c: char| is_newline(c);
    let mut done: Vec<String> = Vec::new();
    let mut cur: Vec<char> = Vec::new();
    let mut i: usize = 0;
    proof {
        assert(v@.take(0) =~= Seq::<char>::empty());
    }
    while i < v.len()
        invariant
            v@ == s@,
            sep == (|c: char| is_newline(c)),
            i <= v@.len(),
            split_spec(v@.take(i as int), sep).len() >= 1,
            views(done@) == split_spec(v@.take(i as int), sep).drop_last().map_values(
                |l: Seq<char>| strip_cr(l),
            ),
            cur@ == split_spec(v@.take(i as int), sep).last(),
        decreases v@.len() - i,
    {
        let ghost prev = v@.take(i as int);
        proof {
            assert(v@.take(i + 1).drop_last() =~= prev);
            assert(v@.take(i + 1).last() == v@[i as int]);
            assert(v@.take(i + 1).len() > 0);
            lemma_split_nonempty(prev, sep);
        }
        let c = v[i];
        if c == '\n' {
            let mut line_end = cur.len();
            if line_end > 0 && cur[line_end - 1] == '\r' {
                line_end -= 1;
            }
            let line = from_chars(&cur.as_slice()[0..line_end]);
            proof {
                assert(line@ =~= strip_cr(cur@));
            }
            let ghost old_done = done@;
            done.push(line);
            cur = Vec::new();
            proof {
                let p = split_spec(prev, sep);
                assert(split_spec(v@.take(i + 1), sep) == p.push(Seq::<char>::empty()));
                assert(p.push(Seq::<char>::empty()).drop_last() =~= p);
                assert(p.map_values(|l: Seq<char>| strip_cr(l)) =~= p.drop_last().map_values(
                    |l: Seq<char>| strip_cr(l),
                ).push(strip_cr(p.last())));
                assert(views(done@) =~= views(old_done).push(line@));
            }
        } else {
            cur.push(c);
            proof {
                let p = split_spec(prev, sep);
                let q = p.update(p.len() - 1, p.last().push(c));
                assert(split_spec(v@.take(i + 1), sep) == q);
                assert(q.drop_last() =~= p.drop_last());
            }
        }
        i += 1;
    }
    proof {
        assert(v@.take(v@.len() as int) =~= v@);
    }
    if cur.len() > 0 {
        let last = from_chars(cur.as_slice());
        let ghost old_done = done@;
        done.push(last);
        proof {
            assert(views(done@) =~= views(old_done).push(last@));
        }
    }
    done
}


/// `str::split_whitespace`.
pub fn split_whitespace(s: &str) -> (r: Vec<String>)
    ensures
        views(r@) == words_spec(s@),
{
    let v = to_chars(s);
    let ghost sep = |c: char| is_ws(c);
    let ghost nonempty = |w: Seq<char>| w.len() > 0;
    let mut done: Vec<String> = Vec::new();
    let mut cur: Vec<char> = Vec::new();
    let mut i: usize = 0;
    proof {
        assert(v@.take(0) =~= Seq::<char>::empty());
        reveal(Seq::filter);
        assert(split_spec(v@.take(0), sep).drop_last() =~= Seq::<Seq<char>>::empty());
    }
    while i < v.len()
        invariant
            v@ == s@,
            sep == (|c: char| is_ws(c)),
            nonempty == (|w: Seq<char>| w.len() > 0),
            i <= v@.len(),
            split_spec(v@.take(i as int), sep).len() >= 1,
            views(done@) == split_spec(v@.take(i as int), sep).drop_last().filter(nonempty),
            cur@ == split_spec(v@.take(i as int), sep).last(),
        decreases v@.len() - i,
    {
        let ghost prev = v@.take(i as int);
        proof {
            assert(v@.take(i + 1).drop_last() =~= prev);
            lemma_split_nonempty(prev, sep);
            reveal(Seq::filter);
        }
        let c = v[i];
        if is_whitespace(c) {
            let ghost p = split_spec(prev, sep);
            if cur.len() > 0 {
                let word = from_chars(cur.as_slice());
                let ghost old_done = done@;
                done.push(word);
                proof {
                    assert(p.drop_last().push(p.last()) =~= p);
                    assert(views(done@) =~= views(old_done).push(word@));
                }
            } else {
                proof {
                    assert(p.drop_last().push(p.last()) =~= p);
                }
            }
            cur = Vec::new();
            proof {
                assert(split_spec(v@.take(i + 1), sep) == p.push(Seq::<char>::empty()));
                assert(p.push(Seq::<char>::empty()).drop_last() =~= p);
            }
        } else {
            cur.push(c);
            proof {
                let p = split_spec(prev, sep);
                let q = p.update(p.len() - 1, p.last().push(c));
                assert(split_spec(v@.take(i + 1), sep) == q);
                assert(q.drop_last() =~= p.drop_last());
            }
        }
        i += 1;
    }
    proof {
        assert(v@.take(v@.len() as int) =~= v@);
        reveal(Seq::filter);
        let p = split_spec(v@, sep);
        lemma_split_nonempty(v@, sep);
        assert(p.drop_last().push(p.last()) =~= p);
    }
    if cur.len() > 0 {
        let last = from_chars(cur.as_slice());
        let ghost old_done = done@;
        done.push(last);
        proof {
            assert(views(done@) =~= views(old_done).push(last@));
        }
    }
    done
}

// ---------------------------------------------------------------------------
// Literal replacement
// ---------------------------------------------------------------------------

/// `to` before every character of `s` and once more at the end: what
/// `str::replace` makes of an empty pattern.
pub open spec fn interleave_spec(s: Seq<char>, to: Seq<char>) -> Seq<char>
    decreases s.len(),
{
    if s.len() == 0 {
        to
    } else {
        to + seq![s[0]] + interleave_spec(s.drop_first(), to)
    }
}

/// `str::replace(from, to)`: every non-overlapping occurrence of `from`,
/// found left to right, replaced by `to`.
pub open spec fn replace_spec(s: Seq<char>, from: Seq<char>, to: Seq<char>) -> Seq<char>
    decreases s.len(),
{
    if from.len() == 0 {
        interleave_spec(s, to)
    } else if s.len() < from.len() {
        s
    } else if s.take(from.len() as int) == from {
        to + replace_spec(s.skip(from.len() as int), from, to)
    } else {
        seq![s[0]] + replace_spec(s.drop_first(), from, to)
    }
}

fn push_all(out: &mut Vec<char>, s: &[char])
    ensures
        final(out)@ == old(out)@ + s@,
{
    let mut i: usize = 0;
    while i < s.len()
        invariant
            i <= s@.len(),
            out@ == old(out)@ + s@.take(i as int),
        decreases s@.len() - i,
    {
        out.push(s[i]);
        i += 1;
        proof {
            assert(s@.take(i as int) =~= s@.take(i - 1).push(s@[i - 1]));
        }
    }
    proof {
        assert(s@.take(s@.len() as int) =~= s@);
    }
}

fn replace_chars(s: &[char], from: &[char], to: &[char]) -> (r: Vec<char>)
    ensures
        r@ == replace_spec(s@, from@, to@),
{
    let mut out: Vec<char> = Vec::new();
    let mut i: usize = 0;
    proof {
        assert(s@.skip(0) =~= s@);
        assert(out@ + replace_spec(s@, from@, to@) =~= replace_spec(s@, from@, to@));
    }
    if from.len() == 0 {
        while i < s.len()
            invariant
                from@.len() == 0,
                i <= s@.len(),
                out@ + interleave_spec(s@.skip(i as int), to@) == replace_spec(s@, from@, to@),
            decreases s@.len() - i,
        {
            let ghost rest = s@.skip(i as int);
            let ghost out0 = out@;
            push_all(&mut out, to);
            out.push(s[i]);
            proof {
                assert(rest.drop_first() =~= s@.skip(i + 1));
                assert(out@ =~= out0 + to@ + seq![s@[i as int]]);
                assert(out@ + interleave_spec(s@.skip(i + 1), to@) =~= out0 + interleave_spec(
                    rest,
                    to@,
                ));
            }
            i += 1;
        }
        push_all(&mut out, to);
        proof {
            assert(s@.skip(i as int) =~= Seq::<char>::empty());
        }
        return out;
    }
    while i < s.len()
        invariant
            from@.len() > 0,
            i <= s@.len(),
            out@ + replace_spec(s@.skip(i as int), from@, to@) == replace_spec(s@, from@, to@),
        ensures
            i <= s@.len(),
            s@.len() - i < from@.len(),
            out@ + replace_spec(s@.skip(i as int), from@, to@) == replace_spec(s@, from@, to@),
        decreases s@.len() - i,
    {
        let ghost rest = s@.skip(i as int);
        if s.len() - i < from.len() {
            break ;
        }
        let window = &s[i..i + from.len()];
        proof {
            assert(window@ =~= rest.take(from@.len() as int));
        }
        if chars_eq(window, from) {
            let ghost before = out@;
            push_all(&mut out, to);
            proof {
                assert(rest.skip(from@.len() as int) =~= s@.skip(i + from@.len()));
                assert(before + (to@ + replace_spec(s@.skip(i + from@.len()), from@, to@))
                    =~= out@ + replace_spec(s@.skip(i + from@.len()), from@, to@));
            }
            i += from.len();
        } else {
            let ghost before = out@;
            out.push(s[i]);
            proof {
                assert(rest.drop_first() =~= s@.skip(i + 1));
                assert(before + (seq![s@[i as int]] + replace_spec(s@.skip(i + 1), from@, to@))
                    =~= out@ + replace_spec(s@.skip(i + 1), from@, to@));
            }
            i += 1;
        }
    }
    push_all(&mut out, &s[i..s.len()]);
    proof {
        assert(s@.subrange(i as int, s@.len() as int) =~= s@.skip(i as int));
    }
    out
}

/// `str::replace(from, to)`.
pub fn replace_literal(s: &str, from: &str, to: &str) -> (r: String)
    ensures
        r@ == replace_spec(s@, from@, to@),
{
    let a = to_chars(s);
    let b = to_chars(from);
    let c = to_chars(to);
    let out = replace_chars(a.as_slice(), b.as_slice(), c.as_slice());
    from_chars(out.as_slice())
}


/// Decodes the two-character sequence `\n` (backslash, `n`) into a newline.
pub fn unescape(s: &str) -> (r: String)
    ensures
        r@ == replace_spec(s@, seq!['\\', 'n'], seq!['\n']),
{
    let from: [char; 2] = ['\\', 'n'];
    let to: [char; 1] = ['\n'];
    let a = to_chars(s);
    let out = replace_chars(a.as_slice(), from.as_slice(), to.as_slice());
    proof {
        assert(from@ =~= seq!['\\', 'n']);
        assert(to@ =~= seq!['\n']);
    }
    from_chars(out.as_slice())
}

// ---------------------------------------------------------------------------
// Numbers, case, joining
// ---------------------------------------------------------------------------

pub open spec fn digit_char(d: nat) -> char {
    ((48 + d) as u8) as char
}

/// The decimal representation of `n`, as `Display for usize` writes it.
pub open spec fn decimal_spec(n: nat) -> Seq<char>
    decreases n,
{
    if n < 10 {
        seq![digit_char(n)]
    } else {
        decimal_spec(n / 10).push(digit_char(n % 10))
    }
}

fn decimal_chars(n: usize) -> (r: Vec<char>)
    ensures
        r@ == decimal_spec(n as nat),
    decreases n,
{
    let d: u8 = (n % 10) as u8;
    let c = (48u8 + d) as char;
    if n < 10 {
        let mut r: Vec<char> = Vec::new();
        r.push(c);
        proof {
            assert(r@ =~= seq![c]);
        }
        r
    } else {
        let mut r = decimal_chars(n / 10);
        r.push(c);
        r
    }
}

/// `usize::to_string`.
pub fn usize_to_string(n: usize) -> (r: String)
    ensures
        r@ == decimal_spec(n as nat),
{
    let v = decimal_chars(n);
    from_chars(v.as_slice())
}

/// The one-character string `c`.
pub fn char_to_string(c: char) -> (r: String)
    ensures
        r@ == seq![c],
{
    let v: [char; 1] = [c];
    proof {
        assert(v@ =~= seq![c]);
    }
    from_chars(v.as_slice())
}

/// What `str::to_lowercase` returns for a string: Unicode lowercase mapping,
/// defined by the Unicode `Lowercase` property tables that `std` ships.
pub uninterp spec fn lowercase(s: Seq<char>) -> Seq<char>;

/// `str::to_lowercase`. The result is named, not stated: it is the Unicode
/// lowercase mapping of `s` (including context-dependent rules such as the
/// final sigma), a function of `s` alone.
#[verifier::external_body]
pub(crate) fn to_lowercase(s: &str) -> (r: String)
    ensures
        r@ == lowercase(s@),
{
    s.to_lowercase()
}

/// `[String]::join(sep)`.
pub open spec fn join_spec(parts: Seq<Seq<char>>, sep: Seq<char>) -> Seq<char>
    decreases parts.len(),
{
    if parts.len() == 0 {
        Seq::<char>::empty()
    } else if parts.len() == 1 {
        parts[0]
    } else {
        join_spec(parts.drop_last(), sep) + sep + parts.last()
    }
}

/// `[String]::join(sep)`.
pub fn join(parts: &[String], sep: &str) -> (r: String)
    ensures
        r@ == join_spec(views(parts@), sep@),
{
    let mut out = String::new();
    let mut i: usize = 0;
    while i < parts.len()
        invariant
            i <= parts@.len(),
            out@ == join_spec(views(parts@.take(i as int)), sep@),
        decreases parts@.len() - i,
    {
        proof {
            assert(parts@.take(i + 1).drop_last() =~= parts@.take(i as int));
            assert(views(parts@.take(i + 1)).drop_last() =~= views(parts@.take(i as int)));
        }
        if i > 0 {
            out.append(sep);
        }
        out.append(parts[i].as_str());
        i += 1;
    }
    proof {
        assert(parts@.take(parts@.len() as int) =~= parts@);
    }
    out
}


/// Whether some entry of `list` equals `s` ignoring ASCII case.
pub open spec fn any_eq_ignore_ascii_case(list: Seq<Seq<char>>, s: Seq<char>) -> bool {
    exists|i: int| 0 <= i < list.len() && eq_ignore_ascii_case_spec(#[trigger] list[i], s)
}

pub fn contains_ignore_ascii_case(list: &Vec<String>, s: &str) -> (r: bool)
    ensures
        r == any_eq_ignore_ascii_case(views(list@), s@),
{
    let mut i: usize = 0;
    while i < list.len()
        invariant
            i <= list@.len(),
            forall|j: int|
                0 <= j < i ==> !eq_ignore_ascii_case_spec(#[trigger] views(list@)[j], s@),
        decreases list@.len() - i,
    {
        if eq_ignore_ascii_case(list[i].as_str(), s) {
            proof {
                assert(views(list@)[i as int] == list@[i as int]@);
            }
            return true;
        }
        i += 1;
    }
    false
}


/// The number of bytes of the UTF-8 encoding of `c`.
pub open spec fn utf8_width(c: char) -> nat {
    let n = c as u32;
    if n < 0x80 {
        1
    } else if n < 0x800 {
        2
    } else if n < 0x10000 {
        3
    } else {
        4
    }
}

/// The number of bytes of the UTF-8 encoding of `s`: what `str::len` returns.
pub open spec fn utf8_len(s: Seq<char>) -> nat
    decreases s.len(),
{
    if s.len() == 0 {
        0
    } else {
        utf8_len(s.drop_last()) + utf8_width(s.last())
    }
}

proof fn lemma_utf8_len_mono(s: Seq<char>, i: int, j: int)
    requires
        0 <= i <= j <= s.len(),
    ensures
        utf8_len(s.take(i)) <= utf8_len(s.take(j)),
    decreases j - i,
{
    if i < j {
        lemma_utf8_len_mono(s, i, j - 1);
        assert(s.take(j).drop_last() =~= s.take(j - 1));
    }
}

/// Whether `s.len()` (its UTF-8 byte length) exceeds `limit`.
pub fn utf8_len_exceeds(s: &str, limit: usize) -> (r: bool)
    ensures
        r == (utf8_len(s@) > limit),
{
    let v = to_chars(s);
    let mut total: usize = 0;
    let mut i: usize = 0;
    while i < v.len()
        invariant
            v@ == s@,
            i <= v@.len(),
            total == utf8_len(v@.take(i as int)),
            total <= limit,
        decreases v@.len() - i,
    {
        proof {
            assert(v@.take(i + 1).drop_last() =~= v@.take(i as int));
        }
        let n = v[i] as u32;
        let w: usize = if n < 0x80 {
            1
        } else if n < 0x800 {
            2
        } else if n < 0x10000 {
            3
        } else {
            4
        };
        i += 1;
        if w > limit - total {
            proof {
                lemma_utf8_len_mono(v@, i as int, v@.len() as int);
                assert(v@.take(v@.len() as int) =~= v@);
            }
            return true;
        }
        total += w;
    }
    proof {
        assert(v@.take(v@.len() as int) =~= v@);
    }
    false
}

} // verus!
