//! Character-level text utilities shared by the other modules.
//!
//! Unicode character classes and case mappings come from `std` and are
//! named by uninterpreted spec functions; everything built on top of them
//! (splitting, trimming, replacing, number rendering) is verified here.

use vstd::prelude::*;

verus! {

broadcast use vstd::string::group_string_axioms;

/// Whether a character has the Unicode `White_Space` property, which is
/// what `char::is_whitespace` reports: tab to carriage return, space,
/// next line, no-break space, ogham space mark, the spaces from en quad to
/// hair space, the line and paragraph separators, narrow no-break space,
/// medium mathematical space and ideographic space.
pub open spec fn char_is_whitespace(c: char) -> bool {
    ||| '\t' <= c && c <= '\r'
    ||| c == ' '
    ||| c == '\u{85}'
    ||| c == '\u{a0}'
    ||| c == '\u{1680}'
    ||| '\u{2000}' <= c && c <= '\u{200a}'
    ||| c == '\u{2028}'
    ||| c == '\u{2029}'
    ||| c == '\u{202f}'
    ||| c == '\u{205f}'
    ||| c == '\u{3000}'
}

/// An ASCII character (code below 128).
pub open spec fn is_ascii_char(c: char) -> bool {
    (c as u32) < 128
}

/// An ASCII letter or digit.
pub open spec fn is_ascii_alphanumeric(c: char) -> bool {
    ('0' <= c && c <= '9') || ('a' <= c && c <= 'z') || ('A' <= c && c <= 'Z')
}

/// The ASCII lower-case form of a character (others unchanged).
pub open spec fn ascii_lower(c: char) -> char {
    if 'A' <= c && c <= 'Z' {
        ((c as u32) + 32) as char
    } else {
        c
    }
}

/// The ASCII upper-case form of a character (others unchanged).
pub open spec fn ascii_upper(c: char) -> char {
    if 'a' <= c && c <= 'z' {
        ((c as u32) - 32) as char
    } else {
        c
    }
}

/// What `char::is_alphanumeric` returns for a character.
pub uninterp spec fn char_is_alphanumeric(c: char) -> bool;

/// What `char::is_uppercase` returns for a character.
pub uninterp spec fn char_is_uppercase(c: char) -> bool;

/// The characters that `char::to_uppercase` yields for a character.
pub uninterp spec fn char_uppercase(c: char) -> Seq<char>;

/// The characters of `str::to_lowercase` applied to a string.
pub uninterp spec fn str_lowercase(s: Seq<char>) -> Seq<char>;

/// Calls `char::is_whitespace`, which reports the Unicode `White_Space`
/// property spelled out by [`char_is_whitespace`].
#[verifier::external_body]
pub(crate) fn is_whitespace(c: char) -> (b: bool)
    ensures
        b == char_is_whitespace(c),
{
    c.is_whitespace()
}

/// Calls `char::is_alphanumeric`; the result is the named class. Among
/// ASCII characters it holds exactly of letters and digits.
#[verifier::external_body]
pub(crate) fn is_alphanumeric(c: char) -> (b: bool)
    ensures
        b == char_is_alphanumeric(c),
        is_ascii_char(c) ==> (b <==> is_ascii_alphanumeric(c)),
{
    c.is_alphanumeric()
}

/// Calls `char::is_uppercase`; the result is the named class. Among
/// ASCII characters it holds exactly of `A` to `Z`.
#[verifier::external_body]
pub(crate) fn is_uppercase(c: char) -> (b: bool)
    ensures
        b == char_is_uppercase(c),
        is_ascii_char(c) ==> (b <==> ('A' <= c && c <= 'Z')),
{
    c.is_uppercase()
}

/// Calls `char::to_uppercase` and collects the characters it yields; an
/// ASCII character gives its ASCII upper-case form.
#[verifier::external_body]
pub(crate) fn uppercase_char(c: char) -> (s: String)
    ensures
        s@ == char_uppercase(c),
        is_ascii_char(c) ==> s@ == seq![ascii_upper(c)],
{
    c.to_uppercase().collect::<String>()
}

/// Calls `str::to_lowercase`; the result is the named mapping. ASCII
/// text is lower-cased character by character, keeping its length.
#[verifier::external_body]
pub(crate) fn to_lowercase(s: &str) -> (r: String)
    ensures
        r@ == str_lowercase(s@),
        vstd::utf8::is_ascii_chars(s@) ==> r@ == s@.map_values(|c: char| ascii_lower(c)),
{
    s.to_lowercase()
}

/// Calls `String::push`, which appends one character.
#[verifier::external_body]
pub(crate) fn push_char(s: &mut String, c: char)
    ensures
        final(s)@ == old(s)@.push(c),
{
    s.push(c);
}

/// The characters of a string slice, in order.
pub fn chars_of(s: &str) -> (v: Vec<char>)
    ensures
        v@ == s@,
{
    let mut v: Vec<char> = Vec::new();
    for c in it: s.chars()
        invariant
            it.seq() == s@,
            v@ == it.seq().take(it.index() as int),
    {
        v.push(c);
    }
    v
}

/// A string made of the given characters.
pub fn string_of(v: &Vec<char>) -> (s: String)
    ensures
        s@ == v@,
{
    let mut s = String::new();
    let mut i: usize = 0;
    while i < v.len()
        invariant
            i <= v.len(),
            s@ == v@.take(i as int),
        decreases v.len() - i,
    {
        push_char(&mut s, v[i]);
        i = i + 1;
        assert(v@.take(i as int) == v@.take((i - 1) as int).push(v@[i - 1]));
    }
    assert(v@.take(v.len() as int) == v@);
    s
}

// ---------------------------------------------------------------------
// Whitespace splitting (the semantics of `str::split_whitespace`)
// ---------------------------------------------------------------------

/// The state after reading `s` from left to right while splitting on
/// whitespace: the tokens completed so far, and the token being read.
pub open spec fn ws_scan(s: Seq<char>) -> (Seq<Seq<char>>, Seq<char>)
    decreases s.len(),
{
    if s.len() == 0 {
        (Seq::empty(), Seq::empty())
    } else {
        let (done, cur) = ws_scan(s.drop_last());
        let c = s.last();
        if char_is_whitespace(c) {
            if cur.len() > 0 {
                (done.push(cur), Seq::empty())
            } else {
                (done, Seq::empty())
            }
        } else {
            (done, cur.push(c))
        }
    }
}

/// The maximal runs of non-whitespace characters of `s`, in order.
pub open spec fn ws_tokens(s: Seq<char>) -> Seq<Seq<char>> {
    let (done, cur) = ws_scan(s);
    if cur.len() > 0 {
        done.push(cur)
    } else {
        done
    }
}

/// The views of a sequence of character vectors.
pub open spec fn views(v: Seq<Vec<char>>) -> Seq<Seq<char>> {
    v.map_values(|x: Vec<char>| x@)
}

/// Splits on whitespace as `str::split_whitespace` does.
pub fn split_whitespace(s: &Vec<char>) -> (tokens: Vec<Vec<char>>)
    ensures
        views(tokens@) == ws_tokens(s@),
{
    let mut done: Vec<Vec<char>> = Vec::new();
    let mut cur: Vec<char> = Vec::new();
    let mut i: usize = 0;
    while i < s.len()
        invariant
            i <= s.len(),
            (views(done@), cur@) == ws_scan(s@.take(i as int)),
        decreases s.len() - i,
    {
        let c = s[i];
        assert(s@.take(i + 1).drop_last() == s@.take(i as int));
        if is_whitespace(c) {
            if cur.len() > 0 {
                let finished = cur;
                cur = Vec::new();
                done.push(finished);
                assert(views(done@) =~= views(done@.drop_last()).push(finished@));
            } else {
                cur = Vec::new();
            }
        } else {
            cur.push(c);
        }
        i = i + 1;
    }
    assert(s@.take(s.len() as int) == s@);
    if cur.len() > 0 {
        let ghost before = done@;
        done.push(cur);
        assert(views(done@) =~= views(before).push(cur@));
    }
    done
}

// ---------------------------------------------------------------------
// Trimming (the semantics of `str::trim`, `trim_start`, `trim_end`)
// ---------------------------------------------------------------------

/// `s` without its trailing whitespace.
pub open spec fn trim_end_ws(s: Seq<char>) -> Seq<char>
    decreases s.len(),
{
    if s.len() > 0 && char_is_whitespace(s.last()) {
        trim_end_ws(s.drop_last())
    } else {
        s
    }
}

/// `s` without its leading whitespace.
pub open spec fn trim_start_ws(s: Seq<char>) -> Seq<char>
    decreases s.len(),
{
    if s.len() > 0 && char_is_whitespace(s[0]) {
        trim_start_ws(s.drop_first())
    } else {
        s
    }
}

/// `s` without leading and trailing whitespace.
pub open spec fn trim_ws(s: Seq<char>) -> Seq<char> {
    trim_start_ws(trim_end_ws(s))
}

/// Removes trailing whitespace.
pub fn trim_end(s: &Vec<char>) -> (r: Vec<char>)
    ensures
        r@ == trim_end_ws(s@),
{
    let mut j: usize = s.len();
    assert(s@.take(j as int) == s@);
    while j > 0 && is_whitespace(s[j - 1])
        invariant
            j <= s.len(),
            trim_end_ws(s@) == trim_end_ws(s@.take(j as int)),
        decreases j,
    {
        assert(s@.take(j as int).drop_last() == s@.take(j - 1));
        j = j - 1;
    }
    let r = slice_chars(s, 0, j);
    r
}

/// Removes leading and trailing whitespace.
pub fn trim(s: &Vec<char>) -> (r: Vec<char>)
    ensures
        r@ == trim_ws(s@),
{
    let t = trim_end(s);
    let mut i: usize = 0;
    assert(t@.skip(0) == t@);
    while i < t.len() && is_whitespace(t[i])
        invariant
            i <= t.len(),
            trim_start_ws(t@) == trim_start_ws(t@.skip(i as int)),
        decreases t.len() - i,
    {
        assert(t@.skip(i as int).drop_first() == t@.skip(i + 1));
        i = i + 1;
    }
    let r = slice_chars(&t, i, t.len());
    assert(r@ == t@.skip(i as int));
    r
}

/// The characters of `s` from `lo` (inclusive) to `hi` (exclusive).
pub fn slice_chars(s: &Vec<char>, lo: usize, hi: usize) -> (r: Vec<char>)
    requires
        lo <= hi <= s.len(),
    ensures
        r@ == s@.subrange(lo as int, hi as int),
{
    let mut r: Vec<char> = Vec::new();
    let mut k: usize = lo;
    while k < hi
        invariant
            lo <= k <= hi <= s.len(),
            r@ == s@.subrange(lo as int, k as int),
        decreases hi - k,
    {
        r.push(s[k]);
        k = k + 1;
    }
    r
}

// ---------------------------------------------------------------------
// Replacement (the semantics of `str::replace` for a non-empty pattern)
// ---------------------------------------------------------------------

/// `s` with every non-overlapping occurrence of `pat`, taken from left to
/// right, replaced by `rep`.
pub open spec fn replace_all(s: Seq<char>, pat: Seq<char>, rep: Seq<char>) -> Seq<char>
    decreases s.len(),
{
    if pat.len() == 0 || s.len() < pat.len() {
        s
    } else if s.take(pat.len() as int) == pat {
        rep + replace_all(s.skip(pat.len() as int), pat, rep)
    } else {
        seq![s[0]] + replace_all(s.skip(1), pat, rep)
    }
}

/// Whether `pat` occurs in `s` at position `at`.
pub fn matches_at(s: &Vec<char>, at: usize, pat: &Vec<char>) -> (b: bool)
    requires
        at <= s.len(),
    ensures
        b == (at + pat.len() <= s.len() && s@.subrange(at as int, at + pat.len()) == pat@),
{
    if pat.len() > s.len() - at {
        return false;
    }
    let mut k: usize = 0;
    while k < pat.len()
        invariant
            k <= pat.len(),
            at + pat.len() <= s.len(),
            forall|m: int| 0 <= m < k ==> s@[at + m] == pat@[m],
        decreases pat.len() - k,
    {
        if s[at + k] != pat[k] {
            assert(s@.subrange(at as int, at + pat.len())[k as int] != pat@[k as int]);
            return false;
        }
        k = k + 1;
    }
    assert(s@.subrange(at as int, at + pat.len()) =~= pat@);
    true
}

/// Replaces every occurrence of a non-empty pattern, as `str::replace` does.
pub fn replace(s: &Vec<char>, pat: &Vec<char>, rep: &Vec<char>) -> (r: Vec<char>)
    requires
        pat.len() > 0,
    ensures
        r@ == replace_all(s@, pat@, rep@),
{
    let mut out: Vec<char> = Vec::new();
    let mut i: usize = 0;
    assert(s@.skip(0) == s@);
    while i < s.len()
        invariant
            i <= s.len(),
            pat.len() > 0,
            out@ + replace_all(s@.skip(i as int), pat@, rep@) == replace_all(s@, pat@, rep@),
        decreases s.len() - i,
    {
        let ghost rest = s@.skip(i as int);
        if matches_at(s, i, pat) {
            assert(rest.take(pat.len() as int) == s@.subrange(i as int, i + pat.len()));
            assert(rest.skip(pat.len() as int) == s@.skip(i + pat.len()));
            let ghost before = out@;
            let mut k: usize = 0;
            while k < rep.len()
                invariant
                    k <= rep.len(),
                    out@ == before + rep@.take(k as int),
                decreases rep.len() - k,
            {
                out.push(rep[k]);
                k = k + 1;
            }
            assert(rep@.take(rep.len() as int) == rep@);
            assert(out@ + replace_all(s@.skip(i + pat.len()), pat@, rep@) == before + (rep@ + replace_all(rest.skip(pat.len() as int), pat@, rep@)));
            i = i + pat.len();
        } else {
            proof {
                if rest.len() >= pat.len() {
                    assert(rest.take(pat.len() as int) == s@.subrange(i as int, i + pat.len()));
                } else {
                    assert(rest =~= seq![rest[0]] + rest.skip(1));
                }
            }
            assert(rest.skip(1) == s@.skip(i + 1));
            assert(rest[0] == s@[i as int]);
            let ghost before = out@;
            out.push(s[i]);
            assert(out@ + replace_all(s@.skip(i + 1), pat@, rep@) == before + (seq![rest[0]] + replace_all(rest.skip(1), pat@, rep@)));
            i = i + 1;
        }
    }
    assert(s@.skip(s.len() as int) =~= Seq::<char>::empty());
    assert(out@ + Seq::<char>::empty() == out@);
    out
}

// ---------------------------------------------------------------------
// ASCII case-insensitive comparison (`str::eq_ignore_ascii_case`)
// ---------------------------------------------------------------------

/// The code of `c` with ASCII upper-case letters mapped to lower case.
pub open spec fn ascii_fold(c: char) -> u32 {
    if 65 <= (c as u32) <= 90 {
        ((c as u32) + 32) as u32
    } else {
        c as u32
    }
}

/// Two strings are equal up to ASCII case.
pub open spec fn same_ignoring_ascii_case(a: Seq<char>, b: Seq<char>) -> bool {
    &&& a.len() == b.len()
    &&& forall|i: int| 0 <= i < a.len() ==> #[trigger] ascii_fold(a[i]) == ascii_fold(b[i])
}

fn fold_char(c: char) -> (r: u32)
    ensures
        r == ascii_fold(c),
{
    let code = c as u32;
    if 65 <= code && code <= 90 {
        code + 32
    } else {
        code
    }
}

/// Compares two strings ignoring ASCII case, as `str::eq_ignore_ascii_case`.
pub fn eq_ignore_ascii_case(a: &Vec<char>, b: &Vec<char>) -> (r: bool)
    ensures
        r == same_ignoring_ascii_case(a@, b@),
{
    if a.len() != b.len() {
        return false;
    }
    let mut i: usize = 0;
    while i < a.len()
        invariant
            i <= a.len(),
            a.len() == b.len(),
            forall|k: int| 0 <= k < i ==> #[trigger] ascii_fold(a@[k]) == ascii_fold(b@[k]),
        decreases a.len() - i,
    {
        if fold_char(a[i]) != fold_char(b[i]) {
            return false;
        }
        i = i + 1;
    }
    true
}

// ---------------------------------------------------------------------
// Prefixes and suffixes
// ---------------------------------------------------------------------

/// `p` is a prefix of `s`.
pub open spec fn has_prefix(s: Seq<char>, p: Seq<char>) -> bool {
    p.len() <= s.len() && s.take(p.len() as int) == p
}

/// `p` is a suffix of `s`.
pub open spec fn has_suffix(s: Seq<char>, p: Seq<char>) -> bool {
    p.len() <= s.len() && s.skip(s.len() - p.len()) == p
}

/// Whether `s` starts with `p` (`str::starts_with`).
pub fn starts_with(s: &Vec<char>, p: &Vec<char>) -> (b: bool)
    ensures
        b == has_prefix(s@, p@),
{
    let b = matches_at(s, 0, p);
    proof {
        if p.len() <= s.len() {
            assert(s@.subrange(0, p.len() as int) == s@.take(p.len() as int));
        }
    }
    b
}

/// Whether `s` ends with `p` (`str::ends_with`).
pub fn ends_with(s: &Vec<char>, p: &Vec<char>) -> (b: bool)
    ensures
        b == has_suffix(s@, p@),
{
    if p.len() > s.len() {
        return false;
    }
    let b = matches_at(s, s.len() - p.len(), p);
    assert(s@.subrange(s.len() - p.len(), s.len() as int) == s@.skip(s.len() - p.len()));
    b
}

// ---------------------------------------------------------------------
// Decimal rendering of natural numbers (`{}` and `{:02}` formatting)
// ---------------------------------------------------------------------

/// The ASCII digit for `d` (which is below ten).
pub open spec fn digit_char(d: int) -> char {
    if d == 0 { '0' }
    else if d == 1 { '1' }
    else if d == 2 { '2' }
    else if d == 3 { '3' }
    else if d == 4 { '4' }
    else if d == 5 { '5' }
    else if d == 6 { '6' }
    else if d == 7 { '7' }
    else if d == 8 { '8' }
    else { '9' }
}

/// The decimal digits of `n`, most significant first, without leading zeros.
pub open spec fn decimal(n: nat) -> Seq<char>
    decreases n,
{
    if n < 10 {
        seq![digit_char(n as int)]
    } else {
        decimal(n / 10).push(digit_char((n % 10) as int))
    }
}

/// The decimal digits of `n`, padded with a leading zero to two digits.
pub open spec fn decimal2(n: nat) -> Seq<char> {
    if n < 10 {
        seq!['0'] + decimal(n)
    } else {
        decimal(n)
    }
}

fn digit(d: u64) -> (c: char)
    requires
        d < 10,
    ensures
        c == digit_char(d as int),
{
    match d {
        0 => '0',
        1 => '1',
        2 => '2',
        3 => '3',
        4 => '4',
        5 => '5',
        6 => '6',
        7 => '7',
        8 => '8',
        _ => '9',
    }
}

/// Appends the decimal rendering of `n`.
pub fn push_decimal(s: &mut String, n: u64)
    ensures
        final(s)@ == old(s)@ + decimal(n as nat),
    decreases n,
{
    if n >= 10 {
        push_decimal(s, n / 10);
    }
    push_char(s, digit(n % 10));
}

/// Appends `n` padded to at least two digits (`{:02}`).
pub fn push_decimal2(s: &mut String, n: u64)
    ensures
        final(s)@ == old(s)@ + decimal2(n as nat),
{
    if n < 10 {
        push_char(s, '0');
    }
    push_decimal(s, n);
}

/// The decimal rendering of `n` (`n.to_string()`).
pub fn decimal_string(n: u64) -> (s: String)
    ensures
        s@ == decimal(n as nat),
{
    let mut s = String::new();
    push_decimal(&mut s, n);
    s
}

/// Appends a string slice.
pub fn push_str(s: &mut String, t: &str)
    ensures
        final(s)@ == old(s)@ + t@,
{
    s.append(t);
}

/// Appends characters.
pub fn push_chars(s: &mut String, t: &Vec<char>)
    ensures
        final(s)@ == old(s)@ + t@,
{
    let ghost start = s@;
    let mut i: usize = 0;
    while i < t.len()
        invariant
            i <= t.len(),
            s@ == start + t@.take(i as int),
        decreases t.len() - i,
    {
        push_char(s, t[i]);
        i = i + 1;
        assert(t@.take(i as int) == t@.take(i - 1).push(t@[i - 1]));
    }
    assert(t@.take(t.len() as int) == t@);
}

// ---------------------------------------------------------------------
// Filtering and joining
// ---------------------------------------------------------------------

/// The characters of `t` that satisfy `keep`, in order.
pub open spec fn filter_chars(t: Seq<char>, keep: spec_fn(char) -> bool) -> Seq<char>
    decreases t.len(),
{
    if t.len() == 0 {
        Seq::empty()
    } else {
        let rest = filter_chars(t.drop_last(), keep);
        if keep(t.last()) {
            rest.push(t.last())
        } else {
            rest
        }
    }
}

/// The parts separated by `sep` (`[..].join(sep)`).
pub open spec fn join(parts: Seq<Seq<char>>, sep: Seq<char>) -> Seq<char>
    decreases parts.len(),
{
    if parts.len() == 0 {
        Seq::empty()
    } else if parts.len() == 1 {
        parts[0]
    } else {
        join(parts.drop_last(), sep) + sep + parts.last()
    }
}

/// Joins the parts with a separator.
pub fn join_chars(parts: &Vec<Vec<char>>, sep: &Vec<char>) -> (r: Vec<char>)
    ensures
        r@ == join(views(parts@), sep@),
{
    let mut out: Vec<char> = Vec::new();
    let mut i: usize = 0;
    while i < parts.len()
        invariant
            i <= parts.len(),
            out@ == join(views(parts@).take(i as int), sep@),
        decreases parts.len() - i,
    {
        let ghost before = out@;
        assert(views(parts@).take(i + 1).drop_last() == views(parts@).take(i as int));
        assert(views(parts@).take(i + 1).last() == parts@[i as int]@);
        if i > 0 {
            append_chars(&mut out, sep);
        }
        append_chars(&mut out, &parts[i]);
        proof {
            if i == 0 {
                assert(before == Seq::<char>::empty());
                assert(out@ == before + parts@[0]@);
                assert(views(parts@).take(1)[0] == parts@[0]@);
            }
        }
        i = i + 1;
    }
    assert(views(parts@).take(parts.len() as int) == views(parts@));
    out
}

/// Appends the characters of `t` to `v`.
pub fn append_chars(v: &mut Vec<char>, t: &Vec<char>)
    ensures
        final(v)@ == old(v)@ + t@,
{
    let ghost start = v@;
    let mut i: usize = 0;
    while i < t.len()
        invariant
            i <= t.len(),
            v@ == start + t@.take(i as int),
        decreases t.len() - i,
    {
        v.push(t[i]);
        i = i + 1;
        assert(t@.take(i as int) == t@.take(i - 1).push(t@[i - 1]));
    }
    assert(t@.take(t.len() as int) == t@);
}

/// `t` wrapped in double quotes, with inner double quotes doubled, the
/// quoting of an FTS5 string.
pub open spec fn fts_quoted(t: Seq<char>) -> Seq<char> {
    seq!['"'] + replace_all(t, seq!['"'], seq!['"', '"']) + seq!['"']
}

/// Quotes a term for an FTS5 query.
pub fn quote_term(t: &Vec<char>) -> (r: Vec<char>)
    ensures
        r@ == fts_quoted(t@),
{
    let mut pat: Vec<char> = Vec::new();
    pat.push('"');
    let mut rep: Vec<char> = Vec::new();
    rep.push('"');
    rep.push('"');
    assert(pat@ == seq!['"']);
    assert(rep@ == seq!['"', '"']);
    let inner = replace(t, &pat, &rep);
    let mut r: Vec<char> = Vec::new();
    r.push('"');
    append_chars(&mut r, &inner);
    r.push('"');
    assert(r@ == seq!['"'] + inner@ + seq!['"']);
    r
}

/// Whether the characters of `t` are exactly those of the literal `w`.
pub fn chars_equal_str(t: &Vec<char>, w: &str) -> (b: bool)
    ensures
        b == (t@ == w@),
{
    let wv = chars_of(w);
    if t.len() != wv.len() {
        return false;
    }
    let mut i: usize = 0;
    while i < t.len()
        invariant
            i <= t.len(),
            t.len() == wv.len(),
            wv@ == w@,
            forall|k: int| 0 <= k < i ==> t@[k] == wv@[k],
        decreases t.len() - i,
    {
        if t[i] != wv[i] {
            return false;
        }
        i = i + 1;
    }
    assert(t@ =~= wv@);
    true
}

/// Every token that whitespace splitting gives is non-empty and made of
/// non-whitespace characters of the text; in particular, text made only
/// of characters satisfying `keep` gives tokens made only of them.
pub proof fn lemma_ws_tokens_chars(s: Seq<char>, keep: spec_fn(char) -> bool)
    requires
        forall|i: int| 0 <= i < s.len() ==> keep(#[trigger] s[i]),
    ensures
        forall|k: int| 0 <= k < ws_tokens(s).len() ==> (#[trigger] ws_tokens(s)[k]).len() > 0,
        forall|k: int, i: int|
            0 <= k < ws_tokens(s).len() && 0 <= i < ws_tokens(s)[k].len() ==> keep(
                #[trigger] ws_tokens(s)[k][i],
            ) && !char_is_whitespace(ws_tokens(s)[k][i]),
{
    lemma_ws_scan_chars(s, keep);
}

proof fn lemma_ws_scan_chars(s: Seq<char>, keep: spec_fn(char) -> bool)
    requires
        forall|i: int| 0 <= i < s.len() ==> keep(#[trigger] s[i]),
    ensures
        forall|k: int| 0 <= k < ws_scan(s).0.len() ==> (#[trigger] ws_scan(s).0[k]).len() > 0,
        forall|k: int, i: int|
            0 <= k < ws_scan(s).0.len() && 0 <= i < ws_scan(s).0[k].len() ==> keep(
                #[trigger] ws_scan(s).0[k][i],
            ) && !char_is_whitespace(ws_scan(s).0[k][i]),
        forall|i: int|
            0 <= i < ws_scan(s).1.len() ==> keep(#[trigger] ws_scan(s).1[i]) && !char_is_whitespace(
                ws_scan(s).1[i],
            ),
    decreases s.len(),
{
    if s.len() > 0 {
        let p = s.drop_last();
        assert forall|i: int| 0 <= i < p.len() implies keep(#[trigger] p[i]) by {
            assert(p[i] == s[i]);
        }
        lemma_ws_scan_chars(p, keep);
        let c = s.last();
        assert(keep(s[s.len() - 1]));
        let (done, cur) = ws_scan(p);
        let (nd, nc) = ws_scan(s);
        if char_is_whitespace(c) {
            if cur.len() > 0 {
                assert(nd == done.push(cur));
                assert forall|k: int, i: int|
                    0 <= k < nd.len() && 0 <= i < nd[k].len() implies keep(#[trigger] nd[k][i])
                        && !char_is_whitespace(nd[k][i]) by {
                    if k < done.len() {
                        assert(nd[k] == done[k]);
                    } else {
                        assert(nd[k] == cur);
                    }
                }
                assert forall|k: int| 0 <= k < nd.len() implies (#[trigger] nd[k]).len() > 0 by {
                    if k < done.len() {
                        assert(nd[k] == done[k]);
                    }
                }
            }
        } else {
            assert(nc == cur.push(c));
            assert forall|i: int| 0 <= i < nc.len() implies keep(#[trigger] nc[i])
                && !char_is_whitespace(nc[i]) by {
                if i < cur.len() {
                    assert(nc[i] == cur[i]);
                }
            }
        }
    }
}

/// Text with no space at either end and no two spaces in a row.
pub open spec fn single_spaced(s: Seq<char>) -> bool {
    &&& s.len() > 0 ==> s[0] != ' ' && s[s.len() - 1] != ' '
    &&& forall|i: int| 0 <= i < s.len() - 1 ==> !(#[trigger] s[i] == ' ' && s[i + 1] == ' ')
}

/// Joining non-empty parts without spaces by single spaces gives
/// single-spaced text whose characters are the parts' characters or
/// spaces.
pub proof fn lemma_join_spaced(parts: Seq<Seq<char>>, keep: spec_fn(char) -> bool)
    requires
        forall|k: int| 0 <= k < parts.len() ==> (#[trigger] parts[k]).len() > 0,
        forall|k: int, i: int|
            0 <= k < parts.len() && 0 <= i < parts[k].len() ==> keep(#[trigger] parts[k][i])
                && parts[k][i] != ' ',
    ensures
        single_spaced(join(parts, seq![' '])),
        forall|i: int|
            0 <= i < join(parts, seq![' ']).len() ==> keep(#[trigger] join(parts, seq![' '])[i])
                || join(parts, seq![' '])[i] == ' ',
        parts.len() > 0 ==> join(parts, seq![' ']).len() > 0,
    decreases parts.len(),
{
    if parts.len() == 1 {
        let p = parts[0];
        assert forall|i: int| 0 <= i < p.len() implies keep(#[trigger] p[i]) && p[i] != ' ' by {
            assert(parts[0][i] == p[i]);
        }
    } else if parts.len() > 1 {
        let front = parts.drop_last();
        assert forall|k: int| 0 <= k < front.len() implies (#[trigger] front[k]).len() > 0 by {
            assert(front[k] == parts[k]);
        }
        assert forall|k: int, i: int| 0 <= k < front.len() && 0 <= i < front[k].len() implies keep(
            #[trigger] front[k][i],
        ) && front[k][i] != ' ' by {
            assert(front[k] == parts[k]);
        }
        lemma_join_spaced(front, keep);
        let a = join(front, seq![' ']);
        let b = parts.last();
        assert(b == parts[parts.len() - 1]);
        assert forall|i: int| 0 <= i < b.len() implies keep(#[trigger] b[i]) && b[i] != ' ' by {
            assert(parts[parts.len() - 1][i] == b[i]);
        }
        let j = a + seq![' '] + b;
        assert(join(parts, seq![' ']) == j);
        assert forall|i: int| 0 <= i < j.len() implies keep(#[trigger] j[i]) || j[i] == ' ' by {
            if i < a.len() {
                assert(j[i] == a[i]);
            } else if i > a.len() {
                assert(j[i] == b[i - a.len() - 1]);
            }
        }
        assert(j[0] != ' ') by {
            assert(j[0] == a[0]);
        }
        assert(j[j.len() - 1] == b[b.len() - 1]);
        assert forall|i: int| 0 <= i < j.len() - 1 implies !(#[trigger] j[i] == ' ' && j[i + 1] == ' ') by {
            if i + 1 < a.len() {
                assert(j[i] == a[i] && j[i + 1] == a[i + 1]);
            } else if i + 1 == a.len() {
                assert(j[i] == a[a.len() - 1]);
            } else if i == a.len() {
                assert(j[i + 1] == b[0]);
            } else {
                assert(j[i] == b[i - a.len() - 1] && j[i + 1] == b[i - a.len()]);
            }
        }
    }
}

} // verus!
