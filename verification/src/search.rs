//! Full-text search helpers for saved transcripts.

use vstd::prelude::*;
use crate::ids::{is_record_id, new_record_id};
use crate::reconcile::TranscriptSegment;
use crate::text::{
    ascii_lower,
    char_is_alphanumeric, chars_of, filter_chars, fts_quoted, is_alphanumeric, join, join_chars,
    matches_at, push_chars, push_str, quote_term, replace_all, slice_chars, split_whitespace, str_lowercase,
    string_of, to_lowercase, views, ws_tokens,
};

verus! {

broadcast use vstd::string::group_string_axioms;

/// Reads and writes meeting transcripts. Queries against the database are
/// made by the application; the text handling lives here.
pub struct TranscriptsRepository;

/// One transcript passage found by a full-text search.
pub struct TranscriptSearchResult {
    pub id: String,
    pub title: String,
    pub match_context: String,
    pub timestamp: String,
}


/// The saved name of a speaker of one meeting, tied to a remembered voice
/// profile.
pub struct SpeakerLabel {
    pub speaker_id: String,
    pub profile_id: String,
    pub display_name: String,
}

/// What is stored for one transcript segment besides its own fields: a
/// fresh row id, the speaker name to store, the overlap flag, and the
/// speaker label to save when a remembered profile matched the voice.
pub struct SegmentRow {
    pub id: String,
    pub speaker: Option<String>,
    pub source_overlap: bool,
    pub label: Option<SpeakerLabel>,
}

/// The optional text of an optional string.
pub open spec fn text_opt(o: Option<String>) -> Option<Seq<char>> {
    match o {
        Some(s) => Some(s@),
        None => None,
    }
}

/// The speaker name stored for a segment: the name of the remembered
/// profile that matched its voice, else the segment's own speaker.
pub open spec fn stored_speaker(
    segment: TranscriptSegment,
    remembered: Option<(String, String)>,
) -> Option<Seq<char>> {
    match remembered {
        Some(p) => Some(p.1@),
        None => text_opt(segment.speaker),
    }
}

/// A search hit as read from the index: meeting id, meeting title,
/// transcript text and timestamp.
pub type SearchRow = (String, String, String, String);

/// The search result shown for one hit.
pub open spec fn search_result_of(row: SearchRow, query: Seq<char>) -> (Seq<char>, Seq<char>, Seq<char>, Seq<char>) {
    (row.0@, row.1@, match_context(row.2@, query, str_lowercase(row.2@), str_lowercase(query)), row.3@)
}

/// The plain view of a search result.
pub open spec fn result_view(r: TranscriptSearchResult) -> (Seq<char>, Seq<char>, Seq<char>, Seq<char>) {
    (r.id@, r.title@, r.match_context@, r.timestamp@)
}

/// A character kept in an FTS5 search term.
pub open spec fn is_fts_char(c: char) -> bool {
    char_is_alphanumeric(c) || c == '-' || c == '_' || c == '.'
}

/// The non-empty search terms of a list of words.
pub open spec fn fts_terms(words: Seq<Seq<char>>) -> Seq<Seq<char>>
    decreases words.len(),
{
    if words.len() == 0 {
        Seq::empty()
    } else {
        let rest = fts_terms(words.drop_last());
        let t = filter_chars(words.last(), |c: char| is_fts_char(c));
        if t.len() > 0 {
            rest.push(fts_quoted(t))
        } else {
            rest
        }
    }
}

/// The FTS5 query for user input: every word stripped to its term
/// characters, quoted, and joined with `AND`.
pub open spec fn fts_query(query: Seq<char>) -> Seq<char> {
    join(fts_terms(ws_tokens(query)), " AND "@)
}


/// The first position, at or after `i`, where `pat` occurs in `s`.
pub open spec fn find_from(s: Seq<char>, pat: Seq<char>, i: int) -> Option<int>
    decreases s.len() + 1 - i,
{
    if i < 0 || i + pat.len() > s.len() {
        None
    } else if s.subrange(i, i + pat.len()) == pat {
        Some(i)
    } else {
        find_from(s, pat, i + 1)
    }
}

/// Bytes in the UTF-8 encoding of a character.
pub open spec fn char_width(c: char) -> int {
    vstd::utf8::encode_scalar(c as u32).len() as int
}

/// Bytes in the UTF-8 encoding of a text (its length as a `str`).
pub open spec fn byte_len(s: Seq<char>) -> int {
    vstd::utf8::encode_utf8(s).len() as int
}

/// How many leading characters of `s` fit, encoded, within `bytes` bytes:
/// the character position of byte offset `bytes` when that offset falls
/// on a character boundary, else of the boundary just before it.
pub open spec fn chars_within(s: Seq<char>, bytes: int) -> int
    decreases s.len(),
{
    if s.len() == 0 || char_width(s[0]) > bytes {
        0
    } else {
        1 + chars_within(s.drop_first(), bytes - char_width(s[0]))
    }
}

/// Bytes of context shown on each side of a match.
pub open spec fn context_radius() -> int {
    100
}

/// The snippet of `transcript` around the first case-insensitive match of
/// `query`, given the lower-cased forms of both. Offsets are byte offsets,
/// as for `str`: the match starts at byte `at` of the lower-cased
/// transcript; the window runs from `at - 100` (at least 0) to
/// `at + query bytes + 100` (at most the transcript's length), and is
/// marked with `...` on each side where text was cut. Where a window end
/// falls inside a character, the window ends at the boundary before it
/// ([`lemma_chars_within_at_boundary`] shows that boundaries are kept
/// exactly). Without a match, the first 200 characters are shown.
pub open spec fn match_context(
    transcript: Seq<char>,
    query: Seq<char>,
    lower_transcript: Seq<char>,
    lower_query: Seq<char>,
) -> Seq<char> {
    match find_from(lower_transcript, lower_query, 0) {
        Some(p) => {
            let at = byte_len(lower_transcript.take(p));
            let total = byte_len(transcript);
            let start = if at > context_radius() {
                at - context_radius()
            } else {
                0
            };
            let end = if at + byte_len(query) + context_radius() < total {
                at + byte_len(query) + context_radius()
            } else {
                total
            };
            let first = chars_within(transcript, start);
            let last = if chars_within(transcript, end) < first {
                first
            } else {
                chars_within(transcript, end)
            };
            (if start > 0 {
                "..."@
            } else {
                Seq::empty()
            }) + transcript.subrange(first, last) + (if end < total {
                "..."@
            } else {
                Seq::empty()
            })
        },
        None => transcript.take(
            if transcript.len() < 200 {
                transcript.len() as int
            } else {
                200
            },
        ),
    }
}

proof fn lemma_char_width(c: char)
    ensures
        1 <= char_width(c) <= 4,
{
}

proof fn lemma_encode_concat(a: Seq<char>, b: Seq<char>)
    ensures
        vstd::utf8::encode_utf8(a + b) == vstd::utf8::encode_utf8(a) + vstd::utf8::encode_utf8(b),
    decreases a.len(),
{
    if a.len() == 0 {
        assert(a + b =~= b);
    } else {
        lemma_encode_concat(a.drop_first(), b);
        assert((a + b).drop_first() =~= a.drop_first() + b);
        assert((a + b)[0] == a[0]);
    }
}

proof fn lemma_byte_len_step(s: Seq<char>, k: int)
    requires
        0 <= k < s.len(),
    ensures
        byte_len(s.take(k + 1)) == byte_len(s.take(k)) + char_width(s[k]),
{
    lemma_encode_concat(s.take(k), seq![s[k]]);
    assert(s.take(k + 1) =~= s.take(k) + seq![s[k]]);
    let one = seq![s[k]];
    assert(one.drop_first() =~= Seq::<char>::empty());
    assert(vstd::utf8::encode_utf8(one.drop_first()) =~= Seq::<u8>::empty());
    assert(vstd::utf8::encode_utf8(one) =~= vstd::utf8::encode_scalar(s[k] as u32));
}

proof fn lemma_byte_len_prefix(s: Seq<char>, k: int)
    requires
        0 <= k <= s.len(),
    ensures
        0 <= byte_len(s.take(k)) <= byte_len(s),
{
    lemma_encode_concat(s.take(k), s.skip(k));
    assert(s.take(k) + s.skip(k) =~= s);
}

proof fn lemma_chars_within_bounds(s: Seq<char>, bytes: int)
    ensures
        0 <= chars_within(s, bytes) <= s.len(),
    decreases s.len(),
{
    if s.len() > 0 && char_width(s[0]) <= bytes {
        lemma_chars_within_bounds(s.drop_first(), bytes - char_width(s[0]));
    }
}

/// A byte offset that falls on a character boundary is kept exactly: the
/// offset of the first `k` characters gives back `k`.
pub proof fn lemma_chars_within_at_boundary(s: Seq<char>, k: int)
    requires
        0 <= k <= s.len(),
    ensures
        chars_within(s, byte_len(s.take(k))) == k,
    decreases k,
{
    if s.len() > 0 {
        lemma_char_width(s[0]);
    }
    if k > 0 {
        let rest = s.drop_first();
        assert(s.take(k)[0] == s[0]);
        assert(s.take(k).drop_first() =~= rest.take(k - 1));
        lemma_byte_len_prefix(rest, k - 1);
        lemma_chars_within_at_boundary(rest, k - 1);
    } else {
        assert(s.take(0) =~= Seq::<char>::empty());
    }
}

/// The snippet for ASCII text, in the plain terms of character positions
/// (which are byte positions there): the match of the lower-cased query in
/// the lower-cased transcript at `i`, the window from `i - 100` (at least
/// 0) to `i + query length + 100` (at most the transcript's length), with
/// `...` where text was cut; without a match, the first 200 characters.
pub open spec fn ascii_match_context(transcript: Seq<char>, query: Seq<char>) -> Seq<char> {
    let lt = transcript.map_values(|c: char| ascii_lower(c));
    let lq = query.map_values(|c: char| ascii_lower(c));
    match find_from(lt, lq, 0) {
        Some(i) => {
            let start = if i > 100 {
                i - 100
            } else {
                0
            };
            let end = if i + query.len() + 100 < transcript.len() {
                i + query.len() + 100
            } else {
                transcript.len() as int
            };
            (if start > 0 {
                "..."@
            } else {
                Seq::empty()
            }) + transcript.subrange(start, end) + (if end < transcript.len() {
                "..."@
            } else {
                Seq::empty()
            })
        },
        None => transcript.take(
            if transcript.len() < 200 {
                transcript.len() as int
            } else {
                200
            },
        ),
    }
}

proof fn lemma_ascii_byte_len(s: Seq<char>)
    requires
        vstd::utf8::is_ascii_chars(s),
    ensures
        byte_len(s) == s.len(),
{
    vstd::utf8::is_ascii_chars_encode_utf8(s);
}

proof fn lemma_ascii_chars_within(s: Seq<char>, bytes: int)
    requires
        vstd::utf8::is_ascii_chars(s),
        0 <= bytes,
    ensures
        chars_within(s, bytes) == if bytes < s.len() {
            bytes
        } else {
            s.len() as int
        },
    decreases s.len(),
{
    if s.len() > 0 {
        assert(char_width(s[0]) == 1) by {
            assert('\0' <= s[0] <= '\u{7f}');
        }
        if bytes >= 1 {
            lemma_ascii_chars_within(s.drop_first(), bytes - 1);
        }
    }
}

/// On ASCII text the snippet is [`ascii_match_context`]: byte offsets and
/// character positions agree, and lower-casing keeps every position.
pub proof fn lemma_ascii_match_context(transcript: Seq<char>, query: Seq<char>)
    requires
        vstd::utf8::is_ascii_chars(transcript),
        vstd::utf8::is_ascii_chars(query),
    ensures
        match_context(
            transcript,
            query,
            transcript.map_values(|c: char| ascii_lower(c)),
            query.map_values(|c: char| ascii_lower(c)),
        ) == ascii_match_context(transcript, query),
{
    let lt = transcript.map_values(|c: char| ascii_lower(c));
    let lq = query.map_values(|c: char| ascii_lower(c));
    lemma_find_from_bounds(lt, lq, 0);
    lemma_ascii_byte_len(transcript);
    lemma_ascii_byte_len(query);
    if let Some(p) = find_from(lt, lq, 0) {
        assert(vstd::utf8::is_ascii_chars(lt.take(p))) by {
            assert forall|i: int| 0 <= i < lt.take(p).len() implies '\0' <= #[trigger] lt.take(p)[i]
                <= '\u{7f}' by {
                assert(lt.take(p)[i] == ascii_lower(transcript[i]));
                assert('\0' <= transcript[i] <= '\u{7f}');
            }
        }
        lemma_ascii_byte_len(lt.take(p));
        let start = if p > 100 {
            p - 100
        } else {
            0
        };
        let end = if p + query.len() + 100 < transcript.len() {
            p + query.len() + 100
        } else {
            transcript.len() as int
        };
        lemma_ascii_chars_within(transcript, start);
        lemma_ascii_chars_within(transcript, end);
    }
}

fn char_width_of(c: char) -> (w: usize)
    ensures
        w == char_width(c),
        1 <= w <= 4,
{
    proof {
        vstd::utf8::char_is_scalar(c);
    }
    let v = c as u32;
    if v <= 0x7F {
        1
    } else if v <= 0x7FF {
        2
    } else if v <= 0xFFFF {
        3
    } else {
        4
    }
}

/// The byte offset of character `k` of `s`, whose whole encoding has
/// `total` bytes.
fn prefix_bytes(s: &Vec<char>, k: usize, total: usize) -> (r: usize)
    requires
        k <= s.len(),
        total == byte_len(s@),
    ensures
        r == byte_len(s@.take(k as int)),
{
    let mut i: usize = 0;
    let mut sum: usize = 0;
    assert(s@.take(0) =~= Seq::<char>::empty());
    while i < k
        invariant
            i <= k <= s.len(),
            total == byte_len(s@),
            sum == byte_len(s@.take(i as int)),
        decreases k - i,
    {
        proof {
            lemma_byte_len_step(s@, i as int);
            lemma_byte_len_prefix(s@, i + 1);
        }
        sum = sum + char_width_of(s[i]);
        i = i + 1;
    }
    sum
}

/// The character position reached within `bytes` bytes, as
/// [`chars_within`] states.
fn chars_within_bytes(s: &Vec<char>, bytes: usize) -> (r: usize)
    ensures
        r == chars_within(s@, bytes as int),
        r <= s.len(),
{
    let mut k: usize = 0;
    let mut room: usize = bytes;
    assert(s@.skip(0) =~= s@);
    while k < s.len()
        invariant
            k <= s.len(),
            chars_within(s@, bytes as int) == k + chars_within(s@.skip(k as int), room as int),
        decreases s.len() - k,
    {
        let w = char_width_of(s[k]);
        let ghost rest = s@.skip(k as int);
        assert(rest[0] == s@[k as int]);
        assert(rest.drop_first() =~= s@.skip(k + 1));
        if w > room {
            return k;
        }
        room = room - w;
        k = k + 1;
    }
    assert(s@.skip(k as int).len() == 0);
    proof {
        lemma_chars_within_bounds(s@, bytes as int);
    }
    k
}

proof fn lemma_find_from_bounds(s: Seq<char>, pat: Seq<char>, i: int)
    ensures
        find_from(s, pat, i) matches Some(p) ==> i <= p && p + pat.len() <= s.len(),
    decreases s.len() + 1 - i,
{
    if !(i < 0 || i + pat.len() > s.len()) && s.subrange(i, i + pat.len()) != pat {
        lemma_find_from_bounds(s, pat, i + 1);
    }
}

pub(crate) fn find_chars(s: &Vec<char>, pat: &Vec<char>) -> (r: Option<usize>)
    ensures
        r matches Some(p) ==> find_from(s@, pat@, 0) == Some(p as int),
        r is None ==> find_from(s@, pat@, 0) is None,
{
    if pat.len() > s.len() {
        return None;
    }
    let last = s.len() - pat.len();
    let mut i: usize = 0;
    loop
        invariant
            last + pat.len() == s.len(),
            i <= last,
            find_from(s@, pat@, 0) == find_from(s@, pat@, i as int),
        decreases last - i,
    {
        if matches_at(s, i, pat) {
            return Some(i);
        }
        if i == last {
            assert(find_from(s@, pat@, i + 1) is None);
            return None;
        }
        i = i + 1;
    }
}

/// How FTS5 reads the inside of a double-quoted string: a doubled quote
/// stands for one quote and a single quote closes the string. The result
/// is the text read and what follows the closing quote; `None` when the
/// string never closes.
pub open spec fn read_quoted_body(s: Seq<char>) -> Option<(Seq<char>, Seq<char>)>
    decreases s.len(),
{
    if s.len() == 0 {
        None
    } else if s[0] == '"' {
        if s.len() >= 2 && s[1] == '"' {
            match read_quoted_body(s.skip(2)) {
                Some((t, rest)) => Some((seq!['"'] + t, rest)),
                None => None,
            }
        } else {
            Some((Seq::empty(), s.skip(1)))
        }
    } else {
        match read_quoted_body(s.skip(1)) {
            Some((t, rest)) => Some((seq![s[0]] + t, rest)),
            None => None,
        }
    }
}

proof fn lemma_escaped_body_reads_back(t: Seq<char>)
    ensures
        read_quoted_body(replace_all(t, seq!['"'], seq!['"', '"']) + seq!['"']) == Some(
            (t, Seq::<char>::empty()),
        ),
    decreases t.len(),
{
    let q = seq!['"'];
    let qq = seq!['"', '"'];
    let body = replace_all(t, q, qq);
    let s = body + q;
    if t.len() == 0 {
        assert(body == t);
        assert(s.skip(1) =~= Seq::<char>::empty());
    } else {
        let rest = replace_all(t.skip(1), q, qq);
        lemma_escaped_body_reads_back(t.skip(1));
        if t.take(1) == q {
            assert(t[0] == '"') by {
                assert(t.take(1)[0] == t[0]);
            }
            assert(body == qq + rest);
            assert(s.skip(2) =~= rest + q);
            assert(seq!['"'] + t.skip(1) =~= t);
        } else {
            assert(t[0] != '"') by {
                if t[0] == '"' {
                    assert(t.take(1) =~= q);
                }
            }
            assert(body == seq![t[0]] + rest);
            assert(s.skip(1) =~= rest + q);
            assert(seq![t[0]] + t.skip(1) =~= t);
        }
    }
}

/// A quoted term is one FTS5 string that reads back as exactly the term:
/// it opens with a quote, and its only closing quote is its last
/// character, whatever characters the term holds.
pub proof fn lemma_quoted_term_reads_back(t: Seq<char>)
    ensures
        fts_quoted(t)[0] == '"',
        read_quoted_body(fts_quoted(t).drop_first()) == Some((t, Seq::<char>::empty())),
{
    lemma_escaped_body_reads_back(t);
    assert(fts_quoted(t).drop_first() =~= replace_all(t, seq!['"'], seq!['"', '"']) + seq!['"']);
}

/// Every term of a search query is a quoted FTS5 string of a non-empty
/// run of term characters, so user input never reaches FTS5 as an
/// operator.
pub proof fn lemma_query_terms_are_quoted(words: Seq<Seq<char>>, k: int)
    requires
        0 <= k < fts_terms(words).len(),
    ensures
        exists|t: Seq<char>|
            t.len() > 0 && t == filter_chars(t, |c: char| is_fts_char(c)) && fts_terms(words)[k]
                == #[trigger] fts_quoted(t),
    decreases words.len(),
{
    let rest = fts_terms(words.drop_last());
    let t = filter_chars(words.last(), |c: char| is_fts_char(c));
    if k < rest.len() {
        lemma_query_terms_are_quoted(words.drop_last(), k);
    } else {
        lemma_filter_idempotent(words.last());
        assert(fts_terms(words)[k] == fts_quoted(t));
    }
}

proof fn lemma_filter_idempotent(w: Seq<char>)
    ensures
        filter_chars(filter_chars(w, |c: char| is_fts_char(c)), |c: char| is_fts_char(c))
            == filter_chars(w, |c: char| is_fts_char(c)),
    decreases w.len(),
{
    if w.len() > 0 {
        let f = filter_chars(w.drop_last(), |c: char| is_fts_char(c));
        lemma_filter_idempotent(w.drop_last());
        if is_fts_char(w.last()) {
            let g = f.push(w.last());
            assert(g.drop_last() =~= f);
        }
    }
}

/// The search words of a list of words: each reduced to its term
/// characters, the empty ones dropped.
pub open spec fn fts_words(words: Seq<Seq<char>>) -> Seq<Seq<char>>
    decreases words.len(),
{
    if words.len() == 0 {
        Seq::empty()
    } else {
        let rest = fts_words(words.drop_last());
        let t = filter_chars(words.last(), |c: char| is_fts_char(c));
        if t.len() > 0 {
            rest.push(t)
        } else {
            rest
        }
    }
}

/// A text between double quotes.
pub open spec fn in_quotes(t: Seq<char>) -> Seq<char> {
    seq!['"'] + t + seq!['"']
}

/// A text with no double quote.
pub open spec fn quote_free(t: Seq<char>) -> bool {
    forall|i: int| 0 <= i < t.len() ==> t[i] != '"'
}

proof fn lemma_replace_without_quote(t: Seq<char>)
    requires
        quote_free(t),
    ensures
        replace_all(t, seq!['"'], seq!['"', '"']) == t,
    decreases t.len(),
{
    if t.len() > 0 {
        assert(t.take(1) != seq!['"']) by {
            assert(t.take(1)[0] == t[0]);
        }
        lemma_replace_without_quote(t.skip(1));
        assert(seq![t[0]] + t.skip(1) =~= t);
    }
}

fn fts_chars(t: &Vec<char>) -> (r: Vec<char>)
    ensures
        r@ == filter_chars(t@, |c: char| is_fts_char(c)),
        quote_free(r@),
{
    let mut r: Vec<char> = Vec::new();
    let mut i: usize = 0;
    while i < t.len()
        invariant
            i <= t.len(),
            r@ == filter_chars(t@.take(i as int), |c: char| is_fts_char(c)),
            quote_free(r@),
        decreases t.len() - i,
    {
        assert(t@.take(i + 1).drop_last() == t@.take(i as int));
        let c = t[i];
        if is_alphanumeric(c) || c == '-' || c == '_' || c == '.' {
            r.push(c);
        }
        i = i + 1;
    }
    assert(t@.take(t.len() as int) == t@);
    r
}

impl TranscriptsRepository {
    /// Converts arbitrary user input into a safe FTS5 `AND` query. Quoting
    /// every term keeps punctuation in meeting names or customer terms from
    /// being read as FTS operators.
    ///
    /// Every term is the word's term characters between double quotes, and
    /// no term holds a double quote, so none can end its FTS5 string early.
    pub fn prepare_fts_query(query: &str) -> (r: String)
        ensures
            r@ == fts_query(query@),
            r@ == join(fts_words(ws_tokens(query@)).map_values(|t: Seq<char>| in_quotes(t)), " AND "@),
            forall|k: int|
                0 <= k < fts_words(ws_tokens(query@)).len() ==> quote_free(
                    #[trigger] fts_words(ws_tokens(query@))[k],
                ),
    {
        let chars = chars_of(query);
        let words = split_whitespace(&chars);
        let mut terms: Vec<Vec<char>> = Vec::new();
        let mut i: usize = 0;
        while i < words.len()
            invariant
                i <= words.len(),
                views(words@) == ws_tokens(query@),
                views(terms@) == fts_terms(views(words@).take(i as int)),
                views(terms@) == fts_words(views(words@).take(i as int)).map_values(
                    |t: Seq<char>| in_quotes(t),
                ),
                forall|k: int|
                    0 <= k < fts_words(views(words@).take(i as int)).len() ==> quote_free(
                        #[trigger] fts_words(views(words@).take(i as int))[k],
                    ),
            decreases words.len() - i,
        {
            let ghost prefix = views(words@).take(i as int);
            assert(views(words@).take(i + 1).drop_last() == prefix);
            assert(views(words@).take(i + 1).last() == words@[i as int]@);
            let t = fts_chars(&words[i]);
            if t.len() > 0 {
                let q = quote_term(&t);
                proof {
                    lemma_replace_without_quote(t@);
                }
                let ghost before = views(terms@);
                terms.push(q);
                assert(views(terms@) =~= before.push(q@));
                assert(fts_words(prefix).push(t@).map_values(|t: Seq<char>| in_quotes(t))
                    =~= fts_words(prefix).map_values(|t: Seq<char>| in_quotes(t)).push(in_quotes(t@)));
            }
            i = i + 1;
        }
        assert(views(words@).take(words.len() as int) == views(words@));
        let sep = chars_of(" AND ");
        let joined = join_chars(&terms, &sep);
        string_of(&joined)
    }

    /// The snippet of a transcript around the first case-insensitive match
    /// of the query, as stated by [`match_context`]: a window of 100 bytes
    /// on each side of the match, as `str` offsets count them.
    pub fn get_match_context(transcript: &str, query: &str) -> (r: String)
        ensures
            r@ == match_context(
                transcript@,
                query@,
                str_lowercase(transcript@),
                str_lowercase(query@),
            ),
            vstd::utf8::is_ascii_chars(transcript@) && vstd::utf8::is_ascii_chars(query@) ==> r@
                == ascii_match_context(transcript@, query@),
    {
        let text = chars_of(transcript);
        let total = transcript.as_bytes().len();
        let query_bytes = query.as_bytes().len();
        let lower_text_string = to_lowercase(transcript);
        let lower_query_string = to_lowercase(query);
        let lower_total = lower_text_string.as_str().as_bytes().len();
        let lower_text = chars_of(lower_text_string.as_str());
        let lower_query = chars_of(lower_query_string.as_str());
        proof {
            if vstd::utf8::is_ascii_chars(transcript@) && vstd::utf8::is_ascii_chars(query@) {
                lemma_ascii_match_context(transcript@, query@);
            }
        }
        let mut context = String::new();
        match find_chars(&lower_text, &lower_query) {
            Some(p) => {
                proof {
                    lemma_find_from_bounds(lower_text@, lower_query@, 0);
                }
                let at = prefix_bytes(&lower_text, p, lower_total);
                let start: usize = if at > 100 {
                    at - 100
                } else {
                    0
                };
                let end: usize = if (at as u128) + (query_bytes as u128) + 100 < total as u128 {
                    at + query_bytes + 100
                } else {
                    total
                };
                let first = chars_within_bytes(&text, start);
                let reached = chars_within_bytes(&text, end);
                let last = if reached < first {
                    first
                } else {
                    reached
                };
                if start > 0 {
                    push_str(&mut context, "...");
                }
                let window = slice_chars(&text, first, last);
                push_chars(&mut context, &window);
                if end < total {
                    push_str(&mut context, "...");
                }
                proof {
                    reveal_strlit("...");
                }
            },
            None => {
                let end: usize = if text.len() < 200 {
                    text.len()
                } else {
                    200
                };
                let window = slice_chars(&text, 0, end);
                push_chars(&mut context, &window);
                assert(text@.subrange(0, end as int) == text@.take(end as int));
            },
        }
        context
    }

    /// Turns the hits of a search, in rank order, into results that show
    /// the context of the match of `query` in each transcript.
    pub fn search_results(rows: Vec<SearchRow>, query: &str) -> (r: Vec<TranscriptSearchResult>)
        ensures
            r.len() == rows.len(),
            forall|k: int| 0 <= k < rows.len() ==> result_view(#[trigger] r@[k]) == search_result_of(rows@[k], query@),
    {
        let mut r: Vec<TranscriptSearchResult> = Vec::new();
        let mut i: usize = 0;
        while i < rows.len()
            invariant
                i <= rows.len(),
                r.len() == i,
                forall|k: int| 0 <= k < i ==> result_view(#[trigger] r@[k]) == search_result_of(rows@[k], query@),
            decreases rows.len() - i,
        {
            let row = &rows[i];
            let match_context = Self::get_match_context(row.2.as_str(), query);
            r.push(TranscriptSearchResult {
                id: row.0.clone(),
                title: row.1.clone(),
                match_context,
                timestamp: row.3.clone(),
            });
            i = i + 1;
        }
        r
    }

    /// The FTS5 query to run for a search, or none when the input has no
    /// searchable term (the search then finds nothing).
    pub fn search_query(query: &str) -> (r: Option<String>)
        ensures
            match r {
                Some(q) => q@ == fts_query(query@) && q@.len() > 0,
                None => fts_query(query@).len() == 0,
            },
    {
        let q = Self::prepare_fts_query(query);
        if q.as_str().is_empty() {
            None
        } else {
            Some(q)
        }
    }

    /// A fresh id for a saved meeting.
    pub fn new_meeting_id() -> (r: String)
        ensures
            is_record_id(r@, "meeting"@),
    {
        new_record_id("meeting")
    }

    /// The row stored for a segment, given the remembered profile `(id,
    /// name)` matching its voice, if any. A speaker label is saved exactly
    /// when the segment has a speaker id and a profile matched.
    pub fn segment_row(segment: &TranscriptSegment, remembered: Option<(String, String)>) -> (r:
        SegmentRow)
        ensures
            is_record_id(r.id@, "transcript"@),
            text_opt(r.speaker) == stored_speaker(*segment, remembered),
            r.source_overlap == (segment.source_overlap == Some(true)),
            r.label is Some <==> (segment.speaker_id is Some && remembered is Some),
            r.label matches Some(l) ==> {
                &&& l.speaker_id@ == segment.speaker_id->0@
                &&& l.profile_id@ == (remembered->0).0@
                &&& l.display_name@ == (remembered->0).1@
            },
    {
        let id = new_record_id("transcript");
        let speaker = match &remembered {
            Some(p) => Some(p.1.clone()),
            None => match &segment.speaker {
                Some(name) => Some(name.clone()),
                None => None,
            },
        };
        let source_overlap = match segment.source_overlap {
            Some(flag) => flag,
            None => false,
        };
        let label = match (&segment.speaker_id, &remembered) {
            (Some(speaker_id), Some(p)) => Some(
                SpeakerLabel {
                    speaker_id: speaker_id.clone(),
                    profile_id: p.0.clone(),
                    display_name: p.1.clone(),
                },
            ),
            _ => None,
        };
        SegmentRow { id, speaker, source_overlap, label }
    }
}

} // verus!
