//! Cross-source echo suppression for live transcripts.
//!
//! When a call is captured from both the microphone and the system-audio
//! stream, remote speech can be transcribed twice. This module removes a
//! microphone segment only when it overlaps in time and is highly similar to
//! a system-audio segment, keeping the system copy, and keeps every other
//! segment.

use vstd::prelude::*;
use crate::text::{
    char_is_alphanumeric, chars_of, eq_ignore_ascii_case, is_alphanumeric, same_ignoring_ascii_case,
    split_whitespace, str_lowercase, string_of, to_lowercase, views, ws_tokens,
};

verus! {

broadcast use vstd::string::group_string_axioms;

/// One transcript segment as captured live. Audio times are integer
/// milliseconds from the start of the recording.
#[derive(Debug)]
pub struct TranscriptSegment {
    pub id: String,
    pub text: String,
    pub timestamp: String,
    pub source: Option<String>,
    pub speaker: Option<String>,
    pub speaker_id: Option<String>,
    pub source_overlap: Option<bool>,
    pub audio_start_ms: Option<i64>,
    pub audio_end_ms: Option<i64>,
    pub duration_ms: Option<i64>,
}

/// Tolerance, in milliseconds, by which two segments may miss each other
/// and still count as overlapping.
pub const OVERLAP_TOLERANCE_MS: i64 = 750;

// ---------------------------------------------------------------------
// Sources
// ---------------------------------------------------------------------

/// The source label of a segment, or the empty text when it has none.
pub open spec fn source_text(seg: TranscriptSegment) -> Seq<char> {
    match seg.source {
        Some(s) => s@,
        None => Seq::empty(),
    }
}

/// A source label that names system audio.
pub open spec fn is_system_label(t: Seq<char>) -> bool {
    same_ignoring_ascii_case(t, "system"@) || same_ignoring_ascii_case(t, "system audio"@)
}

/// A source label that names the microphone.
pub open spec fn is_microphone_label(t: Seq<char>) -> bool {
    same_ignoring_ascii_case(t, "microphone"@)
}

/// The segment was captured from system audio.
pub open spec fn from_system(seg: TranscriptSegment) -> bool {
    seg.source is Some && is_system_label(source_text(seg))
}

/// The segment was captured from the microphone.
pub open spec fn from_microphone(seg: TranscriptSegment) -> bool {
    seg.source is Some && is_microphone_label(source_text(seg))
}

/// One segment comes from the microphone and the other from system audio.
pub open spec fn crosses_sources(left: TranscriptSegment, right: TranscriptSegment) -> bool {
    let l = source_text(left);
    let r = source_text(right);
    &&& !same_ignoring_ascii_case(l, r)
    &&& ((is_system_label(l) && is_microphone_label(r)) || (is_microphone_label(l)
        && is_system_label(r)))
}

fn source_chars(seg: &TranscriptSegment) -> (v: Vec<char>)
    ensures
        v@ == source_text(*seg),
{
    match &seg.source {
        Some(s) => chars_of(s.as_str()),
        None => Vec::new(),
    }
}

fn is_system_chars(t: &Vec<char>) -> (b: bool)
    ensures
        b == is_system_label(t@),
{
    let a = chars_of("system");
    let b = chars_of("system audio");
    eq_ignore_ascii_case(t, &a) || eq_ignore_ascii_case(t, &b)
}

fn is_microphone_chars(t: &Vec<char>) -> (b: bool)
    ensures
        b == is_microphone_label(t@),
{
    let m = chars_of("microphone");
    eq_ignore_ascii_case(t, &m)
}

/// The source label names system audio (ASCII case ignored).
pub fn is_system_source(source: Option<&str>) -> (b: bool)
    ensures
        b == (source is Some && is_system_label(source->0@)),
{
    match source {
        Some(s) => {
            let t = chars_of(s);
            is_system_chars(&t)
        },
        None => false,
    }
}

/// The source label names the microphone (ASCII case ignored).
pub fn is_microphone_source(source: Option<&str>) -> (b: bool)
    ensures
        b == (source is Some && is_microphone_label(source->0@)),
{
    match source {
        Some(s) => {
            let t = chars_of(s);
            is_microphone_chars(&t)
        },
        None => false,
    }
}

/// One segment comes from the microphone and the other from system audio.
pub fn cross_source(left: &TranscriptSegment, right: &TranscriptSegment) -> (b: bool)
    ensures
        b == crosses_sources(*left, *right),
{
    let l = source_chars(left);
    let r = source_chars(right);
    !eq_ignore_ascii_case(&l, &r) && ((is_system_chars(&l) && is_microphone_chars(&r)) || (
    is_microphone_chars(&l) && is_system_chars(&r)))
}

// ---------------------------------------------------------------------
// Time overlap
// ---------------------------------------------------------------------

/// The two segments overlap in time (within the tolerance) when both carry
/// audio times; otherwise, when either was flagged as overlapping.
pub open spec fn overlapping_times(left: TranscriptSegment, right: TranscriptSegment) -> bool {
    match (left.audio_start_ms, left.audio_end_ms, right.audio_start_ms, right.audio_end_ms) {
        (Some(ls), Some(le), Some(rs), Some(re)) => ls <= re + OVERLAP_TOLERANCE_MS && rs <= le
            + OVERLAP_TOLERANCE_MS,
        _ => left.source_overlap == Some(true) || right.source_overlap == Some(true),
    }
}

/// Both segments carry a start and an end time.
pub open spec fn both_timed(left: TranscriptSegment, right: TranscriptSegment) -> bool {
    &&& left.audio_start_ms is Some
    &&& left.audio_end_ms is Some
    &&& right.audio_start_ms is Some
    &&& right.audio_end_ms is Some
}

/// The two segments overlap in time, within the tolerance.
pub fn time_overlap(left: &TranscriptSegment, right: &TranscriptSegment) -> (b: bool)
    ensures
        b == overlapping_times(*left, *right),
        both_timed(*left, *right) ==> (b <==> (left.audio_start_ms->0 <= right.audio_end_ms->0
            + 750 && right.audio_start_ms->0 <= left.audio_end_ms->0 + 750)),
        !both_timed(*left, *right) ==> (b <==> (left.source_overlap == Some(true)
            || right.source_overlap == Some(true))),
        b == overlapping_times(*right, *left),
{
    match (left.audio_start_ms, left.audio_end_ms, right.audio_start_ms, right.audio_end_ms) {
        (Some(ls), Some(le), Some(rs), Some(re)) => {
            (ls as i128) <= (re as i128) + 750 && (rs as i128) <= (le as i128) + 750
        },
        _ => {
            let l = match left.source_overlap {
                Some(v) => v,
                None => false,
            };
            let r = match right.source_overlap {
                Some(v) => v,
                None => false,
            };
            l || r
        },
    }
}

// ---------------------------------------------------------------------
// Text similarity
// ---------------------------------------------------------------------

/// The alphanumeric characters of a token, in order.
pub open spec fn alphanumeric_only(t: Seq<char>) -> Seq<char>
    decreases t.len(),
{
    if t.len() == 0 {
        Seq::empty()
    } else {
        let rest = alphanumeric_only(t.drop_last());
        if char_is_alphanumeric(t.last()) {
            rest.push(t.last())
        } else {
            rest
        }
    }
}

/// A token reduced to its lower-cased alphanumeric characters.
pub open spec fn normalize_token(t: Seq<char>) -> Seq<char> {
    str_lowercase(alphanumeric_only(t))
}

/// The normalized forms of the tokens, dropping those that become empty.
pub open spec fn normalized_list(toks: Seq<Seq<char>>) -> Seq<Seq<char>>
    decreases toks.len(),
{
    if toks.len() == 0 {
        Seq::empty()
    } else {
        let rest = normalized_list(toks.drop_last());
        let n = normalize_token(toks.last());
        if n.len() > 0 {
            rest.push(n)
        } else {
            rest
        }
    }
}

/// The set of normalized words of a text.
pub open spec fn token_set(text: Seq<char>) -> Set<Seq<char>> {
    normalized_list(ws_tokens(text)).to_set()
}

/// Two texts are near-duplicates: both have words, and their Jaccard
/// similarity (shared words over all words) is at least 0.72.
pub open spec fn similar_texts(a: Seq<char>, b: Seq<char>) -> bool {
    let x = token_set(a);
    let y = token_set(b);
    &&& x.len() > 0
    &&& y.len() > 0
    &&& 100 * x.intersect(y).len() >= 72 * x.union(y).len()
}

fn same_chars(a: &Vec<char>, b: &Vec<char>) -> (r: bool)
    ensures
        r == (a@ == b@),
{
    if a.len() != b.len() {
        return false;
    }
    let mut i: usize = 0;
    while i < a.len()
        invariant
            i <= a.len(),
            a.len() == b.len(),
            forall|k: int| 0 <= k < i ==> a@[k] == b@[k],
        decreases a.len() - i,
    {
        if a[i] != b[i] {
            return false;
        }
        i = i + 1;
    }
    assert(a@ =~= b@);
    true
}

fn contains_chars(list: &Vec<Vec<char>>, x: &Vec<char>) -> (r: bool)
    ensures
        r == views(list@).contains(x@),
{
    let mut i: usize = 0;
    while i < list.len()
        invariant
            i <= list.len(),
            forall|k: int| 0 <= k < i ==> list@[k]@ != x@,
        decreases list.len() - i,
    {
        if same_chars(&list[i], x) {
            assert(views(list@)[i as int] == x@);
            return true;
        }
        i = i + 1;
    }
    proof {
        if views(list@).contains(x@) {
            let k = choose|k: int| 0 <= k < views(list@).len() && views(list@)[k] == x@;
            assert(list@[k]@ == x@);
        }
    }
    false
}

fn alphanumeric_chars(t: &Vec<char>) -> (r: Vec<char>)
    ensures
        r@ == alphanumeric_only(t@),
{
    let mut r: Vec<char> = Vec::new();
    let mut i: usize = 0;
    while i < t.len()
        invariant
            i <= t.len(),
            r@ == alphanumeric_only(t@.take(i as int)),
        decreases t.len() - i,
    {
        assert(t@.take(i + 1).drop_last() == t@.take(i as int));
        if is_alphanumeric(t[i]) {
            r.push(t[i]);
        }
        i = i + 1;
    }
    assert(t@.take(t.len() as int) == t@);
    r
}

/// The distinct normalized words of a text.
pub fn normalized_tokens(text: &str) -> (r: Vec<Vec<char>>)
    ensures
        views(r@).no_duplicates(),
        views(r@).to_set() == token_set(text@),
{
    let chars = chars_of(text);
    let toks = split_whitespace(&chars);
    let mut r: Vec<Vec<char>> = Vec::new();
    let mut i: usize = 0;
    while i < toks.len()
        invariant
            i <= toks.len(),
            views(toks@) == ws_tokens(text@),
            views(r@).no_duplicates(),
            views(r@).to_set() == normalized_list(views(toks@).take(i as int)).to_set(),
        decreases toks.len() - i,
    {
        let ghost prefix = views(toks@).take(i as int);
        assert(views(toks@).take(i + 1).drop_last() == prefix);
        assert(views(toks@).take(i + 1).last() == toks@[i as int]@);
        let filtered = alphanumeric_chars(&toks[i]);
        let as_string = string_of(&filtered);
        let lowered = to_lowercase(as_string.as_str());
        let n = chars_of(lowered.as_str());
        assert(n@ == normalize_token(toks@[i as int]@));
        if n.len() > 0 {
            let ghost before = views(r@);
            let already = contains_chars(&r, &n);
            if !already {
                r.push(n);
                assert(views(r@) =~= before.push(n@));
            }
            assert(views(r@).to_set() =~= normalized_list(prefix).push(n@).to_set()) by {
                assert(normalized_list(prefix).push(n@).to_set() =~= normalized_list(
                    prefix,
                ).to_set().insert(n@)) by {
                    Seq::lemma_to_set_insert_commutes(normalized_list(prefix), n@);
                    assert(normalized_list(prefix).push(n@) == normalized_list(prefix) + seq![
                        n@,
                    ]);
                }
                if !already {
                    assert(before.push(n@) == before + seq![n@]);
                    Seq::lemma_to_set_insert_commutes(before, n@);
                }
            }
        }
        i = i + 1;
    }
    assert(views(toks@).take(toks.len() as int) == views(toks@));
    r
}

/// The decision `text_similarity(a, b) >= 0.72` for two texts.
fn texts_similar(a: &str, b: &str) -> (r: bool)
    ensures
        r == similar_texts(a@, b@),
{
    let xa = normalized_tokens(a);
    let xb = normalized_tokens(b);
    let ghost x = token_set(a@);
    let ghost y = token_set(b@);
    proof {
        views(xa@).unique_seq_to_set();
        views(xb@).unique_seq_to_set();
    }
    if xa.len() == 0 || xb.len() == 0 {
        return false;
    }
    let mut common: usize = 0;
    let ghost mut shared: Seq<Seq<char>> = Seq::empty();
    let mut i: usize = 0;
    while i < xa.len()
        invariant
            i <= xa.len(),
            common == shared.len(),
            common <= i,
            shared.no_duplicates(),
            views(xa@).no_duplicates(),
            views(xb@).to_set() == y,
            forall|s: Seq<char>|
                shared.contains(s) <==> (views(xa@).take(i as int).contains(s) && y.contains(s)),
        decreases xa.len() - i,
    {
        let ghost prev = shared;
        let ghost item = views(xa@)[i as int];
        assert(views(xa@).take(i + 1) == views(xa@).take(i as int).push(item));
        let in_b = contains_chars(&xb, &xa[i]);
        assert(y.contains(item) == in_b);
        let ghost t0 = views(xa@).take(i as int);
        let ghost t1 = views(xa@).take(i + 1);
        assert(t1 == t0.push(item));
        assert forall|s: Seq<char>| t1.contains(s) <==> (t0.contains(s) || s == item) by {
            if t1.contains(s) {
                let k = choose|k: int| 0 <= k < t1.len() && t1[k] == s;
                if k < t0.len() {
                    assert(t0[k] == s);
                }
            }
            if t0.contains(s) {
                let k = choose|k: int| 0 <= k < t0.len() && t0[k] == s;
                assert(t1[k] == s);
            }
            if s == item {
                assert(t1[t0.len() as int] == s);
            }
        }
        if in_b {
            proof {
                assert(!views(xa@).take(i as int).contains(item)) by {
                    if views(xa@).take(i as int).contains(item) {
                        let k = choose|k: int|
                            0 <= k < i && views(xa@).take(i as int)[k] == item;
                        assert(views(xa@)[k] == views(xa@)[i as int]);
                    }
                }
                shared = shared.push(item);
                assert forall|a: int, b: int|
                    0 <= a < shared.len() && 0 <= b < shared.len() && a != b implies shared[a]
                    != shared[b] by {
                    if a < prev.len() && b < prev.len() {
                    } else if a == prev.len() {
                        assert(prev.contains(shared[b]));
                    } else {
                        assert(prev.contains(shared[a]));
                    }
                }
            }
            common = common + 1;
            assert forall|s: Seq<char>|
                shared.contains(s) <==> (prev.contains(s) || s == item) by {
                if shared.contains(s) {
                    let k = choose|k: int| 0 <= k < shared.len() && shared[k] == s;
                    if k < prev.len() {
                        assert(prev[k] == s);
                    }
                }
                if prev.contains(s) {
                    let k = choose|k: int| 0 <= k < prev.len() && prev[k] == s;
                    assert(shared[k] == s);
                }
                if s == item {
                    assert(shared[prev.len() as int] == s);
                }
            }
        }
        i = i + 1;
    }
    proof {
        assert(views(xa@).take(xa.len() as int) == views(xa@));
        assert(shared.to_set() =~= x.intersect(y));
        shared.unique_seq_to_set();
        vstd::set_lib::lemma_set_intersect_union_lens(x, y);
    }
    let na = xa.len() as u128;
    let nb = xb.len() as u128;
    let nc = common as u128;
    100 * nc >= 72 * (na + nb - nc)
}

// ---------------------------------------------------------------------
// Suppression
// ---------------------------------------------------------------------

/// `later` repeats `earlier`: the two come from different sources, overlap
/// in time and say nearly the same thing.
pub open spec fn is_echo(earlier: TranscriptSegment, later: TranscriptSegment) -> bool {
    &&& crosses_sources(earlier, later)
    &&& overlapping_times(earlier, later)
    &&& similar_texts(earlier.text@, later.text@)
}

/// The position of the first kept segment that `seg` repeats, or
/// `kept.len()` when there is none.
pub open spec fn first_echo(kept: Seq<TranscriptSegment>, seg: TranscriptSegment) -> int
    decreases kept.len(),
{
    if kept.len() == 0 {
        0
    } else {
        let r = first_echo(kept.drop_last(), seg);
        if r < kept.len() - 1 {
            r
        } else if is_echo(kept.last(), seg) {
            kept.len() - 1
        } else {
            kept.len() as int
        }
    }
}

/// The segments kept after reading `segs` in order: a segment that repeats
/// a kept one replaces it when it comes from system audio and is dropped
/// otherwise; any other segment is appended.
pub open spec fn suppressed(segs: Seq<TranscriptSegment>) -> Seq<TranscriptSegment>
    decreases segs.len(),
{
    if segs.len() == 0 {
        Seq::empty()
    } else {
        let kept = suppressed(segs.drop_last());
        let seg = segs.last();
        let at = first_echo(kept, seg);
        if at < kept.len() {
            if from_system(seg) {
                kept.update(at, seg)
            } else {
                kept
            }
        } else {
            kept.push(seg)
        }
    }
}

/// `first_echo` is the least position of a repeated segment.
pub proof fn lemma_first_echo(kept: Seq<TranscriptSegment>, seg: TranscriptSegment)
    ensures
        0 <= first_echo(kept, seg) <= kept.len(),
        forall|k: int| 0 <= k < first_echo(kept, seg) ==> !is_echo(#[trigger] kept[k], seg),
        first_echo(kept, seg) < kept.len() ==> is_echo(kept[first_echo(kept, seg)], seg),
    decreases kept.len(),
{
    if kept.len() > 0 {
        lemma_first_echo(kept.drop_last(), seg);
        let r = first_echo(kept.drop_last(), seg);
        assert forall|k: int| 0 <= k < first_echo(kept, seg) implies !is_echo(
            #[trigger] kept[k],
            seg,
        ) by {
            if k < kept.len() - 1 {
                assert(kept[k] == kept.drop_last()[k]);
            }
        }
    }
}

/// Removes likely echo transcripts captured by both the microphone and the
/// system stream. Only overlapping, highly similar cross-source segments
/// are affected, and the system-audio copy is the one that stays.
pub fn suppress_cross_source_echoes(segments: Vec<TranscriptSegment>) -> (kept: Vec<
    TranscriptSegment,
>)
    ensures
        kept@ == suppressed(segments@),
{
    let ghost all = segments@;
    let mut kept: Vec<TranscriptSegment> = Vec::new();
    for segment in it: segments
        invariant
            it.seq() == all,
            kept@ == suppressed(all.take(it.index() as int)),
    {
        let ghost i = it.index();
        assert(all.take(i + 1).drop_last() == all.take(i as int));
        assert(all.take(i + 1).last() == segment);
        proof {
            lemma_first_echo(kept@, segment);
        }
        let mut at: usize = 0;
        let mut found = false;
        while at < kept.len()
            invariant_except_break
                !found,
            invariant
                at <= kept.len(),
                forall|k: int| 0 <= k < at ==> !is_echo(#[trigger] kept@[k], segment),
                first_echo(kept@, segment) >= at,
                0 <= first_echo(kept@, segment) <= kept.len(),
                forall|k: int|
                    0 <= k < first_echo(kept@, segment) ==> !is_echo(#[trigger] kept@[k], segment),
                first_echo(kept@, segment) < kept.len() ==> is_echo(
                    kept@[first_echo(kept@, segment)],
                    segment,
                ),
            ensures
                found ==> at < kept.len() && at == first_echo(kept@, segment),
                !found ==> first_echo(kept@, segment) == kept.len(),
            decreases kept.len() - at,
        {
            let candidate = &kept[at];
            if cross_source(candidate, &segment) && time_overlap(candidate, &segment)
                && texts_similar(candidate.text.as_str(), segment.text.as_str()) {
                assert(is_echo(kept@[at as int], segment));
                found = true;
                break;
            }
            at = at + 1;
        }
        if found {
            let source: Option<&str> = match &segment.source {
                Some(s) => Some(s.as_str()),
                None => None,
            };
            if is_system_source(source) {
                kept.set(at, segment);
            }
        } else {
            kept.push(segment);
        }
    }
    assert(all.take(all.len() as int) == all);
    kept
}

// ---------------------------------------------------------------------
// Laws
// ---------------------------------------------------------------------

proof fn lemma_labels_exclusive(t: Seq<char>)
    ensures
        !(is_system_label(t) && is_microphone_label(t)),
{
    reveal_strlit("system");
    reveal_strlit("system audio");
    reveal_strlit("microphone");
}

proof fn lemma_echo_of_system_is_microphone(c: TranscriptSegment, s: TranscriptSegment)
    requires
        crosses_sources(c, s),
        from_system(s),
    ensures
        from_microphone(c),
{
    reveal_strlit("microphone");
    lemma_labels_exclusive(source_text(s));
    if c.source is None {
        assert(source_text(c).len() == 0);
    }
}

proof fn lemma_echo_of_non_system(c: TranscriptSegment, s: TranscriptSegment)
    requires
        crosses_sources(c, s),
        !from_system(s),
    ensures
        from_microphone(s),
        from_system(c),
{
    reveal_strlit("system");
    reveal_strlit("system audio");
    reveal_strlit("microphone");
    lemma_labels_exclusive(source_text(c));
    lemma_labels_exclusive(source_text(s));
    if s.source is None {
        assert(source_text(s).len() == 0);
    }
    if c.source is None {
        assert(source_text(c).len() == 0);
    }
}

/// The input positions of the kept segments, in the order of the result:
/// a segment that is appended takes the next place, and a system segment
/// that replaces the copy it repeats takes that copy's place.
pub open spec fn kept_positions(segs: Seq<TranscriptSegment>) -> Seq<int>
    decreases segs.len(),
{
    if segs.len() == 0 {
        Seq::empty()
    } else {
        let prev = segs.drop_last();
        let positions = kept_positions(prev);
        let kept = suppressed(prev);
        let seg = segs.last();
        let at = first_echo(kept, seg);
        if at < kept.len() {
            if from_system(seg) {
                positions.update(at, segs.len() - 1)
            } else {
                positions
            }
        } else {
            positions.push(segs.len() - 1)
        }
    }
}

/// Suppression selects input segments without repeating any, and drops
/// only echoes: the result is the input at distinct positions, and every
/// segment left out comes from the microphone and, with a system-audio
/// segment of the input, forms an overlapping, near-identical
/// cross-source pair.
pub proof fn lemma_suppression_selects_input(segs: Seq<TranscriptSegment>)
    ensures
        kept_positions(segs).len() == suppressed(segs).len(),
        forall|k: int|
            0 <= k < suppressed(segs).len() ==> 0 <= #[trigger] kept_positions(segs)[k] < segs.len()
                && suppressed(segs)[k] == segs[kept_positions(segs)[k]],
        forall|k1: int, k2: int|
            0 <= k1 < k2 < suppressed(segs).len() ==> #[trigger] kept_positions(segs)[k1]
                != #[trigger] kept_positions(segs)[k2],
        forall|i: int|
            0 <= i < segs.len() && !kept_positions(segs).contains(i) ==> {
                &&& from_microphone(#[trigger] segs[i])
                &&& exists|j: int|
                    0 <= j < segs.len() && from_system(#[trigger] segs[j]) && (is_echo(segs[i], segs[j])
                        || is_echo(segs[j], segs[i]))
            },
    decreases segs.len(),
{
    if segs.len() > 0 {
        let n = segs.len() - 1;
        let prev = segs.drop_last();
        lemma_suppression_selects_input(prev);
        let positions = kept_positions(prev);
        let kept = suppressed(prev);
        let seg = segs.last();
        lemma_first_echo(kept, seg);
        let at = first_echo(kept, seg);
        let result = kept_positions(segs);
        assert forall|k: int| 0 <= k < positions.len() implies 0 <= #[trigger] positions[k] < n
            && prev[positions[k]] == segs[positions[k]] by {
        }
        assert forall|i: int|
            0 <= i < segs.len() && !result.contains(i) implies {
                &&& from_microphone(#[trigger] segs[i])
                &&& exists|j: int|
                    0 <= j < segs.len() && from_system(#[trigger] segs[j]) && (is_echo(segs[i], segs[j])
                        || is_echo(segs[j], segs[i]))
            } by {
            if i == n {
                // dropped on arrival: it repeats a kept system copy
                if at < kept.len() && !from_system(seg) {
                    let j = positions[at];
                    lemma_echo_of_non_system(kept[at], seg);
                    assert(segs[j] == kept[at]);
                    assert(is_echo(segs[j], segs[i]));
                } else if at < kept.len() {
                    assert(result[at] == n);
                } else {
                    assert(result[positions.len() as int] == n);
                }
            } else {
                assert(prev[i] == segs[i]);
                if positions.contains(i) {
                    let k = choose|k: int| 0 <= k < positions.len() && positions[k] == i;
                    if at < kept.len() && from_system(seg) && k == at {
                        lemma_echo_of_system_is_microphone(kept[at], seg);
                        assert(kept[at] == segs[i]);
                        assert(is_echo(segs[i], segs[n]));
                    } else {
                        assert(result[k] == i);
                    }
                } else {
                    let j = choose|j: int|
                        0 <= j < prev.len() && from_system(#[trigger] prev[j]) && (is_echo(
                            prev[i],
                            prev[j],
                        ) || is_echo(prev[j], prev[i]));
                    assert(segs[j] == prev[j]);
                }
            }
        }
    }
}

/// Suppression never invents a segment and never grows the transcript:
/// every kept segment is one of the input segments.
pub proof fn lemma_suppressed_from_input(segs: Seq<TranscriptSegment>)
    ensures
        suppressed(segs).len() <= segs.len(),
        forall|k: int|
            0 <= k < suppressed(segs).len() ==> segs.contains(#[trigger] suppressed(segs)[k]),
    decreases segs.len(),
{
    if segs.len() > 0 {
        let prev = segs.drop_last();
        lemma_suppressed_from_input(prev);
        let kept = suppressed(prev);
        let seg = segs.last();
        lemma_first_echo(kept, seg);
        assert forall|k: int| 0 <= k < suppressed(segs).len() implies segs.contains(
            #[trigger] suppressed(segs)[k],
        ) by {
            let x = suppressed(segs)[k];
            if x == seg {
                assert(segs[segs.len() - 1] == seg);
            } else {
                assert(kept.contains(x) || x == seg);
                if k < kept.len() && kept[k] == x {
                    assert(prev.contains(x));
                    let j = choose|j: int| 0 <= j < prev.len() && prev[j] == x;
                    assert(segs[j] == x);
                }
            }
        }
    }
}

/// With audio times on both segments, they overlap exactly when each one
/// starts no later than 750 ms after the other ends; the relation is
/// symmetric, and it fails when one segment starts more than 750 ms after
/// the other ends.
pub proof fn lemma_time_overlap_window(left: TranscriptSegment, right: TranscriptSegment)
    requires
        both_timed(left, right),
    ensures
        overlapping_times(left, right) <==> (left.audio_start_ms->0 <= right.audio_end_ms->0 + 750
            && right.audio_start_ms->0 <= left.audio_end_ms->0 + 750),
        overlapping_times(left, right) == overlapping_times(right, left),
        left.audio_start_ms->0 > right.audio_end_ms->0 + 750 ==> !overlapping_times(left, right),
        right.audio_start_ms->0 > left.audio_end_ms->0 + 750 ==> !overlapping_times(left, right),
{
}

/// Time overlap is symmetric in its two segments, timed or not.
pub proof fn lemma_time_overlap_symmetric(left: TranscriptSegment, right: TranscriptSegment)
    ensures
        overlapping_times(left, right) == overlapping_times(right, left),
{
}

/// Segments far apart in time are never echoes: a timed segment that
/// starts more than 750 ms after, or ends more than 750 ms before, every
/// other (timed) segment is kept, whatever the sources and texts.
pub proof fn lemma_suppressed_keeps_isolated(segs: Seq<TranscriptSegment>, i: int)
    requires
        0 <= i < segs.len(),
        forall|j: int|
            0 <= j < segs.len() && j != i ==> {
                &&& both_timed(#[trigger] segs[j], segs[i])
                &&& (segs[j].audio_start_ms->0 > segs[i].audio_end_ms->0 + 750
                    || segs[i].audio_start_ms->0 > segs[j].audio_end_ms->0 + 750)
            },
    ensures
        suppressed(segs).contains(segs[i]),
{
    assert forall|j: int| 0 <= j < segs.len() && j != i implies !is_echo(
        #[trigger] segs[j],
        segs[i],
    ) && !is_echo(segs[i], segs[j]) by {
        lemma_time_overlap_window(segs[j], segs[i]);
    }
    lemma_suppressed_keeps_unpaired(segs, i);
}

/// Only microphone segments are ever removed: every segment that does not
/// come from the microphone (system audio above all) is in the result.
pub proof fn lemma_suppressed_keeps_non_microphone(segs: Seq<TranscriptSegment>, i: int)
    requires
        0 <= i < segs.len(),
        !from_microphone(segs[i]),
    ensures
        suppressed(segs).contains(segs[i]),
    decreases segs.len(),
{
    let prev = segs.drop_last();
    let kept = suppressed(prev);
    let seg = segs.last();
    lemma_first_echo(kept, seg);
    let at = first_echo(kept, seg);
    if i == segs.len() - 1 {
        if at < kept.len() {
            if from_system(seg) {
                assert(suppressed(segs)[at] == seg);
            } else {
                assert(crosses_sources(kept[at], seg));
                let l = source_text(kept[at]);
                let r = source_text(seg);
                if seg.source is None {
                    assert(r.len() == 0);
                    reveal_strlit("system");
                    reveal_strlit("system audio");
                    reveal_strlit("microphone");
                }
                assert(false);
            }
        } else {
            assert(suppressed(segs)[kept.len() as int] == seg);
        }
    } else {
        assert(prev[i] == segs[i]);
        lemma_suppressed_keeps_non_microphone(prev, i);
        let p = choose|p: int| 0 <= p < kept.len() && kept[p] == segs[i];
        if at < kept.len() && from_system(seg) {
            if p == at {
                lemma_echo_of_system_is_microphone(kept[at], seg);
            }
            assert(suppressed(segs)[p] == segs[i]);
        } else if at < kept.len() {
            assert(suppressed(segs)[p] == segs[i]);
        } else {
            assert(suppressed(segs)[p] == segs[i]);
        }
    }
}

/// Distinct speech is preserved: a segment that neither repeats nor is
/// repeated by any other segment is in the result.
pub proof fn lemma_suppressed_keeps_unpaired(segs: Seq<TranscriptSegment>, i: int)
    requires
        0 <= i < segs.len(),
        forall|j: int|
            0 <= j < segs.len() && j != i ==> !is_echo(#[trigger] segs[j], segs[i]) && !is_echo(
                segs[i],
                segs[j],
            ),
    ensures
        suppressed(segs).contains(segs[i]),
    decreases segs.len(),
{
    let prev = segs.drop_last();
    let kept = suppressed(prev);
    let seg = segs.last();
    lemma_first_echo(kept, seg);
    lemma_suppressed_from_input(prev);
    let at = first_echo(kept, seg);
    if i == segs.len() - 1 {
        if at < kept.len() {
            let x = kept[at];
            assert(prev.contains(x));
            let j = choose|j: int| 0 <= j < prev.len() && prev[j] == x;
            assert(segs[j] == x);
            assert(false);
        } else {
            assert(suppressed(segs)[kept.len() as int] == seg);
        }
    } else {
        assert(prev[i] == segs[i]);
        assert forall|j: int| 0 <= j < prev.len() && j != i implies !is_echo(
            #[trigger] prev[j],
            prev[i],
        ) && !is_echo(prev[i], prev[j]) by {
            assert(prev[j] == segs[j]);
        }
        lemma_suppressed_keeps_unpaired(prev, i);
        let p = choose|p: int| 0 <= p < kept.len() && kept[p] == segs[i];
        if at < kept.len() && from_system(seg) {
            if p == at {
                assert(is_echo(segs[i], segs[segs.len() - 1]));
                assert(false);
            }
            assert(suppressed(segs)[p] == segs[i]);
        } else {
            assert(suppressed(segs)[p] == segs[i]);
        }
    }
}

} // verus!
