//! Cited question answering over saved meetings: preparing the search
//! query for a question and composing the extractive, cited answer.

use vstd::prelude::*;
use crate::text::{
    append_chars, char_is_alphanumeric, chars_equal_str, chars_of, decimal, filter_chars,
    fts_quoted, is_alphanumeric, join, join_chars, push_chars, push_decimal, push_str,
    quote_term, split_whitespace, string_of, to_lowercase, trim, trim_ws, views, ws_tokens,
    str_lowercase, has_suffix,
};

verus! {

broadcast use vstd::string::group_string_axioms;

/// A character kept in a question term.
pub open spec fn is_question_char(c: char) -> bool {
    char_is_alphanumeric(c) || c == '-' || c == '_'
}

/// Words that carry no subject in a question.
pub open spec fn is_stop_word(t: Seq<char>) -> bool {
    ||| t == "a"@ ||| t == "an"@ ||| t == "and"@ ||| t == "are"@ ||| t == "did"@
    ||| t == "do"@ ||| t == "for"@ ||| t == "from"@ ||| t == "how"@ ||| t == "i"@
    ||| t == "in"@ ||| t == "is"@ ||| t == "it"@ ||| t == "me"@ ||| t == "of"@
    ||| t == "on"@ ||| t == "our"@ ||| t == "the"@ ||| t == "to"@ ||| t == "was"@
    ||| t == "we"@ ||| t == "what"@ ||| t == "when"@ ||| t == "where"@ ||| t == "who"@
    ||| t == "why"@ ||| t == "with"@
}

/// A word of a question reduced to its lower-cased term characters.
pub open spec fn question_term(w: Seq<char>) -> Seq<char> {
    str_lowercase(filter_chars(w, |c: char| is_question_char(c)))
}

/// A term is kept when its UTF-8 encoding is longer than one byte and it is
/// not a stop word.
pub open spec fn keeps_term(t: Seq<char>) -> bool {
    vstd::utf8::encode_utf8(t).len() > 1 && !is_stop_word(t)
}

/// The quoted subject terms of a list of words.
pub open spec fn question_terms(words: Seq<Seq<char>>) -> Seq<Seq<char>>
    decreases words.len(),
{
    if words.len() == 0 {
        Seq::empty()
    } else {
        let rest = question_terms(words.drop_last());
        let t = question_term(words.last());
        if keeps_term(t) {
            rest.push(fts_quoted(t))
        } else {
            rest
        }
    }
}

/// The FTS5 `OR` query for a question.
pub open spec fn question_query(question: Seq<char>) -> Seq<char> {
    join(question_terms(ws_tokens(question)), " OR "@)
}

/// The words of a question that carry a subject: those whose term is
/// longer than one byte and is not a stop word, in question order.
pub open spec fn subject_words(words: Seq<Seq<char>>) -> Seq<Seq<char>> {
    words.filter(|w: Seq<char>| keeps_term(question_term(w)))
}

/// The query's terms are exactly the quoted terms of the subject words, in
/// question order: no subject word is dropped, however many there are, and
/// no other word is added.
pub proof fn lemma_question_terms_are_subject_words(words: Seq<Seq<char>>)
    ensures
        question_terms(words) == subject_words(words).map_values(
            |w: Seq<char>| fts_quoted(question_term(w)),
        ),
    decreases words.len(),
{
    reveal(Seq::filter);
    if words.len() > 0 {
        let prev = words.drop_last();
        lemma_question_terms_are_subject_words(prev);
        let f = |w: Seq<char>| fts_quoted(question_term(w));
        let kept_prev = subject_words(prev);
        if keeps_term(question_term(words.last())) {
            assert(subject_words(words) == kept_prev.push(words.last()));
            assert(subject_words(words).map_values(f) =~= kept_prev.map_values(f).push(
                f(words.last()),
            ));
        } else {
            assert(subject_words(words) == kept_prev);
        }
    } else {
        assert(subject_words(words).map_values(|w: Seq<char>| fts_quoted(question_term(w)))
            =~= Seq::<Seq<char>>::empty());
    }
}

fn stop_word(t: &Vec<char>) -> (b: bool)
    ensures
        b == is_stop_word(t@),
{
    chars_equal_str(t, "a") || chars_equal_str(t, "an") || chars_equal_str(t, "and")
        || chars_equal_str(t, "are") || chars_equal_str(t, "did") || chars_equal_str(t, "do")
        || chars_equal_str(t, "for") || chars_equal_str(t, "from") || chars_equal_str(t, "how")
        || chars_equal_str(t, "i") || chars_equal_str(t, "in") || chars_equal_str(t, "is")
        || chars_equal_str(t, "it") || chars_equal_str(t, "me") || chars_equal_str(t, "of")
        || chars_equal_str(t, "on") || chars_equal_str(t, "our") || chars_equal_str(t, "the")
        || chars_equal_str(t, "to") || chars_equal_str(t, "was") || chars_equal_str(t, "we")
        || chars_equal_str(t, "what") || chars_equal_str(t, "when") || chars_equal_str(
        t,
        "where",
    ) || chars_equal_str(t, "who") || chars_equal_str(t, "why") || chars_equal_str(t, "with")
}

fn question_chars(t: &Vec<char>) -> (r: Vec<char>)
    ensures
        r@ == filter_chars(t@, |c: char| is_question_char(c)),
{
    let mut r: Vec<char> = Vec::new();
    let mut i: usize = 0;
    while i < t.len()
        invariant
            i <= t.len(),
            r@ == filter_chars(t@.take(i as int), |c: char| is_question_char(c)),
        decreases t.len() - i,
    {
        assert(t@.take(i + 1).drop_last() == t@.take(i as int));
        let c = t[i];
        if is_alphanumeric(c) || c == '-' || c == '_' {
            r.push(c);
        }
        i = i + 1;
    }
    assert(t@.take(t.len() as int) == t@);
    r
}

/// Turns a natural-language question into an FTS5 `OR` query over its
/// subject words, dropping filler words.
pub fn prepare_question_query(question: &str) -> (r: String)
    ensures
        r@ == question_query(question@),
        r@ == join(
            subject_words(ws_tokens(question@)).map_values(
                |w: Seq<char>| fts_quoted(question_term(w)),
            ),
            " OR "@,
        ),
{
    proof {
        lemma_question_terms_are_subject_words(ws_tokens(question@));
    }
    let chars = chars_of(question);
    let words = split_whitespace(&chars);
    let mut terms: Vec<Vec<char>> = Vec::new();
    let mut i: usize = 0;
    while i < words.len()
        invariant
            i <= words.len(),
            views(words@) == ws_tokens(question@),
            views(terms@) == question_terms(views(words@).take(i as int)),
        decreases words.len() - i,
    {
        assert(views(words@).take(i + 1).drop_last() == views(words@).take(i as int));
        assert(views(words@).take(i + 1).last() == words@[i as int]@);
        let kept = question_chars(&words[i]);
        let kept_string = string_of(&kept);
        let lowered = to_lowercase(kept_string.as_str());
        let byte_len = lowered.as_str().as_bytes().len();
        let t = chars_of(lowered.as_str());
        assert(t@ == question_term(words@[i as int]@));
        assert(byte_len == vstd::utf8::encode_utf8(t@).len());
        if byte_len > 1 && !stop_word(&t) {
            let q = quote_term(&t);
            let ghost before = views(terms@);
            terms.push(q);
            assert(views(terms@) =~= before.push(q@));
        }
        i = i + 1;
    }
    assert(views(words@).take(words.len() as int) == views(words@));
    let sep = chars_of(" OR ");
    let joined = join_chars(&terms, &sep);
    string_of(&joined)
}

/// One transcript passage that supports an answer. The audio time is in
/// integer milliseconds from the start of the recording.
pub struct MeetingCitation {
    pub meeting_id: String,
    pub meeting_title: String,
    pub transcript_id: String,
    pub timestamp: String,
    pub audio_start_ms: Option<i64>,
    pub speaker: Option<String>,
    pub quote: String,
}

/// An extractive answer: the evidence found for a question.
pub struct MeetingAnswer {
    pub question: String,
    pub answer: String,
    pub citations: Vec<MeetingCitation>,
    pub grounded: bool,
}

/// The answer given when the question has no searchable words.
pub open spec fn too_vague_answer() -> Seq<char> {
    "Ask a more specific question using a person, project, decision, or topic from your meetings."@
}

/// The answer given when no transcript matched.
pub open spec fn no_evidence_answer() -> Seq<char> {
    "I could not find a grounded answer in the saved meeting transcripts."@
}

/// Who a citation is attributed to: its speaker, else its meeting title.
pub open spec fn citation_label(c: MeetingCitation) -> Seq<char> {
    match c.speaker {
        Some(s) => s@,
        None => c.meeting_title@,
    }
}

/// The evidence line `[n] label: quote` for the citation at position `k`.
pub open spec fn evidence_line(k: int, c: MeetingCitation) -> Seq<char> {
    "["@ + decimal((k + 1) as nat) + "] "@ + citation_label(c) + ": "@ + trim_ws(c.quote@)
}

/// The evidence lines of the citations, in order.
pub open spec fn evidence_lines(cs: Seq<MeetingCitation>) -> Seq<Seq<char>> {
    Seq::new(cs.len(), |k: int| evidence_line(k, cs[k]))
}

/// The answer text for the citations found.
pub open spec fn evidence_answer(cs: Seq<MeetingCitation>) -> Seq<char> {
    if cs.len() == 0 {
        no_evidence_answer()
    } else {
        "Relevant evidence from your meetings:\n"@ + join(evidence_lines(cs), "\n"@)
    }
}

/// The answer to a question whose query turned out empty.
pub fn too_vague(question: &str) -> (a: MeetingAnswer)
    ensures
        a.question@ == question@,
        a.answer@ == too_vague_answer(),
        a.citations@.len() == 0,
        !a.grounded,
{
    MeetingAnswer {
        question: question.to_owned(),
        answer: "Ask a more specific question using a person, project, decision, or topic from your meetings.".to_owned(),
        citations: Vec::new(),
        grounded: false,
    }
}

fn evidence_line_chars(k: usize, c: &MeetingCitation) -> (r: Vec<char>)
    requires
        k < usize::MAX,
    ensures
        r@ == evidence_line(k as int, *c),
{
    let mut s = String::new();
    push_str(&mut s, "[");
    push_decimal(&mut s, (k + 1) as u64);
    push_str(&mut s, "] ");
    match &c.speaker {
        Some(name) => push_str(&mut s, name.as_str()),
        None => push_str(&mut s, c.meeting_title.as_str()),
    }
    push_str(&mut s, ": ");
    let quote = chars_of(c.quote.as_str());
    let trimmed = trim(&quote);
    push_chars(&mut s, &trimmed);
    chars_of(s.as_str())
}

/// The extractive answer for the citations found, numbered in order.
pub fn answer_from_citations(question: &str, citations: Vec<MeetingCitation>) -> (a:
    MeetingAnswer)
    ensures
        a.question@ == question@,
        a.citations@ == citations@,
        a.answer@ == evidence_answer(citations@),
        a.grounded == (citations@.len() > 0),
{
    if citations.len() == 0 {
        return MeetingAnswer {
            question: question.to_owned(),
            answer: "I could not find a grounded answer in the saved meeting transcripts.".to_owned(),
            citations,
            grounded: false,
        };
    }
    let mut lines: Vec<Vec<char>> = Vec::new();
    let mut k: usize = 0;
    while k < citations.len()
        invariant
            k <= citations.len(),
            views(lines@) == evidence_lines(citations@).take(k as int),
        decreases citations.len() - k,
    {
        let line = evidence_line_chars(k, &citations[k]);
        let ghost before = views(lines@);
        lines.push(line);
        assert(views(lines@) =~= before.push(line@));
        k = k + 1;
    }
    assert(evidence_lines(citations@).take(citations.len() as int) == evidence_lines(citations@));
    let sep = chars_of("\n");
    let body = join_chars(&lines, &sep);
    let mut answer = String::new();
    push_str(&mut answer, "Relevant evidence from your meetings:\n");
    push_chars(&mut answer, &body);
    MeetingAnswer { question: question.to_owned(), answer, citations, grounded: true }
}

/// The number of citations to fetch: the requested limit within 1..=20.
pub fn citation_limit(limit: i64) -> (r: i64)
    ensures
        r == if limit < 1 { 1 } else if limit > 20 { 20 } else { limit },
{
    if limit < 1 {
        1
    } else if limit > 20 {
        20
    } else {
        limit
    }
}

/// How a question is answered: by searching for its query, or, when it
/// has no searchable words, with the answer asking for a more specific
/// question.
pub fn plan_question(question: &str) -> (r: Result<String, MeetingAnswer>)
    ensures
        match r {
            Ok(query) => query@ == question_query(question@) && query@.len() > 0,
            Err(a) => {
                &&& question_query(question@).len() == 0
                &&& a.question@ == question@
                &&& a.answer@ == too_vague_answer()
                &&& a.citations@.len() == 0
                &&& !a.grounded
            },
        },
{
    let query = prepare_question_query(question);
    if query.as_str().is_empty() {
        Err(too_vague(question))
    } else {
        Ok(query)
    }
}

/// Answers are extractive: a grounded answer is the evidence header
/// followed by one line per citation, in order, and the line of each
/// citation ends with its (trimmed) quote.
pub proof fn lemma_answer_is_extractive(cs: Seq<MeetingCitation>, k: int)
    requires
        0 <= k < cs.len(),
    ensures
        evidence_answer(cs) == "Relevant evidence from your meetings:\n"@ + join(evidence_lines(cs), "\n"@),
        evidence_lines(cs).len() == cs.len(),
        has_suffix(evidence_lines(cs)[k], trim_ws(cs[k].quote@)),
{
    let line = evidence_line(k, cs[k]);
    let q = trim_ws(cs[k].quote@);
    let head = "["@ + decimal((k + 1) as nat) + "] "@ + citation_label(cs[k]) + ": "@;
    assert(line == head + q);
    assert(line.subrange(line.len() - q.len(), line.len() as int) =~= q);
}

/// Every term of a question's query is a quoted FTS5 string of a kept
/// subject word (see [`crate::search::lemma_quoted_term_reads_back`] for
/// how such a string reads back).
pub proof fn lemma_question_terms_are_quoted(words: Seq<Seq<char>>, k: int)
    requires
        0 <= k < question_terms(words).len(),
    ensures
        exists|t: Seq<char>| keeps_term(t) && question_terms(words)[k] == #[trigger] fts_quoted(t),
    decreases words.len(),
{
    let rest = question_terms(words.drop_last());
    if k < rest.len() {
        lemma_question_terms_are_quoted(words.drop_last(), k);
    } else {
        let t = question_term(words.last());
        assert(question_terms(words)[k] == fts_quoted(t));
    }
}

} // verus!
