//! Durable meeting artifacts: the Markdown renderings of a meeting's
//! transcript, Live Notes and summary, the Obsidian note, and the plan of
//! files an export writes.

use vstd::prelude::*;
use crate::json::{as_str, compact, compact_text, get, member, text_of, JsonValue};
use crate::text::{
    append_chars, char_is_uppercase, char_uppercase, chars_of, is_uppercase, join, join_chars,
    push_chars, push_str, replace, replace_all, string_of, trim, trim_end, trim_end_ws, trim_ws,
    uppercase_char, views,
};

verus! {

broadcast use vstd::string::group_string_axioms;

/// The version of the artifact bundle format.
pub const ARTIFACT_SCHEMA_VERSION: &'static str = "1.0.0";

// ---------------------------------------------------------------------
// Key names
// ---------------------------------------------------------------------

/// A camel-case key spelled out: the first character upper-cased, a space
/// before every later upper-case character.
pub open spec fn spaced_key(s: Seq<char>) -> Seq<char>
    decreases s.len(),
{
    if s.len() == 0 {
        Seq::empty()
    } else if s.len() == 1 {
        char_uppercase(s[0])
    } else if char_is_uppercase(s.last()) {
        spaced_key(s.drop_last()) + seq![' ', s.last()]
    } else {
        spaced_key(s.drop_last()).push(s.last())
    }
}

/// A key as a heading: spelled out, with underscores as spaces.
pub open spec fn humanized(s: Seq<char>) -> Seq<char> {
    replace_all(spaced_key(s), seq!['_'], seq![' '])
}

/// Turns a JSON key such as `actionItems` into a heading (`Action Items`).
pub fn humanize(value: &str) -> (r: String)
    ensures
        r@ == humanized(value@),
{
    let chars = chars_of(value);
    let mut out: Vec<char> = Vec::new();
    let mut i: usize = 0;
    while i < chars.len()
        invariant
            i <= chars.len(),
            chars@ == value@,
            out@ == spaced_key(chars@.take(i as int)),
        decreases chars.len() - i,
    {
        let c = chars[i];
        assert(chars@.take(i + 1).drop_last() == chars@.take(i as int));
        assert(chars@.take(i + 1).last() == c);
        if i == 0 {
            let upper = uppercase_char(c);
            let up = chars_of(upper.as_str());
            append_chars(&mut out, &up);
            assert(chars@.take(1)[0] == c);
        } else {
            if is_uppercase(c) {
                out.push(' ');
            }
            out.push(c);
        }
        i = i + 1;
    }
    assert(chars@.take(chars.len() as int) == chars@);
    let mut pat: Vec<char> = Vec::new();
    pat.push('_');
    let mut rep: Vec<char> = Vec::new();
    rep.push(' ');
    assert(pat@ == seq!['_']);
    assert(rep@ == seq![' ']);
    let replaced = replace(&out, &pat, &rep);
    string_of(&replaced)
}

// ---------------------------------------------------------------------
// Nested JSON to Markdown
// ---------------------------------------------------------------------

/// A run of `n` `#` characters.
pub open spec fn hashes(n: nat) -> Seq<char> {
    Seq::new(n, |i: int| '#')
}

/// The number of `#` marks of a heading at `level`; Markdown has six.
pub open spec fn heading_marks(level: nat) -> nat {
    if level < 6 {
        level
    } else {
        6
    }
}

/// The heading level below `level`; from the sixth level down every
/// heading shows six marks, so deeper levels are counted as the sixth.
pub open spec fn deeper(level: nat) -> nat {
    if level < 6 {
        level + 1
    } else {
        6
    }
}

/// Keys that are bookkeeping, not content.
pub open spec fn skipped_key(k: Seq<char>) -> bool {
    k == "sectionOrder"@ || k == "metadata"@
}

/// The bullet for one list item: its text, else its `text` member, else its
/// compact JSON in backticks.
pub open spec fn item_line(it: JsonValue) -> Seq<char> {
    match it {
        JsonValue::Str(t) => "- "@ + trim_ws(t@),
        _ => match text_of(member(it, "text"@)) {
            Some(t) => "- "@ + trim_ws(t),
            None => "- `"@ + compact(it) + "`"@,
        },
    }
}

/// The Markdown lines of a JSON value at a heading level: an object gives a
/// heading per content key followed by its value one level deeper; a list
/// gives bullets (or `None noted.`); text gives itself trimmed; null gives
/// `None noted.`; other values give their JSON. Each part ends with a
/// blank line.
pub open spec fn json_lines(v: JsonValue, level: nat) -> Seq<Seq<char>>
    decreases v,
{
    match v {
        JsonValue::Object(entries, _) => entry_lines(entries@, level),
        JsonValue::Array(items, _) => if items@.len() == 0 {
            seq!["None noted."@, Seq::empty()]
        } else {
            items@.map_values(|it: JsonValue| item_line(it)).push(Seq::empty())
        },
        JsonValue::Str(t) => seq![trim_ws(t@), Seq::empty()],
        JsonValue::Null => seq!["None noted."@, Seq::empty()],
        _ => seq![compact(v), Seq::empty()],
    }
}

/// The Markdown lines of the entries of an object, in order.
pub open spec fn entry_lines(entries: Seq<(String, JsonValue)>, level: nat) -> Seq<Seq<char>>
    decreases entries,
{
    if entries.len() == 0 {
        Seq::empty()
    } else {
        let before = entry_lines(entries.drop_last(), level);
        let key = entries.last().0@;
        if skipped_key(key) {
            before
        } else {
            before + seq![hashes(heading_marks(level)).push(' ') + humanized(key), Seq::empty()] + json_lines(
                entries.last().1,
                deeper(level),
            )
        }
    }
}

fn push_line(lines: &mut Vec<Vec<char>>, s: &str)
    ensures
        views(final(lines)@) == views(old(lines)@).push(s@),
{
    let ghost before = views(lines@);
    lines.push(chars_of(s));
    assert(views(lines@) =~= before.push(s@));
}

fn push_blank(lines: &mut Vec<Vec<char>>)
    ensures
        views(final(lines)@) == views(old(lines)@).push(Seq::empty()),
{
    let ghost before = views(lines@);
    lines.push(Vec::new());
    assert(views(lines@) =~= before.push(Seq::empty()));
}

fn push_line_chars(lines: &mut Vec<Vec<char>>, s: Vec<char>)
    ensures
        views(final(lines)@) == views(old(lines)@).push(s@),
{
    let ghost before = views(lines@);
    let ghost sv = s@;
    lines.push(s);
    assert(views(lines@) =~= before.push(sv));
}

fn bullet(text: &String) -> (r: Vec<char>)
    ensures
        r@ == "- "@ + trim_ws(text@),
{
    let mut line = chars_of("- ");
    let t = chars_of(text.as_str());
    let trimmed = trim(&t);
    append_chars(&mut line, &trimmed);
    line
}

fn item_line_chars(it: &JsonValue) -> (r: Vec<char>)
    ensures
        r@ == item_line(*it),
{
    match it {
        JsonValue::Str(t) => bullet(t),
        _ => match as_str(get(it, "text")) {
            Some(t) => bullet(t),
            None => {
                let mut line = chars_of("- `");
                let c = compact_text(it);
                append_chars(&mut line, &chars_of(c.as_str()));
                append_chars(&mut line, &chars_of("`"));
                line
            },
        },
    }
}

/// Appends the Markdown lines of a JSON value.
pub fn push_json_lines(lines: &mut Vec<Vec<char>>, v: &JsonValue, level: usize)
    ensures
        views(final(lines)@) == views(old(lines)@) + json_lines(*v, level as nat),
    decreases v,
{
    let ghost start = views(lines@);
    match v {
        JsonValue::Object(entries, _) => {
            let next = if level < 6 {
                level + 1
            } else {
                6
            };
            let marks: usize = if level < 6 {
                level
            } else {
                6
            };
            let mut i: usize = 0;
            assert(entries@.take(0) =~= Seq::<(String, JsonValue)>::empty());
            while i < entries.len()
                invariant
                    i <= entries.len(),
                    marks == heading_marks(level as nat),
                    next == deeper(level as nat),
                    *v == JsonValue::Object(*entries, v->Object_1),
                    views(lines@) == start + entry_lines(entries@.take(i as int), level as nat),
                decreases entries.len() - i,
            {
                assert(entries@.take(i + 1).drop_last() == entries@.take(i as int));
                assert(entries@.take(i + 1).last() == entries@[i as int]);
                let key = &entries[i].0;
                let key_chars = chars_of(key.as_str());
                let skip = crate::text::chars_equal_str(&key_chars, "sectionOrder")
                    || crate::text::chars_equal_str(&key_chars, "metadata");
                if !skip {
                    let mut heading: Vec<char> = Vec::new();
                    let mut h: usize = 0;
                    while h < marks
                        invariant
                            h <= marks,
                            heading@ == hashes(h as nat),
                        decreases marks - h,
                    {
                        heading.push('#');
                        h = h + 1;
                        assert(heading@ =~= hashes(h as nat));
                    }
                    heading.push(' ');
                    let human = humanize(key.as_str());
                    append_chars(&mut heading, &chars_of(human.as_str()));
                    assert(heading@ == hashes(marks as nat).push(' ') + humanized(key@));
                    let ghost mid = views(lines@);
                    push_line_chars(lines, heading);
                    push_blank(lines);
                    let child = &entries[i].1;
                    assert(decreases_to!(*v => *child)) by {
                        assert(decreases_to!(*v => v->Object_0));
                        assert(decreases_to!(v->Object_0 => entries@));
                        assert(decreases_to!(entries@ => entries@[i as int]));
                        assert(decreases_to!(entries@[i as int] => entries@[i as int].1));
                    }
                    push_json_lines(lines, child, next);
                    assert(views(lines@) =~= start + entry_lines(entries@.take(i + 1), level as nat));
                }
                i = i + 1;
            }
            assert(entries@.take(entries.len() as int) == entries@);
        },
        JsonValue::Array(items, _) => {
            if items.len() == 0 {
                push_line(lines, "None noted.");
                push_blank(lines);
                assert(views(lines@) =~= start + json_lines(*v, level as nat));
            } else {
                let mut i: usize = 0;
                while i < items.len()
                    invariant
                        i <= items.len(),
                        views(lines@) == start + items@.take(i as int).map_values(
                            |it: JsonValue| item_line(it),
                        ),
                    decreases items.len() - i,
                {
                    let line = item_line_chars(&items[i]);
                    push_line_chars(lines, line);
                    assert(items@.take(i + 1).map_values(|it: JsonValue| item_line(it))
                        =~= items@.take(i as int).map_values(|it: JsonValue| item_line(it)).push(
                        item_line(items@[i as int]),
                    ));
                    i = i + 1;
                }
                push_blank(lines);
                assert(items@.take(items.len() as int) == items@);
                assert(views(lines@) =~= start + json_lines(*v, level as nat));
            }
        },
        JsonValue::Str(t) => {
            let tc = chars_of(t.as_str());
            push_line_chars(lines, trim(&tc));
            push_blank(lines);
            assert(views(lines@) =~= start + json_lines(*v, level as nat));
        },
        JsonValue::Null => {
            push_line(lines, "None noted.");
            push_blank(lines);
            assert(views(lines@) =~= start + json_lines(*v, level as nat));
        },
        _ => {
            let c = compact_text(v);
            push_line_chars(lines, chars_of(c.as_str()));
            push_blank(lines);
            assert(views(lines@) =~= start + json_lines(*v, level as nat));
        },
    }
}

// ---------------------------------------------------------------------
// Live Notes and summary
// ---------------------------------------------------------------------

/// The text shown for a single-value section: the text when it has
/// non-blank content, else `None noted.`.
pub open spec fn scalar_text(v: Option<JsonValue>) -> Seq<char> {
    match text_of(v) {
        Some(t) => if trim_ws(t).len() > 0 {
            t
        } else {
            "None noted."@
        },
        None => "None noted."@,
    }
}

/// A section holding one text value.
#[verifier::opaque]
pub open spec fn scalar_section(title: Seq<char>, v: Option<JsonValue>) -> Seq<Seq<char>> {
    seq!["## "@ + title, Seq::empty(), scalar_text(v), Seq::empty()]
}

/// The bullets for the text items of a list, other items skipped.
pub open spec fn text_bullets(items: Seq<JsonValue>) -> Seq<Seq<char>>
    decreases items.len(),
{
    if items.len() == 0 {
        Seq::empty()
    } else {
        let before = text_bullets(items.drop_last());
        match items.last() {
            JsonValue::Str(t) => before.push("- "@ + trim_ws(t@)),
            _ => before,
        }
    }
}

/// The items of a non-empty list value.
pub open spec fn nonempty_items(v: Option<JsonValue>) -> Option<Seq<JsonValue>> {
    match v {
        Some(JsonValue::Array(items, _)) => if items@.len() > 0 {
            Some(items@)
        } else {
            None
        },
        _ => None,
    }
}

/// A section listing text items.
#[verifier::opaque]
pub open spec fn text_list_section(title: Seq<char>, v: Option<JsonValue>) -> Seq<Seq<char>> {
    seq!["## "@ + title, Seq::empty()] + match nonempty_items(v) {
        Some(items) => text_bullets(items),
        None => seq!["None noted."@],
    } + seq![Seq::empty()]
}

/// The text of a list item: its `text` member, else itself if it is text,
/// else `Untitled item`.
pub open spec fn item_text(it: JsonValue) -> Seq<char> {
    match text_of(member(it, "text"@)) {
        Some(t) => t,
        None => match it {
            JsonValue::Str(t) => t@,
            _ => "Untitled item"@,
        },
    }
}

/// The owner note of a list item, when it names an owner.
pub open spec fn owner_suffix(it: JsonValue) -> Seq<char> {
    match text_of(member(it, "owner"@)) {
        Some(o) => " (owner: "@ + o + ")"@,
        None => Seq::empty(),
    }
}

/// The bullet of an item in an object list.
pub open spec fn object_bullet(it: JsonValue) -> Seq<char> {
    "- "@ + trim_ws(item_text(it)) + owner_suffix(it)
}

/// A section listing items such as decisions and action items.
#[verifier::opaque]
pub open spec fn object_list_section(title: Seq<char>, v: Option<JsonValue>) -> Seq<Seq<char>> {
    seq!["## "@ + title, Seq::empty()] + match nonempty_items(v) {
        Some(items) => items.map_values(|it: JsonValue| object_bullet(it)),
        None => seq!["None noted."@],
    } + seq![Seq::empty()]
}

/// The lines of the Live Notes document.
pub open spec fn live_notes_lines(v: JsonValue) -> Seq<Seq<char>> {
    seq!["# Live Notes"@, Seq::empty()] + scalar_section(
        "Current Topic"@,
        member(v, "currentTopic"@),
    ) + text_list_section("Rolling Summary"@, member(v, "rollingSummary"@)) + text_list_section(
        "Key Points"@,
        member(v, "keyPoints"@),
    ) + object_list_section("Decisions"@, member(v, "decisions"@)) + object_list_section(
        "Action Items"@,
        member(v, "actionItems"@),
    ) + text_list_section("Open Questions"@, member(v, "openQuestions"@)) + text_list_section(
        "Risks"@,
        member(v, "risks"@),
    ) + object_list_section("Highlights"@, member(v, "highlights"@))
}

/// Lines joined with line feeds, trailing whitespace dropped, one final
/// line feed.
pub open spec fn finish_document(lines: Seq<Seq<char>>) -> Seq<char> {
    trim_end_ws(join(lines, seq!['\n'])).push('\n')
}

/// The Live Notes document in Markdown.
pub open spec fn live_notes_markdown(v: JsonValue) -> Seq<char> {
    finish_document(live_notes_lines(v))
}

/// The summary document in Markdown: a text summary as a paragraph, any
/// other value rendered as nested sections from heading level two.
pub open spec fn summary_markdown(v: JsonValue) -> Seq<char> {
    match v {
        JsonValue::Str(t) => "# Meeting Summary"@ + seq!['\n', '\n'] + trim_ws(t@).push('\n'),
        _ => finish_document(seq!["# Meeting Summary"@, Seq::empty()] + json_lines(v, 2)),
    }
}

/// An optional reference seen as an optional value.
pub open spec fn deref_opt(o: Option<&JsonValue>) -> Option<JsonValue> {
    match o {
        Some(x) => Some(*x),
        None => None,
    }
}

fn section_title(lines: &mut Vec<Vec<char>>, title: &str)
    ensures
        views(final(lines)@) == views(old(lines)@) + seq!["## "@ + title@, Seq::<char>::empty()],
{
    let ghost before = views(lines@);
    let mut head = chars_of("## ");
    append_chars(&mut head, &chars_of(title));
    push_line_chars(lines, head);
    push_blank(lines);
    assert(views(lines@) =~= before + seq!["## "@ + title@, Seq::<char>::empty()]);
}

fn push_scalar_section(lines: &mut Vec<Vec<char>>, title: &str, value: Option<&JsonValue>)
    ensures
        views(final(lines)@) == views(old(lines)@) + scalar_section(title@, deref_opt(value)),
{
    reveal(scalar_section);
    let ghost before = views(lines@);
    section_title(lines, title);
    let text: Vec<char> = match as_str(value) {
        Some(t) => {
            let tc = chars_of(t.as_str());
            let trimmed = trim(&tc);
            if trimmed.len() > 0 {
                tc
            } else {
                chars_of("None noted.")
            }
        },
        None => chars_of("None noted."),
    };
    push_line_chars(lines, text);
    push_blank(lines);
    assert(views(lines@) =~= before + scalar_section(title@, deref_opt(value)));
}

fn push_text_list_section(lines: &mut Vec<Vec<char>>, title: &str, value: Option<&JsonValue>)
    ensures
        views(final(lines)@) == views(old(lines)@) + text_list_section(title@, deref_opt(value)),
{
    reveal(text_list_section);
    let ghost before = views(lines@);
    section_title(lines, title);
    let ghost mid = views(lines@);
    match value {
        Some(JsonValue::Array(items, _)) if items.len() > 0 => {
            let mut i: usize = 0;
            while i < items.len()
                invariant
                    i <= items.len(),
                    views(lines@) == mid + text_bullets(items@.take(i as int)),
                decreases items.len() - i,
            {
                assert(items@.take(i + 1).drop_last() == items@.take(i as int));
                assert(items@.take(i + 1).last() == items@[i as int]);
                match &items[i] {
                    JsonValue::Str(t) => {
                        let b = bullet(t);
                        push_line_chars(lines, b);
                    },
                    _ => {},
                }
                i = i + 1;
            }
            assert(items@.take(items.len() as int) == items@);
        },
        _ => {
            push_line(lines, "None noted.");
        },
    }
    push_blank(lines);
    assert(views(lines@) =~= before + text_list_section(title@, deref_opt(value)));
}

fn object_bullet_chars(it: &JsonValue) -> (r: Vec<char>)
    ensures
        r@ == object_bullet(*it),
{
    let text: Vec<char> = match as_str(get(it, "text")) {
        Some(t) => chars_of(t.as_str()),
        None => match it {
            JsonValue::Str(t) => chars_of(t.as_str()),
            _ => chars_of("Untitled item"),
        },
    };
    let mut line = chars_of("- ");
    append_chars(&mut line, &trim(&text));
    match as_str(get(it, "owner")) {
        Some(o) => {
            append_chars(&mut line, &chars_of(" (owner: "));
            append_chars(&mut line, &chars_of(o.as_str()));
            append_chars(&mut line, &chars_of(")"));
        },
        None => {},
    }
    line
}

fn push_object_list_section(lines: &mut Vec<Vec<char>>, title: &str, value: Option<&JsonValue>)
    ensures
        views(final(lines)@) == views(old(lines)@) + object_list_section(title@, deref_opt(value)),
{
    reveal(object_list_section);
    let ghost before = views(lines@);
    section_title(lines, title);
    let ghost mid = views(lines@);
    match value {
        Some(JsonValue::Array(items, _)) if items.len() > 0 => {
            let mut i: usize = 0;
            while i < items.len()
                invariant
                    i <= items.len(),
                    views(lines@) == mid + items@.take(i as int).map_values(
                        |it: JsonValue| object_bullet(it),
                    ),
                decreases items.len() - i,
            {
                let b = object_bullet_chars(&items[i]);
                push_line_chars(lines, b);
                assert(items@.take(i + 1).map_values(|it: JsonValue| object_bullet(it))
                    =~= items@.take(i as int).map_values(|it: JsonValue| object_bullet(it)).push(
                    object_bullet(items@[i as int]),
                ));
                i = i + 1;
            }
            assert(items@.take(items.len() as int) == items@);
        },
        _ => {
            push_line(lines, "None noted.");
        },
    }
    push_blank(lines);
    assert(views(lines@) =~= before + object_list_section(title@, deref_opt(value)));
}

fn finish(lines: &Vec<Vec<char>>) -> (r: String)
    ensures
        r@ == finish_document(views(lines@)),
{
    let mut nl: Vec<char> = Vec::new();
    nl.push('\n');
    let joined = join_chars(lines, &nl);
    let mut body = trim_end(&joined);
    body.push('\n');
    string_of(&body)
}

/// Renders Live Notes (rolling summary, key points, decisions, action items,
/// open questions, risks and highlights) as a Markdown document.
pub fn render_live_notes_markdown(value: &JsonValue) -> (r: String)
    ensures
        r@ == live_notes_markdown(*value),
{
    let mut lines: Vec<Vec<char>> = Vec::new();
    push_line(&mut lines, "# Live Notes");
    push_blank(&mut lines);
    push_scalar_section(&mut lines, "Current Topic", get(value, "currentTopic"));
    push_text_list_section(&mut lines, "Rolling Summary", get(value, "rollingSummary"));
    push_text_list_section(&mut lines, "Key Points", get(value, "keyPoints"));
    push_object_list_section(&mut lines, "Decisions", get(value, "decisions"));
    push_object_list_section(&mut lines, "Action Items", get(value, "actionItems"));
    push_text_list_section(&mut lines, "Open Questions", get(value, "openQuestions"));
    push_text_list_section(&mut lines, "Risks", get(value, "risks"));
    push_object_list_section(&mut lines, "Highlights", get(value, "highlights"));
    assert(views(lines@) =~= live_notes_lines(*value));
    finish(&lines)
}

/// Renders a meeting summary as a Markdown document, keeping every nested
/// section and list item.
pub fn render_summary_markdown(value: &JsonValue) -> (r: String)
    ensures
        r@ == summary_markdown(*value),
{
    match value {
        JsonValue::Str(text) => {
            let mut out = String::new();
            push_str(&mut out, "# Meeting Summary");
            push_char2(&mut out);
            let tc = chars_of(text.as_str());
            push_chars(&mut out, &trim(&tc));
            crate::text::push_char(&mut out, '\n');
            out
        },
        _ => {
            let mut lines: Vec<Vec<char>> = Vec::new();
            push_line(&mut lines, "# Meeting Summary");
            push_blank(&mut lines);
            push_json_lines(&mut lines, value, 2);
            assert(views(lines@) =~= seq!["# Meeting Summary"@, Seq::<char>::empty()] + json_lines(
                *value,
                2,
            ));
            finish(&lines)
        },
    }
}

fn push_char2(s: &mut String)
    ensures
        final(s)@ == old(s)@ + seq!['\n', '\n'],
{
    crate::text::push_char(s, '\n');
    crate::text::push_char(s, '\n');
    assert(s@ =~= old(s)@ + seq!['\n', '\n']);
}

// ---------------------------------------------------------------------
// Transcript and Obsidian note
// ---------------------------------------------------------------------

/// A saved meeting. `created_at` is RFC 3339 text.
#[derive(Debug)]
pub struct MeetingRecord {
    pub id: String,
    pub title: String,
    pub created_at: String,
    pub updated_at: String,
    pub folder_path: Option<String>,
}

/// One saved transcript segment, as the renderers read it. The audio start
/// is in integer milliseconds from the start of the recording.
#[derive(Debug)]
pub struct TranscriptEntry {
    pub transcript: String,
    pub timestamp: String,
    pub speaker: Option<String>,
    pub source: Option<String>,
    pub audio_start_ms: Option<i64>,
}

/// The `MM:SS` position of an audio time (negative times read as zero;
/// minutes are not capped).
pub open spec fn clock_text(ms: i64) -> Seq<char> {
    let total: nat = if ms < 0 {
        0
    } else {
        (ms / 1000) as nat
    };
    crate::text::decimal2(total / 60) + ":"@ + crate::text::decimal2(total % 60)
}

/// The bullet of a transcript segment: `- **[time] speaker:** text`, the
/// time being the audio position (else the wall-clock stamp) and the
/// speaker the label (else the source, else `Speaker`).
pub open spec fn transcript_bullet(e: TranscriptEntry) -> Seq<char> {
    let time = match e.audio_start_ms {
        Some(ms) => clock_text(ms),
        None => e.timestamp@,
    };
    let speaker = match e.speaker {
        Some(s) => s@,
        None => match e.source {
            Some(s) => s@,
            None => "Speaker"@,
        },
    };
    "- **["@ + time + "] "@ + speaker + ":** "@ + trim_ws(e.transcript@)
}

/// The lines of the transcript document.
pub open spec fn transcript_lines(m: MeetingRecord, entries: Seq<TranscriptEntry>) -> Seq<Seq<char>> {
    seq![
        "# "@ + m.title@,
        Seq::empty(),
        "Meeting ID: `"@ + m.id@ + "`"@,
        "Created: "@ + m.created_at@,
        Seq::empty(),
        "## Transcript"@,
        Seq::empty(),
    ] + entries.map_values(|e: TranscriptEntry| transcript_bullet(e)) + seq![Seq::empty()]
}

/// The transcript document in Markdown.
pub open spec fn transcript_markdown(m: MeetingRecord, entries: Seq<TranscriptEntry>) -> Seq<char> {
    join(transcript_lines(m, entries), seq!['\n'])
}

/// Renders an audio time as `MM:SS`.
pub fn format_clock(ms: i64) -> (r: String)
    ensures
        r@ == clock_text(ms),
{
    let total: u64 = if ms < 0 {
        0
    } else {
        (ms / 1000) as u64
    };
    let mut out = String::new();
    crate::text::push_decimal2(&mut out, total / 60);
    push_str(&mut out, ":");
    crate::text::push_decimal2(&mut out, total % 60);
    out
}

fn transcript_bullet_chars(e: &TranscriptEntry) -> (r: Vec<char>)
    ensures
        r@ == transcript_bullet(*e),
{
    let mut out = String::new();
    push_str(&mut out, "- **[");
    match e.audio_start_ms {
        Some(ms) => {
            let c = format_clock(ms);
            push_str(&mut out, c.as_str());
        },
        None => push_str(&mut out, e.timestamp.as_str()),
    }
    push_str(&mut out, "] ");
    match &e.speaker {
        Some(s) => push_str(&mut out, s.as_str()),
        None => match &e.source {
            Some(s) => push_str(&mut out, s.as_str()),
            None => push_str(&mut out, "Speaker"),
        },
    }
    push_str(&mut out, ":** ");
    let t = chars_of(e.transcript.as_str());
    push_chars(&mut out, &trim(&t));
    chars_of(out.as_str())
}

fn text_line2(a: &str, b: &str) -> (r: Vec<char>)
    ensures
        r@ == a@ + b@,
{
    let mut v = chars_of(a);
    append_chars(&mut v, &chars_of(b));
    v
}

/// Renders the transcript of a meeting as Markdown.
pub fn render_transcript_markdown(meeting: &MeetingRecord, entries: &Vec<TranscriptEntry>) -> (r:
    String)
    ensures
        r@ == transcript_markdown(*meeting, entries@),
{
    let mut lines: Vec<Vec<char>> = Vec::new();
    push_line_chars(&mut lines, text_line2("# ", meeting.title.as_str()));
    push_blank(&mut lines);
    let mut id_line = text_line2("Meeting ID: `", meeting.id.as_str());
    append_chars(&mut id_line, &chars_of("`"));
    push_line_chars(&mut lines, id_line);
    push_line_chars(&mut lines, text_line2("Created: ", meeting.created_at.as_str()));
    push_blank(&mut lines);
    push_line(&mut lines, "## Transcript");
    push_blank(&mut lines);
    let ghost head = views(lines@);
    let mut i: usize = 0;
    while i < entries.len()
        invariant
            i <= entries.len(),
            views(lines@) == head + entries@.take(i as int).map_values(
                |e: TranscriptEntry| transcript_bullet(e),
            ),
        decreases entries.len() - i,
    {
        let b = transcript_bullet_chars(&entries[i]);
        push_line_chars(&mut lines, b);
        assert(entries@.take(i + 1).map_values(|e: TranscriptEntry| transcript_bullet(e))
            =~= entries@.take(i as int).map_values(|e: TranscriptEntry| transcript_bullet(e)).push(
            transcript_bullet(entries@[i as int]),
        ));
        i = i + 1;
    }
    assert(entries@.take(entries.len() as int) == entries@);
    push_blank(&mut lines);
    assert(views(lines@) =~= transcript_lines(*meeting, entries@));
    let mut nl: Vec<char> = Vec::new();
    nl.push('\n');
    let joined = join_chars(&lines, &nl);
    string_of(&joined)
}

/// Text with every double quote escaped with a backslash.
pub open spec fn yaml_escaped(s: Seq<char>) -> Seq<char> {
    replace_all(s, seq!['"'], seq!['\\', '"'])
}

/// The lines of an Obsidian note: YAML front matter (id, title, creation
/// time, tags), the transcript, then Live Notes and the summary when there
/// are any.
pub open spec fn obsidian_lines(
    m: MeetingRecord,
    transcript_md: Seq<char>,
    live_notes_md: Option<Seq<char>>,
    summary_md: Option<Seq<char>>,
) -> Seq<Seq<char>> {
    let head = seq![
        "---"@,
        "meetily_id: "@ + seq!['"'] + yaml_escaped(m.id@) + seq!['"'],
        "title: "@ + seq!['"'] + yaml_escaped(m.title@) + seq!['"'],
        "created: "@ + m.created_at@,
        "tags: [meetily, meeting]"@,
        "---"@,
        Seq::empty(),
        transcript_md,
    ];
    let with_notes = match live_notes_md {
        Some(n) => head.push(n),
        None => head,
    };
    match summary_md {
        Some(s) => with_notes.push(s),
        None => with_notes,
    }
}

/// The Obsidian note for a meeting.
pub open spec fn obsidian_note(
    m: MeetingRecord,
    entries: Seq<TranscriptEntry>,
    live_notes: Option<JsonValue>,
    summary: Option<JsonValue>,
) -> Seq<char> {
    join(
        obsidian_lines(
            m,
            transcript_markdown(m, entries),
            match live_notes {
                Some(v) => Some(live_notes_markdown(v)),
                None => None,
            },
            match summary {
                Some(v) => Some(summary_markdown(v)),
                None => None,
            },
        ),
        seq!['\n'],
    )
}

fn quoted_yaml(prefix: &str, value: &String) -> (r: Vec<char>)
    ensures
        r@ == prefix@ + seq!['"'] + yaml_escaped(value@) + seq!['"'],
{
    let mut pat: Vec<char> = Vec::new();
    pat.push('"');
    let mut rep: Vec<char> = Vec::new();
    rep.push('\\');
    rep.push('"');
    assert(pat@ == seq!['"']);
    assert(rep@ == seq!['\\', '"']);
    let escaped = replace(&chars_of(value.as_str()), &pat, &rep);
    let mut line = chars_of(prefix);
    line.push('"');
    append_chars(&mut line, &escaped);
    line.push('"');
    assert(line@ =~= prefix@ + seq!['"'] + yaml_escaped(value@) + seq!['"']);
    line
}

/// Renders the Obsidian note of a meeting.
pub fn render_obsidian_note(
    meeting: &MeetingRecord,
    entries: &Vec<TranscriptEntry>,
    live_notes: Option<&JsonValue>,
    summary: Option<&JsonValue>,
) -> (r: String)
    ensures
        r@ == obsidian_note(*meeting, entries@, deref_opt(live_notes), deref_opt(summary)),
{
    let mut lines: Vec<Vec<char>> = Vec::new();
    push_line(&mut lines, "---");
    push_line_chars(&mut lines, quoted_yaml("meetily_id: ", &meeting.id));
    push_line_chars(&mut lines, quoted_yaml("title: ", &meeting.title));
    push_line_chars(&mut lines, text_line2("created: ", meeting.created_at.as_str()));
    push_line(&mut lines, "tags: [meetily, meeting]");
    push_line(&mut lines, "---");
    push_blank(&mut lines);
    let transcript = render_transcript_markdown(meeting, entries);
    push_line_chars(&mut lines, chars_of(transcript.as_str()));
    match live_notes {
        Some(v) => {
            let notes = render_live_notes_markdown(v);
            push_line_chars(&mut lines, chars_of(notes.as_str()));
        },
        None => {},
    }
    match summary {
        Some(v) => {
            let text = render_summary_markdown(v);
            push_line_chars(&mut lines, chars_of(text.as_str()));
        },
        None => {},
    }
    assert(views(lines@) =~= obsidian_lines(
        *meeting,
        transcript_markdown(*meeting, entries@),
        match deref_opt(live_notes) {
            Some(v) => Some(live_notes_markdown(v)),
            None => None,
        },
        match deref_opt(summary) {
            Some(v) => Some(summary_markdown(v)),
            None => None,
        },
    ));
    let mut nl: Vec<char> = Vec::new();
    nl.push('\n');
    let joined = join_chars(&lines, &nl);
    string_of(&joined)
}

// ---------------------------------------------------------------------
// File names and export plans
// ---------------------------------------------------------------------

/// A character kept as it is in a file name.
pub open spec fn file_name_char(c: char) -> bool {
    crate::text::char_is_alphanumeric(c) || c == ' ' || c == '-' || c == '_'
}

/// A title made safe as a file name: other characters become `-`, runs of
/// whitespace become one space, and an empty result becomes `Meeting`.
pub open spec fn sanitized_file_name(title: Seq<char>) -> Seq<char> {
    let mapped = title.map_values(|c: char| if file_name_char(c) { c } else { '-' });
    let name = join(crate::text::ws_tokens(mapped), seq![' ']);
    if name.len() == 0 {
        "Meeting"@
    } else {
        name
    }
}

/// A sanitized file name is never empty, has no space at either end nor
/// two in a row, and holds only letters and digits, spaces, hyphens and
/// underscores; a title of spaces only becomes `Meeting`.
pub proof fn lemma_sanitized_file_name_shape(title: Seq<char>)
    ensures
        sanitized_file_name(title).len() > 0,
        crate::text::single_spaced(sanitized_file_name(title)),
        forall|i: int|
            0 <= i < sanitized_file_name(title).len() ==> file_name_char(
                #[trigger] sanitized_file_name(title)[i],
            ) || crate::text::is_ascii_alphanumeric(sanitized_file_name(title)[i]),
        (forall|i: int| 0 <= i < title.len() ==> title[i] == ' ') ==> sanitized_file_name(title)
            == "Meeting"@,
{
    reveal_strlit("Meeting");
    let mapped = title.map_values(|c: char| if file_name_char(c) { c } else { '-' });
    let keep = |c: char| file_name_char(c);
    assert forall|i: int| 0 <= i < mapped.len() implies keep(#[trigger] mapped[i]) by {}
    crate::text::lemma_ws_tokens_chars(mapped, keep);
    let tokens = crate::text::ws_tokens(mapped);
    assert(crate::text::char_is_whitespace(' '));
    crate::text::lemma_join_spaced(tokens, keep);
    if forall|i: int| 0 <= i < title.len() ==> title[i] == ' ' {
        let spaces = |c: char| c == ' ';
        assert forall|i: int| 0 <= i < mapped.len() implies spaces(#[trigger] mapped[i]) by {
            assert(title[i] == ' ');
        }
        crate::text::lemma_ws_tokens_chars(mapped, spaces);
        if tokens.len() > 0 {
            assert(tokens[0].len() > 0);
            assert(spaces(tokens[0][0]));
            assert(false);
        }
    }
}

/// Makes a meeting title safe to use as a file name.
pub fn sanitize_file_name(value: &str) -> (r: String)
    ensures
        r@ == sanitized_file_name(value@),
{
    let chars = chars_of(value);
    let mut mapped: Vec<char> = Vec::new();
    let mut i: usize = 0;
    while i < chars.len()
        invariant
            i <= chars.len(),
            chars@ == value@,
            mapped@ == value@.take(i as int).map_values(
                |c: char| if file_name_char(c) { c } else { '-' },
            ),
        decreases chars.len() - i,
    {
        let c = chars[i];
        let keep = crate::text::is_alphanumeric(c) || c == ' ' || c == '-' || c == '_';
        mapped.push(if keep { c } else { '-' });
        assert(value@.take(i + 1).map_values(|c: char| if file_name_char(c) { c } else { '-' })
            =~= value@.take(i as int).map_values(
            |c: char| if file_name_char(c) { c } else { '-' },
        ).push(if file_name_char(c) { c } else { '-' }));
        i = i + 1;
    }
    assert(value@.take(chars.len() as int) == value@);
    let words = crate::text::split_whitespace(&mapped);
    let mut space: Vec<char> = Vec::new();
    space.push(' ');
    assert(space@ == seq![' ']);
    let name = join_chars(&words, &space);
    if name.len() == 0 {
        "Meeting".to_owned()
    } else {
        string_of(&name)
    }
}

/// The file name of a meeting's Obsidian note: `<title>--<id>.md`.
pub open spec fn obsidian_file_name(title: Seq<char>, id: Seq<char>) -> Seq<char> {
    sanitized_file_name(title) + "--"@ + id + ".md"@
}

/// Names the Obsidian note of a meeting.
pub fn obsidian_note_file_name(title: &str, id: &str) -> (r: String)
    ensures
        r@ == obsidian_file_name(title@, id@),
{
    let mut name = sanitize_file_name(title);
    push_str(&mut name, "--");
    push_str(&mut name, id);
    push_str(&mut name, ".md");
    name
}

/// The sub-folder of the vault a note goes to: the given folder trimmed,
/// unless it is blank.
pub open spec fn vault_subfolder(folder: Option<Seq<char>>) -> Option<Seq<char>> {
    match folder {
        Some(f) => if trim_ws(f).len() > 0 {
            Some(trim_ws(f))
        } else {
            None
        },
        None => None,
    }
}

/// Chooses the sub-folder of the vault a note goes to.
pub fn obsidian_subfolder(folder: Option<&str>) -> (r: Option<String>)
    ensures
        crate::calendar::opt_view(r) == vault_subfolder(match folder {
            Some(f) => Some(f@),
            None => None::<Seq<char>>,
        }),
{
    match folder {
        Some(f) => {
            let t = trim(&chars_of(f));
            if t.len() > 0 {
                Some(string_of(&t))
            } else {
                None
            }
        },
        None => None,
    }
}

/// Rejects a blank meeting id, as loading a bundle does.
pub fn check_meeting_id(meeting_id: &str) -> (r: Result<(), String>)
    ensures
        r is Ok <==> trim_ws(meeting_id@).len() > 0,
        r matches Err(m) ==> m@ == "meeting id cannot be empty"@,
{
    if trim(&chars_of(meeting_id)).len() == 0 {
        Err("meeting id cannot be empty".to_owned())
    } else {
        Ok(())
    }
}

/// The directory an export goes to: the chosen destination, else the
/// meeting's recording folder.
pub fn export_directory(destination: Option<String>, folder_path: Option<String>) -> (r: Result<
    String,
    String,
>)
    ensures
        match destination {
            Some(d) => r == Ok::<String, String>(d),
            None => match folder_path {
                Some(f) => r == Ok::<String, String>(f),
                None => r matches Err(m) && m@
                    == "meeting has no recording folder; choose an export destination"@,
            },
        },
{
    match destination {
        Some(d) => Ok(d),
        None => match folder_path {
            Some(f) => Ok(f),
            None => Err("meeting has no recording folder; choose an export destination".to_owned()),
        },
    }
}

/// The files an export writes besides the manifest, in order: the
/// transcript as JSON and Markdown, Live Notes and the summary when there
/// are any, and the recording when there is one.
pub open spec fn exported_files(
    has_live_notes: bool,
    has_summary: bool,
    audio_file: Option<Seq<char>>,
) -> Seq<Seq<char>> {
    let base = seq!["transcript.json"@, "transcript.md"@];
    let with_notes = if has_live_notes {
        base.push("live-notes.md"@)
    } else {
        base
    };
    let with_summary = if has_summary {
        with_notes.push("summary.md"@)
    } else {
        with_notes
    };
    match audio_file {
        Some(a) => with_summary.push(a),
        None => with_summary,
    }
}

/// `files` lists an export: "transcript.json" and "transcript.md" first,
/// then "live-notes.md" when the meeting has live notes, then "summary.md"
/// when it has a summary, then the audio file when there is one; nothing
/// else. Each of the two optional documents is listed exactly when the
/// meeting has it (an audio file of the same name aside).
pub open spec fn lists_export(
    files: Seq<Seq<char>>,
    has_live_notes: bool,
    has_summary: bool,
    audio_file: Option<Seq<char>>,
) -> bool {
    let notes: int = if has_live_notes { 1 } else { 0 };
    let summary: int = if has_summary { 1 } else { 0 };
    let audio: int = if audio_file is Some { 1 } else { 0 };
    &&& files.len() == 2 + notes + summary + audio
    &&& files[0] == "transcript.json"@
    &&& files[1] == "transcript.md"@
    &&& has_live_notes ==> files[2] == "live-notes.md"@
    &&& has_summary ==> files[2 + notes] == "summary.md"@
    &&& audio_file matches Some(a) ==> files[files.len() - 1] == a
    &&& files.contains("summary.md"@) <==> (has_summary || audio_file == Some("summary.md"@))
    &&& files.contains("live-notes.md"@) <==> (has_live_notes || audio_file == Some(
        "live-notes.md"@,
    ))
}

/// The export's file list has the shape `lists_export` states, for every
/// combination of live notes, summary and audio file.
pub proof fn lemma_exported_files_listed(
    has_live_notes: bool,
    has_summary: bool,
    audio_file: Option<Seq<char>>,
)
    ensures
        lists_export(exported_files(has_live_notes, has_summary, audio_file), has_live_notes, has_summary, audio_file),
{
    reveal_strlit("transcript.json");
    reveal_strlit("transcript.md");
    reveal_strlit("live-notes.md");
    reveal_strlit("summary.md");
    let f = exported_files(has_live_notes, has_summary, audio_file);
    let notes: int = if has_live_notes { 1 } else { 0 };
    let summary: int = if has_summary { 1 } else { 0 };
    assert("transcript.json"@.len() != "summary.md"@.len());
    assert("transcript.md"@.len() != "summary.md"@.len());
    assert("live-notes.md"@.len() != "summary.md"@.len());
    assert("transcript.json"@.len() != "live-notes.md"@.len());
    assert("transcript.md"@ != "live-notes.md"@) by {
        assert("transcript.md"@[0] != "live-notes.md"@[0]);
    }
    if has_summary {
        assert(f[2 + notes] == "summary.md"@);
    }
    if has_live_notes {
        assert(f[2] == "live-notes.md"@);
    }
    if audio_file is Some {
        assert(f[f.len() - 1] == audio_file->0);
    }
    if f.contains("summary.md"@) {
        let k = choose|k: int| 0 <= k < f.len() && f[k] == "summary.md"@;
        assert(k >= 2);
    }
    if f.contains("live-notes.md"@) {
        let k = choose|k: int| 0 <= k < f.len() && f[k] == "live-notes.md"@;
        assert(k >= 2);
    }
}

/// The file names an export writes besides the manifest.
pub fn export_file_list(has_live_notes: bool, has_summary: bool, audio_file: Option<String>) -> (r:
    Vec<String>)
    ensures
        r@.map_values(|s: String| s@) == exported_files(
            has_live_notes,
            has_summary,
            crate::calendar::opt_view(audio_file),
        ),
        lists_export(
            r@.map_values(|s: String| s@),
            has_live_notes,
            has_summary,
            crate::calendar::opt_view(audio_file),
        ),
{
    proof {
        lemma_exported_files_listed(has_live_notes, has_summary, crate::calendar::opt_view(audio_file));
    }
    let mut files: Vec<String> = Vec::new();
    files.push("transcript.json".to_owned());
    files.push("transcript.md".to_owned());
    if has_live_notes {
        files.push("live-notes.md".to_owned());
    }
    if has_summary {
        files.push("summary.md".to_owned());
    }
    match audio_file {
        Some(a) => files.push(a),
        None => {},
    }
    assert(files@.map_values(|s: String| s@) =~= exported_files(
        has_live_notes,
        has_summary,
        crate::calendar::opt_view(audio_file),
    ));
    files
}

/// What an export reports: the schema version, the meeting, the output
/// directory and every file written, the manifest first.
#[derive(Debug)]
pub struct ArtifactExportResult {
    pub schema_version: String,
    pub meeting_id: String,
    pub output_directory: String,
    pub files: Vec<String>,
}

/// The report of an export that wrote `files` and then the manifest.
pub fn export_result(meeting_id: &str, output_directory: String, files: Vec<String>) -> (r:
    ArtifactExportResult)
    ensures
        r.schema_version@ == "1.0.0"@,
        r.meeting_id@ == meeting_id@,
        r.output_directory == output_directory,
        r.files@ == seq![r.files@[0]] + files@,
        r.files@[0]@ == "meeting.json"@,
{
    let mut all = files;
    all.insert(0, "meeting.json".to_owned());
    ArtifactExportResult {
        schema_version: "1.0.0".to_owned(),
        meeting_id: meeting_id.to_owned(),
        output_directory,
        files: all,
    }
}

/// The recording file names looked for in a meeting folder, in order of
/// preference.
pub open spec fn audio_file_names() -> Seq<Seq<char>> {
    seq!["audio.mp4"@, "audio.wav"@, "audio.m4a"@, "recording.wav"@]
}

/// The recording file names looked for in a meeting folder.
pub fn audio_file_candidates() -> (r: Vec<String>)
    ensures
        r@.map_values(|s: String| s@) == audio_file_names(),
{
    let r = vec![
        "audio.mp4".to_owned(),
        "audio.wav".to_owned(),
        "audio.m4a".to_owned(),
        "recording.wav".to_owned(),
    ];
    assert(r@.map_values(|s: String| s@) =~= audio_file_names());
    r
}

/// The first index at or after `k` whose candidate was found.
pub open spec fn first_found(found: Seq<bool>, k: int) -> Option<int>
    decreases found.len() - k,
{
    if k < 0 || k >= found.len() {
        None
    } else if found[k] {
        Some(k)
    } else {
        first_found(found, k + 1)
    }
}

/// Picks a meeting's recording: without a recording folder, none; else the
/// first of [`audio_file_names`] that `found` (one flag per candidate, in
/// the same order) reports as a file in the folder.
pub fn find_audio_file(folder_path: Option<&str>, found: &Vec<bool>) -> (r: Option<String>)
    requires
        found.len() == 4,
    ensures
        folder_path is None ==> r is None,
        folder_path is Some ==> match first_found(found@, 0) {
            Some(k) => r matches Some(name) && name@ == audio_file_names()[k],
            None => r is None,
        },
{
    if folder_path.is_none() {
        return None;
    }
    let names = audio_file_candidates();
    assert(names@.map_values(|s: String| s@).len() == 4);
    let mut k: usize = 0;
    while k < 4
        invariant
            k <= 4,
            found.len() == 4,
            names.len() == 4,
            folder_path is Some,
            names@.map_values(|s: String| s@) == audio_file_names(),
            first_found(found@, 0) == first_found(found@, k as int),
        decreases 4 - k,
    {
        if found[k] {
            assert(names@.map_values(|s: String| s@)[k as int] == names@[k as int]@);
            return Some(names[k].clone());
        }
        k = k + 1;
    }
    None
}

/// The error given when a meeting does not exist.
pub fn meeting_not_found_message(meeting_id: &str) -> (r: String)
    ensures
        r@ == "meeting not found: "@ + meeting_id@,
{
    let mut r = "meeting not found: ".to_owned();
    push_str(&mut r, meeting_id);
    r
}

/// The error given when a stored summary or live-notes state is not JSON.
pub fn invalid_stored_json_message(label: &str) -> (r: String)
    ensures
        r@ == "stored "@ + label@ + " is not valid JSON"@,
{
    let mut r = "stored ".to_owned();
    push_str(&mut r, label);
    push_str(&mut r, " is not valid JSON");
    r
}

/// Checks the vault path of an Obsidian export, asking the platform
/// whether it is absolute; whatever it answers, the outcome is
/// [`check_vault_path`]'s for that answer. A path without any separator
/// (a bare name such as `vault`) is relative on every platform and is
/// refused.
pub fn check_vault(vault_path: &str) -> (r: Result<(), String>)
    ensures
        r matches Err(e) ==> e@ == "Obsidian vault path must be absolute"@,
        !crate::hooks::has_separator(vault_path@) ==> r is Err,
{
    let absolute = crate::hooks::path_is_absolute(vault_path);
    check_vault_path(absolute)
}

/// An Obsidian export needs an absolute vault path; `absolute` tells
/// whether the path is one.
pub fn check_vault_path(absolute: bool) -> (r: Result<(), String>)
    ensures
        r is Ok <==> absolute,
        r matches Err(e) ==> e@ == "Obsidian vault path must be absolute"@,
{
    if absolute {
        Ok(())
    } else {
        Err("Obsidian vault path must be absolute".to_owned())
    }
}

} // verus!
