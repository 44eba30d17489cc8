//! Calendar context: parsing imported iCalendar (`.ics`) files into events,
//! and the meeting-detection and readiness reports built on them.

use vstd::prelude::*;
use crate::instants::{
    add_one_hour, display, display_text, instant_of, local_to_utc, naive_date_midnight,
    naive_datetime_parse, oid_uuid_v5, oid_uuid_v5_text, parse_naive_date_midnight,
    parse_naive_datetime, plus_one_hour, rfc3339, rfc3339_after, rfc3339_after_text, rfc3339_text,
    Instant,
};
use crate::text::{
    append_chars, chars_of, ends_with, has_prefix, has_suffix, push_chars, push_str, replace,
    replace_all, slice_chars, split_whitespace, starts_with, string_of, views, ws_tokens,
};

verus! {

broadcast use vstd::string::group_string_axioms;

/// A calendar event imported from an `.ics` file. Times are RFC 3339 text.
#[derive(Debug)]
pub struct CalendarEvent {
    pub id: String,
    pub title: String,
    pub starts_at: String,
    pub ends_at: String,
    pub location: Option<String>,
    pub join_url: Option<String>,
    pub notes: Option<String>,
    pub source: String,
}

/// The contents of a calendar event.
pub struct CalendarEventView {
    pub id: Seq<char>,
    pub title: Seq<char>,
    pub starts_at: Seq<char>,
    pub ends_at: Seq<char>,
    pub location: Option<Seq<char>>,
    pub join_url: Option<Seq<char>>,
    pub notes: Option<Seq<char>>,
    pub source: Seq<char>,
}

/// The contents of an optional string.
pub open spec fn opt_view(o: Option<String>) -> Option<Seq<char>> {
    match o {
        Some(s) => Some(s@),
        None => None,
    }
}

impl View for CalendarEvent {
    type V = CalendarEventView;

    open spec fn view(&self) -> CalendarEventView {
        CalendarEventView {
            id: self.id@,
            title: self.title@,
            starts_at: self.starts_at@,
            ends_at: self.ends_at@,
            location: opt_view(self.location),
            join_url: opt_view(self.join_url),
            notes: opt_view(self.notes),
            source: self.source@,
        }
    }
}

/// A result whose error is text, seen through the view of that text.
pub open spec fn err_view<T>(r: Result<T, String>) -> Result<T, Seq<char>> {
    match r {
        Ok(v) => Ok(v),
        Err(e) => Err(e@),
    }
}

// ---------------------------------------------------------------------
// Time values
// ---------------------------------------------------------------------

pub open spec fn invalid_timestamp_message(v: Seq<char>, e: Seq<char>) -> Seq<char> {
    "Invalid calendar timestamp "@ + v + ": "@ + e
}

pub open spec fn ambiguous_timestamp_message(v: Seq<char>) -> Seq<char> {
    "Ambiguous local calendar timestamp: "@ + v
}

pub open spec fn invalid_date_message(v: Seq<char>, e: Seq<char>) -> Seq<char> {
    "Invalid calendar date "@ + v + ": "@ + e
}

pub open spec fn ambiguous_date_message(v: Seq<char>) -> Seq<char> {
    "Ambiguous local calendar date: "@ + v
}

pub open spec fn out_of_range_message(v: Seq<char>) -> Seq<char> {
    "Calendar timestamp out of range: "@ + v
}

/// A successful conversion of the wall-clock time `wall` in some time
/// zone: the same nanoseconds, and less than a day away.
pub open spec fn within_a_day_of(r: Result<Instant, Seq<char>>, wall: Instant) -> bool {
    r matches Ok(t) && t.nanos == wall.nanos && wall.secs - 86400 < t.secs && t.secs < wall.secs
        + 86400
}

/// The outcomes that reading an iCalendar time value may have. A value
/// ending in `Z` is a UTC date-time and its outcome is fixed. Any other
/// value is a wall-clock date-time, or else a date taken at midnight, in
/// the machine's time zone; the conversion of a well-formed one succeeds
/// with an instant less than a day from the wall-clock reading (with the
/// same nanoseconds), or fails as ambiguous.
pub open spec fn time_outcome_allowed(value: Seq<char>, r: Result<Instant, Seq<char>>) -> bool {
    if has_suffix(value, seq!['Z']) {
        let v = value.drop_last();
        match naive_datetime_parse(v) {
            Ok(p) => r == Ok::<Instant, Seq<char>>(instant_of(p)),
            Err(e) => r == Err::<Instant, Seq<char>>(invalid_timestamp_message(v, e)),
        }
    } else {
        match naive_datetime_parse(value) {
            Ok(p) => within_a_day_of(r, instant_of(p)) || r == Err::<Instant, Seq<char>>(
                ambiguous_timestamp_message(value),
            ),
            Err(_) => match naive_date_midnight(value) {
                Err(e) => r == Err::<Instant, Seq<char>>(invalid_date_message(value, e)),
                Ok(None) => r == Err::<Instant, Seq<char>>(ambiguous_date_message(value)),
                Ok(Some(p)) => within_a_day_of(r, instant_of(p)) || r == Err::<Instant, Seq<char>>(
                    ambiguous_date_message(value),
                ),
            },
        }
    }
}

/// One outcome that reading a time value may always have: the fixed one
/// for UTC values, and the ambiguity error for wall-clock values.
pub open spec fn canonical_time_outcome(value: Seq<char>) -> Result<Instant, Seq<char>> {
    if has_suffix(value, seq!['Z']) {
        let v = value.drop_last();
        match naive_datetime_parse(v) {
            Ok(p) => Ok(instant_of(p)),
            Err(e) => Err(invalid_timestamp_message(v, e)),
        }
    } else {
        match naive_datetime_parse(value) {
            Ok(_) => Err(ambiguous_timestamp_message(value)),
            Err(_) => match naive_date_midnight(value) {
                Err(e) => Err(invalid_date_message(value, e)),
                Ok(_) => Err(ambiguous_date_message(value)),
            },
        }
    }
}

/// The canonical outcome is an allowed one.
pub proof fn lemma_canonical_time_outcome(value: Seq<char>)
    ensures
        time_outcome_allowed(value, canonical_time_outcome(value)),
{
}

fn message2(head: &str, v: &Vec<char>, mid: &str, e: &String) -> (m: String)
    ensures
        m@ == head@ + v@ + mid@ + e@,
{
    let mut m = String::new();
    push_str(&mut m, head);
    push_chars(&mut m, v);
    push_str(&mut m, mid);
    push_str(&mut m, e.as_str());
    m
}

fn message1(head: &str, v: &Vec<char>) -> (m: String)
    ensures
        m@ == head@ + v@,
{
    let mut m = String::new();
    push_str(&mut m, head);
    push_chars(&mut m, v);
    m
}

/// Reads an iCalendar time value (`DTSTART`/`DTEND`) as an instant.
pub fn parse_ics_datetime(value: &Vec<char>) -> (r: Result<Instant, String>)
    ensures
        time_outcome_allowed(value@, err_view(r)),
{
    let mut z: Vec<char> = Vec::new();
    z.push('Z');
    assert(z@ == seq!['Z']);
    if ends_with(value, &z) {
        let v = slice_chars(value, 0, value.len() - 1);
        assert(v@ == value@.drop_last());
        let text = string_of(&v);
        return match parse_naive_datetime(text.as_str()) {
            Ok(t) => Ok(t),
            Err(e) => Err(message2("Invalid calendar timestamp ", &v, ": ", &e)),
        };
    }
    let text = string_of(value);
    match parse_naive_datetime(text.as_str()) {
        Ok(wall) => match local_to_utc(wall) {
            Some(t) => Ok(t),
            None => Err(message1("Ambiguous local calendar timestamp: ", value)),
        },
        Err(_) => match parse_naive_date_midnight(text.as_str()) {
            Err(e) => Err(message2("Invalid calendar date ", value, ": ", &e)),
            Ok(None) => Err(message1("Ambiguous local calendar date: ", value)),
            Ok(Some(midnight)) => match local_to_utc(midnight) {
                Some(t) => Ok(t),
                None => Err(message1("Ambiguous local calendar date: ", value)),
            },
        },
    }
}

// ---------------------------------------------------------------------
// Property lines
// ---------------------------------------------------------------------

/// The position of the first `ch` in `s`.
pub open spec fn index_of(s: Seq<char>, ch: char) -> Option<int>
    decreases s.len(),
{
    if s.len() == 0 {
        None
    } else if s[0] == ch {
        Some(0)
    } else {
        match index_of(s.drop_first(), ch) {
            Some(i) => Some(i + 1),
            None => None,
        }
    }
}

proof fn lemma_index_of_skip(s: Seq<char>, ch: char, i: int)
    requires
        0 <= i <= s.len(),
        forall|k: int| 0 <= k < i ==> s[k] != ch,
    ensures
        index_of(s, ch) == match index_of(s.skip(i), ch) {
            Some(j) => Some(j + i),
            None => None::<int>,
        },
    decreases i,
{
    if i == 0 {
        assert(s.skip(0) == s);
        match index_of(s, ch) {
            Some(j) => {},
            None => {},
        }
    } else {
        lemma_index_of_skip(s.drop_first(), ch, i - 1);
        assert(s.drop_first().skip(i - 1) == s.skip(i));
    }
}

proof fn lemma_index_of_bounds(s: Seq<char>, ch: char)
    ensures
        match index_of(s, ch) {
            Some(j) => 0 <= j < s.len() && s[j] == ch && forall|k: int| 0 <= k < j ==> s[k] != ch,
            None => forall|k: int| 0 <= k < s.len() ==> s[k] != ch,
        },
    decreases s.len(),
{
    if s.len() > 0 {
        lemma_index_of_bounds(s.drop_first(), ch);
        match index_of(s.drop_first(), ch) {
            Some(j) => {
                if s[0] != ch {
                    assert forall|k: int| 0 <= k < j + 1 implies #[trigger] s[k] != ch by {
                        if k > 0 {
                            assert(s[k] == s.drop_first()[k - 1]);
                        }
                    }
                }
            },
            None => {
                assert forall|k: int| 0 <= k < s.len() && s[0] != ch implies #[trigger] s[k] != ch by {
                    if k > 0 {
                        assert(s[k] == s.drop_first()[k - 1]);
                    }
                }
            },
        }
    }
}

/// Finds the first occurrence of a character.
pub fn find_char(s: &Vec<char>, ch: char) -> (r: Option<usize>)
    ensures
        match r {
            Some(i) => index_of(s@, ch) == Some(i as int),
            None => index_of(s@, ch) == None::<int>,
        },
{
    let mut i: usize = 0;
    while i < s.len()
        invariant
            i <= s.len(),
            forall|k: int| 0 <= k < i ==> s@[k] != ch,
        decreases s.len() - i,
    {
        if s[i] == ch {
            proof {
                lemma_index_of_skip(s@, ch, i as int);
                assert(s@.skip(i as int)[0] == ch);
            }
            return Some(i);
        }
        i = i + 1;
    }
    proof {
        lemma_index_of_skip(s@, ch, i as int);
        assert(s@.skip(i as int).len() == 0);
    }
    None
}

/// The property name of a content line: the text before the first `:`,
/// cut at its first `;` (which starts the parameters).
pub open spec fn line_key(line: Seq<char>) -> Option<Seq<char>> {
    match index_of(line, ':') {
        Some(c) => {
            let key = line.take(c);
            Some(
                match index_of(key, ';') {
                    Some(j) => key.take(j),
                    None => key,
                },
            )
        },
        None => None,
    }
}

/// The raw value of a content line: the text after its first `:`.
pub open spec fn line_value(line: Seq<char>) -> Seq<char> {
    match index_of(line, ':') {
        Some(c) => line.skip(c + 1),
        None => Seq::empty(),
    }
}

/// A property value with iCalendar escapes (`\n`, `\N`, `\,`, `\;`, `\\`)
/// undone, in that order.
pub open spec fn unescape(v: Seq<char>) -> Seq<char> {
    let a = replace_all(v, "\\n"@, "\n"@);
    let b = replace_all(a, "\\N"@, "\n"@);
    let c = replace_all(b, "\\,"@, ","@);
    let d = replace_all(c, "\\;"@, ";"@);
    replace_all(d, "\\\\"@, "\\"@)
}

/// The unescaped value of the first line whose property name is `name`.
pub open spec fn field_value(lines: Seq<Seq<char>>, name: Seq<char>) -> Option<Seq<char>>
    decreases lines.len(),
{
    if lines.len() == 0 {
        None
    } else if line_key(lines[0]) == Some(name) {
        Some(unescape(line_value(lines[0])))
    } else {
        field_value(lines.drop_first(), name)
    }
}

/// Undoes iCalendar text escapes.
pub fn unescape_ics(v: &Vec<char>) -> (r: Vec<char>)
    ensures
        r@ == unescape(v@),
{
    proof {
        reveal_strlit("\\n");
        reveal_strlit("\\N");
        reveal_strlit("\\,");
        reveal_strlit("\\;");
        reveal_strlit("\\\\");
    }
    let a = replace(v, &chars_of("\\n"), &chars_of("\n"));
    let b = replace(&a, &chars_of("\\N"), &chars_of("\n"));
    let c = replace(&b, &chars_of("\\,"), &chars_of(","));
    let d = replace(&c, &chars_of("\\;"), &chars_of(";"));
    replace(&d, &chars_of("\\\\"), &chars_of("\\"))
}

fn key_matches(line: &Vec<char>, name: &Vec<char>) -> (r: Option<Vec<char>>)
    ensures
        match r {
            Some(v) => line_key(line@) == Some(name@) && v@ == unescape(line_value(line@)),
            None => line_key(line@) != Some(name@),
        },
{
    match find_char(line, ':') {
        None => None,
        Some(c) => {
            proof {
                lemma_index_of_bounds(line@, ':');
            }
            assert(c < line.len());
            let key = slice_chars(line, 0, c);
            assert(key@ == line@.take(c as int));
            proof {
                lemma_index_of_bounds(key@, ';');
            }
            let name_part = match find_char(&key, ';') {
                Some(j) => {
                    let k = slice_chars(&key, 0, j);
                    assert(k@ == key@.take(j as int));
                    k
                },
                None => key,
            };
            if name_part.len() == name.len() && starts_with(&name_part, name) {
                assert(name_part@ == name@) by {
                    assert(name_part@.take(name@.len() as int) == name_part@);
                }
                proof {
                    lemma_index_of_bounds(line@, ':');
                }
                let raw = slice_chars(line, c + 1, line.len());
                assert(raw@ == line@.skip(c + 1));
                Some(unescape_ics(&raw))
            } else {
                proof {
                    if name_part@ == name@ {
                        assert(name_part@.take(name@.len() as int) == name_part@);
                    }
                }
                None
            }
        },
    }
}

/// The unescaped value of the first line carrying property `name`.
pub fn field(lines: &Vec<Vec<char>>, name: &str) -> (r: Option<Vec<char>>)
    ensures
        match r {
            Some(v) => field_value(views(lines@), name@) == Some(v@),
            None => field_value(views(lines@), name@) == None::<Seq<char>>,
        },
{
    let name_chars = chars_of(name);
    let mut i: usize = 0;
    assert(views(lines@).skip(0) == views(lines@));
    while i < lines.len()
        invariant
            i <= lines.len(),
            name_chars@ == name@,
            field_value(views(lines@), name@) == field_value(views(lines@).skip(i as int), name@),
        decreases lines.len() - i,
    {
        let ghost rest = views(lines@).skip(i as int);
        assert(rest[0] == lines@[i as int]@);
        assert(rest.drop_first() == views(lines@).skip(i + 1));
        match key_matches(&lines[i], &name_chars) {
            Some(v) => {
                return Some(v);
            },
            None => {},
        }
        i = i + 1;
    }
    assert(views(lines@).skip(i as int).len() == 0);
    None
}

// ---------------------------------------------------------------------
// Events
// ---------------------------------------------------------------------

/// A character trimmed from the end of a meeting link found in notes.
pub open spec fn is_link_tail_char(c: char) -> bool {
    c == ',' || c == '.' || c == ')'
}

/// A link without trailing `,`, `.` and `)` characters.
pub open spec fn trim_link_tail(s: Seq<char>) -> Seq<char>
    decreases s.len(),
{
    if s.len() > 0 && is_link_tail_char(s.last()) {
        trim_link_tail(s.drop_last())
    } else {
        s
    }
}

/// The first word that starts with `https://`.
pub open spec fn first_https_word(words: Seq<Seq<char>>) -> Option<Seq<char>>
    decreases words.len(),
{
    if words.len() == 0 {
        None
    } else if has_prefix(words[0], "https://"@) {
        Some(words[0])
    } else {
        first_https_word(words.drop_first())
    }
}

/// The meeting link of an event: its `URL`, else the first `https://` word
/// of its description without trailing punctuation.
pub open spec fn event_join_url(lines: Seq<Seq<char>>) -> Option<Seq<char>> {
    match field_value(lines, "URL"@) {
        Some(u) => Some(u),
        None => match field_value(lines, "DESCRIPTION"@) {
            Some(n) => match first_https_word(ws_tokens(n)) {
                Some(w) => Some(trim_link_tail(w)),
                None => None,
            },
            None => None,
        },
    }
}

/// The title of an event: its `SUMMARY`, else `Calendar meeting`.
pub open spec fn event_title(lines: Seq<Seq<char>>) -> Seq<char> {
    match field_value(lines, "SUMMARY"@) {
        Some(t) => t,
        None => "Calendar meeting"@,
    }
}

/// The event read from the lines of a `VEVENT` block, given the outcomes of
/// reading its start and (when present) end time values. A block without
/// `DTSTART` gives no event; a missing end is one hour after the start; a
/// missing `UID` is replaced by a name-based UUID of the title and start.
pub open spec fn event_outcome(
    lines: Seq<Seq<char>>,
    start: Result<Instant, Seq<char>>,
    end: Result<Instant, Seq<char>>,
) -> Result<Option<CalendarEventView>, Seq<char>> {
    match field_value(lines, "DTSTART"@) {
        None => Ok(None),
        Some(sv) => match start {
            Err(m) => Err(m),
            Ok(st) => {
                let dtend = field_value(lines, "DTEND"@);
                if dtend is Some && end is Err {
                    Err(end->Err_0)
                } else {
                    match plus_one_hour(st.secs, st.nanos) {
                        None => Err(out_of_range_message(sv)),
                        Some(later) => {
                            let en = if dtend is Some {
                                end->Ok_0
                            } else {
                                instant_of(later)
                            };
                            let title = event_title(lines);
                            let id: Option<Seq<char>> = match field_value(lines, "UID"@) {
                                Some(u) => Some(u),
                                None => match display_text(st.secs, st.nanos) {
                                    Some(d) => Some("ics-"@ + oid_uuid_v5_text(title + ":"@ + d)),
                                    None => None,
                                },
                            };
                            match (id, rfc3339_text(st.secs, st.nanos), rfc3339_text(en.secs, en.nanos)) {
                                (Some(id), Some(s), Some(e)) => Ok(
                                    Some(
                                        CalendarEventView {
                                            id,
                                            title,
                                            starts_at: s,
                                            ends_at: e,
                                            location: field_value(lines, "LOCATION"@),
                                            join_url: event_join_url(lines),
                                            notes: field_value(lines, "DESCRIPTION"@),
                                            source: "ics"@,
                                        },
                                    ),
                                ),
                                _ => Err(out_of_range_message(sv)),
                            }
                        },
                    }
                }
            },
        },
    }
}

/// The results that reading a `VEVENT` block may have: those of
/// `event_outcome` for some allowed outcomes of its time values.
pub open spec fn event_allowed(
    lines: Seq<Seq<char>>,
    r: Result<Option<CalendarEventView>, Seq<char>>,
) -> bool {
    match field_value(lines, "DTSTART"@) {
        None => r == Ok::<Option<CalendarEventView>, Seq<char>>(None),
        Some(sv) => exists|s: Result<Instant, Seq<char>>, e: Result<Instant, Seq<char>>|
            #![trigger event_outcome(lines, s, e)]
            time_outcome_allowed(sv, s) && (match field_value(lines, "DTEND"@) {
                Some(ev) => time_outcome_allowed(ev, e),
                None => true,
            }) && r == event_outcome(lines, s, e),
    }
}

/// How a read event's times follow its time lines. With a `DTEND` line,
/// the event ends at the instant read from it: for a UTC value, exactly the
/// parsed date-time; for any value, some instant that reading it may give.
/// Without one, the event ends one hour after an instant that reading its
/// `DTSTART` may give, and starts at that instant.
pub open spec fn end_follows_dtend(
    lines: Seq<Seq<char>>,
    r: Result<Option<CalendarEventView>, Seq<char>>,
) -> bool {
    r matches Ok(Some(ev)) ==> match field_value(lines, "DTEND"@) {
        Some(dv) => {
            &&& exists|e: Instant|
                time_outcome_allowed(dv, Ok(e)) && #[trigger] rfc3339_text(e.secs, e.nanos) == Some(
                    ev.ends_at,
                )
            &&& has_suffix(dv, seq!['Z']) ==> (naive_datetime_parse(dv.drop_last()) matches Ok(p)
                && rfc3339_text(p.0, p.1) == Some(ev.ends_at))
        },
        None => exists|st: Instant|
            {
                &&& time_outcome_allowed(field_value(lines, "DTSTART"@)->0, Ok(st))
                &&& #[trigger] rfc3339_text(st.secs, st.nanos) == Some(ev.starts_at)
                &&& plus_one_hour(st.secs, st.nanos) matches Some(l) && rfc3339_text(l.0, l.1)
                    == Some(ev.ends_at)
            },
    }
}

/// Every result that reading a `VEVENT` block may have takes its end from
/// the block's `DTEND` line when there is one; the one-hour default applies
/// only without it.
pub proof fn lemma_event_end_follows_dtend(
    lines: Seq<Seq<char>>,
    r: Result<Option<CalendarEventView>, Seq<char>>,
)
    requires
        event_allowed(lines, r),
    ensures
        end_follows_dtend(lines, r),
{
    if let Ok(Some(ev)) = r {
        let sv = field_value(lines, "DTSTART"@)->0;
        let (s, e) = choose|s: Result<Instant, Seq<char>>, e: Result<Instant, Seq<char>>|
            #![trigger event_outcome(lines, s, e)]
            time_outcome_allowed(sv, s) && (match field_value(lines, "DTEND"@) {
                Some(v) => time_outcome_allowed(v, e),
                None => true,
            }) && r == event_outcome(lines, s, e);
        let st = s->Ok_0;
        match field_value(lines, "DTEND"@) {
            Some(dv) => {
                let en = e->Ok_0;
                assert(time_outcome_allowed(dv, Ok(en)));
                assert(rfc3339_text(en.secs, en.nanos) == Some(ev.ends_at));
            },
            None => {
                assert(time_outcome_allowed(sv, Ok(st)));
                assert(rfc3339_text(st.secs, st.nanos) == Some(ev.starts_at));
            },
        }
    }
}

/// How a read event's other fields follow the block's lines: no `DTSTART`
/// line gives no event; an event starts at an instant that reading its
/// `DTSTART` may give (exactly the parsed date-time for a UTC value); its
/// title is the `SUMMARY` (else "Calendar meeting"); its id is the `UID`,
/// else "ics-" and the name-based UUID of the title and start; its
/// location and notes are the `LOCATION` and `DESCRIPTION` lines; a `URL`
/// line is its join link; and its source is "ics".
pub open spec fn event_fields_follow_lines(
    lines: Seq<Seq<char>>,
    r: Result<Option<CalendarEventView>, Seq<char>>,
) -> bool {
    &&& field_value(lines, "DTSTART"@) is None ==> r == Ok::<
        Option<CalendarEventView>,
        Seq<char>,
    >(None)
    &&& r matches Ok(Some(ev)) ==> {
        &&& (field_value(lines, "DTSTART"@) matches Some(sv) && exists|st: Instant|
            {
                &&& time_outcome_allowed(sv, Ok(st))
                &&& #[trigger] rfc3339_text(st.secs, st.nanos) == Some(ev.starts_at)
                &&& field_value(lines, "UID"@) is None ==> (display_text(st.secs, st.nanos) matches Some(
                    d,
                ) && ev.id == "ics-"@ + oid_uuid_v5_text(ev.title + ":"@ + d))
            })
        &&& (field_value(lines, "DTSTART"@) matches Some(sv) ==> (has_suffix(sv, seq!['Z']) ==> (
        naive_datetime_parse(sv.drop_last()) matches Ok(p) && rfc3339_text(p.0, p.1) == Some(
            ev.starts_at,
        ))))
        &&& ev.title == match field_value(lines, "SUMMARY"@) {
            Some(t) => t,
            None => "Calendar meeting"@,
        }
        &&& field_value(lines, "UID"@) matches Some(u) ==> ev.id == u
        &&& ev.location == field_value(lines, "LOCATION"@)
        &&& ev.notes == field_value(lines, "DESCRIPTION"@)
        &&& field_value(lines, "URL"@) matches Some(u) ==> ev.join_url == Some(u)
        &&& ev.source == "ics"@
    }
}

/// Every result that reading a `VEVENT` block may have fills the event
/// from the block's lines as [`event_fields_follow_lines`] states.
pub proof fn lemma_event_fields_follow_lines(
    lines: Seq<Seq<char>>,
    r: Result<Option<CalendarEventView>, Seq<char>>,
)
    requires
        event_allowed(lines, r),
    ensures
        event_fields_follow_lines(lines, r),
{
    if let Ok(Some(ev)) = r {
        let sv = field_value(lines, "DTSTART"@)->0;
        let (s, e) = choose|s: Result<Instant, Seq<char>>, e: Result<Instant, Seq<char>>|
            #![trigger event_outcome(lines, s, e)]
            time_outcome_allowed(sv, s) && (match field_value(lines, "DTEND"@) {
                Some(v) => time_outcome_allowed(v, e),
                None => true,
            }) && r == event_outcome(lines, s, e);
        let st = s->Ok_0;
        assert(time_outcome_allowed(sv, Ok(st)));
        assert(rfc3339_text(st.secs, st.nanos) == Some(ev.starts_at));
        assert(event_join_url(lines) == ev.join_url);
    }
}

/// An event result seen through views.
pub open spec fn event_result_view(r: Result<Option<CalendarEvent>, String>) -> Result<
    Option<CalendarEventView>,
    Seq<char>,
> {
    match r {
        Ok(Some(e)) => Ok(Some(e@)),
        Ok(None) => Ok(None),
        Err(m) => Err(m@),
    }
}

spec fn end_outcome(r: Result<Option<Instant>, String>, start: Instant) -> Result<Instant, Seq<char>> {
    match r {
        Ok(Some(t)) => Ok(t),
        Ok(None) => Ok(start),
        Err(m) => Err(m@),
    }
}

fn opt_string(v: Option<Vec<char>>) -> (r: Option<String>)
    ensures
        opt_view(r) == match v {
            Some(c) => Some(c@),
            None => None::<Seq<char>>,
        },
{
    match v {
        Some(c) => Some(string_of(&c)),
        None => None,
    }
}

fn trim_link(w: &Vec<char>) -> (r: Vec<char>)
    ensures
        r@ == trim_link_tail(w@),
{
    let mut j: usize = w.len();
    assert(w@.take(j as int) == w@);
    while j > 0 && (w[j - 1] == ',' || w[j - 1] == '.' || w[j - 1] == ')')
        invariant
            j <= w.len(),
            trim_link_tail(w@) == trim_link_tail(w@.take(j as int)),
        decreases j,
    {
        assert(w@.take(j as int).drop_last() == w@.take(j - 1));
        j = j - 1;
    }
    slice_chars(w, 0, j)
}

fn join_link(lines: &Vec<Vec<char>>) -> (r: Option<Vec<char>>)
    ensures
        match r {
            Some(v) => event_join_url(views(lines@)) == Some(v@),
            None => event_join_url(views(lines@)) == None::<Seq<char>>,
        },
{
    if let Some(u) = field(lines, "URL") {
        return Some(u);
    }
    match field(lines, "DESCRIPTION") {
        None => None,
        Some(notes) => {
            let words = split_whitespace(&notes);
            let prefix = chars_of("https://");
            let mut i: usize = 0;
            assert(views(words@).skip(0) == views(words@));
            while i < words.len()
                invariant
                    i <= words.len(),
                    prefix@ == "https://"@,
                    event_join_url(views(lines@)) == match first_https_word(views(words@)) {
                        Some(w) => Some(trim_link_tail(w)),
                        None => None::<Seq<char>>,
                    },
                    first_https_word(views(words@)) == first_https_word(
                        views(words@).skip(i as int),
                    ),
                decreases words.len() - i,
            {
                let ghost rest = views(words@).skip(i as int);
                assert(rest[0] == words@[i as int]@);
                assert(rest.drop_first() == views(words@).skip(i + 1));
                if starts_with(&words[i], &prefix) {
                    return Some(trim_link(&words[i]));
                }
                i = i + 1;
            }
            assert(views(words@).skip(i as int).len() == 0);
            None
        },
    }
}

/// Reads the lines of one `VEVENT` block as an event. A block without a
/// start time gives no event.
pub fn parse_event(lines: &Vec<Vec<char>>) -> (r: Result<Option<CalendarEvent>, String>)
    ensures
        event_allowed(views(lines@), event_result_view(r)),
        end_follows_dtend(views(lines@), event_result_view(r)),
        event_fields_follow_lines(views(lines@), event_result_view(r)),
{
    let r = parse_event_block(lines);
    proof {
        lemma_event_end_follows_dtend(views(lines@), event_result_view(r));
        lemma_event_fields_follow_lines(views(lines@), event_result_view(r));
    }
    r
}

fn parse_event_block(lines: &Vec<Vec<char>>) -> (r: Result<Option<CalendarEvent>, String>)
    ensures
        event_allowed(views(lines@), event_result_view(r)),
{
    let ghost ls = views(lines@);
    let dtstart = match field(lines, "DTSTART") {
        Some(v) => v,
        None => {
            return Ok(None);
        },
    };
    let start_r = parse_ics_datetime(&dtstart);
    let start = match start_r {
        Ok(t) => t,
        Err(m) => {
            let r: Result<Option<CalendarEvent>, String> = Err(m);
            let ghost e_w = match field_value(ls, "DTEND"@) {
                Some(ev) => canonical_time_outcome(ev),
                None => err_view(start_r),
            };
            proof {
                if let Some(ev) = field_value(ls, "DTEND"@) {
                    lemma_canonical_time_outcome(ev);
                }
            }
            assert(event_result_view(r) == event_outcome(ls, err_view(start_r), e_w));
            return r;
        },
    };
    let dtend = field(lines, "DTEND");
    let end_r: Result<Option<Instant>, String> = match &dtend {
        Some(v) => match parse_ics_datetime(v) {
            Ok(t) => Ok(Some(t)),
            Err(m) => Err(m),
        },
        None => Ok(None),
    };
    let ghost end_view = end_outcome(end_r, start);
    let range_error = message1("Calendar timestamp out of range: ", &dtstart);
    let end_opt = match end_r {
        Ok(o) => o,
        Err(m) => {
            let r: Result<Option<CalendarEvent>, String> = Err(m);
            assert(event_result_view(r) == event_outcome(ls, err_view(start_r), end_view));
            return r;
        },
    };
    let later = match add_one_hour(start) {
        Some(t) => t,
        None => {
            let r: Result<Option<CalendarEvent>, String> = Err(range_error);
            assert(event_result_view(r) == event_outcome(ls, err_view(start_r), end_view));
            return r;
        },
    };
    let end = match end_opt {
        Some(t) => t,
        None => later,
    };
    let title = match field(lines, "SUMMARY") {
        Some(t) => string_of(&t),
        None => "Calendar meeting".to_owned(),
    };
    let notes = field(lines, "DESCRIPTION");
    let location = field(lines, "LOCATION");
    let join_url = join_link(lines);
    let id = match field(lines, "UID") {
        Some(u) => string_of(&u),
        None => match display(start) {
            Some(d) => {
                let mut seed = String::new();
                push_str(&mut seed, title.as_str());
                push_str(&mut seed, ":");
                push_str(&mut seed, d.as_str());
                let mut id = String::new();
                push_str(&mut id, "ics-");
                let digest = oid_uuid_v5(seed.as_str());
                push_str(&mut id, digest.as_str());
                id
            },
            None => {
                let r: Result<Option<CalendarEvent>, String> = Err(range_error);
                assert(event_result_view(r) == event_outcome(ls, err_view(start_r), end_view));
                return r;
            },
        },
    };
    let starts_at = match rfc3339(start) {
        Some(s) => s,
        None => {
            let r: Result<Option<CalendarEvent>, String> = Err(range_error);
            assert(event_result_view(r) == event_outcome(ls, err_view(start_r), end_view));
            return r;
        },
    };
    let ends_at = match rfc3339(end) {
        Some(s) => s,
        None => {
            let r: Result<Option<CalendarEvent>, String> = Err(range_error);
            assert(event_result_view(r) == event_outcome(ls, err_view(start_r), end_view));
            return r;
        },
    };
    let event = CalendarEvent {
        id,
        title,
        starts_at,
        ends_at,
        location: opt_string(location),
        join_url: opt_string(join_url),
        notes: opt_string(notes),
        source: "ics".to_owned(),
    };
    let r: Result<Option<CalendarEvent>, String> = Ok(Some(event));
    assert(event_result_view(r) == event_outcome(ls, err_view(start_r), end_view));
    r
}

// ---------------------------------------------------------------------
// Calendars
// ---------------------------------------------------------------------

/// The text with folded lines joined back: every `CRLF` or `LF` followed
/// by a space is removed (first all `CRLF`-space, then all `LF`-space).
pub open spec fn unfold(content: Seq<char>) -> Seq<char> {
    replace_all(replace_all(content, "\r\n "@, Seq::empty()), "\n "@, Seq::empty())
}

/// The state after reading `s` while splitting it at `LF`: the completed
/// lines and the line being read.
pub open spec fn newline_scan(s: Seq<char>) -> (Seq<Seq<char>>, Seq<char>)
    decreases s.len(),
{
    if s.len() == 0 {
        (Seq::empty(), Seq::empty())
    } else {
        let (done, cur) = newline_scan(s.drop_last());
        if s.last() == '\n' {
            (done.push(cur), Seq::empty())
        } else {
            (done, cur.push(s.last()))
        }
    }
}

/// A line without trailing carriage returns.
pub open spec fn strip_cr(s: Seq<char>) -> Seq<char>
    decreases s.len(),
{
    if s.len() > 0 && s.last() == '\r' {
        strip_cr(s.drop_last())
    } else {
        s
    }
}

/// The lines of a text (as `str::lines` splits them, a final line ending
/// being optional), each without trailing carriage returns.
pub open spec fn text_lines(s: Seq<char>) -> Seq<Seq<char>> {
    let (done, cur) = newline_scan(s);
    let all = if cur.len() > 0 {
        done.push(cur)
    } else {
        done
    };
    all.map_values(|l: Seq<char>| strip_cr(l))
}

/// The content lines of an `.ics` file.
pub open spec fn ics_lines(content: Seq<char>) -> Seq<Seq<char>> {
    text_lines(unfold(content))
}

/// The state after reading content lines: the `VEVENT` blocks completed so
/// far (the lines between `BEGIN:VEVENT` and `END:VEVENT`), whether a block
/// is open, and the lines of the open block.
pub open spec fn event_scan(lines: Seq<Seq<char>>) -> (Seq<Seq<Seq<char>>>, bool, Seq<Seq<char>>)
    decreases lines.len(),
{
    if lines.len() == 0 {
        (Seq::empty(), false, Seq::empty())
    } else {
        let (blocks, open, cur) = event_scan(lines.drop_last());
        let line = lines.last();
        if line == "BEGIN:VEVENT"@ {
            (blocks, true, Seq::empty())
        } else if line == "END:VEVENT"@ && open {
            (blocks.push(cur), false, cur)
        } else if open {
            (blocks, open, cur.push(line))
        } else {
            (blocks, open, cur)
        }
    }
}

/// The completed `VEVENT` blocks of the content lines, in order.
pub open spec fn event_blocks(lines: Seq<Seq<char>>) -> Seq<Seq<Seq<char>>> {
    event_scan(lines).0
}

/// The result after one more block: an earlier error stands; otherwise the
/// block's error, or its event appended (if it has one).
pub open spec fn with_block(
    prev: Result<Seq<CalendarEventView>, Seq<char>>,
    one: Result<Option<CalendarEventView>, Seq<char>>,
) -> Result<Seq<CalendarEventView>, Seq<char>> {
    match prev {
        Err(e) => Err(e),
        Ok(evs) => match one {
            Err(e) => Err(e),
            Ok(None) => Ok(evs),
            Ok(Some(ev)) => Ok(evs.push(ev)),
        },
    }
}

/// The results that reading the blocks in order may have: the first error,
/// or the events of all blocks that have a start time.
pub open spec fn calendar_allowed(
    blocks: Seq<Seq<Seq<char>>>,
    r: Result<Seq<CalendarEventView>, Seq<char>>,
) -> bool
    decreases blocks.len(),
{
    if blocks.len() == 0 {
        r == Ok::<Seq<CalendarEventView>, Seq<char>>(Seq::empty())
    } else {
        exists|
            prev: Result<Seq<CalendarEventView>, Seq<char>>,
            one: Result<Option<CalendarEventView>, Seq<char>>,
        |
            #![trigger with_block(prev, one)]
            calendar_allowed(blocks.drop_last(), prev) && event_allowed(blocks.last(), one) && r
                == with_block(prev, one)
    }
}

/// A list of events seen through views.
pub open spec fn events_view(v: Seq<CalendarEvent>) -> Seq<CalendarEventView> {
    v.map_values(|e: CalendarEvent| e@)
}

/// A calendar result seen through views.
pub open spec fn calendar_result_view(r: Result<Vec<CalendarEvent>, String>) -> Result<
    Seq<CalendarEventView>,
    Seq<char>,
> {
    match r {
        Ok(v) => Ok(events_view(v@)),
        Err(m) => Err(m@),
    }
}

/// One result that reading a block may always have.
pub open spec fn canonical_event(lines: Seq<Seq<char>>) -> Result<Option<CalendarEventView>, Seq<char>> {
    match field_value(lines, "DTSTART"@) {
        None => Ok(None),
        Some(sv) => {
            let s = canonical_time_outcome(sv);
            let e = match field_value(lines, "DTEND"@) {
                Some(ev) => canonical_time_outcome(ev),
                None => s,
            };
            event_outcome(lines, s, e)
        },
    }
}

proof fn lemma_canonical_event(lines: Seq<Seq<char>>)
    ensures
        event_allowed(lines, canonical_event(lines)),
{
    if let Some(sv) = field_value(lines, "DTSTART"@) {
        lemma_canonical_time_outcome(sv);
        let s = canonical_time_outcome(sv);
        let e = match field_value(lines, "DTEND"@) {
            Some(ev) => canonical_time_outcome(ev),
            None => s,
        };
        if let Some(ev) = field_value(lines, "DTEND"@) {
            lemma_canonical_time_outcome(ev);
        }
        assert(canonical_event(lines) == event_outcome(lines, s, e));
    }
}

proof fn lemma_error_persists(short: Seq<Seq<Seq<char>>>, long: Seq<Seq<Seq<char>>>, e: Seq<char>)
    requires
        short.len() <= long.len(),
        long.take(short.len() as int) == short,
        calendar_allowed(short, Err(e)),
    ensures
        calendar_allowed(long, Err(e)),
    decreases long.len(),
{
    if long.len() == short.len() {
        assert(long == long.take(short.len() as int));
    } else {
        assert(long.drop_last().take(short.len() as int) == short);
        lemma_error_persists(short, long.drop_last(), e);
        lemma_canonical_event(long.last());
        let prev = Err::<Seq<CalendarEventView>, Seq<char>>(e);
        let one = canonical_event(long.last());
        assert(with_block(prev, one) == Err::<Seq<CalendarEventView>, Seq<char>>(e));
    }
}

proof fn lemma_blocks_grow(lines: Seq<Seq<char>>, j: int)
    requires
        0 <= j <= lines.len(),
    ensures
        event_blocks(lines.take(j)).len() <= event_blocks(lines).len(),
        event_blocks(lines).take(event_blocks(lines.take(j)).len() as int) == event_blocks(
            lines.take(j),
        ),
    decreases lines.len(),
{
    if j == lines.len() {
        assert(lines.take(j) == lines);
    } else {
        assert(lines.drop_last().take(j) == lines.take(j));
        lemma_blocks_grow(lines.drop_last(), j);
        let b0 = event_blocks(lines.take(j));
        let b1 = event_blocks(lines.drop_last());
        let b2 = event_blocks(lines);
        assert(b2 == b1 || b2 == b1.push(event_scan(lines.drop_last()).2));
        if b2 != b1 {
            assert(b2.take(b0.len() as int) == b1.take(b0.len() as int));
        }
    }
}

/// The content lines of a text: unfolded, split at line feeds, without
/// trailing carriage returns.
fn content_lines(content: &str) -> (lines: Vec<Vec<char>>)
    ensures
        views(lines@) == ics_lines(content@),
{
    proof {
        reveal_strlit("\r\n ");
        reveal_strlit("\n ");
    }
    let raw = chars_of(content);
    let empty: Vec<char> = Vec::new();
    let once = replace(&raw, &chars_of("\r\n "), &empty);
    let text = replace(&once, &chars_of("\n "), &empty);
    assert(text@ == unfold(content@));
    let mut done: Vec<Vec<char>> = Vec::new();
    let mut cur: Vec<char> = Vec::new();
    let mut i: usize = 0;
    while i < text.len()
        invariant
            i <= text.len(),
            (views(done@), cur@) == newline_scan(text@.take(i as int)),
        decreases text.len() - i,
    {
        assert(text@.take(i + 1).drop_last() == text@.take(i as int));
        if text[i] == '\n' {
            let finished = cur;
            cur = Vec::new();
            let ghost before = views(done@);
            done.push(finished);
            assert(views(done@) =~= before.push(finished@));
        } else {
            cur.push(text[i]);
        }
        i = i + 1;
    }
    assert(text@.take(text.len() as int) == text@);
    if cur.len() > 0 {
        let ghost before = views(done@);
        done.push(cur);
        assert(views(done@) =~= before.push(cur@));
    }
    let ghost all = views(done@);
    let mut lines: Vec<Vec<char>> = Vec::new();
    let mut k: usize = 0;
    while k < done.len()
        invariant
            k <= done.len(),
            all == views(done@),
            views(lines@) == all.take(k as int).map_values(|l: Seq<char>| strip_cr(l)),
        decreases done.len() - k,
    {
        let line = &done[k];
        let mut j: usize = line.len();
        assert(line@.take(j as int) == line@);
        while j > 0 && line[j - 1] == '\r'
            invariant
                j <= line.len(),
                strip_cr(line@) == strip_cr(line@.take(j as int)),
            decreases j,
        {
            assert(line@.take(j as int).drop_last() == line@.take(j - 1));
            j = j - 1;
        }
        let stripped = slice_chars(line, 0, j);
        let ghost before = views(lines@);
        lines.push(stripped);
        assert(views(lines@) =~= before.push(stripped@));
        assert(all.take(k + 1).map_values(|l: Seq<char>| strip_cr(l)) =~= all.take(
            k as int,
        ).map_values(|l: Seq<char>| strip_cr(l)).push(strip_cr(all[k as int])));
        k = k + 1;
    }
    assert(all.take(done.len() as int) == all);
    lines
}

/// Reads the events of an `.ics` calendar. Each `VEVENT` block with a start
/// time becomes an event; the first unreadable time value ends the reading
/// with its error.
pub fn parse_ics(content: &str) -> (r: Result<Vec<CalendarEvent>, String>)
    ensures
        calendar_allowed(event_blocks(ics_lines(content@)), calendar_result_view(r)),
{
    let lines = content_lines(content);
    let ghost ls = views(lines@);
    let mut events: Vec<CalendarEvent> = Vec::new();
    let mut current: Vec<Vec<char>> = Vec::new();
    let mut in_event = false;
    let mut i: usize = 0;
    assert(ls.take(0) == Seq::<Seq<char>>::empty());
    assert(events_view(events@) =~= Seq::<CalendarEventView>::empty());
    assert(views(current@) =~= Seq::<Seq<char>>::empty());
    while i < lines.len()
        invariant
            i <= lines.len(),
            ls == views(lines@),
            ls == ics_lines(content@),
            event_scan(ls.take(i as int)).1 == in_event,
            event_scan(ls.take(i as int)).2 == views(current@),
            calendar_allowed(event_blocks(ls.take(i as int)), Ok(events_view(events@))),
        decreases lines.len() - i,
    {
        assert(ls.take(i + 1).drop_last() == ls.take(i as int));
        assert(ls.take(i + 1).last() == lines@[i as int]@);
        let line = &lines[i];
        if chars_equal(line, "BEGIN:VEVENT") {
            in_event = true;
            current = Vec::new();
            assert(views(current@) =~= Seq::<Seq<char>>::empty());
        } else if chars_equal(line, "END:VEVENT") && in_event {
            let ghost blocks = event_blocks(ls.take(i as int));
            let ghost prev = Ok::<Seq<CalendarEventView>, Seq<char>>(events_view(events@));
            let outcome = parse_event(&current);
            let ghost one = event_result_view(outcome);
            assert(calendar_allowed(blocks.push(views(current@)), with_block(prev, one))) by {
                assert(blocks.push(views(current@)).drop_last() == blocks);
            }
            match outcome {
                Ok(Some(event)) => {
                    let ghost before = events_view(events@);
                    events.push(event);
                    assert(events_view(events@) =~= before.push(event@));
                },
                Ok(None) => {},
                Err(message) => {
                    proof {
                        lemma_blocks_grow(ls, i + 1);
                        assert(ls.take(ls.len() as int) == ls);
                        lemma_error_persists(
                            event_blocks(ls.take(i + 1)),
                            event_blocks(ls),
                            message@,
                        );
                    }
                    return Err(message);
                },
            }
            in_event = false;
        } else if in_event {
            let ghost before = views(current@);
            current.push(copy_chars(line));
            assert(views(current@) =~= before.push(line@));
        }
        i = i + 1;
    }
    assert(ls.take(lines.len() as int) == ls);
    Ok(events)
}

fn chars_equal(t: &Vec<char>, w: &str) -> (b: bool)
    ensures
        b == (t@ == w@),
{
    crate::text::chars_equal_str(t, w)
}

fn copy_chars(t: &Vec<char>) -> (r: Vec<char>)
    ensures
        r@ == t@,
{
    slice_chars(t, 0, t.len())
}

// ---------------------------------------------------------------------
// Import, detection and readiness reports
// ---------------------------------------------------------------------

/// The outcome of importing an `.ics` file.
#[derive(Debug)]
pub struct CalendarImportResult {
    pub imported: usize,
    pub source_path: String,
}

/// Whether a meeting seems to be under way, and why.
#[derive(Debug)]
pub struct MeetingDetection {
    pub detected: bool,
    pub event: Option<CalendarEvent>,
    pub meeting_app_running: bool,
    pub reason: String,
}

/// One item of the pre-meeting readiness report.
#[derive(Debug)]
pub struct ReadinessCheck {
    pub id: String,
    pub label: String,
    pub ready: bool,
    pub detail: String,
}

/// The number of hours ahead to list events for: 24 by default, and never
/// less than one hour nor more than 31 days.
pub open spec fn upcoming_window_hours_of(hours: Option<i64>) -> int {
    match hours {
        None => 24int,
        Some(x) => if x < 1 {
            1
        } else if x > 744 {
            744
        } else {
            x as int
        },
    }
}

/// The number of hours ahead to list events for, as
/// [`upcoming_window_hours_of`] states.
pub fn upcoming_window_hours(hours: Option<i64>) -> (h: i64)
    ensures
        h as int == upcoming_window_hours_of(hours),
{
    let requested = match hours {
        Some(x) => x,
        None => 24,
    };
    if requested < 1 {
        1
    } else if requested > 744 {
        744
    } else {
        requested
    }
}

/// The explanation given for a detection outcome.
pub open spec fn detection_reason(event_due: bool, app_running: bool) -> Seq<char> {
    if event_due && app_running {
        "A scheduled meeting is due and a meeting app is running"@
    } else if event_due {
        "A scheduled meeting is due"@
    } else if app_running {
        "A meeting app is running, but no matching imported calendar event was found"@
    } else {
        "No meeting signal detected"@
    }
}

/// The detection report for the event due now (if any) and whether a known
/// meeting app runs. A meeting is detected exactly when an event is due.
pub fn meeting_detection(event: Option<CalendarEvent>, meeting_app_running: bool) -> (d:
    MeetingDetection)
    ensures
        d.detected == event is Some,
        d.event == event,
        d.meeting_app_running == meeting_app_running,
        d.reason@ == detection_reason(event is Some, meeting_app_running),
{
    let due = event.is_some();
    let reason = if due && meeting_app_running {
        "A scheduled meeting is due and a meeting app is running"
    } else if due {
        "A scheduled meeting is due"
    } else if meeting_app_running {
        "A meeting app is running, but no matching imported calendar event was found"
    } else {
        "No meeting signal detected"
    };
    MeetingDetection { detected: due, event, meeting_app_running, reason: reason.to_owned() }
}

/// The contents of a readiness check: id, label, readiness and detail.
pub open spec fn check_view(c: ReadinessCheck) -> (Seq<char>, Seq<char>, bool, Seq<char>) {
    (c.id@, c.label@, c.ready, c.detail@)
}

/// The kind of an audio device found on the machine.
#[derive(Clone, Copy, Debug)]
pub enum AudioDeviceKind {
    Input,
    Output,
}

/// Some device of the list is an input (a microphone).
pub open spec fn has_input(devices: Seq<AudioDeviceKind>) -> bool {
    exists|k: int| 0 <= k < devices.len() && devices[k] is Input
}

/// Some device of the list is an output (a system-audio source).
pub open spec fn has_output(devices: Seq<AudioDeviceKind>) -> bool {
    exists|k: int| 0 <= k < devices.len() && devices[k] is Output
}

/// The readiness report, in order: storage, microphone, system audio,
/// transcription model and calendar context.
pub open spec fn readiness_report(
    database_ready: bool,
    devices: Seq<AudioDeviceKind>,
    model_ready: bool,
    calendar_count: int,
) -> Seq<(Seq<char>, Seq<char>, bool, Seq<char>)> {
    seq![
        ("database"@, "Meeting storage"@, database_ready, if database_ready {
            "Ready"@
        } else {
            "Database unavailable"@
        }),
        ("microphone"@, "Microphone"@, has_input(devices), crate::text::decimal(devices.len())
            + " audio devices found"@),
        ("system_audio"@, "System audio"@, has_output(devices), if has_output(devices) {
            "Capture source available"@
        } else {
            "No output source found"@
        }),
        ("model"@, "Transcription model"@, model_ready, if model_ready {
            "Local model available"@
        } else {
            "Download a transcription model"@
        }),
        ("calendar"@, "Calendar context"@, calendar_count > 0, if calendar_count > 0 {
            crate::text::decimal(calendar_count as nat) + " upcoming events"@
        } else {
            "Import an .ics calendar file (optional)"@
        }),
    ]
}

fn check(id: &str, label: &str, ready: bool, detail: String) -> (c: ReadinessCheck)
    ensures
        check_view(c) == (id@, label@, ready, detail@),
{
    ReadinessCheck { id: id.to_owned(), label: label.to_owned(), ready, detail }
}

fn device_present(devices: &Vec<AudioDeviceKind>, input: bool) -> (b: bool)
    ensures
        b == if input {
            has_input(devices@)
        } else {
            has_output(devices@)
        },
{
    let mut k: usize = 0;
    while k < devices.len()
        invariant
            k <= devices.len(),
            forall|j: int| 0 <= j < k ==> (if input { devices@[j] !is Input } else { devices@[j] !is Output }),
        decreases devices.len() - k,
    {
        let found = match devices[k] {
            AudioDeviceKind::Input => input,
            AudioDeviceKind::Output => !input,
        };
        if found {
            return true;
        }
        k = k + 1;
    }
    false
}

/// Builds the readiness report from what was probed: whether the database
/// answers, the audio devices found, whether a transcription model is
/// available and how many calendar events are still to come.
pub fn readiness_checks(
    database_ready: bool,
    devices: &Vec<AudioDeviceKind>,
    model_ready: bool,
    calendar_count: i64,
) -> (checks: Vec<ReadinessCheck>)
    ensures
        checks@.map_values(|c: ReadinessCheck| check_view(c)) == readiness_report(
            database_ready,
            devices@,
            model_ready,
            calendar_count as int,
        ),
{
    let microphone_ready = device_present(devices, true);
    let system_audio_ready = device_present(devices, false);
    let mut device_text = crate::text::decimal_string(devices.len() as u64);
    push_str(&mut device_text, " audio devices found");
    let calendar_detail = if calendar_count > 0 {
        let mut d = crate::text::decimal_string(calendar_count as u64);
        push_str(&mut d, " upcoming events");
        d
    } else {
        "Import an .ics calendar file (optional)".to_owned()
    };
    let mut checks: Vec<ReadinessCheck> = Vec::new();
    checks.push(
        check(
            "database",
            "Meeting storage",
            database_ready,
            if database_ready {
                "Ready".to_owned()
            } else {
                "Database unavailable".to_owned()
            },
        ),
    );
    checks.push(check("microphone", "Microphone", microphone_ready, device_text));
    checks.push(
        check(
            "system_audio",
            "System audio",
            system_audio_ready,
            if system_audio_ready {
                "Capture source available".to_owned()
            } else {
                "No output source found".to_owned()
            },
        ),
    );
    checks.push(
        check(
            "model",
            "Transcription model",
            model_ready,
            if model_ready {
                "Local model available".to_owned()
            } else {
                "Download a transcription model".to_owned()
            },
        ),
    );
    checks.push(check("calendar", "Calendar context", calendar_count > 0, calendar_detail));
    assert(checks@.map_values(|c: ReadinessCheck| check_view(c)) =~= readiness_report(
        database_ready,
        devices@,
        model_ready,
        calendar_count as int,
    ));
    checks
}

/// The result of importing the events parsed from the file at `path`.
pub fn import_result(events: &Vec<CalendarEvent>, path: String) -> (r: CalendarImportResult)
    ensures
        r.imported == events.len(),
        r.source_path == path,
{
    CalendarImportResult { imported: events.len(), source_path: path }
}

/// Seconds around now within which a calendar event counts as due.
pub const DETECTION_MARGIN_SECS: i64 = 600;

/// Seconds around a recording's save time within which a calendar event is
/// attached to it as context.
pub const CONTEXT_MARGIN_SECS: i64 = 900;

/// The bounds `(latest start, earliest end)` an event must meet to lie
/// within `margin` seconds of `now`: it starts no later than `now + margin`
/// and ends no earlier than `now - margin`.
pub open spec fn due_bounds(now: Instant, margin: int) -> Option<(Seq<char>, Seq<char>)> {
    match (rfc3339_after_text(now, margin), rfc3339_after_text(now, -margin)) {
        (Some(latest_start), Some(earliest_end)) => Some((latest_start, earliest_end)),
        _ => None,
    }
}

/// The bounds for events within `margin` seconds of `now`, as RFC 3339
/// texts; `None` only where an instant falls outside chrono's range.
pub fn due_window(now: Instant, margin: i64) -> (r: Option<(String, String)>)
    requires
        0 <= margin <= i64::MAX,
    ensures
        match r {
            Some((a, b)) => due_bounds(now, margin as int) == Some((a@, b@)),
            None => due_bounds(now, margin as int) is None,
        },
{
    match (rfc3339_after(now, margin), rfc3339_after(now, -margin)) {
        (Some(a), Some(b)) => Some((a, b)),
        _ => None,
    }
}

/// The bounds `(now, now + hours)` of the upcoming-events listing, with
/// the hours chosen by [`upcoming_window_hours`].
pub fn upcoming_window(now: Instant, hours: Option<i64>) -> (r: Option<(String, String)>)
    ensures
        match r {
            Some((a, b)) => rfc3339_after_text(now, 0) == Some(a@) && rfc3339_after_text(
                now,
                3600 * upcoming_window_hours_of(hours),
            ) == Some(b@),
            None => rfc3339_after_text(now, 0) is None || rfc3339_after_text(
                now,
                3600 * upcoming_window_hours_of(hours),
            ) is None,
        },
{
    let h = upcoming_window_hours(hours);
    match (rfc3339_after(now, 0), rfc3339_after(now, h * 3600)) {
        (Some(a), Some(b)) => Some((a, b)),
        _ => None,
    }
}

/// A Windows task list (lower-cased) names a known meeting app.
pub open spec fn lists_meeting_app(lower_task_list: Seq<char>) -> bool {
    ||| crate::search::find_from(lower_task_list, "zoom.exe"@, 0) is Some
    ||| crate::search::find_from(lower_task_list, "ms-teams.exe"@, 0) is Some
    ||| crate::search::find_from(lower_task_list, "webex.exe"@, 0) is Some
}

/// Whether the output of the Windows `tasklist` command names Zoom, Teams
/// or Webex, in any letter case.
pub fn meeting_app_listed(task_list: &str) -> (b: bool)
    ensures
        b == lists_meeting_app(crate::text::str_lowercase(task_list@)),
{
    let lower = crate::text::to_lowercase(task_list);
    let text = chars_of(lower.as_str());
    crate::search::find_chars(&text, &chars_of("zoom.exe")).is_some()
        || crate::search::find_chars(&text, &chars_of("ms-teams.exe")).is_some()
        || crate::search::find_chars(&text, &chars_of("webex.exe")).is_some()
}

/// Every event read from a calendar file is marked as coming from an
/// `.ics` import, and no `VEVENT` block gives more than one event.
pub proof fn lemma_calendar_events_are_ics(
    blocks: Seq<Seq<Seq<char>>>,
    r: Result<Seq<CalendarEventView>, Seq<char>>,
)
    requires
        calendar_allowed(blocks, r),
    ensures
        r matches Ok(events) ==> events.len() <= blocks.len() && forall|k: int|
            0 <= k < events.len() ==> (#[trigger] events[k]).source == "ics"@,
    decreases blocks.len(),
{
    if blocks.len() > 0 {
        let (prev, one) = choose|
            prev: Result<Seq<CalendarEventView>, Seq<char>>,
            one: Result<Option<CalendarEventView>, Seq<char>>,
        |
            #![trigger with_block(prev, one)]
            calendar_allowed(blocks.drop_last(), prev) && event_allowed(blocks.last(), one) && r
                == with_block(prev, one);
        lemma_calendar_events_are_ics(blocks.drop_last(), prev);
        if let Ok(Some(ev)) = one {
            let lines = blocks.last();
            let (s, e) = choose|s: Result<Instant, Seq<char>>, e: Result<Instant, Seq<char>>|
                #![trigger event_outcome(lines, s, e)]
                time_outcome_allowed(field_value(lines, "DTSTART"@)->0, s) && (match field_value(
                    lines,
                    "DTEND"@,
                ) {
                    Some(ev) => time_outcome_allowed(ev, e),
                    None => true,
                }) && one == event_outcome(lines, s, e);
            assert(ev.source == "ics"@);
        }
    }
}

/// The events among per-block results, in order (blocks without an event
/// give none).
pub open spec fn present_events(outcomes: Seq<Option<CalendarEventView>>) -> Seq<CalendarEventView>
    decreases outcomes.len(),
{
    if outcomes.len() == 0 {
        Seq::empty()
    } else {
        let front = present_events(outcomes.drop_last());
        match outcomes.last() {
            Some(e) => front.push(e),
            None => front,
        }
    }
}

/// A calendar that parses is read block by block: there is a successful
/// result for every complete `VEVENT` block (none for a block without
/// `DTSTART`), and the events are those results in block order.
pub proof fn lemma_calendar_reads_every_block(
    blocks: Seq<Seq<Seq<char>>>,
    events: Seq<CalendarEventView>,
)
    requires
        calendar_allowed(blocks, Ok(events)),
    ensures
        exists|outcomes: Seq<Option<CalendarEventView>>|
            #![trigger present_events(outcomes)]
            outcomes.len() == blocks.len() && (forall|k: int|
                0 <= k < blocks.len() ==> event_allowed(
                    #[trigger] blocks[k],
                    Ok(outcomes[k]),
                )) && events == present_events(outcomes),
    decreases blocks.len(),
{
    if blocks.len() == 0 {
        let outcomes = Seq::<Option<CalendarEventView>>::empty();
        assert(events == present_events(outcomes));
    } else {
        let r = Ok::<Seq<CalendarEventView>, Seq<char>>(events);
        let (prev, one) = choose|
            prev: Result<Seq<CalendarEventView>, Seq<char>>,
            one: Result<Option<CalendarEventView>, Seq<char>>,
        |
            #![trigger with_block(prev, one)]
            calendar_allowed(blocks.drop_last(), prev) && event_allowed(blocks.last(), one) && r
                == with_block(prev, one);
        let front = prev->Ok_0;
        lemma_calendar_reads_every_block(blocks.drop_last(), front);
        let earlier = choose|outcomes: Seq<Option<CalendarEventView>>|
            #![trigger present_events(outcomes)]
            outcomes.len() == blocks.drop_last().len() && (forall|k: int|
                0 <= k < blocks.drop_last().len() ==> event_allowed(
                    #[trigger] blocks.drop_last()[k],
                    Ok(outcomes[k]),
                )) && front == present_events(outcomes);
        let outcomes = earlier.push(one->Ok_0);
        assert(outcomes.drop_last() =~= earlier);
        assert forall|k: int| 0 <= k < blocks.len() implies event_allowed(
            #[trigger] blocks[k],
            Ok(outcomes[k]),
        ) by {
            if k < blocks.len() - 1 {
                assert(blocks[k] == blocks.drop_last()[k]);
            }
        }
        assert(events == present_events(outcomes));
    }
}

/// In a calendar that parses, every event is read from its own block: its
/// end follows the block's time lines as [`end_follows_dtend`] states (the
/// `DTEND` instant when the block has one, one hour after the start
/// otherwise), and its other fields as [`event_fields_follow_lines`] states.
pub proof fn lemma_calendar_events_follow_blocks(
    blocks: Seq<Seq<Seq<char>>>,
    events: Seq<CalendarEventView>,
)
    requires
        calendar_allowed(blocks, Ok(events)),
    ensures
        exists|outcomes: Seq<Option<CalendarEventView>>|
            #![trigger present_events(outcomes)]
            outcomes.len() == blocks.len() && (forall|k: int|
                0 <= k < blocks.len() ==> end_follows_dtend(#[trigger] blocks[k], Ok(outcomes[k]))
                    && event_fields_follow_lines(blocks[k], Ok(outcomes[k]))) && events
                == present_events(outcomes),
{
    lemma_calendar_reads_every_block(blocks, events);
    let outcomes = choose|outcomes: Seq<Option<CalendarEventView>>|
        #![trigger present_events(outcomes)]
        outcomes.len() == blocks.len() && (forall|k: int|
            0 <= k < blocks.len() ==> event_allowed(
                #[trigger] blocks[k],
                Ok(outcomes[k]),
            )) && events == present_events(outcomes);
    assert forall|k: int| 0 <= k < blocks.len() implies end_follows_dtend(
        #[trigger] blocks[k],
        Ok(outcomes[k]),
    ) && event_fields_follow_lines(blocks[k], Ok(outcomes[k])) by {
        lemma_event_end_follows_dtend(blocks[k], Ok(outcomes[k]));
        lemma_event_fields_follow_lines(blocks[k], Ok(outcomes[k]));
    }
}

/// One bad block spoils the calendar: when some complete block can only
/// fail to read (an unreadable start or end time), parsing gives an error
/// and no partial list.
pub proof fn lemma_bad_block_fails_calendar(
    blocks: Seq<Seq<Seq<char>>>,
    k: int,
    r: Result<Seq<CalendarEventView>, Seq<char>>,
)
    requires
        0 <= k < blocks.len(),
        forall|one: Result<Option<CalendarEventView>, Seq<char>>|
            event_allowed(blocks[k], one) ==> #[trigger] one.is_err(),
        calendar_allowed(blocks, r),
    ensures
        r is Err,
    decreases blocks.len(),
{
    let (prev, one) = choose|
        prev: Result<Seq<CalendarEventView>, Seq<char>>,
        one: Result<Option<CalendarEventView>, Seq<char>>,
    |
        #![trigger with_block(prev, one)]
        calendar_allowed(blocks.drop_last(), prev) && event_allowed(blocks.last(), one) && r
            == with_block(prev, one);
    if k == blocks.len() - 1 {
        assert(one.is_err());
    } else {
        assert(blocks.drop_last()[k] == blocks[k]);
        lemma_bad_block_fails_calendar(blocks.drop_last(), k, prev);
    }
}

/// The events `parse_ics` returns for a file are all marked as `.ics`
/// imports, at most one per `VEVENT` block of the file.
pub proof fn lemma_parsed_events_are_ics(content: Seq<char>, r: Result<Seq<CalendarEventView>, Seq<char>>)
    requires
        calendar_allowed(event_blocks(ics_lines(content)), r),
    ensures
        r matches Ok(events) ==> events.len() <= event_blocks(ics_lines(content)).len() && forall|k: int|
            0 <= k < events.len() ==> (#[trigger] events[k]).source == "ics"@,
{
    lemma_calendar_events_are_ics(event_blocks(ics_lines(content)), r);
}

} // verus!
