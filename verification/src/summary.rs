//! Meeting summaries and live notes: the checks, defaults, prompts and
//! replies of the summary commands. Calls to the language model and the
//! database are made by the application.

use vstd::prelude::*;
use crate::ids::{is_record_id, new_record_id};
use crate::json::JsonValue;
use crate::text::{chars_of, decimal, push_decimal, push_str, str_lowercase, to_lowercase, trim, trim_ws};

verus! {

broadcast use vstd::string::group_string_axioms;

/// The reply to a request to summarize a transcript: the process id is
/// the meeting id the summary is generated for.
#[derive(Debug)]
pub struct ProcessTranscriptResponse {
    pub message: String,
    pub process_id: String,
}

/// The state of a meeting's summary.
#[derive(Debug)]
pub struct SummaryResponse {
    pub status: String,
    pub meeting_name: Option<String>,
    pub meeting_id: String,
    pub start: Option<String>,
    pub end: Option<String>,
    pub data: Option<JsonValue>,
    pub error: Option<String>,
}

/// A stored summary process: its status as stored, its error, its result
/// read as JSON (absent when missing or not valid JSON) and its start and
/// end times as RFC 3339 text.
#[derive(Debug)]
pub struct SummaryProcess {
    pub status: String,
    pub error: Option<String>,
    pub data: Option<JsonValue>,
    pub start: Option<String>,
    pub end: Option<String>,
}

/// How a transcript is to be summarized.
#[derive(Debug)]
pub struct ProcessPlan {
    pub meeting_id: String,
    pub prompt: String,
    pub template_id: String,
    pub chunk_size: i32,
    pub overlap: i32,
}

/// Reads and writes the live-notes state of meetings. Queries against the
/// database are made by the application.
pub struct LiveNotesRepository;

/// Seconds a live-notes generation may take.
pub const LIVE_NOTES_TIMEOUT_SECS: u64 = 120;

/// Tokens a live-notes generation may produce unless the request says.
pub const LIVE_NOTES_DEFAULT_MAX_TOKENS: u32 = 512;

/// Template used when a request names none.
pub open spec fn default_template() -> Seq<char> {
    "daily_standup"@
}

/// The optional text of an optional string.
pub open spec fn opt_text(o: Option<String>) -> Option<Seq<char>> {
    match o {
        Some(s) => Some(s@),
        None => None,
    }
}

/// The plan for a summary request: the given meeting id or a fresh
/// `meeting-…` id, the custom prompt or none, the template or
/// `daily_standup`, and chunks of 40000 characters overlapping by 1000
/// unless the request says otherwise.
pub fn process_plan(
    meeting_id: Option<String>,
    custom_prompt: Option<String>,
    template_id: Option<String>,
    chunk_size: Option<i32>,
    overlap: Option<i32>,
) -> (p: ProcessPlan)
    ensures
        match meeting_id {
            Some(id) => p.meeting_id == id,
            None => is_record_id(p.meeting_id@, "meeting"@),
        },
        p.prompt@ == match custom_prompt {
            Some(c) => c@,
            None => Seq::<char>::empty(),
        },
        p.template_id@ == match template_id {
            Some(t) => t@,
            None => default_template(),
        },
        p.chunk_size == match chunk_size {
            Some(c) => c,
            None => 40000i32,
        },
        p.overlap == match overlap {
            Some(o) => o,
            None => 1000i32,
        },
{
    proof {
        reveal_strlit("daily_standup");
    }
    ProcessPlan {
        meeting_id: match meeting_id {
            Some(id) => id,
            None => new_record_id("meeting"),
        },
        prompt: match custom_prompt {
            Some(c) => c,
            None => String::new(),
        },
        template_id: match template_id {
            Some(t) => t,
            None => String::from_str("daily_standup"),
        },
        chunk_size: match chunk_size {
            Some(c) => c,
            None => 40000,
        },
        overlap: match overlap {
            Some(o) => o,
            None => 1000,
        },
    }
}

/// The reply once summary generation has started in the background.
pub fn process_started(process_id: String) -> (r: ProcessTranscriptResponse)
    ensures
        r.message@ == "Summary generation started"@,
        r.process_id == process_id,
{
    proof {
        reveal_strlit("Summary generation started");
    }
    ProcessTranscriptResponse { message: String::from_str("Summary generation started"), process_id }
}

/// The summary state reported for a meeting: the stored process with its
/// status lower-cased, or `idle` with nothing else when there is none.
pub open spec fn summary_state(
    meeting_id: Seq<char>,
    process: Option<SummaryProcess>,
) -> (Seq<char>, Seq<char>, Option<Seq<char>>, Option<Seq<char>>, Option<JsonValue>, Option<Seq<char>>) {
    match process {
        Some(p) => (str_lowercase(p.status@), meeting_id, opt_text(p.start), opt_text(p.end), p.data, opt_text(p.error)),
        None => ("idle"@, meeting_id, None, None, None, None),
    }
}

/// The report of a meeting's summary, given its stored process (if any)
/// and the meeting's title (if it was found).
pub fn summary_response(meeting_id: String, process: Option<SummaryProcess>, meeting_name: Option<String>) -> (r: SummaryResponse)
    ensures
        (r.status@, r.meeting_id@, opt_text(r.start), opt_text(r.end), r.data, opt_text(r.error))
            == summary_state(meeting_id@, process),
        r.meeting_name == meeting_name,
{
    match process {
        Some(p) => SummaryResponse {
            status: to_lowercase(p.status.as_str()),
            meeting_name,
            meeting_id,
            start: p.start,
            end: p.end,
            data: p.data,
            error: p.error,
        },
        None => {
            proof {
                reveal_strlit("idle");
            }
            SummaryResponse {
                status: String::from_str("idle"),
                meeting_name,
                meeting_id,
                start: None,
                end: None,
                data: None,
                error: None,
            }
        },
    }
}

/// The reply to saving a summary: whether the meeting was found and the
/// JSON stored, or the store's error.
pub fn summary_saved(outcome: Result<bool, String>) -> (r: Result<String, String>)
    ensures
        match outcome {
            Ok(true) => r matches Ok(m) && m@ == "Meeting summary saved successfully"@,
            Ok(false) => r matches Err(e) && e@ == "Meeting not found or can't convert the json"@,
            Err(error) => r == Err::<String, String>(error),
        },
{
    proof {
        reveal_strlit("Meeting summary saved successfully");
        reveal_strlit("Meeting not found or can't convert the json");
    }
    match outcome {
        Ok(true) => Ok(String::from_str("Meeting summary saved successfully")),
        Ok(false) => Err(String::from_str("Meeting not found or can't convert the json")),
        Err(error) => Err(error),
    }
}

/// The message after a request to cancel a summary generation.
pub fn cancel_message(cancelled: bool) -> (r: String)
    ensures
        cancelled ==> r@ == "Summary generation cancelled successfully"@,
        !cancelled ==> r@ == "No active summary generation to cancel"@,
{
    proof {
        reveal_strlit("Summary generation cancelled successfully");
        reveal_strlit("No active summary generation to cancel");
    }
    if cancelled {
        String::from_str("Summary generation cancelled successfully")
    } else {
        String::from_str("No active summary generation to cancel")
    }
}

/// `prefix`, a colon, a space and `detail`.
pub open spec fn prefixed(prefix: Seq<char>, detail: Seq<char>) -> Seq<char> {
    prefix + ": "@ + detail
}

/// An error message made of a prefix and the underlying error's text.
pub fn prefixed_error(prefix: &str, detail: &str) -> (r: String)
    ensures
        r@ == prefixed(prefix@, detail@),
{
    let mut r = prefix.to_owned();
    push_str(&mut r, ": ");
    push_str(&mut r, detail);
    proof {
        reveal_strlit(": ");
    }
    r
}

/// The error given for a chunk of transcript with no text.
pub open spec fn empty_chunk_error() -> Seq<char> {
    "No transcript text available for live notes"@
}

/// A live-notes update needs some transcript text.
pub fn check_live_notes_chunk(transcript_chunk: &str) -> (r: Result<(), String>)
    ensures
        r is Ok <==> trim_ws(transcript_chunk@).len() > 0,
        r matches Err(e) ==> e@ == empty_chunk_error(),
{
    if trim(&chars_of(transcript_chunk)).len() == 0 {
        proof {
            reveal_strlit("No transcript text available for live notes");
        }
        return Err(String::from_str("No transcript text available for live notes"));
    }
    Ok(())
}

/// The request given to the model: the current notes (as JSON text) and
/// the new transcript chunk.
pub open spec fn live_notes_prompt(current_state: Seq<char>, transcript_chunk: Seq<char>) -> Seq<char> {
    "Current live notes state:\n"@ + current_state + "\n\nNew transcript chunk:\n"@
        + transcript_chunk
        + "\n\nUpdate the live notes using only the new transcript chunk and current state."@
}

/// Builds the request given to the model, as [`live_notes_prompt`] states.
pub fn live_notes_user_prompt(current_state: &str, transcript_chunk: &str) -> (r: String)
    ensures
        r@ == live_notes_prompt(current_state@, transcript_chunk@),
{
    let mut r = "Current live notes state:\n".to_owned();
    push_str(&mut r, current_state);
    push_str(&mut r, "\n\nNew transcript chunk:\n");
    push_str(&mut r, transcript_chunk);
    push_str(&mut r, "\n\nUpdate the live notes using only the new transcript chunk and current state.");
    proof {
        reveal_strlit("Current live notes state:\n");
        reveal_strlit("\n\nNew transcript chunk:\n");
        reveal_strlit("\n\nUpdate the live notes using only the new transcript chunk and current state.");
    }
    r
}

/// The error given for a provider that cannot write live notes.
pub fn unsupported_provider_message(model: &str) -> (r: String)
    ensures
        r@ == "Live Notes currently supports local Ollama, built-in AI, or custom OpenAI-compatible providers. Current provider: "@
            + model@,
{
    let mut r = "Live Notes currently supports local Ollama, built-in AI, or custom OpenAI-compatible providers. Current provider: ".to_owned();
    push_str(&mut r, model);
    r
}

/// The error given when a live-notes generation runs out of time.
pub fn live_notes_timeout_message() -> (r: String)
    ensures
        r@ == "Live Notes generation timed out after "@ + decimal(LIVE_NOTES_TIMEOUT_SECS as nat)
            + " seconds. Try a smaller/faster local model or a GPU/accelerated provider."@,
{
    let mut r = "Live Notes generation timed out after ".to_owned();
    push_decimal(&mut r, LIVE_NOTES_TIMEOUT_SECS);
    push_str(&mut r, " seconds. Try a smaller/faster local model or a GPU/accelerated provider.");
    r
}

/// The error given when the model's reply is not a live-notes update.
pub fn invalid_live_notes_message(error: &str, cleaned: &str) -> (r: String)
    ensures
        r@ == "Live notes model returned invalid JSON: "@ + error@ + ". Raw response: "@ + cleaned@,
{
    let mut r = "Live notes model returned invalid JSON: ".to_owned();
    push_str(&mut r, error);
    push_str(&mut r, ". Raw response: ");
    push_str(&mut r, cleaned);
    r
}

/// The instructions given to the model for live-notes updates.
pub const LIVE_NOTES_SYSTEM_PROMPT: &'static str = "You update live meeting notes during an active call.\n\nReturn only valid JSON. Do not use markdown fences. Do not include commentary.\nKeep items short, specific, and operational. Do not invent people, owners, or deadlines.\nUse transcript timestamp ranges to set transcriptStartMs and transcriptEndMs in milliseconds when evidence is available.\nOnly include generated highlights when both transcriptStartMs and transcriptEndMs are known.\nIf the transcript chunk has no useful new information, return empty arrays.\n\nJSON shape:\n{\n  \"currentTopic\": \"short current topic or null\",\n  \"rollingSummary\": [\"1-2 concise summary bullets\"],\n  \"keyPoints\": [\"important facts from the new chunk\"],\n  \"decisions\": [{\"text\": \"decision\", \"transcriptStartMs\": 0, \"transcriptEndMs\": 0, \"confidence\": 0.0}],\n  \"actionItems\": [{\"text\": \"action\", \"owner\": null, \"dueDate\": null, \"transcriptStartMs\": 0, \"transcriptEndMs\": 0, \"confidence\": 0.0}],\n  \"openQuestions\": [\"unresolved questions\"],\n  \"risks\": [\"risks or concerns\"],\n  \"highlights\": [{\"text\": \"notable moment\", \"transcriptStartMs\": 0, \"transcriptEndMs\": 0}]\n}";

/// A language-model provider, as the live-notes command tells them apart:
/// the three local or self-hosted kinds it supports, and any other.
#[derive(Clone, Copy, Debug)]
pub enum LlmProvider {
    Ollama,
    BuiltInAi,
    CustomOpenAi,
    Other,
}

/// Live notes are generated only by local Ollama, the built-in model or a
/// custom OpenAI-compatible endpoint; any other provider is refused with
/// the message naming the requested `model`.
pub fn check_live_notes_provider(provider: LlmProvider, model: &str) -> (r: Result<(), String>)
    ensures
        r is Ok <==> !(provider is Other),
        r matches Err(e) ==> e@
            == "Live Notes currently supports local Ollama, built-in AI, or custom OpenAI-compatible providers. Current provider: "@
            + model@,
{
    match provider {
        LlmProvider::Other => Err(unsupported_provider_message(model)),
        _ => Ok(()),
    }
}

/// The API key sent for live notes: the custom endpoint's key (empty when
/// none was given) for a custom OpenAI-compatible provider, and no key for
/// the others.
pub fn live_notes_api_key(provider: LlmProvider, custom_key: Option<String>) -> (r: String)
    ensures
        r@ == match (provider, custom_key) {
            (LlmProvider::CustomOpenAi, Some(k)) => k@,
            _ => Seq::<char>::empty(),
        },
{
    match provider {
        LlmProvider::CustomOpenAi => match custom_key {
            Some(k) => k,
            None => String::new(),
        },
        _ => String::new(),
    }
}

/// The token limit of a live-notes generation: the requested one, else
/// [`LIVE_NOTES_DEFAULT_MAX_TOKENS`].
pub fn live_notes_max_tokens(requested: Option<u32>) -> (r: u32)
    ensures
        r == match requested {
            Some(n) => n,
            None => LIVE_NOTES_DEFAULT_MAX_TOKENS,
        },
{
    match requested {
        Some(n) => n,
        None => LIVE_NOTES_DEFAULT_MAX_TOKENS,
    }
}

impl LiveNotesRepository {
    /// A live-notes request must name a meeting.
    pub fn check_meeting_id(meeting_id: &str) -> (r: Result<(), String>)
        ensures
            r is Ok <==> trim_ws(meeting_id@).len() > 0,
            r matches Err(e) ==> e@ == "meeting_id cannot be empty"@,
    {
        if trim(&chars_of(meeting_id)).len() == 0 {
            proof {
                reveal_strlit("meeting_id cannot be empty");
            }
            return Err(String::from_str("meeting_id cannot be empty"));
        }
        Ok(())
    }
}

} // verus!
