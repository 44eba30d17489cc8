//! Renaming the speakers of a meeting and remembering them as voice
//! profiles for later meetings.

use vstd::prelude::*;
use crate::ids::{is_record_id, new_record_id};
use crate::text::{chars_of, string_of, trim, trim_ws};

verus! {

broadcast use vstd::string::group_string_axioms;

/// A remembered speaker: a display name and, where one was averaged from
/// the meeting audio, a voice fingerprint stored as JSON text.
#[derive(Debug)]
pub struct SpeakerProfile {
    pub id: String,
    pub display_name: String,
    pub source: Option<String>,
    pub fingerprint_json: Option<String>,
    pub created_at: String,
    pub updated_at: String,
}

/// The outcome of renaming a meeting speaker.
#[derive(Debug)]
pub struct RenameSpeakerResult {
    pub updated_segments: u64,
    pub profile_saved: bool,
}

/// The error given for a blank speaker name.
pub open spec fn empty_name_error() -> Seq<char> {
    "Speaker name cannot be empty"@
}

/// The error given when no segment of the meeting has the speaker id.
pub open spec fn no_segments_error() -> Seq<char> {
    "No transcript segments matched that speaker"@
}

/// The name to store for a speaker: the requested name without surrounding
/// whitespace, refused when nothing is left.
pub fn speaker_display_name(display_name: &str) -> (r: Result<String, String>)
    ensures
        match r {
            Ok(name) => trim_ws(display_name@).len() > 0 && name@ == trim_ws(display_name@),
            Err(e) => trim_ws(display_name@).len() == 0 && e@ == empty_name_error(),
        },
{
    let trimmed = trim(&chars_of(display_name));
    if trimmed.len() == 0 {
        proof {
            reveal_strlit("Speaker name cannot be empty");
        }
        return Err(String::from_str("Speaker name cannot be empty"));
    }
    Ok(string_of(&trimmed))
}

/// The profile a renamed speaker is remembered under: none unless asked
/// to remember; then the profile already tied to the speaker in this
/// meeting, or a fresh `speaker-profile-…` id.
pub fn speaker_profile_id(remember: bool, existing: Option<String>) -> (r: Option<String>)
    ensures
        !remember ==> r is None,
        remember && existing is Some ==> r == existing,
        remember && existing is None ==> (r matches Some(id) && is_record_id(
            id@,
            "speaker-profile"@,
        )),
{
    if !remember {
        return None;
    }
    match existing {
        Some(id) => Some(id),
        None => Some(new_record_id("speaker-profile")),
    }
}

/// The outcome of the rename once the transcript rows were updated: an
/// error when no row had the speaker, else the count and whether a profile
/// was saved.
pub fn rename_outcome(rows_affected: u64, remember: bool) -> (r: Result<
    RenameSpeakerResult,
    String,
>)
    ensures
        match r {
            Ok(result) => rows_affected > 0 && result.updated_segments == rows_affected
                && result.profile_saved == remember,
            Err(e) => rows_affected == 0 && e@ == no_segments_error(),
        },
{
    if rows_affected == 0 {
        proof {
            reveal_strlit("No transcript segments matched that speaker");
        }
        return Err(String::from_str("No transcript segments matched that speaker"));
    }
    Ok(RenameSpeakerResult { updated_segments: rows_affected, profile_saved: remember })
}

} // verus!
