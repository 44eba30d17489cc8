//! Post-meeting hooks: exports run automatically once a meeting is saved.
//!
//! A hook either writes the meeting's artifact bundle under a destination
//! folder or writes a note into an Obsidian vault. This module validates
//! hooks before they are stored and decides what each run does and records.

use vstd::prelude::*;
use crate::ids::{is_record_id, new_record_id};
use crate::text::{chars_of, chars_equal_str, string_of, trim, trim_ws};

verus! {

broadcast use vstd::string::group_string_axioms;

/// A stored post-meeting hook.
#[derive(Debug)]
pub struct PostMeetingHook {
    pub id: String,
    pub name: String,
    pub kind: String,
    pub destination: String,
    pub folder: Option<String>,
    pub enabled: bool,
    pub created_at: String,
    pub updated_at: String,
}

/// A validated hook, ready to be stored (timestamps are added on save).
#[derive(Debug)]
pub struct HookDraft {
    pub id: String,
    pub name: String,
    pub kind: String,
    pub destination: String,
    pub folder: Option<String>,
    pub enabled: bool,
}

/// What a hook does when it runs.
#[derive(Clone, Copy, Debug)]
pub enum HookAction {
    /// Export the artifact bundle into `<destination>/<meeting id>`.
    ArtifactExport,
    /// Write a note into the Obsidian vault at the destination.
    ObsidianExport,
}

/// The kinds of hook that can be saved.
pub open spec fn is_hook_kind(kind: Seq<char>) -> bool {
    kind == "artifact_export"@ || kind == "obsidian_export"@
}

pub open spec fn bad_kind_error() -> Seq<char> {
    "Hook kind must be artifact_export or obsidian_export"@
}

pub open spec fn missing_fields_error() -> Seq<char> {
    "Hook name and destination are required"@
}

pub open spec fn relative_destination_error() -> Seq<char> {
    "Hook destination must be an absolute local path"@
}

/// Why a hook cannot be saved, if it cannot; `absolute` tells whether the
/// destination is an absolute path. The kind is checked first, then the
/// name and destination, then the destination's form.
pub open spec fn hook_problem(
    kind: Seq<char>,
    name: Seq<char>,
    destination: Seq<char>,
    absolute: bool,
) -> Option<Seq<char>> {
    if !is_hook_kind(kind) {
        Some(bad_kind_error())
    } else if trim_ws(name).len() == 0 || trim_ws(destination).len() == 0 {
        Some(missing_fields_error())
    } else if !absolute {
        Some(relative_destination_error())
    } else {
        None
    }
}

/// The optional folder of a hook: trimmed, and dropped when blank.
pub open spec fn hook_folder(folder: Option<Seq<char>>) -> Option<Seq<char>> {
    match folder {
        Some(f) => if trim_ws(f).len() > 0 {
            Some(trim_ws(f))
        } else {
            None
        },
        None => None,
    }
}

/// The optional text of an optional string.
pub open spec fn text_of_opt(o: Option<String>) -> Option<Seq<char>> {
    match o {
        Some(s) => Some(s@),
        None => None,
    }
}

/// The text holds a path separator (`/`, or the backslash that Windows also reads).
pub open spec fn has_separator(path: Seq<char>) -> bool {
    exists|i: int| 0 <= i < path.len() && (path[i] == '/' || path[i] == '\\')
}

/// Calls `std::path::Path::is_absolute` on the text. What counts as
/// absolute depends on the platform; on every platform the documentation
/// requires an absolute path to start with the root, which is a separator,
/// so a text with no separator is stated to be relative. Nothing more is
/// stated of the answer.
#[verifier::external_body]
pub(crate) fn path_is_absolute(path: &str) -> (b: bool)
    ensures
        !has_separator(path@) ==> !b,
{
    std::path::Path::new(path).is_absolute()
}

fn is_kind(kind: &str) -> (b: bool)
    ensures
        b == is_hook_kind(kind@),
{
    let k = chars_of(kind);
    chars_equal_str(&k, "artifact_export") || chars_equal_str(&k, "obsidian_export")
}

/// Checks a hook before it is saved, given whether its destination is an
/// absolute path; the error is exactly [`hook_problem`].
pub fn check_hook(kind: &str, name: &str, destination: &str, absolute: bool) -> (r: Option<String>)
    ensures
        text_of_opt(r) == hook_problem(kind@, name@, destination@, absolute),
{
    if !is_kind(kind) {
        proof {
            reveal_strlit("Hook kind must be artifact_export or obsidian_export");
        }
        return Some(String::from_str("Hook kind must be artifact_export or obsidian_export"));
    }
    if trim(&chars_of(name)).len() == 0 || trim(&chars_of(destination)).len() == 0 {
        proof {
            reveal_strlit("Hook name and destination are required");
        }
        return Some(String::from_str("Hook name and destination are required"));
    }
    if !absolute {
        proof {
            reveal_strlit("Hook destination must be an absolute local path");
        }
        return Some(String::from_str("Hook destination must be an absolute local path"));
    }
    None
}

/// The hook to store for a request, once checked with the destination's
/// absoluteness given: the requested id or a fresh `hook-…` id, the name
/// and destination trimmed, a blank folder dropped.
pub fn hook_draft(
    id: Option<String>,
    name: &str,
    kind: &str,
    destination: &str,
    folder: Option<String>,
    enabled: bool,
    absolute: bool,
) -> (r: Result<HookDraft, String>)
    ensures
        match r {
            Err(e) => hook_problem(kind@, name@, destination@, absolute) == Some(e@),
            Ok(d) => {
                &&& hook_problem(kind@, name@, destination@, absolute) is None
                &&& match id {
                    Some(given) => d.id == given,
                    None => is_record_id(d.id@, "hook"@),
                }
                &&& d.name@ == trim_ws(name@)
                &&& d.kind@ == kind@
                &&& d.destination@ == trim_ws(destination@)
                &&& text_of_opt(d.folder) == hook_folder(text_of_opt(folder))
                &&& d.enabled == enabled
            },
        },
{
    if let Some(problem) = check_hook(kind, name, destination, absolute) {
        return Err(problem);
    }
    let id = match id {
        Some(given) => given,
        None => new_record_id("hook"),
    };
    let folder = match folder {
        Some(f) => {
            let t = trim(&chars_of(f.as_str()));
            if t.len() > 0 {
                Some(string_of(&t))
            } else {
                None
            }
        },
        None => None,
    };
    Ok(
        HookDraft {
            id,
            name: string_of(&trim(&chars_of(name))),
            kind: kind.to_owned(),
            destination: string_of(&trim(&chars_of(destination))),
            folder,
            enabled,
        },
    )
}

/// Validates a hook request and prepares it for storage, asking the
/// platform whether the destination is absolute. Whatever the platform
/// answers, the outcome is [`hook_draft`]'s for that answer.
pub fn prepare_hook(
    id: Option<String>,
    name: &str,
    kind: &str,
    destination: &str,
    folder: Option<String>,
    enabled: bool,
) -> (r: Result<HookDraft, String>)
    ensures
        match r {
            Err(e) => hook_problem(kind@, name@, destination@, true) == Some(e@) || hook_problem(
                kind@,
                name@,
                destination@,
                false,
            ) == Some(e@),
            Ok(d) => {
                &&& hook_problem(kind@, name@, destination@, true) is None
                &&& has_separator(destination@)
                &&& match id {
                    Some(given) => d.id == given,
                    None => is_record_id(d.id@, "hook"@),
                }
                &&& d.name@ == trim_ws(name@)
                &&& d.kind@ == kind@
                &&& d.destination@ == trim_ws(destination@)
                &&& text_of_opt(d.folder) == hook_folder(text_of_opt(folder))
                &&& d.enabled == enabled
            },
        },
{
    let absolute = path_is_absolute(destination);
    hook_draft(id, name, kind, destination, folder, enabled, absolute)
}

/// What a hook of the given kind does; other kinds are skipped.
pub fn hook_action(kind: &str) -> (r: Option<HookAction>)
    ensures
        kind@ == "artifact_export"@ <==> r matches Some(HookAction::ArtifactExport),
        kind@ == "obsidian_export"@ <==> r matches Some(HookAction::ObsidianExport),
        r is None <==> !is_hook_kind(kind@),
{
    let k = chars_of(kind);
    proof {
        reveal_strlit("artifact_export");
        reveal_strlit("obsidian_export");
        assert("artifact_export"@[0] != "obsidian_export"@[0]);
    }
    if chars_equal_str(&k, "artifact_export") {
        Some(HookAction::ArtifactExport)
    } else if chars_equal_str(&k, "obsidian_export") {
        Some(HookAction::ObsidianExport)
    } else {
        None
    }
}

/// The run record of a hook: a fresh `hook-run-…` id, the status
/// (`success` or `failed`) and the detail (the output path, or the
/// error).
pub fn hook_run_record(outcome: Result<String, String>) -> (r: (String, String, String))
    ensures
        is_record_id(r.0@, "hook-run"@),
        match outcome {
            Ok(path) => r.1@ == "success"@ && r.2 == path,
            Err(error) => r.1@ == "failed"@ && r.2 == error,
        },
{
    let id = new_record_id("hook-run");
    proof {
        reveal_strlit("success");
        reveal_strlit("failed");
    }
    match outcome {
        Ok(path) => (id, String::from_str("success"), path),
        Err(error) => (id, String::from_str("failed"), error),
    }
}

/// Only the two built-in kinds of hook, with a name and an absolute
/// destination, are ever accepted for saving.
pub proof fn lemma_saved_hooks_are_builtin(
    kind: Seq<char>,
    name: Seq<char>,
    destination: Seq<char>,
    absolute: bool,
)
    ensures
        hook_problem(kind, name, destination, absolute) is None ==> {
            &&& is_hook_kind(kind)
            &&& trim_ws(name).len() > 0
            &&& trim_ws(destination).len() > 0
            &&& absolute
        },
{
}

} // verus!
