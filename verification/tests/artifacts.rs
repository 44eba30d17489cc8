use meetily_core::artifacts::{
    audio_file_candidates, check_meeting_id, check_vault, check_vault_path, export_directory,
    export_file_list, export_result, find_audio_file, format_clock, humanize,
    invalid_stored_json_message, meeting_not_found_message, obsidian_note_file_name,
    obsidian_subfolder, render_live_notes_markdown, render_obsidian_note,
    render_summary_markdown, render_transcript_markdown, sanitize_file_name, MeetingRecord,
    TranscriptEntry, ARTIFACT_SCHEMA_VERSION,
};
use meetily_core::json::JsonValue;

fn text(s: &str) -> JsonValue {
    JsonValue::Str(s.to_string())
}

#[test]
fn renders_nested_summary_without_losing_items() {
    let item = JsonValue::Object(
        vec![("text".to_string(), text("Follow up"))],
        "{\"text\":\"Follow up\"}".to_string(),
    );
    let items = JsonValue::Array(vec![item], "[{\"text\":\"Follow up\"}]".to_string());
    let summary = JsonValue::Object(
        vec![
            ("actionItems".to_string(), items),
            ("executiveSummary".to_string(), text("A concise result")),
        ],
        "{\"actionItems\":[{\"text\":\"Follow up\"}],\"executiveSummary\":\"A concise result\"}"
            .to_string(),
    );
    let markdown = render_summary_markdown(&summary);
    assert!(markdown.contains("## Executive Summary"));
    assert!(markdown.contains("- Follow up"));
}

#[test]
fn summary_rendering_exact_document() {
    let nested = JsonValue::Object(
        vec![
            ("metadata".to_string(), text("skip me")),
            ("owner_name".to_string(), JsonValue::Null),
            ("score".to_string(), JsonValue::Number("3".to_string(), Some(3))),
            ("list".to_string(), JsonValue::Array(vec![], "[]".to_string())),
            (
                "raw".to_string(),
                JsonValue::Array(
                    vec![JsonValue::Bool(true)],
                    "[true]".to_string(),
                ),
            ),
        ],
        "{}".to_string(),
    );
    let summary = JsonValue::Object(vec![("details".to_string(), nested)], "{}".to_string());
    let markdown = render_summary_markdown(&summary);
    assert_eq!(
        markdown,
        "# Meeting Summary\n\n## Details\n\n### Owner name\n\nNone noted.\n\n### Score\n\n3\n\n### List\n\nNone noted.\n\n### Raw\n\n- `true`\n"
    );
    assert_eq!(render_summary_markdown(&text("  Plain text  ")), "# Meeting Summary\n\nPlain text\n");
}

#[test]
fn live_notes_rendering() {
    let notes = JsonValue::Object(
        vec![
            ("currentTopic".to_string(), text("Budget")),
            (
                "keyPoints".to_string(),
                JsonValue::Array(vec![text(" Approved "), JsonValue::Null], "[]".to_string()),
            ),
            (
                "actionItems".to_string(),
                JsonValue::Array(
                    vec![JsonValue::Object(
                        vec![
                            ("text".to_string(), text("Use JSON")),
                            ("owner".to_string(), text("Avery")),
                        ],
                        "{}".to_string(),
                    )],
                    "[]".to_string(),
                ),
            ),
        ],
        "{}".to_string(),
    );
    let markdown = render_live_notes_markdown(&notes);
    assert!(markdown.starts_with("# Live Notes\n\n## Current Topic\n\nBudget\n\n## Rolling Summary\n\nNone noted.\n\n## Key Points\n\n- Approved\n"));
    assert!(markdown.contains("## Action Items\n\n- Use JSON (owner: Avery)\n"));
    assert!(markdown.ends_with("## Highlights\n\nNone noted.\n"));
}

#[test]
fn humanizes_keys() {
    assert_eq!(humanize("executiveSummary"), "Executive Summary");
    assert_eq!(humanize("next_steps"), "Next steps");
    assert_eq!(humanize(""), "");
}

fn meeting() -> MeetingRecord {
    MeetingRecord {
        id: "meeting-1".to_string(),
        title: "Weekly Review".to_string(),
        created_at: "2026-07-14T09:00:00+00:00".to_string(),
        updated_at: "2026-07-14T09:00:00+00:00".to_string(),
        folder_path: None,
    }
}

fn entry(ms: Option<i64>, speaker: Option<&str>, source: Option<&str>, words: &str) -> TranscriptEntry {
    TranscriptEntry {
        transcript: words.to_string(),
        timestamp: "09:01".to_string(),
        speaker: speaker.map(str::to_string),
        source: source.map(str::to_string),
        audio_start_ms: ms,
    }
}

#[test]
fn transcript_markdown_lists_timed_speakers() {
    let markdown = render_transcript_markdown(
        &meeting(),
        &vec![
            entry(Some(65_000), Some("Remote speaker 1"), None, " Use JSON "),
            entry(None, None, Some("Microphone"), "Done"),
            entry(Some(-5), None, None, "x"),
        ],
    );
    assert_eq!(
        markdown,
        "# Weekly Review\n\nMeeting ID: `meeting-1`\nCreated: 2026-07-14T09:00:00+00:00\n\n## Transcript\n\n- **[01:05] Remote speaker 1:** Use JSON\n- **[09:01] Microphone:** Done\n- **[00:00] Speaker:** x\n"
    );
}

#[test]
fn clock_format_pads_minutes_and_seconds() {
    assert_eq!(format_clock(65_999), "01:05");
    assert_eq!(format_clock(3_600_000), "60:00");
    assert_eq!(format_clock(-1), "00:00");
}

#[test]
fn obsidian_note_has_front_matter() {
    let note = render_obsidian_note(&meeting(), &vec![], None, None);
    assert!(note.starts_with("---\nmeetily_id: \"meeting-1\"\ntitle: \"Weekly Review\"\ncreated: 2026-07-14T09:00:00+00:00\ntags: [meetily, meeting]\n---\n\n# Weekly Review"));
    let mut quoted = meeting();
    quoted.title = "Say \"hi\"".to_string();
    let note = render_obsidian_note(&quoted, &vec![], None, None);
    assert!(note.contains("title: \"Say \\\"hi\\\"\""));
}

#[test]
fn file_names_are_sanitized() {
    assert_eq!(sanitize_file_name("Q3: plan/review  now"), "Q3- plan-review now");
    assert_eq!(sanitize_file_name("   "), "Meeting");
    assert_eq!(sanitize_file_name(""), "Meeting");
    assert_eq!(obsidian_note_file_name("Weekly Review", "meeting-1"), "Weekly Review--meeting-1.md");
    assert_eq!(obsidian_subfolder(Some("  Meetings ")).as_deref(), Some("Meetings"));
    assert_eq!(obsidian_subfolder(Some("   ")), None);
}

#[test]
fn export_plan() {
    assert_eq!(check_meeting_id("  ").unwrap_err(), "meeting id cannot be empty");
    assert!(check_meeting_id("m1").is_ok());
    assert_eq!(
        export_directory(None, None).unwrap_err(),
        "meeting has no recording folder; choose an export destination"
    );
    assert_eq!(export_directory(None, Some("/rec".to_string())).unwrap(), "/rec");
    assert_eq!(export_directory(Some("/out".to_string()), Some("/rec".to_string())).unwrap(), "/out");
    let files = export_file_list(true, false, Some("audio.wav".to_string()));
    assert_eq!(files, vec!["transcript.json", "transcript.md", "live-notes.md", "audio.wav"]);
    let result = export_result("meeting-1", "/out".to_string(), files);
    assert_eq!(result.schema_version, ARTIFACT_SCHEMA_VERSION);
    assert_eq!(result.files[0], "meeting.json");
    assert_eq!(result.files.len(), 5);
}

#[test]
fn audio_file_is_the_first_found_candidate() {
    assert_eq!(audio_file_candidates(), vec!["audio.mp4", "audio.wav", "audio.m4a", "recording.wav"]);
    assert_eq!(find_audio_file(Some("/rec"), &vec![false, true, true, false]).as_deref(), Some("audio.wav"));
    assert_eq!(find_audio_file(Some("/rec"), &vec![false, false, false, false]), None);
    assert_eq!(find_audio_file(None, &vec![true, true, true, true]), None);
}

#[test]
fn error_messages() {
    assert_eq!(meeting_not_found_message("m9"), "meeting not found: m9");
    assert_eq!(invalid_stored_json_message("live notes"), "stored live notes is not valid JSON");
    assert_eq!(check_vault_path(false).unwrap_err(), "Obsidian vault path must be absolute");
    assert!(check_vault("/vault").is_ok());
    assert!(check_vault("vault").is_err());
}

#[test]
fn deep_summaries_cap_headings_at_six_marks() {
    let mut value = JsonValue::Str("deep".to_string());
    for key in ["g", "f", "e", "d", "c", "b", "a"] {
        value = JsonValue::Object(vec![(key.to_string(), value)], "{}".to_string());
    }
    let markdown = render_summary_markdown(&value);
    assert!(markdown.contains("\n###### F\n\n###### G\n\ndeep\n"));
    let mut lines: Vec<Vec<char>> = Vec::new();
    meetily_core::artifacts::push_json_lines(&mut lines, &value, 9);
    let first: String = lines[0].iter().collect();
    assert_eq!(first, "###### A");
}

#[test]
fn sanitized_names_are_single_spaced() {
    assert_eq!(sanitize_file_name("  Q3/Review:  Plan  "), "Q3-Review- Plan");
    assert_eq!(sanitize_file_name("     "), "Meeting");
}
