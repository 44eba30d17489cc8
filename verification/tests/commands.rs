use meetily_core::summary::{
    check_live_notes_provider, live_notes_api_key, live_notes_max_tokens, LlmProvider,
};
use meetily_core::cli::{
    answers_request, build_meta, capabilities, mcp_anyhow_error, mcp_db_error, mcp_json_error,
    meetings_list_limit, parse_tool_call, request_method, required_string, route_method,
    McpMethod, McpToolCall,
};
use meetily_core::hooks::{check_hook, hook_action, hook_draft, hook_run_record, prepare_hook, HookAction};
use meetily_core::ids::{new_record_id, record_id_with};
use meetily_core::json::JsonValue;
use meetily_core::speakers::{rename_outcome, speaker_display_name, speaker_profile_id};
use meetily_core::summary::{
    cancel_message, check_live_notes_chunk, invalid_live_notes_message, live_notes_timeout_message,
    live_notes_user_prompt, prefixed_error, process_plan, process_started, summary_response,
    summary_saved, unsupported_provider_message, LiveNotesRepository, SummaryProcess,
};

fn object(entries: Vec<(&str, JsonValue)>) -> JsonValue {
    JsonValue::Object(
        entries.into_iter().map(|(k, v)| (k.to_string(), v)).collect(),
        "{}".to_string(),
    )
}

fn text(s: &str) -> JsonValue {
    JsonValue::Str(s.to_string())
}

fn number(n: i64) -> JsonValue {
    JsonValue::Number(n.to_string(), Some(n))
}

#[test]
fn mcp_routes_and_denies_without_read_access() {
    assert!(matches!(route_method("initialize", false), Ok(McpMethod::Initialize)));
    assert!(matches!(route_method("tools/list", false), Ok(McpMethod::ListTools)));
    assert!(matches!(route_method("tools/call", true), Ok(McpMethod::CallTool)));
    let (code, message) = route_method("tools/call", false).unwrap_err();
    assert_eq!(code, -32001);
    assert_eq!(
        message,
        "Meetily transcript access is denied. Restart this MCP process with --allow-read or MEETILY_MCP_ALLOW_READ=true."
    );
    assert_eq!(route_method("ping", true).unwrap_err(), (-32601, "Unknown method: ping".to_string()));
}

#[test]
fn mcp_requests_without_id_are_notifications() {
    let request = object(vec![("id", number(1)), ("method", text("tools/list"))]);
    assert!(answers_request(&request));
    assert_eq!(request_method(&request), "tools/list");
    let note = object(vec![("method", text("initialized"))]);
    assert!(!answers_request(&note));
    assert_eq!(request_method(&object(vec![])), "");
}

fn call(name: Option<&str>, arguments: Vec<(&str, JsonValue)>) -> JsonValue {
    let mut params = vec![("arguments", object(arguments))];
    if let Some(n) = name {
        params.push(("name", text(n)));
    }
    object(vec![("params", object(params))])
}

#[test]
fn mcp_tool_calls_are_parsed() {
    match parse_tool_call(&call(Some("meetily_list_meetings"), vec![])) {
        Ok(McpToolCall::ListMeetings { limit }) => assert_eq!(limit, 20),
        other => panic!("{other:?}"),
    }
    match parse_tool_call(&call(Some("meetily_list_meetings"), vec![("limit", number(500))])) {
        Ok(McpToolCall::ListMeetings { limit }) => assert_eq!(limit, 100),
        other => panic!("{other:?}"),
    }
    match parse_tool_call(&call(Some("meetily_ask"), vec![("question", text("Atlas?"))])) {
        Ok(McpToolCall::Ask { question, limit }) => {
            assert_eq!(question, "Atlas?");
            assert_eq!(limit, 6);
        }
        other => panic!("{other:?}"),
    }
    match parse_tool_call(&call(Some("meetily_search"), vec![("query", text("budget"))])) {
        Ok(McpToolCall::Search { query }) => assert_eq!(query, "budget"),
        other => panic!("{other:?}"),
    }
    match parse_tool_call(&call(Some("meetily_get_meeting"), vec![("meeting_id", text("m1"))])) {
        Ok(McpToolCall::GetMeeting { meeting_id }) => assert_eq!(meeting_id, "m1"),
        other => panic!("{other:?}"),
    }
    assert_eq!(
        parse_tool_call(&call(None, vec![])).unwrap_err(),
        (-32602, "Tool name is required".to_string())
    );
    assert_eq!(
        parse_tool_call(&call(Some("meetily_search"), vec![("query", text("  "))])).unwrap_err(),
        (-32602, "query is required".to_string())
    );
    assert_eq!(
        parse_tool_call(&call(Some("drop_tables"), vec![])).unwrap_err(),
        (-32602, "Unknown tool: drop_tables".to_string())
    );
    assert_eq!(
        parse_tool_call(&object(vec![])).unwrap_err(),
        (-32602, "Tool name is required".to_string())
    );
}

#[test]
fn required_strings_and_error_codes() {
    let args = object(vec![("question", text("why")), ("limit", number(3))]);
    assert_eq!(required_string(Some(&args), "question").unwrap(), "why");
    assert_eq!(required_string(Some(&args), "limit").unwrap_err().1, "limit is required");
    assert_eq!(required_string(None, "meeting_id").unwrap_err().0, -32602);
    assert_eq!(mcp_db_error("db".to_string()), (-32002, "db".to_string()));
    assert_eq!(mcp_anyhow_error("gone".to_string()), (-32002, "gone".to_string()));
    assert_eq!(mcp_json_error("bad".to_string()), (-32603, "bad".to_string()));
}

#[test]
fn cli_limits_and_metadata() {
    assert_eq!(meetings_list_limit(20), 20);
    assert_eq!(meetings_list_limit(-3), 1);
    assert_eq!(meetings_list_limit(9_999), 500);
    let meta = build_meta("2026-07-14T09:00:00+00:00".to_string(), "/db".to_string());
    assert_eq!(meta.schema_version, 1);
    assert_eq!(meta.artifact_schema_version, "1.0.0");
    assert_eq!(meta.db_path, "/db");
    assert_eq!(capabilities().len(), 6);
    assert_eq!(capabilities()[5], "mcp.stdio");
}

#[test]
fn hooks_are_validated_in_order() {
    assert_eq!(
        check_hook("email", "", "", false).as_deref(),
        Some("Hook kind must be artifact_export or obsidian_export")
    );
    assert_eq!(
        check_hook("obsidian_export", "  ", "/vault", true).as_deref(),
        Some("Hook name and destination are required")
    );
    assert_eq!(
        check_hook("artifact_export", "Backup", "exports", false).as_deref(),
        Some("Hook destination must be an absolute local path")
    );
    assert_eq!(check_hook("artifact_export", "Backup", "/exports", true), None);
}

#[test]
fn hook_drafts_are_trimmed() {
    let draft = hook_draft(
        None,
        " Backup ",
        "artifact_export",
        " /exports ",
        Some("  ".to_string()),
        true,
        true,
    )
    .unwrap();
    assert!(draft.id.starts_with("hook-"));
    assert_eq!(draft.name, "Backup");
    assert_eq!(draft.destination, "/exports");
    assert_eq!(draft.folder, None);
    let kept = hook_draft(
        Some("hook-1".to_string()),
        "Vault",
        "obsidian_export",
        "/vault",
        Some(" Meetings ".to_string()),
        false,
        true,
    )
    .unwrap();
    assert_eq!(kept.id, "hook-1");
    assert_eq!(kept.folder.as_deref(), Some("Meetings"));
    assert!(!kept.enabled);
    assert!(prepare_hook(None, "Vault", "obsidian_export", "/vault", None, true).is_ok());
    assert_eq!(
        prepare_hook(None, "Vault", "obsidian_export", "vault", None, true).unwrap_err(),
        "Hook destination must be an absolute local path"
    );
}

#[test]
fn hook_runs() {
    assert!(matches!(hook_action("artifact_export"), Some(HookAction::ArtifactExport)));
    assert!(matches!(hook_action("obsidian_export"), Some(HookAction::ObsidianExport)));
    assert!(hook_action("webhook").is_none());
    let (id, status, detail) = hook_run_record(Ok("/out/m1".to_string()));
    assert!(id.starts_with("hook-run-"));
    assert_eq!(status, "success");
    assert_eq!(detail, "/out/m1");
    let (_, status, detail) = hook_run_record(Err("disk full".to_string()));
    assert_eq!(status, "failed");
    assert_eq!(detail, "disk full");
}

#[test]
fn speaker_renames() {
    assert_eq!(speaker_display_name("  Avery ").unwrap(), "Avery");
    assert_eq!(speaker_display_name(" \t ").unwrap_err(), "Speaker name cannot be empty");
    assert_eq!(speaker_profile_id(false, Some("p1".to_string())), None);
    assert_eq!(speaker_profile_id(true, Some("p1".to_string())).as_deref(), Some("p1"));
    let fresh = speaker_profile_id(true, None).unwrap();
    assert!(fresh.starts_with("speaker-profile-"));
    assert_eq!(fresh.len(), "speaker-profile-".len() + 36);
    let outcome = rename_outcome(2, true).unwrap();
    assert_eq!(outcome.updated_segments, 2);
    assert!(outcome.profile_saved);
    assert_eq!(
        rename_outcome(0, true).unwrap_err(),
        "No transcript segments matched that speaker"
    );
}

#[test]
fn record_ids() {
    assert_eq!(record_id_with("hook", "abc"), "hook-abc");
    let id = new_record_id("meeting");
    assert_eq!(id.len(), 8 + 36);
    assert_eq!(id.as_bytes()[8 + 8], b'-');
}

#[test]
fn summary_requests_use_defaults() {
    let plan = process_plan(None, None, None, None, None);
    assert!(plan.meeting_id.starts_with("meeting-"));
    assert_eq!(plan.prompt, "");
    assert_eq!(plan.template_id, "daily_standup");
    assert_eq!(plan.chunk_size, 40000);
    assert_eq!(plan.overlap, 1000);
    let given = process_plan(
        Some("m1".to_string()),
        Some("Be brief".to_string()),
        Some("retro".to_string()),
        Some(100),
        Some(10),
    );
    assert_eq!(given.meeting_id, "m1");
    assert_eq!(given.prompt, "Be brief");
    assert_eq!(given.template_id, "retro");
    assert_eq!((given.chunk_size, given.overlap), (100, 10));
    let started = process_started("m1".to_string());
    assert_eq!(started.message, "Summary generation started");
    assert_eq!(started.process_id, "m1");
}

#[test]
fn summary_state_reports() {
    let idle = summary_response("m1".to_string(), None, Some("Planning".to_string()));
    assert_eq!(idle.status, "idle");
    assert_eq!(idle.meeting_name.as_deref(), Some("Planning"));
    assert!(idle.data.is_none());
    let done = summary_response(
        "m1".to_string(),
        Some(SummaryProcess {
            status: "COMPLETED".to_string(),
            error: None,
            data: Some(JsonValue::Null),
            start: Some("s".to_string()),
            end: None,
        }),
        None,
    );
    assert_eq!(done.status, "completed");
    assert_eq!(done.start.as_deref(), Some("s"));
    assert!(matches!(done.data, Some(JsonValue::Null)));
    assert_eq!(summary_saved(Ok(true)).unwrap(), "Meeting summary saved successfully");
    assert_eq!(
        summary_saved(Ok(false)).unwrap_err(),
        "Meeting not found or can't convert the json"
    );
    assert_eq!(summary_saved(Err("locked".to_string())).unwrap_err(), "locked");
    assert_eq!(cancel_message(true), "Summary generation cancelled successfully");
    assert_eq!(cancel_message(false), "No active summary generation to cancel");
}

#[test]
fn live_notes_requests() {
    assert_eq!(
        check_live_notes_chunk("   ").unwrap_err(),
        "No transcript text available for live notes"
    );
    assert!(check_live_notes_chunk("hi").is_ok());
    assert_eq!(
        LiveNotesRepository::check_meeting_id(" ").unwrap_err(),
        "meeting_id cannot be empty"
    );
    assert!(LiveNotesRepository::check_meeting_id("m1").is_ok());
    assert_eq!(
        live_notes_user_prompt("{}", "We ship Friday"),
        "Current live notes state:\n{}\n\nNew transcript chunk:\nWe ship Friday\n\nUpdate the live notes using only the new transcript chunk and current state."
    );
    assert_eq!(
        live_notes_timeout_message(),
        "Live Notes generation timed out after 120 seconds. Try a smaller/faster local model or a GPU/accelerated provider."
    );
    assert!(unsupported_provider_message("groq").ends_with("Current provider: groq"));
    assert_eq!(
        invalid_live_notes_message("EOF", "{"),
        "Live notes model returned invalid JSON: EOF. Raw response: {"
    );
    assert_eq!(prefixed_error("Failed to save live notes", "busy"), "Failed to save live notes: busy");
}

#[test]
fn record_ids_use_lowercase_hyphenated_v4_uuids() {
    let id = new_record_id("hook");
    let uuid: Vec<char> = id["hook-".len()..].chars().collect();
    assert_eq!(uuid.len(), 36);
    for (i, c) in uuid.iter().enumerate() {
        if [8, 13, 18, 23].contains(&i) {
            assert_eq!(*c, '-');
        } else {
            assert!(c.is_ascii_digit() || ('a'..='f').contains(c));
        }
    }
    assert_eq!(uuid[14], '4');
    assert!(['8', '9', 'a', 'b'].contains(&uuid[19]));
}

#[test]
fn live_notes_provider_gate() {
    assert!(check_live_notes_provider(LlmProvider::Ollama, "llama3").is_ok());
    assert!(check_live_notes_provider(LlmProvider::BuiltInAi, "gemma").is_ok());
    assert!(check_live_notes_provider(LlmProvider::CustomOpenAi, "local").is_ok());
    assert_eq!(
        check_live_notes_provider(LlmProvider::Other, "groq").unwrap_err(),
        "Live Notes currently supports local Ollama, built-in AI, or custom OpenAI-compatible providers. Current provider: groq"
    );
    assert_eq!(live_notes_api_key(LlmProvider::CustomOpenAi, Some("k1".to_string())), "k1");
    assert_eq!(live_notes_api_key(LlmProvider::CustomOpenAi, None), "");
    assert_eq!(live_notes_api_key(LlmProvider::Ollama, Some("k1".to_string())), "");
    assert_eq!(live_notes_max_tokens(None), 512);
    assert_eq!(live_notes_max_tokens(Some(64)), 64);
}
