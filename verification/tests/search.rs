use meetily_core::knowledge::{
    answer_from_citations, citation_limit, plan_question, prepare_question_query,
    MeetingCitation,
};
use meetily_core::reconcile::TranscriptSegment;
use meetily_core::search::TranscriptsRepository;

#[test]
fn prepares_safe_full_text_queries() {
    assert_eq!(
        TranscriptsRepository::prepare_fts_query("budget Q3/2026"),
        "\"budget\" AND \"Q32026\""
    );
    assert_eq!(TranscriptsRepository::prepare_fts_query(" OR "), "\"OR\"");
    assert_eq!(TranscriptsRepository::prepare_fts_query("!!!"), "");
}

#[test]
fn fts_query_keeps_dots_dashes_and_quotes_terms() {
    assert_eq!(
        TranscriptsRepository::prepare_fts_query("v1.2 follow-up\tnext_step \"x\""),
        "\"v1.2\" AND \"follow-up\" AND \"next_step\" AND \"x\""
    );
}

#[test]
fn removes_question_filler_but_keeps_subjects() {
    assert_eq!(
        prepare_question_query("What did we decide about Project Atlas?"),
        "\"decide\" OR \"about\" OR \"project\" OR \"atlas\""
    );
}

#[test]
fn question_terms_drop_single_characters() {
    assert_eq!(prepare_question_query("Is X ready, Q?"), "\"ready\"");
    assert_eq!(prepare_question_query("who? when? the"), "");
}

#[test]
fn vague_questions_are_answered_without_search() {
    match plan_question("What is it?") {
        Err(answer) => {
            assert!(!answer.grounded);
            assert!(answer.citations.is_empty());
            assert_eq!(
                answer.answer,
                "Ask a more specific question using a person, project, decision, or topic from your meetings."
            );
        }
        Ok(query) => panic!("unexpected query {query}"),
    }
    assert_eq!(plan_question("When is Atlas launch?").ok().as_deref(), Some("\"atlas\" OR \"launch\""));
}

fn citation(speaker: Option<&str>, quote: &str) -> MeetingCitation {
    MeetingCitation {
        meeting_id: "m1".to_string(),
        meeting_title: "Launch Review".to_string(),
        transcript_id: "t1".to_string(),
        timestamp: "09:15".to_string(),
        audio_start_ms: Some(900_000),
        speaker: speaker.map(str::to_string),
        quote: quote.to_string(),
    }
}

#[test]
fn answers_cite_numbered_evidence() {
    let answer = answer_from_citations(
        "When is Atlas launch?",
        vec![
            citation(Some("Avery"), "  Atlas launch is approved for Friday "),
            citation(None, "Budget done"),
        ],
    );
    assert!(answer.grounded);
    assert_eq!(answer.citations.len(), 2);
    assert_eq!(
        answer.answer,
        "Relevant evidence from your meetings:\n[1] Avery: Atlas launch is approved for Friday\n[2] Launch Review: Budget done"
    );
    let empty = answer_from_citations("q", vec![]);
    assert!(!empty.grounded);
    assert_eq!(
        empty.answer,
        "I could not find a grounded answer in the saved meeting transcripts."
    );
}

#[test]
fn citation_limit_is_clamped() {
    assert_eq!(citation_limit(6), 6);
    assert_eq!(citation_limit(0), 1);
    assert_eq!(citation_limit(99), 20);
}

#[test]
fn match_context_windows_around_first_match() {
    let text = format!("{}Launch budget approved{}", "a".repeat(150), "b".repeat(150));
    let context = TranscriptsRepository::get_match_context(&text, "launch BUDGET");
    let expected = format!("...{}Launch budget approved{}...", "a".repeat(100), "b".repeat(91));
    assert_eq!(context, expected);
    let short = TranscriptsRepository::get_match_context("The launch budget is approved", "launch budget");
    assert_eq!(short, "The launch budget is approved");
}

#[test]
fn match_context_falls_back_to_the_start() {
    let text = "x".repeat(250);
    let context = TranscriptsRepository::get_match_context(&text, "missing");
    assert_eq!(context, "x".repeat(200));
}

#[test]
fn search_results_carry_context() {
    let rows = vec![(
        "m1".to_string(),
        "Planning".to_string(),
        "The launch budget is approved".to_string(),
        "10:00".to_string(),
    )];
    let results = TranscriptsRepository::search_results(rows, "launch budget");
    assert_eq!(results.len(), 1);
    assert_eq!(results[0].id, "m1");
    assert_eq!(results[0].title, "Planning");
    assert_eq!(results[0].timestamp, "10:00");
    assert!(results[0].match_context.contains("launch budget"));
}

fn segment(speaker: Option<&str>, speaker_id: Option<&str>, overlap: Option<bool>) -> TranscriptSegment {
    TranscriptSegment {
        id: "s".to_string(),
        text: "hello".to_string(),
        timestamp: "10:00".to_string(),
        source: Some("System".to_string()),
        speaker: speaker.map(str::to_string),
        speaker_id: speaker_id.map(str::to_string),
        source_overlap: overlap,
        audio_start_ms: None,
        audio_end_ms: None,
        duration_ms: None,
    }
}

#[test]
fn segment_rows_prefer_remembered_speakers() {
    let row = TranscriptsRepository::segment_row(
        &segment(Some("Remote speaker 1"), Some("remote-speaker-1"), None),
        Some(("speaker-profile-1".to_string(), "Avery".to_string())),
    );
    assert!(row.id.starts_with("transcript-"));
    assert_eq!(row.id.len(), "transcript-".len() + 36);
    assert_eq!(row.speaker.as_deref(), Some("Avery"));
    assert!(!row.source_overlap);
    let label = row.label.unwrap();
    assert_eq!(label.speaker_id, "remote-speaker-1");
    assert_eq!(label.profile_id, "speaker-profile-1");
    assert_eq!(label.display_name, "Avery");

    let plain = TranscriptsRepository::segment_row(&segment(Some("Remote speaker 1"), None, Some(true)), None);
    assert_eq!(plain.speaker.as_deref(), Some("Remote speaker 1"));
    assert!(plain.source_overlap);
    assert!(plain.label.is_none());
}

#[test]
fn meeting_ids_are_prefixed_uuids() {
    let a = TranscriptsRepository::new_meeting_id();
    let b = TranscriptsRepository::new_meeting_id();
    assert!(a.starts_with("meeting-"));
    assert_eq!(a.len(), "meeting-".len() + 36);
    assert_ne!(a, b);
}

#[test]
fn quoted_terms_double_inner_quotes() {
    let term: Vec<char> = "say \"hi\"".chars().collect();
    let quoted: String = meetily_core::text::quote_term(&term).into_iter().collect();
    assert_eq!(quoted, "\"say \"\"hi\"\"\"");
}

#[test]
fn searches_without_terms_run_no_query() {
    assert_eq!(TranscriptsRepository::search_query("?!").as_deref(), None);
    assert_eq!(TranscriptsRepository::search_query("launch").as_deref(), Some("\"launch\""));
}

#[test]
fn match_context_counts_bytes_like_str_offsets() {
    let text = format!("{}budget", "é".repeat(150));
    let context = TranscriptsRepository::get_match_context(&text, "BUDGET");
    assert_eq!(context, format!("...{}budget", "é".repeat(50)));
}
