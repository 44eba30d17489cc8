use meetily_core::reconcile::{
    cross_source, is_microphone_source, is_system_source, normalized_tokens,
    suppress_cross_source_echoes, time_overlap, TranscriptSegment,
};

fn segment(id: &str, source: &str, text: &str, start_ms: i64, end_ms: i64) -> TranscriptSegment {
    TranscriptSegment {
        id: id.to_string(),
        text: text.to_string(),
        timestamp: "10:00:00".to_string(),
        source: Some(source.to_string()),
        speaker: None,
        speaker_id: None,
        source_overlap: Some(true),
        audio_start_ms: Some(start_ms),
        audio_end_ms: Some(end_ms),
        duration_ms: Some(end_ms - start_ms),
    }
}

#[test]
fn keeps_system_copy_of_cross_source_echo() {
    let result = suppress_cross_source_echoes(vec![
        segment("mic", "Microphone", "the launch budget was approved today", 1000, 4000),
        segment("system", "System", "The launch budget was approved today.", 1200, 4200),
    ]);
    assert_eq!(result.len(), 1);
    assert_eq!(result[0].id, "system");
}

#[test]
fn preserves_distinct_overlapping_speech() {
    let result = suppress_cross_source_echoes(vec![
        segment("mic", "Microphone", "I have a different question", 1000, 4000),
        segment("system", "System", "The launch budget was approved", 1200, 4200),
    ]);
    assert_eq!(result.len(), 2);
}

#[test]
fn drops_microphone_echo_of_earlier_system_segment() {
    let result = suppress_cross_source_echoes(vec![
        segment("system", "system audio", "Ship it on Friday", 1000, 3000),
        segment("mic", "MICROPHONE", "ship it on friday!", 1100, 3100),
    ]);
    assert_eq!(result.len(), 1);
    assert_eq!(result[0].id, "system");
}

#[test]
fn keeps_segments_far_apart_in_time() {
    let result = suppress_cross_source_echoes(vec![
        segment("mic", "Microphone", "ship it on friday", 1000, 2000),
        segment("system", "System", "ship it on friday", 5000, 6000),
    ]);
    assert_eq!(result.len(), 2);
}

#[test]
fn same_source_repeats_are_kept() {
    let result = suppress_cross_source_echoes(vec![
        segment("a", "System", "hello there everyone", 1000, 2000),
        segment("b", "System", "hello there everyone", 1000, 2000),
    ]);
    assert_eq!(result.len(), 2);
}

#[test]
fn overlap_uses_tolerance_and_flags() {
    let a = segment("a", "Microphone", "x", 0, 1000);
    let b = segment("b", "System", "x", 1750, 2000);
    let c = segment("c", "System", "x", 1751, 2000);
    assert!(time_overlap(&a, &b));
    assert!(!time_overlap(&a, &c));
    let mut d = segment("d", "System", "x", 0, 0);
    d.audio_start_ms = None;
    d.source_overlap = Some(false);
    let mut e = segment("e", "Microphone", "x", 0, 0);
    e.audio_end_ms = None;
    e.source_overlap = None;
    assert!(!time_overlap(&d, &e));
    e.source_overlap = Some(true);
    assert!(time_overlap(&d, &e));
}

#[test]
fn source_labels_ignore_ascii_case() {
    assert!(is_system_source(Some("SYSTEM")));
    assert!(is_system_source(Some("System Audio")));
    assert!(!is_system_source(Some("speaker")));
    assert!(!is_system_source(None));
    assert!(is_microphone_source(Some("microPhone")));
    assert!(!is_microphone_source(None));
    let mic = segment("m", "microphone", "x", 0, 1);
    let sys = segment("s", "System", "x", 0, 1);
    assert!(cross_source(&mic, &sys));
    assert!(cross_source(&sys, &mic));
    assert!(!cross_source(&sys, &sys));
}

#[test]
fn tokens_are_lowercase_alphanumeric_and_distinct() {
    let tokens = normalized_tokens("The launch, the LAUNCH! -- budget");
    let words: Vec<String> = tokens.iter().map(|t| t.iter().collect()).collect();
    assert_eq!(words, vec!["the".to_string(), "launch".to_string(), "budget".to_string()]);
}
