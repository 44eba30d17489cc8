use meetily_core::calendar::{
    due_window, import_result, meeting_app_listed, meeting_detection, parse_ics,
    readiness_checks, unescape_ics, upcoming_window, upcoming_window_hours, AudioDeviceKind,
    CalendarEvent, CONTEXT_MARGIN_SECS, DETECTION_MARGIN_SECS,
};
use meetily_core::instants::Instant;

#[test]
fn parses_calendar_event_and_join_url() {
    let events = parse_ics("BEGIN:VCALENDAR\nBEGIN:VEVENT\nUID:abc\nDTSTART:20260714T090000Z\nDTEND:20260714T093000Z\nSUMMARY:Launch review\nDESCRIPTION:Join https://meet.example/abc\nEND:VEVENT\nEND:VCALENDAR").unwrap();
    assert_eq!(events.len(), 1);
    assert_eq!(events[0].title, "Launch review");
    assert_eq!(events[0].join_url.as_deref(), Some("https://meet.example/abc"));
}

#[test]
fn event_fields_defaults_and_source() {
    let events = parse_ics(
        "BEGIN:VEVENT\r\nDTSTART:20260714T090000Z\r\nSUMMARY:Standup\r\nLOCATION:Room\\, 4\r\nEND:VEVENT\r\n",
    )
    .unwrap();
    assert_eq!(events.len(), 1);
    let event = &events[0];
    assert_eq!(event.starts_at, "2026-07-14T09:00:00+00:00");
    assert_eq!(event.ends_at, "2026-07-14T10:00:00+00:00");
    assert_eq!(event.location.as_deref(), Some("Room, 4"));
    assert_eq!(event.source, "ics");
    assert_eq!(event.id, "ics-5c072253-1417-5069-92f7-9ce90fdc02f5");
    assert_eq!(event.join_url, None);
}

#[test]
fn folded_lines_url_field_and_default_title() {
    let events = parse_ics(
        "BEGIN:VEVENT\nUID:x1\nDTSTART:20260714T090000Z\nURL:https://meet.example/\n room\nDESCRIPTION:see https://other.example/a).\nEND:VEVENT\n",
    )
    .unwrap();
    assert_eq!(events[0].title, "Calendar meeting");
    assert_eq!(events[0].join_url.as_deref(), Some("https://meet.example/room"));
    assert_eq!(events[0].notes.as_deref(), Some("see https://other.example/a)."));
}

#[test]
fn description_link_is_trimmed_of_trailing_punctuation() {
    let events = parse_ics(
        "BEGIN:VEVENT\nUID:x2\nDTSTART:20260714T090000Z\nDESCRIPTION:Join https://meet.example/xyz), please\nEND:VEVENT\n",
    )
    .unwrap();
    assert_eq!(events[0].join_url.as_deref(), Some("https://meet.example/xyz"));
}

#[test]
fn blocks_without_start_are_skipped_and_bad_times_fail() {
    let events = parse_ics("BEGIN:VEVENT\nSUMMARY:No time\nEND:VEVENT\n").unwrap();
    assert!(events.is_empty());
    let error = parse_ics("BEGIN:VEVENT\nDTSTART:2026-07-14Z\nEND:VEVENT\n").unwrap_err();
    assert!(error.starts_with("Invalid calendar timestamp 2026-07-14: "));
    let error = parse_ics("BEGIN:VEVENT\nDTSTART:tomorrow\nEND:VEVENT\n").unwrap_err();
    assert!(error.starts_with("Invalid calendar date tomorrow: "));
    assert!(parse_ics("no events here").unwrap().is_empty());
}

#[test]
fn unescapes_ics_text() {
    let v: Vec<char> = "a\\nb\\,c\\;d\\\\e".chars().collect();
    let r: String = unescape_ics(&v).into_iter().collect();
    assert_eq!(r, "a\nb,c;d\\e");
}

#[test]
fn detection_reasons() {
    let event = CalendarEvent {
        id: "e".to_string(),
        title: "Sync".to_string(),
        starts_at: "s".to_string(),
        ends_at: "e".to_string(),
        location: None,
        join_url: None,
        notes: None,
        source: "ics".to_string(),
    };
    let d = meeting_detection(Some(event), true);
    assert!(d.detected);
    assert_eq!(d.reason, "A scheduled meeting is due and a meeting app is running");
    let d = meeting_detection(None, true);
    assert!(!d.detected);
    assert_eq!(
        d.reason,
        "A meeting app is running, but no matching imported calendar event was found"
    );
    assert_eq!(meeting_detection(None, false).reason, "No meeting signal detected");
}

#[test]
fn readiness_report_lists_five_checks() {
    let checks = readiness_checks(
        true,
        &vec![AudioDeviceKind::Input, AudioDeviceKind::Input],
        false,
        3,
    );
    let ids: Vec<&str> = checks.iter().map(|c| c.id.as_str()).collect();
    assert_eq!(ids, vec!["database", "microphone", "system_audio", "model", "calendar"]);
    assert_eq!(checks[0].detail, "Ready");
    assert!(checks[1].ready);
    assert_eq!(checks[1].detail, "2 audio devices found");
    assert!(!checks[2].ready);
    assert_eq!(checks[2].detail, "No output source found");
    assert_eq!(checks[3].detail, "Download a transcription model");
    assert!(checks[4].ready);
    assert_eq!(checks[4].detail, "3 upcoming events");
    let none = readiness_checks(false, &vec![], true, 0);
    assert_eq!(none[0].detail, "Database unavailable");
    assert!(!none[1].ready);
    assert_eq!(none[4].detail, "Import an .ics calendar file (optional)");
}

#[test]
fn windows_around_now() {
    let now = Instant { secs: 1784019600, nanos: 0 };
    let (latest_start, earliest_end) = due_window(now, DETECTION_MARGIN_SECS).unwrap();
    assert_eq!(latest_start, "2026-07-14T09:10:00+00:00");
    assert_eq!(earliest_end, "2026-07-14T08:50:00+00:00");
    let (a, b) = due_window(now, CONTEXT_MARGIN_SECS).unwrap();
    assert_eq!(a, "2026-07-14T09:15:00+00:00");
    assert_eq!(b, "2026-07-14T08:45:00+00:00");
    let (from, until) = upcoming_window(now, Some(2)).unwrap();
    assert_eq!(from, "2026-07-14T09:00:00+00:00");
    assert_eq!(until, "2026-07-14T11:00:00+00:00");
    assert!(due_window(Instant { secs: i64::MAX, nanos: 0 }, 600).is_none());
}

#[test]
fn upcoming_hours_are_clamped() {
    assert_eq!(upcoming_window_hours(None), 24);
    assert_eq!(upcoming_window_hours(Some(0)), 1);
    assert_eq!(upcoming_window_hours(Some(5)), 5);
    assert_eq!(upcoming_window_hours(Some(10_000)), 744);
}

#[test]
fn recognizes_meeting_apps_in_task_list() {
    assert!(meeting_app_listed("Image Name\nZoom.exe   1234 Console"));
    assert!(meeting_app_listed("ms-teams.exe 22"));
    assert!(!meeting_app_listed("explorer.exe\nnotepad.exe"));
}

#[test]
fn import_counts_events() {
    let events = parse_ics("BEGIN:VEVENT\nUID:a\nDTSTART:20260714T090000Z\nEND:VEVENT\nBEGIN:VEVENT\nUID:b\nDTSTART:20260715T090000Z\nEND:VEVENT\n").unwrap();
    let r = import_result(&events, "/tmp/cal.ics".to_string());
    assert_eq!(r.imported, 2);
    assert_eq!(r.source_path, "/tmp/cal.ics");
}

#[test]
fn one_bad_block_fails_the_whole_calendar() {
    let result = parse_ics(
        "BEGIN:VEVENT\nUID:a\nDTSTART:20260714T090000Z\nEND:VEVENT\nBEGIN:VEVENT\nUID:b\nDTSTART:20260714T090000Z\nDTEND:soon\nEND:VEVENT\nBEGIN:VEVENT\nUID:c\nDTSTART:20260715T090000Z\n",
    );
    assert!(result.unwrap_err().starts_with("Invalid calendar date soon: "));
    let events = parse_ics("X\nBEGIN:VEVENT\nUID:a\nDTSTART:20260714T090000Z\nEND:VEVENT\nBEGIN:VEVENT\nUID:c\nDTSTART:20260715T090000Z\n").unwrap();
    assert_eq!(events.len(), 1);
}

#[test]
fn wall_clock_times_land_within_a_day() {
    let events = parse_ics("BEGIN:VEVENT\nUID:w\nDTSTART:20260714T090000\nEND:VEVENT\n").unwrap();
    let start = &events[0].starts_at;
    assert!(start.starts_with("2026-07-14T") || start.starts_with("2026-07-13T") || start.starts_with("2026-07-15T"));
    assert!(start.ends_with("+00:00"));
}
