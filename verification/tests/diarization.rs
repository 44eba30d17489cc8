use meetily_core::diarization::{
    short_chunk, FingerprintUpdate, RecordingDeviceType, SpeakerDiarizer, Voice,
    MAX_SPEAKERS_PER_SOURCE,
};

const RATE: u32 = 16_000;

#[test]
fn keeps_same_remote_speaker_for_similar_audio() {
    let mut diarizer = SpeakerDiarizer::new();
    let (first, update) = diarizer.assign(
        RecordingDeviceType::System,
        16_000,
        RATE,
        Voice::Heard { nearest: 0, far: false },
    );
    assert!(matches!(update, FingerprintUpdate::Append));
    let (second, update) = diarizer.assign(
        RecordingDeviceType::System,
        16_000,
        RATE,
        Voice::Heard { nearest: 0, far: false },
    );
    assert!(matches!(update, FingerprintUpdate::Blend { index: 0, weight_percent: 35 }));
    assert_eq!(first.speaker_id, second.speaker_id);
    assert_eq!("Remote speaker 1", second.speaker);
}

#[test]
fn creates_new_remote_speaker_for_different_audio() {
    let mut diarizer = SpeakerDiarizer::new();
    let (first, _) = diarizer.assign(
        RecordingDeviceType::System,
        16_000,
        RATE,
        Voice::Heard { nearest: 0, far: false },
    );
    let (second, update) = diarizer.assign(
        RecordingDeviceType::System,
        16_000,
        RATE,
        Voice::Heard { nearest: 0, far: true },
    );
    assert!(matches!(update, FingerprintUpdate::Append));
    assert_ne!(first.speaker_id, second.speaker_id);
    assert_eq!("Remote speaker 2", second.speaker);
    assert_eq!("remote-speaker-2", second.speaker_id);
}

#[test]
fn short_audio_uses_previous_assignment() {
    let mut diarizer = SpeakerDiarizer::new();
    let (first, _) = diarizer.assign(
        RecordingDeviceType::Microphone,
        16_000,
        RATE,
        Voice::Heard { nearest: 0, far: false },
    );
    let (short, update) = diarizer.assign(
        RecordingDeviceType::Microphone,
        3_200,
        RATE,
        Voice::Heard { nearest: 0, far: true },
    );
    assert!(matches!(update, FingerprintUpdate::Keep));
    assert_eq!(first.speaker_id, short.speaker_id);
    assert_eq!("Local speaker", short.speaker);
    assert_eq!("local-speaker-1", short.speaker_id);
}

#[test]
fn silent_audio_gets_the_default_speaker() {
    let mut diarizer = SpeakerDiarizer::new();
    let (a, update) = diarizer.assign(RecordingDeviceType::System, 100, RATE, Voice::Unusable);
    assert!(matches!(update, FingerprintUpdate::Keep));
    assert_eq!(a.speaker, "Remote speaker 1");
    assert_eq!(a.speaker_id, "remote-speaker-1");
    let (b, _) = diarizer.assign(RecordingDeviceType::Microphone, 100, 0, Voice::Unusable);
    assert_eq!(b.speaker, "Local speaker");
    assert_eq!(b.speaker_id, "local-speaker-1");
    assert!(diarizer.system.speakers.is_empty());
}

#[test]
fn short_first_chunk_still_opens_a_speaker() {
    let mut diarizer = SpeakerDiarizer::new();
    let (a, update) = diarizer.assign(
        RecordingDeviceType::Microphone,
        1_000,
        RATE,
        Voice::Heard { nearest: 0, far: true },
    );
    assert!(matches!(update, FingerprintUpdate::Append));
    assert_eq!(a.speaker, "Local speaker");
}

#[test]
fn rosters_stop_at_six_speakers_and_blend_weights_settle() {
    let mut diarizer = SpeakerDiarizer::new();
    for n in 1..=MAX_SPEAKERS_PER_SOURCE {
        let (a, _) = diarizer.assign(
            RecordingDeviceType::Microphone,
            16_000,
            RATE,
            Voice::Heard { nearest: 0, far: true },
        );
        if n == 1 {
            assert_eq!(a.speaker, "Local speaker");
        } else {
            assert_eq!(a.speaker, format!("Local speaker {n}"));
        }
        assert_eq!(a.speaker_id, format!("local-speaker-{n}"));
    }
    let (a, update) = diarizer.assign(
        RecordingDeviceType::Microphone,
        16_000,
        RATE,
        Voice::Heard { nearest: 2, far: true },
    );
    assert_eq!(a.speaker_id, "local-speaker-3");
    assert!(matches!(update, FingerprintUpdate::Blend { index: 2, weight_percent: 35 }));
    assert_eq!(diarizer.microphone.speakers.len(), MAX_SPEAKERS_PER_SOURCE);
    for _ in 0..2 {
        diarizer.assign(
            RecordingDeviceType::Microphone,
            16_000,
            RATE,
            Voice::Heard { nearest: 2, far: false },
        );
    }
    let (_, update) = diarizer.assign(
        RecordingDeviceType::Microphone,
        16_000,
        RATE,
        Voice::Heard { nearest: 2, far: false },
    );
    assert!(matches!(update, FingerprintUpdate::Blend { index: 2, weight_percent: 18 }));
    assert_eq!(diarizer.microphone.speakers[2].segments, 5);
    assert_eq!(diarizer.microphone.last_speaker_id.as_deref(), Some("local-speaker-3"));
    assert!(diarizer.system.speakers.is_empty());
}

#[test]
fn short_chunks_are_under_three_quarters_of_a_second() {
    assert!(short_chunk(11_999, 16_000));
    assert!(!short_chunk(12_000, 16_000));
    assert!(short_chunk(1_000_000, 0));
}
