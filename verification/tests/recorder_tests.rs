use mcs::payload::{DialogRequestPayload, AUDIO_COMBINED, AUDIO_STOP, RESPONSE_RESPONSE_END};
use mcs::recorder::{dialog_response, recording_paths, MediaCastServiceImpl, RecordStep};

fn payload(uuid: &str, t: i32) -> DialogRequestPayload {
    DialogRequestPayload {
        uuid: uuid.to_string(),
        payload_type: t,
        timestamp: 0,
        audio: vec![],
        audio_left: vec![],
        audio_right: vec![],
        event_data: String::new(),
    }
}

#[test]
fn recorder_steps() {
    let mut rec: MediaCastServiceImpl<u8> = MediaCastServiceImpl::new();
    assert_eq!(rec.step(&payload("a", AUDIO_COMBINED)), RecordStep::Create);
    assert_eq!(rec.step(&payload("a", AUDIO_STOP)), RecordStep::Create);
    rec.recordings.insert("a".to_string(), 0);
    assert_eq!(rec.step(&payload("a", AUDIO_COMBINED)), RecordStep::Append);
    assert_eq!(rec.step(&payload("a", AUDIO_STOP)), RecordStep::Close);
    assert_eq!(rec.step(&payload("b", AUDIO_COMBINED)), RecordStep::Create);
    rec.recordings.remove("a");
    assert_eq!(rec.step(&payload("a", AUDIO_COMBINED)), RecordStep::Create);
}

#[test]
fn recorder_files_and_response() {
    let p = recording_paths(&"leg".to_string());
    assert_eq!(p.combined, "/tmp/rec-leg.raw");
    assert_eq!(p.left, "/tmp/rec-leg-left.raw");
    assert_eq!(p.right, "/tmp/rec-leg-right.raw");
    let r = dialog_response();
    assert_eq!(r.payload_type, RESPONSE_RESPONSE_END);
    assert!(r.audio.is_empty());
    assert_eq!(r.data, "recording started");
}
