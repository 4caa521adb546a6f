use mcs::payload::{
    eval, eval1, process_payload, AddressPayload, DialogRequestPayload, DialogRequestPayloadType,
    DialogResponsePayloadType, AUDIO_COMBINED, AUDIO_SPLIT, EVENT_DATA,
};

#[test]
fn request_type_values_round_trip() {
    let all = [
        DialogRequestPayloadType::AudioCombined,
        DialogRequestPayloadType::AudioSplit,
        DialogRequestPayloadType::AudioStart,
        DialogRequestPayloadType::AudioStop,
        DialogRequestPayloadType::AudioEnd,
        DialogRequestPayloadType::EventData,
    ];
    for (i, t) in all.iter().enumerate() {
        assert_eq!(eval(t), i as i32);
        assert_eq!(DialogRequestPayloadType::from_i32(eval(t)), Some(*t));
    }
    assert_eq!(DialogRequestPayloadType::from_i32(6), None);
    assert_eq!(DialogRequestPayloadType::from_i32(-1), None);
}

#[test]
fn response_type_values_round_trip() {
    let all = [
        DialogResponsePayloadType::Event,
        DialogResponsePayloadType::AudioChunk,
        DialogResponsePayloadType::EndOfAudio,
        DialogResponsePayloadType::DialogEnd,
        DialogResponsePayloadType::ResponseEnd,
        DialogResponsePayloadType::DialogStart,
    ];
    for (i, t) in all.iter().enumerate() {
        assert_eq!(eval1(t), i as i32);
        assert_eq!(DialogResponsePayloadType::from_i32(eval1(t)), Some(*t));
    }
    assert_eq!(DialogResponsePayloadType::from_i32(6), None);
}

fn stereo() -> DialogRequestPayload {
    DialogRequestPayload {
        uuid: "leg".to_string(),
        payload_type: AUDIO_COMBINED,
        timestamp: 9,
        audio: vec![1, 2],
        audio_left: vec![3],
        audio_right: vec![4],
        event_data: String::new(),
    }
}

#[test]
fn split_mode_drops_stereo_audio() {
    let mut p = stereo();
    process_payload(&mut p, "split".to_string());
    assert_eq!(p.payload_type, AUDIO_SPLIT);
    assert!(p.audio.is_empty());
    assert_eq!(p.audio_left, vec![3]);
    assert_eq!(p.audio_right, vec![4]);
    assert_eq!(p.timestamp, 9);
    // shaping again changes nothing
    process_payload(&mut p, "split".to_string());
    assert_eq!(p.payload_type, AUDIO_SPLIT);
    assert_eq!(p.audio_left, vec![3]);
}

#[test]
fn combined_mode_drops_channels() {
    let mut p = stereo();
    process_payload(&mut p, "combined".to_string());
    assert_eq!(p.payload_type, AUDIO_COMBINED);
    assert_eq!(p.audio, vec![1, 2]);
    assert!(p.audio_left.is_empty());
    assert!(p.audio_right.is_empty());
    process_payload(&mut p, "combined".to_string());
    assert_eq!(p.audio, vec![1, 2]);
}

#[test]
fn other_payloads_are_untouched() {
    let mut p = stereo();
    p.payload_type = EVENT_DATA;
    process_payload(&mut p, "split".to_string());
    assert_eq!(p.payload_type, EVENT_DATA);
    assert_eq!(p.audio, vec![1, 2]);
    assert_eq!(p.audio_left, vec![3]);
}

#[test]
fn address_payload_constructors() {
    let p = AddressPayload::new("u".to_string(), 2, "http://a".to_string(), "meta".to_string());
    assert_eq!(p.address, "http://a");
    assert_eq!(p.payload.uuid, "u");
    assert_eq!(p.payload.payload_type, 2);
    assert_eq!(p.payload.event_data, "meta");
    assert_eq!(p.payload.timestamp, 0);
    assert!(p.payload.audio.is_empty());
    let q = AddressPayload::new_with_event_data("u".to_string(), EVENT_DATA, "ev".to_string());
    assert_eq!(q.address, "");
    assert_eq!(q.payload.payload_type, EVENT_DATA);
    assert_eq!(q.payload.event_data, "ev");
    let d = AddressPayload::default();
    assert_eq!(d.address, "");
    assert_eq!(d.payload.uuid, "");
    assert_eq!(d.payload.payload_type, 0);
}
