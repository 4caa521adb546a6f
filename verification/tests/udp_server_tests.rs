use mcs::payload::{AUDIO_COMBINED, AUDIO_END};
use mcs::udp_server::{datagram_ends_channel, datagram_uuid, is_well_formed_datagram, parse_payload};
use uuid::Uuid;

#[test]
fn test_parse_payload() {
    let mut buf = Vec::new();
    let uuid = Uuid::new_v4();
    buf.extend_from_slice(uuid.as_bytes());
    let seq: u32 = 0;
    buf.extend_from_slice(&seq.to_le_bytes());
    let timestamp = chrono::Utc::now().timestamp_millis().to_le_bytes();
    buf.extend_from_slice(&timestamp);
    let len: u32 = 0;
    buf.extend_from_slice(&len.to_le_bytes());
    let payload = parse_payload(buf);
    assert_eq!(payload.payload.uuid, uuid.to_string());
    assert_eq!(payload.payload.audio.len(), 0);
}

fn header(uuid: &[u8; 16], timestamp: u64, size: u32) -> Vec<u8> {
    let mut buf = Vec::new();
    buf.extend_from_slice(uuid);
    buf.extend_from_slice(&7u32.to_le_bytes());
    buf.extend_from_slice(&timestamp.to_le_bytes());
    buf.extend_from_slice(&size.to_le_bytes());
    buf
}

const ID: [u8; 16] = [
    0xa1, 0xa2, 0xa3, 0xa4, 0xb1, 0xb2, 0xc1, 0xc2, 0xd1, 0xd2, 0xd3, 0xd4, 0xd5, 0xd6, 0xd7, 0xd8,
];

#[test]
fn end_of_stream_datagram_carries_no_audio() {
    let buf = header(&ID, 1_700_000_000_123, 0);
    assert_eq!(buf.len(), 32);
    assert!(is_well_formed_datagram(&buf));
    let p = parse_payload(buf);
    assert_eq!(p.address, "");
    assert_eq!(p.payload.uuid, "a1a2a3a4-b1b2-c1c2-d1d2-d3d4d5d6d7d8");
    assert_eq!(p.payload.timestamp, 1_700_000_000_123);
    assert_eq!(p.payload.payload_type, AUDIO_END);
    assert!(p.payload.audio.is_empty());
    assert!(p.payload.audio_left.is_empty());
    assert!(p.payload.audio_right.is_empty());
    assert_eq!(p.payload.event_data, "");
}

#[test]
fn audio_datagram_splits_channels() {
    let mut buf = header(&ID, 42, 4);
    buf.extend_from_slice(&2u32.to_le_bytes());
    buf.extend_from_slice(&3u32.to_le_bytes());
    buf.extend_from_slice(&[1, 2, 3, 4, 5, 6, 7, 8, 9]);
    buf.extend_from_slice(&[99, 99]);
    assert!(is_well_formed_datagram(&buf));
    let p = parse_payload(buf);
    assert_eq!(p.payload.payload_type, AUDIO_COMBINED);
    assert_eq!(p.payload.timestamp, 42);
    assert_eq!(p.payload.audio, vec![1, 2, 3, 4]);
    assert_eq!(p.payload.audio_left, vec![5, 6]);
    assert_eq!(p.payload.audio_right, vec![7, 8, 9]);
}

#[test]
fn malformed_datagrams_are_rejected() {
    assert!(!is_well_formed_datagram(&[0u8; 31]));
    let mut short = header(&ID, 0, 4);
    short.extend_from_slice(&[0, 0, 0]);
    assert!(!is_well_formed_datagram(&short));
    let mut truncated = header(&ID, 0, 4);
    truncated.extend_from_slice(&1u32.to_le_bytes());
    truncated.extend_from_slice(&1u32.to_le_bytes());
    truncated.extend_from_slice(&[1, 2, 3, 4, 5]);
    assert!(!is_well_formed_datagram(&truncated));
    truncated.push(6);
    assert!(is_well_formed_datagram(&truncated));
}

#[test]
fn datagram_uuid_is_hyphenated_lower_case() {
    let buf = header(&ID, 0, 0);
    assert_eq!(datagram_uuid(&buf), "a1a2a3a4-b1b2-c1c2-d1d2-d3d4d5d6d7d8");
    let id = Uuid::new_v4();
    assert_eq!(datagram_uuid(id.as_bytes()), id.to_string());
}

#[test]
fn channel_ends_on_last_datagram_or_failed_send() {
    assert!(datagram_ends_channel(32, false));
    assert!(datagram_ends_channel(700, true));
    assert!(!datagram_ends_channel(700, false));
}
