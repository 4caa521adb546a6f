use mcs::channels::{AddressClients, CodecSender, StringMap, UuidChannels};
use mcs::payload::AUDIO_END;

#[test]
fn string_map_reads_back_what_was_set() {
    let mut m: StringMap<u32> = StringMap::new();
    assert_eq!(m.len(), 0);
    assert_eq!(m.insert("a".to_string(), 1), None);
    assert_eq!(m.insert("b".to_string(), 2), None);
    assert_eq!(m.get("a"), Some(&1));
    assert_eq!(m.get("b"), Some(&2));
    assert_eq!(m.get("c"), None);
    assert_eq!(m.insert("a".to_string(), 10), Some(1));
    assert_eq!(m.get("a"), Some(&10));
    assert_eq!(m.get("b"), Some(&2));
    assert_eq!(m.len(), 2);
    assert!(m.contains_key("b"));
    assert_eq!(m.remove("b"), Some(2));
    assert!(!m.contains_key("b"));
    assert_eq!(m.remove("b"), None);
    assert_eq!(m.get("a"), Some(&10));
    assert_eq!(m.len(), 1);
}

#[test]
fn string_map_drain_empties_it() {
    let mut m: StringMap<u32> = StringMap::new();
    m.insert("x".to_string(), 1);
    m.insert("y".to_string(), 2);
    m.insert("x".to_string(), 3);
    let mut drained: Vec<(String, u32)> = m.drain().into_iter().map(|e| (e.key, e.value)).collect();
    drained.sort();
    assert_eq!(drained, vec![("x".to_string(), 3), ("y".to_string(), 2)]);
    assert_eq!(m.len(), 0);
    assert_eq!(m.get("x"), None);
}

#[test]
fn stop_all_ends_every_call_leg() {
    let mut channels: UuidChannels<u8> = UuidChannels::new();
    channels.uuid_sender_map.insert("leg1".to_string(), CodecSender { codec: "mulaw".to_string(), sender: 1 });
    channels.uuid_sender_map.insert("leg2".to_string(), CodecSender { codec: "mulaw".to_string(), sender: 2 });
    let mut stops = channels.stop_all();
    stops.sort_by_key(|(s, _)| *s);
    assert_eq!(stops.len(), 2);
    assert_eq!(stops[0].0, 1);
    assert_eq!(stops[0].1.payload.uuid, "leg1");
    assert_eq!(stops[1].1.payload.uuid, "leg2");
    for (_, p) in &stops {
        assert_eq!(p.address, "");
        assert_eq!(p.payload.payload_type, AUDIO_END);
        assert!(p.payload.audio.is_empty());
    }
    assert_eq!(channels.uuid_sender_map.len(), 0);
    assert!(channels.stop_all().is_empty());
}

#[test]
fn address_clients_start_empty() {
    let mut clients: AddressClients<&str> = AddressClients::new();
    assert_eq!(clients.clients.len(), 0);
    clients.clients.insert("http://a-0".to_string(), "client");
    assert_eq!(clients.clients.get("http://a-0"), Some(&"client"));
    assert_eq!(clients.clients.get("http://a-1"), None);
}

#[test]
fn get_or_insert_keeps_existing_values() {
    let mut m: StringMap<u32> = StringMap::new();
    assert!(m.get_or_insert_with("k".to_string(), || 1));
    assert!(!m.get_or_insert_with("k".to_string(), || panic!("not called")));
    assert_eq!(m.get("k"), Some(&1));
    let mut channels: UuidChannels<u8> = UuidChannels::new();
    assert!(channels.open_channel("leg".to_string(), "mulaw".to_string(), || 7));
    assert!(!channels.open_channel("leg".to_string(), "pcm".to_string(), || 8));
    let c = channels.uuid_sender_map.get("leg").unwrap();
    assert_eq!((c.codec.as_str(), c.sender), ("mulaw", 7));
}
