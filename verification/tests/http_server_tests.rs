use mcs::db_client::CallDetails;
use mcs::http_server::{
    bearer_header, client_key, connection_group, dispatch_accepted, next_item, on_connect_error,
    on_response, on_stream_end, outbound_step, ping_handler, recover, swagger_route, swagger_status, uses_tls,
    BroadcastStreamRecvError, CastContext, CastParams, DispatchEventRequest, FsEvent, GrpcCode,
    Recovery, RecvOutcome, ResponseState, Retry, StartCastRequest, StopCastRequest, StreamEnd, SwaggerLookup, SwaggerRoute,
    CONNECTED_RETRY, MAX_RETRY, STOP_RETRY,
};
use mcs::payload::{
    AddressPayload, DialogResponsePayload, AUDIO_COMBINED, AUDIO_END, AUDIO_SPLIT, AUDIO_START,
    AUDIO_STOP, EVENT_DATA, RESPONSE_AUDIO_CHUNK, RESPONSE_DIALOG_END, RESPONSE_DIALOG_START,
    RESPONSE_END_OF_AUDIO, RESPONSE_EVENT, RESPONSE_RESPONSE_END,
};

fn params(metadata: &str) -> CastParams {
    CastParams {
        uuid: "leg".to_string(),
        address: "http://sub:1".to_string(),
        codec: "mulaw".to_string(),
        mode: "combined".to_string(),
        metadata: metadata.to_string(),
    }
}

#[test]
fn start_cast_request_defaults() {
    let r = StartCastRequest {
        uuid: "u".to_string(),
        address: "a".to_string(),
        codec: None,
        mode: None,
        metadata: None,
    }
    .resolve();
    assert_eq!(r.codec, "mulaw");
    assert_eq!(r.mode, "combined");
    assert_eq!(r.metadata, "");
    let r = StartCastRequest {
        uuid: "u".to_string(),
        address: "a".to_string(),
        codec: Some("pcm".to_string()),
        mode: Some("split".to_string()),
        metadata: Some("m".to_string()),
    }
    .resolve();
    assert_eq!((r.uuid.as_str(), r.address.as_str()), ("u", "a"));
    assert_eq!((r.codec.as_str(), r.mode.as_str(), r.metadata.as_str()), ("pcm", "split", "m"));
}

#[test]
fn start_payload_is_for_one_subscriber() {
    let p = params("meta").start_payload();
    assert_eq!(p.address, "http://sub:1");
    assert_eq!(p.payload.payload_type, AUDIO_START);
    assert_eq!(p.payload.event_data, "meta");
    assert_eq!(p.payload.uuid, "leg");
}

#[test]
fn connection_keys() {
    assert_eq!(connection_group(7, 3), 1);
    assert_eq!(connection_group(0, 5), 0);
    assert_eq!(client_key(&"http://a:50051/".to_string(), 12), "http://a:50051/-12");
    assert_eq!(client_key(&"x".to_string(), 0), "x-0");
    assert!(uses_tls(Some("https"), true));
    assert!(!uses_tls(Some("https"), false));
    assert!(!uses_tls(Some("http"), true));
    assert!(!uses_tls(None, true));
}

#[test]
fn outbound_routing() {
    let mut sub = params("m");
    sub.mode = "split".to_string();
    let own = sub.address.clone();
    let mut retry = Retry { retry_count: CONNECTED_RETRY };
    // a start for another subscriber is held back
    let mut p = AddressPayload::new("leg".into(), AUDIO_START, "http://other".into(), "m".into());
    let d = outbound_step(&sub, &mut retry, &mut p);
    assert!(!d.forward && d.finish.is_none());
    // a start for this one goes out
    let mut p = AddressPayload::new("leg".into(), AUDIO_START, own.clone(), "m".into());
    let d = outbound_step(&sub, &mut retry, &mut p);
    assert!(d.forward && d.finish.is_none());
    // a stop for another subscriber goes out and does not end this stream
    let mut p = AddressPayload::new("leg".into(), AUDIO_STOP, "http://other".into(), "m".into());
    let d = outbound_step(&sub, &mut retry, &mut p);
    assert!(d.forward && d.finish.is_none());
    assert_eq!(retry.retry_count, CONNECTED_RETRY);
    // stereo audio is shaped by the mode
    let mut p = AddressPayload::new_with_event_data("leg".into(), AUDIO_COMBINED, String::new());
    p.payload.audio = vec![1];
    p.payload.audio_left = vec![2];
    let d = outbound_step(&sub, &mut retry, &mut p);
    assert!(d.forward && d.finish.is_none());
    assert_eq!(p.payload.payload_type, AUDIO_SPLIT);
    assert!(p.payload.audio.is_empty());
    assert_eq!(p.payload.audio_left, vec![2]);
    assert_eq!(retry.retry_count, CONNECTED_RETRY);
}

#[test]
fn finished_streams() {
    let sub = params("m");
    let own = sub.address.clone();
    // a stop for this stream ends it: its row goes, the call's channel and files stay
    let mut retry = Retry { retry_count: CONNECTED_RETRY };
    let mut p = AddressPayload::new("leg".into(), AUDIO_STOP, own.clone(), "m".into());
    let d = outbound_step(&sub, &mut retry, &mut p);
    assert!(d.forward);
    let f = d.finish.unwrap();
    assert_eq!(f.call_leg_id, "leg");
    assert_eq!(f.client_address, own);
    assert!(f.drop_channel.is_none() && f.remove_dir.is_none());
    assert_eq!(retry.retry_count, STOP_RETRY);
    assert_eq!(on_stream_end(retry.retry_count, true, true), StreamEnd::Forget);
    // the end of the call ends every stream and drops the call's channel and files
    let mut retry = Retry { retry_count: CONNECTED_RETRY };
    let mut p = AddressPayload::new_with_event_data("leg".into(), AUDIO_END, String::new());
    let d = outbound_step(&sub, &mut retry, &mut p);
    assert!(d.forward);
    let f = d.finish.unwrap();
    assert_eq!(f.call_leg_id, "leg");
    assert_eq!(f.client_address, own);
    assert_eq!(f.drop_channel, Some("leg".to_string()));
    assert_eq!(f.remove_dir, Some("/tmp/leg".to_string()));
    assert_eq!(retry.retry_count, STOP_RETRY);
    assert_eq!(on_stream_end(retry.retry_count, true, false), StreamEnd::Wait { delay_ms: 500 });
}

fn response(t: i32, data: &str, audio: Vec<u8>) -> DialogResponsePayload {
    DialogResponsePayload { payload_type: t, data: data.to_string(), audio }
}

#[test]
fn first_response_dialog_end_refuses() {
    let ctx = CastContext { params: params("meta"), insert_to_db: true };
    let mut state = ResponseState::new();
    let r = on_response(&ctx, &mut state, response(RESPONSE_DIALOG_END, "no upstream", vec![]));
    assert!(r.refused);
    assert!(r.record.is_none());
    match r.start_event {
        Some(FsEvent::StartFailed { uuid, address, data, cause }) => {
            assert_eq!(uuid, "leg");
            assert_eq!(address, "http://sub:1");
            assert_eq!(data, "no upstream");
            assert_eq!(cause, "subscriber-error");
        }
        other => panic!("unexpected {:?}", other),
    }
    assert!(r.audio.is_none() && r.event.is_none());
    assert!(!state.is_first && !state.ended);
}

#[test]
fn first_response_accepts() {
    let ctx = CastContext { params: params("meta"), insert_to_db: true };
    let mut state = ResponseState::new();
    let r = on_response(&ctx, &mut state, response(RESPONSE_DIALOG_START, "hello", vec![]));
    assert!(!r.refused);
    match r.start_event {
        Some(FsEvent::StartSuccess { data, .. }) => assert_eq!(data, "hello"),
        other => panic!("unexpected {:?}", other),
    }
    let d = r.record.expect("recorded");
    assert_eq!(d.call_leg_id, "leg");
    assert_eq!(d.client_address, "http://sub:1");
    assert_eq!(d.metadata, "meta");
    // later responses do not decide the start
    let r = on_response(&ctx, &mut state, response(RESPONSE_DIALOG_END, "", vec![]));
    assert!(r.start_event.is_none() && !r.refused && r.record.is_none());

    let mut state = ResponseState::new();
    let r = on_response(&ctx, &mut state, response(RESPONSE_RESPONSE_END, "ignored", vec![]));
    match r.start_event {
        Some(FsEvent::StartSuccess { data, .. }) => assert_eq!(data, "meta"),
        other => panic!("unexpected {:?}", other),
    }
    assert!(state.ended);
    let ctx2 = CastContext { params: params("meta"), insert_to_db: false };
    let mut state = ResponseState::new();
    let r = on_response(&ctx2, &mut state, response(RESPONSE_DIALOG_START, "", vec![]));
    assert!(r.record.is_none());
}

#[test]
fn responses_after_response_end_are_ignored() {
    let ctx = CastContext { params: params("meta"), insert_to_db: true };
    let mut state = ResponseState::new();
    on_response(&ctx, &mut state, response(RESPONSE_DIALOG_START, "", vec![]));
    let r = on_response(&ctx, &mut state, response(RESPONSE_RESPONSE_END, "", vec![]));
    assert!(r.event.is_none() && r.audio.is_none());
    assert!(state.ended);
    for (t, data) in [
        (RESPONSE_EVENT, "{\"k\":1}"),
        (RESPONSE_AUDIO_CHUNK, "{\"file_name\":\"greeting\"}"),
        (RESPONSE_END_OF_AUDIO, "{\"file_name\":\"greeting\"}"),
    ] {
        let r = on_response(&ctx, &mut state, response(t, data, vec![1, 2]));
        assert!(r.start_event.is_none() && r.event.is_none() && r.audio.is_none());
        assert!(r.record.is_none() && !r.refused && !r.unnamed_audio);
        assert!(state.ended);
    }
}

#[test]
fn responses_carry_events_and_audio() {
    let ctx = CastContext { params: params("meta"), insert_to_db: false };
    let mut state = ResponseState::new();
    on_response(&ctx, &mut state, response(RESPONSE_DIALOG_START, "", vec![]));
    let r = on_response(&ctx, &mut state, response(RESPONSE_EVENT, "{\"k\":1}", vec![]));
    match r.event {
        Some(FsEvent::Subscriber { uuid, address, name, data }) => {
            assert_eq!((uuid.as_str(), address.as_str()), ("leg", "http://sub:1"));
            assert_eq!(name, "subscriber-event");
            assert_eq!(data, "{\"k\":1}");
        }
        other => panic!("unexpected {:?}", other),
    }
    assert!(r.audio.is_none());
    let spec = "{\"file_name\": \"greeting\", \"action\": \"play\", \"meta_data\": \"{\\\"a\\\":1}\"}";
    let r = on_response(&ctx, &mut state, response(RESPONSE_AUDIO_CHUNK, spec, vec![5, 6]));
    let w = r.audio.expect("audio");
    assert_eq!(w.dir, "/tmp/leg");
    assert_eq!(w.file_path, "/tmp/leg/greeting.wav");
    assert_eq!(w.audio, vec![5, 6]);
    assert!(r.event.is_none() && !r.unnamed_audio);
    let r = on_response(&ctx, &mut state, response(RESPONSE_END_OF_AUDIO, spec, vec![7, 8]));
    assert!(r.audio.is_none());
    match r.event {
        Some(FsEvent::Subscriber { name, data, .. }) => {
            assert_eq!(name, "subscriber-playback");
            assert_eq!(data, "{\"file_path\":\"/tmp/leg/greeting.wav\"}");
        }
        other => panic!("unexpected {:?}", other),
    }
    let r = on_response(&ctx, &mut state, response(RESPONSE_AUDIO_CHUNK, "greeting", vec![5]));
    assert!(r.audio.is_none() && r.event.is_none() && r.unnamed_audio);
    let r = on_response(&ctx, &mut state, response(RESPONSE_END_OF_AUDIO, "{\"action\":\"x\"}", vec![]));
    assert!(r.audio.is_none() && r.event.is_none() && r.unnamed_audio);
    let r = on_response(&ctx, &mut state, response(RESPONSE_RESPONSE_END, "", vec![]));
    assert!(r.audio.is_none() && r.event.is_none());
    assert!(state.ended);
}

#[test]
fn connect_errors() {
    let p = params("meta");
    let mut retry = Retry { retry_count: 1 };
    assert!(on_connect_error(&mut retry, GrpcCode::Unavailable, &p).is_none());
    assert_eq!(retry.retry_count, 1);
    let mut retry = Retry { retry_count: MAX_RETRY };
    match on_connect_error(&mut retry, GrpcCode::Unavailable, &p) {
        Some(FsEvent::StartFailed { data, cause, .. }) => {
            assert_eq!(data, "meta");
            assert_eq!(cause, "connection-failed");
        }
        other => panic!("unexpected {:?}", other),
    }
    assert_eq!(retry.retry_count, STOP_RETRY);
    for code in [
        GrpcCode::Cancelled,
        GrpcCode::InvalidArgument,
        GrpcCode::PermissionDenied,
        GrpcCode::FailedPrecondition,
        GrpcCode::Aborted,
        GrpcCode::Unimplemented,
        GrpcCode::Unauthenticated,
    ] {
        let mut retry = Retry { retry_count: 1 };
        assert!(on_connect_error(&mut retry, code, &p).is_some());
        assert_eq!(retry.retry_count, STOP_RETRY);
    }
}

#[test]
fn retry_backoff_and_end() {
    assert_eq!(on_stream_end(1, true, true), StreamEnd::Restart { delay_ms: 200, insert_to_db: false });
    assert_eq!(on_stream_end(2, true, false), StreamEnd::Restart { delay_ms: 400, insert_to_db: true });
    assert_eq!(on_stream_end(3, true, true), StreamEnd::Restart { delay_ms: 800, insert_to_db: false });
    assert_eq!(on_stream_end(4, true, true), StreamEnd::Restart { delay_ms: 1600, insert_to_db: false });
    assert_eq!(on_stream_end(5, true, true), StreamEnd::Forget);
    assert_eq!(on_stream_end(STOP_RETRY, true, true), StreamEnd::Forget);
    assert_eq!(on_stream_end(STOP_RETRY, true, false), StreamEnd::Wait { delay_ms: 500 });
    assert_eq!(on_stream_end(2, false, false), StreamEnd::Wait { delay_ms: 500 });
    assert_eq!(on_stream_end(0, true, true), StreamEnd::Forget);
    let mut r = Retry::default();
    assert_eq!(r.retry_count, 0);
    r.begin_attempt();
    assert_eq!(r.retry_count, 1);
}

#[test]
fn stop_cast_outcomes() {
    let req = StopCastRequest { uuid: "leg".into(), address: "http://sub:1".into(), metadata: None };
    let p = req.stop_payload();
    assert_eq!(p.payload.payload_type, AUDIO_STOP);
    assert_eq!(p.address, "http://sub:1");
    assert_eq!(p.payload.event_data, "");
    let ev = req.stop_events(false, false);
    assert_eq!(ev.len(), 1);
    match &ev[0] {
        FsEvent::StopFailed { cause, .. } => assert_eq!(cause, "channel-not-exist"),
        other => panic!("unexpected {:?}", other),
    }
    let req = StopCastRequest { uuid: "leg".into(), address: "http://sub:1".into(), metadata: Some("fin".into()) };
    let ev = req.stop_events(true, false);
    assert_eq!(ev.len(), 2);
    match (&ev[0], &ev[1]) {
        (FsEvent::StopFailed { cause, metadata, .. }, FsEvent::StopSuccess { metadata: m2, .. }) => {
            assert_eq!(cause, "failed-to-send");
            assert_eq!(metadata, "fin");
            assert_eq!(m2, "fin");
        }
        other => panic!("unexpected {:?}", other),
    }
    let ev = req.stop_events(true, true);
    assert_eq!(ev.len(), 1);
    assert!(matches!(ev[0], FsEvent::StopSuccess { .. }));
}

#[test]
fn dispatch_event_outcomes() {
    let p = DispatchEventRequest { uuid: "leg".into(), event_data: "ev".into() }.event_payload();
    assert_eq!(p.address, "");
    assert_eq!(p.payload.payload_type, EVENT_DATA);
    assert_eq!(p.payload.event_data, "ev");
    assert!(dispatch_accepted(true, true));
    assert!(!dispatch_accepted(false, true));
    assert!(!dispatch_accepted(true, false));
    assert_eq!(ping_handler(), "pong");
}

#[test]
fn broadcast_receive_outcomes() {
    assert_eq!(next_item(RecvOutcome::Received(3u8)), Some(Ok(3)));
    assert_eq!(next_item::<u8>(RecvOutcome::Closed), None);
    assert_eq!(next_item::<u8>(RecvOutcome::Lagged(9)), Some(Err(BroadcastStreamRecvError::Lagged(9))));
}

#[test]
fn startup_recovery() {
    let row = || CallDetails {
        call_leg_id: "leg".into(),
        client_address: "http://sub:1".into(),
        codec: "mulaw".into(),
        mode: "split".into(),
        metadata: "m".into(),
    };
    match recover(row(), true) {
        Recovery::Resume(p) => {
            assert_eq!(p.uuid, "leg");
            assert_eq!(p.mode, "split");
            assert_eq!(p.metadata, "m");
        }
        other => panic!("unexpected {:?}", other),
    }
    match recover(row(), false) {
        Recovery::Discard { uuid, address } => {
            assert_eq!(uuid, "leg");
            assert_eq!(address, "http://sub:1");
        }
        other => panic!("unexpected {:?}", other),
    }
    let d = params("meta").call_details();
    assert_eq!(d.codec, "mulaw");
    assert_eq!(CallDetails::default().call_leg_id, "");
}

#[test]
fn headers_and_routes() {
    assert_eq!(bearer_header("tok"), "Bearer tok");
    assert_eq!(swagger_route("/swagger-ui"), SwaggerRoute::Redirect);
    assert_eq!(swagger_route("/swagger-ui/index.html"), SwaggerRoute::Serve);
    assert_eq!(swagger_status(SwaggerLookup::Served), 200);
    assert_eq!(swagger_status(SwaggerLookup::Missing), 404);
    assert_eq!(swagger_status(SwaggerLookup::Failed), 500);
}

#[test]
fn failing_connections_stop_after_max_retry() {
    let p = params("meta");
    let mut retry = Retry::default();
    let mut attempts = 0;
    let mut failures = 0;
    let mut delays = Vec::new();
    loop {
        retry.begin_attempt();
        attempts += 1;
        if on_connect_error(&mut retry, GrpcCode::Unavailable, &p).is_some() {
            failures += 1;
        }
        match on_stream_end(retry.retry_count, true, false) {
            StreamEnd::Restart { delay_ms, .. } => delays.push(delay_ms),
            _ => break,
        }
    }
    assert_eq!(attempts, 4);
    assert_eq!(failures, 1);
    assert_eq!(delays, vec![200, 400, 800]);
    assert_eq!(retry.retry_count, STOP_RETRY);
}
