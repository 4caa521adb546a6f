use mcs::fs_tcp_client::event_command;
use mcs::http_server::FsEvent;
use mcs::fs_tcp_client::{auth_command, command_frame, on_auth_reply, on_greeting, GreetingStep};

#[test]
fn esl_commands() {
    assert_eq!(auth_command("secret"), "auth secret\n\n");
    assert_eq!(command_frame("sendevent CUSTOM"), "sendevent CUSTOM\n\n");
}

#[test]
fn esl_greeting() {
    assert_eq!(on_greeting(b"Content-Type: auth/request\n\n".to_vec()), GreetingStep::SendAuth);
    assert_eq!(on_greeting(b"-ERR nope".to_vec()), GreetingStep::Refuse { shutdown: true });
    assert_eq!(on_greeting(vec![0xff, 0xfe, 0x41]), GreetingStep::Refuse { shutdown: false });
}

#[test]
fn esl_auth_reply() {
    let mut buf = [0u8; 128];
    let reply = b"Content-Type: command/reply\nReply-Text: +OK accepted\n\n";
    buf[..reply.len()].copy_from_slice(reply);
    assert!(on_auth_reply(buf.to_vec()));
    let mut buf = [0u8; 128];
    let reply = b"Reply-Text: -ERR invalid\n\n";
    buf[..reply.len()].copy_from_slice(reply);
    assert!(!on_auth_reply(buf.to_vec()));
    assert!(!on_auth_reply(vec![0xc3]));
}

#[test]
fn esl_event_commands() {
    let e = FsEvent::StartFailed {
        uuid: "leg".into(),
        address: "http://sub:1".into(),
        data: "meta".into(),
        cause: "connection-failed".into(),
    };
    assert_eq!(
        event_command(&e),
        "sendevent CUSTOM\nEvent-Subclass: mod_audio_cast::start-failed\nUnique-ID: leg\nClient-Address: http://sub:1\nPayload: meta\nCause: connection-failed"
    );
    let e = FsEvent::Subscriber {
        uuid: "leg".into(),
        address: "a".into(),
        name: "subscriber-event".into(),
        data: "{}".into(),
    };
    assert_eq!(
        event_command(&e),
        "sendevent CUSTOM\nEvent-Subclass: mod_audio_cast::subscriber-event\nUnique-ID: leg\nClient-Address: a\nPayload: {}"
    );
    let e = FsEvent::StopSuccess { uuid: "u".into(), address: "a".into(), metadata: "m".into() };
    assert!(event_command(&e).ends_with("mod_audio_cast::stop-success\nUnique-ID: u\nClient-Address: a\nPayload: m"));
}
