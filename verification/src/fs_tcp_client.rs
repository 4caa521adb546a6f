//! The login handshake with the media server's event socket and the framing of
//! the commands sent on it.
use vstd::prelude::*;
use vstd::string::*;
use vstd::utf8::{valid_utf8, decode_utf8};
use crate::text::{concat2, concat3, text_contains, contains_text};
use crate::http_server::FsEvent;

verus! {

/// Calls `String::from_utf8` and keeps the text when the bytes are valid UTF-8;
/// the standard library documents that it fails exactly on invalid UTF-8 and
/// otherwise holds the decoded characters, which this contract states.
#[verifier::external_body]
fn utf8_text(bytes: Vec<u8>) -> (r: Option<String>)
    ensures
        r is Some <==> valid_utf8(bytes@),
        r matches Some(s) ==> s@ == decode_utf8(bytes@),
{
    String::from_utf8(bytes).ok()
}

/// What the media server's greeting asks for.
pub open spec fn greeting_marker() -> Seq<char> {
    "Content-Type: auth/request"@
}

/// What the media server answers to a good password.
pub open spec fn accepted_marker() -> Seq<char> {
    "Reply-Text: +OK accepted"@
}

/// The authentication command for a password.
pub fn auth_command(auth: &str) -> (c: String)
    ensures
        c@ == "auth "@ + auth@ + "\n\n"@,
{
    concat3("auth ", auth, "\n\n")
}

/// A command as written on the socket: the message and a blank line.
pub fn command_frame(msg: &str) -> (c: String)
    ensures
        c@ == msg@ + "\n\n"@,
{
    concat2(msg, "\n\n")
}

/// What to do after reading the media server's greeting.
#[derive(Debug, PartialEq, Eq, Structural)]
pub enum GreetingStep {
    /// Send the authentication command.
    SendAuth,
    /// Give up on this connection; shut the socket down when asked to.
    Refuse { shutdown: bool },
}

/// Reads the greeting (the bytes received): text that asks for authentication
/// leads to sending the password; other text is refused with a shutdown; bytes
/// that are not text are refused without one.
pub fn on_greeting(greeting: Vec<u8>) -> (r: GreetingStep)
    ensures
        !valid_utf8(greeting@) ==> r == (GreetingStep::Refuse { shutdown: false }),
        valid_utf8(greeting@) && contains_text(decode_utf8(greeting@), greeting_marker())
            ==> r == GreetingStep::SendAuth,
        valid_utf8(greeting@) && !contains_text(decode_utf8(greeting@), greeting_marker())
            ==> r == (GreetingStep::Refuse { shutdown: true }),
{
    match utf8_text(greeting) {
        Some(text) => {
            if text_contains(text.as_str(), "Content-Type: auth/request") {
                GreetingStep::SendAuth
            } else {
                GreetingStep::Refuse { shutdown: true }
            }
        },
        None => GreetingStep::Refuse { shutdown: false },
    }
}

/// Reads the answer to the authentication command (the whole read buffer):
/// the login succeeded only if it is text that reports acceptance; on failure
/// the socket is shut down.
pub fn on_auth_reply(reply: Vec<u8>) -> (logged_in: bool)
    ensures
        logged_in == (valid_utf8(reply@) && contains_text(decode_utf8(reply@), accepted_marker())),
{
    match utf8_text(reply) {
        Some(text) => text_contains(text.as_str(), "Reply-Text: +OK accepted"),
        None => false,
    }
}

/// The event subclass of an event (after `mod_audio_cast::`).
pub open spec fn event_name(e: FsEvent) -> Seq<char> {
    match e {
        FsEvent::Subscriber { name, .. } => name@,
        FsEvent::StartFailed { .. } => "start-failed"@,
        FsEvent::StartSuccess { .. } => "start-success"@,
        FsEvent::StopFailed { .. } => "stop-failed"@,
        FsEvent::StopSuccess { .. } => "stop-success"@,
    }
}

/// The call leg, subscriber address and payload an event carries.
pub open spec fn event_fields(e: FsEvent) -> (Seq<char>, Seq<char>, Seq<char>) {
    match e {
        FsEvent::Subscriber { uuid, address, data, .. } => (uuid@, address@, data@),
        FsEvent::StartFailed { uuid, address, data, .. } => (uuid@, address@, data@),
        FsEvent::StartSuccess { uuid, address, data } => (uuid@, address@, data@),
        FsEvent::StopFailed { uuid, address, metadata, .. } => (uuid@, address@, metadata@),
        FsEvent::StopSuccess { uuid, address, metadata } => (uuid@, address@, metadata@),
    }
}

/// The `Cause` header of an event, for the failures.
pub open spec fn event_cause(e: FsEvent) -> Seq<char> {
    match e {
        FsEvent::StartFailed { cause, .. } => "\nCause: "@ + cause@,
        FsEvent::StopFailed { cause, .. } => "\nCause: "@ + cause@,
        _ => Seq::empty(),
    }
}

/// The command that reports an event to the media server: a custom event of
/// subclass `mod_audio_cast::<name>` with the call leg, the subscriber address,
/// the payload and, for failures, the cause as headers. This header layout is
/// this library's own choice: the media server's custom events leave the
/// headers to the sender.
pub open spec fn event_text(e: FsEvent) -> Seq<char> {
    "sendevent CUSTOM\nEvent-Subclass: mod_audio_cast::"@ + event_name(e)
        + "\nUnique-ID: "@ + event_fields(e).0
        + "\nClient-Address: "@ + event_fields(e).1
        + "\nPayload: "@ + event_fields(e).2 + event_cause(e)
}

/// Every event's command names the event and carries that event's own call
/// leg as `Unique-ID`, its own subscriber address as `Client-Address` and its
/// own data or metadata as `Payload`, with the cause last for a failure.
pub proof fn lemma_event_command_headers(e: FsEvent)
    ensures
        e matches FsEvent::Subscriber { uuid, address, name, data } ==> event_text(e)
            == "sendevent CUSTOM\nEvent-Subclass: mod_audio_cast::"@ + name@ + "\nUnique-ID: "@ + uuid@
                + "\nClient-Address: "@ + address@ + "\nPayload: "@ + data@,
        e matches FsEvent::StartFailed { uuid, address, data, cause } ==> event_text(e)
            == "sendevent CUSTOM\nEvent-Subclass: mod_audio_cast::"@ + "start-failed"@ + "\nUnique-ID: "@ + uuid@
                + "\nClient-Address: "@ + address@ + "\nPayload: "@ + data@
                + "\nCause: "@ + cause@,
        e matches FsEvent::StartSuccess { uuid, address, data } ==> event_text(e)
            == "sendevent CUSTOM\nEvent-Subclass: mod_audio_cast::"@ + "start-success"@ + "\nUnique-ID: "@ + uuid@
                + "\nClient-Address: "@ + address@ + "\nPayload: "@ + data@,
        e matches FsEvent::StopFailed { uuid, address, metadata, cause } ==> event_text(e)
            == "sendevent CUSTOM\nEvent-Subclass: mod_audio_cast::"@ + "stop-failed"@ + "\nUnique-ID: "@ + uuid@
                + "\nClient-Address: "@ + address@ + "\nPayload: "@ + metadata@
                + "\nCause: "@ + cause@,
        e matches FsEvent::StopSuccess { uuid, address, metadata } ==> event_text(e)
            == "sendevent CUSTOM\nEvent-Subclass: mod_audio_cast::"@ + "stop-success"@ + "\nUnique-ID: "@ + uuid@
                + "\nClient-Address: "@ + address@ + "\nPayload: "@ + metadata@,
{
}

fn header_block(name: &str, uuid: &str, address: &str, payload: &str) -> (s: String)
    ensures
        s@ == "sendevent CUSTOM\nEvent-Subclass: mod_audio_cast::"@ + name@ + "\nUnique-ID: "@ + uuid@
            + "\nClient-Address: "@ + address@ + "\nPayload: "@ + payload@,
{
    let mut s = concat2("sendevent CUSTOM\nEvent-Subclass: mod_audio_cast::", name);
    s.append("\nUnique-ID: ");
    s.append(uuid);
    s.append("\nClient-Address: ");
    s.append(address);
    s.append("\nPayload: ");
    s.append(payload);
    s
}

/// The command that reports an event (see `event_text`).
pub fn event_command(e: &FsEvent) -> (c: String)
    ensures
        c@ == event_text(*e),
{
    match e {
        FsEvent::Subscriber { uuid, address, name, data } => {
            header_block(name.as_str(), uuid.as_str(), address.as_str(), data.as_str())
        },
        FsEvent::StartFailed { uuid, address, data, cause } => {
            let mut s = header_block("start-failed", uuid.as_str(), address.as_str(), data.as_str());
            s.append("\nCause: ");
            s.append(cause.as_str());
            s
        },
        FsEvent::StartSuccess { uuid, address, data } => {
            header_block("start-success", uuid.as_str(), address.as_str(), data.as_str())
        },
        FsEvent::StopFailed { uuid, address, metadata, cause } => {
            let mut s = header_block("stop-failed", uuid.as_str(), address.as_str(), metadata.as_str());
            s.append("\nCause: ");
            s.append(cause.as_str());
            s
        },
        FsEvent::StopSuccess { uuid, address, metadata } => {
            header_block("stop-success", uuid.as_str(), address.as_str(), metadata.as_str())
        },
    }
}

} // verus!
