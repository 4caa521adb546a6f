//! The messages exchanged with subscribers, and the transformation applied to
//! each request payload before it goes out on a subscriber's stream.
use vstd::prelude::*;
use crate::text::str_eq;

verus! {

/// Kind of a request payload sent to a subscriber.
#[derive(Clone, Copy, Debug, PartialEq, Eq, Structural)]
pub enum DialogRequestPayloadType {
    /// Stereo audio in `audio`; `audio_left` and `audio_right` are empty.
    AudioCombined,
    /// Mono audio per channel in `audio_left` and `audio_right`; `audio` is empty.
    AudioSplit,
    /// Start of a stream; `event_data` holds the initial metadata.
    AudioStart,
    /// Stop requested for one subscriber; `event_data` holds the final metadata.
    AudioStop,
    /// End of the stream for every subscriber (hangup or all stopped).
    AudioEnd,
    /// An event for the subscriber in `event_data`.
    EventData,
}

/// Kind of a response payload sent back by a subscriber.
#[derive(Clone, Copy, Debug, PartialEq, Eq, Structural)]
pub enum DialogResponsePayloadType {
    Event,
    AudioChunk,
    EndOfAudio,
    DialogEnd,
    ResponseEnd,
    DialogStart,
}

/// Wire value of a request payload type.
pub open spec fn request_type_value(t: DialogRequestPayloadType) -> i32 {
    match t {
        DialogRequestPayloadType::AudioCombined => 0,
        DialogRequestPayloadType::AudioSplit => 1,
        DialogRequestPayloadType::AudioStart => 2,
        DialogRequestPayloadType::AudioStop => 3,
        DialogRequestPayloadType::AudioEnd => 4,
        DialogRequestPayloadType::EventData => 5,
    }
}

/// Wire value of a response payload type.
pub open spec fn response_type_value(t: DialogResponsePayloadType) -> i32 {
    match t {
        DialogResponsePayloadType::Event => 0,
        DialogResponsePayloadType::AudioChunk => 1,
        DialogResponsePayloadType::EndOfAudio => 2,
        DialogResponsePayloadType::DialogEnd => 3,
        DialogResponsePayloadType::ResponseEnd => 4,
        DialogResponsePayloadType::DialogStart => 5,
    }
}

/// Wire value of `AudioCombined`.
pub const AUDIO_COMBINED: i32 = 0;
/// Wire value of `AudioSplit`.
pub const AUDIO_SPLIT: i32 = 1;
/// Wire value of `AudioStart`.
pub const AUDIO_START: i32 = 2;
/// Wire value of `AudioStop`.
pub const AUDIO_STOP: i32 = 3;
/// Wire value of `AudioEnd`.
pub const AUDIO_END: i32 = 4;
/// Wire value of `EventData`.
pub const EVENT_DATA: i32 = 5;

/// Wire value of the response type `Event`.
pub const RESPONSE_EVENT: i32 = 0;
/// Wire value of the response type `AudioChunk`.
pub const RESPONSE_AUDIO_CHUNK: i32 = 1;
/// Wire value of the response type `EndOfAudio`.
pub const RESPONSE_END_OF_AUDIO: i32 = 2;
/// Wire value of the response type `DialogEnd`.
pub const RESPONSE_DIALOG_END: i32 = 3;
/// Wire value of the response type `ResponseEnd`.
pub const RESPONSE_RESPONSE_END: i32 = 4;
/// Wire value of the response type `DialogStart`.
pub const RESPONSE_DIALOG_START: i32 = 5;

/// The wire value of a request payload type.
pub fn eval(payload_type: &DialogRequestPayloadType) -> (v: i32)
    ensures
        v == request_type_value(*payload_type),
{
    match payload_type {
        DialogRequestPayloadType::AudioCombined => AUDIO_COMBINED,
        DialogRequestPayloadType::AudioSplit => AUDIO_SPLIT,
        DialogRequestPayloadType::AudioStart => AUDIO_START,
        DialogRequestPayloadType::AudioStop => AUDIO_STOP,
        DialogRequestPayloadType::AudioEnd => AUDIO_END,
        DialogRequestPayloadType::EventData => EVENT_DATA,
    }
}

/// The wire value of a response payload type.
pub fn eval1(payload_type: &DialogResponsePayloadType) -> (v: i32)
    ensures
        v == response_type_value(*payload_type),
{
    match payload_type {
        DialogResponsePayloadType::Event => RESPONSE_EVENT,
        DialogResponsePayloadType::AudioChunk => RESPONSE_AUDIO_CHUNK,
        DialogResponsePayloadType::EndOfAudio => RESPONSE_END_OF_AUDIO,
        DialogResponsePayloadType::DialogEnd => RESPONSE_DIALOG_END,
        DialogResponsePayloadType::ResponseEnd => RESPONSE_RESPONSE_END,
        DialogResponsePayloadType::DialogStart => RESPONSE_DIALOG_START,
    }
}

impl DialogRequestPayloadType {
    /// The request payload type with the given wire value, if there is one.
    pub fn from_i32(value: i32) -> (r: Option<DialogRequestPayloadType>)
        ensures
            r is Some <==> 0 <= value <= 5,
            r matches Some(t) ==> request_type_value(t) == value,
    {
        if value == 0 {
            Some(DialogRequestPayloadType::AudioCombined)
        } else if value == 1 {
            Some(DialogRequestPayloadType::AudioSplit)
        } else if value == 2 {
            Some(DialogRequestPayloadType::AudioStart)
        } else if value == 3 {
            Some(DialogRequestPayloadType::AudioStop)
        } else if value == 4 {
            Some(DialogRequestPayloadType::AudioEnd)
        } else if value == 5 {
            Some(DialogRequestPayloadType::EventData)
        } else {
            None
        }
    }
}

impl DialogResponsePayloadType {
    /// The response payload type with the given wire value, if there is one.
    pub fn from_i32(value: i32) -> (r: Option<DialogResponsePayloadType>)
        ensures
            r is Some <==> 0 <= value <= 5,
            r matches Some(t) ==> response_type_value(t) == value,
    {
        if value == 0 {
            Some(DialogResponsePayloadType::Event)
        } else if value == 1 {
            Some(DialogResponsePayloadType::AudioChunk)
        } else if value == 2 {
            Some(DialogResponsePayloadType::EndOfAudio)
        } else if value == 3 {
            Some(DialogResponsePayloadType::DialogEnd)
        } else if value == 4 {
            Some(DialogResponsePayloadType::ResponseEnd)
        } else if value == 5 {
            Some(DialogResponsePayloadType::DialogStart)
        } else {
            None
        }
    }
}

/// Distinct payload types have distinct wire values, and decoding a wire value
/// gives back the type it came from.
pub proof fn lemma_request_type_round_trip(a: DialogRequestPayloadType, b: DialogRequestPayloadType)
    ensures
        request_type_value(a) == request_type_value(b) <==> a == b,
        0 <= request_type_value(a) <= 5,
{
}

/// Distinct response types have distinct wire values.
pub proof fn lemma_response_type_round_trip(a: DialogResponsePayloadType, b: DialogResponsePayloadType)
    ensures
        response_type_value(a) == response_type_value(b) <==> a == b,
        0 <= response_type_value(a) <= 5,
{
}

/// The wire values of the payload types, in the order the protocol declares
/// them: combined, split, start, stop, end and event data for requests; event,
/// audio chunk, end of audio, dialog end, response end and dialog start for
/// responses.
pub proof fn lemma_wire_values()
    ensures
        request_type_value(DialogRequestPayloadType::AudioCombined) == 0,
        request_type_value(DialogRequestPayloadType::AudioSplit) == 1,
        request_type_value(DialogRequestPayloadType::AudioStart) == 2,
        request_type_value(DialogRequestPayloadType::AudioStop) == 3,
        request_type_value(DialogRequestPayloadType::AudioEnd) == 4,
        request_type_value(DialogRequestPayloadType::EventData) == 5,
        response_type_value(DialogResponsePayloadType::Event) == 0,
        response_type_value(DialogResponsePayloadType::AudioChunk) == 1,
        response_type_value(DialogResponsePayloadType::EndOfAudio) == 2,
        response_type_value(DialogResponsePayloadType::DialogEnd) == 3,
        response_type_value(DialogResponsePayloadType::ResponseEnd) == 4,
        response_type_value(DialogResponsePayloadType::DialogStart) == 5,
{
}

/// A payload on a subscriber's request stream.
#[derive(Debug, Clone)]
pub struct DialogRequestPayload {
    /// Call leg id.
    pub uuid: String,
    /// Wire value of a `DialogRequestPayloadType`.
    pub payload_type: i32,
    /// Time at which the audio was captured.
    pub timestamp: u64,
    /// Stereo audio.
    pub audio: Vec<u8>,
    /// Left channel audio.
    pub audio_left: Vec<u8>,
    /// Right channel audio.
    pub audio_right: Vec<u8>,
    /// Event metadata.
    pub event_data: String,
}

/// Mathematical value of a request payload.
pub struct RequestPayloadView {
    pub uuid: Seq<char>,
    pub payload_type: i32,
    pub timestamp: u64,
    pub audio: Seq<u8>,
    pub audio_left: Seq<u8>,
    pub audio_right: Seq<u8>,
    pub event_data: Seq<char>,
}

impl RequestPayloadView {
    /// The same payload with another timestamp.
    pub open spec fn with_timestamp(self, timestamp: u64) -> RequestPayloadView {
        RequestPayloadView { timestamp, ..self }
    }
}

impl View for DialogRequestPayload {
    type V = RequestPayloadView;

    open spec fn view(&self) -> RequestPayloadView {
        RequestPayloadView {
            uuid: self.uuid@,
            payload_type: self.payload_type,
            timestamp: self.timestamp,
            audio: self.audio@,
            audio_left: self.audio_left@,
            audio_right: self.audio_right@,
            event_data: self.event_data@,
        }
    }
}

/// A request payload with the given id, type and event data, and nothing else.
pub open spec fn bare_request(uuid: Seq<char>, payload_type: i32, event_data: Seq<char>) -> RequestPayloadView {
    RequestPayloadView {
        uuid,
        payload_type,
        timestamp: 0,
        audio: Seq::empty(),
        audio_left: Seq::empty(),
        audio_right: Seq::empty(),
        event_data,
    }
}

impl Default for DialogRequestPayload {
    fn default() -> (r: DialogRequestPayload)
        ensures
            r@ == bare_request(Seq::empty(), 0, Seq::empty()),
    {
        DialogRequestPayload {
            uuid: String::new(),
            payload_type: 0,
            timestamp: 0,
            audio: Vec::new(),
            audio_left: Vec::new(),
            audio_right: Vec::new(),
            event_data: String::new(),
        }
    }
}

/// A payload on a subscriber's response stream.
#[derive(Debug, Clone)]
pub struct DialogResponsePayload {
    /// Wire value of a `DialogResponsePayloadType`.
    pub payload_type: i32,
    /// Event data, error message or file name, depending on the type.
    pub data: String,
    /// Audio chunk.
    pub audio: Vec<u8>,
}

/// A request payload together with the subscriber address it is meant for
/// (empty when it is meant for every subscriber of the call leg).
#[derive(Debug, Clone)]
pub struct AddressPayload {
    pub address: String,
    pub payload: DialogRequestPayload,
}

impl Default for AddressPayload {
    fn default() -> (r: AddressPayload)
        ensures
            r.address@ == Seq::<char>::empty(),
            r.payload@ == bare_request(Seq::empty(), 0, Seq::empty()),
    {
        AddressPayload { address: String::new(), payload: DialogRequestPayload::default() }
    }
}

impl AddressPayload {
    /// A payload of the given type for one subscriber address.
    pub fn new(uuid: String, payload_type: i32, address: String, event_data: String) -> (r: Self)
        ensures
            r.address@ == address@,
            r.payload@ == bare_request(uuid@, payload_type, event_data@),
    {
        let payload = DialogRequestPayload {
            uuid,
            payload_type,
            timestamp: 0,
            audio: Vec::new(),
            audio_left: Vec::new(),
            audio_right: Vec::new(),
            event_data,
        };
        AddressPayload { address, payload }
    }

    /// A payload of the given type for every subscriber of the call leg.
    pub fn new_with_event_data(uuid: String, payload_type: i32, event_data: String) -> (r: Self)
        ensures
            r.address@ == Seq::<char>::empty(),
            r.payload@ == bare_request(uuid@, payload_type, event_data@),
    {
        let payload = DialogRequestPayload {
            uuid,
            payload_type,
            timestamp: 0,
            audio: Vec::new(),
            audio_left: Vec::new(),
            audio_right: Vec::new(),
            event_data,
        };
        AddressPayload { address: String::new(), payload }
    }
}

/// What a subscriber in the given mode receives for a payload: a stereo payload
/// becomes a split payload (stereo audio dropped) in `split` mode, and keeps only
/// its stereo audio in any other mode; any other payload is unchanged.
pub open spec fn processed_payload(p: RequestPayloadView, mode: Seq<char>) -> RequestPayloadView {
    if p.payload_type == AUDIO_COMBINED {
        if mode == "split"@ {
            RequestPayloadView { audio: Seq::empty(), payload_type: AUDIO_SPLIT, ..p }
        } else {
            RequestPayloadView { audio_left: Seq::empty(), audio_right: Seq::empty(), ..p }
        }
    } else {
        p
    }
}

/// Shaping a payload twice for the same mode shapes it once.
pub proof fn lemma_process_payload_idempotent(p: RequestPayloadView, mode: Seq<char>)
    ensures
        processed_payload(processed_payload(p, mode), mode) == processed_payload(p, mode),
{
}

/// A subscriber in `split` mode never gets stereo audio: a stereo payload
/// reaches it as a split payload with the two channels untouched; in any
/// other mode it stays stereo and loses the two channels.
pub proof fn lemma_mode_shapes_stereo(p: RequestPayloadView, mode: Seq<char>)
    requires
        p.payload_type == AUDIO_COMBINED,
    ensures
        mode == "split"@ ==> processed_payload(p, mode).payload_type == AUDIO_SPLIT
            && processed_payload(p, mode).audio.len() == 0
            && processed_payload(p, mode).audio_left == p.audio_left
            && processed_payload(p, mode).audio_right == p.audio_right,
        mode != "split"@ ==> processed_payload(p, mode).payload_type == AUDIO_COMBINED
            && processed_payload(p, mode).audio == p.audio
            && processed_payload(p, mode).audio_left.len() == 0
            && processed_payload(p, mode).audio_right.len() == 0,
{
}

/// Shaping touches stereo payloads only: every other payload (a start or stop
/// with its metadata, an event, the end of the call, split audio) reaches the
/// subscriber exactly as it was, in every mode; a stereo payload keeps its
/// call leg, timestamp and metadata.
pub proof fn lemma_shaping_keeps_other_payloads(p: RequestPayloadView, mode: Seq<char>)
    ensures
        p.payload_type != AUDIO_COMBINED ==> processed_payload(p, mode) == p,
        processed_payload(p, mode).uuid == p.uuid,
        processed_payload(p, mode).timestamp == p.timestamp,
        processed_payload(p, mode).event_data == p.event_data,
{
}

/// Shapes a payload for a subscriber's mode (see `processed_payload`).
pub fn process_payload(payload: &mut DialogRequestPayload, mode: String)
    ensures
        final(payload)@ == processed_payload(old(payload)@, mode@),
{
    if payload.payload_type == eval(&DialogRequestPayloadType::AudioCombined) {
        if str_eq(mode.as_str(), "split") {
            payload.audio.clear();
            payload.payload_type = eval(&DialogRequestPayloadType::AudioSplit);
        } else {
            payload.audio_left.clear();
            payload.audio_right.clear();
        }
    }
}

} // verus!
