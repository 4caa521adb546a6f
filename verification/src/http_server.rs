//! The decisions of the casting service: the requests it accepts, what each
//! subscriber stream forwards, what it does with each subscriber response, and
//! when a broken stream is retried.
use vstd::prelude::*;
use vstd::string::*;
use crate::text::{str_eq, concat2, concat3, usize_to_text, decimal};
use crate::payload::{
    AddressPayload, DialogRequestPayloadType, DialogResponsePayload,
    bare_request, eval, process_payload, processed_payload, AUDIO_START, AUDIO_STOP, AUDIO_END,
    EVENT_DATA, RESPONSE_EVENT, RESPONSE_AUDIO_CHUNK, RESPONSE_END_OF_AUDIO, RESPONSE_DIALOG_END,
    RESPONSE_DIALOG_START, RESPONSE_RESPONSE_END,
};
use crate::db_client::CallDetails;
use crate::file_spec::{file_name_from, file_name_of};

verus! {

/// Number of attempts after which a failing connection is given up.
pub const MAX_RETRY: i8 = 4;
/// Retry count that marks a stream as finished for good.
pub const STOP_RETRY: i8 = -127;
/// Base delay of the exponential back-off, in milliseconds.
pub const RETRY_DELAY: u64 = 100;
/// Retry count once a subscriber accepted the stream.
pub const CONNECTED_RETRY: i8 = 1;
/// Delay before a stream that is neither retried nor recorded is let go, in milliseconds.
pub const IDLE_DELAY: u64 = 500;

/// Attempts made so far for one subscriber stream.
#[derive(Debug)]
pub struct Retry {
    pub retry_count: i8,
}

impl Default for Retry {
    fn default() -> (r: Retry)
        ensures
            r.retry_count == 0,
    {
        Retry { retry_count: 0 }
    }
}

impl Retry {
    /// Counts one more attempt, as each start of a stream does.
    pub fn begin_attempt(&mut self)
        requires
            old(self).retry_count < 127,
        ensures
            final(self).retry_count == old(self).retry_count + 1,
    {
        self.retry_count = self.retry_count + 1;
    }
}

/// An event reported to the media server.
#[derive(Debug)]
pub enum FsEvent {
    /// Something a subscriber sent back (`name` says what).
    Subscriber { uuid: String, address: String, name: String, data: String },
    /// A subscriber stream could not be started.
    StartFailed { uuid: String, address: String, data: String, cause: String },
    /// A subscriber stream started.
    StartSuccess { uuid: String, address: String, data: String },
    /// A subscriber stream could not be stopped cleanly.
    StopFailed { uuid: String, address: String, metadata: String, cause: String },
    /// A subscriber stream was stopped.
    StopSuccess { uuid: String, address: String, metadata: String },
}

/// Pass-through for `==` on owned text.
fn same(a: &String, b: &String) -> (r: bool)
    ensures
        r == (a@ == b@),
{
    str_eq(a.as_str(), b.as_str())
}

/// Body of a `start_cast` request.
#[derive(Debug)]
pub struct StartCastRequest {
    pub uuid: String,
    pub address: String,
    pub codec: Option<String>,
    pub mode: Option<String>,
    pub metadata: Option<String>,
}

/// Everything that identifies one subscriber stream.
#[derive(Debug, Clone)]
pub struct CastParams {
    pub uuid: String,
    pub address: String,
    pub codec: String,
    pub mode: String,
    pub metadata: String,
}

/// The text of an optional field, or a default.
pub open spec fn or_default(o: Option<String>, d: Seq<char>) -> Seq<char> {
    match o {
        Some(s) => s@,
        None => d,
    }
}

/// A field given in a request is taken as it is; a missing one takes the default.
pub proof fn lemma_or_default_cases(s: String, d: Seq<char>)
    ensures
        or_default(Some(s), d) == s@,
        or_default(None, d) == d,
{
}

fn unwrap_or(o: Option<String>, d: &str) -> (s: String)
    ensures
        s@ == or_default(o, d@),
{
    match o {
        Some(s) => s,
        None => String::from_str(d),
    }
}

impl StartCastRequest {
    /// The stream to start: codec `mulaw`, mode `combined` and empty metadata
    /// unless the request says otherwise.
    pub fn resolve(self) -> (p: CastParams)
        ensures
            p.uuid@ == self.uuid@,
            p.address@ == self.address@,
            p.codec@ == or_default(self.codec, "mulaw"@),
            p.mode@ == or_default(self.mode, "combined"@),
            p.metadata@ == or_default(self.metadata, ""@),
    {
        CastParams {
            uuid: self.uuid,
            address: self.address,
            codec: unwrap_or(self.codec, "mulaw"),
            mode: unwrap_or(self.mode, "combined"),
            metadata: unwrap_or(self.metadata, ""),
        }
    }
}

impl CastParams {
    /// The stream recorded in a stored row, to resume it.
    pub fn from_call_details(d: CallDetails) -> (p: CastParams)
        ensures
            p.uuid@ == d.call_leg_id@,
            p.address@ == d.client_address@,
            p.codec@ == d.codec@,
            p.mode@ == d.mode@,
            p.metadata@ == d.metadata@,
    {
        CastParams {
            uuid: d.call_leg_id,
            address: d.client_address,
            codec: d.codec,
            mode: d.mode,
            metadata: d.metadata,
        }
    }

    /// The row that records this stream.
    pub fn call_details(&self) -> (d: CallDetails)
        ensures
            d.call_leg_id@ == self.uuid@,
            d.client_address@ == self.address@,
            d.codec@ == self.codec@,
            d.mode@ == self.mode@,
            d.metadata@ == self.metadata@,
    {
        CallDetails {
            call_leg_id: self.uuid.clone(),
            client_address: self.address.clone(),
            codec: self.codec.clone(),
            mode: self.mode.clone(),
            metadata: self.metadata.clone(),
        }
    }

    /// The first payload of a stream, for this subscriber only: its start,
    /// carrying the initial metadata.
    pub fn start_payload(&self) -> (r: AddressPayload)
        ensures
            r.address@ == self.address@,
            r.payload@ == bare_request(self.uuid@, AUDIO_START, self.metadata@),
    {
        AddressPayload::new(
            self.uuid.clone(),
            eval(&DialogRequestPayloadType::AudioStart),
            self.address.clone(),
            self.metadata.clone(),
        )
    }
}

/// The connection group of the `count`-th stream in a pool of `pool` connections.
pub fn connection_group(count: u64, pool: usize) -> (g: usize)
    requires
        pool > 0,
    ensures
        g == count % (pool as u64),
        g < pool,
{
    (count % (pool as u64)) as usize
}

/// The key of a subscriber connection: its address, a dash and the group.
pub fn client_key(address: &String, group: usize) -> (k: String)
    ensures
        k@ == address@ + "-"@ + decimal(group as nat),
{
    let g = usize_to_text(group);
    concat3(address.as_str(), "-", g.as_str())
}

/// Whether a subscriber connection uses TLS: its address has the `https`
/// scheme (no scheme counts as `http`) and the certificate file exists.
pub fn uses_tls(scheme: Option<&str>, cert_file_exists: bool) -> (r: bool)
    ensures
        r == (scheme matches Some(s) && s@ == "https"@ && cert_file_exists),
{
    let s = match scheme {
        Some(s) => s,
        None => "http",
    };
    proof {
        reveal_strlit("http");
        reveal_strlit("https");
        assert("http"@.len() != "https"@.len());
    }
    str_eq(s, "https") && cert_file_exists
}

/// What a stream that has just finished leaves to be done.
#[derive(Debug)]
pub struct StreamFinish {
    /// The call leg of the stream's row, which is deleted.
    pub call_leg_id: String,
    /// The subscriber of the stream's row; it counts one active stream less.
    pub client_address: String,
    /// Where the whole call ended: the call leg whose channel is dropped.
    pub drop_channel: Option<String>,
    /// Where the whole call ended: the directory of its audio files, removed.
    pub remove_dir: Option<String>,
}

/// What a subscriber stream does with one payload from its call leg.
#[derive(Debug)]
pub struct OutboundStep {
    /// The payload goes out on the stream.
    pub forward: bool,
    /// The stream ends after it, and this is what remains to be done.
    pub finish: Option<StreamFinish>,
}

/// Whether a stream forwards a payload of the given type meant for `target`.
pub open spec fn forwards(own: Seq<char>, payload_type: i32, target: Seq<char>) -> bool {
    !(payload_type == AUDIO_START && own != target)
}

/// Whether a stream ends after a payload of the given type meant for `target`.
pub open spec fn finishes(own: Seq<char>, payload_type: i32, target: Seq<char>) -> bool {
    payload_type == AUDIO_END || (payload_type == AUDIO_STOP && own == target)
}

/// Whether `f` is what remains once the stream of `params` has finished on a
/// payload of the given type: its row goes and its subscriber counts one active
/// stream less; the end of the call also drops the call leg's channel and its
/// audio directory, while a stop leaves both to the other streams.
pub open spec fn finish_of(f: StreamFinish, params: CastParams, payload_type: i32) -> bool {
    &&& f.call_leg_id@ == params.uuid@
    &&& f.client_address@ == params.address@
    &&& if payload_type == AUDIO_END {
        &&& f.drop_channel matches Some(u) && u@ == params.uuid@
        &&& f.remove_dir matches Some(p) && p@ == call_dir(params.uuid@)
    } else {
        f.drop_channel is None && f.remove_dir is None
    }
}

/// Shapes a payload for the stream of `params` (by its mode), and says whether
/// it goes out and whether the stream ends with it. A start meant for another
/// subscriber is held back; the end of the call ends every stream; a stop ends
/// only the stream it is meant for. A stream that ends is marked stopped for
/// good in `retry`, so that it is never started again.
pub fn outbound_step(params: &CastParams, retry: &mut Retry, item: &mut AddressPayload) -> (d: OutboundStep)
    ensures
        final(item).address@ == old(item).address@,
        final(item).payload@ == processed_payload(old(item).payload@, params.mode@),
        d.forward == forwards(params.address@, old(item).payload.payload_type, old(item).address@),
        d.finish is Some == (d.forward
            && finishes(params.address@, old(item).payload.payload_type, old(item).address@)),
        d.finish matches Some(f) ==> finish_of(f, *params, old(item).payload.payload_type),
        final(retry).retry_count == (if d.finish is Some { STOP_RETRY } else { old(retry).retry_count }),
        d.finish is Some ==> forall|leg_exists: bool, recorded: bool|
            !(#[trigger] stream_end(final(retry).retry_count, leg_exists, recorded) is Restart),
{
    let payload_type = item.payload.payload_type;
    process_payload(&mut item.payload, params.mode.clone());
    let for_me = same(&params.address, &item.address);
    if payload_type == eval(&DialogRequestPayloadType::AudioStart) && !for_me {
        return OutboundStep { forward: false, finish: None };
    }
    let end = payload_type == eval(&DialogRequestPayloadType::AudioEnd);
    let finished = end || (payload_type == eval(&DialogRequestPayloadType::AudioStop) && for_me);
    if !finished {
        return OutboundStep { forward: true, finish: None };
    }
    retry.retry_count = STOP_RETRY;
    let (drop_channel, remove_dir) = if end {
        (Some(params.uuid.clone()), Some(call_dir_path(&params.uuid)))
    } else {
        (None, None)
    };
    let finish = StreamFinish {
        call_leg_id: params.uuid.clone(),
        client_address: params.address.clone(),
        drop_channel,
        remove_dir,
    };
    OutboundStep { forward: true, finish: Some(finish) }
}

/// What each subscriber stream of a call leg does with a payload: the end of
/// the call ends every stream; a stop meant for one subscriber is passed on to
/// the others without ending their streams; a start meant for one subscriber
/// reaches no other; anything else is passed on to all.
pub proof fn lemma_stream_routing(own: Seq<char>, other: Seq<char>, payload_type: i32, target: Seq<char>)
    requires
        own != other,
    ensures
        forwards(own, AUDIO_END, target) && finishes(own, AUDIO_END, target),
        forwards(other, AUDIO_STOP, own) && !finishes(other, AUDIO_STOP, own),
        forwards(own, AUDIO_STOP, own) && finishes(own, AUDIO_STOP, own),
        !forwards(other, AUDIO_START, own) && forwards(own, AUDIO_START, own),
        payload_type != AUDIO_START && payload_type != AUDIO_STOP && payload_type != AUDIO_END
            ==> forwards(other, payload_type, target) && !finishes(other, payload_type, target),
{
}

/// The directory of a call leg's audio files.
pub open spec fn call_dir(uuid: Seq<char>) -> Seq<char> {
    "/tmp/"@ + uuid
}

/// The file that collects the audio a subscriber sends back under a name
/// (given without extension).
pub open spec fn audio_file(uuid: Seq<char>, name: Seq<char>) -> Seq<char> {
    call_dir(uuid) + "/"@ + name + ".wav"@
}

/// The data of the playback event for a finished audio file.
pub open spec fn playback_data(path: Seq<char>) -> Seq<char> {
    "{\"file_path\":\""@ + path + "\"}"@
}

/// A subscriber's audio for a name goes to `/tmp/<call leg>/<name>.wav`, inside
/// the call leg's directory `/tmp/<call leg>`, and the playback event for it
/// carries `{"file_path":"<path>"}`.
pub proof fn lemma_audio_paths(uuid: Seq<char>, name: Seq<char>, path: Seq<char>)
    ensures
        call_dir(uuid) == "/tmp/"@ + uuid,
        audio_file(uuid, name) == "/tmp/"@ + uuid + "/"@ + name + ".wav"@,
        audio_file(uuid, name).subrange(0, call_dir(uuid).len() as int) == call_dir(uuid),
        playback_data(path) == "{\"file_path\":\""@ + path + "\"}"@,
{
    let d = call_dir(uuid);
    let f = audio_file(uuid, name);
    assert(f.subrange(0, d.len() as int) =~= d);
}

/// The directory of a call leg's audio files.
pub fn call_dir_path(uuid: &String) -> (s: String)
    ensures
        s@ == call_dir(uuid@),
{
    concat2("/tmp/", uuid.as_str())
}

/// Audio a subscriber sent back, to append to a file.
#[derive(Debug)]
pub struct AudioWrite {
    pub dir: String,
    pub file_path: String,
    pub audio: Vec<u8>,
}

/// The stream a subscriber response belongs to.
#[derive(Debug)]
pub struct CastContext {
    pub params: CastParams,
    /// The stream is new and not yet recorded.
    pub insert_to_db: bool,
}

/// What the service does with one subscriber response.
#[derive(Debug)]
pub struct ResponseActions {
    /// The start outcome to report (first response only).
    pub start_event: Option<FsEvent>,
    /// The subscriber refused the stream: never retry it, count an error.
    pub refused: bool,
    /// The stream to record, count as active and as successful.
    pub record: Option<CallDetails>,
    /// Audio to append to a file.
    pub audio: Option<AudioWrite>,
    /// An event to report.
    pub event: Option<FsEvent>,
    /// An audio response whose data names no file: nothing is written or reported for it.
    pub unnamed_audio: bool,
}

/// Where a subscriber's response stream stands.
#[derive(Debug)]
pub struct ResponseState {
    /// No response has come yet.
    pub is_first: bool,
    /// The subscriber ended its responses: the stream is no longer monitored.
    pub ended: bool,
}

impl ResponseState {
    /// Before the first response.
    pub fn new() -> (r: ResponseState)
        ensures
            r.is_first && !r.ended,
    {
        ResponseState { is_first: true, ended: false }
    }
}

/// A response that leads to nothing.
pub open spec fn no_actions(r: ResponseActions) -> bool {
    &&& r.start_event is None
    &&& !r.refused
    &&& r.record is None
    &&& r.audio is None
    &&& r.event is None
    &&& !r.unnamed_audio
}

fn nothing() -> (r: ResponseActions)
    ensures
        no_actions(r),
{
    ResponseActions { start_event: None, refused: false, record: None, audio: None, event: None, unnamed_audio: false }
}

/// Handles one response of subscriber `ctx`. Once the subscriber has ended
/// its responses, later ones lead to nothing. Otherwise the first response
/// decides the start: a dialog end refuses it (its data is the cause);
/// anything else accepts it, reporting the data of a dialog start or else the
/// stream's metadata, and records a new stream. Then an event is passed on;
/// an audio chunk is appended to the file its data names; the end of the audio
/// reports that file for playback (audio sent with it is ignored); and the end
/// of the responses stops the monitoring.
pub fn on_response(ctx: &CastContext, state: &mut ResponseState, payload: DialogResponsePayload) -> (r: ResponseActions)
    ensures
        old(state).ended ==> no_actions(r) && final(state).ended && final(state).is_first == old(state).is_first,
        !old(state).ended ==> !final(state).is_first
            && final(state).ended == (payload.payload_type == RESPONSE_RESPONSE_END),
        r.refused == (!old(state).ended && old(state).is_first && payload.payload_type == RESPONSE_DIALOG_END),
        !(!old(state).ended && old(state).is_first) ==> r.start_event is None,
        r.refused ==> (r.start_event matches Some(FsEvent::StartFailed { uuid, address, data, cause })
            && uuid@ == ctx.params.uuid@ && address@ == ctx.params.address@
            && data@ == payload.data@ && cause@ == "subscriber-error"@),
        !old(state).ended && old(state).is_first && !r.refused ==> (r.start_event matches Some(FsEvent::StartSuccess { uuid, address, data })
            && uuid@ == ctx.params.uuid@ && address@ == ctx.params.address@
            && data@ == (if payload.payload_type == RESPONSE_DIALOG_START { payload.data@ } else { ctx.params.metadata@ })),
        r.record is Some <==> (!old(state).ended && old(state).is_first && !r.refused && ctx.insert_to_db),
        r.record matches Some(d) ==> d.call_leg_id@ == ctx.params.uuid@
            && d.client_address@ == ctx.params.address@ && d.codec@ == ctx.params.codec@
            && d.mode@ == ctx.params.mode@ && d.metadata@ == ctx.params.metadata@,
        r.unnamed_audio == (!old(state).ended && (payload.payload_type == RESPONSE_AUDIO_CHUNK
            || payload.payload_type == RESPONSE_END_OF_AUDIO) && file_name_of(payload.data@) is None),
        r.audio is Some <==> (!old(state).ended && payload.payload_type == RESPONSE_AUDIO_CHUNK
            && file_name_of(payload.data@) is Some),
        r.audio matches Some(w) ==> w.dir@ == call_dir(ctx.params.uuid@)
            && w.file_path@ == audio_file(ctx.params.uuid@, file_name_of(payload.data@)->0)
            && w.audio@ == payload.audio@,
        r.event is Some <==> (!old(state).ended && (payload.payload_type == RESPONSE_EVENT
            || (payload.payload_type == RESPONSE_END_OF_AUDIO && file_name_of(payload.data@) is Some))),
        r.event matches Some(FsEvent::Subscriber { uuid, address, name, data }) ==> uuid@ == ctx.params.uuid@
            && address@ == ctx.params.address@,
        !old(state).ended && payload.payload_type == RESPONSE_EVENT ==> (r.event matches Some(FsEvent::Subscriber { name, data, .. })
            && name@ == "subscriber-event"@ && data@ == payload.data@),
        !old(state).ended && payload.payload_type == RESPONSE_END_OF_AUDIO && file_name_of(payload.data@) is Some
            ==> (r.event matches Some(FsEvent::Subscriber { name, data, .. })
            && name@ == "subscriber-playback"@
            && data@ == playback_data(audio_file(ctx.params.uuid@, file_name_of(payload.data@)->0))),
{
    if state.ended {
        return nothing();
    }
    let is_first = state.is_first;
    state.is_first = false;
    state.ended = payload.payload_type == RESPONSE_RESPONSE_END;
    let p = &ctx.params;
    let mut start_event: Option<FsEvent> = None;
    let mut refused = false;
    let mut record: Option<CallDetails> = None;
    if is_first && payload.payload_type == RESPONSE_DIALOG_END {
        start_event = Some(FsEvent::StartFailed {
            uuid: p.uuid.clone(),
            address: p.address.clone(),
            data: payload.data.clone(),
            cause: String::from_str("subscriber-error"),
        });
        refused = true;
    } else if is_first {
        let data = if payload.payload_type == RESPONSE_DIALOG_START {
            payload.data.clone()
        } else {
            p.metadata.clone()
        };
        start_event = Some(FsEvent::StartSuccess { uuid: p.uuid.clone(), address: p.address.clone(), data });
        if ctx.insert_to_db {
            record = Some(p.call_details());
        }
    }
    let mut audio: Option<AudioWrite> = None;
    let mut event: Option<FsEvent> = None;
    let mut unnamed_audio = false;
    if payload.payload_type == RESPONSE_EVENT {
        event = Some(FsEvent::Subscriber {
            uuid: p.uuid.clone(),
            address: p.address.clone(),
            name: String::from_str("subscriber-event"),
            data: payload.data,
        });
    } else if payload.payload_type == RESPONSE_AUDIO_CHUNK || payload.payload_type == RESPONSE_END_OF_AUDIO {
        match file_name_from(payload.data.as_str()) {
            Some(name) => {
                let dir = call_dir_path(&p.uuid);
                let mut file_path = concat3(dir.as_str(), "/", name.as_str());
                file_path.append(".wav");
                if payload.payload_type == RESPONSE_END_OF_AUDIO {
                    event = Some(FsEvent::Subscriber {
                        uuid: p.uuid.clone(),
                        address: p.address.clone(),
                        name: String::from_str("subscriber-playback"),
                        data: concat3("{\"file_path\":\"", file_path.as_str(), "\"}"),
                    });
                } else {
                    audio = Some(AudioWrite { dir, file_path, audio: payload.audio });
                }
            },
            None => {
                unnamed_audio = true;
            },
        }
    }
    ResponseActions { start_event, refused, record, audio, event, unnamed_audio }
}

/// Status codes of a failed gRPC call.
#[derive(Clone, Copy, Debug, PartialEq, Eq, Structural)]
pub enum GrpcCode {
    Success,
    Cancelled,
    Unknown,
    InvalidArgument,
    DeadlineExceeded,
    NotFound,
    AlreadyExists,
    PermissionDenied,
    ResourceExhausted,
    FailedPrecondition,
    Aborted,
    OutOfRange,
    Unimplemented,
    Internal,
    Unavailable,
    DataLoss,
    Unauthenticated,
}

/// Codes after which connecting again cannot help.
pub open spec fn is_permanent(code: GrpcCode) -> bool {
    code == GrpcCode::Cancelled || code == GrpcCode::InvalidArgument || code == GrpcCode::PermissionDenied
        || code == GrpcCode::FailedPrecondition || code == GrpcCode::Aborted || code == GrpcCode::Unimplemented
        || code == GrpcCode::Unauthenticated
}

/// Whether a failed connection after `retry_count` attempts is given up.
pub open spec fn gives_up(retry_count: i8, code: GrpcCode) -> bool {
    retry_count == MAX_RETRY || is_permanent(code)
}

/// Handles a failed connection to subscriber `params`: on the last attempt,
/// or on a code that retrying cannot help, the stream is given up for good and
/// the start reported as failed (the caller counts an error); otherwise
/// nothing changes and the stream will be retried when it ends.
pub fn on_connect_error(retry: &mut Retry, code: GrpcCode, params: &CastParams) -> (r: Option<FsEvent>)
    ensures
        r is Some <==> gives_up(old(retry).retry_count, code),
        r is Some ==> final(retry).retry_count == STOP_RETRY,
        r is None ==> final(retry).retry_count == old(retry).retry_count,
        r matches Some(FsEvent::StartFailed { uuid, address, data, cause }) ==> uuid@ == params.uuid@
            && address@ == params.address@ && data@ == params.metadata@ && cause@ == "connection-failed"@,
        r matches Some(e) ==> e is StartFailed,
{
    let permanent = match code {
        GrpcCode::Cancelled | GrpcCode::InvalidArgument | GrpcCode::PermissionDenied
        | GrpcCode::FailedPrecondition | GrpcCode::Aborted | GrpcCode::Unimplemented
        | GrpcCode::Unauthenticated => true,
        _ => false,
    };
    if retry.retry_count == MAX_RETRY || permanent {
        retry.retry_count = STOP_RETRY;
        Some(FsEvent::StartFailed {
            uuid: params.uuid.clone(),
            address: params.address.clone(),
            data: params.metadata.clone(),
            cause: String::from_str("connection-failed"),
        })
    } else {
        None
    }
}

/// Two to the power `n`.
pub open spec fn pow2(n: nat) -> nat
    decreases n,
{
    if n == 0 { 1 } else { 2 * pow2((n - 1) as nat) }
}

/// What happens when a subscriber stream has ended.
#[derive(Debug, PartialEq, Eq, Structural)]
pub enum StreamEnd {
    /// Start the stream again after the delay; record it anew when its row is gone.
    Restart { delay_ms: u64, insert_to_db: bool },
    /// Delete the stream's row and stop counting it as active.
    Forget,
    /// Let the stream go after the delay.
    Wait { delay_ms: u64 },
}

/// Whether a stream that ended is started again: some attempts were made,
/// at most `MAX_RETRY`, and the call leg still exists.
pub open spec fn restarts(retry_count: i8, call_leg_exists: bool) -> bool {
    0 < retry_count <= MAX_RETRY && call_leg_exists
}

/// The back-off before the attempt after `retry_count` attempts, in milliseconds.
pub open spec fn backoff(retry_count: i8) -> int {
    pow2(retry_count as nat) * RETRY_DELAY
}

/// What follows the end of a stream (see `on_stream_end`).
pub open spec fn stream_end(retry_count: i8, call_leg_exists: bool, recorded: bool) -> StreamEnd {
    if restarts(retry_count, call_leg_exists) {
        StreamEnd::Restart { delay_ms: backoff(retry_count) as u64, insert_to_db: !recorded }
    } else if recorded {
        StreamEnd::Forget
    } else {
        StreamEnd::Wait { delay_ms: IDLE_DELAY }
    }
}

/// Decides what follows the end of a subscriber stream: while attempts remain
/// (1 to `MAX_RETRY`) and the call leg still exists, restart it after an
/// exponential back-off of `2^attempts * RETRY_DELAY` ms; otherwise forget a
/// recorded stream, or let an unrecorded one go.
pub fn on_stream_end(retry_count: i8, call_leg_exists: bool, recorded: bool) -> (r: StreamEnd)
    ensures
        r == stream_end(retry_count, call_leg_exists, recorded),
{
    if retry_count > 0 && retry_count <= MAX_RETRY && call_leg_exists {
        let mut factor: u64 = 1;
        let mut i: i8 = 0;
        while i < retry_count
            invariant
                0 <= i <= retry_count <= MAX_RETRY,
                factor == pow2(i as nat),
                factor <= 16,
            decreases retry_count - i,
        {
            proof {
                assert(pow2((i + 1) as nat) == 2 * pow2(i as nat));
                lemma_pow2_bound(i as nat);
            }
            factor = factor * 2;
            i = i + 1;
        }
        StreamEnd::Restart { delay_ms: factor * RETRY_DELAY, insert_to_db: !recorded }
    } else if recorded {
        StreamEnd::Forget
    } else {
        StreamEnd::Wait { delay_ms: IDLE_DELAY }
    }
}

/// A stream stopped for good, or one whose call leg is gone, is never started
/// again; each further attempt waits longer, from 200 ms up to 1.6 s.
pub proof fn lemma_retry_policy(a: i8, b: i8, exists: bool, recorded: bool)
    ensures
        !(stream_end(STOP_RETRY, exists, recorded) is Restart),
        !(stream_end(a, false, recorded) is Restart),
        0 < a < b <= MAX_RETRY ==> backoff(a) < backoff(b),
        0 < a <= MAX_RETRY ==> 200 <= backoff(a) <= 1600,
{
    reveal_with_fuel(pow2, 5);
    if 0 < a < b <= MAX_RETRY {
        lemma_pow2_monotone(a as nat, b as nat);
    }
}

/// What the end of a stream leads to, for every retry count: after 1 to 4
/// attempts, with the call leg alive, the stream restarts after 200, 400, 800
/// or 1600 ms and is recorded anew exactly when it has no row; otherwise a
/// recorded stream is forgotten and an unrecorded one is let go after 500 ms.
pub proof fn lemma_stream_end_outcomes(retry_count: i8, leg_exists: bool, recorded: bool)
    ensures
        retry_count == 1 && leg_exists ==> stream_end(retry_count, leg_exists, recorded)
            == (StreamEnd::Restart { delay_ms: 200, insert_to_db: !recorded }),
        retry_count == 2 && leg_exists ==> stream_end(retry_count, leg_exists, recorded)
            == (StreamEnd::Restart { delay_ms: 400, insert_to_db: !recorded }),
        retry_count == 3 && leg_exists ==> stream_end(retry_count, leg_exists, recorded)
            == (StreamEnd::Restart { delay_ms: 800, insert_to_db: !recorded }),
        retry_count == 4 && leg_exists ==> stream_end(retry_count, leg_exists, recorded)
            == (StreamEnd::Restart { delay_ms: 1600, insert_to_db: !recorded }),
        !(1 <= retry_count <= 4 && leg_exists) && recorded
            ==> stream_end(retry_count, leg_exists, recorded) == StreamEnd::Forget,
        !(1 <= retry_count <= 4 && leg_exists) && !recorded
            ==> stream_end(retry_count, leg_exists, recorded) == (StreamEnd::Wait { delay_ms: 500 }),
{
    reveal_with_fuel(pow2, 5);
}

/// Which failed connections are given up: on the fourth attempt whatever the
/// code, and on any attempt for Cancelled, InvalidArgument, PermissionDenied,
/// FailedPrecondition, Aborted, Unimplemented or Unauthenticated; every other
/// code before the fourth attempt (a timeout, an unavailable subscriber, ...)
/// leaves the stream to be retried.
pub proof fn lemma_connect_error_outcomes(retry_count: i8, code: GrpcCode)
    ensures
        retry_count == 4 ==> gives_up(retry_count, code),
        (code == GrpcCode::Cancelled || code == GrpcCode::InvalidArgument
            || code == GrpcCode::PermissionDenied || code == GrpcCode::FailedPrecondition
            || code == GrpcCode::Aborted || code == GrpcCode::Unimplemented
            || code == GrpcCode::Unauthenticated) ==> gives_up(retry_count, code),
        retry_count != 4 && (code == GrpcCode::Success || code == GrpcCode::Unknown
            || code == GrpcCode::DeadlineExceeded || code == GrpcCode::NotFound
            || code == GrpcCode::AlreadyExists || code == GrpcCode::ResourceExhausted
            || code == GrpcCode::OutOfRange || code == GrpcCode::Internal
            || code == GrpcCode::Unavailable || code == GrpcCode::DataLoss)
            ==> !gives_up(retry_count, code),
{
}

/// How a stream fares when every connection to its subscriber fails with the
/// same code while its call leg lives on and it was never recorded.
pub struct FailedRun {
    /// Connections tried.
    pub attempts: nat,
    /// Start failures reported.
    pub failure_events: nat,
    /// The retry count left at the end.
    pub final_retry: i8,
    /// The back-off before each further attempt, in milliseconds.
    pub delays: Seq<int>,
}

/// The run of a stream from `retry` attempts on: each attempt counts itself
/// (`begin_attempt`), fails (`on_connect_error`), and the stream's end decides
/// (`on_stream_end`) whether another attempt follows.
pub open spec fn failing_run(retry: i8, code: GrpcCode) -> FailedRun
    decreases MAX_RETRY - retry,
{
    if !(0 <= retry < MAX_RETRY) {
        FailedRun { attempts: 0, failure_events: 0, final_retry: retry, delays: Seq::empty() }
    } else {
        let count = (retry + 1) as i8;
        if gives_up(count, code) {
            FailedRun { attempts: 1, failure_events: 1, final_retry: STOP_RETRY, delays: Seq::empty() }
        } else {
            match stream_end(count, true, false) {
                StreamEnd::Restart { delay_ms, .. } => {
                    let rest = failing_run(count, code);
                    FailedRun {
                        attempts: rest.attempts + 1,
                        failure_events: rest.failure_events,
                        final_retry: rest.final_retry,
                        delays: seq![delay_ms as int] + rest.delays,
                    }
                },
                _ => FailedRun { attempts: 1, failure_events: 0, final_retry: count, delays: Seq::empty() },
            }
        }
    }
}

/// A new stream whose connections keep failing is tried at most `MAX_RETRY`
/// times, waiting 200, 400 and 800 ms in between, reports exactly one start
/// failure and ends stopped for good, after which it is never restarted; a
/// code that retrying cannot help stops it after the first attempt.
pub proof fn lemma_failing_connections(code: GrpcCode, recorded: bool)
    ensures
        !is_permanent(code) ==> failing_run(0, code) == (FailedRun {
            attempts: 4,
            failure_events: 1,
            final_retry: STOP_RETRY,
            delays: seq![200int, 400int, 800int],
        }),
        is_permanent(code) ==> failing_run(0, code) == (FailedRun {
            attempts: 1,
            failure_events: 1,
            final_retry: STOP_RETRY,
            delays: Seq::empty(),
        }),
        !(stream_end(failing_run(0, code).final_retry, true, recorded) is Restart),
{
    reveal_with_fuel(pow2, 5);
    reveal_with_fuel(failing_run, 5);
    if !is_permanent(code) {
        let r3 = failing_run(3, code);
        assert(r3 == FailedRun { attempts: 1, failure_events: 1, final_retry: STOP_RETRY, delays: Seq::empty() });
        let r2 = failing_run(2, code);
        assert(backoff(3) == 800);
        assert(r2.delays =~= seq![800int]);
        let r1 = failing_run(1, code);
        assert(backoff(2) == 400);
        assert(r1.delays =~= seq![400int, 800int]);
        let r0 = failing_run(0, code);
        assert(backoff(1) == 200);
        assert(r0.delays =~= seq![200int, 400int, 800int]);
    }
}

proof fn lemma_pow2_monotone(a: nat, b: nat)
    requires
        a < b,
    ensures
        pow2(a) < pow2(b),
    decreases b - a,
{
    if b == a + 1 {
        assert(pow2(b) == 2 * pow2(a));
        lemma_pow2_positive(a);
    } else {
        lemma_pow2_monotone(a, (b - 1) as nat);
        assert(pow2(b) == 2 * pow2((b - 1) as nat));
    }
}

proof fn lemma_pow2_positive(n: nat)
    ensures
        pow2(n) >= 1,
    decreases n,
{
    if n > 0 {
        lemma_pow2_positive((n - 1) as nat);
    }
}

proof fn lemma_pow2_bound(n: nat)
    requires
        n < 4,
    ensures
        pow2(n) <= 8,
        pow2(n + 1) <= 16,
{
    reveal_with_fuel(pow2, 5);
}

/// Body of a `stop_cast` request.
#[derive(Debug)]
pub struct StopCastRequest {
    pub uuid: String,
    pub address: String,
    pub metadata: Option<String>,
}

impl StopCastRequest {
    /// The stop payload for the subscriber, with the final metadata (empty by default).
    pub fn stop_payload(&self) -> (r: AddressPayload)
        ensures
            r.address@ == self.address@,
            r.payload@ == bare_request(self.uuid@, AUDIO_STOP, or_default(self.metadata, ""@)),
    {
        let metadata = match &self.metadata {
            Some(m) => m.clone(),
            None => String::from_str(""),
        };
        AddressPayload::new(self.uuid.clone(), eval(&DialogRequestPayloadType::AudioStop), self.address.clone(), metadata)
    }

    /// The events a stop reports: a failure when the call leg has no channel;
    /// otherwise a failure when the stop could not be handed over, then the
    /// success in any case.
    pub fn stop_events(&self, channel_found: bool, sent: bool) -> (r: Vec<FsEvent>)
        ensures
            !channel_found ==> r@.len() == 1 && (r@[0] matches FsEvent::StopFailed { uuid, address, metadata, cause }
                && uuid@ == self.uuid@ && address@ == self.address@
                && metadata@ == or_default(self.metadata, ""@) && cause@ == "channel-not-exist"@),
            channel_found && !sent ==> r@.len() == 2 && (r@[0] matches FsEvent::StopFailed { uuid, address, metadata, cause }
                && uuid@ == self.uuid@ && address@ == self.address@
                && metadata@ == or_default(self.metadata, ""@) && cause@ == "failed-to-send"@),
            channel_found && sent ==> r@.len() == 1,
            channel_found ==> (r@.last() matches FsEvent::StopSuccess { uuid, address, metadata }
                && uuid@ == self.uuid@ && address@ == self.address@ && metadata@ == or_default(self.metadata, ""@)),
    {
        let metadata = match &self.metadata {
            Some(m) => m.clone(),
            None => String::from_str(""),
        };
        let mut r: Vec<FsEvent> = Vec::new();
        if !channel_found {
            r.push(FsEvent::StopFailed {
                uuid: self.uuid.clone(),
                address: self.address.clone(),
                metadata,
                cause: String::from_str("channel-not-exist"),
            });
        } else {
            if !sent {
                r.push(FsEvent::StopFailed {
                    uuid: self.uuid.clone(),
                    address: self.address.clone(),
                    metadata: metadata.clone(),
                    cause: String::from_str("failed-to-send"),
                });
            }
            r.push(FsEvent::StopSuccess { uuid: self.uuid.clone(), address: self.address.clone(), metadata });
        }
        r
    }
}

/// Body of a `dispatch_event` request.
#[derive(Debug)]
pub struct DispatchEventRequest {
    pub uuid: String,
    pub event_data: String,
}

impl DispatchEventRequest {
    /// The event payload, for every subscriber of the call leg.
    pub fn event_payload(self) -> (r: AddressPayload)
        ensures
            r.address@ == Seq::<char>::empty(),
            r.payload@ == bare_request(self.uuid@, EVENT_DATA, self.event_data@),
    {
        AddressPayload::new_with_event_data(self.uuid, eval(&DialogRequestPayloadType::EventData), self.event_data)
    }
}

/// A dispatch is accepted only when the call leg has a channel and the event was handed over.
pub fn dispatch_accepted(channel_found: bool, sent: bool) -> (r: bool)
    ensures
        r == (channel_found && sent),
{
    channel_found && sent
}

/// Reply of the health check.
pub fn ping_handler() -> (r: String)
    ensures
        r@ == "pong"@,
{
    String::from_str("pong")
}

/// An error of a subscriber's receiving end of the call leg channel.
#[derive(Debug, PartialEq, Eq, Structural)]
pub enum BroadcastStreamRecvError {
    /// The receiver fell behind; this many payloads were skipped.
    Lagged(u64),
}

/// The outcome of one receive on a call leg channel.
#[derive(Debug)]
pub enum RecvOutcome<T> {
    Received(T),
    Closed,
    Lagged(u64),
}

/// The next item of a subscriber's payload stream: a payload, a lag (the
/// stream goes on and the caller counts an error), or the end when the channel
/// is closed.
pub fn next_item<T>(outcome: RecvOutcome<T>) -> (r: Option<Result<T, BroadcastStreamRecvError>>)
    ensures
        outcome matches RecvOutcome::Received(x) ==> r == Some(Ok::<T, BroadcastStreamRecvError>(x)),
        outcome is Closed ==> r is None,
        outcome matches RecvOutcome::Lagged(n) ==> r == Some(Err::<T, BroadcastStreamRecvError>(BroadcastStreamRecvError::Lagged(n))),
{
    match outcome {
        RecvOutcome::Received(x) => Some(Ok(x)),
        RecvOutcome::Closed => None,
        RecvOutcome::Lagged(n) => Some(Err(BroadcastStreamRecvError::Lagged(n))),
    }
}

/// What becomes of a stream found recorded at startup.
#[derive(Debug)]
pub enum Recovery {
    /// The call leg still exists: start the stream again, without recording it anew.
    Resume(CastParams),
    /// The call leg is gone: delete the row and stop counting the stream as active.
    Discard { uuid: String, address: String },
}

/// Decides the fate of a recorded stream at startup (every recorded stream is
/// first counted as active).
pub fn recover(details: CallDetails, call_leg_exists: bool) -> (r: Recovery)
    ensures
        call_leg_exists ==> (r matches Recovery::Resume(p) && p.uuid@ == details.call_leg_id@
            && p.address@ == details.client_address@ && p.codec@ == details.codec@
            && p.mode@ == details.mode@ && p.metadata@ == details.metadata@),
        !call_leg_exists ==> (r matches Recovery::Discard { uuid, address } && uuid@ == details.call_leg_id@
            && address@ == details.client_address@),
{
    if call_leg_exists {
        Recovery::Resume(CastParams::from_call_details(details))
    } else {
        Recovery::Discard { uuid: details.call_leg_id, address: details.client_address }
    }
}

/// The authorization header value that carries a token to subscribers.
pub fn bearer_header(token: &str) -> (h: String)
    ensures
        h@ == "Bearer "@ + token@,
{
    concat2("Bearer ", token)
}

/// The answer to a request for the API explorer: the bare path redirects to
/// the directory path; anything under it serves the named file.
#[derive(Debug, PartialEq, Eq, Structural)]
pub enum SwaggerRoute {
    Redirect,
    Serve,
}

/// Where a request for the API explorer goes (see `SwaggerRoute`).
pub fn swagger_route(full_path: &str) -> (r: SwaggerRoute)
    ensures
        r == (if full_path@ == "/swagger-ui"@ { SwaggerRoute::Redirect } else { SwaggerRoute::Serve }),
{
    if str_eq(full_path, "/swagger-ui") {
        SwaggerRoute::Redirect
    } else {
        SwaggerRoute::Serve
    }
}

/// What the API explorer found for a requested file.
#[derive(Debug, PartialEq, Eq, Structural)]
pub enum SwaggerLookup {
    /// The file exists and is served.
    Served,
    /// No such file.
    Missing,
    /// Looking it up failed.
    Failed,
}

/// The HTTP status of the answer to a request for an API explorer file:
/// 200 for a served file, 404 for a missing one, 500 when the lookup failed.
pub fn swagger_status(lookup: SwaggerLookup) -> (status: u16)
    ensures
        status == match lookup {
            SwaggerLookup::Served => 200u16,
            SwaggerLookup::Missing => 404u16,
            SwaggerLookup::Failed => 500u16,
        },
{
    match lookup {
        SwaggerLookup::Served => 200,
        SwaggerLookup::Missing => 404,
        SwaggerLookup::Failed => 500,
    }
}

} // verus!
