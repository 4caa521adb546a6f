//! A subscriber that records each call leg it receives to raw audio files.
use vstd::prelude::*;
use vstd::string::*;
use crate::text::concat3;
use crate::channels::StringMap;
use crate::payload::{DialogRequestPayload, DialogResponsePayload, RESPONSE_RESPONSE_END, AUDIO_STOP};

verus! {

/// The recording subscriber: the open recording of each call leg, by call leg id.
pub struct MediaCastServiceImpl<F> {
    pub recordings: StringMap<F>,
}

/// The three files of one call leg's recording.
#[derive(Debug)]
pub struct RecordingPaths {
    pub combined: String,
    pub left: String,
    pub right: String,
}

/// What the recorder does with one payload.
#[derive(Debug, PartialEq, Eq, Structural)]
pub enum RecordStep {
    /// First payload of a call leg: create its files with the payload's audio.
    Create,
    /// A stop: close the call leg's files.
    Close,
    /// Append the payload's audio to the call leg's files.
    Append,
}

/// The recorder's step for a payload of the given type, given whether its call
/// leg already has a recording.
pub open spec fn record_step(open: bool, payload_type: i32) -> RecordStep {
    if !open {
        RecordStep::Create
    } else if payload_type == AUDIO_STOP {
        RecordStep::Close
    } else {
        RecordStep::Append
    }
}

/// Stopping a recording that is open closes it, and any payload of a call
/// leg without a recording starts one.
pub proof fn lemma_record_steps(payload_type: i32)
    ensures
        record_step(false, payload_type) == RecordStep::Create,
        record_step(true, AUDIO_STOP) == RecordStep::Close,
        payload_type != AUDIO_STOP ==> record_step(true, payload_type) == RecordStep::Append,
{
}

impl<F> MediaCastServiceImpl<F> {
    /// No recording is open.
    pub fn new() -> (r: Self)
        ensures
            r.recordings.view() == Map::<Seq<char>, F>::empty(),
    {
        MediaCastServiceImpl { recordings: StringMap::new() }
    }

    /// The step for one payload (see `record_step`).
    pub fn step(&self, payload: &DialogRequestPayload) -> (r: RecordStep)
        ensures
            r == record_step(self.recordings.view().dom().contains(payload.uuid@), payload.payload_type),
    {
        let open = self.recordings.contains_key(payload.uuid.as_str());
        if !open {
            RecordStep::Create
        } else if payload.payload_type == AUDIO_STOP {
            RecordStep::Close
        } else {
            RecordStep::Append
        }
    }
}

/// The files of a call leg's recording: `/tmp/rec-<uuid>.raw`, and the same
/// with `-left` and `-right` before the extension.
pub fn recording_paths(uuid: &String) -> (p: RecordingPaths)
    ensures
        p.combined@ == "/tmp/rec-"@ + uuid@ + ".raw"@,
        p.left@ == "/tmp/rec-"@ + uuid@ + "-left.raw"@,
        p.right@ == "/tmp/rec-"@ + uuid@ + "-right.raw"@,
{
    RecordingPaths {
        combined: concat3("/tmp/rec-", uuid.as_str(), ".raw"),
        left: concat3("/tmp/rec-", uuid.as_str(), "-left.raw"),
        right: concat3("/tmp/rec-", uuid.as_str(), "-right.raw"),
    }
}

/// The recorder's only response: the end of its response stream, saying the
/// recording started.
pub fn dialog_response() -> (r: DialogResponsePayload)
    ensures
        r.payload_type == RESPONSE_RESPONSE_END,
        r.audio@ == Seq::<u8>::empty(),
        r.data@ == "recording started"@,
{
    DialogResponsePayload {
        payload_type: RESPONSE_RESPONSE_END,
        audio: Vec::new(),
        data: String::from_str("recording started"),
    }
}

} // verus!
