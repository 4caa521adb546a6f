//! The datagram format in which the media server hands audio to the service,
//! and what the datagram loop decides for each datagram.
use vstd::prelude::*;
use vstd::bytes::*;
use vstd::slice::*;
use crate::payload::{AddressPayload, DialogRequestPayload, DialogRequestPayloadType, RequestPayloadView, bare_request, eval, AUDIO_COMBINED, AUDIO_END};

verus! {

/// Lower-case hexadecimal digit of a value below sixteen.
pub open spec fn hex_digit(n: int) -> char {
    if n < 10 {
        (48 + n) as char
    } else {
        (87 + n) as char
    }
}

/// Two lower-case hexadecimal digits per byte, high nibble first.
pub open spec fn hex_lower(bytes: Seq<u8>) -> Seq<char> {
    Seq::new(
        2 * bytes.len(),
        |i: int|
            if i % 2 == 0 {
                hex_digit(bytes[i / 2] as int / 16)
            } else {
                hex_digit(bytes[i / 2] as int % 16)
            },
    )
}

/// The hyphenated lower-case text of a 16-byte UUID, grouped 4-2-2-2-6 bytes,
/// like `67e55044-10b1-426f-9247-bb680e5fe0c8`.
pub open spec fn uuid_text(bytes: Seq<u8>) -> Seq<char> {
    hex_lower(bytes.subrange(0, 4)) + seq!['-'] + hex_lower(bytes.subrange(4, 6)) + seq!['-']
        + hex_lower(bytes.subrange(6, 8)) + seq!['-'] + hex_lower(bytes.subrange(8, 10))
        + seq!['-'] + hex_lower(bytes.subrange(10, 16))
}

/// Whether a character is a lower-case hexadecimal digit.
pub open spec fn is_lower_hex(c: char) -> bool {
    ('0' <= c && c <= '9') || ('a' <= c && c <= 'f')
}

/// The value of a lower-case hexadecimal digit.
pub open spec fn lower_hex_value(c: char) -> int {
    if c <= '9' {
        c as int - '0' as int
    } else {
        c as int - 'a' as int + 10
    }
}

/// Where the two digits of byte `j` of a UUID stand in its hyphenated text.
pub open spec fn uuid_digit_at(j: int) -> int {
    2 * j + (if j >= 4 { 1int } else { 0 }) + (if j >= 6 { 1int } else { 0 })
        + (if j >= 8 { 1int } else { 0 }) + (if j >= 10 { 1int } else { 0 })
}

proof fn lemma_hex_lower_digits(b: Seq<u8>, k: int)
    requires
        0 <= k < b.len(),
    ensures
        hex_lower(b).len() == 2 * b.len(),
        is_lower_hex(hex_lower(b)[2 * k]),
        is_lower_hex(hex_lower(b)[2 * k + 1]),
        lower_hex_value(hex_lower(b)[2 * k]) * 16 + lower_hex_value(hex_lower(b)[2 * k + 1]) == b[k] as int,
{
    let hi = b[k] as int / 16;
    let lo = b[k] as int % 16;
    assert((2 * k) % 2 == 0 && (2 * k) / 2 == k);
    assert((2 * k + 1) % 2 == 1 && (2 * k + 1) / 2 == k);
    assert(hex_lower(b)[2 * k] == hex_digit(hi));
    assert(hex_lower(b)[2 * k + 1] == hex_digit(lo));
    if hi < 10 {
        assert(hex_digit(hi) as int == 48 + hi);
    } else {
        assert(hex_digit(hi) as int == 87 + hi);
    }
    if lo < 10 {
        assert(hex_digit(lo) as int == 48 + lo);
    } else {
        assert(hex_digit(lo) as int == 87 + lo);
    }
}

/// The hyphenated text of a UUID is 36 characters long, has hyphens at
/// positions 8, 13, 18 and 23, and elsewhere two lower-case hexadecimal digits
/// per byte, in byte order, high nibble first.
pub proof fn lemma_uuid_text_shape(bytes: Seq<u8>)
    requires
        bytes.len() == 16,
    ensures
        uuid_text(bytes).len() == 36,
        uuid_text(bytes)[8] == '-' && uuid_text(bytes)[13] == '-',
        uuid_text(bytes)[18] == '-' && uuid_text(bytes)[23] == '-',
        forall|j: int| 0 <= j < 16 ==> is_lower_hex(#[trigger] uuid_text(bytes)[uuid_digit_at(j)])
            && is_lower_hex(uuid_text(bytes)[uuid_digit_at(j) + 1])
            && lower_hex_value(uuid_text(bytes)[uuid_digit_at(j)]) * 16
                + lower_hex_value(uuid_text(bytes)[uuid_digit_at(j) + 1]) == bytes[j] as int,
{
    let g1 = hex_lower(bytes.subrange(0, 4));
    let g2 = hex_lower(bytes.subrange(4, 6));
    let g3 = hex_lower(bytes.subrange(6, 8));
    let g4 = hex_lower(bytes.subrange(8, 10));
    let g5 = hex_lower(bytes.subrange(10, 16));
    let t1 = g1 + seq!['-'];
    let t2 = t1 + g2;
    let t3 = t2 + seq!['-'];
    let t4 = t3 + g3;
    let t5 = t4 + seq!['-'];
    let t6 = t5 + g4;
    let t7 = t6 + seq!['-'];
    let s = t7 + g5;
    assert(s == uuid_text(bytes));
    assert(g1.len() == 8 && g2.len() == 4 && g3.len() == 4 && g4.len() == 4 && g5.len() == 12);
    assert forall|k: int| 0 <= k < t6.len() implies s[k] == t6[k] by {
        assert(s[k] == t7[k]);
    }
    assert forall|k: int| 0 <= k < t4.len() implies s[k] == t4[k] by {
        assert(s[k] == t6[k]);
        assert(t6[k] == t5[k]);
    }
    assert forall|k: int| 0 <= k < t2.len() implies s[k] == t2[k] by {
        assert(s[k] == t4[k]);
        assert(t4[k] == t3[k]);
    }
    assert(s[8] == t2[8] && t2[8] == t1[8]);
    assert(s[13] == t4[13] && t4[13] == t3[13]);
    assert(s[18] == t6[18] && t6[18] == t5[18]);
    assert(s[23] == t7[23]);
    assert forall|j: int| 0 <= j < 16 implies is_lower_hex(#[trigger] s[uuid_digit_at(j)])
        && is_lower_hex(s[uuid_digit_at(j) + 1])
        && lower_hex_value(s[uuid_digit_at(j)]) * 16 + lower_hex_value(s[uuid_digit_at(j) + 1]) == bytes[j] as int by {
        let p = uuid_digit_at(j);
        if j < 4 {
            lemma_hex_lower_digits(bytes.subrange(0, 4), j);
            assert(s[p] == t2[p] && t2[p] == t1[p] && t1[p] == g1[2 * j]);
            assert(s[p + 1] == t2[p + 1] && t2[p + 1] == t1[p + 1] && t1[p + 1] == g1[2 * j + 1]);
        } else if j < 6 {
            lemma_hex_lower_digits(bytes.subrange(4, 6), j - 4);
            assert(s[p] == t2[p] && t2[p] == g2[2 * (j - 4)]);
            assert(s[p + 1] == t2[p + 1] && t2[p + 1] == g2[2 * (j - 4) + 1]);
        } else if j < 8 {
            lemma_hex_lower_digits(bytes.subrange(6, 8), j - 6);
            assert(s[p] == t4[p] && t4[p] == g3[2 * (j - 6)]);
            assert(s[p + 1] == t4[p + 1] && t4[p + 1] == g3[2 * (j - 6) + 1]);
        } else if j < 10 {
            lemma_hex_lower_digits(bytes.subrange(8, 10), j - 8);
            assert(s[p] == t6[p] && t6[p] == g4[2 * (j - 8)]);
            assert(s[p + 1] == t6[p + 1] && t6[p + 1] == g4[2 * (j - 8) + 1]);
        } else {
            lemma_hex_lower_digits(bytes.subrange(10, 16), j - 10);
            assert(s[p] == g5[2 * (j - 10)]);
            assert(s[p + 1] == g5[2 * (j - 10) + 1]);
        }
    }
}

/// Calls `uuid::Uuid::from_slice` on 16 bytes and formats the result with its
/// `Display` impl; the uuid crate documents that format as the hyphenated
/// lower-case form, which this contract states.
#[verifier::external_body]
fn uuid_hyphenated(bytes: &[u8]) -> (s: String)
    requires
        bytes@.len() == 16,
    ensures
        s@ == uuid_text(bytes@),
{
    uuid::Uuid::from_slice(bytes).unwrap().to_string()
}

/// Offset of the little-endian `u64` capture timestamp.
pub const TIMESTAMP_AT: usize = 20;
/// Offset of the little-endian `u32` length of the stereo audio.
pub const SIZE_AT: usize = 28;
/// Length of a datagram that carries no audio: it ends the stream.
pub const END_OF_STREAM_LEN: usize = 32;
/// Offset at which the audio starts.
pub const AUDIO_AT: usize = 40;

/// Length of the stereo audio announced by a datagram.
pub open spec fn announced_size(buf: Seq<u8>) -> int {
    spec_u32_from_le_bytes(buf.subrange(28, 32)) as int
}

/// Length of the left channel audio announced by a datagram.
pub open spec fn announced_left(buf: Seq<u8>) -> int {
    spec_u32_from_le_bytes(buf.subrange(32, 36)) as int
}

/// Length of the right channel audio announced by a datagram.
pub open spec fn announced_right(buf: Seq<u8>) -> int {
    spec_u32_from_le_bytes(buf.subrange(36, 40)) as int
}

/// A datagram holds its header and, when it announces stereo audio, the three
/// channel lengths and all the audio they announce.
pub open spec fn well_formed_datagram(buf: Seq<u8>) -> bool {
    &&& buf.len() >= 32
    &&& announced_size(buf) > 0 ==> {
        &&& buf.len() >= 40
        &&& 40 + announced_size(buf) + announced_left(buf) + announced_right(buf) <= buf.len()
    }
}

/// The payload that a well-formed datagram carries: the call leg id from the
/// first 16 bytes, the timestamp, and either the stereo, left and right audio
/// back to back (a stereo payload) or, when no stereo audio is announced, an
/// end-of-stream payload.
pub open spec fn datagram_payload(buf: Seq<u8>) -> RequestPayloadView {
    let size = announced_size(buf);
    let left = announced_left(buf);
    let right = announced_right(buf);
    RequestPayloadView {
        uuid: uuid_text(buf.subrange(0, 16)),
        payload_type: if size > 0 { AUDIO_COMBINED } else { AUDIO_END },
        timestamp: spec_u64_from_le_bytes(buf.subrange(20, 28)),
        audio: if size > 0 { buf.subrange(40, 40 + size) } else { Seq::empty() },
        audio_left: if size > 0 { buf.subrange(40 + size, 40 + size + left) } else { Seq::empty() },
        audio_right: if size > 0 {
            buf.subrange(40 + size + left, 40 + size + left + right)
        } else {
            Seq::empty()
        },
        event_data: Seq::empty(),
    }
}

/// The datagram that carries a call leg's stereo, left and right audio: the
/// 16 id bytes, a sequence number, the timestamp, the three lengths, and the
/// audio back to back, all numbers little-endian.
pub open spec fn audio_datagram(
    id: Seq<u8>,
    seq: u32,
    timestamp: u64,
    audio: Seq<u8>,
    left: Seq<u8>,
    right: Seq<u8>,
) -> Seq<u8> {
    id + spec_u32_to_le_bytes(seq) + spec_u64_to_le_bytes(timestamp)
        + spec_u32_to_le_bytes(audio.len() as u32) + spec_u32_to_le_bytes(left.len() as u32)
        + spec_u32_to_le_bytes(right.len() as u32) + audio + left + right
}

/// The datagram that ends a call leg's stream: the header with no audio.
pub open spec fn end_datagram(id: Seq<u8>, seq: u32, timestamp: u64) -> Seq<u8> {
    id + spec_u32_to_le_bytes(seq) + spec_u64_to_le_bytes(timestamp) + spec_u32_to_le_bytes(0)
}

/// Decoding gives back what was encoded: an audio datagram is well formed and
/// carries its id, timestamp and the three audio parts as a stereo payload.
pub proof fn lemma_audio_datagram_round_trip(
    id: Seq<u8>,
    seq: u32,
    timestamp: u64,
    audio: Seq<u8>,
    left: Seq<u8>,
    right: Seq<u8>,
)
    requires
        id.len() == 16,
        0 < audio.len() <= u32::MAX,
        left.len() <= u32::MAX,
        right.len() <= u32::MAX,
    ensures
        well_formed_datagram(audio_datagram(id, seq, timestamp, audio, left, right)),
        datagram_payload(audio_datagram(id, seq, timestamp, audio, left, right)) == (RequestPayloadView {
            uuid: uuid_text(id),
            payload_type: AUDIO_COMBINED,
            timestamp,
            audio,
            audio_left: left,
            audio_right: right,
            event_data: Seq::empty(),
        }),
{
    lemma_auto_spec_u32_to_from_le_bytes();
    lemma_auto_spec_u64_to_from_le_bytes();
    let b = audio_datagram(id, seq, timestamp, audio, left, right);
    let na = audio.len() as u32;
    let nl = left.len() as u32;
    let nr = right.len() as u32;
    assert(spec_u32_to_le_bytes(seq).len() == 4);
    assert(spec_u64_to_le_bytes(timestamp).len() == 8);
    assert(spec_u32_to_le_bytes(na).len() == 4);
    assert(spec_u32_to_le_bytes(nl).len() == 4);
    assert(spec_u32_to_le_bytes(nr).len() == 4);
    assert(b.subrange(0, 16) =~= id);
    assert(b.subrange(20, 28) =~= spec_u64_to_le_bytes(timestamp));
    assert(b.subrange(28, 32) =~= spec_u32_to_le_bytes(na));
    assert(b.subrange(32, 36) =~= spec_u32_to_le_bytes(nl));
    assert(b.subrange(36, 40) =~= spec_u32_to_le_bytes(nr));
    let a = audio.len() as int;
    let l = left.len() as int;
    let r = right.len() as int;
    assert(b.subrange(40, 40 + a) =~= audio);
    assert(b.subrange(40 + a, 40 + a + l) =~= left);
    assert(b.subrange(40 + a + l, 40 + a + l + r) =~= right);
}

/// An end datagram is well formed and carries an end-of-stream payload with
/// its id and timestamp and no audio.
pub proof fn lemma_end_datagram_round_trip(id: Seq<u8>, seq: u32, timestamp: u64)
    requires
        id.len() == 16,
    ensures
        well_formed_datagram(end_datagram(id, seq, timestamp)),
        datagram_payload(end_datagram(id, seq, timestamp)) == bare_request(uuid_text(id), AUDIO_END, Seq::empty())
            .with_timestamp(timestamp),
{
    lemma_auto_spec_u32_to_from_le_bytes();
    lemma_auto_spec_u64_to_from_le_bytes();
    let b = end_datagram(id, seq, timestamp);
    assert(spec_u32_to_le_bytes(seq).len() == 4);
    assert(spec_u64_to_le_bytes(timestamp).len() == 8);
    assert(spec_u32_to_le_bytes(0).len() == 4);
    assert(b.subrange(0, 16) =~= id);
    assert(b.subrange(20, 28) =~= spec_u64_to_le_bytes(timestamp));
    assert(b.subrange(28, 32) =~= spec_u32_to_le_bytes(0));
}

fn read_u32(buf: &[u8], at: usize) -> (v: u32)
    requires
        at + 4 <= buf@.len(),
    ensures
        v == spec_u32_from_le_bytes(buf@.subrange(at as int, at + 4)),
{
    let _n = buf.len();
    u32_from_le_bytes(slice_subrange(buf, at, at + 4))
}

/// Whether a datagram is well formed (see `well_formed_datagram`).
pub fn is_well_formed_datagram(buf: &[u8]) -> (r: bool)
    ensures
        r == well_formed_datagram(buf@),
{
    if buf.len() < END_OF_STREAM_LEN {
        return false;
    }
    let size = read_u32(buf, SIZE_AT);
    if size == 0 {
        return true;
    }
    if buf.len() < AUDIO_AT {
        return false;
    }
    let left = read_u32(buf, 32);
    let right = read_u32(buf, 36);
    let total: u64 = 40u64 + size as u64 + left as u64 + right as u64;
    total <= buf.len() as u64
}

/// The call leg id of a datagram: the hyphenated text of its first 16 bytes.
pub fn datagram_uuid(buf: &[u8]) -> (s: String)
    requires
        buf@.len() >= 16,
    ensures
        s@ == uuid_text(buf@.subrange(0, 16)),
{
    uuid_hyphenated(slice_subrange(buf, 0, 16))
}

/// Decodes a datagram into the payload it carries, for every subscriber of the
/// call leg (see `datagram_payload`).
pub fn parse_payload(buf: Vec<u8>) -> (r: AddressPayload)
    requires
        well_formed_datagram(buf@),
    ensures
        r.address@ == Seq::<char>::empty(),
        r.payload@ == datagram_payload(buf@),
{
    let b = buf.as_slice();
    let _n = b.len();
    let mut payload = DialogRequestPayload::default();
    payload.uuid = datagram_uuid(b);
    payload.timestamp = u64_from_le_bytes(slice_subrange(b, TIMESTAMP_AT, 28));
    let size = read_u32(b, SIZE_AT);
    if size > 0 {
        let left = read_u32(b, 32) as usize;
        let right = read_u32(b, 36) as usize;
        let size = size as usize;
        let left_at = AUDIO_AT + size;
        let right_at = left_at + left;
        payload.audio = slice_to_vec(slice_subrange(b, AUDIO_AT, left_at));
        payload.audio_left = slice_to_vec(slice_subrange(b, left_at, right_at));
        payload.audio_right = slice_to_vec(slice_subrange(b, right_at, right_at + right));
        payload.payload_type = eval(&DialogRequestPayloadType::AudioCombined);
    } else {
        payload.payload_type = eval(&DialogRequestPayloadType::AudioEnd);
    }
    AddressPayload { address: String::new(), payload }
}

/// Whether the datagram loop drops a call leg's channel after handing it a
/// datagram: when the datagram ends the stream or the hand-over failed.
pub fn datagram_ends_channel(size: usize, send_failed: bool) -> (r: bool)
    ensures
        r == (size == END_OF_STREAM_LEN || send_failed),
{
    size == END_OF_STREAM_LEN || send_failed
}

} // verus!
