//! The messages of the tunnel protocol and the data frames that carry stream payloads.

use crate::bytes;
use crate::config::TargetConfig;
use vstd::prelude::*;
use vstd::slice::slice_subrange;

verus! {

/// The number of a stream within one tunnel connection.
pub type StreamId = u64;

/// How many bytes stand before the payload of a data frame: the stream number.
pub const DATA_FRAME_HEADER_LEN: usize = 8;

/// What a listener forwards, and what a target expects.
#[derive(Debug, Clone, Copy, PartialEq, Eq, Structural)]
pub enum Mode {
    Tcp,
    Http,
}

/// The name and the mode of a target.
#[derive(Debug, Clone)]
pub struct TargetMeta {
    pub name: String,
    pub mode: Mode,
}

/// An HTTP request with its whole body.
#[derive(Debug, Clone)]
pub struct HttpRequestPayload {
    pub method: String,
    pub path_and_query: String,
    pub headers: Vec<(String, String)>,
    pub body: Vec<u8>,
}

/// An HTTP request without its body.
#[derive(Debug, Clone)]
pub struct HttpRequestHead {
    pub method: String,
    pub path_and_query: String,
    pub headers: Vec<(String, String)>,
}

/// An HTTP response with its whole body.
#[derive(Debug, Clone)]
pub struct HttpResponsePayload {
    pub status: u16,
    pub headers: Vec<(String, String)>,
    pub body: Vec<u8>,
}

/// An HTTP response without its body.
#[derive(Debug, Clone)]
pub struct HttpResponseHead {
    pub status: u16,
    pub headers: Vec<(String, String)>,
}

/// A control message of the tunnel protocol.
#[allow(inconsistent_fields)]
#[derive(Debug, Clone)]
pub enum Message {
    RegisterAccess { token: String, client_public_key: Vec<u8> },
    RegisterOk { gateway_public_key: Vec<u8> },
    Open { stream_id: StreamId, target: String, config: TargetConfig },
    OpenOk { stream_id: StreamId },
    Close { stream_id: StreamId, reason: String },
    TcpEof { stream_id: StreamId },
    Error { stream_id: Option<StreamId>, code: String, message: String },
    HttpRequest {
        stream_id: StreamId,
        target: String,
        config: TargetConfig,
        request: HttpRequestPayload,
    },
    HttpRequestStart {
        stream_id: StreamId,
        target: String,
        config: TargetConfig,
        request: HttpRequestHead,
    },
    HttpRequestEnd { stream_id: StreamId },
    HttpResponse { stream_id: StreamId, response: HttpResponsePayload },
    HttpResponseStart { stream_id: StreamId, response: HttpResponseHead },
    HttpResponseEnd { stream_id: StreamId },
    Ping,
    Pong,
}

/// The data frame of a payload: the stream number in eight big-endian bytes, then the
/// payload.
pub open spec fn data_frame(stream_id: StreamId, payload: Seq<u8>) -> Seq<u8> {
    bytes::be_bytes(stream_id as nat, 8) + payload
}

/// The stream number that stands in the header of a data frame.
pub open spec fn frame_stream(frame: Seq<u8>) -> StreamId {
    bytes::be_value(frame.take(8)) as u64
}

/// The payload behind the header of a data frame.
pub open spec fn frame_payload(frame: Seq<u8>) -> Seq<u8> {
    frame.skip(8)
}

/// The stream number and the payload of a data frame; `None` for what is shorter than a
/// header.
pub open spec fn decoded_data_frame(frame: Seq<u8>) -> Option<(StreamId, Seq<u8>)> {
    if frame.len() < DATA_FRAME_HEADER_LEN {
        None
    } else {
        Some((frame_stream(frame), frame_payload(frame)))
    }
}

/// Whether two frames merge into one: both have the same header, and the payloads
/// together stay within the limit.
pub open spec fn mergeable(current: Seq<u8>, next: Seq<u8>, max_payload_size: nat) -> bool {
    &&& current.len() >= DATA_FRAME_HEADER_LEN
    &&& next.len() >= DATA_FRAME_HEADER_LEN
    &&& current.take(8) == next.take(8)
    &&& (current.len() - 8) + (next.len() - 8) <= max_payload_size
}

/// Decoding an encoded data frame gives the stream number and the payload back.
pub proof fn law_decode_of_encode(stream_id: StreamId, payload: Seq<u8>)
    ensures
        decoded_data_frame(data_frame(stream_id, payload)) == Some((stream_id, payload)),
{
    let header = bytes::be_bytes(stream_id as nat, 8);
    bytes::lemma_be_bytes_len(stream_id as nat, 8);
    bytes::lemma_pow256_of_8();
    bytes::lemma_be_value_of_bytes(stream_id as nat, 8);
    assert(data_frame(stream_id, payload).take(8) =~= header);
    assert(data_frame(stream_id, payload).skip(8) =~= payload);
}

/// Every frame that decodes is the encoding of what it decodes to.
pub proof fn law_encode_of_decode(frame: Seq<u8>)
    requires
        decoded_data_frame(frame) is Some,
    ensures
        data_frame(frame_stream(frame), frame_payload(frame)) == frame,
{
    bytes::lemma_be_bytes_of_value(frame.take(8));
    bytes::lemma_pow256_of_8();
    assert(frame.take(8) + frame.skip(8) =~= frame);
}

/// Frames merge exactly where they decode to the same stream and the payloads together
/// stay within the limit, and the merged frame carries the one payload after the other.
pub proof fn law_merge(current: Seq<u8>, next: Seq<u8>, max_payload_size: nat)
    ensures
        mergeable(current, next, max_payload_size) <==> {
            &&& decoded_data_frame(current) is Some
            &&& decoded_data_frame(next) is Some
            &&& frame_stream(current) == frame_stream(next)
            &&& frame_payload(current).len() + frame_payload(next).len() <= max_payload_size
        },
        mergeable(current, next, max_payload_size) ==> decoded_data_frame(
            current + next.skip(8),
        ) == Some(
            (frame_stream(current), frame_payload(current) + frame_payload(next)),
        ),
{
    if decoded_data_frame(current) is Some && decoded_data_frame(next) is Some {
        bytes::lemma_be_bytes_of_value(current.take(8));
        bytes::lemma_be_bytes_of_value(next.take(8));
        bytes::lemma_pow256_of_8();
        let merged = current + next.skip(8);
        assert(merged.take(8) =~= current.take(8));
        assert(merged.skip(8) =~= current.skip(8) + next.skip(8));
    }
}

/// Appends a slice of bytes to a vector.
pub(crate) fn append_bytes(target: &mut Vec<u8>, source: &[u8])
    ensures
        final(target)@ == old(target)@ + source@,
{
    target.extend_from_slice(source);
    assert(target@ =~= old(target)@ + source@);
}

/// The payload of a data frame, kept inside the frame that it came in.
#[derive(Debug)]
pub struct DataFramePayload {
    frame: Vec<u8>,
    payload_offset: usize,
}

impl DataFramePayload {
    #[verifier::type_invariant]
    spec fn well_formed(self) -> bool {
        self.payload_offset <= self.frame@.len()
    }

    /// The payload.
    pub closed spec fn view(&self) -> Seq<u8> {
        self.frame@.skip(self.payload_offset as int)
    }

    /// The payload.
    pub fn as_slice(&self) -> (result: &[u8])
        ensures
            result@ == self@,
    {
        proof {
            use_type_invariant(self);
            assert(self.frame@.skip(self.payload_offset as int) =~= self.frame@.subrange(
                self.payload_offset as int,
                self.frame@.len() as int,
            ));
        }
        slice_subrange(self.frame.as_slice(), self.payload_offset, self.frame.len())
    }

    /// The payload as a vector of its own.
    pub fn into_vec(self) -> (result: Vec<u8>)
        ensures
            result@ == self@,
    {
        proof {
            use_type_invariant(&self);
        }
        let mut frame = self.frame;
        let offset: usize = self.payload_offset;
        let result = frame.split_off(offset);
        assert(result@ =~= self@);
        result
    }
}

/// The data frame of a payload.
pub fn encode_data_frame(stream_id: StreamId, bytes: &[u8]) -> (frame: Vec<u8>)
    ensures
        frame@ == data_frame(stream_id, bytes@),
{
    let header: [u8; 8] = bytes::u64_to_be(stream_id);
    let mut frame: Vec<u8> = Vec::new();
    append_bytes(&mut frame, header.as_slice());
    append_bytes(&mut frame, bytes);
    assert(frame@ =~= data_frame(stream_id, bytes@));
    frame
}

/// A data frame whose payload is `payload_capacity` zero bytes, to be filled in place.
pub fn new_data_frame_buffer(stream_id: StreamId, payload_capacity: usize) -> (frame: Vec<u8>)
    requires
        DATA_FRAME_HEADER_LEN + payload_capacity <= usize::MAX,
    ensures
        frame@ == data_frame(stream_id, Seq::new(payload_capacity as nat, |i: int| 0u8)),
{
    let header: [u8; 8] = bytes::u64_to_be(stream_id);
    proof {
        bytes::lemma_be_bytes_len(stream_id as nat, 8);
    }
    let mut frame: Vec<u8> = vec![0u8; DATA_FRAME_HEADER_LEN + payload_capacity];
    let mut i: usize = 0;
    while i < DATA_FRAME_HEADER_LEN
        invariant
            i <= DATA_FRAME_HEADER_LEN,
            header@.len() == DATA_FRAME_HEADER_LEN,
            frame@.len() == DATA_FRAME_HEADER_LEN + payload_capacity,
            forall|j: int| 0 <= j < i ==> frame@[j] == header@[j],
            forall|j: int| i <= j < frame@.len() ==> frame@[j] == 0u8,
        decreases DATA_FRAME_HEADER_LEN - i,
    {
        frame.set(i, header[i]);
        i = i + 1;
    }
    assert(frame@ =~= data_frame(stream_id, Seq::new(payload_capacity as nat, |j: int| 0u8)));
    frame
}

/// Whether the first eight bytes of two frames are the same.
fn same_header(current: &[u8], next: &[u8]) -> (result: bool)
    requires
        current@.len() >= DATA_FRAME_HEADER_LEN,
        next@.len() >= DATA_FRAME_HEADER_LEN,
    ensures
        result == (current@.take(8) == next@.take(8)),
{
    let mut i: usize = 0;
    while i < DATA_FRAME_HEADER_LEN
        invariant
            i <= DATA_FRAME_HEADER_LEN,
            current@.len() >= DATA_FRAME_HEADER_LEN,
            next@.len() >= DATA_FRAME_HEADER_LEN,
            forall|j: int| 0 <= j < i ==> current@[j] == next@[j],
        decreases DATA_FRAME_HEADER_LEN - i,
    {
        if current[i] != next[i] {
            assert(current@.take(8)[i as int] != next@.take(8)[i as int]);
            return false;
        }
        i = i + 1;
    }
    assert(current@.take(8) =~= next@.take(8));
    true
}

/// Appends the payload of `next` to `current` where the two frames merge, and says
/// whether they did.
pub fn try_merge_data_frames(
    current: &mut Vec<u8>,
    next: &[u8],
    max_payload_size: usize,
) -> (merged: bool)
    ensures
        merged == mergeable(old(current)@, next@, max_payload_size as nat),
        final(current)@ == if merged {
            old(current)@ + next@.skip(8)
        } else {
            old(current)@
        },
        !merged ==> *final(current) == *old(current),
{
    if current.len() < DATA_FRAME_HEADER_LEN || next.len() < DATA_FRAME_HEADER_LEN {
        return false;
    }
    if !same_header(current.as_slice(), next) {
        return false;
    }
    let current_payload_len: usize = current.len() - DATA_FRAME_HEADER_LEN;
    let next_payload_len: usize = next.len() - DATA_FRAME_HEADER_LEN;
    match current_payload_len.checked_add(next_payload_len) {
        None => false,
        Some(merged_payload_len) => {
            if merged_payload_len > max_payload_size {
                return false;
            }
            let payload = slice_subrange(next, DATA_FRAME_HEADER_LEN, next.len());
            assert(payload@ =~= next@.skip(8));
            append_bytes(current, payload);
            true
        },
    }
}

/// The stream number and the payload of a data frame.
pub fn decode_data_frame(frame: &[u8]) -> (result: Option<(StreamId, Vec<u8>)>)
    ensures
        match result {
            Some(decoded) => decoded_data_frame(frame@) == Some((decoded.0, decoded.1@)),
            None => decoded_data_frame(frame@) is None,
        },
{
    if frame.len() < DATA_FRAME_HEADER_LEN {
        return None;
    }
    let stream_id: u64 = bytes::u64_from_be(frame, 0);
    let mut payload: Vec<u8> = Vec::new();
    append_bytes(&mut payload, slice_subrange(frame, DATA_FRAME_HEADER_LEN, frame.len()));
    proof {
        assert(frame@.subrange(0, 8) =~= frame@.take(8));
        assert(payload@ =~= frame@.skip(8));
    }
    Some((stream_id, payload))
}

/// The stream number and the payload of a data frame, without copying the payload.
pub fn decode_data_frame_owned(frame: Vec<u8>) -> (result: Option<(StreamId, DataFramePayload)>)
    ensures
        match result {
            Some(decoded) => decoded_data_frame(frame@) == Some((decoded.0, decoded.1@)),
            None => decoded_data_frame(frame@) is None,
        },
{
    if frame.len() < DATA_FRAME_HEADER_LEN {
        return None;
    }
    let stream_id: u64 = bytes::u64_from_be(frame.as_slice(), 0);
    proof {
        assert(frame@.subrange(0, 8) =~= frame@.take(8));
    }
    Some((stream_id, DataFramePayload { frame, payload_offset: DATA_FRAME_HEADER_LEN }))
}

/// A data frame is the stream number in eight bytes, most significant first, and then the
/// payload.
pub proof fn law_data_frame_layout(stream_id: StreamId, payload: &[u8], frame: Vec<u8>)
    requires
        call_ensures(encode_data_frame, (stream_id, payload), frame),
    ensures
        frame@.len() == 8 + payload@.len(),
        bytes::big_endian(frame@.take(8)) == stream_id,
        frame@.skip(8) == payload@,
{
    law_decode_of_encode(stream_id, payload@);
    bytes::lemma_be_bytes_len(stream_id as nat, 8);
    bytes::lemma_pow256_of_8();
    bytes::lemma_be_value_of_bytes(stream_id as nat, 8);
    assert(frame@.take(8) =~= bytes::be_bytes(stream_id as nat, 8));
    bytes::lemma_big_endian(frame@.take(8));
}

/// Decoding gives the number that the first eight bytes stand for and all bytes behind them;
/// it gives nothing only where there are fewer than eight.
pub proof fn law_data_frame_decoded(frame: &[u8], result: Option<(StreamId, Vec<u8>)>)
    requires
        call_ensures(decode_data_frame, (frame,), result),
    ensures
        result is Some <==> frame@.len() >= 8,
        result matches Some(decoded) ==> decoded.0 == bytes::big_endian(frame@.take(8))
            && decoded.1@ == frame@.skip(8),
{
    if frame@.len() >= 8 {
        bytes::lemma_big_endian(frame@.take(8));
        bytes::lemma_be_bytes_of_value(frame@.take(8));
        bytes::lemma_pow256_of_8();
    }
}

/// Decoding without copying gives the same.
pub proof fn law_data_frame_decoded_in_place(
    frame: Vec<u8>,
    result: Option<(StreamId, DataFramePayload)>,
)
    requires
        call_ensures(decode_data_frame_owned, (frame,), result),
    ensures
        result is Some <==> frame@.len() >= 8,
        result matches Some(decoded) ==> decoded.0 == bytes::big_endian(frame@.take(8))
            && decoded.1@ == frame@.skip(8),
{
    if frame@.len() >= 8 {
        bytes::lemma_big_endian(frame@.take(8));
        bytes::lemma_be_bytes_of_value(frame@.take(8));
        bytes::lemma_pow256_of_8();
    }
}

/// What was encoded decodes to the stream number and the payload that were given.
pub proof fn law_encoded_frames_decode(
    stream_id: StreamId,
    payload: &[u8],
    frame: Vec<u8>,
    copied: Option<(StreamId, Vec<u8>)>,
    kept: Option<(StreamId, DataFramePayload)>,
    slice: &[u8],
)
    requires
        call_ensures(encode_data_frame, (stream_id, payload), frame),
        slice@ == frame@,
        call_ensures(decode_data_frame, (slice,), copied),
        call_ensures(decode_data_frame_owned, (frame,), kept),
    ensures
        copied matches Some(decoded) && decoded.0 == stream_id && decoded.1@ == payload@,
        kept matches Some(decoded) && decoded.0 == stream_id && decoded.1@ == payload@,
{
    law_decode_of_encode(stream_id, payload@);
}

/// A payload that is kept in its frame is handed out as it is.
pub proof fn law_payload_handed_out(payload: DataFramePayload, slice: &[u8], vector: Vec<u8>)
    requires
        call_ensures(DataFramePayload::as_slice, (&payload,), slice),
        call_ensures(DataFramePayload::into_vec, (payload,), vector),
    ensures
        slice@ == payload@,
        vector@ == slice@,
{
}

/// A buffer for a data frame has the header of its stream and room for the payload.
pub proof fn law_data_frame_buffer(stream_id: StreamId, capacity: usize, frame: Vec<u8>)
    requires
        8 + capacity <= usize::MAX,
        call_ensures(new_data_frame_buffer, (stream_id, capacity), frame),
    ensures
        frame@.len() == 8 + capacity,
        bytes::big_endian(frame@.take(8)) == stream_id,
        forall|i: int| 8 <= i < frame@.len() ==> frame@[i] == 0,
{
    let zeros = Seq::new(capacity as nat, |i: int| 0u8);
    bytes::lemma_be_bytes_len(stream_id as nat, 8);
    bytes::lemma_pow256_of_8();
    bytes::lemma_be_value_of_bytes(stream_id as nat, 8);
    assert(frame@.take(8) =~= bytes::be_bytes(stream_id as nat, 8));
    bytes::lemma_big_endian(frame@.take(8));
}

/// Frames merge exactly if both have a header, of the same stream, and their payloads
/// together are no longer than the limit. The merged frame belongs to that stream and has the
/// one payload after the other; else the frame stays as it was.
pub proof fn law_frames_merge(
    current: &mut Vec<u8>,
    next: &[u8],
    max_payload_size: usize,
    merged: bool,
)
    requires
        call_ensures(try_merge_data_frames, (current, next, max_payload_size), merged),
    ensures
        merged <==> {
            &&& old(current)@.len() >= 8
            &&& next@.len() >= 8
            &&& bytes::big_endian(old(current)@.take(8)) == bytes::big_endian(next@.take(8))
            &&& old(current)@.len() + next@.len() <= max_payload_size + 16
        },
        merged ==> {
            &&& final(current)@.take(8) == old(current)@.take(8)
            &&& final(current)@.skip(8) == old(current)@.skip(8) + next@.skip(8)
        },
        !merged ==> final(current)@ == old(current)@,
{
    let before = old(current)@;
    if before.len() >= 8 && next@.len() >= 8 {
        bytes::lemma_big_endian(before.take(8));
        bytes::lemma_big_endian(next@.take(8));
        assert((before + next@.skip(8)).take(8) =~= before.take(8));
        assert((before + next@.skip(8)).skip(8) =~= before.skip(8) + next@.skip(8));
    }
}

} // verus!
