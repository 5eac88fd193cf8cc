//! WebSocket messages, and the batches in which a writer sends them.

use crate::message;
use crate::message::{try_merge_data_frames, DATA_FRAME_HEADER_LEN};
use vstd::prelude::*;

verus! {

/// How many messages a batch holds at most.
pub const WS_WRITE_BATCH_MAX_MESSAGES: usize = 64;

/// How many bytes a batch may have for a message to be added.
pub const WS_WRITE_BATCH_MAX_BYTES: usize = 256 * 1024;

/// How long the payload of a merged data frame may be.
pub const WS_DATA_FRAME_MAX_PAYLOAD: usize = 64 * 1024;

/// A WebSocket message, of which `Frame` is a raw one.
#[derive(Debug, Clone, PartialEq, Eq)]
pub enum WsMessage {
    Text(String),
    Binary(Vec<u8>),
    Ping(Vec<u8>),
    Pong(Vec<u8>),
    Close,
    Frame,
}

/// What a WebSocket message holds.
pub enum WsContent {
    Text(Seq<char>),
    Binary(Seq<u8>),
    Ping(Seq<u8>),
    Pong(Seq<u8>),
    Close,
    Frame,
}

impl View for WsMessage {
    type V = WsContent;

    open spec fn view(&self) -> WsContent {
        match self {
            WsMessage::Text(text) => WsContent::Text(text@),
            WsMessage::Binary(bytes) => WsContent::Binary(bytes@),
            WsMessage::Ping(bytes) => WsContent::Ping(bytes@),
            WsMessage::Pong(bytes) => WsContent::Pong(bytes@),
            WsMessage::Close => WsContent::Close,
            WsMessage::Frame => WsContent::Frame,
        }
    }
}

/// What a list of messages holds.
pub open spec fn contents(messages: Seq<WsMessage>) -> Seq<WsContent> {
    messages.map_values(|message: WsMessage| message@)
}

/// The size of a message: that of its text in UTF-8, or of its bytes.
pub open spec fn size_of_content(content: WsContent) -> nat {
    match content {
        WsContent::Text(text) => vstd::utf8::encode_utf8(text).len(),
        WsContent::Binary(bytes) => bytes.len(),
        WsContent::Ping(bytes) => bytes.len(),
        WsContent::Pong(bytes) => bytes.len(),
        WsContent::Close => 0,
        WsContent::Frame => 0,
    }
}

/// The size of all messages together.
pub open spec fn total_size(messages: Seq<WsContent>) -> nat
    decreases messages.len(),
{
    if messages.len() == 0 {
        0
    } else {
        total_size(messages.drop_last()) + size_of_content(messages.last())
    }
}

/// Whether two messages merge: both are data frames of the same stream, and the payloads
/// together stay within the limit.
pub open spec fn merges(current: WsContent, next: WsContent) -> bool {
    match (current, next) {
        (WsContent::Binary(current), WsContent::Binary(next)) => message::mergeable(
            current,
            next,
            WS_DATA_FRAME_MAX_PAYLOAD as nat,
        ),
        _ => false,
    }
}

/// The message that two merging ones become.
pub open spec fn merged(current: WsContent, next: WsContent) -> WsContent {
    match (current, next) {
        (WsContent::Binary(current), WsContent::Binary(next)) => WsContent::Binary(
            current + next.skip(8),
        ),
        _ => current,
    }
}

/// Whether the next message merges into the last one of a batch.
pub open spec fn joins_last(batch: Seq<WsContent>, next: WsContent) -> bool {
    batch.len() > 0 && merges(batch.last(), next)
}

/// Whether the next message has to wait for another batch.
pub open spec fn is_deferred(batch: Seq<WsContent>, batch_bytes: nat, next: WsContent) -> bool {
    !joins_last(batch, next) && batch_bytes + size_of_content(next) > WS_WRITE_BATCH_MAX_BYTES
}

/// A batch with the next message in it.
pub open spec fn with_next(batch: Seq<WsContent>, next: WsContent) -> Seq<WsContent> {
    if joins_last(batch, next) {
        batch.drop_last().push(merged(batch.last(), next))
    } else {
        batch.push(next)
    }
}

/// How many bytes the next message adds to a batch.
pub open spec fn added_size(batch: Seq<WsContent>, next: WsContent) -> nat {
    if joins_last(batch, next) {
        (size_of_content(next) - DATA_FRAME_HEADER_LEN) as nat
    } else {
        size_of_content(next)
    }
}

/// The payload bytes of one stream that a list of messages carries, in order.
pub open spec fn stream_bytes(messages: Seq<WsContent>, stream_id: u64) -> Seq<u8>
    decreases messages.len(),
{
    if messages.len() == 0 {
        Seq::empty()
    } else {
        let before = stream_bytes(messages.drop_last(), stream_id);
        match messages.last() {
            WsContent::Binary(frame) => match message::decoded_data_frame(frame) {
                Some(decoded) => if decoded.0 == stream_id {
                    before + decoded.1
                } else {
                    before
                },
                None => before,
            },
            _ => before,
        }
    }
}

/// Whether two lists of messages carry the same bytes for every stream.
pub open spec fn carry_the_same(a: Seq<WsContent>, b: Seq<WsContent>) -> bool {
    forall|stream_id: u64| #[trigger] stream_bytes(a, stream_id) == stream_bytes(b, stream_id)
}

/// The messages of a list that are not data frames, in order.
pub open spec fn other_messages(messages: Seq<WsContent>) -> Seq<WsContent>
    decreases messages.len(),
{
    if messages.len() == 0 {
        Seq::empty()
    } else {
        let before = other_messages(messages.drop_last());
        match messages.last() {
            WsContent::Binary(frame) => if message::decoded_data_frame(frame) is Some {
                before
            } else {
                before.push(messages.last())
            },
            other => before.push(other),
        }
    }
}

/// Adding a message to a batch neither loses nor reorders what any stream carries, nor any
/// other message.
pub proof fn law_batch_preserves_streams(batch: Seq<WsContent>, next: WsContent, stream_id: u64)
    ensures
        stream_bytes(with_next(batch, next), stream_id) == stream_bytes(
            batch.push(next),
            stream_id,
        ),
        other_messages(with_next(batch, next)) == other_messages(batch.push(next)),
{
    if joins_last(batch, next) {
        reveal_with_fuel(stream_bytes, 3);
        reveal_with_fuel(other_messages, 3);
        let front = batch.drop_last();
        let joined = front.push(merged(batch.last(), next));
        assert(joined.drop_last() =~= front);
        assert(batch.push(next).drop_last() =~= batch);
        match (batch.last(), next) {
            (WsContent::Binary(a), WsContent::Binary(b)) => {
                message::law_merge(a, b, WS_DATA_FRAME_MAX_PAYLOAD as nat);
                let start = stream_bytes(front, stream_id);
                if message::frame_stream(a) == stream_id {
                    assert(start + message::frame_payload(a) + message::frame_payload(b) =~= start
                        + (message::frame_payload(a) + message::frame_payload(b)));
                }
            },
            _ => {},
        }
    }
}

/// Messages that are sent in several batches carry what the batches carry, one after the
/// other.
pub proof fn law_batches_in_order(first: Seq<WsContent>, second: Seq<WsContent>, stream_id: u64)
    ensures
        stream_bytes(first + second, stream_id) == stream_bytes(first, stream_id) + stream_bytes(
            second,
            stream_id,
        ),
        other_messages(first + second) == other_messages(first) + other_messages(second),
    decreases second.len(),
{
    let all = first + second;
    if second.len() == 0 {
        assert(all =~= first);
        assert(stream_bytes(first, stream_id) + stream_bytes(second, stream_id) =~= stream_bytes(
            first,
            stream_id,
        ));
        assert(other_messages(first) + other_messages(second) =~= other_messages(first));
    } else {
        let front = second.drop_last();
        assert(all.drop_last() =~= first + front);
        assert(all.last() == second.last());
        law_batches_in_order(first, front, stream_id);
        let a = stream_bytes(first, stream_id);
        let b = stream_bytes(front, stream_id);
        match second.last() {
            WsContent::Binary(frame) => {
                let p = message::frame_payload(frame);
                assert(a + b + p =~= a + (b + p));
            },
            _ => {},
        }
        let c = other_messages(first);
        let d = other_messages(front);
        assert((c + d).push(second.last()) =~= c + d.push(second.last()));
    }
}

/// The bytes of a batch are those of its messages: adding a message adds its size, less
/// the header that merging saves.
pub proof fn law_batch_size(batch: Seq<WsContent>, next: WsContent)
    ensures
        total_size(with_next(batch, next)) == total_size(batch) + added_size(batch, next),
{
    let after = with_next(batch, next);
    if joins_last(batch, next) {
        assert(after.drop_last() =~= batch.drop_last());
    } else {
        assert(after.drop_last() =~= batch);
    }
}

/// The size of a message.
pub fn ws_message_size(message: &WsMessage) -> (size: usize)
    ensures
        size == size_of_content(message@),
{
    match message {
        WsMessage::Text(text) => text.as_str().as_bytes().len(),
        WsMessage::Binary(bytes) => bytes.len(),
        WsMessage::Ping(bytes) => bytes.len(),
        WsMessage::Pong(bytes) => bytes.len(),
        WsMessage::Close => 0,
        WsMessage::Frame => 0,
    }
}

/// Appends the payload of `next` to `current` where the two merge, and says whether they
/// did.
pub fn try_merge_ws_binary(current: &mut WsMessage, next: &WsMessage) -> (result: bool)
    ensures
        result == merges(old(current)@, next@),
        final(current)@ == if result {
            merged(old(current)@, next@)
        } else {
            old(current)@
        },
        !result ==> *final(current) == *old(current),
{
    match current {
        WsMessage::Binary(current) => match next {
            WsMessage::Binary(next) => try_merge_data_frames(
                current,
                next.as_slice(),
                WS_DATA_FRAME_MAX_PAYLOAD,
            ),
            _ => false,
        },
        _ => false,
    }
}

/// Adds a message to a batch of `batch_bytes` bytes. Says whether the batch ends with it,
/// or gives it back where it would make the batch too large.
pub fn push_ws_message(
    batch: &mut Vec<WsMessage>,
    batch_bytes: &mut usize,
    next: WsMessage,
) -> (result: Result<bool, WsMessage>)
    requires
        joins_last(contents(old(batch)@), next@) ==> *old(batch_bytes) + added_size(
            contents(old(batch)@),
            next@,
        ) <= usize::MAX,
    ensures
        match result {
            Ok(stop) => {
                &&& !is_deferred(contents(old(batch)@), *old(batch_bytes) as nat, next@)
                &&& stop == (next !is Binary)
                &&& contents(final(batch)@) == with_next(contents(old(batch)@), next@)
                &&& *final(batch_bytes) == *old(batch_bytes) + added_size(
                    contents(old(batch)@),
                    next@,
                )
            },
            Err(deferred) => {
                &&& is_deferred(contents(old(batch)@), *old(batch_bytes) as nat, next@)
                &&& deferred == next
                &&& final(batch)@ == old(batch)@
                &&& *final(batch_bytes) == *old(batch_bytes)
            },
        },
{
    let ghost before = contents(batch@);
    let next_bytes: usize = ws_message_size(&next);
    let count: usize = batch.len();
    if count > 0 {
        let joined = try_merge_ws_binary(&mut batch[count - 1], &next);
        if joined {
            *batch_bytes = *batch_bytes + (next_bytes - DATA_FRAME_HEADER_LEN);
            assert(contents(batch@) =~= with_next(before, next@));
            return Ok(false);
        }
        assert(batch@ =~= old(batch)@);
    }
    if *batch_bytes > WS_WRITE_BATCH_MAX_BYTES || next_bytes > WS_WRITE_BATCH_MAX_BYTES
        - *batch_bytes {
        return Err(next);
    }
    let stop = match &next {
        WsMessage::Binary(_) => false,
        _ => true,
    };
    *batch_bytes = *batch_bytes + next_bytes;
    let ghost content = next@;
    batch.push(next);
    assert(contents(batch@) =~= before.push(content));
    Ok(stop)
}

/// The messages that a writer sends before it flushes, and the one that has to wait.
pub struct WriteBatch {
    messages: Vec<WsMessage>,
    bytes: usize,
    open: bool,
    deferred: Option<WsMessage>,
}

impl WriteBatch {
    /// The messages of the batch.
    pub closed spec fn messages(&self) -> Seq<WsContent> {
        contents(self.messages@)
    }

    /// The message that waits for the next batch.
    pub closed spec fn deferred(&self) -> Option<WsMessage> {
        self.deferred
    }

    /// Whether a further message may be offered.
    pub closed spec fn open(&self) -> bool {
        self.open
    }

    /// Everything the batch was given, in order.
    pub open spec fn taken(&self) -> Seq<WsContent> {
        match self.deferred() {
            Some(message) => self.messages().push(message@),
            None => self.messages(),
        }
    }

    /// The count of bytes is that of the messages, all but the last stay within the limit,
    /// and there is a message that waits only where the batch is closed.
    pub closed spec fn well_formed(&self) -> bool {
        &&& self.messages@.len() > 0
        &&& self.messages@.len() <= WS_WRITE_BATCH_MAX_MESSAGES
        &&& self.bytes == total_size(contents(self.messages@))
        &&& self.messages@.len() > 1 ==> total_size(contents(self.messages@).drop_last())
            <= WS_WRITE_BATCH_MAX_BYTES
        &&& self.deferred is Some ==> !self.open
    }

    /// A batch that begins with the given message; only a binary one is waited for.
    pub fn begin(first: WsMessage) -> (batch: Self)
        ensures
            batch.well_formed(),
            batch.messages() == seq![first@],
            batch.deferred() is None,
            batch.open() == (first is Binary),
    {
        let bytes: usize = ws_message_size(&first);
        let open = match &first {
            WsMessage::Binary(_) => true,
            _ => false,
        };
        let ghost content = first@;
        let mut messages: Vec<WsMessage> = Vec::new();
        messages.push(first);
        proof {
            assert(contents(messages@) =~= seq![content]);
            assert(seq![content].drop_last() =~= Seq::<WsContent>::empty());
            assert(total_size(seq![content]) == total_size(Seq::<WsContent>::empty())
                + size_of_content(content));
        }
        WriteBatch { messages, bytes, open, deferred: None }
    }

    /// Whether a further message, where one is at hand, belongs into the batch.
    pub fn wants_more(&self) -> (result: bool)
        ensures
            result == (self.open() && self.messages().len() < WS_WRITE_BATCH_MAX_MESSAGES),
    {
        self.open && self.messages.len() < WS_WRITE_BATCH_MAX_MESSAGES
    }

    /// Adds the next message, or keeps it for the next batch.
    pub fn offer(&mut self, next: WsMessage)
        requires
            old(self).well_formed(),
            old(self).open(),
            old(self).messages().len() < WS_WRITE_BATCH_MAX_MESSAGES,
        ensures
            final(self).well_formed(),
            match final(self).deferred() {
                Some(message) => {
                    &&& message == next
                    &&& is_deferred(
                        old(self).messages(),
                        total_size(old(self).messages()),
                        next@,
                    )
                    &&& final(self).messages() == old(self).messages()
                    &&& !final(self).open()
                },
                None => {
                    &&& !is_deferred(
                        old(self).messages(),
                        total_size(old(self).messages()),
                        next@,
                    )
                    &&& final(self).messages() == with_next(old(self).messages(), next@)
                    &&& final(self).open() == (next is Binary)
                },
            },
            carry_the_same(final(self).taken(), old(self).messages().push(next@)),
            other_messages(final(self).taken()) == other_messages(
                old(self).messages().push(next@),
            ),
    {
        let ghost before = contents(self.messages@);
        proof {
            law_batch_size(before, next@);
            if joins_last(before, next@) {
                lemma_joined_size(before, next@);
            }
            assert forall|stream_id: u64|
                #[trigger] stream_bytes(with_next(before, next@), stream_id) == stream_bytes(
                    before.push(next@),
                    stream_id,
                ) by {
                law_batch_preserves_streams(before, next@, stream_id);
            }
            law_batch_preserves_streams(before, next@, 0);
            assert(before.push(next@).drop_last() =~= before);
        }
        match push_ws_message(&mut self.messages, &mut self.bytes, next) {
            Ok(stop) => {
                self.open = !stop;
                proof {
                    let after = with_next(before, next@);
                    if joins_last(before, next@) {
                        assert(after.drop_last() =~= before.drop_last());
                    } else {
                        assert(after.drop_last() =~= before);
                    }
                }
            },
            Err(message) => {
                assert(contents(self.messages@) =~= before);
                self.deferred = Some(message);
                self.open = false;
            },
        }
    }

    /// The messages to send now and the one to begin the next batch with.
    pub fn finish(self) -> (result: (Vec<WsMessage>, Option<WsMessage>))
        requires
            self.well_formed(),
        ensures
            contents(result.0@) == self.messages(),
            result.1 == self.deferred(),
            0 < result.0@.len() <= WS_WRITE_BATCH_MAX_MESSAGES,
            result.0@.len() > 1 ==> total_size(contents(result.0@).drop_last())
                <= WS_WRITE_BATCH_MAX_BYTES,
    {
        (self.messages, self.deferred)
    }
}

/// A message into which another one was merged stays small.
proof fn lemma_joined_size(batch: Seq<WsContent>, next: WsContent)
    requires
        joins_last(batch, next),
    ensures
        total_size(batch) + added_size(batch, next) <= total_size(batch.drop_last())
            + WS_DATA_FRAME_MAX_PAYLOAD + DATA_FRAME_HEADER_LEN,
{
}

/// Whether a message is a data frame that may be put behind another one: both have a header
/// of the same stream, and the two payloads together are at most 64 KiB long.
pub open spec fn fits_behind(current: WsContent, next: WsContent) -> bool {
    match (current, next) {
        (WsContent::Binary(a), WsContent::Binary(b)) => {
            &&& a.len() >= 8
            &&& b.len() >= 8
            &&& crate::bytes::big_endian(a.take(8)) == crate::bytes::big_endian(b.take(8))
            &&& a.len() - 8 + b.len() - 8 <= 64 * 1024
        },
        _ => false,
    }
}

proof fn lemma_fits_behind(current: WsContent, next: WsContent)
    ensures
        merges(current, next) == fits_behind(current, next),
{
    match (current, next) {
        (WsContent::Binary(a), WsContent::Binary(b)) => {
            if a.len() >= 8 && b.len() >= 8 {
                crate::bytes::lemma_big_endian(a.take(8));
                crate::bytes::lemma_big_endian(b.take(8));
            }
        },
        _ => {},
    }
}

/// Two messages merge exactly if the second fits behind the first; then the first has the
/// payload of the second behind its own, and else it stays as it was.
pub proof fn law_messages_merge(current: &mut WsMessage, next: &WsMessage, result: bool)
    requires
        call_ensures(try_merge_ws_binary, (current, next), result),
    ensures
        result == fits_behind(old(current)@, next@),
        !result ==> *final(current) == *old(current),
        result ==> (old(current)@ matches WsContent::Binary(a) && (
        next@ matches WsContent::Binary(b) && final(current)@ == WsContent::Binary(
            a + b.skip(8),
        ))),
{
    lemma_fits_behind(old(current)@, next@);
}

/// The size of a message is that of its bytes, for a text in UTF-8; one without bytes has
/// none.
pub proof fn law_message_size(message: &WsMessage, size: usize)
    requires
        call_ensures(ws_message_size, (message,), size),
    ensures
        message matches WsMessage::Text(text) ==> size == vstd::utf8::encode_utf8(text@).len(),
        message matches WsMessage::Binary(bytes) ==> size == bytes@.len(),
        message matches WsMessage::Ping(bytes) ==> size == bytes@.len(),
        message matches WsMessage::Pong(bytes) ==> size == bytes@.len(),
        message is Close || message is Frame ==> size == 0,
{
}

/// The next message of a batch is put behind the last one where it fits there; else it comes
/// after it, as it is, where the batch stays within 256 KiB; else it is given back and nothing
/// changes. A message that is not binary ends the batch. Nothing before the last message is
/// touched, and the bytes are counted.
pub proof fn law_batch_grows(
    batch: &mut Vec<WsMessage>,
    batch_bytes: &mut usize,
    next: WsMessage,
    result: Result<bool, WsMessage>,
    size: usize,
    i: int,
)
    requires
        old(batch)@.len() > 0 && fits_behind(old(batch)@.last()@, next@) ==> *old(batch_bytes)
            + size <= usize::MAX,
        call_ensures(push_ws_message, (batch, batch_bytes, next), result),
        call_ensures(ws_message_size, (&next,), size),
    ensures
        ({
            let fits = old(batch)@.len() > 0 && fits_behind(old(batch)@.last()@, next@);
            &&& result is Ok <==> fits || *old(batch_bytes) + size <= 256 * 1024
            &&& result matches Err(given) ==> given == next && final(batch)@ == old(batch)@
                && *final(batch_bytes) == *old(batch_bytes)
            &&& result matches Ok(stop) ==> stop == (next !is Binary)
            &&& result is Ok && fits ==> {
                &&& final(batch)@.len() == old(batch)@.len()
                &&& old(batch)@.last()@ matches WsContent::Binary(a) && (
                next@ matches WsContent::Binary(b) && final(batch)@.last()@ == WsContent::Binary(
                    a + b.skip(8),
                ))
                &&& *final(batch_bytes) == *old(batch_bytes) + size - 8
                &&& 0 <= i < old(batch)@.len() - 1 ==> final(batch)@[i]@ == old(batch)@[i]@
            }
            &&& result is Ok && !fits ==> {
                &&& final(batch)@.len() == old(batch)@.len() + 1
                &&& final(batch)@.last()@ == next@
                &&& *final(batch_bytes) == *old(batch_bytes) + size
                &&& 0 <= i < old(batch)@.len() ==> final(batch)@[i]@ == old(batch)@[i]@
            }
        }),
{
    let before = contents(old(batch)@);
    let after = contents(final(batch)@);
    if old(batch)@.len() > 0 {
        lemma_fits_behind(old(batch)@.last()@, next@);
        assert(before.last() == old(batch)@.last()@);
    }
    assert(before.len() == old(batch)@.len());
    assert(after.len() == final(batch)@.len());
    if result is Ok {
        assert(after.last() == final(batch)@.last()@);
        if 0 <= i < final(batch)@.len() && i < old(batch)@.len() {
            assert(after[i] == final(batch)@[i]@);
            assert(before[i] == old(batch)@[i]@);
        }
    }
}

/// A batch begins with its first message; more is waited for only behind a binary message, and
/// only while there are fewer than 64.
pub proof fn law_batch_begins(first: WsMessage, batch: WriteBatch, wants: bool)
    requires
        call_ensures(WriteBatch::begin, (first,), batch),
        call_ensures(WriteBatch::wants_more, (&batch,), wants),
    ensures
        batch.messages() == seq![first@],
        batch.deferred() is None,
        wants == (first is Binary),
{
}

/// What a batch is offered is in it or waits for the next one: the bytes of every stream and
/// all other messages are still there, in order, when the batch is finished, and what waits
/// comes after all the rest.
pub proof fn law_nothing_is_lost(
    batch: &mut WriteBatch,
    next: WsMessage,
    done: WriteBatch,
    result: (Vec<WsMessage>, Option<WsMessage>),
    stream_id: u64,
)
    requires
        old(batch).well_formed(),
        old(batch).open(),
        old(batch).messages().len() < WS_WRITE_BATCH_MAX_MESSAGES,
        call_ensures(WriteBatch::offer, (batch, next), ()),
        done == *final(batch),
        call_ensures(WriteBatch::finish, (done,), result),
    ensures
        ({
            let sent = contents(result.0@);
            let all = match result.1 {
                Some(waiting) => sent.push(waiting@),
                None => sent,
            };
            let given = old(batch).messages().push(next@);
            &&& stream_bytes(all, stream_id) == stream_bytes(given, stream_id)
            &&& other_messages(all) == other_messages(given)
            &&& result.1 is Some ==> sent == old(batch).messages() && result.1 == Some(next)
        }),
        0 < result.0@.len() <= 64,
{
    assert(stream_bytes(done.taken(), stream_id) == stream_bytes(
        old(batch).messages().push(next@),
        stream_id,
    ));
}

/// A message is kept for the next batch exactly if it does not fit behind the last one and
/// would make the batch longer than 256 KiB; after that, and after any message that is not
/// binary, the batch takes no more.
pub proof fn law_full_batches(
    batch: &mut WriteBatch,
    next: WsMessage,
    after: WriteBatch,
    wants: bool,
)
    requires
        old(batch).well_formed(),
        old(batch).open(),
        0 < old(batch).messages().len() < WS_WRITE_BATCH_MAX_MESSAGES,
        call_ensures(WriteBatch::offer, (batch, next), ()),
        after == *final(batch),
        call_ensures(WriteBatch::wants_more, (&after,), wants),
    ensures
        after.deferred() is Some <==> !fits_behind(old(batch).messages().last(), next@)
            && total_size(old(batch).messages()) + size_of_content(next@) > 256 * 1024,
        after.deferred() is Some ==> !wants,
        next !is Binary ==> !wants,
        after.messages().len() >= 64 ==> !wants,
        next is Binary && after.deferred() is None && after.messages().len() < 64 ==> wants,
{
    lemma_fits_behind(old(batch).messages().last(), next@);
}

/// The bytes that a list of messages carries for a stream are those of its data frames with
/// that number, one after the other.
pub proof fn law_stream_bytes(
    messages: Seq<WsContent>,
    stream_id: u64,
    number: u64,
    payload: &[u8],
    frame: Vec<u8>,
    other: WsContent,
)
    requires
        call_ensures(message::encode_data_frame, (number, payload), frame),
        other matches WsContent::Binary(bytes) ==> bytes.len() < 8,
    ensures
        stream_bytes(Seq::empty(), stream_id) == Seq::<u8>::empty(),
        stream_bytes(messages.push(WsContent::Binary(frame@)), stream_id) == if number
            == stream_id {
            stream_bytes(messages, stream_id) + payload@
        } else {
            stream_bytes(messages, stream_id)
        },
        stream_bytes(messages.push(other), stream_id) == stream_bytes(messages, stream_id),
        other_messages(messages.push(other)) == other_messages(messages).push(other),
        other_messages(messages.push(WsContent::Binary(frame@))) == other_messages(messages),
        other_messages(Seq::empty()) == Seq::<WsContent>::empty(),
{
    message::law_decode_of_encode(number, payload@);
    assert(messages.push(WsContent::Binary(frame@)).drop_last() =~= messages);
    assert(messages.push(other).drop_last() =~= messages);
}

} // verus!
