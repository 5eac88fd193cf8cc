//! Forwarding between a TCP socket and a stream of the tunnel.

use crate::message;
use crate::message::{DataFramePayload, DATA_FRAME_HEADER_LEN};
use vstd::prelude::*;

verus! {

/// How many bytes of a socket go into one data frame at most.
pub const TCP_BUFFER_SIZE: usize = 64 * 1024;

/// How many data frames wait for a socket at most.
pub const TCP_STREAM_CHANNEL_CAPACITY: usize = 64;

/// What happened to a socket or its stream.
pub enum PumpEvent {
    /// The socket gave a data frame.
    Read(Vec<u8>),
    /// The socket gives no more data.
    ReadEnded,
    /// The tunnel gave data for the socket.
    Data(DataFramePayload),
    /// The tunnel gives no more data for the socket.
    DataEnded,
    /// The stream is to be given up.
    Cancelled,
}

/// What is to be done about it.
pub enum PumpAction {
    /// Sends a data frame through the tunnel.
    Forward(Vec<u8>),
    /// Tells the other end of the tunnel that no more data comes.
    SendEof,
    /// Writes data to the socket.
    Write(DataFramePayload),
    /// Closes the socket for writing.
    ShutdownWrite,
    /// Nothing.
    Stop,
}

/// Which directions of a stream have ended.
#[derive(Debug, Clone, Copy, PartialEq, Eq, Structural)]
pub struct TcpPump {
    /// The socket gives no more data.
    pub read_closed: bool,
    /// The tunnel gives no more data for the socket.
    pub data_closed: bool,
}

/// The directions that have ended after an event.
pub open spec fn pumped(pump: TcpPump, event: PumpEvent) -> TcpPump {
    match event {
        PumpEvent::ReadEnded => TcpPump { read_closed: true, ..pump },
        PumpEvent::DataEnded => TcpPump { data_closed: true, ..pump },
        _ => pump,
    }
}

/// Whether forwarding ends with an event: the stream is given up, or the second direction
/// has ended.
pub open spec fn finishes(pump: TcpPump, event: PumpEvent) -> bool {
    match event {
        PumpEvent::ReadEnded => pump.data_closed,
        PumpEvent::DataEnded => pump.read_closed,
        PumpEvent::Cancelled => true,
        _ => false,
    }
}

/// What is to be done about an event.
pub open spec fn pump_action(event: PumpEvent) -> PumpAction {
    match event {
        PumpEvent::Read(frame) => PumpAction::Forward(frame),
        PumpEvent::ReadEnded => PumpAction::SendEof,
        PumpEvent::Data(payload) => PumpAction::Write(payload),
        PumpEvent::DataEnded => PumpAction::ShutdownWrite,
        PumpEvent::Cancelled => PumpAction::Stop,
    }
}

impl TcpPump {
    /// A stream both of whose directions are open.
    pub fn new() -> (pump: Self)
        ensures
            pump == (TcpPump { read_closed: false, data_closed: false }),
    {
        TcpPump { read_closed: false, data_closed: false }
    }

    /// Whether to read from the socket.
    pub fn wants_read(&self) -> (result: bool)
        ensures
            result == !self.read_closed,
    {
        !self.read_closed
    }

    /// Whether to wait for data from the tunnel.
    pub fn wants_data(&self) -> (result: bool)
        ensures
            result == !self.data_closed,
    {
        !self.data_closed
    }

    /// Takes note of an event. Gives what is to be done about it, and whether forwarding
    /// ends with that.
    pub fn step(&mut self, event: PumpEvent) -> (result: (PumpAction, bool))
        ensures
            *final(self) == pumped(*old(self), event),
            result.0 == pump_action(event),
            result.1 == finishes(*old(self), event),
    {
        match event {
            PumpEvent::Read(frame) => (PumpAction::Forward(frame), false),
            PumpEvent::ReadEnded => {
                self.read_closed = true;
                (PumpAction::SendEof, self.data_closed)
            },
            PumpEvent::Data(payload) => (PumpAction::Write(payload), false),
            PumpEvent::DataEnded => {
                self.data_closed = true;
                (PumpAction::ShutdownWrite, self.read_closed)
            },
            PumpEvent::Cancelled => (PumpAction::Stop, true),
        }
    }
}

/// The directions that have ended after some events.
pub open spec fn pumped_all(pump: TcpPump, events: Seq<PumpEvent>) -> TcpPump
    decreases events.len(),
{
    if events.len() == 0 {
        pump
    } else {
        pumped(pumped_all(pump, events.drop_last()), events.last())
    }
}

/// A direction has ended exactly if its end was among the events.
pub proof fn law_half_close(events: Seq<PumpEvent>)
    ensures
        ({
            let pump = pumped_all(TcpPump { read_closed: false, data_closed: false }, events);
            &&& pump.read_closed <==> events.contains(PumpEvent::ReadEnded)
            &&& pump.data_closed <==> events.contains(PumpEvent::DataEnded)
        }),
    decreases events.len(),
{
    if events.len() > 0 {
        let front = events.drop_last();
        law_half_close(front);
        let last = (events.len() - 1) as int;
        assert(events[last] == events.last());
        if front.contains(PumpEvent::ReadEnded) {
            let i = front.index_of(PumpEvent::ReadEnded);
            assert(events[i] == PumpEvent::ReadEnded);
        }
        if front.contains(PumpEvent::DataEnded) {
            let i = front.index_of(PumpEvent::DataEnded);
            assert(events[i] == PumpEvent::DataEnded);
        }
        if events.contains(PumpEvent::ReadEnded) && events.last() != PumpEvent::ReadEnded {
            let i = events.index_of(PumpEvent::ReadEnded);
            assert(front[i] == PumpEvent::ReadEnded);
        }
        if events.contains(PumpEvent::DataEnded) && events.last() != PumpEvent::DataEnded {
            let i = events.index_of(PumpEvent::DataEnded);
            assert(front[i] == PumpEvent::DataEnded);
        }
    }
}

/// What one attempt to read from a socket gave.
#[derive(Debug, Clone, Copy, PartialEq, Eq, Structural)]
pub enum ReadOutcome {
    /// That many bytes; none at the end of the data.
    Bytes(usize),
    /// Nothing for now.
    WouldBlock,
    /// An error.
    Failed,
}

/// What to do after an attempt to read from a socket.
#[derive(Debug, Clone, Copy, PartialEq, Eq, Structural)]
pub enum ReadStep {
    /// There is no more data.
    Ended,
    /// Tries to read more behind the bytes that are there.
    ReadMore { filled: usize },
    /// Sends what is there.
    Send { filled: usize },
    /// Gives the stream up.
    Fail,
}

/// What to do after an attempt to read behind the first `filled` bytes of a payload. Only
/// the first attempt waits for data, so that it gives nothing for now is an error there.
pub fn read_step(filled: usize, outcome: ReadOutcome) -> (step: ReadStep)
    requires
        filled < TCP_BUFFER_SIZE,
        outcome matches ReadOutcome::Bytes(n) ==> filled + n <= TCP_BUFFER_SIZE,
    ensures
        step == match outcome {
            ReadOutcome::Bytes(n) => if n == 0 {
                if filled == 0 {
                    ReadStep::Ended
                } else {
                    ReadStep::Send { filled }
                }
            } else if filled + n < TCP_BUFFER_SIZE {
                ReadStep::ReadMore { filled: (filled + n) as usize }
            } else {
                ReadStep::Send { filled: (filled + n) as usize }
            },
            ReadOutcome::WouldBlock => if filled == 0 {
                ReadStep::Fail
            } else {
                ReadStep::Send { filled }
            },
            ReadOutcome::Failed => ReadStep::Fail,
        },
{
    match outcome {
        ReadOutcome::Bytes(n) => {
            if n == 0 {
                if filled == 0 {
                    ReadStep::Ended
                } else {
                    ReadStep::Send { filled }
                }
            } else if filled + n < TCP_BUFFER_SIZE {
                ReadStep::ReadMore { filled: filled + n }
            } else {
                ReadStep::Send { filled: filled + n }
            }
        },
        ReadOutcome::WouldBlock => {
            if filled == 0 {
                ReadStep::Fail
            } else {
                ReadStep::Send { filled }
            }
        },
        ReadOutcome::Failed => ReadStep::Fail,
    }
}

/// Cuts a data frame down to the first `filled` bytes of its payload.
pub fn finish_data_frame(frame: Vec<u8>, filled: usize) -> (result: Vec<u8>)
    requires
        DATA_FRAME_HEADER_LEN + filled <= frame@.len(),
    ensures
        result@ == frame@.take(DATA_FRAME_HEADER_LEN + filled),
        message::decoded_data_frame(result@) == Some(
            (message::frame_stream(frame@), message::frame_payload(frame@).take(filled as int)),
        ),
{
    let len: usize = frame.len();
    assert(DATA_FRAME_HEADER_LEN + filled <= len);
    let mut result = frame;
    result.truncate(DATA_FRAME_HEADER_LEN + filled);
    proof {
        assert(result@ =~= frame@.take(DATA_FRAME_HEADER_LEN + filled));
        assert(result@.take(8) =~= frame@.take(8));
        assert(result@.skip(8) =~= frame@.skip(8).take(filled as int));
    }
    result
}

/// The flag of a stream that can be cancelled.
#[derive(Debug, Clone, Copy, PartialEq, Eq, Structural)]
pub struct StreamCancellation {
    /// Whether the stream was cancelled.
    pub cancelled: bool,
}

impl StreamCancellation {
    /// Not cancelled.
    pub fn new() -> (cancellation: Self)
        ensures
            !cancellation.cancelled,
    {
        StreamCancellation { cancelled: false }
    }

    /// Cancels the stream, and says whether to wake up those who wait for that: only the
    /// first time.
    pub fn cancel(&mut self) -> (wake: bool)
        ensures
            wake == !old(self).cancelled,
            final(self).cancelled,
    {
        let wake = !self.cancelled;
        self.cancelled = true;
        wake
    }

    /// Whether the stream was cancelled.
    pub fn is_cancelled(&self) -> (result: bool)
        ensures
            result == self.cancelled,
    {
        self.cancelled
    }
}

/// Forwarding: what the socket gives goes through the tunnel as it is, and what the tunnel
/// gives is written to the socket as it is; the end of the one is told to the other end, and
/// the end of the other closes the socket for writing. Forwarding ends when the stream is
/// given up or both directions have ended, and not before.
pub proof fn law_forwarding(pump: &mut TcpPump, event: PumpEvent, result: (PumpAction, bool))
    requires
        call_ensures(TcpPump::step, (pump, event), result),
    ensures
        event matches PumpEvent::Read(frame) ==> result.0 == PumpAction::Forward(frame),
        event matches PumpEvent::Data(payload) ==> result.0 == PumpAction::Write(payload),
        event is ReadEnded ==> result.0 is SendEof,
        event is DataEnded ==> result.0 is ShutdownWrite,
        event is Cancelled ==> result.0 is Stop,
        final(pump).read_closed == (old(pump).read_closed || event is ReadEnded),
        final(pump).data_closed == (old(pump).data_closed || event is DataEnded),
        event is Cancelled ==> result.1,
        event is Read || event is Data ==> !result.1,
        event is ReadEnded || event is DataEnded ==> result.1 == (final(pump).read_closed
            && final(pump).data_closed),
{
}

/// A direction is waited for as long as it has not ended; both are open at first.
pub proof fn law_directions(
    fresh: TcpPump,
    pump: TcpPump,
    wants_read: bool,
    wants_data: bool,
)
    requires
        call_ensures(TcpPump::new, (), fresh),
        call_ensures(TcpPump::wants_read, (&pump,), wants_read),
        call_ensures(TcpPump::wants_data, (&pump,), wants_data),
    ensures
        !fresh.read_closed && !fresh.data_closed,
        TCP_STREAM_CHANNEL_CAPACITY == 64,
        wants_read == !pump.read_closed,
        wants_data == !pump.data_closed,
{
}

/// A read never loses or invents bytes: what was there stays counted, new bytes are added, and
/// the frame is sent when it is full or nothing more is at hand. Only at the very first is the
/// end of the data the end, or nothing at hand an error; an error always is one.
pub proof fn law_reading(filled: usize, outcome: ReadOutcome, step: ReadStep)
    requires
        filled < 65536,
        outcome matches ReadOutcome::Bytes(n) ==> filled + n <= 65536,
        call_ensures(read_step, (filled, outcome), step),
    ensures
        outcome matches ReadOutcome::Bytes(n) ==> {
            &&& step matches ReadStep::ReadMore { filled: now } ==> now == filled + n && n > 0 && now
                < 65536
            &&& step matches ReadStep::Send { filled: now } ==> now == filled + n && now > 0 && (n
                == 0 || now == 65536)
            &&& step is Ended <==> filled == 0 && n == 0
            &&& step !is Fail
        },
        outcome is WouldBlock && filled > 0 ==> step == (ReadStep::Send { filled }),
        outcome is WouldBlock && filled == 0 ==> step is Fail,
        outcome is Failed ==> step is Fail,
{
}

/// A frame that is cut down keeps its stream and the first bytes of its payload.
pub proof fn law_frame_cut_down(frame: Vec<u8>, filled: usize, result: Vec<u8>)
    requires
        8 + filled <= frame@.len(),
        call_ensures(finish_data_frame, (frame, filled), result),
    ensures
        result@.len() == 8 + filled,
        forall|i: int| 0 <= i < result@.len() ==> result@[i] == frame@[i],
{
}

/// A stream that was cancelled stays so, and those who wait are woken up once.
pub proof fn law_cancelling(
    fresh: StreamCancellation,
    first: &mut StreamCancellation,
    second: &mut StreamCancellation,
    last: StreamCancellation,
    at_first: bool,
    woken: bool,
    again: bool,
    now: bool,
)
    requires
        call_ensures(StreamCancellation::new, (), fresh),
        call_ensures(StreamCancellation::is_cancelled, (&fresh,), at_first),
        *old(first) == fresh,
        call_ensures(StreamCancellation::cancel, (first,), woken),
        *old(second) == *final(first),
        call_ensures(StreamCancellation::cancel, (second,), again),
        last == *final(second),
        call_ensures(StreamCancellation::is_cancelled, (&last,), now),
    ensures
        !at_first,
        woken,
        !again,
        now,
{
}

} // verus!
