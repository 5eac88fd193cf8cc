//! The access end of a tunnel connection: its streams, what the gateway's messages do to
//! them, and when it connects again.
//!
//! Callers keep the channels over which streams and waiting requests are served, and name
//! each by a number of their choice.

use crate::batch;
use crate::batch::WsMessage;
use crate::frames;
use crate::frames::{decrypt_gateway_frame, text_from_utf8, FrameError, Peer};
use crate::message;
use crate::message::{
    decode_data_frame_owned, DataFramePayload, HttpResponseHead, HttpResponsePayload, Message,
    StreamId,
};
use crate::stream_table;
use crate::stream_table::StreamTable;
use crate::text;
use crate::tunnel_crypto;
use crate::tunnel_crypto::{TunnelCipher, TunnelFrameKind};
use vstd::prelude::*;

verus! {

/// Seconds between two heartbeats.
pub const GATEWAY_PING_INTERVAL_SECS: u64 = 20;

/// Nanoseconds without a frame of the gateway after which the connection counts as lost.
pub const GATEWAY_READ_IDLE_TIMEOUT_NANOS: u128 = 75_000_000_000;

/// Seconds that a new stream waits for the connection.
pub const GATEWAY_READY_TIMEOUT_SECS: u64 = 10;

/// Seconds that a new stream waits for the gateway to open it.
pub const STREAM_OPEN_TIMEOUT_SECS: u64 = 10;

/// Seconds before the first attempt to connect again.
pub const RETRY_MIN_SECS: u64 = 1;

/// The longest wait between two attempts to connect.
pub const RETRY_MAX_SECS: u64 = 30;

/// Why a stream or a request failed.
#[derive(Debug, PartialEq, Eq)]
pub enum StreamFailure {
    Closed,
    Gateway { code: String, message: String },
}

impl Clone for StreamFailure {
    fn clone(&self) -> (result: Self)
        ensures
            result == *self,
    {
        match self {
            StreamFailure::Closed => StreamFailure::Closed,
            StreamFailure::Gateway { code, message } => StreamFailure::Gateway {
                code: code.clone(),
                message: message.clone(),
            },
        }
    }
}

impl StreamFailure {
    /// The text of a failure.
    pub open spec fn text(self) -> Seq<char> {
        match self {
            StreamFailure::Closed => "stream closed"@,
            StreamFailure::Gateway { code, message } => code@ + ": "@ + message@,
        }
    }

    /// The text of a failure.
    pub fn message(&self) -> (result: String)
        ensures
            result@ == self.text(),
    {
        match self {
            StreamFailure::Closed => "stream closed".to_owned(),
            StreamFailure::Gateway { code, message } => {
                let mut result = code.clone();
                result.append(": ");
                result.append(message.as_str());
                result
            },
        }
    }
}

/// Why a connection is closed.
#[derive(Debug, Clone, PartialEq, Eq)]
pub enum CloseReason {
    UnencryptedControl,
    GatewayClosed,
    FrameRefused(FrameError),
    OutboundClosed,
    Disconnected,
    Stopped,
    ConfigReloaded,
}

impl CloseReason {
    /// The text of a reason.
    pub open spec fn text(self) -> Seq<char> {
        match self {
            CloseReason::UnencryptedControl => "received unencrypted websocket control frame"@,
            CloseReason::GatewayClosed => "gateway websocket closed"@,
            CloseReason::FrameRefused(error) => error.text(),
            CloseReason::OutboundClosed => "gateway outbound channel closed"@,
            CloseReason::Disconnected => "gateway disconnected"@,
            CloseReason::Stopped => "gateway connection stopped"@,
            CloseReason::ConfigReloaded => "access config reloaded"@,
        }
    }

    /// The text of a reason.
    pub fn message(&self) -> (result: String)
        ensures
            result@ == self.text(),
    {
        match self {
            CloseReason::UnencryptedControl => {
                "received unencrypted websocket control frame".to_owned()
            },
            CloseReason::GatewayClosed => "gateway websocket closed".to_owned(),
            CloseReason::FrameRefused(error) => error.message(),
            CloseReason::OutboundClosed => "gateway outbound channel closed".to_owned(),
            CloseReason::Disconnected => "gateway disconnected".to_owned(),
            CloseReason::Stopped => "gateway connection stopped".to_owned(),
            CloseReason::ConfigReloaded => "access config reloaded".to_owned(),
        }
    }
}

/// The state of a connection. Each table leads from a stream to its channel.
pub struct ConnectionState {
    /// Whether there is no session.
    pub closed: bool,
    /// Whether the connection is not to be made again.
    pub stopped: bool,
    /// Whether the connection is to be made again at once.
    pub reconnect_requested: bool,
    /// The number of the next stream.
    pub next_stream: u64,
    /// Open TCP streams.
    pub tcp_streams: Map<u64, u64>,
    /// Streams that wait to be opened.
    pub open_waiters: Map<u64, u64>,
    /// Requests that wait for a whole response.
    pub http_waiters: Map<u64, u64>,
    /// Requests that wait for the head of a response.
    pub http_head_waiters: Map<u64, u64>,
    /// Responses whose body is under way.
    pub http_body_streams: Map<u64, u64>,
}

/// A step that the caller takes for a message of the gateway.
#[allow(inconsistent_fields)]
pub enum Delivery {
    /// Tells the one who opened a stream how it went.
    Opened { channel: u64, result: Result<(), StreamFailure> },
    /// Hands over a response, or tells that none comes.
    Responded { channel: u64, result: Result<HttpResponsePayload, StreamFailure> },
    /// Hands over the head of a response, or tells that none comes.
    HeadArrived { channel: u64, result: Result<HttpResponseHead, StreamFailure> },
    /// The body of a response breaks off.
    BodyFailed { channel: u64, failure: StreamFailure },
    /// The body of a response is complete.
    BodyEnded { channel: u64 },
    /// No more data comes for a TCP stream.
    TcpEnded { channel: u64 },
    /// Answers a heartbeat.
    SendPong,
    /// The gateway reports an error that belongs to no stream.
    GatewayError { failure: StreamFailure },
    /// The gateway sent a message that it should not.
    Unexpected,
}

/// Tells the one who opened a stream how it went, where someone waits.
pub open spec fn to_opener(
    waiters: Map<u64, u64>,
    stream_id: u64,
    result: Result<(), StreamFailure>,
) -> Seq<Delivery> {
    match waiters.get(stream_id) {
        Some(channel) => seq![Delivery::Opened { channel, result }],
        None => Seq::empty(),
    }
}

/// Hands over a response, where someone waits.
pub open spec fn to_requester(
    waiters: Map<u64, u64>,
    stream_id: u64,
    result: Result<HttpResponsePayload, StreamFailure>,
) -> Seq<Delivery> {
    match waiters.get(stream_id) {
        Some(channel) => seq![Delivery::Responded { channel, result }],
        None => Seq::empty(),
    }
}

/// Hands over the head of a response, where someone waits.
pub open spec fn to_head_waiter(
    waiters: Map<u64, u64>,
    stream_id: u64,
    result: Result<HttpResponseHead, StreamFailure>,
) -> Seq<Delivery> {
    match waiters.get(stream_id) {
        Some(channel) => seq![Delivery::HeadArrived { channel, result }],
        None => Seq::empty(),
    }
}

/// Breaks off the body of a response, where one is under way.
pub open spec fn to_body(
    bodies: Map<u64, u64>,
    stream_id: u64,
    failure: StreamFailure,
) -> Seq<Delivery> {
    match bodies.get(stream_id) {
        Some(channel) => seq![Delivery::BodyFailed { channel, failure }],
        None => Seq::empty(),
    }
}

/// Completes the body of a response, where one is under way.
pub open spec fn end_of_body(bodies: Map<u64, u64>, stream_id: u64) -> Seq<Delivery> {
    match bodies.get(stream_id) {
        Some(channel) => seq![Delivery::BodyEnded { channel }],
        None => Seq::empty(),
    }
}

/// Ends a TCP stream, where there is one.
pub open spec fn end_of_tcp(streams: Map<u64, u64>, stream_id: u64) -> Seq<Delivery> {
    match streams.get(stream_id) {
        Some(channel) => seq![Delivery::TcpEnded { channel }],
        None => Seq::empty(),
    }
}

/// What is to be done for a message of the gateway.
pub open spec fn deliveries(state: ConnectionState, message: Message) -> Seq<Delivery> {
    match message {
        Message::OpenOk { stream_id } => to_opener(state.open_waiters, stream_id, Ok(())),
        Message::HttpResponse { stream_id, response } => to_requester(
            state.http_waiters,
            stream_id,
            Ok(response),
        ),
        Message::HttpResponseStart { stream_id, response } => to_head_waiter(
            state.http_head_waiters,
            stream_id,
            Ok(response),
        ),
        Message::HttpResponseEnd { stream_id } => end_of_body(state.http_body_streams, stream_id),
        Message::Close { stream_id, reason: _ } => end_of_tcp(state.tcp_streams, stream_id)
            + to_head_waiter(state.http_head_waiters, stream_id, Err(StreamFailure::Closed))
            + to_body(state.http_body_streams, stream_id, StreamFailure::Closed) + to_opener(
            state.open_waiters,
            stream_id,
            Err(StreamFailure::Closed),
        ) + to_requester(state.http_waiters, stream_id, Err(StreamFailure::Closed)),
        Message::TcpEof { stream_id } => end_of_tcp(state.tcp_streams, stream_id),
        Message::Error { stream_id: Some(stream_id), code, message } => {
            let failure = StreamFailure::Gateway { code, message };
            to_opener(state.open_waiters, stream_id, Err(failure)) + to_requester(
                state.http_waiters,
                stream_id,
                Err(failure),
            ) + to_head_waiter(state.http_head_waiters, stream_id, Err(failure)) + to_body(
                state.http_body_streams,
                stream_id,
                failure,
            )
        },
        Message::Error { stream_id: None, code, message } => {
            seq![Delivery::GatewayError { failure: StreamFailure::Gateway { code, message } }]
        },
        Message::Ping => seq![Delivery::SendPong],
        Message::Pong => Seq::empty(),
        _ => seq![Delivery::Unexpected],
    }
}

/// The state after a message of the gateway: whoever was served waits no longer.
pub open spec fn after_message(state: ConnectionState, message: Message) -> ConnectionState {
    match message {
        Message::OpenOk { stream_id } => ConnectionState {
            open_waiters: state.open_waiters.remove(stream_id),
            ..state
        },
        Message::HttpResponse { stream_id, response: _ } => ConnectionState {
            http_waiters: state.http_waiters.remove(stream_id),
            ..state
        },
        Message::HttpResponseStart { stream_id, response: _ } => ConnectionState {
            http_head_waiters: state.http_head_waiters.remove(stream_id),
            ..state
        },
        Message::HttpResponseEnd { stream_id } => ConnectionState {
            http_body_streams: state.http_body_streams.remove(stream_id),
            ..state
        },
        Message::Close { stream_id, reason: _ } => ConnectionState {
            tcp_streams: state.tcp_streams.remove(stream_id),
            open_waiters: state.open_waiters.remove(stream_id),
            http_waiters: state.http_waiters.remove(stream_id),
            http_head_waiters: state.http_head_waiters.remove(stream_id),
            http_body_streams: state.http_body_streams.remove(stream_id),
            ..state
        },
        Message::TcpEof { stream_id } => ConnectionState {
            tcp_streams: state.tcp_streams.remove(stream_id),
            ..state
        },
        Message::Error { stream_id: Some(stream_id), code: _, message: _ } => ConnectionState {
            open_waiters: state.open_waiters.remove(stream_id),
            http_waiters: state.http_waiters.remove(stream_id),
            http_head_waiters: state.http_head_waiters.remove(stream_id),
            http_body_streams: state.http_body_streams.remove(stream_id),
            ..state
        },
        _ => state,
    }
}

/// What was waiting on a connection when it was closed: streams and their channels.
pub struct ClosedStreams {
    pub tcp_streams: Vec<(u64, u64)>,
    pub open_waiters: Vec<(u64, u64)>,
    pub http_waiters: Vec<(u64, u64)>,
    pub http_head_waiters: Vec<(u64, u64)>,
    pub http_body_streams: Vec<(u64, u64)>,
    /// Whether to wake up the task that connects again.
    pub reconnect: bool,
}

/// The state of a connection that was just closed.
pub open spec fn closed_state(state: ConnectionState) -> ConnectionState {
    if state.closed {
        state
    } else {
        ConnectionState {
            closed: true,
            stopped: state.stopped,
            reconnect_requested: state.reconnect_requested || !state.stopped,
            next_stream: state.next_stream,
            tcp_streams: Map::empty(),
            open_waiters: Map::empty(),
            http_waiters: Map::empty(),
            http_head_waiters: Map::empty(),
            http_body_streams: Map::empty(),
        }
    }
}

/// What closing a connection does: nothing where it is closed already; else everything
/// that waits is listed and waits no longer.
pub open spec fn closes(
    before: ConnectionState,
    after: ConnectionState,
    result: Option<ClosedStreams>,
) -> bool {
    &&& after == closed_state(before)
    &&& match result {
        None => before.closed,
        Some(streams) => {
            &&& !before.closed
            &&& stream_table::lists(streams.tcp_streams@, before.tcp_streams)
            &&& stream_table::lists(streams.open_waiters@, before.open_waiters)
            &&& stream_table::lists(streams.http_waiters@, before.http_waiters)
            &&& stream_table::lists(streams.http_head_waiters@, before.http_head_waiters)
            &&& stream_table::lists(streams.http_body_streams@, before.http_body_streams)
            &&& streams.reconnect == !before.stopped
        },
    }
}

/// What the caller does with a frame of the gateway.
#[allow(inconsistent_fields)]
pub enum FrameStep {
    /// The connection was closed; the session ends.
    Close { reason: CloseReason, streams: Option<ClosedStreams> },
    /// A control message, still to be decoded.
    Text(String),
    /// A control message that is no text.
    Undecodable,
    /// Data for the body of a response.
    Body { stream_id: StreamId, channel: u64, payload: Vec<u8> },
    /// Data for a TCP stream.
    Tcp { stream_id: StreamId, channel: u64, payload: DataFramePayload },
    /// Data for a stream that is not known.
    UnknownStream { stream_id: StreamId },
    /// Data without a header.
    InvalidData { len: usize },
}

/// Why a frame of the gateway closes the connection, if it does.
pub open spec fn close_reason(
    direction: tunnel_crypto::DirectionState,
    frame: batch::WsContent,
    shown: String,
) -> Option<CloseReason> {
    match frame {
        batch::WsContent::Ping(_) => Some(CloseReason::UnencryptedControl),
        batch::WsContent::Pong(_) => Some(CloseReason::UnencryptedControl),
        batch::WsContent::Close => Some(CloseReason::GatewayClosed),
        _ => match frames::unsealed(direction, Peer::Gateway, frame, shown) {
            Ok(_) => None,
            Err(error) => Some(CloseReason::FrameRefused(error)),
        },
    }
}

/// What is to be done with the data that a frame of the gateway decrypts to.
pub open spec fn is_data_step(state: ConnectionState, data: Seq<u8>, step: FrameStep) -> bool {
    match message::decoded_data_frame(data) {
        None => step == (FrameStep::InvalidData { len: data.len() as usize }),
        Some(decoded) => if state.http_body_streams.contains_key(decoded.0) {
            step matches FrameStep::Body { stream_id, channel, payload } && stream_id == decoded.0
                && channel == state.http_body_streams[decoded.0] && payload@ == decoded.1
        } else if state.tcp_streams.contains_key(decoded.0) {
            step matches FrameStep::Tcp { stream_id, channel, payload } && stream_id == decoded.0
                && channel == state.tcp_streams[decoded.0] && payload@ == decoded.1
        } else {
            step == (FrameStep::UnknownStream { stream_id: decoded.0 })
        },
    }
}

/// What is to be done with a frame of the gateway that decrypts.
pub open spec fn is_open_step(
    state: ConnectionState,
    opened: (TunnelFrameKind, Seq<u8>),
    step: FrameStep,
) -> bool {
    match opened.0 {
        TunnelFrameKind::Text => if vstd::utf8::valid_utf8(opened.1) {
            step matches FrameStep::Text(text) && text@ == vstd::utf8::decode_utf8(opened.1)
        } else {
            step == FrameStep::Undecodable
        },
        TunnelFrameKind::Binary => is_data_step(state, opened.1, step),
    }
}

/// How the wait for a stream to be opened ended.
pub enum OpenOutcome {
    Opened,
    Refused(StreamFailure),
    Lost(CloseReason),
    Abandoned,
    TimedOut,
}

/// Why a stream was not opened.
#[derive(Debug, PartialEq, Eq)]
pub enum OpenError {
    Refused(StreamFailure),
    Lost(CloseReason),
    Abandoned,
    TimedOut,
}

impl OpenError {
    /// The text of an error.
    pub open spec fn text(self) -> Seq<char> {
        match self {
            OpenError::Refused(failure) => "gateway error "@ + failure.text(),
            OpenError::Lost(reason) => "gateway error "@ + reason.text(),
            OpenError::Abandoned => "gateway open waiter canceled"@,
            OpenError::TimedOut => "gateway open timeout"@,
        }
    }

    /// The text of an error.
    pub fn message(&self) -> (result: String)
        ensures
            result@ == self.text(),
    {
        match self {
            OpenError::Refused(failure) => {
                let mut result = "gateway error ".to_owned();
                result.append(failure.message().as_str());
                result
            },
            OpenError::Lost(reason) => {
                let mut result = "gateway error ".to_owned();
                result.append(reason.message().as_str());
                result
            },
            OpenError::Abandoned => "gateway open waiter canceled".to_owned(),
            OpenError::TimedOut => "gateway open timeout".to_owned(),
        }
    }
}

/// The message that closes a stream for a reason.
pub open spec fn is_close(message: Message, stream_id: StreamId, reason: Seq<char>) -> bool {
    message matches Message::Close { stream_id: closed, reason: said } && closed == stream_id
        && said@ == reason
}

/// The message that closes a stream for a reason.
pub(crate) fn close_message(stream_id: StreamId, reason: &str) -> (message: Message)
    ensures
        is_close(message, stream_id, reason@),
{
    Message::Close { stream_id, reason: reason.to_owned() }
}

/// The access end of a connection.
pub struct GatewayConnection {
    closed: bool,
    stopped: bool,
    reconnect_requested: bool,
    next_stream: u64,
    tcp_streams: StreamTable,
    open_waiters: StreamTable,
    http_waiters: StreamTable,
    http_head_waiters: StreamTable,
    http_body_streams: StreamTable,
}

impl GatewayConnection {
    /// The state of the connection.
    pub closed spec fn view(&self) -> ConnectionState {
        ConnectionState {
            closed: self.closed,
            stopped: self.stopped,
            reconnect_requested: self.reconnect_requested,
            next_stream: self.next_stream,
            tcp_streams: stream_table::entries(self.tcp_streams),
            open_waiters: stream_table::entries(self.open_waiters),
            http_waiters: stream_table::entries(self.http_waiters),
            http_head_waiters: stream_table::entries(self.http_head_waiters),
            http_body_streams: stream_table::entries(self.http_body_streams),
        }
    }

    /// A connection that has no session yet.
    pub fn new() -> (connection: Self)
        ensures
            connection@ == (ConnectionState {
                closed: true,
                stopped: false,
                reconnect_requested: false,
                next_stream: 1,
                tcp_streams: Map::empty(),
                open_waiters: Map::empty(),
                http_waiters: Map::empty(),
                http_head_waiters: Map::empty(),
                http_body_streams: Map::empty(),
            }),
    {
        GatewayConnection {
            closed: true,
            stopped: false,
            reconnect_requested: false,
            next_stream: 1,
            tcp_streams: stream_table::new_table(),
            open_waiters: stream_table::new_table(),
            http_waiters: stream_table::new_table(),
            http_head_waiters: stream_table::new_table(),
            http_body_streams: stream_table::new_table(),
        }
    }

    /// Whether there is a session; `outbound_closed` says whether its outbound channel is
    /// gone.
    pub fn ensure_gateway_open(&self, outbound_closed: bool) -> (result: Result<(), CloseReason>)
        ensures
            result == if self@.closed || outbound_closed {
                Err::<(), CloseReason>(CloseReason::Disconnected)
            } else {
                Ok(())
            },
    {
        if self.closed || outbound_closed {
            return Err(CloseReason::Disconnected);
        }
        Ok(())
    }

    /// Whether the connection is not to be made again.
    pub fn is_stopped(&self) -> (result: bool)
        ensures
            result == self@.stopped,
    {
        self.stopped
    }

    /// A session was established.
    pub fn mark_connected(&mut self)
        ensures
            final(self)@ == (ConnectionState { closed: false, ..old(self)@ }),
    {
        self.closed = false;
    }

    /// The connection is not to be made again.
    pub fn mark_stopped(&mut self)
        ensures
            final(self)@ == (ConnectionState { stopped: true, ..old(self)@ }),
    {
        self.stopped = true;
    }

    /// Asks for the connection to be made again, unless it is stopped. Says whether to wake
    /// up the task that does it.
    pub fn request_gateway_reconnect(&mut self) -> (wake: bool)
        ensures
            wake == !old(self)@.stopped,
            final(self)@ == (ConnectionState {
                reconnect_requested: old(self)@.reconnect_requested || !old(self)@.stopped,
                ..old(self)@
            }),
    {
        if !self.stopped {
            self.reconnect_requested = true;
        }
        !self.stopped
    }

    /// Takes the request to connect again, if there is one.
    pub fn take_reconnect_request(&mut self) -> (requested: bool)
        ensures
            requested == old(self)@.reconnect_requested,
            final(self)@ == (ConnectionState { reconnect_requested: false, ..old(self)@ }),
    {
        let requested = self.reconnect_requested;
        self.reconnect_requested = false;
        requested
    }

    /// Why the session ends when the task that runs it is woken up, if it does.
    pub fn session_interrupted(&self) -> (result: Option<&'static str>)
        ensures
            match result {
                Some(reason) => reason@ == if self@.stopped {
                    "gateway connection stopped"@
                } else {
                    "gateway reconnect requested"@
                },
                None => true,
            },
            result is Some <==> self@.stopped || self@.reconnect_requested,
    {
        if self.stopped {
            return Some("gateway connection stopped");
        }
        if self.reconnect_requested {
            return Some("gateway reconnect requested");
        }
        None
    }

    /// The number of a new stream.
    pub fn next_stream_id(&mut self) -> (stream_id: StreamId)
        ensures
            stream_id == old(self)@.next_stream,
            final(self)@ == (ConnectionState {
                next_stream: old(self)@.next_stream.wrapping_add(1),
                ..old(self)@
            }),
    {
        let stream_id: u64 = self.next_stream;
        self.next_stream = stream_id.wrapping_add(1);
        stream_id
    }

    /// Closes the connection and lists what was waiting on it.
    pub fn close_gateway_connection(&mut self) -> (result: Option<ClosedStreams>)
        ensures
            closes(old(self)@, final(self)@, result),
    {
        if self.closed {
            return None;
        }
        self.closed = true;
        let reconnect = self.request_gateway_reconnect();
        let tcp_streams = stream_table::drain(&mut self.tcp_streams);
        let open_waiters = stream_table::drain(&mut self.open_waiters);
        let http_waiters = stream_table::drain(&mut self.http_waiters);
        let http_head_waiters = stream_table::drain(&mut self.http_head_waiters);
        let http_body_streams = stream_table::drain(&mut self.http_body_streams);
        Some(
            ClosedStreams {
                tcp_streams,
                open_waiters,
                http_waiters,
                http_head_waiters,
                http_body_streams,
                reconnect,
            },
        )
    }

    /// Registers a TCP stream that is to be opened.
    pub fn begin_stream(&mut self, stream_id: StreamId, open_channel: u64, data_channel: u64)
        ensures
            final(self)@ == (ConnectionState {
                open_waiters: old(self)@.open_waiters.insert(stream_id, open_channel),
                tcp_streams: old(self)@.tcp_streams.insert(stream_id, data_channel),
                ..old(self)@
            }),
    {
        let _ = stream_table::insert(&mut self.open_waiters, stream_id, open_channel);
        let _ = stream_table::insert(&mut self.tcp_streams, stream_id, data_channel);
    }

    /// Forgets a TCP stream whose opening could not be sent.
    pub fn abandon_stream(&mut self, stream_id: StreamId)
        ensures
            final(self)@ == (ConnectionState {
                open_waiters: old(self)@.open_waiters.remove(stream_id),
                tcp_streams: old(self)@.tcp_streams.remove(stream_id),
                ..old(self)@
            }),
    {
        let _ = stream_table::remove(&mut self.open_waiters, stream_id);
        let _ = stream_table::remove(&mut self.tcp_streams, stream_id);
    }

    /// Takes note of how the wait for a stream to be opened ended. Where it was not opened
    /// the stream is forgotten, and where that is because the wait took too long the
    /// gateway is told so by the message.
    pub fn open_finished(&mut self, stream_id: StreamId, outcome: OpenOutcome) -> (result: Result<
        (),
        (OpenError, Option<Message>),
    >)
        ensures
            match outcome {
                OpenOutcome::Opened => result is Ok && final(self)@ == old(self)@,
                OpenOutcome::Refused(failure) => {
                    &&& result == Err::<(), (OpenError, Option<Message>)>(
                        (OpenError::Refused(failure), None),
                    )
                    &&& final(self)@ == (ConnectionState {
                        tcp_streams: old(self)@.tcp_streams.remove(stream_id),
                        ..old(self)@
                    })
                },
                OpenOutcome::Lost(reason) => {
                    &&& result == Err::<(), (OpenError, Option<Message>)>(
                        (OpenError::Lost(reason), None),
                    )
                    &&& final(self)@ == (ConnectionState {
                        tcp_streams: old(self)@.tcp_streams.remove(stream_id),
                        ..old(self)@
                    })
                },
                OpenOutcome::Abandoned => {
                    &&& result == Err::<(), (OpenError, Option<Message>)>(
                        (OpenError::Abandoned, None),
                    )
                    &&& final(self)@ == (ConnectionState {
                        tcp_streams: old(self)@.tcp_streams.remove(stream_id),
                        ..old(self)@
                    })
                },
                OpenOutcome::TimedOut => {
                    &&& result matches Err((error, Some(message))) && error == OpenError::TimedOut
                        && is_close(message, stream_id, "open_timeout"@)
                    &&& final(self)@ == (ConnectionState {
                        open_waiters: old(self)@.open_waiters.remove(stream_id),
                        tcp_streams: old(self)@.tcp_streams.remove(stream_id),
                        ..old(self)@
                    })
                },
            },
    {
        match outcome {
            OpenOutcome::Opened => Ok(()),
            OpenOutcome::Refused(failure) => {
                let _ = stream_table::remove(&mut self.tcp_streams, stream_id);
                Err((OpenError::Refused(failure), None))
            },
            OpenOutcome::Lost(reason) => {
                let _ = stream_table::remove(&mut self.tcp_streams, stream_id);
                Err((OpenError::Lost(reason), None))
            },
            OpenOutcome::Abandoned => {
                let _ = stream_table::remove(&mut self.tcp_streams, stream_id);
                Err((OpenError::Abandoned, None))
            },
            OpenOutcome::TimedOut => {
                let _ = stream_table::remove(&mut self.open_waiters, stream_id);
                let _ = stream_table::remove(&mut self.tcp_streams, stream_id);
                Err((OpenError::TimedOut, Some(close_message(stream_id, "open_timeout"))))
            },
        }
    }

    /// Forgets a TCP stream whose forwarding ended, well or not, and gives the message that
    /// tells the gateway so.
    pub fn finish_stream(&mut self, stream_id: StreamId, ok: bool) -> (message: Message)
        ensures
            final(self)@ == (ConnectionState {
                tcp_streams: old(self)@.tcp_streams.remove(stream_id),
                ..old(self)@
            }),
            is_close(
                message,
                stream_id,
                if ok {
                    "local_closed"@
                } else {
                    "local_error"@
                },
            ),
    {
        let _ = stream_table::remove(&mut self.tcp_streams, stream_id);
        if ok {
            close_message(stream_id, "local_closed")
        } else {
            close_message(stream_id, "local_error")
        }
    }

    /// Registers a request that waits for a whole response.
    pub fn begin_request(&mut self, stream_id: StreamId, channel: u64)
        ensures
            final(self)@ == (ConnectionState {
                http_waiters: old(self)@.http_waiters.insert(stream_id, channel),
                ..old(self)@
            }),
    {
        let _ = stream_table::insert(&mut self.http_waiters, stream_id, channel);
    }

    /// Registers a request that waits for the head of a response, and then for its body.
    pub fn begin_streamed_request(
        &mut self,
        stream_id: StreamId,
        head_channel: u64,
        body_channel: u64,
    )
        ensures
            final(self)@ == (ConnectionState {
                http_head_waiters: old(self)@.http_head_waiters.insert(stream_id, head_channel),
                http_body_streams: old(self)@.http_body_streams.insert(stream_id, body_channel),
                ..old(self)@
            }),
    {
        let _ = stream_table::insert(&mut self.http_head_waiters, stream_id, head_channel);
        let _ = stream_table::insert(&mut self.http_body_streams, stream_id, body_channel);
    }

    /// Forgets a request that could not be sent or is no longer wanted.
    pub fn abandon_request(&mut self, stream_id: StreamId)
        ensures
            final(self)@ == (ConnectionState {
                http_waiters: old(self)@.http_waiters.remove(stream_id),
                http_head_waiters: old(self)@.http_head_waiters.remove(stream_id),
                http_body_streams: old(self)@.http_body_streams.remove(stream_id),
                ..old(self)@
            }),
    {
        let _ = stream_table::remove(&mut self.http_waiters, stream_id);
        let _ = stream_table::remove(&mut self.http_head_waiters, stream_id);
        let _ = stream_table::remove(&mut self.http_body_streams, stream_id);
    }

    /// Forgets the body of a response that nobody takes, and gives the message that tells
    /// the gateway so.
    pub fn body_refused(&mut self, stream_id: StreamId) -> (message: Message)
        ensures
            final(self)@ == (ConnectionState {
                http_body_streams: old(self)@.http_body_streams.remove(stream_id),
                ..old(self)@
            }),
            is_close(message, stream_id, "local_backpressure"@),
    {
        let _ = stream_table::remove(&mut self.http_body_streams, stream_id);
        close_message(stream_id, "local_backpressure")
    }

    /// Forgets a TCP stream whose data nobody takes, and gives the message that tells the
    /// gateway so.
    pub fn data_refused(&mut self, stream_id: StreamId) -> (message: Message)
        ensures
            final(self)@ == (ConnectionState {
                tcp_streams: old(self)@.tcp_streams.remove(stream_id),
                ..old(self)@
            }),
            is_close(message, stream_id, "local_backpressure"@),
    {
        let _ = stream_table::remove(&mut self.tcp_streams, stream_id);
        close_message(stream_id, "local_backpressure")
    }

    /// Takes note of a frame of the gateway and says what to do with it. A reason shows a frame
    /// that is not encrypted as given.
    pub fn handle_gateway_frame(
        &mut self,
        cipher: &mut TunnelCipher,
        frame: WsMessage,
        shown: String,
    ) -> (step: FrameStep)
        ensures
            final(cipher)@.access_to_gateway == old(cipher)@.access_to_gateway,
            final(cipher)@.gateway_to_access == frames::after_unseal(
                old(cipher)@.gateway_to_access,
                Peer::Gateway,
                frame@,
            ),
            match close_reason(old(cipher)@.gateway_to_access, frame@, shown) {
                Some(reason) => {
                    step matches FrameStep::Close { reason: given, streams } && given == reason
                        && closes(old(self)@, final(self)@, streams)
                },
                None => {
                    &&& final(self)@ == old(self)@
                    &&& is_open_step(
                        old(self)@,
                        frames::unsealed(
                            old(cipher)@.gateway_to_access,
                            Peer::Gateway,
                            frame@,
                            shown,
                        )->Ok_0,
                        step,
                    )
                },
            },
    {
        match &frame {
            WsMessage::Ping(_) | WsMessage::Pong(_) => {
                return FrameStep::Close {
                    reason: CloseReason::UnencryptedControl,
                    streams: self.close_gateway_connection(),
                };
            },
            WsMessage::Close => {
                return FrameStep::Close {
                    reason: CloseReason::GatewayClosed,
                    streams: self.close_gateway_connection(),
                };
            },
            _ => {},
        }
        match decrypt_gateway_frame(cipher, frame, shown) {
            Err(error) => FrameStep::Close {
                reason: CloseReason::FrameRefused(error),
                streams: self.close_gateway_connection(),
            },
            Ok((TunnelFrameKind::Text, bytes)) => match text_from_utf8(bytes) {
                Ok(text) => FrameStep::Text(text),
                Err(_) => FrameStep::Undecodable,
            },
            Ok((TunnelFrameKind::Binary, bytes)) => {
                let len: usize = bytes.len();
                match decode_data_frame_owned(bytes) {
                    None => FrameStep::InvalidData { len },
                    Some((stream_id, payload)) => {
                        match stream_table::get(&self.http_body_streams, stream_id) {
                            Some(channel) => {
                                return FrameStep::Body {
                                    stream_id,
                                    channel,
                                    payload: payload.into_vec(),
                                };
                            },
                            None => {},
                        }
                        match stream_table::get(&self.tcp_streams, stream_id) {
                            Some(channel) => FrameStep::Tcp { stream_id, channel, payload },
                            None => FrameStep::UnknownStream { stream_id },
                        }
                    },
                }
            },
        }
    }

    /// Takes a stream that waits to be opened off the table and tells the one who waits.
    fn tell_opener(
        &mut self,
        stream_id: StreamId,
        result: Result<(), StreamFailure>,
        steps: &mut Vec<Delivery>,
    )
        ensures
            final(self)@ == (ConnectionState {
                open_waiters: old(self)@.open_waiters.remove(stream_id),
                ..old(self)@
            }),
            final(steps)@ == old(steps)@ + to_opener(old(self)@.open_waiters, stream_id, result),
    {
        match stream_table::remove(&mut self.open_waiters, stream_id) {
            Some(channel) => steps.push(Delivery::Opened { channel, result }),
            None => {},
        }
        assert(steps@ =~= old(steps)@ + to_opener(old(self)@.open_waiters, stream_id, result));
    }

    /// Takes a request that waits for a response off the table and tells the one who waits.
    fn tell_requester(
        &mut self,
        stream_id: StreamId,
        result: Result<HttpResponsePayload, StreamFailure>,
        steps: &mut Vec<Delivery>,
    )
        ensures
            final(self)@ == (ConnectionState {
                http_waiters: old(self)@.http_waiters.remove(stream_id),
                ..old(self)@
            }),
            final(steps)@ == old(steps)@ + to_requester(
                old(self)@.http_waiters,
                stream_id,
                result,
            ),
    {
        match stream_table::remove(&mut self.http_waiters, stream_id) {
            Some(channel) => steps.push(Delivery::Responded { channel, result }),
            None => {},
        }
        assert(steps@ =~= old(steps)@ + to_requester(old(self)@.http_waiters, stream_id, result));
    }

    /// Takes a request that waits for the head of a response off the table and tells the
    /// one who waits.
    fn tell_head_waiter(
        &mut self,
        stream_id: StreamId,
        result: Result<HttpResponseHead, StreamFailure>,
        steps: &mut Vec<Delivery>,
    )
        ensures
            final(self)@ == (ConnectionState {
                http_head_waiters: old(self)@.http_head_waiters.remove(stream_id),
                ..old(self)@
            }),
            final(steps)@ == old(steps)@ + to_head_waiter(
                old(self)@.http_head_waiters,
                stream_id,
                result,
            ),
    {
        match stream_table::remove(&mut self.http_head_waiters, stream_id) {
            Some(channel) => steps.push(Delivery::HeadArrived { channel, result }),
            None => {},
        }
        assert(steps@ =~= old(steps)@ + to_head_waiter(
            old(self)@.http_head_waiters,
            stream_id,
            result,
        ));
    }

    /// Takes the body of a response off the table and breaks it off.
    fn break_body(
        &mut self,
        stream_id: StreamId,
        failure: StreamFailure,
        steps: &mut Vec<Delivery>,
    )
        ensures
            final(self)@ == (ConnectionState {
                http_body_streams: old(self)@.http_body_streams.remove(stream_id),
                ..old(self)@
            }),
            final(steps)@ == old(steps)@ + to_body(
                old(self)@.http_body_streams,
                stream_id,
                failure,
            ),
    {
        match stream_table::remove(&mut self.http_body_streams, stream_id) {
            Some(channel) => steps.push(Delivery::BodyFailed { channel, failure }),
            None => {},
        }
        assert(steps@ =~= old(steps)@ + to_body(
            old(self)@.http_body_streams,
            stream_id,
            failure,
        ));
    }

    /// Takes a TCP stream off the table and ends it.
    fn end_tcp(&mut self, stream_id: StreamId, steps: &mut Vec<Delivery>)
        ensures
            final(self)@ == (ConnectionState {
                tcp_streams: old(self)@.tcp_streams.remove(stream_id),
                ..old(self)@
            }),
            final(steps)@ == old(steps)@ + end_of_tcp(old(self)@.tcp_streams, stream_id),
    {
        match stream_table::remove(&mut self.tcp_streams, stream_id) {
            Some(channel) => steps.push(Delivery::TcpEnded { channel }),
            None => {},
        }
        assert(steps@ =~= old(steps)@ + end_of_tcp(old(self)@.tcp_streams, stream_id));
    }

    /// Takes note of a message of the gateway and says what to do for it.
    pub fn handle_gateway_message(&mut self, message: Message) -> (steps: Vec<Delivery>)
        ensures
            steps@ == deliveries(old(self)@, message),
            final(self)@ == after_message(old(self)@, message),
    {
        let ghost before = self@;
        let mut steps: Vec<Delivery> = Vec::new();
        match message {
            Message::OpenOk { stream_id } => {
                self.tell_opener(stream_id, Ok(()), &mut steps);
            },
            Message::HttpResponse { stream_id, response } => {
                self.tell_requester(stream_id, Ok(response), &mut steps);
            },
            Message::HttpResponseStart { stream_id, response } => {
                self.tell_head_waiter(stream_id, Ok(response), &mut steps);
            },
            Message::HttpResponseEnd { stream_id } => {
                match stream_table::remove(&mut self.http_body_streams, stream_id) {
                    Some(channel) => steps.push(Delivery::BodyEnded { channel }),
                    None => {},
                }
            },
            Message::Close { stream_id, reason: _ } => {
                self.end_tcp(stream_id, &mut steps);
                self.tell_head_waiter(stream_id, Err(StreamFailure::Closed), &mut steps);
                self.break_body(stream_id, StreamFailure::Closed, &mut steps);
                self.tell_opener(stream_id, Err(StreamFailure::Closed), &mut steps);
                self.tell_requester(stream_id, Err(StreamFailure::Closed), &mut steps);
            },
            Message::TcpEof { stream_id } => {
                self.end_tcp(stream_id, &mut steps);
            },
            Message::Error { stream_id, code, message } => {
                let failure = StreamFailure::Gateway { code, message };
                match stream_id {
                    Some(stream_id) => {
                        self.tell_opener(stream_id, Err(failure.clone()), &mut steps);
                        self.tell_requester(stream_id, Err(failure.clone()), &mut steps);
                        self.tell_head_waiter(stream_id, Err(failure.clone()), &mut steps);
                        self.break_body(stream_id, failure, &mut steps);
                    },
                    None => {
                        steps.push(Delivery::GatewayError { failure });
                    },
                }
            },
            Message::Ping => {
                steps.push(Delivery::SendPong);
            },
            Message::Pong => {},
            _ => {
                steps.push(Delivery::Unexpected);
            },
        }
        assert(steps@ =~= deliveries(before, message));
        steps
    }
}

/// Whether the gateway has been silent for too long.
pub fn idle_timed_out(idle_nanos: u128) -> (result: bool)
    ensures
        result == (idle_nanos > GATEWAY_READ_IDLE_TIMEOUT_NANOS),
{
    idle_nanos > GATEWAY_READ_IDLE_TIMEOUT_NANOS
}

/// How long to wait before the next attempt to connect.
pub struct ReconnectBackoff {
    retry_after: u64,
}

/// The wait after one more attempt: twice as long, up to the maximum.
pub open spec fn longer_wait(secs: u64) -> u64 {
    if 2 * secs < RETRY_MAX_SECS {
        (2 * secs) as u64
    } else {
        RETRY_MAX_SECS
    }
}

impl ReconnectBackoff {
    #[verifier::type_invariant]
    spec fn well_formed(self) -> bool {
        RETRY_MIN_SECS <= self.retry_after <= RETRY_MAX_SECS
    }

    /// The seconds to wait before the next attempt.
    pub closed spec fn secs(&self) -> u64 {
        self.retry_after
    }

    /// Before the first attempt.
    pub fn new() -> (backoff: Self)
        ensures
            backoff.secs() == RETRY_MIN_SECS,
    {
        ReconnectBackoff { retry_after: RETRY_MIN_SECS }
    }

    /// The seconds to wait now that an attempt or a session ended; after a session the
    /// waits begin anew.
    pub fn next_wait(&mut self, was_connected: bool) -> (secs: u64)
        ensures
            secs == if was_connected {
                RETRY_MIN_SECS
            } else {
                old(self).secs()
            },
            final(self).secs() == longer_wait(secs),
            RETRY_MIN_SECS <= secs <= RETRY_MAX_SECS,
    {
        proof {
            use_type_invariant(&*self);
        }
        let secs: u64 = if was_connected {
            RETRY_MIN_SECS
        } else {
            self.retry_after
        };
        let next: u64 = if 2 * secs < RETRY_MAX_SECS {
            2 * secs
        } else {
            RETRY_MAX_SECS
        };
        self.retry_after = next;
        secs
    }
}

/// What to do after a session ended or could not be established.
pub struct SessionEnd {
    /// What was waiting on the connection.
    pub streams: Option<ClosedStreams>,
    /// How many seconds to wait before the next attempt; `None` to connect at once.
    pub wait: Option<u64>,
}

/// Takes note that a session ended or could not be established. The connection is made
/// again at once where that was asked for, as it is when a session was lost.
pub fn session_ended(
    connection: &mut GatewayConnection,
    backoff: &mut ReconnectBackoff,
) -> (end: SessionEnd)
    ensures
        closes(old(connection)@, closed_state(old(connection)@), end.streams),
        final(connection)@ == (ConnectionState {
            reconnect_requested: false,
            ..closed_state(old(connection)@)
        }),
        match end.wait {
            None => closed_state(old(connection)@).reconnect_requested,
            Some(secs) => {
                &&& !closed_state(old(connection)@).reconnect_requested
                &&& secs == if old(connection)@.closed {
                    old(backoff).secs()
                } else {
                    RETRY_MIN_SECS
                }
            },
        },
        final(backoff).secs() == longer_wait(
            if old(connection)@.closed {
                old(backoff).secs()
            } else {
                RETRY_MIN_SECS
            },
        ),
{
    let was_connected = !connection.closed;
    let streams = connection.close_gateway_connection();
    let secs: u64 = backoff.next_wait(was_connected);
    let requested = connection.take_reconnect_request();
    SessionEnd {
        streams,
        wait: if requested {
            None
        } else {
            Some(secs)
        },
    }
}

/// The texts by which errors tell that there is no session.
pub open spec fn tells_disconnected(cause: Seq<char>) -> bool {
    ||| cause == "gateway disconnected"@
    ||| cause == "gateway websocket closed"@
    ||| cause == "gateway websocket write failed"@
    ||| cause == "gateway error gateway websocket closed"@
    ||| cause == "gateway error gateway websocket write failed"@
}

/// Whether one of the causes of an error is that there is no session.
pub open spec fn tell_disconnected(causes: Seq<String>) -> bool {
    exists|i: int| 0 <= i < causes.len() && tells_disconnected(#[trigger] causes[i]@)
}

/// Whether one of the causes of an error is that there is no session.
pub fn is_gateway_disconnected_error(causes: &Vec<String>) -> (result: bool)
    ensures
        result == exists|i: int| 0 <= i < causes@.len() && tells_disconnected(#[trigger] causes@[i]@),
        result == tell_disconnected(causes@),
{
    let mut i: usize = 0;
    while i < causes.len()
        invariant
            i <= causes@.len(),
            forall|j: int| 0 <= j < i ==> !tells_disconnected(#[trigger] causes@[j]@),
        decreases causes.len() - i,
    {
        let cause = causes[i].as_str();
        if text::same(cause, "gateway disconnected") || text::same(
            cause,
            "gateway websocket closed",
        ) || text::same(cause, "gateway websocket write failed") || text::same(
            cause,
            "gateway error gateway websocket closed",
        ) || text::same(cause, "gateway error gateway websocket write failed") {
            assert(tells_disconnected(causes@[i as int]@));
            return true;
        }
        i = i + 1;
    }
    false
}

/// Once a stream is closed nothing waits on it any more.
pub proof fn law_close_forgets_the_stream(state: ConnectionState, stream_id: u64, reason: String)
    ensures
        ({
            let after = after_message(state, Message::Close { stream_id, reason });
            &&& !after.tcp_streams.contains_key(stream_id)
            &&& !after.open_waiters.contains_key(stream_id)
            &&& !after.http_waiters.contains_key(stream_id)
            &&& !after.http_head_waiters.contains_key(stream_id)
            &&& !after.http_body_streams.contains_key(stream_id)
        }),
{
}

/// A message for one stream leaves all other streams as they were.
pub proof fn law_streams_are_independent(
    state: ConnectionState,
    message: Message,
    stream_id: u64,
    other: u64,
)
    requires
        other != stream_id,
        match message {
            Message::OpenOk { stream_id: id } => id == stream_id,
            Message::HttpResponse { stream_id: id, response: _ } => id == stream_id,
            Message::HttpResponseStart { stream_id: id, response: _ } => id == stream_id,
            Message::HttpResponseEnd { stream_id: id } => id == stream_id,
            Message::Close { stream_id: id, reason: _ } => id == stream_id,
            Message::TcpEof { stream_id: id } => id == stream_id,
            Message::Error { stream_id: id, code: _, message: _ } => id == Some(stream_id),
            _ => true,
        },
    ensures
        ({
            let after = after_message(state, message);
            &&& after.tcp_streams.get(other) == state.tcp_streams.get(other)
            &&& after.open_waiters.get(other) == state.open_waiters.get(other)
            &&& after.http_waiters.get(other) == state.http_waiters.get(other)
            &&& after.http_head_waiters.get(other) == state.http_head_waiters.get(other)
            &&& after.http_body_streams.get(other) == state.http_body_streams.get(other)
        }),
{
}

/// Nobody is forgotten: whoever waits no longer after a message of the gateway was told,
/// whatever the message.
pub proof fn law_nobody_is_forgotten(state: ConnectionState, message: Message, stream_id: u64)
    ensures
        ({
            let after = after_message(state, message);
            let steps = deliveries(state, message);
            &&& forall|channel: u64|
                state.open_waiters.get(stream_id) == Some(channel)
                    && !after.open_waiters.contains_key(stream_id) ==> exists|i: int|
                    0 <= i < steps.len() && (#[trigger] steps[i] matches Delivery::Opened {
                        channel: told,
                        result: _,
                    } && told == channel)
            &&& forall|channel: u64|
                state.http_waiters.get(stream_id) == Some(channel)
                    && !after.http_waiters.contains_key(stream_id) ==> exists|i: int|
                    0 <= i < steps.len() && (#[trigger] steps[i] matches Delivery::Responded {
                        channel: told,
                        result: _,
                    } && told == channel)
            &&& forall|channel: u64|
                state.http_head_waiters.get(stream_id) == Some(channel)
                    && !after.http_head_waiters.contains_key(stream_id) ==> exists|i: int|
                    0 <= i < steps.len() && (#[trigger] steps[i] matches Delivery::HeadArrived {
                        channel: told,
                        result: _,
                    } && told == channel)
            &&& forall|channel: u64|
                state.http_body_streams.get(stream_id) == Some(channel)
                    && !after.http_body_streams.contains_key(stream_id) ==> steps.contains(
                    Delivery::BodyEnded { channel },
                ) || exists|i: int|
                    0 <= i < steps.len() && (#[trigger] steps[i] matches Delivery::BodyFailed {
                        channel: told,
                        failure: _,
                    } && told == channel)
            &&& forall|channel: u64|
                state.tcp_streams.get(stream_id) == Some(channel)
                    && !after.tcp_streams.contains_key(stream_id) ==> steps.contains(
                    Delivery::TcpEnded { channel },
                )
        }),
{
    let steps = deliveries(state, message);
    match message {
        Message::OpenOk { stream_id: id } => {
            if state.open_waiters.contains_key(id) {
                assert(steps[0] is Opened);
            }
        },
        Message::HttpResponse { stream_id: id, response } => {
            if state.http_waiters.contains_key(id) {
                assert(steps[0] is Responded);
            }
        },
        Message::HttpResponseStart { stream_id: id, response } => {
            if state.http_head_waiters.contains_key(id) {
                assert(steps[0] is HeadArrived);
            }
        },
        Message::HttpResponseEnd { stream_id: id } => {
            if state.http_body_streams.contains_key(id) {
                assert(steps[0] is BodyEnded);
            }
        },
        Message::TcpEof { stream_id: id } => {
            if state.tcp_streams.contains_key(id) {
                assert(steps[0] is TcpEnded);
            }
        },
        Message::Close { stream_id: id, reason } => {
            let tcp = end_of_tcp(state.tcp_streams, id);
            let head = to_head_waiter(state.http_head_waiters, id, Err(StreamFailure::Closed));
            let body = to_body(state.http_body_streams, id, StreamFailure::Closed);
            let open = to_opener(state.open_waiters, id, Err(StreamFailure::Closed));
            if state.tcp_streams.contains_key(id) {
                assert(steps[0] == tcp[0]);
            }
            if state.http_head_waiters.contains_key(id) {
                assert(steps[tcp.len() as int] == head[0]);
            }
            if state.http_body_streams.contains_key(id) {
                assert(steps[(tcp.len() + head.len()) as int] == body[0]);
            }
            if state.open_waiters.contains_key(id) {
                assert(steps[(tcp.len() + head.len() + body.len()) as int] == open[0]);
            }
            if state.http_waiters.contains_key(id) {
                assert(steps.last() is Responded);
                assert(steps[steps.len() - 1] is Responded);
            }
        },
        Message::Error { stream_id: Some(id), code, message: text } => {
            let failure = StreamFailure::Gateway { code, message: text };
            let open = to_opener(state.open_waiters, id, Err(failure));
            let http = to_requester(state.http_waiters, id, Err(failure));
            let head = to_head_waiter(state.http_head_waiters, id, Err(failure));
            if state.open_waiters.contains_key(id) {
                assert(steps[0] == open[0]);
            }
            if state.http_waiters.contains_key(id) {
                assert(steps[open.len() as int] == http[0]);
            }
            if state.http_head_waiters.contains_key(id) {
                assert(steps[(open.len() + http.len()) as int] == head[0]);
            }
            if state.http_body_streams.contains_key(id) {
                assert(steps[steps.len() - 1] is BodyFailed);
            }
        },
        _ => {},
    }
}

/// Nobody is told twice: a message of the gateway that comes a second time concerns nobody.
pub proof fn law_nobody_is_told_twice(state: ConnectionState, message: Message)
    requires
        match message {
            Message::OpenOk { .. } => true,
            Message::HttpResponse { .. } => true,
            Message::HttpResponseStart { .. } => true,
            Message::HttpResponseEnd { .. } => true,
            Message::Close { .. } => true,
            Message::TcpEof { .. } => true,
            Message::Error { stream_id, .. } => stream_id is Some,
            _ => false,
        },
    ensures
        deliveries(after_message(state, message), message) == Seq::<Delivery>::empty(),
        after_message(after_message(state, message), message) == after_message(state, message),
{
    let after = after_message(state, message);
    assert(deliveries(after, message) =~= Seq::<Delivery>::empty());
    let again = after_message(after, message);
    assert(again.tcp_streams =~= after.tcp_streams);
    assert(again.open_waiters =~= after.open_waiters);
    assert(again.http_waiters =~= after.http_waiters);
    assert(again.http_head_waiters =~= after.http_head_waiters);
    assert(again.http_body_streams =~= after.http_body_streams);
}

/// A connection that is closed has nothing waiting on it, and closing it again changes
/// nothing.
pub proof fn law_closing_is_final(
    before: ConnectionState,
    after: ConnectionState,
    result: Option<ClosedStreams>,
)
    requires
        closes(before, after, result),
        result is Some,
    ensures
        after.closed,
        after.tcp_streams == Map::<u64, u64>::empty(),
        after.open_waiters == Map::<u64, u64>::empty(),
        after.http_waiters == Map::<u64, u64>::empty(),
        after.http_head_waiters == Map::<u64, u64>::empty(),
        after.http_body_streams == Map::<u64, u64>::empty(),
        closed_state(after) == after,
{
}

/// Whatever a frame of the gateway is that does not decrypt, it closes the connection: plain
/// text, ping, pong, raw and unencrypted or altered binary messages, and frames out of turn.
pub proof fn law_refused_frame_closes(
    direction: tunnel_crypto::DirectionState,
    frame: batch::WsContent,
    shown: String,
)
    requires
        frames::unsealed(direction, Peer::Gateway, frame, shown) is Err,
    ensures
        close_reason(direction, frame, shown) is Some,
{
}

/// Whether a message closes a stream.
pub open spec fn closes_stream(message: Message, stream_id: u64) -> bool {
    message matches Message::Close { stream_id: id, reason } && id == stream_id
}

/// Whether a message reports an error of a stream.
pub open spec fn fails_stream(message: Message, stream_id: u64) -> bool {
    message matches Message::Error { stream_id: id, code, message: text } && id == Some(stream_id)
}

/// A stream takes data until it is closed or its data ends, and whoever waits does so until a
/// message answers: no other message takes anything off the tables, and none puts anything
/// on.
pub proof fn law_only_answers_end_waiting(
    connection: &mut GatewayConnection,
    message: Message,
    steps: Vec<Delivery>,
    stream_id: u64,
)
    requires
        call_ensures(GatewayConnection::handle_gateway_message, (connection, message), steps),
    ensures
        ({
            let before = old(connection)@;
            let after = final(connection)@;
            let over = closes_stream(message, stream_id);
            let failed = over || fails_stream(message, stream_id);
            &&& after.tcp_streams.get(stream_id) == if over || message == (Message::TcpEof {
                stream_id,
            }) {
                None
            } else {
                before.tcp_streams.get(stream_id)
            }
            &&& after.open_waiters.get(stream_id) == if failed || message == (Message::OpenOk {
                stream_id,
            }) {
                None
            } else {
                before.open_waiters.get(stream_id)
            }
            &&& after.http_waiters.get(stream_id) == if failed || (
            message matches Message::HttpResponse { stream_id: id, response } && id == stream_id) {
                None
            } else {
                before.http_waiters.get(stream_id)
            }
            &&& after.http_head_waiters.get(stream_id) == if failed || (
            message matches Message::HttpResponseStart { stream_id: id, response } && id
                == stream_id) {
                None
            } else {
                before.http_head_waiters.get(stream_id)
            }
            &&& after.http_body_streams.get(stream_id) == if failed || message == (
            Message::HttpResponseEnd { stream_id }) {
                None
            } else {
                before.http_body_streams.get(stream_id)
            }
            &&& after.closed == before.closed
            &&& after.stopped == before.stopped
            &&& after.reconnect_requested == before.reconnect_requested
            &&& after.next_stream == before.next_stream
        }),
{
}

/// Whether a message of the gateway calls for a step: whoever waits is told what the message
/// says, and only a message that closes a stream or reports an error of it tells of a failure.
pub open spec fn calls_for(state: ConnectionState, message: Message, step: Delivery) -> bool {
    match step {
        Delivery::Opened { channel, result } => match message {
            Message::OpenOk { stream_id } => state.open_waiters.get(stream_id) == Some(channel)
                && result == Ok::<(), StreamFailure>(()),
            Message::Close { stream_id, reason } => state.open_waiters.get(stream_id) == Some(
                channel,
            ) && result == Err::<(), StreamFailure>(StreamFailure::Closed),
            Message::Error { stream_id, code, message } => stream_id is Some
                && state.open_waiters.get(stream_id->0) == Some(channel) && result == Err::<
                (),
                StreamFailure,
            >(StreamFailure::Gateway { code, message }),
            _ => false,
        },
        Delivery::Responded { channel, result } => match message {
            Message::HttpResponse { stream_id, response } => state.http_waiters.get(stream_id)
                == Some(channel) && result == Ok::<HttpResponsePayload, StreamFailure>(response),
            Message::Close { stream_id, reason } => state.http_waiters.get(stream_id) == Some(
                channel,
            ) && result == Err::<HttpResponsePayload, StreamFailure>(StreamFailure::Closed),
            Message::Error { stream_id, code, message } => stream_id is Some
                && state.http_waiters.get(stream_id->0) == Some(channel) && result == Err::<
                HttpResponsePayload,
                StreamFailure,
            >(StreamFailure::Gateway { code, message }),
            _ => false,
        },
        Delivery::HeadArrived { channel, result } => match message {
            Message::HttpResponseStart { stream_id, response } => state.http_head_waiters.get(
                stream_id,
            ) == Some(channel) && result == Ok::<HttpResponseHead, StreamFailure>(response),
            Message::Close { stream_id, reason } => state.http_head_waiters.get(stream_id) == Some(
                channel,
            ) && result == Err::<HttpResponseHead, StreamFailure>(StreamFailure::Closed),
            Message::Error { stream_id, code, message } => stream_id is Some
                && state.http_head_waiters.get(stream_id->0) == Some(channel) && result == Err::<
                HttpResponseHead,
                StreamFailure,
            >(StreamFailure::Gateway { code, message }),
            _ => false,
        },
        Delivery::BodyFailed { channel, failure } => match message {
            Message::Close { stream_id, reason } => state.http_body_streams.get(stream_id) == Some(
                channel,
            ) && failure == StreamFailure::Closed,
            Message::Error { stream_id, code, message } => stream_id is Some
                && state.http_body_streams.get(stream_id->0) == Some(channel) && failure == (
            StreamFailure::Gateway { code, message }),
            _ => false,
        },
        Delivery::BodyEnded { channel } => message matches Message::HttpResponseEnd { stream_id }
            && state.http_body_streams.get(stream_id) == Some(channel),
        Delivery::TcpEnded { channel } => match message {
            Message::TcpEof { stream_id } => state.tcp_streams.get(stream_id) == Some(channel),
            Message::Close { stream_id, reason } => state.tcp_streams.get(stream_id) == Some(
                channel,
            ),
            _ => false,
        },
        Delivery::SendPong => message is Ping,
        Delivery::GatewayError { failure } => message matches Message::Error {
            stream_id,
            code,
            message,
        } && stream_id is None && failure == (StreamFailure::Gateway { code, message }),
        Delivery::Unexpected => {
            ||| message is RegisterAccess
            ||| message is RegisterOk
            ||| message is Open
            ||| message is HttpRequest
            ||| message is HttpRequestStart
            ||| message is HttpRequestEnd
        },
    }
}

proof fn lemma_concat_contains(a: Seq<Delivery>, b: Seq<Delivery>, step: Delivery)
    ensures
        (a + b).contains(step) <==> a.contains(step) || b.contains(step),
{
    if a.contains(step) {
        let i = a.index_of(step);
        assert((a + b)[i] == step);
    }
    if b.contains(step) {
        let i = b.index_of(step);
        assert((a + b)[a.len() + i] == step);
    }
    if (a + b).contains(step) {
        let i = (a + b).index_of(step);
        if i < a.len() {
            assert(a[i] == step);
        } else {
            assert(b[i - a.len()] == step);
        }
    }
}

proof fn lemma_steps_of_waiters(state: ConnectionState, stream_id: u64, step: Delivery)
    ensures
        forall|result: Result<(), StreamFailure>|
            #[trigger] to_opener(state.open_waiters, stream_id, result).contains(step) <==> (
            step matches Delivery::Opened { channel, result: told } && told == result
                && state.open_waiters.get(stream_id) == Some(channel)),
        forall|result: Result<HttpResponsePayload, StreamFailure>|
            #[trigger] to_requester(state.http_waiters, stream_id, result).contains(step) <==> (
            step matches Delivery::Responded { channel, result: told } && told == result
                && state.http_waiters.get(stream_id) == Some(channel)),
        forall|result: Result<HttpResponseHead, StreamFailure>|
            #[trigger] to_head_waiter(state.http_head_waiters, stream_id, result).contains(step)
                <==> (step matches Delivery::HeadArrived { channel, result: told } && told
                == result && state.http_head_waiters.get(stream_id) == Some(channel)),
        forall|failure: StreamFailure|
            #[trigger] to_body(state.http_body_streams, stream_id, failure).contains(step) <==> (
            step matches Delivery::BodyFailed { channel, failure: told } && told == failure
                && state.http_body_streams.get(stream_id) == Some(channel)),
        end_of_body(state.http_body_streams, stream_id).contains(step) <==> (
        step matches Delivery::BodyEnded { channel } && state.http_body_streams.get(stream_id)
            == Some(channel)),
        end_of_tcp(state.tcp_streams, stream_id).contains(step) <==> (
        step matches Delivery::TcpEnded { channel } && state.tcp_streams.get(stream_id) == Some(
            channel,
        )),
{
    assert forall|result: Result<(), StreamFailure>|
        #[trigger] to_opener(state.open_waiters, stream_id, result).contains(step) <==> (
        step matches Delivery::Opened { channel, result: told } && told == result
            && state.open_waiters.get(stream_id) == Some(channel)) by {
        if state.open_waiters.contains_key(stream_id) {
            assert(to_opener(state.open_waiters, stream_id, result)[0] == (Delivery::Opened {
                channel: state.open_waiters[stream_id],
                result,
            }));
        }
    }
    assert forall|result: Result<HttpResponsePayload, StreamFailure>|
        #[trigger] to_requester(state.http_waiters, stream_id, result).contains(step) <==> (
        step matches Delivery::Responded { channel, result: told } && told == result
            && state.http_waiters.get(stream_id) == Some(channel)) by {
        if state.http_waiters.contains_key(stream_id) {
            assert(to_requester(state.http_waiters, stream_id, result)[0] == (Delivery::Responded {
                channel: state.http_waiters[stream_id],
                result,
            }));
        }
    }
    assert forall|result: Result<HttpResponseHead, StreamFailure>|
        #[trigger] to_head_waiter(state.http_head_waiters, stream_id, result).contains(step) <==> (
        step matches Delivery::HeadArrived { channel, result: told } && told == result
            && state.http_head_waiters.get(stream_id) == Some(channel)) by {
        if state.http_head_waiters.contains_key(stream_id) {
            assert(to_head_waiter(state.http_head_waiters, stream_id, result)[0] == (
            Delivery::HeadArrived { channel: state.http_head_waiters[stream_id], result }));
        }
    }
    assert forall|failure: StreamFailure|
        #[trigger] to_body(state.http_body_streams, stream_id, failure).contains(step) <==> (
        step matches Delivery::BodyFailed { channel, failure: told } && told == failure
            && state.http_body_streams.get(stream_id) == Some(channel)) by {
        if state.http_body_streams.contains_key(stream_id) {
            assert(to_body(state.http_body_streams, stream_id, failure)[0] == (
            Delivery::BodyFailed { channel: state.http_body_streams[stream_id], failure }));
        }
    }
    if state.http_body_streams.contains_key(stream_id) {
        assert(end_of_body(state.http_body_streams, stream_id)[0] == (Delivery::BodyEnded {
            channel: state.http_body_streams[stream_id],
        }));
    }
    if state.tcp_streams.contains_key(stream_id) {
        assert(end_of_tcp(state.tcp_streams, stream_id)[0] == (Delivery::TcpEnded {
            channel: state.tcp_streams[stream_id],
        }));
    }
}

proof fn lemma_concat_once(a: Seq<Delivery>, b: Seq<Delivery>)
    requires
        a.no_duplicates(),
        b.len() <= 1,
        b.len() == 1 ==> !a.contains(b[0]),
    ensures
        (a + b).no_duplicates(),
{
}

proof fn lemma_steps_for_close(state: ConnectionState, stream_id: u64, reason: String, step: Delivery)
    ensures
        deliveries(state, Message::Close { stream_id, reason }).contains(step) <==> calls_for(
            state,
            Message::Close { stream_id, reason },
            step,
        ),
{
    let tcp = end_of_tcp(state.tcp_streams, stream_id);
    let head = to_head_waiter(state.http_head_waiters, stream_id, Err(StreamFailure::Closed));
    let body = to_body(state.http_body_streams, stream_id, StreamFailure::Closed);
    let open = to_opener(state.open_waiters, stream_id, Err(StreamFailure::Closed));
    let http = to_requester(state.http_waiters, stream_id, Err(StreamFailure::Closed));
    lemma_steps_of_waiters(state, stream_id, step);
    lemma_concat_contains(tcp, head, step);
    lemma_concat_contains(tcp + head, body, step);
    lemma_concat_contains(tcp + head + body, open, step);
    lemma_concat_contains(tcp + head + body + open, http, step);
}

proof fn lemma_steps_for_error(
    state: ConnectionState,
    stream_id: u64,
    code: String,
    text: String,
    step: Delivery,
)
    ensures
        deliveries(
            state,
            Message::Error { stream_id: Some(stream_id), code, message: text },
        ).contains(step) <==> calls_for(
            state,
            Message::Error { stream_id: Some(stream_id), code, message: text },
            step,
        ),
{
    let failure = StreamFailure::Gateway { code, message: text };
    let open = to_opener(state.open_waiters, stream_id, Err(failure));
    let http = to_requester(state.http_waiters, stream_id, Err(failure));
    let head = to_head_waiter(state.http_head_waiters, stream_id, Err(failure));
    let body = to_body(state.http_body_streams, stream_id, failure);
    lemma_steps_of_waiters(state, stream_id, step);
    lemma_concat_contains(open, http, step);
    lemma_concat_contains(open + http, head, step);
    lemma_concat_contains(open + http + head, body, step);
}

proof fn lemma_each_step_once(state: ConnectionState, message: Message)
    ensures
        deliveries(state, message).no_duplicates(),
{
    match message {
        Message::Close { stream_id, reason } => {
            let tcp = end_of_tcp(state.tcp_streams, stream_id);
            let head = to_head_waiter(
                state.http_head_waiters,
                stream_id,
                Err(StreamFailure::Closed),
            );
            let body = to_body(state.http_body_streams, stream_id, StreamFailure::Closed);
            let open = to_opener(state.open_waiters, stream_id, Err(StreamFailure::Closed));
            let http = to_requester(state.http_waiters, stream_id, Err(StreamFailure::Closed));
            lemma_concat_once(tcp, head);
            lemma_concat_once(tcp + head, body);
            lemma_concat_once(tcp + head + body, open);
            lemma_concat_once(tcp + head + body + open, http);
        },
        Message::Error { stream_id: Some(stream_id), code, message: text } => {
            let failure = StreamFailure::Gateway { code, message: text };
            let open = to_opener(state.open_waiters, stream_id, Err(failure));
            let http = to_requester(state.http_waiters, stream_id, Err(failure));
            let head = to_head_waiter(state.http_head_waiters, stream_id, Err(failure));
            let body = to_body(state.http_body_streams, stream_id, failure);
            lemma_concat_once(open, http);
            lemma_concat_once(open + http, head);
            lemma_concat_once(open + http + head, body);
        },
        _ => {
            assert(deliveries(state, message).len() <= 1);
        },
    }
}

/// A message of the gateway leads to exactly the steps that it calls for, each once: whoever
/// waits on the stream is told what the message says, nobody else is told anything, and a
/// failure is told only where the stream is closed or an error of it reported.
pub proof fn law_messages_are_passed_on(
    connection: &mut GatewayConnection,
    message: Message,
    steps: Vec<Delivery>,
    step: Delivery,
)
    requires
        call_ensures(GatewayConnection::handle_gateway_message, (connection, message), steps),
    ensures
        steps@.contains(step) <==> calls_for(old(connection)@, message, step),
        steps@.no_duplicates(),
{
    let state = old(connection)@;
    let all = deliveries(state, message);
    lemma_each_step_once(state, message);
    match message {
        Message::Close { stream_id, reason } => {
            lemma_steps_for_close(state, stream_id, reason, step);
        },
        Message::Error { stream_id: Some(stream_id), code, message: text } => {
            lemma_steps_for_error(state, stream_id, code, text, step);
        },
        Message::OpenOk { stream_id } => {
            lemma_steps_of_waiters(state, stream_id, step);
        },
        Message::HttpResponse { stream_id, response } => {
            lemma_steps_of_waiters(state, stream_id, step);
        },
        Message::HttpResponseStart { stream_id, response } => {
            lemma_steps_of_waiters(state, stream_id, step);
        },
        Message::HttpResponseEnd { stream_id } => {
            lemma_steps_of_waiters(state, stream_id, step);
        },
        Message::TcpEof { stream_id } => {
            lemma_steps_of_waiters(state, stream_id, step);
        },
        _ => {
            if calls_for(state, message, step) {
                assert(all[0] == step);
            }
        },
    }
}

/// A frame that the gateway encrypted with the cipher of the session, in its turn.
pub open spec fn comes_from_gateway(
    gateway: tunnel_crypto::CipherState,
    access: tunnel_crypto::CipherState,
) -> bool {
    &&& gateway.gateway_to_access.key == access.gateway_to_access.key
    &&& gateway.gateway_to_access.prefix == access.gateway_to_access.prefix
    &&& gateway.gateway_to_access.next_send == access.gateway_to_access.next_receive
}

/// Data that the gateway sends for a stream goes to the stream it is for: to the channel of
/// the response body with that number, else to the channel of the TCP stream with that
/// number, whatever else waits; only where there is neither is it for nobody. The payload
/// arrives as it was sent, and the tables stay as they are.
pub proof fn law_data_reaches_its_stream(
    connection: &mut GatewayConnection,
    gateway: &mut TunnelCipher,
    access: &mut TunnelCipher,
    stream_id: u64,
    payload: &[u8],
    data: Vec<u8>,
    slice: &[u8],
    sealed: Vec<u8>,
    shown: String,
    step: FrameStep,
)
    requires
        call_ensures(message::encode_data_frame, (stream_id, payload), data),
        slice@ == data@,
        call_ensures(
            TunnelCipher::encrypt_from_gateway,
            (gateway, TunnelFrameKind::Binary, slice),
            Ok(sealed),
        ),
        comes_from_gateway(old(gateway)@, old(access)@),
        call_ensures(
            GatewayConnection::handle_gateway_frame,
            (connection, access, WsMessage::Binary(sealed), shown),
            step,
        ),
    ensures
        final(connection)@ == old(connection)@,
        old(connection)@.http_body_streams.get(stream_id) matches Some(expected) ==> (
        step matches FrameStep::Body { stream_id: id, channel, payload: bytes } && id == stream_id
            && channel == expected && bytes@ == payload@),
        !old(connection)@.http_body_streams.contains_key(stream_id) ==> match old(
            connection,
        )@.tcp_streams.get(stream_id) {
            Some(expected) => step matches FrameStep::Tcp {
                stream_id: id,
                channel,
                payload: bytes,
            } && id == stream_id && channel == expected && bytes@ == payload@,
            None => step == (FrameStep::UnknownStream { stream_id }),
        },
        comes_from_gateway(final(gateway)@, final(access)@),
{
    tunnel_crypto::law_decrypt_of_encrypt(
        old(gateway)@.gateway_to_access,
        final(gateway)@.gateway_to_access,
        old(access)@.gateway_to_access,
        frames::sender_label(Peer::Gateway),
        TunnelFrameKind::Binary,
        slice@,
        sealed,
    );
    message::law_decode_of_encode(stream_id, payload@);
}

/// A control message that the gateway sends arrives as it was sent, and the tables stay as
/// they are.
pub proof fn law_control_messages_arrive(
    connection: &mut GatewayConnection,
    gateway: &mut TunnelCipher,
    access: &mut TunnelCipher,
    text: String,
    slice: &[u8],
    sealed: Vec<u8>,
    shown: String,
    step: FrameStep,
)
    requires
        slice@ == vstd::utf8::encode_utf8(text@),
        call_ensures(
            TunnelCipher::encrypt_from_gateway,
            (gateway, TunnelFrameKind::Text, slice),
            Ok(sealed),
        ),
        comes_from_gateway(old(gateway)@, old(access)@),
        call_ensures(
            GatewayConnection::handle_gateway_frame,
            (connection, access, WsMessage::Binary(sealed), shown),
            step,
        ),
    ensures
        final(connection)@ == old(connection)@,
        step matches FrameStep::Text(arrived) && arrived@ == text@,
        comes_from_gateway(final(gateway)@, final(access)@),
{
    tunnel_crypto::law_decrypt_of_encrypt(
        old(gateway)@.gateway_to_access,
        final(gateway)@.gateway_to_access,
        old(access)@.gateway_to_access,
        frames::sender_label(Peer::Gateway),
        TunnelFrameKind::Text,
        slice@,
        sealed,
    );
    vstd::utf8::encode_utf8_valid_utf8(text@);
    vstd::utf8::encode_utf8_decode_utf8(text@);
}

/// Data that is too short for a stream number is for nobody, and a control message that is no
/// text is not decoded; neither closes the connection.
pub proof fn law_odd_frames_are_passed_over(
    connection: &mut GatewayConnection,
    gateway: &mut TunnelCipher,
    access: &mut TunnelCipher,
    kind: TunnelFrameKind,
    slice: &[u8],
    sealed: Vec<u8>,
    shown: String,
    step: FrameStep,
)
    requires
        call_ensures(TunnelCipher::encrypt_from_gateway, (gateway, kind, slice), Ok(sealed)),
        comes_from_gateway(old(gateway)@, old(access)@),
        call_ensures(
            GatewayConnection::handle_gateway_frame,
            (connection, access, WsMessage::Binary(sealed), shown),
            step,
        ),
    ensures
        final(connection)@ == old(connection)@,
        kind == TunnelFrameKind::Binary && slice@.len() < 8 ==> (
        step matches FrameStep::InvalidData { len } && len == slice@.len()),
        kind == TunnelFrameKind::Text && !vstd::utf8::valid_utf8(slice@) ==> step
            == FrameStep::Undecodable,
{
    tunnel_crypto::law_decrypt_of_encrypt(
        old(gateway)@.gateway_to_access,
        final(gateway)@.gateway_to_access,
        old(access)@.gateway_to_access,
        frames::sender_label(Peer::Gateway),
        kind,
        slice@,
        sealed,
    );
}

/// A message that is not encrypted closes the connection for a reason that fits it, and
/// everybody who waited is listed.
pub proof fn law_plain_messages_close(
    connection: &mut GatewayConnection,
    access: &mut TunnelCipher,
    frame: WsMessage,
    shown: String,
    step: FrameStep,
)
    requires
        call_ensures(
            GatewayConnection::handle_gateway_frame,
            (connection, access, frame, shown),
            step,
        ),
        frame !is Binary,
    ensures
        final(connection)@.closed,
        final(access)@ == old(access)@,
        step matches FrameStep::Close { reason, streams } && {
            &&& streams is Some <==> !old(connection)@.closed
            &&& reason == match frame {
                WsMessage::Ping(_) => CloseReason::UnencryptedControl,
                WsMessage::Pong(_) => CloseReason::UnencryptedControl,
                WsMessage::Close => CloseReason::GatewayClosed,
                _ => CloseReason::FrameRefused(
                    FrameError::Unencrypted { from: Peer::Gateway, shown },
                ),
            }
        },
{
}

/// A binary message that does not open under the session's key at the expected number closes
/// the connection, for the reason that decrypting it gives.
pub proof fn law_forged_frames_close(
    connection: &mut GatewayConnection,
    access: &mut TunnelCipher,
    frame: Vec<u8>,
    shown: String,
    step: FrameStep,
    other: &mut TunnelCipher,
    error: tunnel_crypto::TunnelError,
)
    requires
        call_ensures(
            GatewayConnection::handle_gateway_frame,
            (connection, access, WsMessage::Binary(frame), shown),
            step,
        ),
        *old(other) == *old(access),
        call_ensures(TunnelCipher::decrypt_from_gateway, (other, frame), Err(error)),
        frame@.len() < 29 || tunnel_crypto::opened(
            old(access)@.gateway_to_access,
            frames::sender_label(Peer::Gateway),
            old(access)@.gateway_to_access.next_receive,
            frame@,
        ) is None,
    ensures
        step matches FrameStep::Close { reason, streams } && reason == CloseReason::FrameRefused(
            FrameError::Tunnel(error),
        ),
        final(connection)@.closed,
        final(access)@ == old(access)@,
{
}

/// Closing a connection lists everybody who waits on it, with the channel, each once, and
/// nobody else; after that nobody waits. Unless it is stopped, it is to be made again. One
/// that is closed already stays as it is.
pub proof fn law_closing_tells_everybody(
    connection: &mut GatewayConnection,
    result: Option<ClosedStreams>,
    stream_id: u64,
    channel: u64,
)
    requires
        call_ensures(GatewayConnection::close_gateway_connection, (connection,), result),
    ensures
        result is None <==> old(connection)@.closed,
        result is None ==> final(connection)@ == old(connection)@,
        result matches Some(listed) ==> {
            let before = old(connection)@;
            let after = final(connection)@;
            &&& listed.tcp_streams@.contains((stream_id, channel))
                <==> before.tcp_streams.get(stream_id) == Some(channel)
            &&& listed.open_waiters@.contains((stream_id, channel))
                <==> before.open_waiters.get(stream_id) == Some(channel)
            &&& listed.http_waiters@.contains((stream_id, channel))
                <==> before.http_waiters.get(stream_id) == Some(channel)
            &&& listed.http_head_waiters@.contains((stream_id, channel))
                <==> before.http_head_waiters.get(stream_id) == Some(channel)
            &&& listed.http_body_streams@.contains((stream_id, channel))
                <==> before.http_body_streams.get(stream_id) == Some(channel)
            &&& listed.tcp_streams@.no_duplicates()
            &&& listed.open_waiters@.no_duplicates()
            &&& listed.http_waiters@.no_duplicates()
            &&& listed.http_head_waiters@.no_duplicates()
            &&& listed.http_body_streams@.no_duplicates()
            &&& listed.reconnect == !before.stopped
            &&& after.closed
            &&& !after.tcp_streams.contains_key(stream_id)
            &&& !after.open_waiters.contains_key(stream_id)
            &&& !after.http_waiters.contains_key(stream_id)
            &&& !after.http_head_waiters.contains_key(stream_id)
            &&& !after.http_body_streams.contains_key(stream_id)
            &&& after.stopped == before.stopped
            &&& !before.stopped ==> after.reconnect_requested
            &&& before.stopped ==> after.reconnect_requested == before.reconnect_requested
            &&& after.next_stream == before.next_stream
        },
{
    let before = old(connection)@;
    match result {
        Some(listed) => {
            stream_table::lemma_lists(
                listed.tcp_streams@,
                before.tcp_streams,
                stream_id,
                channel,
            );
            stream_table::lemma_lists(
                listed.open_waiters@,
                before.open_waiters,
                stream_id,
                channel,
            );
            stream_table::lemma_lists(
                listed.http_waiters@,
                before.http_waiters,
                stream_id,
                channel,
            );
            stream_table::lemma_lists(
                listed.http_head_waiters@,
                before.http_head_waiters,
                stream_id,
                channel,
            );
            stream_table::lemma_lists(
                listed.http_body_streams@,
                before.http_body_streams,
                stream_id,
                channel,
            );
        },
        None => {},
    }
}

/// From its beginning on a TCP stream takes the data for its number: when the gateway has
/// opened it, the one who opened it is told so, once, and data for its number still goes to
/// its channel.
pub proof fn law_opened_stream_takes_data(
    begun: &mut GatewayConnection,
    opened: &mut GatewayConnection,
    serving: &mut GatewayConnection,
    gateway: &mut TunnelCipher,
    access: &mut TunnelCipher,
    stream_id: u64,
    open_channel: u64,
    data_channel: u64,
    steps: Vec<Delivery>,
    payload: &[u8],
    data: Vec<u8>,
    slice: &[u8],
    sealed: Vec<u8>,
    shown: String,
    step: FrameStep,
)
    requires
        !old(begun)@.http_body_streams.contains_key(stream_id),
        call_ensures(
            GatewayConnection::begin_stream,
            (begun, stream_id, open_channel, data_channel),
            (),
        ),
        *old(opened) == *final(begun),
        call_ensures(
            GatewayConnection::handle_gateway_message,
            (opened, Message::OpenOk { stream_id }),
            steps,
        ),
        *old(serving) == *final(opened),
        call_ensures(message::encode_data_frame, (stream_id, payload), data),
        slice@ == data@,
        call_ensures(
            TunnelCipher::encrypt_from_gateway,
            (gateway, TunnelFrameKind::Binary, slice),
            Ok(sealed),
        ),
        comes_from_gateway(old(gateway)@, old(access)@),
        call_ensures(
            GatewayConnection::handle_gateway_frame,
            (serving, access, WsMessage::Binary(sealed), shown),
            step,
        ),
    ensures
        steps@ == seq![
            Delivery::Opened { channel: open_channel, result: Ok::<(), StreamFailure>(()) },
        ],
        step matches FrameStep::Tcp { stream_id: id, channel, payload: bytes } && id == stream_id
            && channel == data_channel && bytes@ == payload@,
{
    assert(steps@ =~= seq![
        Delivery::Opened { channel: open_channel, result: Ok::<(), StreamFailure>(()) },
    ]);
    law_data_reaches_its_stream(
        serving,
        gateway,
        access,
        stream_id,
        payload,
        data,
        slice,
        sealed,
        shown,
        step,
    );
}

/// A request gets the head of its response as the gateway sent it, whatever the status, then
/// the data for its number as the body, and then the end of the body.
pub proof fn law_response_reaches_its_request(
    begun: &mut GatewayConnection,
    answered: &mut GatewayConnection,
    serving: &mut GatewayConnection,
    ended: &mut GatewayConnection,
    gateway: &mut TunnelCipher,
    access: &mut TunnelCipher,
    stream_id: u64,
    head_channel: u64,
    body_channel: u64,
    response: HttpResponseHead,
    head_steps: Vec<Delivery>,
    payload: &[u8],
    data: Vec<u8>,
    slice: &[u8],
    sealed: Vec<u8>,
    shown: String,
    step: FrameStep,
    end_steps: Vec<Delivery>,
)
    requires
        call_ensures(
            GatewayConnection::begin_streamed_request,
            (begun, stream_id, head_channel, body_channel),
            (),
        ),
        *old(answered) == *final(begun),
        call_ensures(
            GatewayConnection::handle_gateway_message,
            (answered, Message::HttpResponseStart { stream_id, response }),
            head_steps,
        ),
        *old(serving) == *final(answered),
        call_ensures(message::encode_data_frame, (stream_id, payload), data),
        slice@ == data@,
        call_ensures(
            TunnelCipher::encrypt_from_gateway,
            (gateway, TunnelFrameKind::Binary, slice),
            Ok(sealed),
        ),
        comes_from_gateway(old(gateway)@, old(access)@),
        call_ensures(
            GatewayConnection::handle_gateway_frame,
            (serving, access, WsMessage::Binary(sealed), shown),
            step,
        ),
        *old(ended) == *final(serving),
        call_ensures(
            GatewayConnection::handle_gateway_message,
            (ended, Message::HttpResponseEnd { stream_id }),
            end_steps,
        ),
    ensures
        head_steps@ == seq![
            Delivery::HeadArrived {
                channel: head_channel,
                result: Ok::<HttpResponseHead, StreamFailure>(response),
            },
        ],
        step matches FrameStep::Body { stream_id: id, channel, payload: bytes } && id == stream_id
            && channel == body_channel && bytes@ == payload@,
        end_steps@ == seq![Delivery::BodyEnded { channel: body_channel }],
        !final(ended)@.http_body_streams.contains_key(stream_id),
        !final(ended)@.http_head_waiters.contains_key(stream_id),
{
    assert(head_steps@ =~= seq![
        Delivery::HeadArrived {
            channel: head_channel,
            result: Ok::<HttpResponseHead, StreamFailure>(response),
        },
    ]);
    law_data_reaches_its_stream(
        serving,
        gateway,
        access,
        stream_id,
        payload,
        data,
        slice,
        sealed,
        shown,
        step,
    );
    assert(end_steps@ =~= seq![Delivery::BodyEnded { channel: body_channel }]);
}

/// A request that waits for a whole response gets it as the gateway sent it.
pub proof fn law_whole_response_reaches_its_request(
    begun: &mut GatewayConnection,
    answered: &mut GatewayConnection,
    stream_id: u64,
    channel: u64,
    response: HttpResponsePayload,
    steps: Vec<Delivery>,
)
    requires
        call_ensures(GatewayConnection::begin_request, (begun, stream_id, channel), ()),
        *old(answered) == *final(begun),
        call_ensures(
            GatewayConnection::handle_gateway_message,
            (answered, Message::HttpResponse { stream_id, response }),
            steps,
        ),
    ensures
        steps@ == seq![
            Delivery::Responded {
                channel,
                result: Ok::<HttpResponsePayload, StreamFailure>(response),
            },
        ],
{
    assert(steps@ =~= seq![
        Delivery::Responded {
            channel,
            result: Ok::<HttpResponsePayload, StreamFailure>(response),
        },
    ]);
}

/// Whether two states differ at most in what they know of one stream.
pub open spec fn differ_in_stream_only(
    a: ConnectionState,
    b: ConnectionState,
    stream_id: u64,
) -> bool {
    &&& a.closed == b.closed
    &&& a.stopped == b.stopped
    &&& a.reconnect_requested == b.reconnect_requested
    &&& a.next_stream == b.next_stream
    &&& forall|other: u64|
        other != stream_id ==> {
            &&& #[trigger] a.tcp_streams.get(other) == b.tcp_streams.get(other)
            &&& a.open_waiters.get(other) == b.open_waiters.get(other)
            &&& a.http_waiters.get(other) == b.http_waiters.get(other)
            &&& a.http_head_waiters.get(other) == b.http_head_waiters.get(other)
            &&& a.http_body_streams.get(other) == b.http_body_streams.get(other)
        }
}

/// A stream or request that begins is known under its number with the channels that were
/// given, and nothing else changes.
pub proof fn law_beginnings(
    stream: &mut GatewayConnection,
    request: &mut GatewayConnection,
    streamed: &mut GatewayConnection,
    stream_id: u64,
    a: u64,
    b: u64,
)
    requires
        call_ensures(GatewayConnection::begin_stream, (stream, stream_id, a, b), ()),
        call_ensures(GatewayConnection::begin_request, (request, stream_id, a), ()),
        call_ensures(
            GatewayConnection::begin_streamed_request,
            (streamed, stream_id, a, b),
            (),
        ),
    ensures
        final(stream)@.open_waiters.get(stream_id) == Some(a),
        final(stream)@.tcp_streams.get(stream_id) == Some(b),
        final(request)@.http_waiters.get(stream_id) == Some(a),
        final(streamed)@.http_head_waiters.get(stream_id) == Some(a),
        final(streamed)@.http_body_streams.get(stream_id) == Some(b),
        differ_in_stream_only(old(stream)@, final(stream)@, stream_id),
        differ_in_stream_only(old(request)@, final(request)@, stream_id),
        differ_in_stream_only(old(streamed)@, final(streamed)@, stream_id),
        final(stream)@.http_body_streams == old(stream)@.http_body_streams,
        final(streamed)@.tcp_streams == old(streamed)@.tcp_streams,
{
}

/// What ends at the access is forgotten there, nothing else changes, and the gateway is told
/// why, under the number of the stream.
pub proof fn law_endings(
    finished: &mut GatewayConnection,
    body: &mut GatewayConnection,
    data: &mut GatewayConnection,
    abandoned: &mut GatewayConnection,
    withdrawn: &mut GatewayConnection,
    stream_id: u64,
    ok: bool,
    closed: Message,
    body_closed: Message,
    data_closed: Message,
)
    requires
        call_ensures(GatewayConnection::finish_stream, (finished, stream_id, ok), closed),
        call_ensures(GatewayConnection::body_refused, (body, stream_id), body_closed),
        call_ensures(GatewayConnection::data_refused, (data, stream_id), data_closed),
        call_ensures(GatewayConnection::abandon_stream, (abandoned, stream_id), ()),
        call_ensures(GatewayConnection::abandon_request, (withdrawn, stream_id), ()),
    ensures
        !final(finished)@.tcp_streams.contains_key(stream_id),
        !final(body)@.http_body_streams.contains_key(stream_id),
        !final(data)@.tcp_streams.contains_key(stream_id),
        !final(abandoned)@.tcp_streams.contains_key(stream_id),
        !final(abandoned)@.open_waiters.contains_key(stream_id),
        !final(withdrawn)@.http_waiters.contains_key(stream_id),
        !final(withdrawn)@.http_head_waiters.contains_key(stream_id),
        !final(withdrawn)@.http_body_streams.contains_key(stream_id),
        differ_in_stream_only(old(finished)@, final(finished)@, stream_id),
        differ_in_stream_only(old(body)@, final(body)@, stream_id),
        differ_in_stream_only(old(data)@, final(data)@, stream_id),
        differ_in_stream_only(old(abandoned)@, final(abandoned)@, stream_id),
        differ_in_stream_only(old(withdrawn)@, final(withdrawn)@, stream_id),
        closed matches Message::Close { stream_id: id, reason } && id == stream_id && (ok ==> reason@
            == "local_closed"@) && (!ok ==> reason@ == "local_error"@),
        body_closed matches Message::Close { stream_id: id, reason } && id == stream_id && reason@
            == "local_backpressure"@,
        data_closed matches Message::Close { stream_id: id, reason } && id == stream_id && reason@
            == "local_backpressure"@,
{
}

/// A stream that was opened stays; one that was not is forgotten and reported for what
/// happened. Only where the wait took too long is the gateway told, and an answer that comes
/// after that concerns nobody.
pub proof fn law_failed_opening(
    connection: &mut GatewayConnection,
    late: &mut GatewayConnection,
    stream_id: u64,
    outcome: OpenOutcome,
    result: Result<(), (OpenError, Option<Message>)>,
    steps: Vec<Delivery>,
)
    requires
        call_ensures(
            GatewayConnection::open_finished,
            (connection, stream_id, outcome),
            result,
        ),
        *old(late) == *final(connection),
        call_ensures(
            GatewayConnection::handle_gateway_message,
            (late, Message::OpenOk { stream_id }),
            steps,
        ),
    ensures
        result is Ok <==> outcome is Opened,
        result is Ok ==> final(connection)@ == old(connection)@,
        result is Err ==> !final(connection)@.tcp_streams.contains_key(stream_id),
        differ_in_stream_only(old(connection)@, final(connection)@, stream_id),
        match outcome {
            OpenOutcome::Opened => true,
            OpenOutcome::Refused(failure) => result->Err_0 == (
                OpenError::Refused(failure),
                None::<Message>,
            ),
            OpenOutcome::Lost(reason) => result->Err_0 == (
                OpenError::Lost(reason),
                None::<Message>,
            ),
            OpenOutcome::Abandoned => result->Err_0 == (OpenError::Abandoned, None::<Message>),
            OpenOutcome::TimedOut => {
                &&& result matches Err((error, Some(message))) && error == OpenError::TimedOut && (
                message matches Message::Close { stream_id: id, reason } && id == stream_id
                    && reason@ == "open_timeout"@)
                &&& steps@.len() == 0
            },
        },
{
}

/// Whether two states know the same of all streams.
pub open spec fn same_streams(a: ConnectionState, b: ConnectionState) -> bool {
    &&& a.tcp_streams == b.tcp_streams
    &&& a.open_waiters == b.open_waiters
    &&& a.http_waiters == b.http_waiters
    &&& a.http_head_waiters == b.http_head_waiters
    &&& a.http_body_streams == b.http_body_streams
}

/// The numbers of streams count up from 1.
pub proof fn law_stream_numbers(
    fresh: GatewayConnection,
    first: &mut GatewayConnection,
    connection: &mut GatewayConnection,
    next: &mut GatewayConnection,
    one: u64,
    a: u64,
    b: u64,
)
    requires
        call_ensures(GatewayConnection::new, (), fresh),
        *old(first) == fresh,
        call_ensures(GatewayConnection::next_stream_id, (first,), one),
        call_ensures(GatewayConnection::next_stream_id, (connection,), a),
        *old(next) == *final(connection),
        call_ensures(GatewayConnection::next_stream_id, (next,), b),
    ensures
        one == 1,
        a < u64::MAX ==> b == a + 1,
        a != b,
        same_streams(old(connection)@, final(connection)@),
        final(connection)@.closed == old(connection)@.closed,
        final(connection)@.stopped == old(connection)@.stopped,
        final(connection)@.reconnect_requested == old(connection)@.reconnect_requested,
        same_streams(
            fresh@,
            (ConnectionState {
                tcp_streams: Map::empty(),
                open_waiters: Map::empty(),
                http_waiters: Map::empty(),
                http_head_waiters: Map::empty(),
                http_body_streams: Map::empty(),
                ..fresh@
            }),
        ),
{
}

/// A connection is ready exactly if it has a session and its outbound channel is there; it
/// has none when it is new, has one once it is connected, and has none once it was closed.
pub proof fn law_readiness(
    fresh: GatewayConnection,
    connection: GatewayConnection,
    outbound_closed: bool,
    at_first: Result<(), CloseReason>,
    result: Result<(), CloseReason>,
    connected: &mut GatewayConnection,
    after: GatewayConnection,
    now: Result<(), CloseReason>,
)
    requires
        call_ensures(GatewayConnection::new, (), fresh),
        call_ensures(
            GatewayConnection::ensure_gateway_open,
            (&fresh, outbound_closed),
            at_first,
        ),
        call_ensures(
            GatewayConnection::ensure_gateway_open,
            (&connection, outbound_closed),
            result,
        ),
        call_ensures(GatewayConnection::mark_connected, (connected,), ()),
        after == *final(connected),
        call_ensures(GatewayConnection::ensure_gateway_open, (&after, false), now),
    ensures
        at_first is Err,
        outbound_closed || connection@.closed ==> result == Err::<(), CloseReason>(
            CloseReason::Disconnected,
        ),
        !outbound_closed && !connection@.closed ==> result is Ok,
        now is Ok,
        same_streams(old(connected)@, final(connected)@),
        final(connected)@.stopped == old(connected)@.stopped,
        final(connected)@.reconnect_requested == old(connected)@.reconnect_requested,
        final(connected)@.next_stream == old(connected)@.next_stream,
{
}

/// A connection that was stopped stays stopped: it is not asked to be made again, and the
/// session that runs is interrupted for that reason.
pub proof fn law_stopping(
    connection: &mut GatewayConnection,
    asked: &mut GatewayConnection,
    stopped: GatewayConnection,
    wake: bool,
    is_stopped: bool,
    interrupted: Option<&'static str>,
)
    requires
        call_ensures(GatewayConnection::mark_stopped, (connection,), ()),
        *old(asked) == *final(connection),
        call_ensures(GatewayConnection::request_gateway_reconnect, (asked,), wake),
        stopped == *final(asked),
        call_ensures(GatewayConnection::is_stopped, (&stopped,), is_stopped),
        call_ensures(GatewayConnection::session_interrupted, (&stopped,), interrupted),
    ensures
        !wake,
        is_stopped,
        final(asked)@ == old(asked)@,
        same_streams(old(connection)@, final(connection)@),
        final(connection)@.closed == old(connection)@.closed,
        final(connection)@.reconnect_requested == old(connection)@.reconnect_requested,
        final(connection)@.next_stream == old(connection)@.next_stream,
        interrupted matches Some(reason) && reason@ == "gateway connection stopped"@,
{
}

/// A request to connect again wakes up the task that does it, interrupts the session, and is
/// taken once.
pub proof fn law_reconnect_request(
    connection: &mut GatewayConnection,
    taking: &mut GatewayConnection,
    again: &mut GatewayConnection,
    asked: GatewayConnection,
    wake: bool,
    interrupted: Option<&'static str>,
    first: bool,
    second: bool,
)
    requires
        !old(connection)@.stopped,
        call_ensures(GatewayConnection::request_gateway_reconnect, (connection,), wake),
        asked == *final(connection),
        call_ensures(GatewayConnection::session_interrupted, (&asked,), interrupted),
        *old(taking) == *final(connection),
        call_ensures(GatewayConnection::take_reconnect_request, (taking,), first),
        *old(again) == *final(taking),
        call_ensures(GatewayConnection::take_reconnect_request, (again,), second),
    ensures
        wake,
        interrupted matches Some(reason) && reason@ == "gateway reconnect requested"@,
        first,
        !second,
        same_streams(old(connection)@, final(taking)@),
        final(taking)@.closed == old(connection)@.closed,
        final(taking)@.stopped == old(connection)@.stopped,
        final(taking)@.next_stream == old(connection)@.next_stream,
{
}

/// A session is interrupted only where the connection was stopped or is to be made again.
pub proof fn law_session_goes_on(connection: GatewayConnection, interrupted: Option<&'static str>)
    requires
        call_ensures(GatewayConnection::session_interrupted, (&connection,), interrupted),
        !connection@.stopped,
        !connection@.reconnect_requested,
    ensures
        interrupted is None,
{
}

/// The waits between attempts: one second at first and after every session, each one after a
/// failed attempt twice as long as the one before, and none longer than thirty seconds.
pub proof fn law_waits_double(
    fresh: ReconnectBackoff,
    start: &mut ReconnectBackoff,
    backoff: &mut ReconnectBackoff,
    next: &mut ReconnectBackoff,
    was_connected: bool,
    first: u64,
    a: u64,
    b: u64,
    lost: &mut ReconnectBackoff,
    c: u64,
)
    requires
        call_ensures(ReconnectBackoff::new, (), fresh),
        *old(start) == fresh,
        call_ensures(ReconnectBackoff::next_wait, (start, false), first),
        call_ensures(ReconnectBackoff::next_wait, (backoff, was_connected), a),
        *old(next) == *final(backoff),
        call_ensures(ReconnectBackoff::next_wait, (next, false), b),
        call_ensures(ReconnectBackoff::next_wait, (lost, true), c),
    ensures
        first == 1,
        b == if 2 * a <= 30 {
            2 * a
        } else {
            30
        },
        1 <= a <= 30,
        c == 1,
{
}

/// A session that was lost is made again at once, an attempt that failed after the wait whose
/// turn it is, unless a request came meanwhile; whoever waited is listed, nobody waits after
/// that, and the request is used up.
pub proof fn law_session_ended(
    connection: &mut GatewayConnection,
    backoff: &mut ReconnectBackoff,
    end: SessionEnd,
    stream_id: u64,
    channel: u64,
)
    requires
        call_ensures(session_ended, (connection, backoff), end),
    ensures
        ({
            let before = old(connection)@;
            let after = final(connection)@;
            &&& after.closed
            &&& !after.reconnect_requested
            &&& after.stopped == before.stopped
            &&& end.wait is None <==> before.reconnect_requested || (!before.closed
                && !before.stopped)
            &&& before.closed && end.wait is Some ==> end.wait == Some(old(backoff).secs())
            &&& !before.closed && end.wait is Some ==> end.wait == Some(1u64)
            &&& end.streams is Some <==> !before.closed
            &&& before.closed ==> same_streams(before, after)
            &&& after.next_stream == before.next_stream
            &&& ({
                let waited: int = if before.closed {
                    old(backoff).secs() as int
                } else {
                    1
                };
                final(backoff).secs() as int == if 2 * waited <= 30 {
                    2 * waited
                } else {
                    30
                }
            })
            &&& end.streams matches Some(listed) ==> {
                &&& listed.tcp_streams@.contains((stream_id, channel))
                    <==> before.tcp_streams.get(stream_id) == Some(channel)
                &&& listed.open_waiters@.contains((stream_id, channel))
                    <==> before.open_waiters.get(stream_id) == Some(channel)
                &&& listed.http_waiters@.contains((stream_id, channel))
                    <==> before.http_waiters.get(stream_id) == Some(channel)
                &&& listed.http_head_waiters@.contains((stream_id, channel))
                    <==> before.http_head_waiters.get(stream_id) == Some(channel)
                &&& listed.http_body_streams@.contains((stream_id, channel))
                    <==> before.http_body_streams.get(stream_id) == Some(channel)
                &&& !after.tcp_streams.contains_key(stream_id)
                &&& !after.open_waiters.contains_key(stream_id)
                &&& !after.http_waiters.contains_key(stream_id)
                &&& !after.http_head_waiters.contains_key(stream_id)
                &&& !after.http_body_streams.contains_key(stream_id)
            }
        }),
{
    let before = old(connection)@;
    match end.streams {
        Some(listed) => {
            stream_table::lemma_lists(
                listed.tcp_streams@,
                before.tcp_streams,
                stream_id,
                channel,
            );
            stream_table::lemma_lists(
                listed.open_waiters@,
                before.open_waiters,
                stream_id,
                channel,
            );
            stream_table::lemma_lists(
                listed.http_waiters@,
                before.http_waiters,
                stream_id,
                channel,
            );
            stream_table::lemma_lists(
                listed.http_head_waiters@,
                before.http_head_waiters,
                stream_id,
                channel,
            );
            stream_table::lemma_lists(
                listed.http_body_streams@,
                before.http_body_streams,
                stream_id,
                channel,
            );
        },
        None => {},
    }
}

/// The gateway counts as lost after more than 75 seconds of silence; heartbeats go out every
/// 20 seconds, and a new stream waits 10 seconds for the connection and for its opening.
pub proof fn law_times(idle_nanos: u128, result: bool)
    requires
        call_ensures(idle_timed_out, (idle_nanos,), result),
    ensures
        result == (idle_nanos > 75 * 1_000_000_000),
        GATEWAY_PING_INTERVAL_SECS == 20,
        GATEWAY_READY_TIMEOUT_SECS == 10,
        STREAM_OPEN_TIMEOUT_SECS == 10,
{
}

/// An error tells that there is no session exactly if one of its causes is one of these.
pub proof fn law_disconnected_errors(causes: &Vec<String>, result: bool)
    requires
        call_ensures(is_gateway_disconnected_error, (causes,), result),
    ensures
        result == exists|i: int|
            0 <= i < causes@.len() && ({
                let cause = (#[trigger] causes@[i])@;
                ||| cause == "gateway disconnected"@
                ||| cause == "gateway websocket closed"@
                ||| cause == "gateway websocket write failed"@
                ||| cause == "gateway error gateway websocket closed"@
                ||| cause == "gateway error gateway websocket write failed"@
            }),
{
    if result {
        let i = choose|i: int|
            0 <= i < causes@.len() && tells_disconnected(#[trigger] causes@[i]@);
        assert(tells_disconnected(causes@[i]@));
    }
    assert forall|i: int|
        0 <= i < causes@.len() && tells_disconnected((#[trigger] causes@[i])@) implies result by {
        assert(tells_disconnected(causes@[i]@));
    }
}

/// What failures, reasons and errors of opening a stream are told as.
pub proof fn law_texts(
    failure: StreamFailure,
    reason: CloseReason,
    error: OpenError,
    of_failure: String,
    of_reason: String,
    of_error: String,
)
    requires
        call_ensures(StreamFailure::message, (&failure,), of_failure),
        call_ensures(CloseReason::message, (&reason,), of_reason),
        call_ensures(OpenError::message, (&error,), of_error),
    ensures
        failure matches StreamFailure::Gateway { code, message } ==> of_failure@ == code@ + ": "@
            + message@,
        failure is Closed ==> of_failure@ == "stream closed"@,
        reason is UnencryptedControl ==> of_reason@
            == "received unencrypted websocket control frame"@,
        reason is GatewayClosed ==> of_reason@ == "gateway websocket closed"@,
        reason is OutboundClosed ==> of_reason@ == "gateway outbound channel closed"@,
        reason is Disconnected ==> of_reason@ == "gateway disconnected"@,
        reason is Stopped ==> of_reason@ == "gateway connection stopped"@,
        reason is ConfigReloaded ==> of_reason@ == "access config reloaded"@,
        error == OpenError::Refused(failure) ==> of_error@ == "gateway error "@ + of_failure@,
        error == OpenError::Lost(reason) ==> of_error@ == "gateway error "@ + of_reason@,
        error is Abandoned ==> of_error@ == "gateway open waiter canceled"@,
        error is TimedOut ==> of_error@ == "gateway open timeout"@,
{
}

} // verus!
