//! The gateway end of a tunnel connection: its streams, what the messages of the access do
//! to them, and how they are cancelled.
//!
//! Every TCP stream and every request gets a handle of its own. Callers keep the channel
//! and the cancellation of a stream under its handle.

use crate::access;
use crate::access::close_message;
use crate::batch;
use crate::batch::WsMessage;
use crate::config::TargetConfig;
use crate::frames;
use crate::frames::{decrypt_access_frame, text_from_utf8, FrameError, Peer};
use crate::message;
use crate::message::{
    decode_data_frame_owned, DataFramePayload, HttpRequestHead, HttpRequestPayload,
    HttpResponseHead, HttpResponsePayload, Message, Mode, StreamId,
};
use crate::stream_table;
use crate::stream_table::StreamTable;
use crate::text;
use crate::tunnel_crypto;
use crate::tunnel_crypto::{TunnelCipher, TunnelFrameKind};
use vstd::prelude::*;

verus! {

/// Seconds between two heartbeats.
pub const ACCESS_PING_INTERVAL_SECS: u64 = 20;

/// Nanoseconds without a frame of the access after which the connection counts as lost.
pub const ACCESS_READ_IDLE_TIMEOUT_NANOS: u128 = 75_000_000_000;

/// Whether the access has been silent for too long.
pub fn idle_timed_out(idle_nanos: u128) -> (result: bool)
    ensures
        result == (idle_nanos > ACCESS_READ_IDLE_TIMEOUT_NANOS),
{
    idle_nanos > ACCESS_READ_IDLE_TIMEOUT_NANOS
}

/// The state of a connection. Each table but the last leads from a stream to its handle.
pub struct SessionState {
    /// TCP streams that take data.
    pub streams: Map<u64, u64>,
    /// Requests that take data for their body.
    pub http_bodies: Map<u64, u64>,
    /// Streams and requests that a message can close.
    pub cancels: Map<u64, u64>,
    /// Streams and requests that go on though their number was given to another: from
    /// their handle to the number.
    pub superseded: Map<u64, u64>,
    /// The next handle.
    pub next_handle: u64,
}

/// A step that the caller takes for a message of the access.
#[allow(inconsistent_fields)]
pub enum GatewayAction {
    /// Refuses a stream whose target has another mode.
    RefuseMode { stream_id: StreamId, expected: Mode },
    /// Connects to a TCP target and forwards.
    StartTcp { stream_id: StreamId, handle: u64, target: String, config: TargetConfig },
    /// Sends a request whose body is complete and answers with a complete response.
    StartRequest {
        stream_id: StreamId,
        handle: u64,
        config: TargetConfig,
        request: HttpRequestPayload,
    },
    /// Sends a request whose body comes in data frames and passes the response on as it
    /// comes.
    StartStreamedRequest {
        stream_id: StreamId,
        handle: u64,
        config: TargetConfig,
        request: HttpRequestHead,
    },
    /// No more data comes for a TCP stream.
    EndTcp { handle: u64 },
    /// The body of a request is complete.
    EndBody { handle: u64 },
    /// Cancels a stream or a request.
    Cancel { handle: u64 },
    /// Answers a heartbeat.
    SendPong,
    /// The access sent a message that it should not.
    Unexpected,
}

/// Cancels the stream under a number, where there is one.
pub open spec fn cancel_step(cancels: Map<u64, u64>, stream_id: u64) -> Seq<GatewayAction> {
    match cancels.get(stream_id) {
        Some(handle) => seq![GatewayAction::Cancel { handle }],
        None => Seq::empty(),
    }
}

/// Ends the data for a TCP stream, where there is one.
pub open spec fn end_tcp_step(streams: Map<u64, u64>, stream_id: u64) -> Seq<GatewayAction> {
    match streams.get(stream_id) {
        Some(handle) => seq![GatewayAction::EndTcp { handle }],
        None => Seq::empty(),
    }
}

/// Ends the body of a request, where there is one.
pub open spec fn end_body_step(bodies: Map<u64, u64>, stream_id: u64) -> Seq<GatewayAction> {
    match bodies.get(stream_id) {
        Some(handle) => seq![GatewayAction::EndBody { handle }],
        None => Seq::empty(),
    }
}

/// The streams that go on though their number was given to another, after the number of a
/// stream was given out.
pub open spec fn superseded_by(state: SessionState, stream_id: u64) -> Map<u64, u64> {
    match state.cancels.get(stream_id) {
        Some(handle) => state.superseded.insert(handle, stream_id),
        None => state.superseded,
    }
}

/// What is to be done for a message of the access. A stream goes on where its number is used
/// again; the body of a request is then complete.
pub open spec fn actions(state: SessionState, message: Message) -> Seq<GatewayAction> {
    match message {
        Message::Open { stream_id, target, config } => if config.mode != Mode::Tcp {
            seq![GatewayAction::RefuseMode { stream_id, expected: Mode::Tcp }]
        } else {
            seq![GatewayAction::StartTcp { stream_id, handle: state.next_handle, target, config }]
        },
        Message::HttpRequest { stream_id, target: _, config, request } => if config.mode
            != Mode::Http {
            seq![GatewayAction::RefuseMode { stream_id, expected: Mode::Http }]
        } else {
            seq![
                GatewayAction::StartRequest {
                    stream_id,
                    handle: state.next_handle,
                    config,
                    request,
                },
            ]
        },
        Message::HttpRequestStart { stream_id, target: _, config, request } => if config.mode
            != Mode::Http {
            seq![GatewayAction::RefuseMode { stream_id, expected: Mode::Http }]
        } else {
            end_body_step(state.http_bodies, stream_id).push(
                GatewayAction::StartStreamedRequest {
                    stream_id,
                    handle: state.next_handle,
                    config,
                    request,
                },
            )
        },
        Message::HttpRequestEnd { stream_id } => end_body_step(state.http_bodies, stream_id),
        Message::Close { stream_id, reason: _ } => end_tcp_step(state.streams, stream_id)
            + end_body_step(state.http_bodies, stream_id) + cancel_step(state.cancels, stream_id),
        Message::TcpEof { stream_id } => end_tcp_step(state.streams, stream_id),
        Message::Ping => seq![GatewayAction::SendPong],
        Message::Pong => Seq::empty(),
        _ => seq![GatewayAction::Unexpected],
    }
}

/// The state after a message of the access.
pub open spec fn after_message(state: SessionState, message: Message) -> SessionState {
    match message {
        Message::Open { stream_id, target: _, config } => if config.mode != Mode::Tcp {
            state
        } else {
            SessionState {
                cancels: state.cancels.insert(stream_id, state.next_handle),
                superseded: superseded_by(state, stream_id),
                next_handle: state.next_handle.wrapping_add(1),
                ..state
            }
        },
        Message::HttpRequest { stream_id, target: _, config, request: _ } => if config.mode
            != Mode::Http {
            state
        } else {
            SessionState {
                cancels: state.cancels.insert(stream_id, state.next_handle),
                superseded: superseded_by(state, stream_id),
                next_handle: state.next_handle.wrapping_add(1),
                ..state
            }
        },
        Message::HttpRequestStart { stream_id, target: _, config, request: _ } => if config.mode
            != Mode::Http {
            state
        } else {
            SessionState {
                http_bodies: state.http_bodies.insert(stream_id, state.next_handle),
                cancels: state.cancels.insert(stream_id, state.next_handle),
                superseded: superseded_by(state, stream_id),
                next_handle: state.next_handle.wrapping_add(1),
                ..state
            }
        },
        Message::HttpRequestEnd { stream_id } => SessionState {
            http_bodies: state.http_bodies.remove(stream_id),
            ..state
        },
        Message::Close { stream_id, reason: _ } => SessionState {
            streams: state.streams.remove(stream_id),
            http_bodies: state.http_bodies.remove(stream_id),
            cancels: state.cancels.remove(stream_id),
            ..state
        },
        Message::TcpEof { stream_id } => SessionState {
            streams: state.streams.remove(stream_id),
            ..state
        },
        _ => state,
    }
}

/// The state after a stream has finished: all that could be cancelled before still can be,
/// but for that stream itself.
pub open spec fn after_finish(state: SessionState, stream_id: u64, handle: u64) -> SessionState {
    SessionState {
        cancels: if state.cancels.get(stream_id) == Some(handle) {
            state.cancels.remove(stream_id)
        } else {
            state.cancels
        },
        superseded: state.superseded.remove(handle),
        ..state
    }
}

/// What the caller does with a frame of the access.
#[allow(inconsistent_fields)]
pub enum GatewayStep {
    /// The access closed the connection; the session ends.
    Ended,
    /// The frame is not acceptable; the session ends.
    Refused(FrameError),
    /// The frame holds a text that is not valid UTF-8; the session ends.
    NotUtf8 { explanation: String },
    /// A control message, still to be decoded.
    Text(String),
    /// Data for the body of a request.
    Body { stream_id: StreamId, handle: u64, payload: Vec<u8> },
    /// Data for a TCP stream.
    Tcp { stream_id: StreamId, handle: u64, payload: DataFramePayload },
    /// Data for a stream that is not known.
    UnknownStream { stream_id: StreamId },
    /// Data without a header.
    InvalidData { len: usize },
}

/// What is to be done with the data that a frame of the access decrypts to.
pub open spec fn is_data_step(state: SessionState, data: Seq<u8>, step: GatewayStep) -> bool {
    match message::decoded_data_frame(data) {
        None => step == (GatewayStep::InvalidData { len: data.len() as usize }),
        Some(decoded) => if state.http_bodies.contains_key(decoded.0) {
            step matches GatewayStep::Body { stream_id, handle, payload } && stream_id == decoded.0
                && handle == state.http_bodies[decoded.0] && payload@ == decoded.1
        } else if state.streams.contains_key(decoded.0) {
            step matches GatewayStep::Tcp { stream_id, handle, payload } && stream_id == decoded.0
                && handle == state.streams[decoded.0] && payload@ == decoded.1
        } else {
            step == (GatewayStep::UnknownStream { stream_id: decoded.0 })
        },
    }
}

/// What is to be done with a frame of the access.
pub open spec fn is_frame_step(
    state: SessionState,
    direction: tunnel_crypto::DirectionState,
    frame: batch::WsContent,
    shown: String,
    step: GatewayStep,
) -> bool {
    match frame {
        batch::WsContent::Close => step == GatewayStep::Ended,
        _ => match frames::unsealed(direction, Peer::Access, frame, shown) {
            Err(error) => step == GatewayStep::Refused(error),
            Ok(opened) => match opened.0 {
                TunnelFrameKind::Text => if vstd::utf8::valid_utf8(opened.1) {
                    step matches GatewayStep::Text(text) && text@ == vstd::utf8::decode_utf8(
                        opened.1,
                    )
                } else {
                    step matches GatewayStep::NotUtf8 { explanation } && explanation@
                        == frames::utf8_error_text(opened.1)
                },
                TunnelFrameKind::Binary => is_data_step(state, opened.1, step),
            },
        },
    }
}

/// How a request ended.
pub enum RequestOutcome {
    /// The response came to its end.
    Done,
    /// The target could not be asked, or broke off; the causes of the error, outermost
    /// first.
    Failed { causes: Vec<String> },
    /// The request was cancelled.
    Cancelled,
}

/// The message that reports an error of a stream.
pub open spec fn is_error(
    message: Message,
    stream_id: StreamId,
    code: Seq<char>,
    explanation: Seq<char>,
) -> bool {
    message matches Message::Error { stream_id: reported, code: said, message: text } && reported
        == Some(stream_id) && said@ == code && text@ == explanation
}

/// The message that reports an error of a stream.
pub fn error_message(stream_id: StreamId, code: &str, explanation: &str) -> (message: Message)
    ensures
        is_error(message, stream_id, code@, explanation@),
{
    Message::Error {
        stream_id: Some(stream_id),
        code: code.to_owned(),
        message: explanation.to_owned(),
    }
}

/// The message that refuses a stream whose target has another mode than expected.
pub fn refuse_mode(stream_id: StreamId, expected: Mode) -> (message: Message)
    ensures
        is_error(
            message,
            stream_id,
            "MODE_NOT_SUPPORTED"@,
            match expected {
                Mode::Tcp => "target is not tcp"@,
                Mode::Http => "target is not http"@,
            },
        ),
{
    match expected {
        Mode::Tcp => error_message(stream_id, "MODE_NOT_SUPPORTED", "target is not tcp"),
        Mode::Http => error_message(stream_id, "MODE_NOT_SUPPORTED", "target is not http"),
    }
}

/// The causes of an error as one text.
pub fn format_error_chain(causes: &Vec<String>) -> (result: String)
    ensures
        result@ == text::joined(text::texts(causes@), ": "@),
{
    text::join(causes, ": ")
}

/// What was under way on a connection when it ended: streams and their handles, and handles
/// and the numbers that they had.
pub struct EndedStreams {
    pub streams: Vec<(u64, u64)>,
    pub http_bodies: Vec<(u64, u64)>,
    pub cancels: Vec<(u64, u64)>,
    pub superseded: Vec<(u64, u64)>,
}

/// The gateway end of a connection.
pub struct GatewaySession {
    streams: StreamTable,
    http_bodies: StreamTable,
    cancels: StreamTable,
    superseded: StreamTable,
    next_handle: u64,
}

impl GatewaySession {
    /// The state of the connection.
    pub closed spec fn view(&self) -> SessionState {
        SessionState {
            streams: stream_table::entries(self.streams),
            http_bodies: stream_table::entries(self.http_bodies),
            cancels: stream_table::entries(self.cancels),
            superseded: stream_table::entries(self.superseded),
            next_handle: self.next_handle,
        }
    }

    /// A connection without streams.
    pub fn new() -> (session: Self)
        ensures
            session@ == (SessionState {
                streams: Map::empty(),
                http_bodies: Map::empty(),
                cancels: Map::empty(),
                superseded: Map::empty(),
                next_handle: 0,
            }),
    {
        GatewaySession {
            streams: stream_table::new_table(),
            http_bodies: stream_table::new_table(),
            cancels: stream_table::new_table(),
            superseded: stream_table::new_table(),
            next_handle: 0,
        }
    }

    /// Takes note of a frame of the access and says what to do with it. An error shows a frame
    /// that is not encrypted as given.
    pub fn handle_frame(&self, cipher: &mut TunnelCipher, frame: WsMessage, shown: String) -> (step:
        GatewayStep)
        ensures
            is_frame_step(self@, old(cipher)@.access_to_gateway, frame@, shown, step),
            final(cipher)@.access_to_gateway == frames::after_unseal(
                old(cipher)@.access_to_gateway,
                Peer::Access,
                frame@,
            ),
            final(cipher)@.gateway_to_access == old(cipher)@.gateway_to_access,
    {
        match &frame {
            WsMessage::Close => {
                return GatewayStep::Ended;
            },
            _ => {},
        }
        match decrypt_access_frame(cipher, frame, shown) {
            Err(error) => GatewayStep::Refused(error),
            Ok((TunnelFrameKind::Text, bytes)) => match text_from_utf8(bytes) {
                Ok(text) => GatewayStep::Text(text),
                Err(explanation) => GatewayStep::NotUtf8 { explanation },
            },
            Ok((TunnelFrameKind::Binary, bytes)) => {
                let len: usize = bytes.len();
                match decode_data_frame_owned(bytes) {
                    None => GatewayStep::InvalidData { len },
                    Some((stream_id, payload)) => {
                        match stream_table::get(&self.http_bodies, stream_id) {
                            Some(handle) => {
                                return GatewayStep::Body {
                                    stream_id,
                                    handle,
                                    payload: payload.into_vec(),
                                };
                            },
                            None => {},
                        }
                        match stream_table::get(&self.streams, stream_id) {
                            Some(handle) => GatewayStep::Tcp { stream_id, handle, payload },
                            None => GatewayStep::UnknownStream { stream_id },
                        }
                    },
                }
            },
        }
    }

    /// Gives a stream a handle under which it can be cancelled. The stream that had the
    /// number before goes on.
    fn register(&mut self, stream_id: StreamId) -> (handle: u64)
        ensures
            handle == old(self)@.next_handle,
            final(self)@ == (SessionState {
                cancels: old(self)@.cancels.insert(stream_id, handle),
                superseded: superseded_by(old(self)@, stream_id),
                next_handle: old(self)@.next_handle.wrapping_add(1),
                ..old(self)@
            }),
    {
        let handle: u64 = self.next_handle;
        self.next_handle = handle.wrapping_add(1);
        match stream_table::insert(&mut self.cancels, stream_id, handle) {
            Some(replaced) => {
                let _ = stream_table::insert(&mut self.superseded, replaced, stream_id);
            },
            None => {},
        }
        handle
    }

    /// Takes a stream that finished off the tables of what can be cancelled.
    fn finish(&mut self, stream_id: StreamId, handle: u64)
        ensures
            final(self)@ == after_finish(old(self)@, stream_id, handle),
    {
        let _ = stream_table::remove_if_same(&mut self.cancels, stream_id, handle);
        let _ = stream_table::remove(&mut self.superseded, handle);
    }

    /// Takes the body of a request off the table and ends it.
    fn end_body(&mut self, stream_id: StreamId, steps: &mut Vec<GatewayAction>)
        ensures
            final(self)@ == (SessionState {
                http_bodies: old(self)@.http_bodies.remove(stream_id),
                ..old(self)@
            }),
            final(steps)@ == old(steps)@ + end_body_step(old(self)@.http_bodies, stream_id),
    {
        match stream_table::remove(&mut self.http_bodies, stream_id) {
            Some(handle) => steps.push(GatewayAction::EndBody { handle }),
            None => {},
        }
        assert(steps@ =~= old(steps)@ + end_body_step(old(self)@.http_bodies, stream_id));
    }

    /// Takes a TCP stream off the table and ends the data for it.
    fn end_tcp(&mut self, stream_id: StreamId, steps: &mut Vec<GatewayAction>)
        ensures
            final(self)@ == (SessionState {
                streams: old(self)@.streams.remove(stream_id),
                ..old(self)@
            }),
            final(steps)@ == old(steps)@ + end_tcp_step(old(self)@.streams, stream_id),
    {
        match stream_table::remove(&mut self.streams, stream_id) {
            Some(handle) => steps.push(GatewayAction::EndTcp { handle }),
            None => {},
        }
        assert(steps@ =~= old(steps)@ + end_tcp_step(old(self)@.streams, stream_id));
    }

    /// Takes note of a message of the access and says what to do for it.
    pub fn handle_message(&mut self, message: Message) -> (steps: Vec<GatewayAction>)
        ensures
            steps@ == actions(old(self)@, message),
            final(self)@ == after_message(old(self)@, message),
    {
        let ghost before = self@;
        let mut steps: Vec<GatewayAction> = Vec::new();
        match message {
            Message::Open { stream_id, target, config } => {
                if config.mode != Mode::Tcp {
                    steps.push(GatewayAction::RefuseMode { stream_id, expected: Mode::Tcp });
                } else {
                    let handle: u64 = self.register(stream_id);
                    steps.push(GatewayAction::StartTcp { stream_id, handle, target, config });
                }
            },
            Message::HttpRequest { stream_id, target: _, config, request } => {
                if config.mode != Mode::Http {
                    steps.push(GatewayAction::RefuseMode { stream_id, expected: Mode::Http });
                } else {
                    let handle: u64 = self.register(stream_id);
                    steps.push(GatewayAction::StartRequest { stream_id, handle, config, request });
                }
            },
            Message::HttpRequestStart { stream_id, target: _, config, request } => {
                if config.mode != Mode::Http {
                    steps.push(GatewayAction::RefuseMode { stream_id, expected: Mode::Http });
                } else {
                    let handle: u64 = self.register(stream_id);
                    match stream_table::insert(&mut self.http_bodies, stream_id, handle) {
                        Some(replaced) => steps.push(GatewayAction::EndBody { handle: replaced }),
                        None => {},
                    }
                    steps.push(
                        GatewayAction::StartStreamedRequest { stream_id, handle, config, request },
                    );
                }
            },
            Message::HttpRequestEnd { stream_id } => {
                self.end_body(stream_id, &mut steps);
            },
            Message::Close { stream_id, reason: _ } => {
                self.end_tcp(stream_id, &mut steps);
                self.end_body(stream_id, &mut steps);
                match stream_table::remove(&mut self.cancels, stream_id) {
                    Some(handle) => steps.push(GatewayAction::Cancel { handle }),
                    None => {},
                }
            },
            Message::TcpEof { stream_id } => {
                self.end_tcp(stream_id, &mut steps);
            },
            Message::Ping => {
                steps.push(GatewayAction::SendPong);
            },
            Message::Pong => {},
            _ => {
                steps.push(GatewayAction::Unexpected);
            },
        }
        assert(steps@ =~= actions(before, message));
        steps
    }

    /// Takes note that a TCP target is connected; its stream takes data from now on. Gives
    /// the message that tells the access so, and the handle of the stream that took the data
    /// under that number before: no more data comes for it.
    pub fn tcp_connected(&mut self, stream_id: StreamId, handle: u64) -> (result: (
        Message,
        Option<u64>,
    ))
        ensures
            final(self)@ == (SessionState {
                streams: old(self)@.streams.insert(stream_id, handle),
                ..old(self)@
            }),
            result.0 == (Message::OpenOk { stream_id }),
            result.1 == old(self)@.streams.get(stream_id),
    {
        let replaced = stream_table::insert(&mut self.streams, stream_id, handle);
        (Message::OpenOk { stream_id }, replaced)
    }

    /// Forgets a TCP stream that ended, with an error or without. A stream that has taken
    /// over the number stays cancellable. Gives the messages that tell the access so, and
    /// the handle of the stream that took the data under the number: no more data comes for
    /// it.
    pub fn tcp_finished(&mut self, stream_id: StreamId, handle: u64, error: Option<String>) -> (
        result: (Vec<Message>, Option<u64>))
        ensures
            final(self)@ == (SessionState {
                streams: old(self)@.streams.remove(stream_id),
                ..after_finish(old(self)@, stream_id, handle)
            }),
            result.1 == old(self)@.streams.get(stream_id),
            match error {
                Some(error) => {
                    &&& result.0@.len() == 2
                    &&& is_error(result.0@[0], stream_id, "TCP_TARGET_ERROR"@, error@)
                    &&& access::is_close(result.0@[1], stream_id, "target_closed"@)
                },
                None => {
                    &&& result.0@.len() == 1
                    &&& access::is_close(result.0@[0], stream_id, "target_closed"@)
                },
            },
    {
        let mut messages: Vec<Message> = Vec::new();
        match error {
            Some(error) => messages.push(
                error_message(stream_id, "TCP_TARGET_ERROR", error.as_str()),
            ),
            None => {},
        }
        let ended = stream_table::remove(&mut self.streams, stream_id);
        self.finish(stream_id, handle);
        messages.push(close_message(stream_id, "target_closed"));
        (messages, ended)
    }

    /// Forgets a request that ended and whose response was passed on as it came. Gives the
    /// message that tells the access so (a request that was cancelled is not answered), and
    /// the handle of the request that took data for its body under the number: that body is
    /// complete.
    pub fn streamed_request_finished(
        &mut self,
        stream_id: StreamId,
        handle: u64,
        outcome: RequestOutcome,
    ) -> (result: (Option<Message>, Option<u64>))
        ensures
            final(self)@ == (SessionState {
                http_bodies: old(self)@.http_bodies.remove(stream_id),
                ..after_finish(old(self)@, stream_id, handle)
            }),
            result.1 == old(self)@.http_bodies.get(stream_id),
            match outcome {
                RequestOutcome::Done => result.0 == Some(Message::HttpResponseEnd { stream_id }),
                RequestOutcome::Failed { causes } => result.0 matches Some(message) && is_error(
                    message,
                    stream_id,
                    "HTTP_TARGET_ERROR"@,
                    text::joined(text::texts(causes@), ": "@),
                ),
                RequestOutcome::Cancelled => result.0 is None,
            },
    {
        let ended = stream_table::remove(&mut self.http_bodies, stream_id);
        self.finish(stream_id, handle);
        let message = match outcome {
            RequestOutcome::Done => Some(Message::HttpResponseEnd { stream_id }),
            RequestOutcome::Failed { causes } => Some(
                error_message(
                    stream_id,
                    "HTTP_TARGET_ERROR",
                    format_error_chain(&causes).as_str(),
                ),
            ),
            RequestOutcome::Cancelled => None,
        };
        (message, ended)
    }

    /// Forgets a request that ended and whose response was collected: the head, if there
    /// was one, and the body. Gives the message that tells the access so.
    pub fn request_finished(
        &mut self,
        stream_id: StreamId,
        handle: u64,
        outcome: RequestOutcome,
        head: Option<HttpResponseHead>,
        body: Vec<u8>,
    ) -> (message: Option<Message>)
        ensures
            final(self)@ == after_finish(old(self)@, stream_id, handle),
            match outcome {
                RequestOutcome::Done => match head {
                    Some(head) => message == Some(
                        Message::HttpResponse {
                            stream_id,
                            response: HttpResponsePayload {
                                status: head.status,
                                headers: head.headers,
                                body,
                            },
                        },
                    ),
                    None => message is Some && is_error(
                        message->0,
                        stream_id,
                        "HTTP_TARGET_ERROR"@,
                        "target response head missing"@,
                    ),
                },
                RequestOutcome::Failed { causes } => message is Some && is_error(
                    message->0,
                    stream_id,
                    "HTTP_TARGET_ERROR"@,
                    text::joined(text::texts(causes@), ": "@),
                ),
                RequestOutcome::Cancelled => message is None,
            },
    {
        self.finish(stream_id, handle);
        match outcome {
            RequestOutcome::Done => match head {
                Some(head) => Some(
                    Message::HttpResponse {
                        stream_id,
                        response: HttpResponsePayload {
                            status: head.status,
                            headers: head.headers,
                            body,
                        },
                    },
                ),
                None => Some(
                    error_message(
                        stream_id,
                        "HTTP_TARGET_ERROR",
                        "target response head missing",
                    ),
                ),
            },
            RequestOutcome::Failed { causes } => Some(
                error_message(
                    stream_id,
                    "HTTP_TARGET_ERROR",
                    format_error_chain(&causes).as_str(),
                ),
            ),
            RequestOutcome::Cancelled => None,
        }
    }

    /// Forgets the body of a request that takes no more data, and gives the message that
    /// tells the access so.
    pub fn body_refused(&mut self, stream_id: StreamId) -> (message: Message)
        ensures
            final(self)@ == (SessionState {
                http_bodies: old(self)@.http_bodies.remove(stream_id),
                ..old(self)@
            }),
            is_error(
                message,
                stream_id,
                "HTTP_BODY_BACKPRESSURE"@,
                "request body channel is full"@,
            ),
    {
        let _ = stream_table::remove(&mut self.http_bodies, stream_id);
        error_message(stream_id, "HTTP_BODY_BACKPRESSURE", "request body channel is full")
    }

    /// Forgets a TCP stream that takes no more data, and gives the message that tells the
    /// access so.
    pub fn data_refused(&mut self, stream_id: StreamId) -> (message: Message)
        ensures
            final(self)@ == (SessionState {
                streams: old(self)@.streams.remove(stream_id),
                ..old(self)@
            }),
            access::is_close(message, stream_id, "target_backpressure"@),
    {
        let _ = stream_table::remove(&mut self.streams, stream_id);
        close_message(stream_id, "target_backpressure")
    }

    /// Ends the connection: lists what was under way, all of which is to be cancelled.
    pub fn end(&mut self) -> (ended: EndedStreams)
        ensures
            final(self)@ == (SessionState {
                streams: Map::empty(),
                http_bodies: Map::empty(),
                cancels: Map::empty(),
                superseded: Map::empty(),
                ..old(self)@
            }),
            stream_table::lists(ended.streams@, old(self)@.streams),
            stream_table::lists(ended.http_bodies@, old(self)@.http_bodies),
            stream_table::lists(ended.cancels@, old(self)@.cancels),
            stream_table::lists(ended.superseded@, old(self)@.superseded),
    {
        let streams = stream_table::drain(&mut self.streams);
        let http_bodies = stream_table::drain(&mut self.http_bodies);
        let cancels = stream_table::drain(&mut self.cancels);
        let superseded = stream_table::drain(&mut self.superseded);
        EndedStreams { streams, http_bodies, cancels, superseded }
    }
}

/// A stream that finishes takes away no cancellation but its own: another stream keeps its
/// own, also one that has taken over the number of the stream that finishes, and one whose
/// number was given to another.
pub proof fn law_finish_keeps_other_streams(
    state: SessionState,
    stream_id: u64,
    handle: u64,
    other_id: u64,
    other_handle: u64,
)
    requires
        other_handle != handle,
    ensures
        ({
            let after = after_finish(state, stream_id, handle);
            &&& state.cancels.get(other_id) == Some(other_handle) ==> after.cancels.get(other_id)
                == Some(other_handle)
            &&& state.superseded.contains_key(other_handle) ==> after.superseded.contains_key(
                other_handle,
            )
        }),
{
}

/// Whether the session knows a stream, so that it is cancelled at the latest when the session
/// ends.
pub open spec fn is_known(state: SessionState, stream_id: u64, handle: u64) -> bool {
    ||| state.cancels.get(stream_id) == Some(handle)
    ||| state.superseded.contains_key(handle)
}

/// No stream is forgotten: whatever message comes, a stream that the session knew before is
/// still known under its handle, or is cancelled.
pub proof fn law_no_stream_forgotten(
    state: SessionState,
    message: Message,
    stream_id: u64,
    handle: u64,
)
    requires
        is_known(state, stream_id, handle),
    ensures
        ({
            ||| is_known(after_message(state, message), stream_id, handle)
            ||| actions(state, message).contains(GatewayAction::Cancel { handle })
        }),
{
    match message {
        Message::Close { stream_id: id, reason } => {
            if id == stream_id && state.cancels.get(stream_id) == Some(handle) {
                assert(actions(state, message).last() == (GatewayAction::Cancel { handle }));
            }
        },
        _ => {},
    }
}

/// A message cancels a stream only where it closes it: a stream whose number is used again
/// goes on.
pub proof fn law_only_close_cancels(state: SessionState, message: Message, handle: u64)
    requires
        actions(state, message).contains(GatewayAction::Cancel { handle }),
    ensures
        message matches Message::Close { stream_id, .. } && state.cancels.get(stream_id) == Some(
            handle,
        ),
{
}

/// Closing a stream cancels the stream that has the number and forgets it.
pub proof fn law_close_cancels_the_stream(state: SessionState, stream_id: u64, reason: String)
    ensures
        ({
            let message = Message::Close { stream_id, reason };
            let after = after_message(state, message);
            &&& !after.streams.contains_key(stream_id)
            &&& !after.http_bodies.contains_key(stream_id)
            &&& !after.cancels.contains_key(stream_id)
            &&& state.cancels.contains_key(stream_id) ==> actions(state, message).contains(
                GatewayAction::Cancel { handle: state.cancels[stream_id] },
            )
        }),
{
    let message = Message::Close { stream_id, reason };
    if state.cancels.contains_key(stream_id) {
        assert(actions(state, message).last() == (GatewayAction::Cancel {
            handle: state.cancels[stream_id],
        }));
    }
}

/// A stream is started only towards a target of the mode that the message asks for, and
/// then it can be cancelled.
pub proof fn law_started_streams_can_be_cancelled(
    state: SessionState,
    message: Message,
    action: GatewayAction,
)
    requires
        actions(state, message).contains(action),
    ensures
        match action {
            GatewayAction::StartTcp { stream_id, handle, target: _, config } => {
                &&& config.mode == Mode::Tcp
                &&& after_message(state, message).cancels.get(stream_id) == Some(handle)
            },
            GatewayAction::StartRequest { stream_id, handle, config, request: _ } => {
                &&& config.mode == Mode::Http
                &&& after_message(state, message).cancels.get(stream_id) == Some(handle)
            },
            GatewayAction::StartStreamedRequest { stream_id, handle, config, request: _ } => {
                &&& config.mode == Mode::Http
                &&& after_message(state, message).cancels.get(stream_id) == Some(handle)
                &&& after_message(state, message).http_bodies.get(stream_id) == Some(handle)
            },
            _ => true,
        },
{
}

/// Whatever a frame of the access is that does not decrypt, it ends the session: plain text,
/// ping, pong, raw and unencrypted or altered binary messages, and frames out of turn.
pub proof fn law_refused_frame_ends_session(
    state: SessionState,
    direction: tunnel_crypto::DirectionState,
    frame: batch::WsContent,
    shown: String,
    step: GatewayStep,
)
    requires
        frames::unsealed(direction, Peer::Access, frame, shown) is Err,
        is_frame_step(state, direction, frame, shown, step),
    ensures
        step is Ended || step is Refused,
{
}

/// Whether a message of the access starts something under a number: it asks for a stream to a
/// TCP target, or for a request to an HTTP target.
pub open spec fn starts(message: Message, stream_id: u64) -> bool {
    match message {
        Message::Open { stream_id: id, target, config } => id == stream_id && config.mode
            == Mode::Tcp,
        Message::HttpRequest { stream_id: id, target, config, request } => id == stream_id
            && config.mode == Mode::Http,
        Message::HttpRequestStart { stream_id: id, target, config, request } => id == stream_id
            && config.mode == Mode::Http,
        _ => false,
    }
}

/// Whether a message of the access calls for a step. What is started has the number, the
/// target, the settings and the request of the message, and the next handle.
pub open spec fn calls_for(state: SessionState, message: Message, step: GatewayAction) -> bool {
    match step {
        GatewayAction::RefuseMode { stream_id, expected } => match message {
            Message::Open { stream_id: id, target, config } => id == stream_id && config.mode
                == Mode::Http && expected == Mode::Tcp,
            Message::HttpRequest { stream_id: id, target, config, request } => id == stream_id
                && config.mode == Mode::Tcp && expected == Mode::Http,
            Message::HttpRequestStart { stream_id: id, target, config, request } => id == stream_id
                && config.mode == Mode::Tcp && expected == Mode::Http,
            _ => false,
        },
        GatewayAction::StartTcp { stream_id, handle, target, config } => {
            &&& message == (Message::Open { stream_id, target, config })
            &&& config.mode == Mode::Tcp
            &&& handle == state.next_handle
        },
        GatewayAction::StartRequest { stream_id, handle, config, request } => {
            &&& message matches Message::HttpRequest {
                stream_id: id,
                target,
                config: asked,
                request: sent,
            } && id == stream_id && asked == config && sent == request
            &&& config.mode == Mode::Http
            &&& handle == state.next_handle
        },
        GatewayAction::StartStreamedRequest { stream_id, handle, config, request } => {
            &&& message matches Message::HttpRequestStart {
                stream_id: id,
                target,
                config: asked,
                request: sent,
            } && id == stream_id && asked == config && sent == request
            &&& config.mode == Mode::Http
            &&& handle == state.next_handle
        },
        GatewayAction::EndTcp { handle } => match message {
            Message::TcpEof { stream_id } => state.streams.get(stream_id) == Some(handle),
            Message::Close { stream_id, reason } => state.streams.get(stream_id) == Some(handle),
            _ => false,
        },
        GatewayAction::EndBody { handle } => match message {
            Message::HttpRequestEnd { stream_id } => state.http_bodies.get(stream_id) == Some(
                handle,
            ),
            Message::Close { stream_id, reason } => state.http_bodies.get(stream_id) == Some(
                handle,
            ),
            Message::HttpRequestStart { stream_id, target, config, request } => config.mode
                == Mode::Http && state.http_bodies.get(stream_id) == Some(handle),
            _ => false,
        },
        GatewayAction::Cancel { handle } => message matches Message::Close { stream_id, reason }
            && state.cancels.get(stream_id) == Some(handle),
        GatewayAction::SendPong => message is Ping,
        GatewayAction::Unexpected => {
            ||| message is RegisterAccess
            ||| message is RegisterOk
            ||| message is OpenOk
            ||| message is Error
            ||| message is HttpResponse
            ||| message is HttpResponseStart
            ||| message is HttpResponseEnd
        },
    }
}

proof fn lemma_steps_of_tables(state: SessionState, stream_id: u64, step: GatewayAction)
    ensures
        end_tcp_step(state.streams, stream_id).contains(step) <==> (
        step matches GatewayAction::EndTcp { handle } && state.streams.get(stream_id) == Some(
            handle,
        )),
        end_body_step(state.http_bodies, stream_id).contains(step) <==> (
        step matches GatewayAction::EndBody { handle } && state.http_bodies.get(stream_id) == Some(
            handle,
        )),
        cancel_step(state.cancels, stream_id).contains(step) <==> (
        step matches GatewayAction::Cancel { handle } && state.cancels.get(stream_id) == Some(
            handle,
        )),
{
    if state.streams.contains_key(stream_id) {
        assert(end_tcp_step(state.streams, stream_id)[0] == (GatewayAction::EndTcp {
            handle: state.streams[stream_id],
        }));
    }
    if state.http_bodies.contains_key(stream_id) {
        assert(end_body_step(state.http_bodies, stream_id)[0] == (GatewayAction::EndBody {
            handle: state.http_bodies[stream_id],
        }));
    }
    if state.cancels.contains_key(stream_id) {
        assert(cancel_step(state.cancels, stream_id)[0] == (GatewayAction::Cancel {
            handle: state.cancels[stream_id],
        }));
    }
}

proof fn lemma_concat_contains(a: Seq<GatewayAction>, b: Seq<GatewayAction>, step: GatewayAction)
    ensures
        (a + b).contains(step) <==> a.contains(step) || b.contains(step),
{
    if a.contains(step) {
        let i = a.index_of(step);
        assert((a + b)[i] == step);
    }
    if b.contains(step) {
        let i = b.index_of(step);
        assert((a + b)[a.len() + i] == step);
    }
    if (a + b).contains(step) {
        let i = (a + b).index_of(step);
        if i < a.len() {
            assert(a[i] == step);
        } else {
            assert(b[i - a.len()] == step);
        }
    }
}

proof fn lemma_steps_for_close(
    state: SessionState,
    stream_id: u64,
    reason: String,
    step: GatewayAction,
)
    ensures
        actions(state, Message::Close { stream_id, reason }).contains(step) <==> calls_for(
            state,
            Message::Close { stream_id, reason },
            step,
        ),
{
    let tcp = end_tcp_step(state.streams, stream_id);
    let body = end_body_step(state.http_bodies, stream_id);
    let cancel = cancel_step(state.cancels, stream_id);
    lemma_steps_of_tables(state, stream_id, step);
    lemma_concat_contains(tcp, body, step);
    lemma_concat_contains(tcp + body, cancel, step);
}

/// A message of the access leads to exactly the steps that it calls for, each once. So what is
/// started goes to the target that the message names, with all its settings, and only towards
/// a target of the right mode; and only what a message is about is ended or cancelled.
pub proof fn law_messages_are_carried_out(
    session: &mut GatewaySession,
    message: Message,
    steps: Vec<GatewayAction>,
    step: GatewayAction,
)
    requires
        call_ensures(GatewaySession::handle_message, (session, message), steps),
    ensures
        steps@.contains(step) <==> calls_for(old(session)@, message, step),
        steps@.no_duplicates(),
{
    let state = old(session)@;
    let all = actions(state, message);
    match message {
        Message::Close { stream_id, reason } => {
            lemma_steps_for_close(state, stream_id, reason, step);
        },
        Message::HttpRequestStart { stream_id, target, config, request } => {
            lemma_steps_of_tables(state, stream_id, step);
            if config.mode == Mode::Http {
                let start = GatewayAction::StartStreamedRequest {
                    stream_id,
                    handle: state.next_handle,
                    config,
                    request,
                };
                let ended = end_body_step(state.http_bodies, stream_id);
                assert(all =~= ended + seq![start]);
                lemma_concat_contains(ended, seq![start], step);
                assert(seq![start].contains(step) <==> step == start) by {
                    assert(seq![start][0] == start);
                }
            } else if calls_for(state, message, step) {
                assert(all[0] == step);
            }
        },
        Message::HttpRequestEnd { stream_id } => {
            lemma_steps_of_tables(state, stream_id, step);
        },
        Message::TcpEof { stream_id } => {
            lemma_steps_of_tables(state, stream_id, step);
        },
        _ => {
            if calls_for(state, message, step) {
                assert(all[0] == step);
            }
        },
    }
}

/// What a session knows of a number after a message: what is started can be cancelled under
/// the next handle; a request with a body takes data under it; only closing a stream or ending
/// its data takes anything off; and other numbers are not touched.
pub proof fn law_session_after_message(
    session: &mut GatewaySession,
    message: Message,
    steps: Vec<GatewayAction>,
    stream_id: u64,
    handle: u64,
)
    requires
        call_ensures(GatewaySession::handle_message, (session, message), steps),
    ensures
        ({
            let before = old(session)@;
            let after = final(session)@;
            let started = starts(message, stream_id);
            let closed = access::closes_stream(message, stream_id);
            &&& after.streams.get(stream_id) == if closed || message == (Message::TcpEof {
                stream_id,
            }) {
                None
            } else {
                before.streams.get(stream_id)
            }
            &&& after.http_bodies.get(stream_id) == if started && message is HttpRequestStart {
                Some(before.next_handle)
            } else if closed || message == (Message::HttpRequestEnd { stream_id }) {
                None
            } else {
                before.http_bodies.get(stream_id)
            }
            &&& after.cancels.get(stream_id) == if started {
                Some(before.next_handle)
            } else if closed {
                None
            } else {
                before.cancels.get(stream_id)
            }
            &&& started && before.cancels.get(stream_id) == Some(handle)
                ==> after.superseded.get(handle) == Some(stream_id)
            &&& !(exists|id: u64|
                #[trigger] starts(message, id) && before.cancels.get(id) == Some(handle))
                ==> after.superseded.get(handle) == before.superseded.get(handle)
            &&& after.next_handle == if exists|id: u64| #[trigger] starts(message, id) {
                before.next_handle.wrapping_add(1)
            } else {
                before.next_handle
            }
        }),
{
    match message {
        Message::Open { stream_id: id, target, config } => {
            assert(starts(message, id) == (config.mode == Mode::Tcp));
        },
        Message::HttpRequest { stream_id: id, target, config, request } => {
            assert(starts(message, id) == (config.mode == Mode::Http));
        },
        Message::HttpRequestStart { stream_id: id, target, config, request } => {
            assert(starts(message, id) == (config.mode == Mode::Http));
        },
        _ => {},
    }
}

/// A gateway connects a stream to the host and port of the target that the access's message
/// names.
pub proof fn law_connects_to_the_named_target(
    session: &mut GatewaySession,
    stream_id: u64,
    target: String,
    config: TargetConfig,
    steps: Vec<GatewayAction>,
    started: TargetConfig,
    started_target: String,
    handle: u64,
    address: String,
)
    requires
        call_ensures(
            GatewaySession::handle_message,
            (session, Message::Open { stream_id, target, config }),
            steps,
        ),
        steps@.contains(
            GatewayAction::StartTcp { stream_id, handle, target: started_target, config: started },
        ),
        call_ensures(crate::http::target_address, (&started,), address),
    ensures
        started == config,
        started_target == target,
        ({
            let port = address@.skip(config.host@.len() as int + 1);
            &&& address@ == config.host@ + ":"@ + port
            &&& text::number_read(port) == config.port
        }),
{
    law_messages_are_carried_out(
        session,
        Message::Open { stream_id, target, config },
        steps,
        GatewayAction::StartTcp { stream_id, handle, target: started_target, config: started },
    );
    crate::http::law_target_address(&started, address);
}

/// A frame that the access encrypted with the cipher of the session, in its turn.
pub open spec fn comes_from_access(
    access: tunnel_crypto::CipherState,
    gateway: tunnel_crypto::CipherState,
) -> bool {
    &&& access.access_to_gateway.key == gateway.access_to_gateway.key
    &&& access.access_to_gateway.prefix == gateway.access_to_gateway.prefix
    &&& access.access_to_gateway.next_send == gateway.access_to_gateway.next_receive
}

/// Data that the access sends for a number goes to what takes it: to the request whose body
/// has that number, else to the TCP stream with that number; only where there is neither is it
/// for nobody. The payload arrives as it was sent.
pub proof fn law_data_reaches_its_stream(
    session: GatewaySession,
    access: &mut TunnelCipher,
    gateway: &mut TunnelCipher,
    stream_id: u64,
    payload: &[u8],
    data: Vec<u8>,
    slice: &[u8],
    sealed: Vec<u8>,
    shown: String,
    step: GatewayStep,
)
    requires
        call_ensures(message::encode_data_frame, (stream_id, payload), data),
        slice@ == data@,
        call_ensures(
            TunnelCipher::encrypt_from_access,
            (access, TunnelFrameKind::Binary, slice),
            Ok(sealed),
        ),
        comes_from_access(old(access)@, old(gateway)@),
        call_ensures(
            GatewaySession::handle_frame,
            (&session, gateway, WsMessage::Binary(sealed), shown),
            step,
        ),
    ensures
        session@.http_bodies.get(stream_id) matches Some(expected) ==> (
        step matches GatewayStep::Body { stream_id: id, handle, payload: bytes } && id == stream_id
            && handle == expected && bytes@ == payload@),
        !session@.http_bodies.contains_key(stream_id) ==> match session@.streams.get(stream_id) {
            Some(expected) => step matches GatewayStep::Tcp {
                stream_id: id,
                handle,
                payload: bytes,
            } && id == stream_id && handle == expected && bytes@ == payload@,
            None => step == (GatewayStep::UnknownStream { stream_id }),
        },
        comes_from_access(final(access)@, final(gateway)@),
{
    tunnel_crypto::law_decrypt_of_encrypt(
        old(access)@.access_to_gateway,
        final(access)@.access_to_gateway,
        old(gateway)@.access_to_gateway,
        frames::sender_label(Peer::Access),
        TunnelFrameKind::Binary,
        slice@,
        sealed,
    );
    message::law_decode_of_encode(stream_id, payload@);
}

/// A control message that the access sends arrives as it was sent; one that is no text ends
/// the session, and data that is too short for a number is for nobody.
pub proof fn law_control_messages_arrive(
    session: GatewaySession,
    access: &mut TunnelCipher,
    gateway: &mut TunnelCipher,
    kind: TunnelFrameKind,
    text: String,
    slice: &[u8],
    sealed: Vec<u8>,
    shown: String,
    step: GatewayStep,
)
    requires
        call_ensures(TunnelCipher::encrypt_from_access, (access, kind, slice), Ok(sealed)),
        comes_from_access(old(access)@, old(gateway)@),
        call_ensures(
            GatewaySession::handle_frame,
            (&session, gateway, WsMessage::Binary(sealed), shown),
            step,
        ),
    ensures
        kind == TunnelFrameKind::Text && slice@ == vstd::utf8::encode_utf8(text@) ==> (
        step matches GatewayStep::Text(arrived) && arrived@ == text@),
        kind == TunnelFrameKind::Text && !vstd::utf8::valid_utf8(slice@) ==> step is NotUtf8,
        kind == TunnelFrameKind::Binary && slice@.len() < 8 ==> (
        step matches GatewayStep::InvalidData { len } && len == slice@.len()),
        comes_from_access(final(access)@, final(gateway)@),
{
    tunnel_crypto::law_decrypt_of_encrypt(
        old(access)@.access_to_gateway,
        final(access)@.access_to_gateway,
        old(gateway)@.access_to_gateway,
        frames::sender_label(Peer::Access),
        kind,
        slice@,
        sealed,
    );
    vstd::utf8::encode_utf8_valid_utf8(text@);
    vstd::utf8::encode_utf8_decode_utf8(text@);
}

/// A message that is not encrypted, or does not open under the session's key at the expected
/// number, ends the session.
pub proof fn law_foreign_frames_end_session(
    session: GatewaySession,
    gateway: &mut TunnelCipher,
    frame: WsMessage,
    shown: String,
    step: GatewayStep,
)
    requires
        call_ensures(GatewaySession::handle_frame, (&session, gateway, frame, shown), step),
        frame matches WsMessage::Binary(bytes) ==> bytes@.len() < 29 || tunnel_crypto::opened(
            old(gateway)@.access_to_gateway,
            frames::sender_label(Peer::Access),
            old(gateway)@.access_to_gateway.next_receive,
            bytes@,
        ) is None,
    ensures
        frame is Close ==> step == GatewayStep::Ended,
        frame !is Close ==> step is Refused,
        frame !is Close && frame !is Binary ==> step == GatewayStep::Refused(
            FrameError::Unencrypted { from: Peer::Access, shown },
        ),
        final(gateway)@ == old(gateway)@,
{
}

/// A stream that was started takes the data for its number once its target is connected: the
/// access is told that it is open, data goes to its handle, the end of the data ends it, and
/// closing it cancels it.
pub proof fn law_started_stream_is_served(
    starting: &mut GatewaySession,
    connecting: &mut GatewaySession,
    serving: GatewaySession,
    closing: &mut GatewaySession,
    stream_id: u64,
    target: String,
    config: TargetConfig,
    steps: Vec<GatewayAction>,
    connected: (Message, Option<u64>),
    access: &mut TunnelCipher,
    gateway: &mut TunnelCipher,
    payload: &[u8],
    data: Vec<u8>,
    slice: &[u8],
    sealed: Vec<u8>,
    shown: String,
    step: GatewayStep,
    reason: String,
    last: Vec<GatewayAction>,
)
    requires
        config.mode == Mode::Tcp,
        !old(starting)@.http_bodies.contains_key(stream_id),
        call_ensures(
            GatewaySession::handle_message,
            (starting, Message::Open { stream_id, target, config }),
            steps,
        ),
        *old(connecting) == *final(starting),
        call_ensures(
            GatewaySession::tcp_connected,
            (connecting, stream_id, old(starting)@.next_handle),
            connected,
        ),
        serving == *final(connecting),
        call_ensures(message::encode_data_frame, (stream_id, payload), data),
        slice@ == data@,
        call_ensures(
            TunnelCipher::encrypt_from_access,
            (access, TunnelFrameKind::Binary, slice),
            Ok(sealed),
        ),
        comes_from_access(old(access)@, old(gateway)@),
        call_ensures(
            GatewaySession::handle_frame,
            (&serving, gateway, WsMessage::Binary(sealed), shown),
            step,
        ),
        *old(closing) == serving,
        call_ensures(
            GatewaySession::handle_message,
            (closing, Message::Close { stream_id, reason }),
            last,
        ),
    ensures
        ({
            let handle = old(starting)@.next_handle;
            &&& steps@ == seq![GatewayAction::StartTcp { stream_id, handle, target, config }]
            &&& connected.0 == (Message::OpenOk { stream_id })
            &&& connected.1 == old(starting)@.streams.get(stream_id)
            &&& step matches GatewayStep::Tcp { stream_id: id, handle: to, payload: bytes } && id
                == stream_id && to == handle && bytes@ == payload@
            &&& last@.contains(GatewayAction::EndTcp { handle })
            &&& last@.contains(GatewayAction::Cancel { handle })
            &&& last@.len() == 2
            &&& !final(closing)@.streams.contains_key(stream_id)
            &&& !final(closing)@.cancels.contains_key(stream_id)
        }),
{
    let handle = old(starting)@.next_handle;
    assert(steps@ =~= seq![GatewayAction::StartTcp { stream_id, handle, target, config }]);
    law_data_reaches_its_stream(
        serving,
        access,
        gateway,
        stream_id,
        payload,
        data,
        slice,
        sealed,
        shown,
        step,
    );
    let close = Message::Close { stream_id, reason };
    lemma_steps_for_close(old(closing)@, stream_id, reason, GatewayAction::EndTcp { handle });
    lemma_steps_for_close(old(closing)@, stream_id, reason, GatewayAction::Cancel { handle });
}

/// A request whose body comes in data frames gets the data for its number until the access
/// says that the body is complete.
pub proof fn law_started_request_gets_its_body(
    starting: &mut GatewaySession,
    serving: GatewaySession,
    ending: &mut GatewaySession,
    stream_id: u64,
    target: String,
    config: TargetConfig,
    request: HttpRequestHead,
    steps: Vec<GatewayAction>,
    access: &mut TunnelCipher,
    gateway: &mut TunnelCipher,
    payload: &[u8],
    data: Vec<u8>,
    slice: &[u8],
    sealed: Vec<u8>,
    shown: String,
    step: GatewayStep,
    last: Vec<GatewayAction>,
)
    requires
        config.mode == Mode::Http,
        call_ensures(
            GatewaySession::handle_message,
            (starting, Message::HttpRequestStart { stream_id, target, config, request }),
            steps,
        ),
        serving == *final(starting),
        call_ensures(message::encode_data_frame, (stream_id, payload), data),
        slice@ == data@,
        call_ensures(
            TunnelCipher::encrypt_from_access,
            (access, TunnelFrameKind::Binary, slice),
            Ok(sealed),
        ),
        comes_from_access(old(access)@, old(gateway)@),
        call_ensures(
            GatewaySession::handle_frame,
            (&serving, gateway, WsMessage::Binary(sealed), shown),
            step,
        ),
        *old(ending) == serving,
        call_ensures(
            GatewaySession::handle_message,
            (ending, Message::HttpRequestEnd { stream_id }),
            last,
        ),
    ensures
        ({
            let handle = old(starting)@.next_handle;
            &&& steps@.last() == (GatewayAction::StartStreamedRequest {
                stream_id,
                handle,
                config,
                request,
            })
            &&& step matches GatewayStep::Body { stream_id: id, handle: to, payload: bytes } && id
                == stream_id && to == handle && bytes@ == payload@
            &&& last@ == seq![GatewayAction::EndBody { handle }]
            &&& final(ending)@.cancels.get(stream_id) == Some(handle)
        }),
{
    let handle = old(starting)@.next_handle;
    law_data_reaches_its_stream(
        serving,
        access,
        gateway,
        stream_id,
        payload,
        data,
        slice,
        sealed,
        shown,
        step,
    );
    assert(last@ =~= seq![GatewayAction::EndBody { handle }]);
}

/// Whether two states differ at most in what they know of one number and of one handle.
pub open spec fn differ_in_stream_only(
    a: SessionState,
    b: SessionState,
    stream_id: u64,
    handle: u64,
) -> bool {
    &&& a.next_handle == b.next_handle
    &&& forall|other: u64|
        other != stream_id ==> {
            &&& #[trigger] a.streams.get(other) == b.streams.get(other)
            &&& a.http_bodies.get(other) == b.http_bodies.get(other)
            &&& a.cancels.get(other) == b.cancels.get(other)
        }
    &&& forall|other: u64|
        other != handle ==> #[trigger] a.superseded.get(other) == b.superseded.get(other)
}

/// A TCP stream that finished is forgotten, but not another one that has its number now; the
/// access is told the error, if there was one, and then that the target closed.
pub proof fn law_finished_tcp_stream(
    session: &mut GatewaySession,
    stream_id: u64,
    handle: u64,
    error: Option<String>,
    result: (Vec<Message>, Option<u64>),
)
    requires
        call_ensures(GatewaySession::tcp_finished, (session, stream_id, handle, error), result),
    ensures
        ({
            let before = old(session)@;
            let after = final(session)@;
            &&& !after.streams.contains_key(stream_id)
            &&& after.cancels.get(stream_id) == if before.cancels.get(stream_id) == Some(handle) {
                None
            } else {
                before.cancels.get(stream_id)
            }
            &&& !after.superseded.contains_key(handle)
            &&& after.http_bodies == before.http_bodies
            &&& differ_in_stream_only(before, after, stream_id, handle)
            &&& result.1 == before.streams.get(stream_id)
            &&& result.0@.len() == if error is Some {
                2int
            } else {
                1int
            }
            &&& result.0@.last() matches Message::Close { stream_id: id, reason } && id == stream_id
                && reason@ == "target_closed"@
            &&& error matches Some(text) ==> (result.0@[0] matches Message::Error {
                stream_id: id,
                code,
                message,
            } && id == Some(stream_id) && code@ == "TCP_TARGET_ERROR"@ && message@ == text@)
        }),
{
}

/// A request whose response was passed on as it came is forgotten when it finished, but not
/// another one that has its number now; the access is told of the end of the response, or of
/// all causes of the error, and of nothing where it was cancelled.
pub proof fn law_finished_streamed_request(
    session: &mut GatewaySession,
    stream_id: u64,
    handle: u64,
    outcome: RequestOutcome,
    result: (Option<Message>, Option<u64>),
    causes: Vec<String>,
    chain: String,
)
    requires
        call_ensures(
            GatewaySession::streamed_request_finished,
            (session, stream_id, handle, outcome),
            result,
        ),
        outcome is Failed ==> outcome == (RequestOutcome::Failed { causes }),
        call_ensures(format_error_chain, (&causes,), chain),
    ensures
        ({
            let before = old(session)@;
            let after = final(session)@;
            &&& !after.http_bodies.contains_key(stream_id)
            &&& after.cancels.get(stream_id) == if before.cancels.get(stream_id) == Some(handle) {
                None
            } else {
                before.cancels.get(stream_id)
            }
            &&& !after.superseded.contains_key(handle)
            &&& after.streams == before.streams
            &&& differ_in_stream_only(before, after, stream_id, handle)
            &&& result.1 == before.http_bodies.get(stream_id)
        }),
        outcome is Done ==> result.0 == Some(Message::HttpResponseEnd { stream_id }),
        outcome is Cancelled ==> result.0 is None,
        outcome is Failed ==> (result.0 matches Some(Message::Error {
            stream_id: id,
            code,
            message,
        }) && id == Some(stream_id) && code@ == "HTTP_TARGET_ERROR"@ && message@ == chain@),
{
}

/// A request whose response was collected is forgotten when it finished, but not another one
/// that has its number now; the access gets the status, the headers and the body of the
/// response, or all causes of the error, and nothing where it was cancelled.
pub proof fn law_finished_request(
    session: &mut GatewaySession,
    stream_id: u64,
    handle: u64,
    outcome: RequestOutcome,
    head: Option<HttpResponseHead>,
    body: Vec<u8>,
    result: Option<Message>,
    causes: Vec<String>,
    chain: String,
)
    requires
        call_ensures(
            GatewaySession::request_finished,
            (session, stream_id, handle, outcome, head, body),
            result,
        ),
        outcome is Failed ==> outcome == (RequestOutcome::Failed { causes }),
        call_ensures(format_error_chain, (&causes,), chain),
    ensures
        ({
            let before = old(session)@;
            let after = final(session)@;
            &&& after.cancels.get(stream_id) == if before.cancels.get(stream_id) == Some(handle) {
                None
            } else {
                before.cancels.get(stream_id)
            }
            &&& !after.superseded.contains_key(handle)
            &&& after.streams == before.streams
            &&& after.http_bodies == before.http_bodies
            &&& differ_in_stream_only(before, after, stream_id, handle)
        }),
        outcome is Done && head is Some ==> (result matches Some(Message::HttpResponse {
            stream_id: id,
            response,
        }) && id == stream_id && response.status == head->0.status && response.headers
            == head->0.headers && response.body == body),
        outcome is Done && head is None ==> (result matches Some(Message::Error {
            stream_id: id,
            code,
            message,
        }) && id == Some(stream_id) && code@ == "HTTP_TARGET_ERROR"@ && message@
            == "target response head missing"@),
        outcome is Cancelled ==> result is None,
        outcome is Failed ==> (result matches Some(Message::Error {
            stream_id: id,
            code,
            message,
        }) && id == Some(stream_id) && code@ == "HTTP_TARGET_ERROR"@ && message@ == chain@),
{
}

/// What takes no more data is not offered any, nothing else changes, and the access is told,
/// under the number of the stream.
pub proof fn law_refused_data(
    body: &mut GatewaySession,
    data: &mut GatewaySession,
    stream_id: u64,
    body_message: Message,
    data_message: Message,
)
    requires
        call_ensures(GatewaySession::body_refused, (body, stream_id), body_message),
        call_ensures(GatewaySession::data_refused, (data, stream_id), data_message),
    ensures
        !final(body)@.http_bodies.contains_key(stream_id),
        final(body)@.streams == old(body)@.streams,
        final(body)@.cancels == old(body)@.cancels,
        final(body)@.superseded == old(body)@.superseded,
        differ_in_stream_only(old(body)@, final(body)@, stream_id, 0),
        body_message matches Message::Error { stream_id: id, code, message } && id == Some(
            stream_id,
        ) && code@ == "HTTP_BODY_BACKPRESSURE"@ && message@ == "request body channel is full"@,
        !final(data)@.streams.contains_key(stream_id),
        final(data)@.http_bodies == old(data)@.http_bodies,
        final(data)@.cancels == old(data)@.cancels,
        final(data)@.superseded == old(data)@.superseded,
        differ_in_stream_only(old(data)@, final(data)@, stream_id, 0),
        data_message matches Message::Close { stream_id: id, reason } && id == stream_id && reason@
            == "target_backpressure"@,
{
}

/// A session begins with nothing, and when it ends everything that is under way is listed,
/// with its handle, each once, and nothing else; nothing is left.
pub proof fn law_session_end_lists_everything(
    fresh: GatewaySession,
    session: &mut GatewaySession,
    ended: EndedStreams,
    stream_id: u64,
    handle: u64,
)
    requires
        call_ensures(GatewaySession::new, (), fresh),
        call_ensures(GatewaySession::end, (session,), ended),
    ensures
        !fresh@.streams.contains_key(stream_id),
        !fresh@.http_bodies.contains_key(stream_id),
        !fresh@.cancels.contains_key(stream_id),
        !fresh@.superseded.contains_key(handle),
        ({
            let before = old(session)@;
            let after = final(session)@;
            &&& ended.streams@.contains((stream_id, handle)) <==> before.streams.get(stream_id)
                == Some(handle)
            &&& ended.http_bodies@.contains((stream_id, handle)) <==> before.http_bodies.get(
                stream_id,
            ) == Some(handle)
            &&& ended.cancels@.contains((stream_id, handle)) <==> before.cancels.get(stream_id)
                == Some(handle)
            &&& ended.superseded@.contains((handle, stream_id)) <==> before.superseded.get(handle)
                == Some(stream_id)
            &&& ended.streams@.no_duplicates()
            &&& ended.http_bodies@.no_duplicates()
            &&& ended.cancels@.no_duplicates()
            &&& ended.superseded@.no_duplicates()
            &&& !after.streams.contains_key(stream_id)
            &&& !after.http_bodies.contains_key(stream_id)
            &&& !after.cancels.contains_key(stream_id)
            &&& !after.superseded.contains_key(handle)
            &&& after.next_handle == before.next_handle
        }),
{
    let before = old(session)@;
    stream_table::lemma_lists(ended.streams@, before.streams, stream_id, handle);
    stream_table::lemma_lists(ended.http_bodies@, before.http_bodies, stream_id, handle);
    stream_table::lemma_lists(ended.cancels@, before.cancels, stream_id, handle);
    stream_table::lemma_lists(ended.superseded@, before.superseded, handle, stream_id);
}

/// A stream whose number is used again is still cancelled when the session ends: it is listed
/// under its own handle beside the one that has the number now.
pub proof fn law_replaced_stream_is_cancelled_at_the_end(
    first: &mut GatewaySession,
    second: &mut GatewaySession,
    ending: &mut GatewaySession,
    stream_id: u64,
    target: String,
    config: TargetConfig,
    one: Vec<GatewayAction>,
    two: Vec<GatewayAction>,
    ended: EndedStreams,
)
    requires
        config.mode == Mode::Tcp,
        call_ensures(
            GatewaySession::handle_message,
            (first, Message::Open { stream_id, target, config }),
            one,
        ),
        *old(second) == *final(first),
        call_ensures(
            GatewaySession::handle_message,
            (second, Message::Open { stream_id, target, config }),
            two,
        ),
        *old(ending) == *final(second),
        call_ensures(GatewaySession::end, (ending,), ended),
    ensures
        ended.superseded@.contains((old(first)@.next_handle, stream_id)),
        ended.cancels@.contains((stream_id, old(second)@.next_handle)),
        old(first)@.next_handle != old(second)@.next_handle,
{
    let before = old(ending)@;
    stream_table::lemma_lists(
        ended.cancels@,
        before.cancels,
        stream_id,
        old(second)@.next_handle,
    );
    stream_table::lemma_lists(
        ended.superseded@,
        before.superseded,
        old(first)@.next_handle,
        stream_id,
    );
}

/// The messages that tell of errors name the stream, the kind of error and what it is; a
/// target of the wrong mode is told as such.
pub proof fn law_error_messages(
    stream_id: StreamId,
    code: &str,
    explanation: &str,
    message: Message,
    expected: Mode,
    refused: Message,
)
    requires
        call_ensures(error_message, (stream_id, code, explanation), message),
        call_ensures(refuse_mode, (stream_id, expected), refused),
    ensures
        message matches Message::Error { stream_id: id, code: said, message: text } && id == Some(
            stream_id,
        ) && said@ == code@ && text@ == explanation@,
        refused matches Message::Error { stream_id: id, code: said, message: text } && id == Some(
            stream_id,
        ) && said@ == "MODE_NOT_SUPPORTED"@ && (expected == Mode::Tcp ==> text@
            == "target is not tcp"@) && (expected == Mode::Http ==> text@ == "target is not http"@),
{
}

/// The causes of an error are told one after the other, outermost first, with a colon and a
/// space between any two.
pub proof fn law_error_chain(causes: &Vec<String>, chain: String, separator: &str, joined: String)
    requires
        call_ensures(format_error_chain, (causes,), chain),
        separator@ == ": "@,
        call_ensures(text::join, (causes, separator), joined),
    ensures
        chain@ == joined@,
{
}

/// The access counts as lost after more than 75 seconds of silence; heartbeats go out every
/// 20 seconds.
pub proof fn law_times(idle_nanos: u128, result: bool)
    requires
        call_ensures(idle_timed_out, (idle_nanos,), result),
    ensures
        result == (idle_nanos > 75 * 1_000_000_000),
        ACCESS_PING_INTERVAL_SECS == 20,
{
}

/// A target that is connected takes the data for its number from then on; nothing else
/// changes, and the stream that took it before is named.
pub proof fn law_connected(
    session: &mut GatewaySession,
    stream_id: StreamId,
    handle: u64,
    result: (Message, Option<u64>),
)
    requires
        call_ensures(GatewaySession::tcp_connected, (session, stream_id, handle), result),
    ensures
        final(session)@.streams.get(stream_id) == Some(handle),
        final(session)@.http_bodies == old(session)@.http_bodies,
        final(session)@.cancels == old(session)@.cancels,
        final(session)@.superseded == old(session)@.superseded,
        differ_in_stream_only(old(session)@, final(session)@, stream_id, handle),
        result.0 == (Message::OpenOk { stream_id }),
        result.1 == old(session)@.streams.get(stream_id),
{
}

} // verus!
