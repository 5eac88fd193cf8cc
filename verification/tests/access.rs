use ws_net::access::{
    idle_timed_out, is_gateway_disconnected_error, session_ended, CloseReason, Delivery, FrameStep,
    GatewayConnection, OpenError, OpenOutcome, ReconnectBackoff, StreamFailure,
};
use ws_net::batch::WsMessage;
use ws_net::frames::{encrypt_gateway_message, FrameError, Peer};
use ws_net::message::{encode_data_frame, HttpResponseHead, HttpResponsePayload, Message};
use ws_net::tunnel_crypto::{TunnelCipher, TunnelError, TunnelFrameKind};

/// How the messages of these tests are shown.
fn shown() -> String {
    "Shown".to_string()
}

fn connected() -> GatewayConnection {
    let mut connection = GatewayConnection::new();
    connection.mark_connected();
    connection
}

fn ciphers() -> (TunnelCipher, TunnelCipher) {
    (
        TunnelCipher::from_shared_key("secret").unwrap(),
        TunnelCipher::from_shared_key("secret").unwrap(),
    )
}

fn close_reason_of(message: &Message) -> (u64, &str) {
    match message {
        Message::Close { stream_id, reason } => (*stream_id, reason),
        other => panic!("expected a close message, got {other:?}"),
    }
}

fn error(stream_id: Option<u64>) -> Message {
    Message::Error {
        stream_id,
        code: "CODE".to_string(),
        message: "what happened".to_string(),
    }
}

fn closed(stream_id: u64) -> Message {
    Message::Close { stream_id, reason: "done".to_string() }
}

#[test]
fn stream_numbers_count_up_from_one() {
    let mut connection = GatewayConnection::new();
    assert_eq!(connection.next_stream_id(), 1);
    assert_eq!(connection.next_stream_id(), 2);
    assert_eq!(connection.next_stream_id(), 3);
}

#[test]
fn a_connection_is_open_between_connecting_and_closing() {
    let mut connection = GatewayConnection::new();
    assert_eq!(connection.ensure_gateway_open(false), Err(CloseReason::Disconnected));
    connection.mark_connected();
    assert_eq!(connection.ensure_gateway_open(false), Ok(()));
    assert_eq!(connection.ensure_gateway_open(true), Err(CloseReason::Disconnected));
    assert!(connection.close_gateway_connection().is_some());
    assert_eq!(connection.ensure_gateway_open(false), Err(CloseReason::Disconnected));
    assert!(connection.close_gateway_connection().is_none());
}

#[test]
fn an_opened_stream_is_reported_once() {
    let mut connection = connected();
    connection.begin_stream(1, 10, 11);
    let steps = connection.handle_gateway_message(Message::OpenOk { stream_id: 1 });
    assert!(matches!(steps[..], [Delivery::Opened { channel: 10, result: Ok(()) }]));
    assert!(connection.handle_gateway_message(Message::OpenOk { stream_id: 1 }).is_empty());
    let steps = connection.handle_gateway_message(Message::TcpEof { stream_id: 1 });
    assert!(matches!(steps[..], [Delivery::TcpEnded { channel: 11 }]));
    assert!(connection.handle_gateway_message(Message::TcpEof { stream_id: 1 }).is_empty());
}

#[test]
fn responses_reach_those_who_wait_for_them() {
    let mut connection = connected();
    connection.begin_request(4, 40);
    connection.begin_streamed_request(5, 50, 51);
    let response = HttpResponsePayload { status: 204, headers: Vec::new(), body: b"b".to_vec() };
    let steps = connection
        .handle_gateway_message(Message::HttpResponse { stream_id: 4, response });
    let [Delivery::Responded { channel: 40, result: Ok(response) }] = &steps[..] else {
        panic!("expected a response");
    };
    assert_eq!(response.status, 204);
    assert_eq!(response.body, b"b".to_vec());

    let head = HttpResponseHead { status: 200, headers: vec![("a".to_string(), "b".to_string())] };
    let steps = connection
        .handle_gateway_message(Message::HttpResponseStart { stream_id: 5, response: head });
    let [Delivery::HeadArrived { channel: 50, result: Ok(head) }] = &steps[..] else {
        panic!("expected a head");
    };
    assert_eq!(head.headers, vec![("a".to_string(), "b".to_string())]);
    let steps = connection.handle_gateway_message(Message::HttpResponseEnd { stream_id: 5 });
    assert!(matches!(steps[..], [Delivery::BodyEnded { channel: 51 }]));
    assert!(connection.handle_gateway_message(closed(5)).is_empty());
}

#[test]
fn closing_a_stream_tells_all_who_wait_on_it_and_nobody_else() {
    let mut connection = connected();
    for stream_id in [1, 2] {
        connection.begin_stream(stream_id, stream_id * 100, stream_id * 100 + 1);
        connection.begin_request(stream_id, stream_id * 100 + 2);
        connection.begin_streamed_request(stream_id, stream_id * 100 + 3, stream_id * 100 + 4);
    }
    let steps = connection.handle_gateway_message(closed(1));
    assert!(matches!(
        steps[..],
        [
            Delivery::TcpEnded { channel: 101 },
            Delivery::HeadArrived { channel: 103, result: Err(StreamFailure::Closed) },
            Delivery::BodyFailed { channel: 104, failure: StreamFailure::Closed },
            Delivery::Opened { channel: 100, result: Err(StreamFailure::Closed) },
            Delivery::Responded { channel: 102, result: Err(StreamFailure::Closed) },
        ]
    ));
    assert!(connection.handle_gateway_message(closed(1)).is_empty());
    assert_eq!(connection.handle_gateway_message(closed(2)).len(), 5);
    assert_eq!(StreamFailure::Closed.message(), "stream closed");
}

#[test]
fn errors_reach_those_who_wait_but_leave_data_streams() {
    let mut connection = connected();
    connection.begin_stream(1, 10, 11);
    connection.begin_streamed_request(1, 12, 13);
    let steps = connection.handle_gateway_message(error(Some(1)));
    let [Delivery::Opened { channel: 10, result: Err(failure) }, Delivery::HeadArrived { channel: 12, result: Err(_) }, Delivery::BodyFailed { channel: 13, .. }] =
        &steps[..]
    else {
        panic!("expected three deliveries");
    };
    assert_eq!(failure.message(), "CODE: what happened");
    let steps = connection.handle_gateway_message(Message::TcpEof { stream_id: 1 });
    assert!(matches!(steps[..], [Delivery::TcpEnded { channel: 11 }]));

    let steps = connection.handle_gateway_message(error(None));
    assert!(matches!(&steps[..], [Delivery::GatewayError { failure }] if failure.message() == "CODE: what happened"));
}

#[test]
fn heartbeats_are_answered_and_odd_messages_reported() {
    let mut connection = connected();
    assert!(matches!(
        connection.handle_gateway_message(Message::Ping)[..],
        [Delivery::SendPong]
    ));
    assert!(connection.handle_gateway_message(Message::Pong).is_empty());
    assert!(matches!(
        connection.handle_gateway_message(Message::HttpRequestEnd { stream_id: 1 })[..],
        [Delivery::Unexpected]
    ));
}

#[test]
fn data_goes_to_bodies_first_and_then_to_tcp_streams() {
    let (mut gateway, mut access) = ciphers();
    let mut connection = connected();
    connection.begin_stream(1, 10, 11);
    connection.begin_stream(2, 20, 21);
    connection.begin_streamed_request(2, 22, 23);
    let mut send = |payload: Vec<u8>| {
        encrypt_gateway_message(&mut gateway, WsMessage::Binary(payload)).unwrap()
    };

    let step = connection.handle_gateway_frame(&mut access, send(encode_data_frame(1, b"tcp")), shown());
    let FrameStep::Tcp { stream_id: 1, channel: 11, payload } = step else {
        panic!("expected tcp data");
    };
    assert_eq!(payload.as_slice(), b"tcp");
    let step = connection.handle_gateway_frame(&mut access, send(encode_data_frame(2, b"body")), shown());
    let FrameStep::Body { stream_id: 2, channel: 23, payload } = step else {
        panic!("expected body data");
    };
    assert_eq!(payload, b"body".to_vec());
    let step = connection.handle_gateway_frame(&mut access, send(encode_data_frame(3, b"lost")), shown());
    assert!(matches!(step, FrameStep::UnknownStream { stream_id: 3 }));
    let step = connection.handle_gateway_frame(&mut access, send(b"short".to_vec()), shown());
    assert!(matches!(step, FrameStep::InvalidData { len: 5 }));
    assert_eq!(connection.ensure_gateway_open(false), Ok(()));
}

#[test]
fn texts_are_handed_on() {
    let (mut gateway, mut access) = ciphers();
    let mut connection = connected();
    let sealed =
        encrypt_gateway_message(&mut gateway, WsMessage::Text("{}".to_string())).unwrap();
    let step = connection.handle_gateway_frame(&mut access, sealed, shown());
    assert!(matches!(step, FrameStep::Text(text) if text == "{}"));
    let sealed = gateway.encrypt_from_gateway(TunnelFrameKind::Text, &[0xff]).unwrap();
    let step = connection.handle_gateway_frame(&mut access, WsMessage::Binary(sealed), shown());
    assert!(matches!(step, FrameStep::Undecodable));
}

#[test]
fn plain_frames_close_the_connection() {
    let cases = [
        (WsMessage::Ping(Vec::new()), CloseReason::UnencryptedControl),
        (WsMessage::Pong(Vec::new()), CloseReason::UnencryptedControl),
        (WsMessage::Close, CloseReason::GatewayClosed),
        (
            WsMessage::Text("{}".to_string()),
            CloseReason::FrameRefused(FrameError::Unencrypted { from: Peer::Gateway, shown: shown() }),
        ),
        (
            WsMessage::Frame,
            CloseReason::FrameRefused(FrameError::Unencrypted { from: Peer::Gateway, shown: shown() }),
        ),
        (
            WsMessage::Binary(b"plain data that is long enough".to_vec()),
            CloseReason::FrameRefused(FrameError::Tunnel(TunnelError::InvalidFrame)),
        ),
    ];
    for (frame, expected) in cases {
        let (_, mut access) = ciphers();
        let mut connection = connected();
        connection.begin_stream(1, 10, 11);
        let step = connection.handle_gateway_frame(&mut access, frame, shown());
        let FrameStep::Close { reason, streams: Some(streams) } = step else {
            panic!("expected the connection to close");
        };
        assert_eq!(reason, expected);
        assert_eq!(streams.open_waiters, vec![(1, 10)]);
        assert_eq!(streams.tcp_streams, vec![(1, 11)]);
        assert_eq!(connection.ensure_gateway_open(false), Err(CloseReason::Disconnected));
    }
}

#[test]
fn closing_lists_everything_that_waits() {
    let mut connection = connected();
    connection.begin_stream(1, 10, 11);
    connection.begin_stream(2, 20, 21);
    connection.begin_request(3, 30);
    connection.begin_streamed_request(4, 40, 41);
    let mut streams = connection.close_gateway_connection().unwrap();
    streams.open_waiters.sort();
    streams.tcp_streams.sort();
    assert_eq!(streams.open_waiters, vec![(1, 10), (2, 20)]);
    assert_eq!(streams.tcp_streams, vec![(1, 11), (2, 21)]);
    assert_eq!(streams.http_waiters, vec![(3, 30)]);
    assert_eq!(streams.http_head_waiters, vec![(4, 40)]);
    assert_eq!(streams.http_body_streams, vec![(4, 41)]);
    assert!(streams.reconnect);
    for stream_id in 1..5 {
        assert!(connection.handle_gateway_message(closed(stream_id)).is_empty());
    }
}

#[test]
fn the_wait_for_a_stream_ends_in_one_of_five_ways() {
    let refused = StreamFailure::Gateway { code: "C".to_string(), message: "m".to_string() };
    let cases = [
        (OpenOutcome::Opened, None),
        (OpenOutcome::Refused(refused), Some("gateway error C: m")),
        (
            OpenOutcome::Lost(CloseReason::GatewayClosed),
            Some("gateway error gateway websocket closed"),
        ),
        (OpenOutcome::Abandoned, Some("gateway open waiter canceled")),
        (OpenOutcome::TimedOut, Some("gateway open timeout")),
    ];
    for (outcome, expected) in cases {
        let timed_out = matches!(outcome, OpenOutcome::TimedOut);
        let opened = matches!(outcome, OpenOutcome::Opened);
        let mut connection = connected();
        connection.begin_stream(1, 10, 11);
        match connection.open_finished(1, outcome) {
            Ok(()) => assert!(opened),
            Err((error, message)) => {
                assert_eq!(Some(error.message().as_str()), expected);
                assert_eq!(message.is_some(), timed_out);
                if let Some(message) = &message {
                    assert_eq!(close_reason_of(message), (1, "open_timeout"));
                    assert_eq!(error, OpenError::TimedOut);
                }
            }
        }
        let streams = connection.close_gateway_connection().unwrap();
        assert_eq!(streams.tcp_streams.len(), usize::from(opened));
        assert_eq!(streams.open_waiters.len(), usize::from(!timed_out));
    }
}

#[test]
fn streams_and_requests_are_forgotten_when_they_end() {
    let mut connection = connected();
    connection.begin_stream(1, 10, 11);
    connection.abandon_stream(1);
    connection.begin_stream(2, 20, 21);
    assert_eq!(close_reason_of(&connection.finish_stream(2, true)), (2, "local_closed"));
    connection.begin_stream(3, 30, 31);
    assert_eq!(close_reason_of(&connection.finish_stream(3, false)), (3, "local_error"));
    connection.begin_request(4, 40);
    connection.begin_streamed_request(4, 41, 42);
    connection.abandon_request(4);
    connection.begin_streamed_request(5, 50, 51);
    assert_eq!(close_reason_of(&connection.body_refused(5)), (5, "local_backpressure"));
    connection.begin_stream(6, 60, 61);
    assert_eq!(close_reason_of(&connection.data_refused(6)), (6, "local_backpressure"));
    let mut streams = connection.close_gateway_connection().unwrap();
    streams.open_waiters.sort();
    assert_eq!(streams.open_waiters, vec![(2, 20), (3, 30), (6, 60)]);
    assert!(streams.tcp_streams.is_empty());
    assert!(streams.http_waiters.is_empty());
    assert_eq!(streams.http_head_waiters, vec![(5, 50)]);
    assert!(streams.http_body_streams.is_empty());
}

#[test]
fn waits_double_up_to_half_a_minute() {
    let mut connection = GatewayConnection::new();
    let mut backoff = ReconnectBackoff::new();
    let mut waits = Vec::new();
    for _ in 0..7 {
        let end = session_ended(&mut connection, &mut backoff);
        assert!(end.streams.is_none());
        waits.push(end.wait.unwrap());
    }
    assert_eq!(waits, vec![1, 2, 4, 8, 16, 30, 30]);
}

#[test]
fn a_lost_session_is_replaced_at_once() {
    let mut connection = connected();
    let mut backoff = ReconnectBackoff::new();
    connection.begin_stream(1, 10, 11);
    let end = session_ended(&mut connection, &mut backoff);
    assert_eq!(end.wait, None);
    assert_eq!(end.streams.unwrap().tcp_streams, vec![(1, 11)]);
    assert_eq!(session_ended(&mut connection, &mut backoff).wait, Some(2));
    connection.mark_connected();
    assert_eq!(session_ended(&mut connection, &mut backoff).wait, None);
    assert_eq!(session_ended(&mut connection, &mut backoff).wait, Some(2));
}

#[test]
fn a_stopped_connection_is_not_made_again() {
    let mut connection = connected();
    assert_eq!(connection.session_interrupted(), None);
    assert!(connection.request_gateway_reconnect());
    assert_eq!(connection.session_interrupted(), Some("gateway reconnect requested"));
    assert!(connection.take_reconnect_request());
    assert!(!connection.take_reconnect_request());
    connection.mark_stopped();
    assert!(connection.is_stopped());
    assert!(!connection.request_gateway_reconnect());
    assert_eq!(connection.session_interrupted(), Some("gateway connection stopped"));
    assert!(!connection.close_gateway_connection().unwrap().reconnect);
    assert!(!connection.take_reconnect_request());
}

#[test]
fn silence_is_tolerated_for_a_while() {
    assert!(!idle_timed_out(0));
    assert!(!idle_timed_out(75_000_000_000));
    assert!(idle_timed_out(75_000_000_001));
}

#[test]
fn disconnection_is_recognised_by_any_cause() {
    for cause in [
        "gateway disconnected",
        "gateway websocket closed",
        "gateway websocket write failed",
        "gateway error gateway websocket closed",
        "gateway error gateway websocket write failed",
    ] {
        let causes = vec!["outer".to_string(), cause.to_string()];
        assert!(is_gateway_disconnected_error(&causes));
    }
    assert!(!is_gateway_disconnected_error(&vec!["gateway disconnected!".to_string()]));
    assert!(!is_gateway_disconnected_error(&Vec::new()));
}

#[test]
fn close_reasons_have_their_texts() {
    let cases = [
        (CloseReason::UnencryptedControl, "received unencrypted websocket control frame"),
        (CloseReason::GatewayClosed, "gateway websocket closed"),
        (
            CloseReason::FrameRefused(FrameError::Tunnel(TunnelError::AuthenticationFailed)),
            "encrypted tunnel frame authentication failed",
        ),
        (CloseReason::OutboundClosed, "gateway outbound channel closed"),
        (CloseReason::Disconnected, "gateway disconnected"),
        (CloseReason::Stopped, "gateway connection stopped"),
        (CloseReason::ConfigReloaded, "access config reloaded"),
    ];
    for (reason, text) in cases {
        assert_eq!(reason.message(), text);
    }
}
