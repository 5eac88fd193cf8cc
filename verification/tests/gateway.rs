use ws_net::batch::WsMessage;
use ws_net::config::TargetConfig;
use ws_net::frames::{encrypt_access_message, FrameError, Peer};
use ws_net::gateway::{
    format_error_chain, idle_timed_out, refuse_mode, GatewayAction, GatewaySession, GatewayStep,
    RequestOutcome,
};
use ws_net::message::{
    encode_data_frame, HttpRequestHead, HttpRequestPayload, HttpResponseHead, Message, Mode,
};
use ws_net::tunnel_crypto::{TunnelCipher, TunnelError, TunnelFrameKind};

/// How the messages of these tests are shown.
fn shown() -> String {
    "Shown".to_string()
}

fn target(mode: Mode) -> TargetConfig {
    TargetConfig {
        mode,
        host: "host".to_string(),
        port: 80,
        scheme: None,
        accept_invalid_certs: false,
        rewrite_location: false,
        rewrite_cookie: false,
    }
}

fn open(stream_id: u64, mode: Mode) -> Message {
    Message::Open { stream_id, target: "t".to_string(), config: target(mode) }
}

fn request(stream_id: u64, mode: Mode) -> Message {
    Message::HttpRequest {
        stream_id,
        target: "t".to_string(),
        config: target(mode),
        request: HttpRequestPayload {
            method: "POST".to_string(),
            path_and_query: "/p".to_string(),
            headers: Vec::new(),
            body: b"body".to_vec(),
        },
    }
}

fn request_start(stream_id: u64, mode: Mode) -> Message {
    Message::HttpRequestStart {
        stream_id,
        target: "t".to_string(),
        config: target(mode),
        request: HttpRequestHead {
            method: "GET".to_string(),
            path_and_query: "/p".to_string(),
            headers: Vec::new(),
        },
    }
}

fn close(stream_id: u64) -> Message {
    Message::Close { stream_id, reason: "r".to_string() }
}

fn started(actions: &[GatewayAction]) -> u64 {
    match actions.last() {
        Some(GatewayAction::StartTcp { handle, .. })
        | Some(GatewayAction::StartRequest { handle, .. })
        | Some(GatewayAction::StartStreamedRequest { handle, .. }) => *handle,
        _ => panic!("expected a start"),
    }
}

fn error_of(message: &Message) -> (Option<u64>, &str, &str) {
    match message {
        Message::Error { stream_id, code, message } => (*stream_id, code, message),
        other => panic!("expected an error, got {other:?}"),
    }
}

fn close_of(message: &Message) -> (u64, &str) {
    match message {
        Message::Close { stream_id, reason } => (*stream_id, reason),
        other => panic!("expected a close message, got {other:?}"),
    }
}

#[test]
fn old_stream_cannot_remove_replacement_cancellation() {
    let mut session = GatewaySession::new();
    let old = started(&session.handle_message(open(7, Mode::Tcp)));
    let replacement = started(&session.handle_message(open(7, Mode::Tcp)));
    assert_ne!(old, replacement);

    session.tcp_finished(7, old, None);
    let actions = session.handle_message(close(7));
    assert!(matches!(actions[..], [GatewayAction::Cancel { handle }] if handle == replacement));
}

#[test]
fn a_stream_whose_number_is_used_again_goes_on() {
    let mut session = GatewaySession::new();
    let old = started(&session.handle_message(open(7, Mode::Tcp)));
    let actions = session.handle_message(open(7, Mode::Tcp));
    assert!(matches!(actions[..], [GatewayAction::StartTcp { handle, .. }] if handle != old));
    let replacement = started(&actions);

    let actions = session.handle_message(close(7));
    assert!(matches!(actions[..], [GatewayAction::Cancel { handle }] if handle == replacement));
    let ended = session.end();
    assert!(ended.cancels.is_empty());
    assert_eq!(ended.superseded, vec![(old, 7)]);
}

#[test]
fn a_stream_that_went_on_is_forgotten_when_it_finishes() {
    let mut session = GatewaySession::new();
    let old = started(&session.handle_message(request(7, Mode::Http)));
    let replacement = started(&session.handle_message(request(7, Mode::Http)));
    session.request_finished(7, old, RequestOutcome::Cancelled, None, Vec::new());
    let ended = session.end();
    assert!(ended.superseded.is_empty());
    assert_eq!(ended.cancels, vec![(7, replacement)]);
}

#[test]
fn the_data_of_a_number_goes_to_one_stream() {
    let mut session = GatewaySession::new();
    let old = started(&session.handle_message(open(7, Mode::Tcp)));
    let replacement = started(&session.handle_message(open(7, Mode::Tcp)));
    assert_eq!(session.tcp_connected(7, old).1, None);
    assert_eq!(session.tcp_connected(7, replacement).1, Some(old));
    assert_eq!(session.tcp_finished(7, old, None).1, Some(replacement));
    assert_eq!(session.tcp_finished(7, replacement, None).1, None);

    let old = started(&session.handle_message(request_start(8, Mode::Http)));
    let actions = session.handle_message(request_start(8, Mode::Http));
    assert!(matches!(
        actions[..],
        [GatewayAction::EndBody { handle }, GatewayAction::StartStreamedRequest { .. }]
            if handle == old
    ));
    let replacement = started(&actions);
    assert_eq!(
        session.streamed_request_finished(8, old, RequestOutcome::Done).1,
        Some(replacement)
    );
}

#[test]
fn streams_start_only_towards_targets_of_their_mode() {
    let mut session = GatewaySession::new();
    for (message, expected) in [
        (open(1, Mode::Http), Mode::Tcp),
        (request(1, Mode::Tcp), Mode::Http),
        (request_start(1, Mode::Tcp), Mode::Http),
    ] {
        let actions = session.handle_message(message);
        let [GatewayAction::RefuseMode { stream_id: 1, expected: mode }] = actions[..] else {
            panic!("expected a refusal");
        };
        assert_eq!(mode, expected);
    }
    assert!(session.handle_message(close(1)).is_empty());
    assert_eq!(
        error_of(&refuse_mode(1, Mode::Tcp)),
        (Some(1), "MODE_NOT_SUPPORTED", "target is not tcp")
    );
    assert_eq!(
        error_of(&refuse_mode(1, Mode::Http)),
        (Some(1), "MODE_NOT_SUPPORTED", "target is not http")
    );
}

#[test]
fn started_streams_carry_what_the_message_said() {
    let mut session = GatewaySession::new();
    let actions = session.handle_message(open(1, Mode::Tcp));
    let [GatewayAction::StartTcp { stream_id: 1, target, config, .. }] = &actions[..] else {
        panic!("expected a start");
    };
    assert_eq!(target, "t");
    assert_eq!(config.host, "host");
    let actions = session.handle_message(request(2, Mode::Http));
    let [GatewayAction::StartRequest { stream_id: 2, request, .. }] = &actions[..] else {
        panic!("expected a start");
    };
    assert_eq!(request.body, b"body".to_vec());
    let actions = session.handle_message(request_start(3, Mode::Http));
    let [GatewayAction::StartStreamedRequest { stream_id: 3, request, .. }] = &actions[..] else {
        panic!("expected a start");
    };
    assert_eq!(request.method, "GET");
}

#[test]
fn closing_ends_data_and_cancels() {
    let mut session = GatewaySession::new();
    let tcp = started(&session.handle_message(open(1, Mode::Tcp)));
    assert!(matches!(
        session.tcp_connected(1, tcp),
        (Message::OpenOk { stream_id: 1 }, None)
    ));
    let actions = session.handle_message(close(1));
    assert!(matches!(
        actions[..],
        [GatewayAction::EndTcp { handle: a }, GatewayAction::Cancel { handle: b }]
            if a == tcp && b == tcp
    ));
    assert!(session.handle_message(close(1)).is_empty());

    let http = started(&session.handle_message(request_start(2, Mode::Http)));
    let actions = session.handle_message(close(2));
    assert!(matches!(
        actions[..],
        [GatewayAction::EndBody { handle: a }, GatewayAction::Cancel { handle: b }]
            if a == http && b == http
    ));
}

#[test]
fn ends_of_data_are_passed_on_once() {
    let mut session = GatewaySession::new();
    let tcp = started(&session.handle_message(open(1, Mode::Tcp)));
    session.tcp_connected(1, tcp);
    let actions = session.handle_message(Message::TcpEof { stream_id: 1 });
    assert!(matches!(actions[..], [GatewayAction::EndTcp { handle }] if handle == tcp));
    assert!(session.handle_message(Message::TcpEof { stream_id: 1 }).is_empty());

    let http = started(&session.handle_message(request_start(2, Mode::Http)));
    let actions = session.handle_message(Message::HttpRequestEnd { stream_id: 2 });
    assert!(matches!(actions[..], [GatewayAction::EndBody { handle }] if handle == http));
    assert!(session.handle_message(Message::HttpRequestEnd { stream_id: 2 }).is_empty());
}

#[test]
fn gateway_answers_heartbeats_and_reports_odd_messages() {
    let mut session = GatewaySession::new();
    assert!(matches!(session.handle_message(Message::Ping)[..], [GatewayAction::SendPong]));
    assert!(session.handle_message(Message::Pong).is_empty());
    assert!(matches!(
        session.handle_message(Message::OpenOk { stream_id: 1 })[..],
        [GatewayAction::Unexpected]
    ));
}

#[test]
fn finished_tcp_streams_are_reported() {
    let mut session = GatewaySession::new();
    let tcp = started(&session.handle_message(open(1, Mode::Tcp)));
    session.tcp_connected(1, tcp);
    let (messages, _) = session.tcp_finished(1, tcp, Some("connect target host:80".to_string()));
    assert_eq!(messages.len(), 2);
    assert_eq!(
        error_of(&messages[0]),
        (Some(1), "TCP_TARGET_ERROR", "connect target host:80")
    );
    assert_eq!(close_of(&messages[1]), (1, "target_closed"));
    assert!(session.handle_message(close(1)).is_empty());
    let (messages, _) = session.tcp_finished(2, 9, None);
    assert_eq!(messages.len(), 1);
    assert_eq!(close_of(&messages[0]), (2, "target_closed"));
}

#[test]
fn finished_requests_are_reported() {
    let causes = || vec!["outer".to_string(), "inner".to_string()];
    let mut session = GatewaySession::new();
    let mut streamed = |outcome| {
        let handle = started(&session.handle_message(request_start(1, Mode::Http)));
        let (message, ended) = session.streamed_request_finished(1, handle, outcome);
        assert_eq!(ended, Some(handle));
        assert!(session.handle_message(close(1)).is_empty());
        message
    };
    assert!(matches!(
        streamed(RequestOutcome::Done),
        Some(Message::HttpResponseEnd { stream_id: 1 })
    ));
    let failed = streamed(RequestOutcome::Failed { causes: causes() }).unwrap();
    assert_eq!(error_of(&failed), (Some(1), "HTTP_TARGET_ERROR", "outer: inner"));
    assert!(streamed(RequestOutcome::Cancelled).is_none());

    let mut collected = |outcome, head| {
        let handle = started(&session.handle_message(request(2, Mode::Http)));
        let message = session.request_finished(2, handle, outcome, head, b"body".to_vec());
        assert!(session.handle_message(close(2)).is_empty());
        message
    };
    let head = HttpResponseHead { status: 201, headers: vec![("k".to_string(), "v".to_string())] };
    let Some(Message::HttpResponse { stream_id: 2, response }) =
        collected(RequestOutcome::Done, Some(head))
    else {
        panic!("expected a response");
    };
    assert_eq!(response.status, 201);
    assert_eq!(response.headers, vec![("k".to_string(), "v".to_string())]);
    assert_eq!(response.body, b"body".to_vec());
    let missing = collected(RequestOutcome::Done, None).unwrap();
    assert_eq!(
        error_of(&missing),
        (Some(2), "HTTP_TARGET_ERROR", "target response head missing")
    );
    let failed = collected(RequestOutcome::Failed { causes: causes() }, None).unwrap();
    assert_eq!(error_of(&failed), (Some(2), "HTTP_TARGET_ERROR", "outer: inner"));
    assert!(collected(RequestOutcome::Cancelled, None).is_none());
}

#[test]
fn data_of_the_access_goes_to_bodies_first_and_then_to_tcp_streams() {
    let mut access = TunnelCipher::from_shared_key("secret").unwrap();
    let mut gateway = TunnelCipher::from_shared_key("secret").unwrap();
    let mut session = GatewaySession::new();
    let tcp = started(&session.handle_message(open(1, Mode::Tcp)));
    session.tcp_connected(1, tcp);
    let http = started(&session.handle_message(request_start(2, Mode::Http)));
    session.tcp_connected(2, tcp);
    let mut send = |message: WsMessage| encrypt_access_message(&mut access, message).unwrap();

    let frame = send(WsMessage::Binary(encode_data_frame(1, b"tcp")));
    let GatewayStep::Tcp { stream_id: 1, handle, payload } =
        session.handle_frame(&mut gateway, frame, shown())
    else {
        panic!("expected tcp data");
    };
    assert_eq!(handle, tcp);
    assert_eq!(payload.as_slice(), b"tcp");
    let frame = send(WsMessage::Binary(encode_data_frame(2, b"body")));
    let GatewayStep::Body { stream_id: 2, handle, payload } =
        session.handle_frame(&mut gateway, frame, shown())
    else {
        panic!("expected body data");
    };
    assert_eq!(handle, http);
    assert_eq!(payload, b"body".to_vec());
    let frame = send(WsMessage::Binary(encode_data_frame(3, b"lost")));
    assert!(matches!(
        session.handle_frame(&mut gateway, frame, shown()),
        GatewayStep::UnknownStream { stream_id: 3 }
    ));
    let frame = send(WsMessage::Binary(b"short".to_vec()));
    assert!(matches!(
        session.handle_frame(&mut gateway, frame, shown()),
        GatewayStep::InvalidData { len: 5 }
    ));
    let frame = send(WsMessage::Text("{}".to_string()));
    assert!(matches!(
        session.handle_frame(&mut gateway, frame, shown()),
        GatewayStep::Text(text) if text == "{}"
    ));

    assert_eq!(
        error_of(&session.body_refused(2)),
        (Some(2), "HTTP_BODY_BACKPRESSURE", "request body channel is full")
    );
    assert_eq!(close_of(&session.data_refused(1)), (1, "target_backpressure"));
    let frame = send(WsMessage::Binary(encode_data_frame(1, b"late")));
    assert!(matches!(
        session.handle_frame(&mut gateway, frame, shown()),
        GatewayStep::UnknownStream { stream_id: 1 }
    ));
}

#[test]
fn plain_frames_end_the_session() {
    let session = GatewaySession::new();
    let mut cipher = TunnelCipher::from_shared_key("secret").unwrap();
    assert!(matches!(
        session.handle_frame(&mut cipher, WsMessage::Close, shown()),
        GatewayStep::Ended
    ));
    for frame in [
        WsMessage::Text("{}".to_string()),
        WsMessage::Ping(Vec::new()),
        WsMessage::Pong(Vec::new()),
        WsMessage::Frame,
    ] {
        assert!(matches!(
            session.handle_frame(&mut cipher, frame, shown()),
            GatewayStep::Refused(FrameError::Unencrypted { from: Peer::Access, shown }) if shown == "Shown"
        ));
    }
    let frame = WsMessage::Binary(b"plain data that is long enough".to_vec());
    assert!(matches!(
        session.handle_frame(&mut cipher, frame, shown()),
        GatewayStep::Refused(FrameError::Tunnel(TunnelError::InvalidFrame))
    ));
    let mut access = TunnelCipher::from_shared_key("secret").unwrap();
    let frame = access.encrypt_from_access(TunnelFrameKind::Text, &[0xff]).unwrap();
    assert!(matches!(
        session.handle_frame(&mut cipher, WsMessage::Binary(frame), shown()),
        GatewayStep::NotUtf8 { explanation }
            if explanation == "invalid utf-8 sequence of 1 bytes from index 0"
    ));
}

#[test]
fn the_end_of_a_session_lists_all_that_is_under_way() {
    let mut session = GatewaySession::new();
    let tcp = started(&session.handle_message(open(1, Mode::Tcp)));
    session.tcp_connected(1, tcp);
    let http = started(&session.handle_message(request_start(2, Mode::Http)));
    let mut ended = session.end();
    ended.cancels.sort();
    assert_eq!(ended.streams, vec![(1, tcp)]);
    assert_eq!(ended.http_bodies, vec![(2, http)]);
    assert_eq!(ended.cancels, vec![(1, tcp), (2, http)]);
    assert!(session.end().cancels.is_empty());
}

#[test]
fn error_chains_are_joined() {
    assert_eq!(format_error_chain(&Vec::new()), "");
    assert_eq!(format_error_chain(&vec!["a".to_string()]), "a");
    assert_eq!(
        format_error_chain(&vec!["a".to_string(), "b".to_string(), "c".to_string()]),
        "a: b: c"
    );
}

#[test]
fn the_access_may_be_silent_for_a_while() {
    assert!(!idle_timed_out(75_000_000_000));
    assert!(idle_timed_out(75_000_000_001));
}
