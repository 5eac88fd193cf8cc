use ws_net::batch::WsMessage;
use ws_net::frames::{
    decode_access_text, decode_gateway_text, decrypt_access_frame, decrypt_gateway_frame,
    encrypt_access_message, encrypt_gateway_message, FrameError, Peer, TextError,
};
use ws_net::handshake::{
    accept, register, AccessHandshake, GatewayHandshake, RegisterError, Registration,
};
use ws_net::message::{encode_data_frame, Message};
use ws_net::tunnel_crypto::{EphemeralKeyPair, TunnelCipher, TunnelError, TunnelFrameKind};

/// How the messages of these tests are shown.
fn shown() -> String {
    "Shown".to_string()
}

fn client_key(message: &Message) -> Vec<u8> {
    match message {
        Message::RegisterAccess { client_public_key, .. } => client_public_key.clone(),
        other => panic!("expected registration, got {other:?}"),
    }
}

fn sessions() -> (TunnelCipher, TunnelCipher) {
    let (access, registration) = AccessHandshake::start("token").unwrap();
    let pair = EphemeralKeyPair::generate().unwrap();
    let (at_gateway, reply) = accept(pair, &client_key(&registration)).unwrap();
    (access.finish(reply, shown()).unwrap(), at_gateway)
}

#[test]
fn both_ends_come_to_the_same_session() {
    let (mut access, registration) = AccessHandshake::start("token").unwrap();
    let mut gateway = GatewayHandshake::start("token").unwrap();

    let sent = access.encrypt(WsMessage::Text("register".to_string())).unwrap();
    assert!(matches!(sent, WsMessage::Binary(_)));
    assert_eq!(gateway.read(sent, shown()), Ok("register".to_string()));

    let Registration::Accepted { client_public_key } = register(registration, "token") else {
        panic!("expected the access to be accepted");
    };
    let pair = EphemeralKeyPair::generate().unwrap();
    let gateway_key = pair.public_key().to_vec();
    let (mut at_gateway, reply) = accept(pair, &client_public_key).unwrap();
    assert!(matches!(&reply, Message::RegisterOk { gateway_public_key } if *gateway_public_key == gateway_key));
    let answer = gateway.encrypt(WsMessage::Text("registered".to_string())).unwrap();
    assert_eq!(access.read(answer, shown()), Ok("registered".to_string()));
    let mut at_access = access.finish(reply, shown()).unwrap();

    let sealed =
        encrypt_access_message(&mut at_access, WsMessage::Text("héllo".to_string())).unwrap();
    assert_eq!(decode_access_text(&mut at_gateway, sealed, shown()), Ok("héllo".to_string()));
    let frame = encode_data_frame(5, b"data");
    let sealed = encrypt_gateway_message(&mut at_gateway, WsMessage::Binary(frame.clone())).unwrap();
    assert_eq!(
        decrypt_gateway_frame(&mut at_access, sealed, shown()),
        Ok((TunnelFrameKind::Binary, frame))
    );
}

#[test]
fn a_handshake_begins_with_the_given_key_pair() {
    let cipher = TunnelCipher::from_shared_key("token").unwrap();
    let pair = EphemeralKeyPair::generate().unwrap();
    let public_key = pair.public_key().to_vec();
    let (mut access, registration) = AccessHandshake::begin(cipher, pair, "token");
    let Message::RegisterAccess { token, client_public_key } = registration else {
        panic!("expected a registration");
    };
    assert_eq!(token, "token");
    assert_eq!(client_public_key, public_key);

    let mut gateway = GatewayHandshake::start("token").unwrap();
    let sent = access.encrypt(WsMessage::Text("register".to_string())).unwrap();
    assert_eq!(gateway.read(sent, shown()), Ok("register".to_string()));
    let (mut at_gateway, reply) =
        accept(EphemeralKeyPair::generate().unwrap(), &client_public_key).unwrap();
    let mut at_access = access.finish(reply, shown()).unwrap();
    let sealed =
        encrypt_gateway_message(&mut at_gateway, WsMessage::Text("hello".to_string())).unwrap();
    assert_eq!(decode_gateway_text(&mut at_access, sealed, shown()), Ok("hello".to_string()));
}

#[test]
fn a_wrong_token_is_refused() {
    let (_, registration) = AccessHandshake::start("other token").unwrap();
    let Registration::Refused { reply } = register(registration, "token") else {
        panic!("expected the access to be refused");
    };
    let Message::Error { stream_id: None, code, message } = &reply else {
        panic!("expected an error");
    };
    assert_eq!(code, "UNAUTHORIZED");
    assert_eq!(message, "invalid access token");

    let (access, _) = AccessHandshake::start("other token").unwrap();
    let error = access.finish(reply, shown()).err().unwrap();
    assert!(matches!(
        &error,
        RegisterError::Gateway { code, message }
            if code == "UNAUTHORIZED" && message == "invalid access token"
    ));
    assert_eq!(error.message(), "gateway error UNAUTHORIZED: invalid access token");
}

#[test]
fn ends_with_different_tokens_cannot_read_each_other() {
    let (mut access, _) = AccessHandshake::start("one").unwrap();
    let mut gateway = GatewayHandshake::start("two").unwrap();
    let sent = access.encrypt(WsMessage::Text("register".to_string())).unwrap();
    assert_eq!(
        gateway.read(sent, shown()),
        Err(TextError::Frame(FrameError::Tunnel(TunnelError::AuthenticationFailed)))
    );
}

#[test]
fn blank_tokens_are_not_accepted() {
    assert_eq!(AccessHandshake::start(" ").err(), Some(TunnelError::EmptySecret));
    assert_eq!(GatewayHandshake::start("").err(), Some(TunnelError::EmptySecret));
}

#[test]
fn only_a_registration_registers() {
    assert!(matches!(register(Message::Ping, "token"), Registration::NotRegistration));
}

#[test]
fn unexpected_answers_and_keys_give_no_session() {
    let (access, _) = AccessHandshake::start("token").unwrap();
    let error = access.finish(Message::Pong, shown()).err().unwrap();
    assert_eq!(error, RegisterError::Unexpected { shown: shown() });
    assert_eq!(error.message(), "unexpected register response: Shown");

    let (access, _) = AccessHandshake::start("token").unwrap();
    let error = access
        .finish(Message::RegisterOk { gateway_public_key: vec![1, 2, 3] }, shown())
        .err()
        .unwrap();
    assert!(matches!(error, RegisterError::Tunnel(TunnelError::InvalidPeerKey)));
    assert_eq!(error.message(), "invalid tunnel peer public key");

    let pair = EphemeralKeyPair::generate().unwrap();
    assert_eq!(accept(pair, &[0; 32]).err(), Some(TunnelError::InvalidPeerKey));
}

#[test]
fn every_plain_message_is_refused() {
    let (mut access, mut gateway) = sessions();
    let plain = [
        WsMessage::Text("{\"type\":\"PING\"}".to_string()),
        WsMessage::Ping(vec![1]),
        WsMessage::Pong(vec![1]),
        WsMessage::Close,
        WsMessage::Frame,
    ];
    for message in plain {
        assert_eq!(
            decrypt_gateway_frame(&mut access, message.clone(), shown()),
            Err(FrameError::Unencrypted { from: Peer::Gateway, shown: shown() })
        );
        assert_eq!(
            decrypt_access_frame(&mut gateway, message, shown()),
            Err(FrameError::Unencrypted { from: Peer::Access, shown: shown() })
        );
    }
    assert_eq!(
        decrypt_access_frame(&mut gateway, WsMessage::Binary(encode_data_frame(1, b"plain data that is long")), shown()),
        Err(FrameError::Tunnel(TunnelError::InvalidFrame))
    );
}

#[test]
fn control_messages_pass_the_cipher_as_they_are() {
    let (mut access, mut gateway) = sessions();
    assert_eq!(encrypt_access_message(&mut access, WsMessage::Close), Ok(WsMessage::Close));
    assert_eq!(
        encrypt_gateway_message(&mut gateway, WsMessage::Ping(vec![9])),
        Ok(WsMessage::Ping(vec![9]))
    );
    let sealed = encrypt_access_message(&mut access, WsMessage::Text("first".to_string())).unwrap();
    assert_eq!(decode_access_text(&mut gateway, sealed, shown()), Ok("first".to_string()));
}

#[test]
fn texts_must_be_texts() {
    let (mut access, mut gateway) = sessions();
    let sealed = encrypt_gateway_message(&mut gateway, WsMessage::Binary(b"data".to_vec())).unwrap();
    assert_eq!(
        decode_gateway_text(&mut access, sealed, shown()),
        Err(TextError::NotText { from: Peer::Gateway })
    );
    let sealed = encrypt_access_message(&mut access, WsMessage::Binary(b"data".to_vec())).unwrap();
    assert_eq!(
        decode_access_text(&mut gateway, sealed, shown()),
        Err(TextError::NotText { from: Peer::Access })
    );
    let sealed = gateway.encrypt_from_gateway(TunnelFrameKind::Text, &[b'a', 0xfe]).unwrap();
    assert_eq!(
        decode_gateway_text(&mut access, WsMessage::Binary(sealed), shown()),
        Err(TextError::NotUtf8 {
            explanation: "invalid utf-8 sequence of 1 bytes from index 1".to_string()
        })
    );
    assert_eq!(
        TextError::NotText { from: Peer::Gateway }.message(),
        "expected encrypted gateway text message"
    );
    assert_eq!(
        TextError::NotText { from: Peer::Access }.message(),
        "expected encrypted access text message"
    );
    let error = TextError::NotUtf8 { explanation: "explained".to_string() };
    assert_eq!(error.message(), "explained");
    let error = FrameError::Unencrypted { from: Peer::Gateway, shown: "Ping([])".to_string() };
    assert_eq!(
        TextError::Frame(error).message(),
        "unexpected unencrypted gateway websocket message: Ping([])"
    );
    assert_eq!(
        FrameError::Unencrypted { from: Peer::Gateway, shown: shown() }.message(),
        "unexpected unencrypted gateway websocket message: Shown"
    );
    assert_eq!(
        FrameError::Unencrypted { from: Peer::Access, shown: shown() }.message(),
        "unexpected unencrypted access websocket message: Shown"
    );
    assert_eq!(
        FrameError::Tunnel(TunnelError::InvalidFrame).message(),
        "invalid encrypted tunnel frame"
    );
}
