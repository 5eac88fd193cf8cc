use ring::aead::{Aad, LessSafeKey, Nonce, UnboundKey, CHACHA20_POLY1305};
use ring::hkdf::{Salt, HKDF_SHA256};
use ws_net::tunnel_crypto::{
    sequence_nonce, DirectionCipher, EphemeralKeyPair, TunnelCipher, TunnelError, TunnelFrameKind,
    FRAME_HEADER_LEN, FRAME_TAG_LEN, MAX_ENCRYPTED_TUNNEL_FRAME_SIZE, MAX_TUNNEL_PAYLOAD_SIZE,
};

#[test]
fn encrypts_authenticates_and_rejects_replay() {
    let mut sender = TunnelCipher::from_shared_key("0123456789abcdef0123456789abcdef").unwrap();
    let mut receiver = TunnelCipher::from_shared_key("0123456789abcdef0123456789abcdef").unwrap();
    let frame = sender
        .encrypt_from_access(TunnelFrameKind::Binary, b"private payload")
        .unwrap();
    assert!(!frame
        .windows(b"private payload".len())
        .any(|part| part == b"private payload"));
    assert_eq!(
        receiver.decrypt_from_access(frame.clone()).unwrap(),
        (TunnelFrameKind::Binary, b"private payload".to_vec())
    );
    assert!(receiver.decrypt_from_access(frame).is_err());
}

#[test]
fn rejects_tampering_and_wrong_direction() {
    let mut sender = TunnelCipher::from_shared_key("0123456789abcdef0123456789abcdef").unwrap();
    let mut receiver = TunnelCipher::from_shared_key("0123456789abcdef0123456789abcdef").unwrap();
    let frame = sender
        .encrypt_from_access(TunnelFrameKind::Text, b"authenticated")
        .unwrap();
    assert!(receiver.decrypt_from_gateway(frame.clone()).is_err());
    let mut tampered = frame;
    *tampered.last_mut().unwrap() ^= 1;
    assert!(receiver.decrypt_from_access(tampered).is_err());
}

#[test]
fn decrypts_sequential_frames_and_rejects_out_of_order_frames() {
    let mut sender = TunnelCipher::from_shared_key("0123456789abcdef0123456789abcdef").unwrap();
    let mut receiver = TunnelCipher::from_shared_key("0123456789abcdef0123456789abcdef").unwrap();
    let first = sender
        .encrypt_from_access(TunnelFrameKind::Text, b"first")
        .unwrap();
    let second = sender
        .encrypt_from_access(TunnelFrameKind::Binary, b"second")
        .unwrap();

    assert!(receiver.decrypt_from_access(second.clone()).is_err());
    assert_eq!(
        receiver.decrypt_from_access(first).unwrap(),
        (TunnelFrameKind::Text, b"first".to_vec())
    );
    assert_eq!(
        receiver.decrypt_from_access(second).unwrap(),
        (TunnelFrameKind::Binary, b"second".to_vec())
    );
}

#[test]
fn direction_sequences_are_independent() {
    let mut sender = TunnelCipher::from_shared_key("0123456789abcdef0123456789abcdef").unwrap();
    let mut receiver = TunnelCipher::from_shared_key("0123456789abcdef0123456789abcdef").unwrap();
    let access_frame = sender
        .encrypt_from_access(TunnelFrameKind::Binary, b"request")
        .unwrap();
    let gateway_frame = sender
        .encrypt_from_gateway(TunnelFrameKind::Binary, b"response")
        .unwrap();

    assert_eq!(
        receiver.decrypt_from_gateway(gateway_frame).unwrap().1,
        b"response"
    );
    assert_eq!(
        receiver.decrypt_from_access(access_frame).unwrap().1,
        b"request"
    );
}

#[test]
fn enforces_encrypted_frame_size_limit() {
    let mut cipher = TunnelCipher::from_shared_key("0123456789abcdef0123456789abcdef").unwrap();
    let maximum_payload = MAX_ENCRYPTED_TUNNEL_FRAME_SIZE - FRAME_HEADER_LEN - FRAME_TAG_LEN - 1;
    let frame = cipher
        .encrypt_from_access(TunnelFrameKind::Binary, &vec![0_u8; maximum_payload])
        .unwrap();
    assert_eq!(frame.len(), MAX_ENCRYPTED_TUNNEL_FRAME_SIZE);
    assert!(cipher
        .encrypt_from_gateway(TunnelFrameKind::Binary, &vec![0_u8; maximum_payload + 1])
        .is_err());

    let mut receiver = TunnelCipher::from_shared_key("0123456789abcdef0123456789abcdef").unwrap();
    let mut oversized = frame;
    oversized.push(0);
    assert!(receiver.decrypt_from_access(oversized).is_err());
}

#[test]
fn derives_a_unique_matching_session_key_pair() {
    let access = EphemeralKeyPair::generate().unwrap();
    let gateway = EphemeralKeyPair::generate().unwrap();
    let access_public_key = access.public_key().to_vec();
    let gateway_public_key = gateway.public_key().to_vec();
    let mut access_cipher = access.derive_session_cipher(&gateway_public_key).unwrap();
    let mut gateway_cipher = gateway.derive_session_cipher(&access_public_key).unwrap();
    let frame = access_cipher
        .encrypt_from_access(TunnelFrameKind::Text, b"rotated session key")
        .unwrap();
    assert_eq!(
        gateway_cipher.decrypt_from_access(frame).unwrap(),
        (TunnelFrameKind::Text, b"rotated session key".to_vec())
    );
}

fn bootstrap_key(direction: &[u8]) -> [u8; 32] {
    let salt = Salt::new(HKDF_SHA256, b"ws-net tunnel hkdf salt v2");
    let prk = salt.extract(b"shared secret");
    let info = [b"ws-net/bootstrap/v2" as &[u8], direction];
    let okm = prk.expand(&info, &CHACHA20_POLY1305).unwrap();
    let mut key = [0_u8; 32];
    okm.fill(&mut key).unwrap();
    key
}

fn sealed(direction: &[u8], nonce: [u8; 12], plaintext: &[u8]) -> Vec<u8> {
    let key = UnboundKey::new(&CHACHA20_POLY1305, &bootstrap_key(direction)).unwrap();
    let mut bytes = plaintext.to_vec();
    LessSafeKey::new(key)
        .seal_in_place_append_tag(
            Nonce::assume_unique_for_key(nonce),
            Aad::from(direction),
            &mut bytes,
        )
        .unwrap();
    bytes
}

#[test]
fn frames_have_the_documented_layout() {
    let mut cipher = TunnelCipher::from_shared_key("shared secret").unwrap();

    let mut expected = b"WSNE\0\0\0\0\0\0\0\0".to_vec();
    expected.extend(sealed(
        b"ws-net/access-to-gateway/v2",
        *b"A2GW\0\0\0\0\0\0\0\0",
        b"\x01hello",
    ));
    assert_eq!(
        cipher.encrypt_from_access(TunnelFrameKind::Text, b"hello"),
        Ok(expected)
    );

    let mut expected = b"WSNE\0\0\0\0\0\0\0\x01".to_vec();
    expected.extend(sealed(
        b"ws-net/access-to-gateway/v2",
        *b"A2GW\0\0\0\0\0\0\0\x01",
        b"\x02again",
    ));
    assert_eq!(
        cipher.encrypt_from_access(TunnelFrameKind::Binary, b"again"),
        Ok(expected)
    );

    let mut expected = b"WSNE\0\0\0\0\0\0\0\0".to_vec();
    expected.extend(sealed(
        b"ws-net/gateway-to-access/v2",
        *b"G2AC\0\0\0\0\0\0\0\0",
        b"\x01",
    ));
    assert_eq!(
        cipher.encrypt_from_gateway(TunnelFrameKind::Text, b""),
        Ok(expected)
    );
}

#[test]
fn unknown_kinds_are_refused_but_count_as_received() {
    let mut receiver = TunnelCipher::from_shared_key("shared secret").unwrap();
    let mut odd = b"WSNE\0\0\0\0\0\0\0\0".to_vec();
    odd.extend(sealed(
        b"ws-net/access-to-gateway/v2",
        *b"A2GW\0\0\0\0\0\0\0\0",
        b"\x03odd",
    ));
    assert_eq!(
        receiver.decrypt_from_access(odd.clone()),
        Err(TunnelError::UnknownKind)
    );
    assert_eq!(
        receiver.decrypt_from_access(odd),
        Err(TunnelError::UnexpectedSequence { expected: 1, received: 0 })
    );
}

#[test]
fn refused_frames_leave_the_receiver_where_it_was() {
    let mut sender = TunnelCipher::from_shared_key("shared secret").unwrap();
    let mut receiver = TunnelCipher::from_shared_key("shared secret").unwrap();
    let frame = sender.encrypt_from_access(TunnelFrameKind::Text, b"once").unwrap();

    assert_eq!(receiver.decrypt_from_access(Vec::new()), Err(TunnelError::InvalidFrame));
    assert_eq!(
        receiver.decrypt_from_access(b"plain text that is long enough".to_vec()),
        Err(TunnelError::InvalidFrame)
    );
    assert_eq!(
        receiver.decrypt_from_access(frame[..28].to_vec()),
        Err(TunnelError::InvalidFrame)
    );
    let mut long = frame.clone();
    long.resize(MAX_ENCRYPTED_TUNNEL_FRAME_SIZE + 1, 0);
    assert_eq!(receiver.decrypt_from_access(long), Err(TunnelError::FrameTooLarge));
    let mut altered = frame.clone();
    altered[12] ^= 1;
    assert_eq!(
        receiver.decrypt_from_access(altered),
        Err(TunnelError::AuthenticationFailed)
    );
    let mut other = frame.clone();
    other[11] = 5;
    assert_eq!(
        receiver.decrypt_from_access(other),
        Err(TunnelError::UnexpectedSequence { expected: 0, received: 5 })
    );
    assert_eq!(
        receiver.decrypt_from_access(frame),
        Ok((TunnelFrameKind::Text, b"once".to_vec()))
    );
}

#[test]
fn refuses_unusable_secrets_payloads_and_keys() {
    assert_eq!(
        TunnelCipher::from_shared_key(" \t\n").err(),
        Some(TunnelError::EmptySecret)
    );
    assert_eq!(
        TunnelCipher::from_shared_key("").err(),
        Some(TunnelError::EmptySecret)
    );
    let mut cipher = TunnelCipher::from_shared_key("shared secret").unwrap();
    assert_eq!(
        cipher.encrypt_from_access(
            TunnelFrameKind::Binary,
            &vec![0; MAX_ENCRYPTED_TUNNEL_FRAME_SIZE]
        ),
        Err(TunnelError::PayloadTooLarge)
    );
    for peer in [&[1_u8; 31] as &[u8], &[0_u8; 32], &[]] {
        let pair = EphemeralKeyPair::generate().unwrap();
        assert_eq!(
            pair.derive_session_cipher(peer).err(),
            Some(TunnelError::InvalidPeerKey)
        );
    }
}

#[test]
fn key_pairs_and_sessions_differ() {
    let a = EphemeralKeyPair::generate().unwrap();
    let b = EphemeralKeyPair::generate().unwrap();
    assert_eq!(a.public_key().len(), 32);
    assert_ne!(a.public_key(), b.public_key());
    let peer = EphemeralKeyPair::generate().unwrap();
    let key = peer.public_key().to_vec();
    let mut at_a = a.derive_session_cipher(&key).unwrap();
    let mut at_b = b.derive_session_cipher(&key).unwrap();
    let frame = at_a.encrypt_from_access(TunnelFrameKind::Text, b"for one").unwrap();
    assert_eq!(
        at_b.decrypt_from_access(frame),
        Err(TunnelError::AuthenticationFailed)
    );
}

#[test]
fn tunnel_errors_have_their_texts() {
    assert_eq!(
        TunnelError::UnexpectedSequence { expected: 7, received: 1234567890 }.message(),
        "unexpected tunnel frame sequence: expected 7, received 1234567890"
    );
    let texts = [
        (TunnelError::PayloadTooLarge, "tunnel frame payload exceeds maximum size"),
        (TunnelError::SendSequenceExhausted, "tunnel send sequence exhausted"),
        (TunnelError::EncryptionFailed, "failed to encrypt tunnel frame"),
        (TunnelError::InvalidFrame, "invalid encrypted tunnel frame"),
        (TunnelError::FrameTooLarge, "encrypted tunnel frame exceeds maximum size"),
        (TunnelError::AuthenticationFailed, "encrypted tunnel frame authentication failed"),
        (TunnelError::ReceiveSequenceExhausted, "tunnel receive sequence exhausted"),
        (TunnelError::UnknownKind, "encrypted tunnel frame has unknown type"),
        (TunnelError::EmptySecret, "tunnel bootstrap secret must not be empty"),
        (TunnelError::EmptyKeyMaterial, "empty tunnel key material"),
        (TunnelError::KeyDerivationFailed, "failed to derive tunnel direction key"),
        (TunnelError::KeyGenerationFailed, "failed to generate tunnel ephemeral key"),
        (TunnelError::PublicKeyFailed, "failed to compute tunnel public key"),
        (TunnelError::InvalidPeerKey, "invalid tunnel peer public key"),
    ];
    for (error, text) in texts {
        assert_eq!(error.message(), text);
    }
}

#[test]
fn nonces_are_the_prefix_and_the_sequence_number() {
    assert_eq!(
        sequence_nonce(*b"A2GW", 0x0102_0304_0506_0708),
        [b'A', b'2', b'G', b'W', 1, 2, 3, 4, 5, 6, 7, 8]
    );
    assert_ne!(sequence_nonce([1; 4], 1), sequence_nonce([1; 4], 2));
    assert_ne!(sequence_nonce([1; 4], 1), sequence_nonce([2; 4], 1));
}

#[test]
fn a_refused_payload_uses_no_sequence_number_up() {
    let mut sender = DirectionCipher::new([7; 32], [1, 2, 3, 4]);
    let mut receiver = DirectionCipher::new([7; 32], [1, 2, 3, 4]);
    for sequence in 0..3u64 {
        let too_large = vec![0; MAX_TUNNEL_PAYLOAD_SIZE + 1];
        assert_eq!(
            sender.encrypt(TunnelFrameKind::Binary, &too_large, b"label").err(),
            Some(TunnelError::PayloadTooLarge)
        );
        let frame = sender.encrypt(TunnelFrameKind::Text, b"payload", b"label").unwrap();
        assert_eq!(frame.len(), 7 + 29);
        assert_eq!(&frame[..4], b"WSNE");
        assert_eq!(&frame[4..12], &sequence.to_be_bytes());
        assert_eq!(
            receiver.decrypt(frame, b"label"),
            Ok((TunnelFrameKind::Text, b"payload".to_vec()))
        );
    }
}

#[test]
fn what_is_received_is_what_was_sealed() {
    let mut sender = DirectionCipher::new([7; 32], [1, 2, 3, 4]);
    let mut receiver = DirectionCipher::new([7; 32], [1, 2, 3, 4]);
    let frame = sender.encrypt(TunnelFrameKind::Binary, b"data", b"label").unwrap();
    let (kind, payload) = receiver.decrypt(frame.clone(), b"label").unwrap();
    let mut again = DirectionCipher::new([7; 32], [1, 2, 3, 4]);
    assert_eq!(again.encrypt(kind, &payload, b"label"), Ok(frame));
}

#[test]
fn sessions_carry_frames_both_ways() {
    for payload in [Vec::new(), b"x".to_vec(), vec![9; 70_000]] {
        let a = EphemeralKeyPair::generate().unwrap();
        let b = EphemeralKeyPair::generate().unwrap();
        let (a_key, b_key) = (a.public_key().to_vec(), b.public_key().to_vec());
        let mut access = a.derive_session_cipher(&b_key).unwrap();
        let mut gateway = b.derive_session_cipher(&a_key).unwrap();
        for kind in [TunnelFrameKind::Text, TunnelFrameKind::Binary] {
            let frame = access.encrypt_from_access(kind, &payload).unwrap();
            assert_eq!(gateway.decrypt_from_access(frame), Ok((kind, payload.clone())));
            let frame = gateway.encrypt_from_gateway(kind, &payload).unwrap();
            assert_eq!(access.decrypt_from_gateway(frame), Ok((kind, payload.clone())));
        }
    }
}
