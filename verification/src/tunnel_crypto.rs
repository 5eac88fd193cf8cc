//! Authenticated encryption of tunnel frames.
//!
//! An encrypted frame is the magic `WSNE`, the sequence number in eight big-endian bytes,
//! and the ChaCha20-Poly1305 ciphertext and tag of a kind byte followed by the payload.
//! Each direction has a key and a nonce prefix of its own, and counts its frames from 0.

use crate::bytes;
use crate::message::append_bytes;
use crate::primitives;
use crate::text;
use ring::agreement::EphemeralPrivateKey;
use vstd::prelude::*;
use vstd::slice::slice_subrange;

verus! {

/// Length of the sequence number in a frame.
pub const FRAME_SEQUENCE_LEN: usize = 8;

/// Length of the magic and the sequence number of a frame.
pub const FRAME_HEADER_LEN: usize = 12;

/// Length of the authentication tag of a frame.
pub const FRAME_TAG_LEN: usize = 16;

/// The kind byte of a text frame.
pub const KIND_TEXT: u8 = 1;

/// The kind byte of a binary frame.
pub const KIND_BINARY: u8 = 2;

/// The longest encrypted frame, 16 MiB.
pub const MAX_ENCRYPTED_TUNNEL_FRAME_SIZE: usize = 16 * 1024 * 1024;

/// The longest payload of a frame: what the header, the kind byte and the tag leave.
pub const MAX_TUNNEL_PAYLOAD_SIZE: usize = 16 * 1024 * 1024 - 12 - 16 - 1;

/// Label of the frames that an access sends.
pub const ACCESS_TO_GATEWAY: &'static str = "ws-net/access-to-gateway/v2";

/// Label of the frames that a gateway sends.
pub const GATEWAY_TO_ACCESS: &'static str = "ws-net/gateway-to-access/v2";

/// Label of the keys that protect the handshake.
pub const BOOTSTRAP_CONTEXT: &'static str = "ws-net/bootstrap/v2";

/// Label of the keys of a session.
pub const SESSION_CONTEXT: &'static str = "ws-net/session/v2";

/// Salt of every key derivation.
pub const HKDF_SALT: &'static str = "ws-net tunnel hkdf salt v2";

/// Whether a frame carries a control message or a data frame.
#[derive(Debug, Clone, Copy, PartialEq, Eq, Structural)]
pub enum TunnelFrameKind {
    Text,
    Binary,
}

/// Why a frame was not encrypted or decrypted, or a cipher not made.
#[derive(Debug, Clone, Copy, PartialEq, Eq, Structural)]
pub enum TunnelError {
    PayloadTooLarge,
    SendSequenceExhausted,
    EncryptionFailed,
    InvalidFrame,
    FrameTooLarge,
    UnexpectedSequence { expected: u64, received: u64 },
    AuthenticationFailed,
    ReceiveSequenceExhausted,
    UnknownKind,
    EmptySecret,
    EmptyKeyMaterial,
    KeyDerivationFailed,
    KeyGenerationFailed,
    PublicKeyFailed,
    InvalidPeerKey,
}

impl TunnelError {
    /// The text of an error.
    pub open spec fn text(self) -> Seq<char> {
        match self {
            TunnelError::PayloadTooLarge => "tunnel frame payload exceeds maximum size"@,
            TunnelError::SendSequenceExhausted => "tunnel send sequence exhausted"@,
            TunnelError::EncryptionFailed => "failed to encrypt tunnel frame"@,
            TunnelError::InvalidFrame => "invalid encrypted tunnel frame"@,
            TunnelError::FrameTooLarge => "encrypted tunnel frame exceeds maximum size"@,
            TunnelError::UnexpectedSequence { expected, received } => {
                "unexpected tunnel frame sequence: expected "@ + text::decimal(expected as nat)
                    + ", received "@ + text::decimal(received as nat)
            },
            TunnelError::AuthenticationFailed => "encrypted tunnel frame authentication failed"@,
            TunnelError::ReceiveSequenceExhausted => "tunnel receive sequence exhausted"@,
            TunnelError::UnknownKind => "encrypted tunnel frame has unknown type"@,
            TunnelError::EmptySecret => "tunnel bootstrap secret must not be empty"@,
            TunnelError::EmptyKeyMaterial => "empty tunnel key material"@,
            TunnelError::KeyDerivationFailed => "failed to derive tunnel direction key"@,
            TunnelError::KeyGenerationFailed => "failed to generate tunnel ephemeral key"@,
            TunnelError::PublicKeyFailed => "failed to compute tunnel public key"@,
            TunnelError::InvalidPeerKey => "invalid tunnel peer public key"@,
        }
    }

    /// The text of an error.
    pub fn message(&self) -> (result: String)
        ensures
            result@ == self.text(),
    {
        match self {
            TunnelError::PayloadTooLarge => "tunnel frame payload exceeds maximum size".to_owned(),
            TunnelError::SendSequenceExhausted => "tunnel send sequence exhausted".to_owned(),
            TunnelError::EncryptionFailed => "failed to encrypt tunnel frame".to_owned(),
            TunnelError::InvalidFrame => "invalid encrypted tunnel frame".to_owned(),
            TunnelError::FrameTooLarge => {
                "encrypted tunnel frame exceeds maximum size".to_owned()
            },
            TunnelError::UnexpectedSequence { expected, received } => {
                let mut result = "unexpected tunnel frame sequence: expected ".to_owned();
                result.append(text::number(*expected).as_str());
                result.append(", received ");
                result.append(text::number(*received).as_str());
                result
            },
            TunnelError::AuthenticationFailed => {
                "encrypted tunnel frame authentication failed".to_owned()
            },
            TunnelError::ReceiveSequenceExhausted => "tunnel receive sequence exhausted".to_owned(),
            TunnelError::UnknownKind => "encrypted tunnel frame has unknown type".to_owned(),
            TunnelError::EmptySecret => "tunnel bootstrap secret must not be empty".to_owned(),
            TunnelError::EmptyKeyMaterial => "empty tunnel key material".to_owned(),
            TunnelError::KeyDerivationFailed => "failed to derive tunnel direction key".to_owned(),
            TunnelError::KeyGenerationFailed => {
                "failed to generate tunnel ephemeral key".to_owned()
            },
            TunnelError::PublicKeyFailed => "failed to compute tunnel public key".to_owned(),
            TunnelError::InvalidPeerKey => "invalid tunnel peer public key".to_owned(),
        }
    }
}

/// The bytes of a label.
pub open spec fn label(text: &str) -> Seq<u8> {
    vstd::utf8::encode_utf8(text@)
}

/// The four bytes that every encrypted frame begins with, `WSNE`.
pub open spec fn frame_magic() -> Seq<u8> {
    seq![0x57u8, 0x53u8, 0x4eu8, 0x45u8]
}

/// The nonce prefix of the frames that an access sends, `A2GW`.
pub open spec fn access_prefix() -> Seq<u8> {
    seq![0x41u8, 0x32u8, 0x47u8, 0x57u8]
}

/// The nonce prefix of the frames that a gateway sends, `G2AC`.
pub open spec fn gateway_prefix() -> Seq<u8> {
    seq![0x47u8, 0x32u8, 0x41u8, 0x43u8]
}

/// The kind byte of a frame.
pub open spec fn kind_byte(kind: TunnelFrameKind) -> u8 {
    match kind {
        TunnelFrameKind::Text => KIND_TEXT,
        TunnelFrameKind::Binary => KIND_BINARY,
    }
}

/// The nonce of the frame with a given sequence number.
pub open spec fn nonce_of(prefix: Seq<u8>, sequence: u64) -> Seq<u8> {
    prefix + bytes::be_bytes(sequence as nat, 8)
}

/// The magic and the sequence number that a frame begins with.
pub open spec fn frame_header(sequence: u64) -> Seq<u8> {
    frame_magic() + bytes::be_bytes(sequence as nat, 8)
}

/// What is encrypted: the kind byte and the payload.
pub open spec fn plaintext_of(kind: TunnelFrameKind, payload: Seq<u8>) -> Seq<u8> {
    seq![kind_byte(kind)] + payload
}

/// The state of one direction of a cipher.
pub struct DirectionState {
    /// The key of the direction.
    pub key: Seq<u8>,
    /// The first four bytes of every nonce.
    pub prefix: Seq<u8>,
    /// The sequence number of the next frame to encrypt.
    pub next_send: u64,
    /// The sequence number that the next frame to decrypt must have.
    pub next_receive: u64,
}

/// The state of a cipher.
pub struct CipherState {
    pub access_to_gateway: DirectionState,
    pub gateway_to_access: DirectionState,
}

/// The encrypted frame of a payload under a given sequence number.
pub open spec fn encrypted_frame(
    state: DirectionState,
    aad: Seq<u8>,
    sequence: u64,
    kind: TunnelFrameKind,
    payload: Seq<u8>,
) -> Seq<u8> {
    frame_header(sequence) + primitives::chacha20_poly1305_seal(
        state.key,
        nonce_of(state.prefix, sequence),
        aad,
        plaintext_of(kind, payload),
    )
}

/// What the sealed part of a frame opens to at a given sequence number.
pub open spec fn opened(
    state: DirectionState,
    aad: Seq<u8>,
    sequence: u64,
    frame: Seq<u8>,
) -> Option<Seq<u8>> {
    primitives::chacha20_poly1305_open(
        state.key,
        nonce_of(state.prefix, sequence),
        aad,
        frame.skip(FRAME_HEADER_LEN as int),
    )
}

/// What encrypting a payload does: the frame it gives and the state it leaves, or the
/// error, which leaves the state as it was.
pub open spec fn encrypts(
    before: DirectionState,
    after: DirectionState,
    aad: Seq<u8>,
    kind: TunnelFrameKind,
    payload: Seq<u8>,
    result: Result<Vec<u8>, TunnelError>,
) -> bool {
    match result {
        Ok(frame) => {
            &&& payload.len() <= MAX_TUNNEL_PAYLOAD_SIZE
            &&& before.next_send < u64::MAX
            &&& after == (DirectionState { next_send: (before.next_send + 1) as u64, ..before })
            &&& frame@ == encrypted_frame(before, aad, before.next_send, kind, payload)
            &&& frame@.len() == payload.len() + FRAME_HEADER_LEN + 1 + FRAME_TAG_LEN
            &&& opened(before, aad, before.next_send, frame@) == Some(plaintext_of(kind, payload))
        },
        Err(error) => {
            &&& after == before
            &&& if payload.len() > MAX_TUNNEL_PAYLOAD_SIZE {
                error == TunnelError::PayloadTooLarge
            } else {
                before.next_send == u64::MAX && error == TunnelError::SendSequenceExhausted
            }
        },
    }
}

/// The sequence number that a frame claims to have.
pub open spec fn frame_sequence(frame: Seq<u8>) -> u64 {
    bytes::be_value(frame.subrange(4, 12)) as u64
}

/// Whether a frame is long enough and begins with the magic.
pub open spec fn is_encrypted_frame(frame: Seq<u8>) -> bool {
    frame.len() >= FRAME_HEADER_LEN + 1 + FRAME_TAG_LEN && frame.take(4) == frame_magic()
}

/// Whether a frame counts as received: it has the expected form, sequence number and tag,
/// and the sequence number is not the last one.
pub open spec fn accepted(state: DirectionState, aad: Seq<u8>, frame: Seq<u8>) -> bool {
    &&& is_encrypted_frame(frame)
    &&& frame.len() <= MAX_ENCRYPTED_TUNNEL_FRAME_SIZE
    &&& frame_sequence(frame) == state.next_receive
    &&& opened(state, aad, state.next_receive, frame) is Some
    &&& state.next_receive < u64::MAX
}

/// The state after decrypting a frame: only a frame that counts as received moves it on.
pub open spec fn after_decrypt(
    state: DirectionState,
    aad: Seq<u8>,
    frame: Seq<u8>,
) -> DirectionState {
    if accepted(state, aad, frame) {
        DirectionState { next_receive: (state.next_receive + 1) as u64, ..state }
    } else {
        state
    }
}

/// What decrypting a frame gives.
pub open spec fn decrypted(state: DirectionState, aad: Seq<u8>, frame: Seq<u8>) -> Result<
    (TunnelFrameKind, Seq<u8>),
    TunnelError,
> {
    if !is_encrypted_frame(frame) {
        Err(TunnelError::InvalidFrame)
    } else if frame.len() > MAX_ENCRYPTED_TUNNEL_FRAME_SIZE {
        Err(TunnelError::FrameTooLarge)
    } else if frame_sequence(frame) != state.next_receive {
        Err(
            TunnelError::UnexpectedSequence {
                expected: state.next_receive,
                received: frame_sequence(frame),
            },
        )
    } else {
        match opened(state, aad, state.next_receive, frame) {
            None => Err(TunnelError::AuthenticationFailed),
            Some(plaintext) => {
                if state.next_receive == u64::MAX {
                    Err(TunnelError::ReceiveSequenceExhausted)
                } else if plaintext[0] == KIND_TEXT {
                    Ok((TunnelFrameKind::Text, plaintext.skip(1)))
                } else if plaintext[0] == KIND_BINARY {
                    Ok((TunnelFrameKind::Binary, plaintext.skip(1)))
                } else {
                    Err(TunnelError::UnknownKind)
                }
            },
        }
    }
}

/// What decrypting a frame does: what it gives and the state it leaves. Where it gives a
/// payload, the frame is the encrypted frame of that payload under the expected sequence
/// number.
pub open spec fn decrypts(
    before: DirectionState,
    after: DirectionState,
    aad: Seq<u8>,
    frame: Seq<u8>,
    result: Result<(TunnelFrameKind, Vec<u8>), TunnelError>,
) -> bool {
    &&& after == after_decrypt(before, aad, frame)
    &&& match result {
        Ok(opened) => {
            &&& decrypted(before, aad, frame) == Ok::<(TunnelFrameKind, Seq<u8>), TunnelError>(
                (opened.0, opened.1@),
            )
            &&& frame == encrypted_frame(before, aad, before.next_receive, opened.0, opened.1@)
            &&& self::opened(before, aad, before.next_receive, frame) == Some(
                plaintext_of(opened.0, opened.1@),
            )
        },
        Err(error) => decrypted(before, aad, frame) == Err::<
            (TunnelFrameKind, Seq<u8>),
            TunnelError,
        >(error),
    }
}

/// The key of one direction.
pub open spec fn direction_key(material: Seq<u8>, context: &str, direction: &str) -> Seq<u8> {
    primitives::hkdf_sha256(label(HKDF_SALT), material, label(context) + label(direction))
}

/// The state of a cipher that was just made from key material.
pub open spec fn fresh_cipher(material: Seq<u8>, context: &str) -> CipherState {
    CipherState {
        access_to_gateway: DirectionState {
            key: direction_key(material, context, ACCESS_TO_GATEWAY),
            prefix: access_prefix(),
            next_send: 0,
            next_receive: 0,
        },
        gateway_to_access: DirectionState {
            key: direction_key(material, context, GATEWAY_TO_ACCESS),
            prefix: gateway_prefix(),
            next_send: 0,
            next_receive: 0,
        },
    }
}

/// The nonce of a frame: the direction's prefix, then the sequence number.
pub fn sequence_nonce(prefix: [u8; 4], sequence: u64) -> (nonce: [u8; 12])
    ensures
        nonce@ == nonce_of(prefix@, sequence),
        nonce@.take(4) == prefix@,
        nonce@.skip(4) == bytes::be_bytes(sequence as nat, 8),
{
    let s: [u8; 8] = bytes::u64_to_be(sequence);
    let nonce: [u8; 12] = [
        prefix[0],
        prefix[1],
        prefix[2],
        prefix[3],
        s[0],
        s[1],
        s[2],
        s[3],
        s[4],
        s[5],
        s[6],
        s[7],
    ];
    proof {
        bytes::lemma_be_bytes_len(sequence as nat, 8);
        assert(nonce@ =~= nonce_of(prefix@, sequence));
        assert(nonce@.take(4) =~= prefix@);
        assert(nonce@.skip(4) =~= bytes::be_bytes(sequence as nat, 8));
    }
    nonce
}

/// One direction of a cipher.
pub struct DirectionCipher {
    key: [u8; 32],
    nonce_prefix: [u8; 4],
    next_send_sequence: u64,
    next_receive_sequence: u64,
}

impl DirectionCipher {
    /// The state of the direction.
    pub closed spec fn view(&self) -> DirectionState {
        DirectionState {
            key: self.key@,
            prefix: self.nonce_prefix@,
            next_send: self.next_send_sequence,
            next_receive: self.next_receive_sequence,
        }
    }

    /// A direction that has neither sent nor received.
    pub fn new(key: [u8; 32], nonce_prefix: [u8; 4]) -> (result: Self)
        ensures
            result@ == (DirectionState {
                key: key@,
                prefix: nonce_prefix@,
                next_send: 0,
                next_receive: 0,
            }),
    {
        DirectionCipher { key, nonce_prefix, next_send_sequence: 0, next_receive_sequence: 0 }
    }

    /// Encrypts the next frame of the direction.
    pub fn encrypt(&mut self, kind: TunnelFrameKind, payload: &[u8], aad: &[u8]) -> (result: Result<
        Vec<u8>,
        TunnelError,
    >)
        ensures
            encrypts(old(self)@, final(self)@, aad@, kind, payload@, result),
    {
        if payload.len() > MAX_TUNNEL_PAYLOAD_SIZE {
            return Err(TunnelError::PayloadTooLarge);
        }
        let sequence: u64 = self.next_send_sequence;
        if sequence == u64::MAX {
            return Err(TunnelError::SendSequenceExhausted);
        }
        let nonce: [u8; 12] = sequence_nonce(self.nonce_prefix, sequence);
        let mut plaintext: Vec<u8> = Vec::new();
        match kind {
            TunnelFrameKind::Text => plaintext.push(KIND_TEXT),
            TunnelFrameKind::Binary => plaintext.push(KIND_BINARY),
        }
        append_bytes(&mut plaintext, payload);
        assert(plaintext@ =~= plaintext_of(kind, payload@));
        match primitives::seal_chacha20_poly1305(&self.key, nonce, aad, plaintext) {
            Err(_) => Err(TunnelError::EncryptionFailed),
            Ok(sealed) => {
                let header: [u8; 8] = bytes::u64_to_be(sequence);
                let mut frame: Vec<u8> = Vec::new();
                frame.push(0x57);
                frame.push(0x53);
                frame.push(0x4e);
                frame.push(0x45);
                append_bytes(&mut frame, header.as_slice());
                append_bytes(&mut frame, sealed.as_slice());
                proof {
                    bytes::lemma_be_bytes_len(sequence as nat, 8);
                    assert(frame@ =~= frame_header(sequence) + sealed@);
                    assert(frame@.skip(12) =~= sealed@);
                }
                self.next_send_sequence = sequence + 1;
                Ok(frame)
            },
        }
    }

    /// Decrypts the next frame of the direction.
    pub fn decrypt(&mut self, frame: Vec<u8>, aad: &[u8]) -> (result: Result<
        (TunnelFrameKind, Vec<u8>),
        TunnelError,
    >)
        ensures
            decrypts(old(self)@, final(self)@, aad@, frame@, result),
    {
        if frame.len() < FRAME_HEADER_LEN + 1 + FRAME_TAG_LEN {
            return Err(TunnelError::InvalidFrame);
        }
        if frame[0] != 0x57 || frame[1] != 0x53 || frame[2] != 0x4e || frame[3] != 0x45 {
            proof {
                let start = frame@.take(4);
                assert(start[0] == frame@[0] && start[1] == frame@[1] && start[2] == frame@[2]
                    && start[3] == frame@[3]);
            }
            return Err(TunnelError::InvalidFrame);
        }
        assert(frame@.take(4) =~= frame_magic());
        if frame.len() > MAX_ENCRYPTED_TUNNEL_FRAME_SIZE {
            return Err(TunnelError::FrameTooLarge);
        }
        let sequence: u64 = bytes::u64_from_be(frame.as_slice(), 4);
        let expected: u64 = self.next_receive_sequence;
        if sequence != expected {
            return Err(TunnelError::UnexpectedSequence { expected, received: sequence });
        }
        let nonce: [u8; 12] = sequence_nonce(self.nonce_prefix, sequence);
        let mut sealed: Vec<u8> = Vec::new();
        append_bytes(
            &mut sealed,
            slice_subrange(frame.as_slice(), FRAME_HEADER_LEN, frame.len()),
        );
        assert(sealed@ =~= frame@.skip(12));
        match primitives::open_chacha20_poly1305(&self.key, nonce, aad, sealed) {
            Err(_) => Err(TunnelError::AuthenticationFailed),
            Ok(plaintext) => {
                if expected == u64::MAX {
                    return Err(TunnelError::ReceiveSequenceExhausted);
                }
                self.next_receive_sequence = expected + 1;
                let kind = if plaintext[0] == KIND_TEXT {
                    TunnelFrameKind::Text
                } else if plaintext[0] == KIND_BINARY {
                    TunnelFrameKind::Binary
                } else {
                    return Err(TunnelError::UnknownKind);
                };
                let mut payload: Vec<u8> = Vec::new();
                append_bytes(
                    &mut payload,
                    slice_subrange(plaintext.as_slice(), 1, plaintext.len()),
                );
                proof {
                    assert(payload@ =~= plaintext@.skip(1));
                    assert(plaintext@ =~= plaintext_of(kind, payload@));
                    bytes::lemma_be_bytes_of_value(frame@.subrange(4, 12));
                    bytes::lemma_pow256_of_8();
                    assert(frame@ =~= frame_header(expected) + frame@.skip(12)) by {
                        assert(frame@ =~= frame@.take(4) + frame@.subrange(4, 12) + frame@.skip(
                            12,
                        ));
                    }
                }
                Ok((kind, payload))
            },
        }
    }
}

/// A cipher for both directions of a tunnel connection.
pub struct TunnelCipher {
    access_to_gateway: DirectionCipher,
    gateway_to_access: DirectionCipher,
}

impl TunnelCipher {
    /// The state of the cipher.
    pub closed spec fn view(&self) -> CipherState {
        CipherState {
            access_to_gateway: self.access_to_gateway@,
            gateway_to_access: self.gateway_to_access@,
        }
    }

    /// The cipher that protects the handshake, made from the secret that both ends share.
    pub fn from_shared_key(shared_key: &str) -> (result: Result<Self, TunnelError>)
        ensures
            match result {
                Ok(cipher) => !text::is_blank(shared_key@) && cipher@ == fresh_cipher(
                    label(shared_key),
                    BOOTSTRAP_CONTEXT,
                ),
                Err(error) => text::is_blank(shared_key@) && error == TunnelError::EmptySecret,
            },
    {
        if text::blank(shared_key) {
            return Err(TunnelError::EmptySecret);
        }
        proof {
            lemma_nonempty_encoding(shared_key@);
        }
        Self::from_key_material(shared_key.as_bytes(), BOOTSTRAP_CONTEXT)
    }

    fn from_key_material(material: &[u8], context: &str) -> (result: Result<Self, TunnelError>)
        ensures
            match result {
                Ok(cipher) => material@.len() > 0 && cipher@ == fresh_cipher(material@, context),
                Err(error) => material@.len() == 0 && error == TunnelError::EmptyKeyMaterial,
            },
    {
        if material.len() == 0 {
            return Err(TunnelError::EmptyKeyMaterial);
        }
        let access_key = derive_key(material, context, ACCESS_TO_GATEWAY);
        let gateway_key = derive_key(material, context, GATEWAY_TO_ACCESS);
        match (access_key, gateway_key) {
            (Ok(access_key), Ok(gateway_key)) => {
                let access_nonce: [u8; 4] = [0x41, 0x32, 0x47, 0x57];
                let gateway_nonce: [u8; 4] = [0x47, 0x32, 0x41, 0x43];
                assert(access_nonce@ =~= access_prefix());
                assert(gateway_nonce@ =~= gateway_prefix());
                Ok(
                    TunnelCipher {
                        access_to_gateway: DirectionCipher::new(access_key, access_nonce),
                        gateway_to_access: DirectionCipher::new(gateway_key, gateway_nonce),
                    },
                )
            },
            _ => Err(TunnelError::KeyDerivationFailed),
        }
    }

    /// Encrypts a frame that the access sends.
    pub fn encrypt_from_access(&mut self, kind: TunnelFrameKind, payload: &[u8]) -> (result: Result<
        Vec<u8>,
        TunnelError,
    >)
        ensures
            encrypts(
                old(self)@.access_to_gateway,
                final(self)@.access_to_gateway,
                label(ACCESS_TO_GATEWAY),
                kind,
                payload@,
                result,
            ),
            final(self)@.gateway_to_access == old(self)@.gateway_to_access,
    {
        self.access_to_gateway.encrypt(kind, payload, ACCESS_TO_GATEWAY.as_bytes())
    }

    /// Decrypts a frame that the access sent.
    pub fn decrypt_from_access(&mut self, frame: Vec<u8>) -> (result: Result<
        (TunnelFrameKind, Vec<u8>),
        TunnelError,
    >)
        ensures
            decrypts(
                old(self)@.access_to_gateway,
                final(self)@.access_to_gateway,
                label(ACCESS_TO_GATEWAY),
                frame@,
                result,
            ),
            final(self)@.gateway_to_access == old(self)@.gateway_to_access,
    {
        self.access_to_gateway.decrypt(frame, ACCESS_TO_GATEWAY.as_bytes())
    }

    /// Encrypts a frame that the gateway sends.
    pub fn encrypt_from_gateway(
        &mut self,
        kind: TunnelFrameKind,
        payload: &[u8],
    ) -> (result: Result<Vec<u8>, TunnelError>)
        ensures
            encrypts(
                old(self)@.gateway_to_access,
                final(self)@.gateway_to_access,
                label(GATEWAY_TO_ACCESS),
                kind,
                payload@,
                result,
            ),
            final(self)@.access_to_gateway == old(self)@.access_to_gateway,
    {
        self.gateway_to_access.encrypt(kind, payload, GATEWAY_TO_ACCESS.as_bytes())
    }

    /// Decrypts a frame that the gateway sent.
    pub fn decrypt_from_gateway(&mut self, frame: Vec<u8>) -> (result: Result<
        (TunnelFrameKind, Vec<u8>),
        TunnelError,
    >)
        ensures
            decrypts(
                old(self)@.gateway_to_access,
                final(self)@.gateway_to_access,
                label(GATEWAY_TO_ACCESS),
                frame@,
                result,
            ),
            final(self)@.access_to_gateway == old(self)@.access_to_gateway,
    {
        self.gateway_to_access.decrypt(frame, GATEWAY_TO_ACCESS.as_bytes())
    }
}

/// The key of one direction.
fn derive_key(material: &[u8], context: &str, direction: &str) -> (result: Result<
    [u8; 32],
    TunnelError,
>)
    ensures
        match result {
            Ok(key) => key@ == direction_key(material@, context, direction),
            Err(_) => false,
        },
{
    match primitives::derive_hkdf_sha256(
        HKDF_SALT.as_bytes(),
        material,
        context.as_bytes(),
        direction.as_bytes(),
    ) {
        Ok(key) => Ok(key),
        Err(_) => Err(TunnelError::KeyDerivationFailed),
    }
}

/// A text with a character in it has a byte in it.
proof fn lemma_nonempty_encoding(s: Seq<char>)
    requires
        !text::is_blank(s),
    ensures
        vstd::utf8::encode_utf8(s).len() > 0,
{
    if s.len() == 0 {
        assert(text::trimmed(s) =~= s);
    }
    if vstd::utf8::encode_utf8(s).len() == 0 {
        vstd::utf8::encode_utf8_decode_utf8(s);
    }
}

/// A key pair for one key agreement.
pub struct EphemeralKeyPair {
    private_key: EphemeralPrivateKey,
    public_key: Vec<u8>,
}

/// What agreeing with a peer gives: a cipher made from the secret that both ends share. A
/// peer that holds a scalar whose public key is `peer` comes to the same secret, or to the
/// same refusal, from this pair's public key.
pub open spec fn agrees(
    scalar: Seq<u8>,
    peer: Seq<u8>,
    result: Result<TunnelCipher, TunnelError>,
) -> bool {
    &&& match result {
        Ok(cipher) => {
            &&& peer.len() == 32
            &&& primitives::x25519_shared_secret(scalar, peer) is Some
            &&& cipher@ == fresh_cipher(
                primitives::x25519_shared_secret(scalar, peer)->0,
                SESSION_CONTEXT,
            )
        },
        Err(error) => {
            &&& primitives::x25519_shared_secret(scalar, peer) is None
            &&& error == TunnelError::InvalidPeerKey
        },
    }
    &&& forall|other: Seq<u8>|
        #![trigger primitives::x25519_public_key(other)]
        other.len() == 32 && peer == primitives::x25519_public_key(other)
            ==> primitives::x25519_shared_secret(other, primitives::x25519_public_key(scalar))
            == primitives::x25519_shared_secret(scalar, peer)
}

impl EphemeralKeyPair {
    #[verifier::type_invariant]
    spec fn well_formed(self) -> bool {
        &&& primitives::x25519_scalar(self.private_key) is Some
        &&& primitives::x25519_scalar(self.private_key)->0.len() == 32
        &&& self.public_key@ == primitives::x25519_public_key(
            primitives::x25519_scalar(self.private_key)->0,
        )
        &&& self.public_key@.len() == 32
    }

    /// The secret scalar of the pair.
    pub closed spec fn scalar(&self) -> Seq<u8> {
        primitives::x25519_scalar(self.private_key)->0
    }

    /// The key pair of a private key.
    fn of_private_key(private_key: EphemeralPrivateKey) -> (result: Result<Self, TunnelError>)
        requires
            primitives::x25519_scalar(private_key) is Some,
            primitives::x25519_scalar(private_key)->0.len() == 32,
        ensures
            result matches Ok(pair) && pair.scalar() == primitives::x25519_scalar(private_key)->0,
    {
        match primitives::compute_x25519_public_key(&private_key) {
            Err(_) => Err(TunnelError::PublicKeyFailed),
            Ok(public_key) => Ok(EphemeralKeyPair { private_key, public_key }),
        }
    }

    /// A new random key pair. Which one comes, and whether one comes, is left to chance and
    /// to the machine.
    pub fn generate() -> (result: Result<Self, TunnelError>)
        ensures
            match result {
                Ok(pair) => pair.scalar().len() == 32,
                Err(error) => error == TunnelError::KeyGenerationFailed,
            },
    {
        match primitives::generate_x25519() {
            Err(_) => Err(TunnelError::KeyGenerationFailed),
            Ok(private_key) => Self::of_private_key(private_key),
        }
    }

    /// The public key, to be sent to the peer.
    pub fn public_key(&self) -> (result: &[u8])
        ensures
            result@ == primitives::x25519_public_key(self.scalar()),
            result@.len() == 32,
            self.scalar().len() == 32,
    {
        proof {
            use_type_invariant(self);
        }
        self.public_key.as_slice()
    }

    /// The cipher of the session with the peer that has the given public key. Which public
    /// keys of 32 bytes are rejected is left to `ring`, which rejects points of small order.
    pub fn derive_session_cipher(self, peer_public_key: &[u8]) -> (result: Result<
        TunnelCipher,
        TunnelError,
    >)
        ensures
            agrees(self.scalar(), peer_public_key@, result),
    {
        proof {
            use_type_invariant(&self);
        }
        match primitives::agree_x25519(self.private_key, peer_public_key) {
            Err(_) => Err(TunnelError::InvalidPeerKey),
            Ok(secret) => TunnelCipher::from_key_material(secret.as_slice(), SESSION_CONTEXT),
        }
    }
}

/// A frame that was encrypted decrypts to its kind and payload at a receiver that holds
/// the same key and expects its sequence number, and moves that receiver on by one.
pub proof fn law_decrypt_of_encrypt(
    sender: DirectionState,
    sent: DirectionState,
    receiver: DirectionState,
    aad: Seq<u8>,
    kind: TunnelFrameKind,
    payload: Seq<u8>,
    frame: Vec<u8>,
)
    requires
        encrypts(sender, sent, aad, kind, payload, Ok(frame)),
        receiver.key == sender.key,
        receiver.prefix == sender.prefix,
        receiver.next_receive == sender.next_send,
    ensures
        decrypted(receiver, aad, frame@) == Ok::<(TunnelFrameKind, Seq<u8>), TunnelError>(
            (kind, payload),
        ),
        after_decrypt(receiver, aad, frame@).next_receive == sent.next_send,
{
    lemma_encrypted_frame_form(sender, sent, aad, kind, payload, frame);
    assert(plaintext_of(kind, payload)[0] == kind_byte(kind));
    assert(plaintext_of(kind, payload).skip(1) =~= payload);
}

proof fn lemma_encrypted_frame_form(
    sender: DirectionState,
    sent: DirectionState,
    aad: Seq<u8>,
    kind: TunnelFrameKind,
    payload: Seq<u8>,
    frame: Vec<u8>,
)
    requires
        encrypts(sender, sent, aad, kind, payload, Ok(frame)),
    ensures
        is_encrypted_frame(frame@),
        frame@.subrange(4, 12) == bytes::be_bytes(sender.next_send as nat, 8),
        frame_sequence(frame@) == sender.next_send,
        frame@.len() <= MAX_ENCRYPTED_TUNNEL_FRAME_SIZE,
{
    let sequence = sender.next_send;
    bytes::lemma_be_bytes_len(sequence as nat, 8);
    bytes::lemma_pow256_of_8();
    bytes::lemma_be_value_of_bytes(sequence as nat, 8);
    assert(frame@.take(4) =~= frame_magic());
    assert(frame@.subrange(4, 12) =~= bytes::be_bytes(sequence as nat, 8));
}

/// Encrypting gives a frame exactly where the payload is within the limit and a sequence
/// number is left: 29 bytes longer than the payload, the magic first, then the sequence
/// number. Where it gives none, no sequence number is used up.
pub proof fn law_encrypted_frame_form(
    before: DirectionState,
    after: DirectionState,
    aad: Seq<u8>,
    kind: TunnelFrameKind,
    payload: Seq<u8>,
    result: Result<Vec<u8>, TunnelError>,
)
    requires
        encrypts(before, after, aad, kind, payload, result),
    ensures
        result is Ok <==> payload.len() <= MAX_TUNNEL_PAYLOAD_SIZE && before.next_send < u64::MAX,
        match result {
            Ok(frame) => {
                &&& frame@.len() == payload.len() + 29
                &&& frame@.take(4) == frame_magic()
                &&& frame@.subrange(4, 12) == bytes::be_bytes(before.next_send as nat, 8)
                &&& after.next_send == before.next_send + 1
            },
            Err(_) => after == before,
        },
{
    if result is Ok {
        lemma_encrypted_frame_form(before, after, aad, kind, payload, result->Ok_0);
    }
}

/// A frame whose sequence number is not the expected one is refused and changes nothing:
/// a lost, repeated or reordered frame is never taken for the next one.
pub proof fn law_other_sequence_refused(state: DirectionState, aad: Seq<u8>, frame: Seq<u8>)
    requires
        frame_sequence(frame) != state.next_receive,
    ensures
        decrypted(state, aad, frame) is Err,
        after_decrypt(state, aad, frame) == state,
{
}

/// A frame that was received once is refused ever after, whatever was received between.
pub proof fn law_replay_refused(
    state: DirectionState,
    later: DirectionState,
    aad: Seq<u8>,
    frame: Seq<u8>,
)
    requires
        decrypted(state, aad, frame) is Ok,
        later.next_receive >= after_decrypt(state, aad, frame).next_receive,
    ensures
        decrypted(later, aad, frame) is Err,
        after_decrypt(later, aad, frame) == later,
{
}

/// Decrypting never moves the expected sequence number back, and keeps everything else.
pub proof fn law_receive_sequence_grows(state: DirectionState, aad: Seq<u8>, frame: Seq<u8>)
    ensures
        after_decrypt(state, aad, frame).next_receive >= state.next_receive,
        decrypted(state, aad, frame) is Ok ==> after_decrypt(state, aad, frame).next_receive
            == state.next_receive + 1,
        after_decrypt(state, aad, frame).key == state.key,
        after_decrypt(state, aad, frame).prefix == state.prefix,
        after_decrypt(state, aad, frame).next_send == state.next_send,
{
}

/// A frame whose tag does not fit is refused and changes nothing.
pub proof fn law_unauthenticated_refused(state: DirectionState, aad: Seq<u8>, frame: Seq<u8>)
    requires
        opened(state, aad, state.next_receive, frame) is None,
    ensures
        decrypted(state, aad, frame) is Err,
        after_decrypt(state, aad, frame) == state,
{
}

/// Only authentic frames are received: what gives a payload is, byte for byte, the frame
/// that encrypting that payload gives under the key of the direction, the expected sequence
/// number and the direction's label.
pub proof fn law_received_frames_are_authentic(
    before: DirectionState,
    after: DirectionState,
    aad: Seq<u8>,
    frame: Seq<u8>,
    kind: TunnelFrameKind,
    payload: Vec<u8>,
    sender: DirectionState,
    sent: DirectionState,
    again: Vec<u8>,
)
    requires
        decrypts(before, after, aad, frame, Ok((kind, payload))),
        sender.key == before.key,
        sender.prefix == before.prefix,
        sender.next_send == before.next_receive,
        encrypts(sender, sent, aad, kind, payload@, Ok(again)),
    ensures
        again@ == frame,
        sent.next_send == after.next_receive,
{
}

/// What does not begin with the magic, as plain text does not, is refused and changes
/// nothing.
pub proof fn law_plain_frame_refused(state: DirectionState, aad: Seq<u8>, frame: Seq<u8>)
    requires
        frame.take(4) != frame_magic(),
    ensures
        decrypted(state, aad, frame) == Err::<(TunnelFrameKind, Seq<u8>), TunnelError>(
            TunnelError::InvalidFrame,
        ),
        after_decrypt(state, aad, frame) == state,
{
}

/// The keys of the two directions, and those of the handshake and of a session, are derived
/// from different info strings, whatever the secret.
pub proof fn law_keys_are_derived_apart(context: &str, direction: &str)
    ensures
        label(context) + label(ACCESS_TO_GATEWAY) != label(context) + label(GATEWAY_TO_ACCESS),
        label(BOOTSTRAP_CONTEXT) + label(direction) != label(SESSION_CONTEXT) + label(
            ACCESS_TO_GATEWAY,
        ),
        label(BOOTSTRAP_CONTEXT) + label(direction) != label(SESSION_CONTEXT) + label(
            GATEWAY_TO_ACCESS,
        ),
{
    reveal_strlit("ws-net/access-to-gateway/v2");
    reveal_strlit("ws-net/gateway-to-access/v2");
    reveal_strlit("ws-net/bootstrap/v2");
    reveal_strlit("ws-net/session/v2");
    vstd::utf8::is_ascii_chars_encode_utf8(ACCESS_TO_GATEWAY@);
    vstd::utf8::is_ascii_chars_encode_utf8(GATEWAY_TO_ACCESS@);
    vstd::utf8::is_ascii_chars_encode_utf8(BOOTSTRAP_CONTEXT@);
    vstd::utf8::is_ascii_chars_encode_utf8(SESSION_CONTEXT@);
    let n = label(context).len() as int;
    assert(label(ACCESS_TO_GATEWAY)[7] == 'a' as u8);
    assert(label(GATEWAY_TO_ACCESS)[7] == 'g' as u8);
    assert((label(context) + label(ACCESS_TO_GATEWAY))[n + 7] == 'a' as u8);
    assert((label(context) + label(GATEWAY_TO_ACCESS))[n + 7] == 'g' as u8);
    assert((label(BOOTSTRAP_CONTEXT) + label(direction))[7] == 'b' as u8);
    assert((label(SESSION_CONTEXT) + label(ACCESS_TO_GATEWAY))[7] == 's' as u8);
    assert((label(SESSION_CONTEXT) + label(GATEWAY_TO_ACCESS))[7] == 's' as u8);
}

/// No two frames have the same nonce: a nonce determines the direction's prefix and the
/// sequence number.
pub proof fn law_nonces_distinct(p: Seq<u8>, q: Seq<u8>, m: u64, n: u64)
    requires
        p.len() == 4,
        q.len() == 4,
        nonce_of(p, m) == nonce_of(q, n),
    ensures
        p == q,
        m == n,
{
    bytes::lemma_be_bytes_len(m as nat, 8);
    bytes::lemma_be_bytes_len(n as nat, 8);
    bytes::lemma_pow256_of_8();
    bytes::lemma_be_value_of_bytes(m as nat, 8);
    bytes::lemma_be_value_of_bytes(n as nat, 8);
    assert(nonce_of(p, m).take(4) =~= p);
    assert(nonce_of(q, n).take(4) =~= q);
    assert(nonce_of(p, m).skip(4) =~= bytes::be_bytes(m as nat, 8));
    assert(nonce_of(q, n).skip(4) =~= bytes::be_bytes(n as nat, 8));
}

/// The two directions of a new cipher never share a nonce.
pub proof fn law_directions_never_share_a_nonce(m: u64, n: u64)
    ensures
        nonce_of(access_prefix(), m) != nonce_of(gateway_prefix(), n),
{
    assert(access_prefix()[0] != gateway_prefix()[0]);
    if nonce_of(access_prefix(), m) == nonce_of(gateway_prefix(), n) {
        law_nonces_distinct(access_prefix(), gateway_prefix(), m, n);
    }
}

/// Whether `frames` are what a sender made of `items`, one after the other, passing through
/// `states`.
pub open spec fn sends(
    states: Seq<DirectionState>,
    aad: Seq<u8>,
    items: Seq<(TunnelFrameKind, Seq<u8>)>,
    frames: Seq<Vec<u8>>,
) -> bool {
    &&& frames.len() == items.len()
    &&& states.len() == items.len() + 1
    &&& forall|i: int|
        0 <= i < items.len() ==> encrypts(
            #[trigger] states[i],
            states[i + 1],
            aad,
            items[i].0,
            items[i].1,
            Ok(frames[i]),
        )
}

/// The state of a receiver after the first `count` of `frames`.
pub open spec fn received(
    state: DirectionState,
    aad: Seq<u8>,
    frames: Seq<Vec<u8>>,
    count: nat,
) -> DirectionState
    decreases count,
{
    if count == 0 {
        state
    } else {
        after_decrypt(
            received(state, aad, frames, (count - 1) as nat),
            aad,
            frames[count - 1]@,
        )
    }
}

/// What a sender encrypts, a receiver that starts where the sender started decrypts in the
/// same order, frame by frame.
pub proof fn law_stream_round_trip(
    states: Seq<DirectionState>,
    receiver: DirectionState,
    aad: Seq<u8>,
    items: Seq<(TunnelFrameKind, Seq<u8>)>,
    frames: Seq<Vec<u8>>,
    i: int,
)
    requires
        sends(states, aad, items, frames),
        receiver.key == states[0].key,
        receiver.prefix == states[0].prefix,
        receiver.next_receive == states[0].next_send,
        0 <= i < items.len(),
    ensures
        decrypted(received(receiver, aad, frames, i as nat), aad, frames[i]@) == Ok::<
            (TunnelFrameKind, Seq<u8>),
            TunnelError,
        >(items[i]),
{
    lemma_receiver_keeps_up(states, receiver, aad, items, frames, i as nat);
    let state = received(receiver, aad, frames, i as nat);
    assert(encrypts(states[i], states[i + 1], aad, items[i].0, items[i].1, Ok(frames[i])));
    law_decrypt_of_encrypt(
        states[i],
        states[i + 1],
        state,
        aad,
        items[i].0,
        items[i].1,
        frames[i],
    );
}

proof fn lemma_receiver_keeps_up(
    states: Seq<DirectionState>,
    receiver: DirectionState,
    aad: Seq<u8>,
    items: Seq<(TunnelFrameKind, Seq<u8>)>,
    frames: Seq<Vec<u8>>,
    count: nat,
)
    requires
        sends(states, aad, items, frames),
        receiver.key == states[0].key,
        receiver.prefix == states[0].prefix,
        receiver.next_receive == states[0].next_send,
        count <= items.len(),
    ensures
        received(receiver, aad, frames, count).key == states[count as int].key,
        received(receiver, aad, frames, count).prefix == states[count as int].prefix,
        received(receiver, aad, frames, count).next_receive == states[count as int].next_send,
    decreases count,
{
    if count > 0 {
        let i = count - 1;
        lemma_receiver_keeps_up(states, receiver, aad, items, frames, i as nat);
        let state = received(receiver, aad, frames, i as nat);
        assert(encrypts(states[i], states[i + 1], aad, items[i].0, items[i].1, Ok(frames[i])));
        law_decrypt_of_encrypt(
            states[i],
            states[i + 1],
            state,
            aad,
            items[i].0,
            items[i].1,
            frames[i],
        );
    }
}

/// The frames of a sender carry strictly growing sequence numbers, one by one.
pub proof fn law_send_sequence_grows(
    states: Seq<DirectionState>,
    aad: Seq<u8>,
    items: Seq<(TunnelFrameKind, Seq<u8>)>,
    frames: Seq<Vec<u8>>,
    i: int,
)
    requires
        sends(states, aad, items, frames),
        0 <= i < items.len(),
    ensures
        frame_sequence(frames[i]@) == states[0].next_send + i,
        frames[i]@.subrange(4, 12) == bytes::be_bytes((states[0].next_send + i) as nat, 8),
    decreases i,
{
    assert(encrypts(states[i], states[i + 1], aad, items[i].0, items[i].1, Ok(frames[i])));
    lemma_encrypted_frame_form(
        states[i],
        states[i + 1],
        aad,
        items[i].0,
        items[i].1,
        frames[i],
    );
    if i > 0 {
        let h = i - 1;
        law_send_sequence_grows(states, aad, items, frames, h);
        assert(encrypts(states[h], states[h + 1], aad, items[h].0, items[h].1, Ok(frames[h])));
        lemma_encrypted_frame_form(
            states[h],
            states[h + 1],
            aad,
            items[h].0,
            items[h].1,
            frames[h],
        );
    }
}

/// No two frames of a sender are sealed under the same nonce.
pub proof fn law_sender_never_repeats_a_nonce(
    states: Seq<DirectionState>,
    aad: Seq<u8>,
    items: Seq<(TunnelFrameKind, Seq<u8>)>,
    frames: Seq<Vec<u8>>,
    i: int,
    j: int,
)
    requires
        sends(states, aad, items, frames),
        states[0].prefix.len() == 4,
        0 <= i < j < items.len(),
    ensures
        nonce_of(states[i].prefix, states[i].next_send) != nonce_of(
            states[j].prefix,
            states[j].next_send,
        ),
{
    law_send_sequence_grows(states, aad, items, frames, i);
    law_send_sequence_grows(states, aad, items, frames, j);
    lemma_sender_keeps_prefix(states, aad, items, frames, i as nat);
    lemma_sender_keeps_prefix(states, aad, items, frames, j as nat);
    assert(encrypts(states[i], states[i + 1], aad, items[i].0, items[i].1, Ok(frames[i])));
    assert(encrypts(states[j], states[j + 1], aad, items[j].0, items[j].1, Ok(frames[j])));
    lemma_encrypted_frame_form(
        states[i],
        states[i + 1],
        aad,
        items[i].0,
        items[i].1,
        frames[i],
    );
    lemma_encrypted_frame_form(
        states[j],
        states[j + 1],
        aad,
        items[j].0,
        items[j].1,
        frames[j],
    );
    if nonce_of(states[i].prefix, states[i].next_send) == nonce_of(
        states[j].prefix,
        states[j].next_send,
    ) {
        law_nonces_distinct(
            states[i].prefix,
            states[j].prefix,
            states[i].next_send,
            states[j].next_send,
        );
    }
}

proof fn lemma_sender_keeps_prefix(
    states: Seq<DirectionState>,
    aad: Seq<u8>,
    items: Seq<(TunnelFrameKind, Seq<u8>)>,
    frames: Seq<Vec<u8>>,
    count: nat,
)
    requires
        sends(states, aad, items, frames),
        count <= items.len(),
    ensures
        states[count as int].prefix == states[0].prefix,
    decreases count,
{
    if count > 0 {
        let i = count - 1;
        lemma_sender_keeps_prefix(states, aad, items, frames, i as nat);
        assert(encrypts(states[i], states[i + 1], aad, items[i].0, items[i].1, Ok(frames[i])));
    }
}

/// No encrypted frame is longer than the limit that a receiver enforces, and a longer one
/// is refused and changes nothing.
pub proof fn law_frame_size_limit(
    before: DirectionState,
    after: DirectionState,
    aad: Seq<u8>,
    kind: TunnelFrameKind,
    payload: Seq<u8>,
    frame: Vec<u8>,
    state: DirectionState,
    oversized: Seq<u8>,
)
    requires
        encrypts(before, after, aad, kind, payload, Ok(frame)),
        oversized.len() > MAX_ENCRYPTED_TUNNEL_FRAME_SIZE,
    ensures
        frame@.len() <= MAX_ENCRYPTED_TUNNEL_FRAME_SIZE,
        decrypted(state, aad, oversized) is Err,
        after_decrypt(state, aad, oversized) == state,
{
}

/// Two ends that exchange their public keys come to the same session cipher.
pub proof fn law_sessions_match(
    a: Seq<u8>,
    b: Seq<u8>,
    at_a: Result<TunnelCipher, TunnelError>,
    at_b: Result<TunnelCipher, TunnelError>,
)
    requires
        a.len() == 32,
        b.len() == 32,
        agrees(a, primitives::x25519_public_key(b), at_a),
        agrees(b, primitives::x25519_public_key(a), at_b),
    ensures
        at_a is Ok <==> at_b is Ok,
        at_a is Ok ==> at_a->Ok_0@ == at_b->Ok_0@,
{
}

/// Where two ends that exchanged their public keys have a session at one end, they have it
/// at both, and what either end sends first reaches the other as it was, whatever the kind
/// and however long the payload, up to the limit.
pub proof fn law_sessions_carry_frames(
    a: Seq<u8>,
    b: Seq<u8>,
    at_a: Result<TunnelCipher, TunnelError>,
    at_b: Result<TunnelCipher, TunnelError>,
    sent: DirectionState,
    kind: TunnelFrameKind,
    payload: Seq<u8>,
    result: Result<Vec<u8>, TunnelError>,
)
    requires
        a.len() == 32,
        b.len() == 32,
        agrees(a, primitives::x25519_public_key(b), at_a),
        agrees(b, primitives::x25519_public_key(a), at_b),
        at_a is Ok,
        payload.len() <= MAX_TUNNEL_PAYLOAD_SIZE,
    ensures
        at_b is Ok,
        encrypts(
            at_a->Ok_0@.access_to_gateway,
            sent,
            label(ACCESS_TO_GATEWAY),
            kind,
            payload,
            result,
        ) ==> result is Ok && decrypted(
            at_b->Ok_0@.access_to_gateway,
            label(ACCESS_TO_GATEWAY),
            result->Ok_0@,
        ) == Ok::<(TunnelFrameKind, Seq<u8>), TunnelError>((kind, payload)),
        encrypts(
            at_b->Ok_0@.gateway_to_access,
            sent,
            label(GATEWAY_TO_ACCESS),
            kind,
            payload,
            result,
        ) ==> result is Ok && decrypted(
            at_a->Ok_0@.gateway_to_access,
            label(GATEWAY_TO_ACCESS),
            result->Ok_0@,
        ) == Ok::<(TunnelFrameKind, Seq<u8>), TunnelError>((kind, payload)),
{
    law_sessions_match(a, b, at_a, at_b);
    let access = at_a->Ok_0@;
    let gateway = at_b->Ok_0@;
    if encrypts(access.access_to_gateway, sent, label(ACCESS_TO_GATEWAY), kind, payload, result) {
        law_decrypt_of_encrypt(
            access.access_to_gateway,
            sent,
            gateway.access_to_gateway,
            label(ACCESS_TO_GATEWAY),
            kind,
            payload,
            result->Ok_0,
        );
    }
    if encrypts(gateway.gateway_to_access, sent, label(GATEWAY_TO_ACCESS), kind, payload, result) {
        law_decrypt_of_encrypt(
            gateway.gateway_to_access,
            sent,
            access.gateway_to_access,
            label(GATEWAY_TO_ACCESS),
            kind,
            payload,
            result->Ok_0,
        );
    }
}

/// The bytes of an encrypted frame: `WSNE`, the sequence number in eight bytes with the most
/// significant first, and the kind (1 for text, 2 for data) and the payload, sealed under the
/// key of the direction, a nonce of the direction's prefix and the same eight bytes, and the
/// label of the direction.
pub open spec fn is_wire_frame(
    frame: Seq<u8>,
    state: DirectionState,
    direction: &str,
    kind: TunnelFrameKind,
    payload: Seq<u8>,
) -> bool {
    let number = frame.subrange(4, 12);
    let kind_byte: u8 = match kind {
        TunnelFrameKind::Text => 1,
        TunnelFrameKind::Binary => 2,
    };
    &&& frame.len() == payload.len() + 29
    &&& frame[0] == 0x57 && frame[1] == 0x53 && frame[2] == 0x4e && frame[3] == 0x45
    &&& bytes::big_endian(number) == state.next_send
    &&& frame.skip(12) == primitives::chacha20_poly1305_seal(
        state.key,
        state.prefix + number,
        vstd::utf8::encode_utf8(direction@),
        seq![kind_byte] + payload,
    )
}

/// The frame that encrypting gives, byte by byte.
pub proof fn lemma_wire_frame(
    before: DirectionState,
    after: DirectionState,
    direction: &str,
    kind: TunnelFrameKind,
    payload: Seq<u8>,
    frame: Vec<u8>,
)
    requires
        encrypts(before, after, label(direction), kind, payload, Ok(frame)),
    ensures
        is_wire_frame(frame@, before, direction, kind, payload),
{
    lemma_encrypted_frame_form(before, after, label(direction), kind, payload, frame);
    bytes::lemma_be_bytes_len(before.next_send as nat, 8);
    bytes::lemma_big_endian(frame@.subrange(4, 12));
    assert(frame@.skip(12) =~= primitives::chacha20_poly1305_seal(
        before.key,
        nonce_of(before.prefix, before.next_send),
        label(direction),
        plaintext_of(kind, payload),
    ));
}

/// What both ends send has the documented form under the label of its own direction; it is
/// sent exactly where the payload is at most 16 MiB less 29 bytes and a number is left, and
/// only then a number is used up. The other direction is not touched.
pub proof fn law_wire_format(
    access: &mut TunnelCipher,
    gateway: &mut TunnelCipher,
    kind: TunnelFrameKind,
    payload: &[u8],
    from_access: Result<Vec<u8>, TunnelError>,
    from_gateway: Result<Vec<u8>, TunnelError>,
)
    requires
        call_ensures(TunnelCipher::encrypt_from_access, (access, kind, payload), from_access),
        call_ensures(TunnelCipher::encrypt_from_gateway, (gateway, kind, payload), from_gateway),
    ensures
        from_access is Ok <==> payload@.len() <= 16 * 1024 * 1024 - 29 && old(
            access,
        )@.access_to_gateway.next_send < u64::MAX,
        from_gateway is Ok <==> payload@.len() <= 16 * 1024 * 1024 - 29 && old(
            gateway,
        )@.gateway_to_access.next_send < u64::MAX,
        from_access matches Ok(frame) ==> is_wire_frame(
            frame@,
            old(access)@.access_to_gateway,
            "ws-net/access-to-gateway/v2",
            kind,
            payload@,
        ) && final(access)@.access_to_gateway.next_send == old(access)@.access_to_gateway.next_send
            + 1,
        from_gateway matches Ok(frame) ==> is_wire_frame(
            frame@,
            old(gateway)@.gateway_to_access,
            "ws-net/gateway-to-access/v2",
            kind,
            payload@,
        ) && final(gateway)@.gateway_to_access.next_send == old(
            gateway,
        )@.gateway_to_access.next_send + 1,
        from_access is Err ==> final(access)@ == old(access)@,
        from_gateway is Err ==> final(gateway)@ == old(gateway)@,
        final(access)@.gateway_to_access == old(access)@.gateway_to_access,
        final(gateway)@.access_to_gateway == old(gateway)@.access_to_gateway,
        final(access)@.access_to_gateway.next_receive == old(
            access,
        )@.access_to_gateway.next_receive,
        final(access)@.access_to_gateway.key == old(access)@.access_to_gateway.key,
{
    match from_access {
        Ok(frame) => {
            lemma_wire_frame(
                old(access)@.access_to_gateway,
                final(access)@.access_to_gateway,
                ACCESS_TO_GATEWAY,
                kind,
                payload@,
                frame,
            );
        },
        Err(_) => {},
    }
    match from_gateway {
        Ok(frame) => {
            lemma_wire_frame(
                old(gateway)@.gateway_to_access,
                final(gateway)@.gateway_to_access,
                GATEWAY_TO_ACCESS,
                kind,
                payload@,
                frame,
            );
        },
        Err(_) => {},
    }
}

/// Whether a cipher is new and made from some secret material for some purpose: each direction
/// has a key of its own, derived under the salt and the labels of the protocol, a nonce prefix
/// of its own, and has neither sent nor received.
pub open spec fn is_made_from(cipher: CipherState, material: Seq<u8>, purpose: &str) -> bool {
    let salt = vstd::utf8::encode_utf8("ws-net tunnel hkdf salt v2"@);
    let access = cipher.access_to_gateway;
    let gateway = cipher.gateway_to_access;
    &&& access.key == primitives::hkdf_sha256(
        salt,
        material,
        vstd::utf8::encode_utf8(purpose@) + vstd::utf8::encode_utf8(
            "ws-net/access-to-gateway/v2"@,
        ),
    )
    &&& gateway.key == primitives::hkdf_sha256(
        salt,
        material,
        vstd::utf8::encode_utf8(purpose@) + vstd::utf8::encode_utf8(
            "ws-net/gateway-to-access/v2"@,
        ),
    )
    &&& access.prefix == seq!['A' as u8, '2' as u8, 'G' as u8, 'W' as u8]
    &&& gateway.prefix == seq!['G' as u8, '2' as u8, 'A' as u8, 'C' as u8]
    &&& access.next_send == 0 && access.next_receive == 0
    &&& gateway.next_send == 0 && gateway.next_receive == 0
}

/// The handshake is protected by a cipher made from the shared secret, which must not be
/// blank; a session by one made from the secret that the two key pairs share. The two are made
/// for different purposes.
pub proof fn law_ciphers_made(
    shared_key: &str,
    bootstrap: Result<TunnelCipher, TunnelError>,
    pair: EphemeralKeyPair,
    peer: &[u8],
    session: Result<TunnelCipher, TunnelError>,
)
    requires
        call_ensures(TunnelCipher::from_shared_key, (shared_key,), bootstrap),
        call_ensures(EphemeralKeyPair::derive_session_cipher, (pair, peer), session),
    ensures
        bootstrap is Err <==> forall|i: int|
            0 <= i < shared_key@.len() ==> text::is_white_space(#[trigger] shared_key@[i]),
        bootstrap matches Err(error) ==> error == TunnelError::EmptySecret,
        bootstrap matches Ok(cipher) ==> is_made_from(
            cipher@,
            vstd::utf8::encode_utf8(shared_key@),
            "ws-net/bootstrap/v2",
        ),
        session matches Ok(cipher) ==> peer@.len() == 32 && primitives::x25519_shared_secret(
            pair.scalar(),
            peer@,
        ) is Some && is_made_from(
            cipher@,
            primitives::x25519_shared_secret(pair.scalar(), peer@)->0,
            "ws-net/session/v2",
        ),
        session matches Err(error) ==> error == TunnelError::InvalidPeerKey,
        session is Ok <==> primitives::x25519_shared_secret(pair.scalar(), peer@) is Some,
{
    text::lemma_blank(shared_key@);
    lemma_prefixes();
}

/// What one end sends the other end receives: the next frame of a direction decrypts to its
/// kind and payload, and both ends move on by one.
pub proof fn law_frames_arrive(
    sender: &mut TunnelCipher,
    receiver: &mut TunnelCipher,
    kind: TunnelFrameKind,
    payload: &[u8],
    frame: Vec<u8>,
    result: Result<(TunnelFrameKind, Vec<u8>), TunnelError>,
)
    requires
        call_ensures(TunnelCipher::encrypt_from_access, (sender, kind, payload), Ok(frame)),
        old(receiver)@.access_to_gateway.key == old(sender)@.access_to_gateway.key,
        old(receiver)@.access_to_gateway.prefix == old(sender)@.access_to_gateway.prefix,
        old(receiver)@.access_to_gateway.next_receive == old(sender)@.access_to_gateway.next_send,
        call_ensures(TunnelCipher::decrypt_from_access, (receiver, frame), result),
    ensures
        result matches Ok(opened) && opened.0 == kind && opened.1@ == payload@,
        final(receiver)@.access_to_gateway.next_receive == final(sender)@.access_to_gateway.next_send,
        final(receiver)@.access_to_gateway.key == old(receiver)@.access_to_gateway.key,
        final(receiver)@.gateway_to_access == old(receiver)@.gateway_to_access,
{
    law_decrypt_of_encrypt(
        old(sender)@.access_to_gateway,
        final(sender)@.access_to_gateway,
        old(receiver)@.access_to_gateway,
        label(ACCESS_TO_GATEWAY),
        kind,
        payload@,
        frame,
    );
}

/// The same from the gateway to the access.
pub proof fn law_frames_arrive_back(
    sender: &mut TunnelCipher,
    receiver: &mut TunnelCipher,
    kind: TunnelFrameKind,
    payload: &[u8],
    frame: Vec<u8>,
    result: Result<(TunnelFrameKind, Vec<u8>), TunnelError>,
)
    requires
        call_ensures(TunnelCipher::encrypt_from_gateway, (sender, kind, payload), Ok(frame)),
        old(receiver)@.gateway_to_access.key == old(sender)@.gateway_to_access.key,
        old(receiver)@.gateway_to_access.prefix == old(sender)@.gateway_to_access.prefix,
        old(receiver)@.gateway_to_access.next_receive == old(sender)@.gateway_to_access.next_send,
        call_ensures(TunnelCipher::decrypt_from_gateway, (receiver, frame), result),
    ensures
        result matches Ok(opened) && opened.0 == kind && opened.1@ == payload@,
        final(receiver)@.gateway_to_access.next_receive == final(sender)@.gateway_to_access.next_send,
        final(receiver)@.gateway_to_access.key == old(receiver)@.gateway_to_access.key,
        final(receiver)@.access_to_gateway == old(receiver)@.access_to_gateway,
{
    law_decrypt_of_encrypt(
        old(sender)@.gateway_to_access,
        final(sender)@.gateway_to_access,
        old(receiver)@.gateway_to_access,
        label(GATEWAY_TO_ACCESS),
        kind,
        payload@,
        frame,
    );
}

/// Of a frame that is received these hold: it is at most 16 MiB long, has the expected number
/// and opens under the key, prefix and label of the direction to its kind and payload. A frame
/// that is refused leaves the receiver as it was, unless it is authentic and only its kind is
/// not known.
pub proof fn law_what_is_received(
    receiver: &mut TunnelCipher,
    frame: Vec<u8>,
    result: Result<(TunnelFrameKind, Vec<u8>), TunnelError>,
)
    requires
        call_ensures(TunnelCipher::decrypt_from_access, (receiver, frame), result),
    ensures
        result matches Ok(opened) ==> {
            let state = old(receiver)@.access_to_gateway;
            let number = frame@.subrange(4, 12);
            let kind_byte: u8 = match opened.0 {
                TunnelFrameKind::Text => 1,
                TunnelFrameKind::Binary => 2,
            };
            &&& 29 <= frame@.len() <= 16 * 1024 * 1024
            &&& bytes::big_endian(number) == state.next_receive
            &&& primitives::chacha20_poly1305_open(
                state.key,
                state.prefix + number,
                vstd::utf8::encode_utf8("ws-net/access-to-gateway/v2"@),
                frame@.skip(12),
            ) == Some(seq![kind_byte] + opened.1@)
            &&& final(receiver)@.access_to_gateway.next_receive == state.next_receive + 1
        },
        result matches Err(error) ==> error == TunnelError::UnknownKind || final(receiver)@ == old(
            receiver,
        )@,
        result is Ok ==> final(receiver)@.access_to_gateway.next_send == old(
            receiver,
        )@.access_to_gateway.next_send,
{
    if result is Ok {
        let state = old(receiver)@.access_to_gateway;
        bytes::lemma_big_endian(frame@.subrange(4, 12));
        bytes::lemma_be_bytes_of_value(frame@.subrange(4, 12));
        bytes::lemma_pow256_of_8();
        assert(nonce_of(state.prefix, state.next_receive) == state.prefix + frame@.subrange(
            4,
            12,
        ));
    }
}

/// A frame with another number than the expected one, such as one that came before, is
/// refused, and the error names both numbers.
pub proof fn law_frames_out_of_turn(
    receiver: &mut TunnelCipher,
    frame: Vec<u8>,
    result: Result<(TunnelFrameKind, Vec<u8>), TunnelError>,
)
    requires
        call_ensures(TunnelCipher::decrypt_from_gateway, (receiver, frame), result),
        29 <= frame@.len() <= 16 * 1024 * 1024,
        frame@[0] == 0x57 && frame@[1] == 0x53 && frame@[2] == 0x4e && frame@[3] == 0x45,
        bytes::big_endian(frame@.subrange(4, 12)) != old(
            receiver,
        )@.gateway_to_access.next_receive,
    ensures
        result matches Err(TunnelError::UnexpectedSequence { expected, received }) && expected
            == old(receiver)@.gateway_to_access.next_receive && received == bytes::big_endian(
            frame@.subrange(4, 12),
        ),
        final(receiver)@ == old(receiver)@,
{
    bytes::lemma_big_endian(frame@.subrange(4, 12));
    bytes::lemma_be_bytes_of_value(frame@.subrange(4, 12));
    bytes::lemma_pow256_of_8();
    assert(frame@.take(4) =~= frame_magic());
}

/// What is too short, does not begin with `WSNE`, is too long, or does not open is refused for
/// that reason.
pub proof fn law_refused_frames(
    receiver: &mut TunnelCipher,
    frame: Vec<u8>,
    result: Result<(TunnelFrameKind, Vec<u8>), TunnelError>,
)
    requires
        call_ensures(TunnelCipher::decrypt_from_gateway, (receiver, frame), result),
    ensures
        ({
            let state = old(receiver)@.gateway_to_access;
            let formed = frame@.len() >= 29 && frame@[0] == 0x57 && frame@[1] == 0x53 && frame@[2]
                == 0x4e && frame@[3] == 0x45;
            &&& !formed ==> (result matches Err(TunnelError::InvalidFrame))
            &&& formed && frame@.len() > 16 * 1024 * 1024 ==> (result matches Err(
                TunnelError::FrameTooLarge,
            ))
            &&& formed && frame@.len() <= 16 * 1024 * 1024 && bytes::big_endian(
                frame@.subrange(4, 12),
            ) == state.next_receive && primitives::chacha20_poly1305_open(
                state.key,
                state.prefix + frame@.subrange(4, 12),
                vstd::utf8::encode_utf8("ws-net/gateway-to-access/v2"@),
                frame@.skip(12),
            ) is None ==> (result matches Err(TunnelError::AuthenticationFailed))
        }),
{
    let start = frame@.take(4);
    if frame@.len() >= 29 {
        assert(start[0] == frame@[0] && start[1] == frame@[1] && start[2] == frame@[2] && start[3]
            == frame@[3]);
        if frame@[0] == 0x57 && frame@[1] == 0x53 && frame@[2] == 0x4e && frame@[3] == 0x45 {
            assert(start =~= frame_magic());
        }
        bytes::lemma_big_endian(frame@.subrange(4, 12));
        bytes::lemma_be_bytes_of_value(frame@.subrange(4, 12));
        bytes::lemma_pow256_of_8();
    }
}

/// The two nonce prefixes, letter by letter.
pub proof fn lemma_prefixes()
    ensures
        access_prefix() == seq!['A' as u8, '2' as u8, 'G' as u8, 'W' as u8],
        gateway_prefix() == seq!['G' as u8, '2' as u8, 'A' as u8, 'C' as u8],
{
    assert(access_prefix() =~= seq!['A' as u8, '2' as u8, 'G' as u8, 'W' as u8]);
    assert(gateway_prefix() =~= seq!['G' as u8, '2' as u8, 'A' as u8, 'C' as u8]);
}

/// What errors of the tunnel are told as.
pub proof fn law_error_texts(error: TunnelError, text: String, expected: String, received: String)
    requires
        call_ensures(TunnelError::message, (&error,), text),
        error matches TunnelError::UnexpectedSequence { expected: a, received: b } ==> call_ensures(
            text::number,
            (a,),
            expected,
        ) && call_ensures(text::number, (b,), received),
    ensures
        error is PayloadTooLarge ==> text@ == "tunnel frame payload exceeds maximum size"@,
        error is SendSequenceExhausted ==> text@ == "tunnel send sequence exhausted"@,
        error is EncryptionFailed ==> text@ == "failed to encrypt tunnel frame"@,
        error is InvalidFrame ==> text@ == "invalid encrypted tunnel frame"@,
        error is FrameTooLarge ==> text@ == "encrypted tunnel frame exceeds maximum size"@,
        error is UnexpectedSequence ==> text@ == "unexpected tunnel frame sequence: expected "@
            + expected@ + ", received "@ + received@,
        error is AuthenticationFailed ==> text@ == "encrypted tunnel frame authentication failed"@,
        error is ReceiveSequenceExhausted ==> text@ == "tunnel receive sequence exhausted"@,
        error is UnknownKind ==> text@ == "encrypted tunnel frame has unknown type"@,
        error is EmptySecret ==> text@ == "tunnel bootstrap secret must not be empty"@,
        error is EmptyKeyMaterial ==> text@ == "empty tunnel key material"@,
        error is KeyDerivationFailed ==> text@ == "failed to derive tunnel direction key"@,
        error is KeyGenerationFailed ==> text@ == "failed to generate tunnel ephemeral key"@,
        error is PublicKeyFailed ==> text@ == "failed to compute tunnel public key"@,
        error is InvalidPeerKey ==> text@ == "invalid tunnel peer public key"@,
{
}

/// A nonce is the four bytes of its prefix and then the number in eight bytes, most
/// significant first.
pub proof fn law_nonce_layout(prefix: [u8; 4], sequence: u64, nonce: [u8; 12])
    requires
        call_ensures(sequence_nonce, (prefix, sequence), nonce),
    ensures
        nonce@.take(4) == prefix@,
        bytes::big_endian(nonce@.skip(4)) == sequence,
{
    bytes::lemma_pow256_of_8();
    bytes::lemma_be_value_of_bytes(sequence as nat, 8);
    bytes::lemma_be_bytes_len(sequence as nat, 8);
    bytes::lemma_big_endian(nonce@.skip(4));
}

} // verus!
