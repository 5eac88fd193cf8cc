//! How the two ends of a connection agree on a session.
//!
//! The access sends its token and a fresh public key, and the gateway answers with one of
//! its own. Both messages are encrypted with a cipher made from the token; all that follows
//! is encrypted with a cipher made from the secret that the two key pairs share.

use crate::batch::WsMessage;
use crate::frames;
use crate::frames::{
    decode_access_text, decode_gateway_text, encrypt_access_message, encrypt_gateway_message,
    Peer, TextError,
};
use crate::message::Message;
use crate::primitives;
use crate::text;
use crate::tunnel_crypto;
use crate::tunnel_crypto::{EphemeralKeyPair, TunnelCipher, TunnelError};
use vstd::prelude::*;
use vstd::slice::slice_to_vec;

verus! {

/// Why an access has no session.
#[derive(Debug, PartialEq, Eq)]
pub enum RegisterError {
    /// The gateway refused.
    Gateway { code: String, message: String },
    /// The gateway answered with another message; it is shown as given.
    Unexpected { shown: String },
    /// There is no session with the gateway's key.
    Tunnel(TunnelError),
}

impl RegisterError {
    /// The text of an error.
    pub open spec fn text(self) -> Seq<char> {
        match self {
            RegisterError::Gateway { code, message } => {
                "gateway error "@ + code@ + ": "@ + message@
            },
            RegisterError::Unexpected { shown } => "unexpected register response: "@ + shown@,
            RegisterError::Tunnel(error) => error.text(),
        }
    }

    /// The text of an error.
    pub fn message(&self) -> (result: String)
        ensures
            result@ == self.text(),
    {
        match self {
            RegisterError::Gateway { code, message } => {
                let mut result = "gateway error ".to_owned();
                result.append(code.as_str());
                result.append(": ");
                result.append(message.as_str());
                result
            },
            RegisterError::Unexpected { shown } => {
                let mut result = "unexpected register response: ".to_owned();
                result.append(shown.as_str());
                result
            },
            RegisterError::Tunnel(error) => error.message(),
        }
    }
}

/// What the access knows between its registration and the gateway's answer.
pub struct AccessHandshake {
    cipher: TunnelCipher,
    key_pair: EphemeralKeyPair,
}

impl AccessHandshake {
    /// The state of the cipher that protects the handshake.
    pub closed spec fn cipher(&self) -> tunnel_crypto::CipherState {
        self.cipher@
    }

    /// The secret scalar of the access.
    pub closed spec fn scalar(&self) -> Seq<u8> {
        self.key_pair.scalar()
    }

    /// Begins a handshake with the given key pair, protected by the given cipher, and gives
    /// the message that registers the access.
    pub fn begin(cipher: TunnelCipher, key_pair: EphemeralKeyPair, token: &str) -> (result: (
        Self,
        Message,
    ))
        ensures
            result.0.cipher() == cipher@,
            result.0.scalar() == key_pair.scalar(),
            key_pair.scalar().len() == 32,
            result.1 matches Message::RegisterAccess { token: sent, client_public_key } && sent@
                == token@ && client_public_key@ == primitives::x25519_public_key(
                key_pair.scalar(),
            ),
    {
        let message = Message::RegisterAccess {
            token: token.to_owned(),
            client_public_key: slice_to_vec(key_pair.public_key()),
        };
        (AccessHandshake { cipher, key_pair }, message)
    }

    /// Begins a handshake with a new key pair and gives the message that registers the
    /// access. Whether a key pair comes is left to chance and to the machine.
    pub fn start(token: &str) -> (result: Result<(Self, Message), TunnelError>)
        ensures
            text::is_blank(token@) <==> result == Err::<(Self, Message), TunnelError>(
                TunnelError::EmptySecret,
            ),
            match result {
                Ok(started) => {
                    &&& started.0.cipher() == tunnel_crypto::fresh_cipher(
                        tunnel_crypto::label(token),
                        tunnel_crypto::BOOTSTRAP_CONTEXT,
                    )
                    &&& started.1 matches Message::RegisterAccess { token: sent, client_public_key }
                        && sent@ == token@ && client_public_key@ == primitives::x25519_public_key(
                        started.0.scalar(),
                    )
                    &&& started.0.scalar().len() == 32
                },
                Err(error) => error == TunnelError::EmptySecret || error
                    == TunnelError::KeyGenerationFailed,
            },
    {
        match TunnelCipher::from_shared_key(token) {
            Err(error) => Err(error),
            Ok(cipher) => match EphemeralKeyPair::generate() {
                Err(error) => Err(error),
                Ok(key_pair) => Ok(Self::begin(cipher, key_pair, token)),
            },
        }
    }

    /// Encrypts the registration.
    pub fn encrypt(&mut self, message: WsMessage) -> (result: Result<WsMessage, TunnelError>)
        ensures
            frames::seals(
                old(self).cipher().access_to_gateway,
                final(self).cipher().access_to_gateway,
                Peer::Access,
                message,
                result,
            ),
            final(self).cipher().gateway_to_access == old(self).cipher().gateway_to_access,
            final(self).scalar() == old(self).scalar(),
    {
        encrypt_access_message(&mut self.cipher, message)
    }

    /// The text of the gateway's answer. An error shows a message that is not encrypted as
    /// given.
    pub fn read(&mut self, frame: WsMessage, shown: String) -> (result: Result<String, TextError>)
        ensures
            frames::reads_text(
                old(self).cipher().gateway_to_access,
                Peer::Gateway,
                frame@,
                shown,
                result,
            ),
            final(self).cipher().gateway_to_access == frames::after_unseal(
                old(self).cipher().gateway_to_access,
                Peer::Gateway,
                frame@,
            ),
            final(self).cipher().access_to_gateway == old(self).cipher().access_to_gateway,
            final(self).scalar() == old(self).scalar(),
    {
        decode_gateway_text(&mut self.cipher, frame, shown)
    }

    /// The cipher of the session, where the gateway accepted the registration. An error shows
    /// an answer that is none as given.
    pub fn finish(self, reply: Message, shown: String) -> (result: Result<
        TunnelCipher,
        RegisterError,
    >)
        ensures
            match reply {
                Message::RegisterOk { gateway_public_key } => match result {
                    Ok(cipher) => tunnel_crypto::agrees(
                        self.scalar(),
                        gateway_public_key@,
                        Ok(cipher),
                    ),
                    Err(RegisterError::Tunnel(error)) => tunnel_crypto::agrees(
                        self.scalar(),
                        gateway_public_key@,
                        Err(error),
                    ),
                    Err(_) => false,
                },
                Message::Error { stream_id, code, message } => result == Err::<
                    TunnelCipher,
                    RegisterError,
                >(RegisterError::Gateway { code, message }),
                _ => result == Err::<TunnelCipher, RegisterError>(
                    RegisterError::Unexpected { shown },
                ),
            },
    {
        match reply {
            Message::RegisterOk { gateway_public_key } => {
                match self.key_pair.derive_session_cipher(gateway_public_key.as_slice()) {
                    Ok(cipher) => Ok(cipher),
                    Err(error) => Err(RegisterError::Tunnel(error)),
                }
            },
            Message::Error { code, message, .. } => Err(RegisterError::Gateway { code, message }),
            _ => Err(RegisterError::Unexpected { shown }),
        }
    }
}

/// What a gateway makes of the first message of a connection.
pub enum Registration {
    /// The token is right; the access has this public key.
    Accepted { client_public_key: Vec<u8> },
    /// The token is wrong; this is the answer, after which the connection ends.
    Refused { reply: Message },
    /// The message is no registration; the connection ends.
    NotRegistration,
}

/// What a gateway knows before the access is registered.
pub struct GatewayHandshake {
    cipher: TunnelCipher,
}

/// What accepting a registration gives: the session cipher and the answer, which holds the
/// public key of the gateway's scalar.
pub open spec fn accepts(
    scalar: Seq<u8>,
    client_public_key: Seq<u8>,
    session: TunnelCipher,
    reply: Message,
) -> bool {
    &&& tunnel_crypto::agrees(scalar, client_public_key, Ok(session))
    &&& reply matches Message::RegisterOk { gateway_public_key } && gateway_public_key@
        == primitives::x25519_public_key(scalar)
}

impl GatewayHandshake {
    /// The state of the cipher that protects the handshake.
    pub closed spec fn cipher(&self) -> tunnel_crypto::CipherState {
        self.cipher@
    }

    /// Begins a handshake with an access that is to hold the given token.
    pub fn start(access_token: &str) -> (result: Result<Self, TunnelError>)
        ensures
            match result {
                Ok(handshake) => !text::is_blank(access_token@) && handshake.cipher()
                    == tunnel_crypto::fresh_cipher(
                    tunnel_crypto::label(access_token),
                    tunnel_crypto::BOOTSTRAP_CONTEXT,
                ),
                Err(error) => text::is_blank(access_token@) && error == TunnelError::EmptySecret,
            },
    {
        match TunnelCipher::from_shared_key(access_token) {
            Ok(cipher) => Ok(GatewayHandshake { cipher }),
            Err(error) => Err(error),
        }
    }

    /// The text of the first message of a connection. An error shows a message that is not
    /// encrypted as given.
    pub fn read(&mut self, frame: WsMessage, shown: String) -> (result: Result<String, TextError>)
        ensures
            frames::reads_text(
                old(self).cipher().access_to_gateway,
                Peer::Access,
                frame@,
                shown,
                result,
            ),
            final(self).cipher().access_to_gateway == frames::after_unseal(
                old(self).cipher().access_to_gateway,
                Peer::Access,
                frame@,
            ),
            final(self).cipher().gateway_to_access == old(self).cipher().gateway_to_access,
    {
        decode_access_text(&mut self.cipher, frame, shown)
    }

    /// Encrypts the answer to a registration.
    pub fn encrypt(&mut self, message: WsMessage) -> (result: Result<WsMessage, TunnelError>)
        ensures
            frames::seals(
                old(self).cipher().gateway_to_access,
                final(self).cipher().gateway_to_access,
                Peer::Gateway,
                message,
                result,
            ),
            final(self).cipher().access_to_gateway == old(self).cipher().access_to_gateway,
    {
        encrypt_gateway_message(&mut self.cipher, message)
    }
}

/// What a gateway makes of the first message of a connection.
pub fn register(message: Message, access_token: &str) -> (result: Registration)
    ensures
        match message {
            Message::RegisterAccess { token, client_public_key } => if token@ == access_token@ {
                result == (Registration::Accepted { client_public_key })
            } else {
                result matches Registration::Refused { reply } && reply matches Message::Error {
                    stream_id,
                    code,
                    message: explanation,
                } && stream_id is None && code@ == "UNAUTHORIZED"@ && explanation@
                    == "invalid access token"@
            },
            _ => result == Registration::NotRegistration,
        },
{
    match message {
        Message::RegisterAccess { token, client_public_key } => {
            if text::same(token.as_str(), access_token) {
                Registration::Accepted { client_public_key }
            } else {
                Registration::Refused {
                    reply: Message::Error {
                        stream_id: None,
                        code: "UNAUTHORIZED".to_owned(),
                        message: "invalid access token".to_owned(),
                    },
                }
            }
        },
        _ => Registration::NotRegistration,
    }
}

/// Makes the session cipher of an access that was accepted from the gateway's key pair, and
/// the answer to it.
pub fn accept(key_pair: EphemeralKeyPair, client_public_key: &[u8]) -> (result: Result<
    (TunnelCipher, Message),
    TunnelError,
>)
    ensures
        key_pair.scalar().len() == 32,
        match result {
            Ok(accepted) => accepts(
                key_pair.scalar(),
                client_public_key@,
                accepted.0,
                accepted.1,
            ),
            Err(error) => tunnel_crypto::agrees(
                key_pair.scalar(),
                client_public_key@,
                Err(error),
            ),
        },
{
    let reply = Message::RegisterOk { gateway_public_key: slice_to_vec(key_pair.public_key()) };
    match key_pair.derive_session_cipher(client_public_key) {
        Ok(session) => Ok((session, reply)),
        Err(error) => Err(error),
    }
}

/// An access whose registration was accepted, and which gets the gateway's answer, comes to
/// the same session cipher as the gateway.
pub proof fn law_handshake_agrees(
    access: Seq<u8>,
    gateway: Seq<u8>,
    at_gateway: TunnelCipher,
    reply: Message,
    at_access: Result<TunnelCipher, TunnelError>,
)
    requires
        access.len() == 32,
        gateway.len() == 32,
        accepts(gateway, primitives::x25519_public_key(access), at_gateway, reply),
        reply matches Message::RegisterOk { gateway_public_key } && tunnel_crypto::agrees(
            access,
            gateway_public_key@,
            at_access,
        ),
    ensures
        at_access matches Ok(cipher) && cipher@ == at_gateway@,
{
    tunnel_crypto::law_sessions_match(access, gateway, at_access, Ok(at_gateway));
}

/// Two ends with the same token read each other's handshake messages: the first message
/// that one sends arrives at the other as it was.
pub proof fn law_handshake_messages_arrive(
    token: &str,
    access: tunnel_crypto::CipherState,
    gateway: tunnel_crypto::CipherState,
    sent: tunnel_crypto::DirectionState,
    text: String,
    sealed: WsMessage,
)
    requires
        access == tunnel_crypto::fresh_cipher(
            tunnel_crypto::label(token),
            tunnel_crypto::BOOTSTRAP_CONTEXT,
        ),
        gateway == tunnel_crypto::fresh_cipher(
            tunnel_crypto::label(token),
            tunnel_crypto::BOOTSTRAP_CONTEXT,
        ),
    ensures
        frames::seals(
            access.access_to_gateway,
            sent,
            Peer::Access,
            WsMessage::Text(text),
            Ok(sealed),
        ) ==> frames::unsealed_text(
            gateway.access_to_gateway,
            Peer::Access,
            sealed@,
        ) == Some(text@),
        frames::seals(
            gateway.gateway_to_access,
            sent,
            Peer::Gateway,
            WsMessage::Text(text),
            Ok(sealed),
        ) ==> frames::unsealed_text(
            access.gateway_to_access,
            Peer::Gateway,
            sealed@,
        ) == Some(text@),
{
    let message = WsMessage::Text(text);
    if frames::seals(access.access_to_gateway, sent, Peer::Access, message, Ok(sealed)) {
        frames::law_message_round_trip(
            access.access_to_gateway,
            sent,
            gateway.access_to_gateway,
            Peer::Access,
            message,
            sealed,
            text,
        );
    }
    if frames::seals(gateway.gateway_to_access, sent, Peer::Gateway, message, Ok(sealed)) {
        frames::law_message_round_trip(
            gateway.gateway_to_access,
            sent,
            access.gateway_to_access,
            Peer::Gateway,
            message,
            sealed,
            text,
        );
    }
}

/// Two ends that hold the same token agree: the gateway accepts the registration that the
/// access begins with, with the access's public key, and the access that gets the gateway's
/// answer comes to the same session cipher.
pub proof fn law_registration(
    token: &str,
    access_token: &str,
    cipher: TunnelCipher,
    pair: EphemeralKeyPair,
    begun: (AccessHandshake, Message),
    registration: Registration,
    gateway_pair: EphemeralKeyPair,
    key: Vec<u8>,
    slice: &[u8],
    accepted: (TunnelCipher, Message),
    shown: String,
    session: Result<TunnelCipher, RegisterError>,
)
    requires
        call_ensures(AccessHandshake::begin, (cipher, pair, token), begun),
        call_ensures(register, (begun.1, access_token), registration),
        registration == (Registration::Accepted { client_public_key: key }),
        slice@ == key@,
        call_ensures(accept, (gateway_pair, slice), Ok(accepted)),
        call_ensures(AccessHandshake::finish, (begun.0, accepted.1, shown), session),
    ensures
        access_token@ == token@,
        key@ == primitives::x25519_public_key(pair.scalar()),
        accepted.1 matches Message::RegisterOk { gateway_public_key } && gateway_public_key@
            == primitives::x25519_public_key(gateway_pair.scalar()),
        session matches Ok(at_access) && at_access@ == accepted.0@,
{
    let reply = accepted.1;
    match reply {
        Message::RegisterOk { gateway_public_key } => {
            match session {
                Ok(at_access) => {
                    law_handshake_agrees(
                        pair.scalar(),
                        gateway_pair.scalar(),
                        accepted.0,
                        reply,
                        Ok(at_access),
                    );
                },
                Err(RegisterError::Tunnel(error)) => {
                    law_handshake_agrees(
                        pair.scalar(),
                        gateway_pair.scalar(),
                        accepted.0,
                        reply,
                        Err(error),
                    );
                },
                Err(_) => {},
            }
        },
        _ => {},
    }
}

/// A gateway accepts exactly the registrations with its own token, with the public key that
/// they bring; it answers one with another token that it is not authorized, and anything else
/// is no registration.
pub proof fn law_only_the_right_token(
    message: Message,
    access_token: &str,
    registration: Registration,
)
    requires
        call_ensures(register, (message, access_token), registration),
    ensures
        registration is Accepted <==> (message matches Message::RegisterAccess {
            token,
            client_public_key,
        } && token@ == access_token@),
        registration is Refused <==> (message matches Message::RegisterAccess {
            token,
            client_public_key,
        } && token@ != access_token@),
        registration matches Registration::Accepted { client_public_key } ==> (
        message matches Message::RegisterAccess { token, client_public_key: brought } && brought
            == client_public_key),
        registration matches Registration::Refused { reply } ==> (reply matches Message::Error {
            stream_id,
            code,
            message: text,
        } && stream_id is None && code@ == "UNAUTHORIZED"@ && text@ == "invalid access token"@),
{
}

/// An access whose registration was not accepted has no session, and the reason is what the
/// gateway said, or that it said something else.
pub proof fn law_refused_registration(
    handshake: AccessHandshake,
    reply: Message,
    shown: String,
    result: Result<TunnelCipher, RegisterError>,
    text: String,
)
    requires
        call_ensures(AccessHandshake::finish, (handshake, reply, shown), result),
        reply !is RegisterOk,
        result matches Err(error) ==> call_ensures(RegisterError::message, (&error,), text),
    ensures
        result is Err,
        reply matches Message::Error { stream_id, code, message } ==> text@ == "gateway error "@
            + code@ + ": "@ + message@,
        reply !is Error ==> text@ == "unexpected register response: "@ + shown@,
{
}

/// The messages of the handshake are protected by a cipher made from the token: both ends
/// begin with the same one where their tokens are the same, and a blank token gives none.
pub proof fn law_handshake_begins(
    token: &str,
    access: Result<(AccessHandshake, Message), TunnelError>,
    gateway: Result<GatewayHandshake, TunnelError>,
)
    requires
        call_ensures(AccessHandshake::start, (token,), access),
        call_ensures(GatewayHandshake::start, (token,), gateway),
    ensures
        access matches Ok(begun) ==> tunnel_crypto::is_made_from(
            begun.0.cipher(),
            vstd::utf8::encode_utf8(token@),
            "ws-net/bootstrap/v2",
        ),
        access matches Ok(begun) ==> (begun.1 matches Message::RegisterAccess {
            token: sent,
            client_public_key,
        } && sent@ == token@ && client_public_key@ == primitives::x25519_public_key(
            begun.0.scalar(),
        )),
        gateway matches Ok(begun) ==> tunnel_crypto::is_made_from(
            begun.cipher(),
            vstd::utf8::encode_utf8(token@),
            "ws-net/bootstrap/v2",
        ),
        gateway is Err <==> forall|i: int|
            0 <= i < token@.len() ==> text::is_white_space(#[trigger] token@[i]),
        gateway is Err ==> access is Err,
        access is Ok && gateway is Ok ==> access->Ok_0.0.cipher() == gateway->Ok_0.cipher(),
{
    text::lemma_blank(token@);
    tunnel_crypto::lemma_prefixes();
}

/// The registration that the access encrypts arrives at the gateway as it was, and the answer
/// that the gateway encrypts at the access; neither changes the access's key pair.
pub proof fn law_handshake_is_read(
    access: &mut AccessHandshake,
    gateway: &mut GatewayHandshake,
    answering: &mut GatewayHandshake,
    reading: &mut AccessHandshake,
    text: String,
    sent: WsMessage,
    shown: String,
    read: Result<String, frames::TextError>,
    answer: String,
    replied: WsMessage,
    answer_read: Result<String, frames::TextError>,
)
    requires
        old(access).cipher() == old(gateway).cipher(),
        old(access).cipher().access_to_gateway.next_send
            == old(access).cipher().access_to_gateway.next_receive,
        old(access).cipher().gateway_to_access.next_send
            == old(access).cipher().gateway_to_access.next_receive,
        call_ensures(AccessHandshake::encrypt, (access, WsMessage::Text(text)), Ok(sent)),
        call_ensures(GatewayHandshake::read, (gateway, sent, shown), read),
        *old(answering) == *final(gateway),
        call_ensures(
            GatewayHandshake::encrypt,
            (answering, WsMessage::Text(answer)),
            Ok(replied),
        ),
        *old(reading) == *final(access),
        call_ensures(AccessHandshake::read, (reading, replied, shown), answer_read),
    ensures
        read matches Ok(arrived) && arrived@ == text@,
        answer_read matches Ok(arrived) && arrived@ == answer@,
        final(reading).scalar() == old(access).scalar(),
{
    frames::law_message_round_trip(
        old(access).cipher().access_to_gateway,
        final(access).cipher().access_to_gateway,
        old(gateway).cipher().access_to_gateway,
        Peer::Access,
        WsMessage::Text(text),
        sent,
        shown,
    );
    frames::law_message_round_trip(
        old(answering).cipher().gateway_to_access,
        final(answering).cipher().gateway_to_access,
        old(reading).cipher().gateway_to_access,
        Peer::Gateway,
        WsMessage::Text(answer),
        replied,
        shown,
    );
}

/// Both ends take the session cipher from their own key pair and the public key of the other:
/// where that gives none there is no session, for the same reason.
pub proof fn law_sessions_come_from_the_key_pairs(
    pair: EphemeralKeyPair,
    peer: &[u8],
    derived: Result<TunnelCipher, TunnelError>,
    accepted: Result<(TunnelCipher, Message), TunnelError>,
    cipher: TunnelCipher,
    token: &str,
    begun: (AccessHandshake, Message),
    key: Vec<u8>,
    shown: String,
    finished: Result<TunnelCipher, RegisterError>,
    public_key: &[u8],
)
    requires
        call_ensures(EphemeralKeyPair::derive_session_cipher, (pair, peer), derived),
        call_ensures(EphemeralKeyPair::public_key, (&pair,), public_key),
        call_ensures(accept, (pair, peer), accepted),
        call_ensures(AccessHandshake::begin, (cipher, pair, token), begun),
        key@ == peer@,
        call_ensures(
            AccessHandshake::finish,
            (begun.0, Message::RegisterOk { gateway_public_key: key }, shown),
            finished,
        ),
    ensures
        accepted is Ok <==> derived is Ok,
        accepted matches Ok(given) ==> given.0@ == derived->Ok_0@ && (
        given.1 matches Message::RegisterOk { gateway_public_key } && gateway_public_key@
            == public_key@),
        accepted matches Err(error) ==> error == derived->Err_0,
        finished is Ok <==> derived is Ok,
        finished matches Ok(session) ==> session@ == derived->Ok_0@,
        finished matches Err(error) ==> error == RegisterError::Tunnel(derived->Err_0),
        public_key@.len() == 32,
        begun.1 matches Message::RegisterAccess { token: sent, client_public_key } && sent@
            == token@ && client_public_key@ == public_key@,
        begun.0.cipher() == cipher@,
{
}

} // verus!
