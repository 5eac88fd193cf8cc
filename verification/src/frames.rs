//! WebSocket messages on their way through the tunnel cipher.

use crate::batch;
use crate::batch::WsMessage;
use crate::message;
use crate::tunnel_crypto;
use crate::tunnel_crypto::{TunnelCipher, TunnelError, TunnelFrameKind};
use vstd::prelude::*;

verus! {

/// The end of a connection that sent a message.
#[derive(Debug, Clone, Copy, PartialEq, Eq, Structural)]
pub enum Peer {
    Access,
    Gateway,
}

/// The label of the frames that an end sends.
pub open spec fn sender_label(from: Peer) -> Seq<u8> {
    match from {
        Peer::Access => tunnel_crypto::label(tunnel_crypto::ACCESS_TO_GATEWAY),
        Peer::Gateway => tunnel_crypto::label(tunnel_crypto::GATEWAY_TO_ACCESS),
    }
}

/// Why a WebSocket message of the peer is not accepted.
#[derive(Debug, Clone, PartialEq, Eq)]
pub enum FrameError {
    /// The message is not encrypted; it is shown as given.
    Unencrypted { from: Peer, shown: String },
    /// The message does not decrypt.
    Tunnel(TunnelError),
}

impl FrameError {
    /// The text of an error.
    pub open spec fn text(self) -> Seq<char> {
        match self {
            FrameError::Unencrypted { from: Peer::Gateway, shown } => {
                "unexpected unencrypted gateway websocket message: "@ + shown@
            },
            FrameError::Unencrypted { from: Peer::Access, shown } => {
                "unexpected unencrypted access websocket message: "@ + shown@
            },
            FrameError::Tunnel(error) => error.text(),
        }
    }

    /// The text of an error.
    pub fn message(&self) -> (result: String)
        ensures
            result@ == self.text(),
    {
        match self {
            FrameError::Unencrypted { from: Peer::Gateway, shown } => {
                let mut result = "unexpected unencrypted gateway websocket message: ".to_owned();
                result.append(shown.as_str());
                result
            },
            FrameError::Unencrypted { from: Peer::Access, shown } => {
                let mut result = "unexpected unencrypted access websocket message: ".to_owned();
                result.append(shown.as_str());
                result
            },
            FrameError::Tunnel(error) => error.message(),
        }
    }
}

/// Why a WebSocket message of the peer holds no text.
#[derive(Debug, Clone, PartialEq, Eq)]
pub enum TextError {
    /// The message is not accepted.
    Frame(FrameError),
    /// The message holds data.
    NotText { from: Peer },
    /// The message is not valid UTF-8.
    NotUtf8 { explanation: String },
}

impl TextError {
    /// The text of an error.
    pub open spec fn text(self) -> Seq<char> {
        match self {
            TextError::Frame(error) => error.text(),
            TextError::NotText { from: Peer::Gateway } => {
                "expected encrypted gateway text message"@
            },
            TextError::NotText { from: Peer::Access } => {
                "expected encrypted access text message"@
            },
            TextError::NotUtf8 { explanation } => explanation@,
        }
    }

    /// The text of an error.
    pub fn message(&self) -> (result: String)
        ensures
            result@ == self.text(),
    {
        match self {
            TextError::Frame(error) => error.message(),
            TextError::NotText { from: Peer::Gateway } => {
                "expected encrypted gateway text message".to_owned()
            },
            TextError::NotText { from: Peer::Access } => {
                "expected encrypted access text message".to_owned()
            },
            TextError::NotUtf8 { explanation } => explanation.clone(),
        }
    }
}

/// The kind and the bytes under which a message goes through the tunnel; control messages
/// do not go through it.
pub open spec fn tunnelled(content: batch::WsContent) -> Option<(TunnelFrameKind, Seq<u8>)> {
    match content {
        batch::WsContent::Text(text) => Some(
            (TunnelFrameKind::Text, vstd::utf8::encode_utf8(text)),
        ),
        batch::WsContent::Binary(bytes) => Some((TunnelFrameKind::Binary, bytes)),
        _ => None,
    }
}

/// What encrypting a message does: text and binary messages become encrypted binary ones,
/// and control messages pass as they are.
pub open spec fn seals(
    before: tunnel_crypto::DirectionState,
    after: tunnel_crypto::DirectionState,
    from: Peer,
    message: WsMessage,
    result: Result<WsMessage, TunnelError>,
) -> bool {
    match tunnelled(message@) {
        Some(item) => match result {
            Ok(WsMessage::Binary(frame)) => tunnel_crypto::encrypts(
                before,
                after,
                sender_label(from),
                item.0,
                item.1,
                Ok(frame),
            ),
            Ok(_) => false,
            Err(error) => tunnel_crypto::encrypts(
                before,
                after,
                sender_label(from),
                item.0,
                item.1,
                Err(error),
            ),
        },
        None => result == Ok::<WsMessage, TunnelError>(message) && after == before,
    }
}

/// What a message of the peer decrypts to; only binary messages are encrypted. An error shows
/// another message as given.
pub open spec fn unsealed(
    state: tunnel_crypto::DirectionState,
    from: Peer,
    content: batch::WsContent,
    shown: String,
) -> Result<(TunnelFrameKind, Seq<u8>), FrameError> {
    match content {
        batch::WsContent::Binary(frame) => match tunnel_crypto::decrypted(
            state,
            sender_label(from),
            frame,
        ) {
            Ok(opened) => Ok(opened),
            Err(error) => Err(FrameError::Tunnel(error)),
        },
        _ => Err(FrameError::Unencrypted { from, shown }),
    }
}

/// The state of a direction after a message of the peer.
pub open spec fn after_unseal(
    state: tunnel_crypto::DirectionState,
    from: Peer,
    content: batch::WsContent,
) -> tunnel_crypto::DirectionState {
    match content {
        batch::WsContent::Binary(frame) => tunnel_crypto::after_decrypt(
            state,
            sender_label(from),
            frame,
        ),
        _ => state,
    }
}

/// The text that a message of the peer decrypts to, where it is one.
pub open spec fn unsealed_text(
    state: tunnel_crypto::DirectionState,
    from: Peer,
    content: batch::WsContent,
) -> Option<Seq<char>> {
    match content {
        batch::WsContent::Binary(frame) => match tunnel_crypto::decrypted(
            state,
            sender_label(from),
            frame,
        ) {
            Ok(opened) => if opened.0 == TunnelFrameKind::Text && vstd::utf8::valid_utf8(
                opened.1,
            ) {
                Some(vstd::utf8::decode_utf8(opened.1))
            } else {
                None
            },
            Err(_) => None,
        },
        _ => None,
    }
}

/// Whether a result of decrypting is the given one.
pub open spec fn unseals_to(
    result: Result<(TunnelFrameKind, Vec<u8>), FrameError>,
    expected: Result<(TunnelFrameKind, Seq<u8>), FrameError>,
) -> bool {
    match result {
        Ok(opened) => expected == Ok::<(TunnelFrameKind, Seq<u8>), FrameError>(
            (opened.0, opened.1@),
        ),
        Err(error) => expected == Err::<(TunnelFrameKind, Seq<u8>), FrameError>(error),
    }
}

/// Whether a message of the peer is, byte for byte, the one that sealing what it decrypted to
/// gives under the expected sequence number.
pub open spec fn is_authentic(
    state: tunnel_crypto::DirectionState,
    from: Peer,
    content: batch::WsContent,
    result: Result<(TunnelFrameKind, Vec<u8>), FrameError>,
) -> bool {
    result matches Ok(opened) ==> content == batch::WsContent::Binary(
        tunnel_crypto::encrypted_frame(
            state,
            sender_label(from),
            state.next_receive,
            opened.0,
            opened.1@,
        ),
    )
}

/// What reading a text from what was decrypted gives.
pub open spec fn reads_opened(
    opened: (TunnelFrameKind, Seq<u8>),
    from: Peer,
    result: Result<String, TextError>,
) -> bool {
    if opened.0 != TunnelFrameKind::Text {
        result == Err::<String, TextError>(TextError::NotText { from })
    } else if vstd::utf8::valid_utf8(opened.1) {
        result matches Ok(text) && text@ == vstd::utf8::decode_utf8(opened.1)
    } else {
        result matches Err(TextError::NotUtf8 { explanation }) && explanation@ == utf8_error_text(
            opened.1,
        )
    }
}

/// What reading a text from a message of the peer gives: the text, or why there is none.
pub open spec fn reads_text(
    state: tunnel_crypto::DirectionState,
    from: Peer,
    content: batch::WsContent,
    shown: String,
    result: Result<String, TextError>,
) -> bool {
    match unsealed(state, from, content, shown) {
        Ok(opened) => reads_opened(opened, from, result),
        Err(error) => result == Err::<String, TextError>(TextError::Frame(error)),
    }
}

/// How the standard library says that bytes are not valid UTF-8.
pub uninterp spec fn utf8_error_text(bytes: Seq<u8>) -> Seq<char>;

/// Calls `std::str::from_utf8`: the text that the bytes encode, where they are valid UTF-8.
/// Where they are not, the error as text, which depends on the bytes alone; what it says is
/// left open.
#[verifier::external_body]
pub(crate) fn text_from_utf8(bytes: Vec<u8>) -> (result: Result<String, String>)
    ensures
        match result {
            Ok(text) => vstd::utf8::valid_utf8(bytes@) && text@ == vstd::utf8::decode_utf8(bytes@),
            Err(explanation) => !vstd::utf8::valid_utf8(bytes@) && explanation@ == utf8_error_text(
                bytes@,
            ),
        },
{
    match std::str::from_utf8(&bytes) {
        Ok(text) => Ok(text.to_owned()),
        Err(error) => Err(error.to_string()),
    }
}

/// Encrypts a message that the access sends.
pub fn encrypt_access_message(cipher: &mut TunnelCipher, message: WsMessage) -> (result: Result<
    WsMessage,
    TunnelError,
>)
    ensures
        seals(
            old(cipher)@.access_to_gateway,
            final(cipher)@.access_to_gateway,
            Peer::Access,
            message,
            result,
        ),
        final(cipher)@.gateway_to_access == old(cipher)@.gateway_to_access,
{
    match message {
        WsMessage::Text(text) => {
            match cipher.encrypt_from_access(TunnelFrameKind::Text, text.as_str().as_bytes()) {
                Ok(frame) => Ok(WsMessage::Binary(frame)),
                Err(error) => Err(error),
            }
        },
        WsMessage::Binary(bytes) => {
            match cipher.encrypt_from_access(TunnelFrameKind::Binary, bytes.as_slice()) {
                Ok(frame) => Ok(WsMessage::Binary(frame)),
                Err(error) => Err(error),
            }
        },
        control => Ok(control),
    }
}

/// Encrypts a message that the gateway sends.
pub fn encrypt_gateway_message(cipher: &mut TunnelCipher, message: WsMessage) -> (result: Result<
    WsMessage,
    TunnelError,
>)
    ensures
        seals(
            old(cipher)@.gateway_to_access,
            final(cipher)@.gateway_to_access,
            Peer::Gateway,
            message,
            result,
        ),
        final(cipher)@.access_to_gateway == old(cipher)@.access_to_gateway,
{
    match message {
        WsMessage::Text(text) => {
            match cipher.encrypt_from_gateway(TunnelFrameKind::Text, text.as_str().as_bytes()) {
                Ok(frame) => Ok(WsMessage::Binary(frame)),
                Err(error) => Err(error),
            }
        },
        WsMessage::Binary(bytes) => {
            match cipher.encrypt_from_gateway(TunnelFrameKind::Binary, bytes.as_slice()) {
                Ok(frame) => Ok(WsMessage::Binary(frame)),
                Err(error) => Err(error),
            }
        },
        control => Ok(control),
    }
}

/// Decrypts a message that the gateway sent. An error shows a message that is not encrypted as
/// given.
pub fn decrypt_gateway_frame(
    cipher: &mut TunnelCipher,
    frame: WsMessage,
    shown: String,
) -> (result: Result<(TunnelFrameKind, Vec<u8>), FrameError>)
    ensures
        unseals_to(result, unsealed(old(cipher)@.gateway_to_access, Peer::Gateway, frame@, shown)),
        is_authentic(old(cipher)@.gateway_to_access, Peer::Gateway, frame@, result),
        final(cipher)@.gateway_to_access == after_unseal(
            old(cipher)@.gateway_to_access,
            Peer::Gateway,
            frame@,
        ),
        final(cipher)@.access_to_gateway == old(cipher)@.access_to_gateway,
{
    match frame {
        WsMessage::Binary(bytes) => match cipher.decrypt_from_gateway(bytes) {
            Ok(opened) => Ok(opened),
            Err(error) => Err(FrameError::Tunnel(error)),
        },
        _ => Err(FrameError::Unencrypted { from: Peer::Gateway, shown }),
    }
}

/// Decrypts a message that the access sent. An error shows a message that is not encrypted as
/// given.
pub fn decrypt_access_frame(
    cipher: &mut TunnelCipher,
    frame: WsMessage,
    shown: String,
) -> (result: Result<(TunnelFrameKind, Vec<u8>), FrameError>)
    ensures
        unseals_to(result, unsealed(old(cipher)@.access_to_gateway, Peer::Access, frame@, shown)),
        is_authentic(old(cipher)@.access_to_gateway, Peer::Access, frame@, result),
        final(cipher)@.access_to_gateway == after_unseal(
            old(cipher)@.access_to_gateway,
            Peer::Access,
            frame@,
        ),
        final(cipher)@.gateway_to_access == old(cipher)@.gateway_to_access,
{
    match frame {
        WsMessage::Binary(bytes) => match cipher.decrypt_from_access(bytes) {
            Ok(opened) => Ok(opened),
            Err(error) => Err(FrameError::Tunnel(error)),
        },
        _ => Err(FrameError::Unencrypted { from: Peer::Access, shown }),
    }
}

/// The text that was decrypted, where it is one.
fn text_of(result: Result<(TunnelFrameKind, Vec<u8>), FrameError>, from: Peer) -> (text: Result<
    String,
    TextError,
>)
    ensures
        match result {
            Ok(opened) => reads_opened((opened.0, opened.1@), from, text),
            Err(error) => text == Err::<String, TextError>(TextError::Frame(error)),
        },
{
    match result {
        Err(error) => Err(TextError::Frame(error)),
        Ok((kind, bytes)) => {
            if kind != TunnelFrameKind::Text {
                return Err(TextError::NotText { from });
            }
            match text_from_utf8(bytes) {
                Ok(text) => Ok(text),
                Err(explanation) => Err(TextError::NotUtf8 { explanation }),
            }
        },
    }
}

/// The text of a control message that the gateway sent.
pub fn decode_gateway_text(
    cipher: &mut TunnelCipher,
    frame: WsMessage,
    shown: String,
) -> (result: Result<String, TextError>)
    ensures
        reads_text(old(cipher)@.gateway_to_access, Peer::Gateway, frame@, shown, result),
        final(cipher)@.gateway_to_access == after_unseal(
            old(cipher)@.gateway_to_access,
            Peer::Gateway,
            frame@,
        ),
        final(cipher)@.access_to_gateway == old(cipher)@.access_to_gateway,
{
    text_of(decrypt_gateway_frame(cipher, frame, shown), Peer::Gateway)
}

/// The text of a control message that the access sent.
pub fn decode_access_text(
    cipher: &mut TunnelCipher,
    frame: WsMessage,
    shown: String,
) -> (result: Result<String, TextError>)
    ensures
        reads_text(old(cipher)@.access_to_gateway, Peer::Access, frame@, shown, result),
        final(cipher)@.access_to_gateway == after_unseal(
            old(cipher)@.access_to_gateway,
            Peer::Access,
            frame@,
        ),
        final(cipher)@.gateway_to_access == old(cipher)@.gateway_to_access,
{
    text_of(decrypt_access_frame(cipher, frame, shown), Peer::Access)
}

/// A text or binary message that one end encrypts reaches the other end as it was, where
/// that end holds the same key and expects its sequence number.
pub proof fn law_message_round_trip(
    sender: tunnel_crypto::DirectionState,
    sent: tunnel_crypto::DirectionState,
    receiver: tunnel_crypto::DirectionState,
    from: Peer,
    message: WsMessage,
    sealed: WsMessage,
    shown: String,
)
    requires
        message is Text || message is Binary,
        seals(sender, sent, from, message, Ok(sealed)),
        receiver.key == sender.key,
        receiver.prefix == sender.prefix,
        receiver.next_receive == sender.next_send,
    ensures
        sealed is Binary,
        unsealed(receiver, from, sealed@, shown) == Ok::<(TunnelFrameKind, Seq<u8>), FrameError>(
            tunnelled(message@)->0,
        ),
        after_unseal(receiver, from, sealed@).next_receive == sent.next_send,
        message matches WsMessage::Text(text) ==> unsealed_text(receiver, from, sealed@) == Some(
            text@,
        ),
{
    let item = tunnelled(message@)->0;
    match sealed {
        WsMessage::Binary(frame) => {
            tunnel_crypto::law_decrypt_of_encrypt(
                sender,
                sent,
                receiver,
                sender_label(from),
                item.0,
                item.1,
                frame,
            );
        },
        _ => {},
    }
    match message {
        WsMessage::Text(text) => {
            vstd::utf8::encode_utf8_valid_utf8(text@);
            vstd::utf8::encode_utf8_decode_utf8(text@);
        },
        _ => {},
    }
}

/// The payload of a stream that one end sends in a data frame reaches the other end under
/// the same stream number.
pub proof fn law_data_round_trip(
    sender: tunnel_crypto::DirectionState,
    sent: tunnel_crypto::DirectionState,
    receiver: tunnel_crypto::DirectionState,
    from: Peer,
    stream_id: u64,
    payload: Seq<u8>,
    frame: Vec<u8>,
    sealed: WsMessage,
    shown: String,
)
    requires
        frame@ == message::data_frame(stream_id, payload),
        seals(sender, sent, from, WsMessage::Binary(frame), Ok(sealed)),
        receiver.key == sender.key,
        receiver.prefix == sender.prefix,
        receiver.next_receive == sender.next_send,
    ensures
        unsealed(receiver, from, sealed@, shown) matches Ok(opened) && opened.0
            == TunnelFrameKind::Binary && message::decoded_data_frame(opened.1) == Some((stream_id, payload)),
{
    law_message_round_trip(sender, sent, receiver, from, WsMessage::Binary(frame), sealed, shown);
    message::law_decode_of_encode(stream_id, payload);
}

/// Reading gives the text that a message of the peer decrypts to, and only where it is one.
pub proof fn law_reads_the_text(
    state: tunnel_crypto::DirectionState,
    from: Peer,
    content: batch::WsContent,
    shown: String,
    result: Result<String, TextError>,
)
    requires
        reads_text(state, from, content, shown, result),
    ensures
        match result {
            Ok(text) => unsealed_text(state, from, content) == Some(text@),
            Err(_) => unsealed_text(state, from, content) is None,
        },
{
}

/// Text, ping, pong, close and raw messages of the peer are refused and change nothing, and
/// so is a binary message that is no encrypted frame.
pub proof fn law_plain_message_refused(
    state: tunnel_crypto::DirectionState,
    from: Peer,
    content: batch::WsContent,
    shown: String,
)
    requires
        content matches batch::WsContent::Binary(frame) ==> !tunnel_crypto::is_encrypted_frame(
            frame,
        ),
    ensures
        unsealed(state, from, content, shown) is Err,
        unsealed_text(state, from, content) is None,
        after_unseal(state, from, content) == state,
{
}

/// What either end sends: a text or binary message becomes an encrypted binary one that holds
/// its bytes under its kind; any other message is sent as it is and uses no number up.
pub proof fn law_messages_sent(
    access: &mut TunnelCipher,
    gateway: &mut TunnelCipher,
    message: WsMessage,
    from_access: Result<WsMessage, TunnelError>,
    from_gateway: Result<WsMessage, TunnelError>,
)
    requires
        call_ensures(encrypt_access_message, (access, message), from_access),
        call_ensures(encrypt_gateway_message, (gateway, message), from_gateway),
    ensures
        message !is Text && message !is Binary ==> {
            &&& from_access == Ok::<WsMessage, TunnelError>(message)
            &&& from_gateway == Ok::<WsMessage, TunnelError>(message)
            &&& final(access)@ == old(access)@
            &&& final(gateway)@ == old(gateway)@
        },
        message matches WsMessage::Text(text) ==> {
            &&& from_access matches Ok(sent) ==> (sent matches WsMessage::Binary(frame)
                && tunnel_crypto::is_wire_frame(
                frame@,
                old(access)@.access_to_gateway,
                "ws-net/access-to-gateway/v2",
                TunnelFrameKind::Text,
                vstd::utf8::encode_utf8(text@),
            ))
            &&& from_gateway matches Ok(sent) ==> (sent matches WsMessage::Binary(frame)
                && tunnel_crypto::is_wire_frame(
                frame@,
                old(gateway)@.gateway_to_access,
                "ws-net/gateway-to-access/v2",
                TunnelFrameKind::Text,
                vstd::utf8::encode_utf8(text@),
            ))
        },
        message matches WsMessage::Binary(bytes) ==> {
            &&& from_access matches Ok(sent) ==> (sent matches WsMessage::Binary(frame)
                && tunnel_crypto::is_wire_frame(
                frame@,
                old(access)@.access_to_gateway,
                "ws-net/access-to-gateway/v2",
                TunnelFrameKind::Binary,
                bytes@,
            ))
            &&& from_gateway matches Ok(sent) ==> (sent matches WsMessage::Binary(frame)
                && tunnel_crypto::is_wire_frame(
                frame@,
                old(gateway)@.gateway_to_access,
                "ws-net/gateway-to-access/v2",
                TunnelFrameKind::Binary,
                bytes@,
            ))
        },
{
    let item = tunnelled(message@);
    match item {
        Some(item) => {
            match from_access {
                Ok(WsMessage::Binary(frame)) => {
                    tunnel_crypto::lemma_wire_frame(
                        old(access)@.access_to_gateway,
                        final(access)@.access_to_gateway,
                        tunnel_crypto::ACCESS_TO_GATEWAY,
                        item.0,
                        item.1,
                        frame,
                    );
                },
                _ => {},
            }
            match from_gateway {
                Ok(WsMessage::Binary(frame)) => {
                    tunnel_crypto::lemma_wire_frame(
                        old(gateway)@.gateway_to_access,
                        final(gateway)@.gateway_to_access,
                        tunnel_crypto::GATEWAY_TO_ACCESS,
                        item.0,
                        item.1,
                        frame,
                    );
                },
                _ => {},
            }
        },
        None => {},
    }
}

/// Every message of up to 16 MiB less 29 bytes can be sent as long as numbers are left.
pub proof fn law_messages_can_be_sent(
    access: &mut TunnelCipher,
    message: WsMessage,
    size: usize,
    result: Result<WsMessage, TunnelError>,
    gateway: &mut TunnelCipher,
    back: Result<WsMessage, TunnelError>,
)
    requires
        call_ensures(encrypt_access_message, (access, message), result),
        call_ensures(encrypt_gateway_message, (gateway, message), back),
        call_ensures(batch::ws_message_size, (&message,), size),
        size <= 16 * 1024 * 1024 - 29,
        old(access)@.access_to_gateway.next_send < u64::MAX,
        old(gateway)@.gateway_to_access.next_send < u64::MAX,
    ensures
        result is Ok,
        back is Ok,
{
}

/// A text or binary message that the access sends reaches the gateway as it was: a text as
/// that text, and data as those bytes.
pub proof fn law_access_messages_arrive(
    access: &mut TunnelCipher,
    gateway: &mut TunnelCipher,
    reader: &mut TunnelCipher,
    message: WsMessage,
    sent: WsMessage,
    shown: String,
    opened: Result<(TunnelFrameKind, Vec<u8>), FrameError>,
    read: Result<String, TextError>,
)
    requires
        call_ensures(encrypt_access_message, (access, message), Ok(sent)),
        old(gateway)@.access_to_gateway.key == old(access)@.access_to_gateway.key,
        old(gateway)@.access_to_gateway.prefix == old(access)@.access_to_gateway.prefix,
        old(gateway)@.access_to_gateway.next_receive == old(access)@.access_to_gateway.next_send,
        *old(reader) == *old(gateway),
        call_ensures(decrypt_access_frame, (gateway, sent, shown), opened),
        call_ensures(decode_access_text, (reader, sent, shown), read),
    ensures
        message matches WsMessage::Text(text) ==> {
            &&& opened matches Ok(given) && given.0 == TunnelFrameKind::Text && given.1@
                == vstd::utf8::encode_utf8(text@)
            &&& read matches Ok(arrived) && arrived@ == text@
        },
        message matches WsMessage::Binary(bytes) ==> {
            &&& opened matches Ok(given) && given.0 == TunnelFrameKind::Binary && given.1@
                == bytes@
            &&& read == Err::<String, TextError>(TextError::NotText { from: Peer::Access })
        },
        message !is Text && message !is Binary ==> {
            &&& opened == Err::<(TunnelFrameKind, Vec<u8>), FrameError>(
                FrameError::Unencrypted { from: Peer::Access, shown },
            )
            &&& read == Err::<String, TextError>(
                TextError::Frame(FrameError::Unencrypted { from: Peer::Access, shown }),
            )
            &&& final(gateway)@ == old(gateway)@
        },
        final(gateway)@.access_to_gateway.next_receive == final(access)@.access_to_gateway.next_send,
        final(gateway)@.gateway_to_access == old(gateway)@.gateway_to_access,
{
    if message is Text || message is Binary {
        law_message_round_trip(
            old(access)@.access_to_gateway,
            final(access)@.access_to_gateway,
            old(gateway)@.access_to_gateway,
            Peer::Access,
            message,
            sent,
            shown,
        );
    }
}

/// The same from the gateway to the access.
pub proof fn law_gateway_messages_arrive(
    gateway: &mut TunnelCipher,
    access: &mut TunnelCipher,
    reader: &mut TunnelCipher,
    message: WsMessage,
    sent: WsMessage,
    shown: String,
    opened: Result<(TunnelFrameKind, Vec<u8>), FrameError>,
    read: Result<String, TextError>,
)
    requires
        call_ensures(encrypt_gateway_message, (gateway, message), Ok(sent)),
        old(access)@.gateway_to_access.key == old(gateway)@.gateway_to_access.key,
        old(access)@.gateway_to_access.prefix == old(gateway)@.gateway_to_access.prefix,
        old(access)@.gateway_to_access.next_receive == old(gateway)@.gateway_to_access.next_send,
        *old(reader) == *old(access),
        call_ensures(decrypt_gateway_frame, (access, sent, shown), opened),
        call_ensures(decode_gateway_text, (reader, sent, shown), read),
    ensures
        message matches WsMessage::Text(text) ==> {
            &&& opened matches Ok(given) && given.0 == TunnelFrameKind::Text && given.1@
                == vstd::utf8::encode_utf8(text@)
            &&& read matches Ok(arrived) && arrived@ == text@
        },
        message matches WsMessage::Binary(bytes) ==> {
            &&& opened matches Ok(given) && given.0 == TunnelFrameKind::Binary && given.1@
                == bytes@
            &&& read == Err::<String, TextError>(TextError::NotText { from: Peer::Gateway })
        },
        message !is Text && message !is Binary ==> {
            &&& opened == Err::<(TunnelFrameKind, Vec<u8>), FrameError>(
                FrameError::Unencrypted { from: Peer::Gateway, shown },
            )
            &&& read == Err::<String, TextError>(
                TextError::Frame(FrameError::Unencrypted { from: Peer::Gateway, shown }),
            )
            &&& final(access)@ == old(access)@
        },
        final(access)@.gateway_to_access.next_receive == final(gateway)@.gateway_to_access.next_send,
        final(access)@.access_to_gateway == old(access)@.access_to_gateway,
{
    if message is Text || message is Binary {
        law_message_round_trip(
            old(gateway)@.gateway_to_access,
            final(gateway)@.gateway_to_access,
            old(access)@.gateway_to_access,
            Peer::Gateway,
            message,
            sent,
            shown,
        );
    }
}

/// What errors of frames and texts are told as.
pub proof fn law_error_texts(
    frame: FrameError,
    text: TextError,
    of_frame: String,
    of_text: String,
    tunnel: TunnelError,
    of_tunnel: String,
)
    requires
        call_ensures(FrameError::message, (&frame,), of_frame),
        call_ensures(TextError::message, (&text,), of_text),
        call_ensures(TunnelError::message, (&tunnel,), of_tunnel),
    ensures
        frame matches FrameError::Unencrypted { from: Peer::Gateway, shown } ==> of_frame@
            == "unexpected unencrypted gateway websocket message: "@ + shown@,
        frame matches FrameError::Unencrypted { from: Peer::Access, shown } ==> of_frame@
            == "unexpected unencrypted access websocket message: "@ + shown@,
        frame == FrameError::Tunnel(tunnel) ==> of_frame@ == of_tunnel@,
        text == TextError::Frame(frame) ==> of_text@ == of_frame@,
        text matches TextError::NotText { from: Peer::Gateway } ==> of_text@
            == "expected encrypted gateway text message"@,
        text matches TextError::NotUtf8 { explanation } ==> of_text@ == explanation@,
{
}

/// A binary message is refused for the reason for which its bytes do not decrypt, and no text
/// is read from it then; where they do decrypt, it gives what they give.
pub proof fn law_frames_decrypt(
    access: &mut TunnelCipher,
    reader: &mut TunnelCipher,
    cipher: &mut TunnelCipher,
    gateway: &mut TunnelCipher,
    gateway_cipher: &mut TunnelCipher,
    bytes: Vec<u8>,
    shown: String,
    opened: Result<(TunnelFrameKind, Vec<u8>), FrameError>,
    read: Result<String, TextError>,
    decrypted: Result<(TunnelFrameKind, Vec<u8>), TunnelError>,
    gateway_opened: Result<(TunnelFrameKind, Vec<u8>), FrameError>,
    gateway_decrypted: Result<(TunnelFrameKind, Vec<u8>), TunnelError>,
)
    requires
        *old(reader) == *old(access),
        *old(cipher) == *old(access),
        *old(gateway_cipher) == *old(gateway),
        call_ensures(decrypt_gateway_frame, (access, WsMessage::Binary(bytes), shown), opened),
        call_ensures(decode_gateway_text, (reader, WsMessage::Binary(bytes), shown), read),
        call_ensures(TunnelCipher::decrypt_from_gateway, (cipher, bytes), decrypted),
        call_ensures(
            decrypt_access_frame,
            (gateway, WsMessage::Binary(bytes), shown),
            gateway_opened,
        ),
        call_ensures(
            TunnelCipher::decrypt_from_access,
            (gateway_cipher, bytes),
            gateway_decrypted,
        ),
    ensures
        opened is Ok <==> decrypted is Ok,
        opened matches Ok(given) ==> given.0 == decrypted->Ok_0.0 && given.1@
            == decrypted->Ok_0.1@,
        opened matches Err(error) ==> error == FrameError::Tunnel(decrypted->Err_0),
        gateway_opened is Ok <==> gateway_decrypted is Ok,
        gateway_opened matches Ok(given) ==> given.0 == gateway_decrypted->Ok_0.0 && given.1@
            == gateway_decrypted->Ok_0.1@,
        gateway_opened matches Err(error) ==> error == FrameError::Tunnel(
            gateway_decrypted->Err_0,
        ),
        decrypted matches Err(error) ==> read == Err::<String, TextError>(
            TextError::Frame(FrameError::Tunnel(error)),
        ),
        decrypted matches Ok(given) ==> {
            &&& given.0 == TunnelFrameKind::Binary ==> read == Err::<String, TextError>(
                TextError::NotText { from: Peer::Gateway },
            )
            &&& given.0 == TunnelFrameKind::Text ==> (read is Ok <==> vstd::utf8::valid_utf8(
                given.1@,
            ))
            &&& read matches Ok(text) ==> text@ == vstd::utf8::decode_utf8(given.1@)
        },
        final(access)@ == final(cipher)@,
        final(gateway)@ == final(gateway_cipher)@,
{
}

} // verus!
