//! Verified core of a tunnel that carries TCP streams and HTTP requests over WebSocket
//! connections.
//!
//! An access listens on local ports and keeps pools of connections to gateways; a gateway
//! accepts connections and reaches the targets. Everything that goes through a connection
//! is encrypted, and many streams share it.
//!
//! - [`text`] and [`bytes`]: texts, numbers and their encodings.
//! - [`config`] and [`routing`]: which gateways there are, and which one a listener uses.
//! - [`message`], [`batch`] and [`frames`]: control messages and data frames, how they are
//!   gathered for sending, and how they pass the cipher.
//! - [`tunnel_crypto`], [`handshake`] and [`primitives`]: the cipher of a connection, how
//!   both ends come to it, and what it is made of.
//! - [`access`] and [`gateway`]: the two ends of a connection and their streams, kept in
//!   tables of [`stream_table`].
//! - [`pump`] and [`http`]: forwarding for TCP and HTTP.
//! - [`reload`]: when a running access reads its configuration again.

pub mod access;
pub mod batch;
pub mod bytes;
pub mod config;
pub mod frames;
pub mod gateway;
pub mod handshake;
pub mod http;
pub mod message;
pub mod primitives;
pub mod pump;
pub mod reload;
pub mod routing;
pub mod stream_table;
pub mod text;
pub mod tunnel_crypto;
