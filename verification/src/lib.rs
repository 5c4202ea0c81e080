//! Tunnels TCP connections through a websocket.
//!
//! A server accepts TCP connections on behalf of a client that it cannot reach directly, and
//! relays their bytes over a websocket that the client opened. This library holds what the two
//! programs compute and decide; reading, writing and waiting are left to the programs themselves.

pub mod admission;
pub mod authorization;
pub mod client;
pub mod config;
pub mod error;
pub mod frame;
pub mod handshake;
pub mod listener;
pub mod relay;
pub mod request;
pub mod session;
pub mod text;
pub mod tunnel;

use vstd::prelude::*;

verus! {

/// The text message that asks the client to open a new tunnel stream.
pub const OPEN_STREAM_COMMAND: &'static str = "open";

/// The text message that asks the client to close the current tunnel stream.
pub const CLOSE_STREAM_COMMAND: &'static str = "close";

/// What the writer of a websocket is told.
#[derive(Debug, PartialEq, Eq)]
pub enum TunnelCommand {
    /// A tunnel connection was accepted.
    Open,
    /// The tunnel connection ended.
    Close,
    /// These bytes came from the tunnel connection.
    Tx(Vec<u8>),
    /// The client at the other end of the websocket is gone.
    ClientDisconnected,
}

/// What the writer of a tunnel connection is told.
#[derive(Debug, PartialEq, Eq)]
pub enum EgresCommand {
    /// These bytes came from the websocket.
    Bytes(Vec<u8>),
    /// The tunnel connection ended.
    Close,
    /// The websocket was closed.
    WebsocketClosed,
}

/// What the writer of a websocket is told, over sequences.
pub enum TunnelCommandView {
    Open,
    Close,
    Tx(Seq<u8>),
    ClientDisconnected,
}

impl View for TunnelCommand {
    type V = TunnelCommandView;

    open spec fn view(&self) -> TunnelCommandView {
        match self {
            TunnelCommand::Open => TunnelCommandView::Open,
            TunnelCommand::Close => TunnelCommandView::Close,
            TunnelCommand::Tx(bytes) => TunnelCommandView::Tx(bytes@),
            TunnelCommand::ClientDisconnected => TunnelCommandView::ClientDisconnected,
        }
    }
}

/// What the writer of a tunnel connection is told, over sequences.
pub enum EgresCommandView {
    Bytes(Seq<u8>),
    Close,
    WebsocketClosed,
}

impl View for EgresCommand {
    type V = EgresCommandView;

    open spec fn view(&self) -> EgresCommandView {
        match self {
            EgresCommand::Bytes(bytes) => EgresCommandView::Bytes(bytes@),
            EgresCommand::Close => EgresCommandView::Close,
            EgresCommand::WebsocketClosed => EgresCommandView::WebsocketClosed,
        }
    }
}

} // verus!
