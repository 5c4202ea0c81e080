//! The errors that end the server or one of its connections.

use crate::config::ConfigError;
use embedded_websocket::framer::FramerError;
use vstd::prelude::*;
use vstd::std_specs::convert::FromSpec;

verus! {

/// An error of the websocket framer, which nothing here looks into.
#[verifier::external_type_specification]
#[verifier::external_body]
#[verifier::reject_recursive_types(E)]
pub struct ExFramerError<E>(FramerError<E>);

/// An error of the websocket codec, which nothing here looks into.
#[verifier::external_type_specification]
#[verifier::external_body]
pub struct ExWebSocketError(embedded_websocket::Error);

/// Why the server, or one of its connections, ended. `P` is what a thread that panicked leaves
/// behind.
#[derive(Debug)]
pub enum ServerError<P> {
    /// Reading or writing failed.
    Io(std::io::Error),
    /// A websocket message could not be received or sent.
    Framer(FramerError<std::io::Error>),
    /// The websocket handshake could not be understood.
    WebSocket(embedded_websocket::Error),
    /// Some bytes are not text.
    Utf8Error,
    /// The configuration could not be loaded.
    Config(ConfigError),
    /// Some text is not base64.
    Base64(base64::DecodeError),
    /// The thread that accepts tunnel connections panicked.
    AcceptConnectionThread(P),
    /// The thread that writes to the websocket panicked.
    WriteThread(P),
}

impl<P> From<std::io::Error> for ServerError<P> {
    fn from(err: std::io::Error) -> (r: ServerError<P>) {
        ServerError::Io(err)
    }
}

impl<P> vstd::std_specs::convert::FromSpecImpl<std::io::Error> for ServerError<P> {
    open spec fn obeys_from_spec() -> bool {
        true
    }

    open spec fn from_spec(err: std::io::Error) -> Self {
        ServerError::Io(err)
    }
}

impl<P> From<FramerError<std::io::Error>> for ServerError<P> {
    fn from(err: FramerError<std::io::Error>) -> (r: ServerError<P>) {
        ServerError::Framer(err)
    }
}

impl<P> vstd::std_specs::convert::FromSpecImpl<FramerError<std::io::Error>> for ServerError<P> {
    open spec fn obeys_from_spec() -> bool {
        true
    }

    open spec fn from_spec(err: FramerError<std::io::Error>) -> Self {
        ServerError::Framer(err)
    }
}

impl<P> From<embedded_websocket::Error> for ServerError<P> {
    fn from(err: embedded_websocket::Error) -> (r: ServerError<P>) {
        ServerError::WebSocket(err)
    }
}

impl<P> vstd::std_specs::convert::FromSpecImpl<embedded_websocket::Error> for ServerError<P> {
    open spec fn obeys_from_spec() -> bool {
        true
    }

    open spec fn from_spec(err: embedded_websocket::Error) -> Self {
        ServerError::WebSocket(err)
    }
}

impl<P> From<core::str::Utf8Error> for ServerError<P> {
    fn from(_err: core::str::Utf8Error) -> (r: ServerError<P>) {
        ServerError::Utf8Error
    }
}

impl<P> vstd::std_specs::convert::FromSpecImpl<core::str::Utf8Error> for ServerError<P> {
    open spec fn obeys_from_spec() -> bool {
        true
    }

    open spec fn from_spec(_err: core::str::Utf8Error) -> Self {
        ServerError::Utf8Error
    }
}

/// Every error keeps its cause, and one kind of error is not taken for another.
pub proof fn law_errors_keep_their_cause<P>(
    io: std::io::Error,
    framer: FramerError<std::io::Error>,
    websocket: embedded_websocket::Error,
    utf8: core::str::Utf8Error,
)
    ensures
        <ServerError<P> as FromSpec<std::io::Error>>::from_spec(io) == ServerError::<P>::Io(io),
        <ServerError<P> as FromSpec<FramerError<std::io::Error>>>::from_spec(framer)
            == ServerError::<P>::Framer(framer),
        <ServerError<P> as FromSpec<embedded_websocket::Error>>::from_spec(websocket)
            == ServerError::<P>::WebSocket(websocket),
        <ServerError<P> as FromSpec<core::str::Utf8Error>>::from_spec(utf8) is Utf8Error,
{
}

} // verus!
