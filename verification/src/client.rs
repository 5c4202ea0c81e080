//! The client: where it connects, and what it does with what it receives.

use crate::authorization::{
    authorization_header, authorization_value, base64_encoded, base64_len, credentials_text,
    AUTHORIZATION, BASIC,
};
use crate::config::ClientConfig;
use crate::frame::MessageType;
use crate::text::{decimal, decimal_text, law_decimal_reads_back};
use crate::tunnel::{chunk, take_chunk, ReadOutcome};
use crate::{CLOSE_STREAM_COMMAND, OPEN_STREAM_COMMAND};
use vstd::prelude::*;
use vstd::string::*;
use vstd::utf8::*;

verus! {

/// The size of each of the buffers in which the client keeps what it reads from the websocket, what
/// it builds for it, and a message.
pub const CLIENT_BUF_LEN: usize = 4000;

/// The size of the buffer into which the client reads from its tunnel stream.
pub const STREAM_BUF_LEN: usize = 16384;

/// How long the client waits for something to read or to send before it looks for the other.
pub const TIMEOUT_MILLIS: u64 = 50;

/// How long the client waits between two signs of life.
pub const HEARTBEAT_SECS: u64 = 20;

/// The parts of a URL that the client needs.
#[derive(Debug, PartialEq, Eq)]
pub struct ServerUrl {
    /// The scheme, without the colon.
    pub scheme: String,
    /// The host, if the URL names one.
    pub host: Option<String>,
    /// The port, if the URL names one that is not the usual port of the scheme.
    pub port: Option<u16>,
    /// The path.
    pub path: String,
}

impl View for ServerUrl {
    type V = (Seq<char>, Option<Seq<char>>, Option<u16>, Seq<char>);

    open spec fn view(&self) -> (Seq<char>, Option<Seq<char>>, Option<u16>, Seq<char>) {
        (
            self.scheme@,
            match self.host {
                Some(host) => Some(host@),
                None => None,
            },
            self.port,
            self.path@,
        )
    }
}

/// What `url::Url::parse` makes of a text: the scheme, the host, the port and the path of the URL,
/// or the text of the error.
pub uninterp spec fn url_parse(text: Seq<char>) -> Result<
    (Seq<char>, Option<Seq<char>>, Option<u16>, Seq<char>),
    Seq<char>,
>;

/// `url::Url::parse`, with `scheme`, `host_str`, `port` and `path` of the URL that it gives.
#[verifier::external_body]
fn parse_url(text: &str) -> (r: Result<ServerUrl, String>)
    ensures
        match r {
            Ok(url) => url_parse(text@) == Ok::<_, Seq<char>>(url@),
            Err(error) => url_parse(text@) == Err::<
                (Seq<char>, Option<Seq<char>>, Option<u16>, Seq<char>),
                _,
            >(error@),
        },
{
    let url = url::Url::parse(text).map_err(|e| e.to_string())?;
    Ok(ServerUrl {
        scheme: url.scheme().to_owned(),
        host: url.host_str().map(|h| h.to_owned()),
        port: url.port(),
        path: url.path().to_owned(),
    })
}

/// The parts of a URL are seen as they are.
pub proof fn law_url_is_seen_as_it_is(url: ServerUrl)
    ensures
        url@.0 == url.scheme@,
        url@.1 is Some <==> url.host is Some,
        url.host matches Some(host) ==> url@.1 == Some(host@),
        url@.2 == url.port,
        url@.3 == url.path@,
{
}

/// Whether a scheme asks for an encrypted connection.
pub open spec fn is_secure(scheme: Seq<char>) -> bool {
    scheme == "wss"@ || scheme == "https"@
}

/// Whether a scheme asks for a connection that is not encrypted.
pub open spec fn is_plain(scheme: Seq<char>) -> bool {
    scheme == "ws"@ || scheme == "http"@
}

/// The port of a connection: the one that the URL names, or else that of the scheme.
pub open spec fn server_port(scheme: Seq<char>, port: Option<u16>) -> Option<u16> {
    match port {
        Some(port) => Some(port),
        None => if is_secure(scheme) {
            Some(433)
        } else if is_plain(scheme) {
            Some(80)
        } else {
            None
        },
    }
}

/// A port that the URL names is the one that is used, whatever the scheme. Without one, the scheme
/// decides: 433 for an encrypted connection, 80 for one that is not, and no other scheme has a port.
pub proof fn law_named_port_is_used(scheme: Seq<char>, port: Option<u16>)
    ensures
        port is Some ==> server_port(scheme, port) == port,
        port is None ==> {
            &&& server_port(scheme, port) == Some(433u16) <==> scheme == "wss"@ || scheme
                == "https"@
            &&& server_port(scheme, port) == Some(80u16) <==> scheme == "ws"@ || scheme == "http"@
            &&& server_port(scheme, port) is Some ==> server_port(scheme, port) == Some(433u16)
                || server_port(scheme, port) == Some(80u16)
        },
{
    reveal_strlit("wss");
    reveal_strlit("https");
    reveal_strlit("ws");
    reveal_strlit("http");
    assert("ws"@.len() == 2 && "wss"@.len() == 3 && "http"@.len() == 4 && "https"@.len() == 5);
}

/// Finds the port of a connection.
pub fn find_port(scheme: &str, port: Option<u16>) -> (r: Result<u16, String>)
    ensures
        match server_port(scheme@, port) {
            Some(port) => r == Ok::<u16, String>(port),
            None => r matches Err(text) && text@ == "Invalid url, unknown port"@,
        },
        port matches Some(port) ==> r == Ok::<u16, String>(port),
{
    match port {
        Some(port) => Ok(port),
        None => if *scheme == *"wss" || *scheme == *"https" {
            Ok(433)
        } else if *scheme == *"ws" || *scheme == *"http" {
            Ok(80)
        } else {
            Err("Invalid url, unknown port".to_owned())
        },
    }
}

/// How to reach a server, and what to ask it for.
#[derive(Debug, PartialEq, Eq)]
pub struct Connection {
    /// The address to connect to.
    pub tcp_address: String,
    /// Whether the connection is encrypted.
    pub use_tls: bool,
    /// The name of the host.
    pub host: String,
    /// The path to ask for.
    pub path: String,
    /// The header line with the credentials.
    pub auth: String,
}

/// How to reach a server, over characters.
#[verifier::ext_equal]
pub struct ConnectionView {
    pub tcp_address: Seq<char>,
    pub use_tls: bool,
    pub host: Seq<char>,
    pub path: Seq<char>,
    pub auth: Seq<char>,
}

impl View for Connection {
    type V = ConnectionView;

    open spec fn view(&self) -> ConnectionView {
        ConnectionView {
            tcp_address: self.tcp_address@,
            use_tls: self.use_tls,
            host: self.host@,
            path: self.path@,
            auth: self.auth@,
        }
    }
}

/// The connection for a URL with a host and a known port.
pub open spec fn connection(
    scheme: Seq<char>,
    host: Seq<char>,
    port: u16,
    path: Seq<char>,
    username: Seq<char>,
    password: Seq<char>,
) -> ConnectionView {
    ConnectionView {
        tcp_address: host + seq![':'] + decimal(port as nat),
        use_tls: is_secure(scheme),
        host,
        path,
        auth: AUTHORIZATION@ + seq![':', ' '] + authorization_value(username, password),
    }
}

/// A connection goes to the host that the URL names, at the port that was found, for the path that
/// the URL names. It is encrypted exactly for the two schemes that ask for that. The port reads back
/// from the address, behind the host and a colon.
pub proof fn law_connection_goes_where_the_url_says(
    scheme: Seq<char>,
    host: Seq<char>,
    port: u16,
    path: Seq<char>,
    username: Seq<char>,
    password: Seq<char>,
)
    ensures
        ({
            let c = connection(scheme, host, port, path, username, password);
            let n = host.len() as int;
            &&& c.tcp_address.len() > n + 1
            &&& c.tcp_address.take(n) == host
            &&& c.tcp_address[n] == ':'
            &&& forall|i: int|
                n < i < c.tcp_address.len() ==> '0' <= #[trigger] c.tcp_address[i] <= '9'
            &&& c.tcp_address.skip(n + 1).fold_left(
                0int,
                |value: int, digit: char| value * 10 + (digit as int - '0' as int),
            ) == port
            &&& port > 0 ==> c.tcp_address[n + 1] != '0'
            &&& c.use_tls <==> scheme == "wss"@ || scheme == "https"@
            &&& c.host == host
            &&& c.path == path
        }),
{
    let c = connection(scheme, host, port, path, username, password);
    let n = host.len() as int;
    law_decimal_reads_back(port as nat);
    assert(c.tcp_address.take(n) =~= host);
    assert(c.tcp_address.skip(n + 1) =~= decimal(port as nat));
    assert forall|i: int| n < i < c.tcp_address.len() implies '0' <= #[trigger] c.tcp_address[i]
        <= '9' by {
        assert(c.tcp_address[i] == decimal(port as nat)[i - n - 1]);
    }
}

/// Two ports of one host never have the same address.
pub proof fn law_ports_have_their_own_addresses(
    scheme: Seq<char>,
    host: Seq<char>,
    left: u16,
    right: u16,
    path: Seq<char>,
    username: Seq<char>,
    password: Seq<char>,
)
    ensures
        connection(scheme, host, left, path, username, password).tcp_address == connection(
            scheme,
            host,
            right,
            path,
            username,
            password,
        ).tcp_address <==> left == right,
{
    law_connection_goes_where_the_url_says(scheme, host, left, path, username, password);
    law_connection_goes_where_the_url_says(scheme, host, right, path, username, password);
}

/// The header line with the credentials names them: behind its name and scheme it holds the base64
/// of the user name, a colon and the password, and nothing else.
pub proof fn law_connection_carries_the_credentials(
    scheme: Seq<char>,
    host: Seq<char>,
    port: u16,
    path: Seq<char>,
    username: Seq<char>,
    password: Seq<char>,
)
    ensures
        connection(scheme, host, port, path, username, password).auth == "Authorization: Basic "@
            + base64_encoded(encode_utf8(username + seq![':'] + password)),
{
    reveal_strlit("Authorization: Basic ");
    reveal_strlit("Authorization");
    reveal_strlit("Basic ");
    assert("Authorization: Basic "@ =~= AUTHORIZATION@ + seq![':', ' '] + BASIC@);
    assert(connection(scheme, host, port, path, username, password).auth
        =~= "Authorization: Basic "@ + base64_encoded(
        encode_utf8(username + seq![':'] + password),
    ));
}

/// Whether the credentials are short enough to be encoded.
pub open spec fn can_encode(config: ClientConfig) -> bool {
    base64_len(encode_utf8(credentials_text(config.username@, config.password@)).len())
        <= isize::MAX
}

/// Finds out how to reach the server at this host.
pub fn connect_to(
    scheme: &str,
    host: &str,
    port: Option<u16>,
    path: &str,
    config: &ClientConfig,
) -> (r: Result<Connection, String>)
    requires
        can_encode(*config),
    ensures
        match server_port(scheme@, port) {
            Some(port) => r matches Ok(c) && c@ == connection(
                scheme@,
                host@,
                port,
                path@,
                config.username@,
                config.password@,
            ),
            None => r matches Err(text) && text@ == "Invalid url, unknown port"@,
        },
{
    match find_port(scheme, port) {
        Err(text) => Err(text),
        Ok(port) => {
            let mut tcp_address: String = host.to_owned();
            tcp_address.append(":");
            tcp_address.append(decimal_text(port).as_str());
            proof {
                reveal_strlit(":");
                assert(":"@ =~= seq![':']);
            }
            let use_tls = *scheme == *"wss" || *scheme == *"https";
            let auth = authorization_header(config.username.as_str(), config.password.as_str());
            Ok(
                Connection {
                    tcp_address,
                    use_tls,
                    host: host.to_owned(),
                    path: path.to_owned(),
                    auth,
                },
            )
        },
    }
}

/// Why a client does not know how to reach its server.
#[derive(Debug, PartialEq, Eq)]
pub enum ConnectError {
    /// The URL cannot be parsed; this says why.
    InvalidUrl(String),
    /// The URL names no host.
    NoHost,
    /// The port is not known.
    Url(String),
}

/// Finds out how to reach the server of a client.
pub fn find_connection(config: &ClientConfig) -> (r: Result<Connection, ConnectError>)
    requires
        can_encode(*config),
    ensures
        match url_parse(config.ws_url@) {
            Err(error) => r matches Err(ConnectError::InvalidUrl(text)) && text@ == error,
            Ok((scheme, None, port, path)) => r matches Err(ConnectError::NoHost),
            Ok((scheme, Some(host), port, path)) => match server_port(scheme, port) {
                Some(port) => r matches Ok(c) && c@ == connection(
                    scheme,
                    host,
                    port,
                    path,
                    config.username@,
                    config.password@,
                ),
                None => r matches Err(ConnectError::Url(text)) && text@
                    == "Invalid url, unknown port"@,
            },
        },
{
    match parse_url(config.ws_url.as_str()) {
        Err(error) => Err(ConnectError::InvalidUrl(error)),
        Ok(url) => match &url.host {
            None => Err(ConnectError::NoHost),
            Some(host) => match connect_to(
                url.scheme.as_str(),
                host.as_str(),
                url.port,
                url.path.as_str(),
                config,
            ) {
                Ok(connection) => Ok(connection),
                Err(text) => Err(ConnectError::Url(text)),
            },
        },
    }
}

/// What came of the attempt to open the websocket.
#[derive(Debug, Clone, Copy, PartialEq, Eq)]
pub enum HandshakeOutcome {
    /// The websocket is open.
    Opened,
    /// The server took too long to answer.
    WouldBlock,
    /// It failed.
    Failed,
}

/// What to do after the attempt to open the websocket.
#[derive(Debug, Clone, Copy, PartialEq, Eq)]
pub enum HandshakeAction {
    /// Go on.
    Proceed,
    /// Try again.
    Retry,
    /// Give up.
    Fail,
}

/// Decides what to do after the attempt to open the websocket.
pub fn handshake_step(outcome: HandshakeOutcome) -> (r: HandshakeAction)
    ensures
        r == match outcome {
            HandshakeOutcome::Opened => HandshakeAction::Proceed,
            HandshakeOutcome::WouldBlock => HandshakeAction::Retry,
            HandshakeOutcome::Failed => HandshakeAction::Fail,
        },
{
    match outcome {
        HandshakeOutcome::Opened => HandshakeAction::Proceed,
        HandshakeOutcome::WouldBlock => HandshakeAction::Retry,
        HandshakeOutcome::Failed => HandshakeAction::Fail,
    }
}

/// What came of the attempt to read a message from the websocket.
#[derive(Debug, PartialEq, Eq)]
pub enum ClientEvent {
    /// A text message.
    Text(String),
    /// A message of bytes.
    Binary(Vec<u8>),
    /// The answer to a ping.
    Pong,
    /// The server closed the websocket.
    Closed,
    /// There is no message yet.
    WouldBlock,
    /// It failed.
    Failed,
}

/// What came of the attempt to read a message, over sequences.
pub enum ClientEventView {
    Text(Seq<char>),
    Binary(Seq<u8>),
    Pong,
    Closed,
    WouldBlock,
    Failed,
}

impl View for ClientEvent {
    type V = ClientEventView;

    open spec fn view(&self) -> ClientEventView {
        match self {
            ClientEvent::Text(command) => ClientEventView::Text(command@),
            ClientEvent::Binary(bytes) => ClientEventView::Binary(bytes@),
            ClientEvent::Pong => ClientEventView::Pong,
            ClientEvent::Closed => ClientEventView::Closed,
            ClientEvent::WouldBlock => ClientEventView::WouldBlock,
            ClientEvent::Failed => ClientEventView::Failed,
        }
    }
}

/// What a client does about a message.
#[derive(Debug, PartialEq, Eq)]
pub enum ClientAction {
    /// Open a new tunnel stream, after the old one was shut down if that is set.
    OpenTunnel { shutdown: bool },
    /// Let go of the tunnel stream, after it was shut down if that is set.
    CloseTunnel { shutdown: bool },
    /// Write these bytes to the tunnel stream.
    WriteTunnel(Vec<u8>),
    /// Nothing: this text is no command.
    UnknownCommand(String),
    /// Nothing.
    Ignore,
    /// End.
    Stop,
    /// End with the error of the read.
    Fail,
}

/// What a client does about a message, over sequences.
pub enum ClientActionView {
    OpenTunnel { shutdown: bool },
    CloseTunnel { shutdown: bool },
    WriteTunnel(Seq<u8>),
    UnknownCommand(Seq<char>),
    Ignore,
    Stop,
    Fail,
}

impl View for ClientAction {
    type V = ClientActionView;

    open spec fn view(&self) -> ClientActionView {
        match self {
            ClientAction::OpenTunnel { shutdown } => ClientActionView::OpenTunnel {
                shutdown: *shutdown,
            },
            ClientAction::CloseTunnel { shutdown } => ClientActionView::CloseTunnel {
                shutdown: *shutdown,
            },
            ClientAction::WriteTunnel(bytes) => ClientActionView::WriteTunnel(bytes@),
            ClientAction::UnknownCommand(command) => ClientActionView::UnknownCommand(command@),
            ClientAction::Ignore => ClientActionView::Ignore,
            ClientAction::Stop => ClientActionView::Stop,
            ClientAction::Fail => ClientActionView::Fail,
        }
    }
}

/// What a client does about a message, while it has a tunnel stream or not.
pub open spec fn client_action(tunnel_open: bool, event: ClientEventView) -> ClientActionView {
    match event {
        ClientEventView::Text(command) => if command == OPEN_STREAM_COMMAND@ {
            ClientActionView::OpenTunnel { shutdown: tunnel_open }
        } else if command == CLOSE_STREAM_COMMAND@ {
            ClientActionView::CloseTunnel { shutdown: tunnel_open }
        } else {
            ClientActionView::UnknownCommand(command)
        },
        ClientEventView::Binary(bytes) => if tunnel_open {
            ClientActionView::WriteTunnel(bytes)
        } else {
            ClientActionView::Ignore
        },
        ClientEventView::Pong => ClientActionView::Ignore,
        ClientEventView::Closed => ClientActionView::Stop,
        ClientEventView::WouldBlock => ClientActionView::Ignore,
        ClientEventView::Failed => ClientActionView::Fail,
    }
}

/// Whether the client has a tunnel stream once an action is done.
pub open spec fn tunnel_after(tunnel_open: bool, action: ClientActionView) -> bool {
    match action {
        ClientActionView::OpenTunnel { shutdown } => true,
        ClientActionView::CloseTunnel { shutdown } => false,
        _ => tunnel_open,
    }
}

/// A client opens a tunnel stream exactly when it is told to, and lets go of it exactly when it is
/// told to, and shuts down the stream that it had, if it had one, either way. Bytes are written, all
/// of them and unchanged, exactly while there is a stream. The client ends exactly when the websocket
/// was closed, and fails exactly when it could not be read; any other text is named as unknown.
pub proof fn law_client_does_as_told(tunnel_open: bool, event: ClientEventView)
    ensures
        client_action(tunnel_open, event) is OpenTunnel <==> event == ClientEventView::Text("open"@),
        client_action(tunnel_open, event) is CloseTunnel <==> event == ClientEventView::Text(
            "close"@,
        ),
        client_action(tunnel_open, event) matches ClientActionView::OpenTunnel { shutdown }
            ==> shutdown == tunnel_open,
        client_action(tunnel_open, event) matches ClientActionView::CloseTunnel { shutdown }
            ==> shutdown == tunnel_open,
        forall|bytes: Seq<u8>|
            client_action(tunnel_open, event) == ClientActionView::WriteTunnel(bytes) <==> (
            tunnel_open && event == ClientEventView::Binary(bytes)),
        forall|text: Seq<char>|
            client_action(tunnel_open, event) == ClientActionView::UnknownCommand(text) <==> (event
                == ClientEventView::Text(text) && text != "open"@ && text != "close"@),
        client_action(tunnel_open, event) is Stop <==> event is Closed,
        client_action(tunnel_open, event) is Fail <==> event is Failed,
        client_action(tunnel_open, event) is Ignore <==> event is Pong || event is WouldBlock || (
        event is Binary && !tunnel_open),
{
    reveal_strlit("open");
    reveal_strlit("close");
    assert("open"@.len() == 4 && "close"@.len() == 5);
}

/// A client has a tunnel stream after it opened one, has none after it let go of it, and otherwise
/// has one exactly if it had one before.
pub proof fn law_tunnel_stream_is_kept(tunnel_open: bool, action: ClientActionView)
    ensures
        action is OpenTunnel ==> tunnel_after(tunnel_open, action),
        action is CloseTunnel ==> !tunnel_after(tunnel_open, action),
        !(action is OpenTunnel) && !(action is CloseTunnel) ==> tunnel_after(tunnel_open, action)
            == tunnel_open,
{
}

/// One step of a client: what to do about a message. `tunnel_open` says whether there is a tunnel
/// stream, now and once that is done.
pub fn client_step(tunnel_open: &mut bool, event: ClientEvent) -> (r: ClientAction)
    ensures
        r@ == client_action(*old(tunnel_open), event@),
        *final(tunnel_open) == tunnel_after(*old(tunnel_open), r@),
        match event {
            ClientEvent::Text(command) => if command@ == "open"@ {
                &&& r == ClientAction::OpenTunnel { shutdown: *old(tunnel_open) }
                &&& *final(tunnel_open)
            } else if command@ == "close"@ {
                &&& r == ClientAction::CloseTunnel { shutdown: *old(tunnel_open) }
                &&& !*final(tunnel_open)
            } else {
                &&& r == ClientAction::UnknownCommand(command)
                &&& *final(tunnel_open) == *old(tunnel_open)
            },
            ClientEvent::Binary(bytes) => {
                &&& *old(tunnel_open) ==> r == ClientAction::WriteTunnel(bytes)
                &&& !*old(tunnel_open) ==> r is Ignore
                &&& *final(tunnel_open) == *old(tunnel_open)
            },
            ClientEvent::Pong | ClientEvent::WouldBlock => r is Ignore && *final(tunnel_open)
                == *old(tunnel_open),
            ClientEvent::Closed => r is Stop && *final(tunnel_open) == *old(tunnel_open),
            ClientEvent::Failed => r is Fail && *final(tunnel_open) == *old(tunnel_open),
        },
{
    match event {
        ClientEvent::Text(command) => {
            let shutdown = *tunnel_open;
            if *command.as_str() == *OPEN_STREAM_COMMAND {
                *tunnel_open = true;
                ClientAction::OpenTunnel { shutdown }
            } else if *command.as_str() == *CLOSE_STREAM_COMMAND {
                *tunnel_open = false;
                ClientAction::CloseTunnel { shutdown }
            } else {
                ClientAction::UnknownCommand(command)
            }
        },
        ClientEvent::Binary(bytes) => if *tunnel_open {
            ClientAction::WriteTunnel(bytes)
        } else {
            ClientAction::Ignore
        },
        ClientEvent::Pong => ClientAction::Ignore,
        ClientEvent::Closed => ClientAction::Stop,
        ClientEvent::WouldBlock => ClientAction::Ignore,
        ClientEvent::Failed => ClientAction::Fail,
    }
}

/// What is to leave the client through the websocket.
#[derive(Debug, PartialEq, Eq)]
pub enum EgresPayload {
    /// A sign of life.
    Ping,
    /// These bytes came from the tunnel stream.
    TunnelBytes(Vec<u8>),
}

/// What is to leave the client, over sequences.
pub enum EgresPayloadView {
    Ping,
    TunnelBytes(Seq<u8>),
}

impl View for EgresPayload {
    type V = EgresPayloadView;

    open spec fn view(&self) -> EgresPayloadView {
        match self {
            EgresPayload::Ping => EgresPayloadView::Ping,
            EgresPayload::TunnelBytes(bytes) => EgresPayloadView::TunnelBytes(bytes@),
        }
    }
}

/// One round of the reader of a tunnel stream: what it passes on, or `None` if it ends.
pub fn open_tunnel_step(buf: &[u8], outcome: ReadOutcome) -> (r: Option<EgresPayload>)
    requires
        outcome matches ReadOutcome::Read(len) ==> len <= buf@.len(),
    ensures
        match chunk(buf@, outcome) {
            Some(bytes) => r matches Some(payload) && payload@ == EgresPayloadView::TunnelBytes(
                bytes,
            ),
            None => r is None,
        },
        match outcome {
            ReadOutcome::Read(len) if len > 0 => r matches Some(EgresPayload::TunnelBytes(bytes))
                && bytes@ == buf@.take(len as int),
            _ => r is None,
        },
{
    match take_chunk(buf, outcome) {
        Some(bytes) => Some(EgresPayload::TunnelBytes(bytes)),
        None => None,
    }
}

/// What came of waiting for something to send.
#[derive(Debug, PartialEq, Eq)]
pub enum EgresOutcome {
    /// There is something.
    Payload(EgresPayload),
    /// There is nothing.
    Timeout,
    /// There will never be anything.
    Disconnected,
}

/// What to do after waiting for something to send.
#[derive(Debug, PartialEq, Eq)]
pub enum EgresStep {
    /// Send this message, and wait again.
    Send(MessageType, Vec<u8>),
    /// Read the next message from the websocket.
    Done,
    /// End with an error.
    Fail,
}

/// The message that carries something to the server.
pub open spec fn payload_message(payload: EgresPayloadView) -> (MessageType, Seq<u8>) {
    match payload {
        EgresPayloadView::Ping => (MessageType::Ping, seq![]),
        EgresPayloadView::TunnelBytes(bytes) => (MessageType::Binary, bytes),
    }
}

/// What came from the tunnel stream goes to the server as bytes, all of them and unchanged, however
/// many they are; a sign of life is a ping without bytes, and nothing else is one.
pub proof fn law_bytes_are_sent_as_bytes(payload: EgresPayloadView)
    ensures
        forall|bytes: Seq<u8>|
            payload_message(payload) == (MessageType::Binary, bytes) <==> payload
                == EgresPayloadView::TunnelBytes(bytes),
        payload_message(payload).0 == MessageType::Ping <==> payload is Ping,
        payload is Ping ==> payload_message(payload).1.len() == 0,
{
}

/// What a client is told, does and sends is seen as it is, with all its bytes and characters.
pub proof fn law_messages_are_seen_as_they_are(text: String, bytes: Vec<u8>, c: Connection)
    ensures
        ClientEvent::Text(text)@ == ClientEventView::Text(text@),
        ClientEvent::Binary(bytes)@ == ClientEventView::Binary(bytes@),
        ClientEvent::Pong@ is Pong,
        ClientEvent::Closed@ is Closed,
        ClientEvent::WouldBlock@ is WouldBlock,
        ClientEvent::Failed@ is Failed,
        ClientAction::WriteTunnel(bytes)@ == ClientActionView::WriteTunnel(bytes@),
        ClientAction::UnknownCommand(text)@ == ClientActionView::UnknownCommand(text@),
        forall|shutdown: bool|
            (#[trigger] ClientAction::OpenTunnel { shutdown }@) == (ClientActionView::OpenTunnel {
                shutdown,
            }),
        forall|shutdown: bool|
            (#[trigger] ClientAction::CloseTunnel { shutdown }@) == (ClientActionView::CloseTunnel {
                shutdown,
            }),
        ClientAction::Ignore@ is Ignore,
        ClientAction::Stop@ is Stop,
        ClientAction::Fail@ is Fail,
        EgresPayload::Ping@ is Ping,
        EgresPayload::TunnelBytes(bytes)@ == EgresPayloadView::TunnelBytes(bytes@),
        c@.tcp_address == c.tcp_address@,
        c@.use_tls == c.use_tls,
        c@.host == c.host@,
        c@.path == c.path@,
        c@.auth == c.auth@,
{
}

/// Decides what to do after waiting for something to send.
pub fn egres_step(outcome: EgresOutcome) -> (r: EgresStep)
    ensures
        match outcome {
            EgresOutcome::Payload(payload) => r matches EgresStep::Send(message_type, bytes) && (
                message_type,
                bytes@,
            ) == payload_message(payload@),
            EgresOutcome::Timeout => r matches EgresStep::Done,
            EgresOutcome::Disconnected => r matches EgresStep::Fail,
        },
        outcome matches EgresOutcome::Payload(EgresPayload::TunnelBytes(bytes)) ==> r
            == EgresStep::Send(MessageType::Binary, bytes),
        outcome matches EgresOutcome::Payload(EgresPayload::Ping) ==> (r matches EgresStep::Send(
            message_type,
            bytes,
        ) && message_type == MessageType::Ping && bytes@.len() == 0),
{
    match outcome {
        EgresOutcome::Payload(EgresPayload::Ping) => EgresStep::Send(
            MessageType::Ping,
            Vec::new(),
        ),
        EgresOutcome::Payload(EgresPayload::TunnelBytes(bytes)) => EgresStep::Send(
            MessageType::Binary,
            bytes,
        ),
        EgresOutcome::Timeout => EgresStep::Done,
        EgresOutcome::Disconnected => EgresStep::Fail,
    }
}

/// The client gives a sign of life every 20 seconds, and never waits as long as that for anything
/// else: it looks for something to read or to send 20 times a second. What it reads from its tunnel
/// stream at once is at most four times 4096 bytes.
pub proof fn law_client_settings()
    ensures
        HEARTBEAT_SECS == 20,
        TIMEOUT_MILLIS * 20 == 1000,
        STREAM_BUF_LEN == 4 * 4096,
        CLIENT_BUF_LEN == 4000,
{
}

/// The attempt to open the websocket is repeated exactly as long as the server takes too long to
/// answer; the client goes on exactly once the websocket is open, and gives up on anything else.
pub proof fn law_handshake_is_repeated_until_answered(
    outcome: HandshakeOutcome,
    action: HandshakeAction,
)
    requires
        call_ensures(handshake_step, (outcome,), action),
    ensures
        action is Retry <==> outcome is WouldBlock,
        action is Proceed <==> outcome is Opened,
        action is Fail <==> outcome is Failed,
{
}

/// What a client sends after waiting for something to send: bytes from the tunnel stream as a message
/// of just those bytes, and a sign of life as a ping. It goes back to reading exactly if there was
/// nothing, and fails exactly if there never will be anything.
pub proof fn law_client_sends_what_there_is(outcome: EgresOutcome, step: EgresStep)
    requires
        call_ensures(egres_step, (outcome,), step),
    ensures
        outcome matches EgresOutcome::Payload(EgresPayload::TunnelBytes(bytes)) ==> step
            == EgresStep::Send(MessageType::Binary, bytes),
        outcome matches EgresOutcome::Payload(EgresPayload::Ping) ==> (step matches EgresStep::Send(
            message_type,
            bytes,
        ) && message_type == MessageType::Ping && bytes@.len() == 0),
        step is Done <==> outcome is Timeout,
        step is Fail <==> outcome is Disconnected,
{
}

/// The reader of a tunnel stream passes on every byte that it read, in its place, and nothing else,
/// and ends exactly when a read brought nothing.
pub proof fn law_stream_reader_passes_on_what_it_read(
    buf: &[u8],
    outcome: ReadOutcome,
    r: Option<EgresPayload>,
)
    requires
        call_ensures(open_tunnel_step, (buf, outcome), r),
        outcome matches ReadOutcome::Read(len) ==> len <= buf@.len(),
    ensures
        r is Some <==> (outcome matches ReadOutcome::Read(len) && len > 0),
        r matches Some(payload) ==> {
            &&& payload matches EgresPayload::TunnelBytes(bytes)
            &&& bytes@.len() == outcome->Read_0
            &&& forall|i: int| 0 <= i < bytes@.len() ==> #[trigger] bytes@[i] == buf@[i]
        },
{
}

/// What a client does about a message, and whether it has a tunnel stream then: it opens and closes
/// one when it is told to, shuts down the one that it had, and writes the very bytes that it gets
/// while it has one; nothing else changes whether it has one.
pub proof fn law_client_follows_the_server(before: bool, event: ClientEvent, r: ClientAction)
    ensures
        forall|tunnel_open: &mut bool|
            *tunnel_open == before && #[trigger] call_ensures(client_step, (tunnel_open, event), r)
                ==> {
                &&& r is OpenTunnel <==> (event matches ClientEvent::Text(text) && text@ == "open"@)
                &&& r is CloseTunnel <==> (event matches ClientEvent::Text(text) && text@
                    == "close"@)
                &&& r matches ClientAction::OpenTunnel { shutdown } ==> shutdown == before
                    && *final(tunnel_open)
                &&& r matches ClientAction::CloseTunnel { shutdown } ==> shutdown == before
                    && !*final(tunnel_open)
                &&& !(r is OpenTunnel) && !(r is CloseTunnel) ==> *final(tunnel_open) == before
                &&& r is WriteTunnel <==> event is Binary && before
                &&& event matches ClientEvent::Binary(bytes) ==> before ==> r
                    == ClientAction::WriteTunnel(bytes)
                &&& r is Stop <==> event is Closed
                &&& r is Fail <==> event is Failed
            },
{
    reveal_strlit("open");
    reveal_strlit("close");
    assert("open"@.len() == 4 && "close"@.len() == 5);
}

/// The port that is found is the one that the URL names, and else 433 or 80 by the scheme; there is
/// none exactly for other schemes.
pub proof fn law_found_port_is_the_named_one(
    scheme: &str,
    port: Option<u16>,
    r: Result<u16, String>,
)
    requires
        call_ensures(find_port, (scheme, port), r),
    ensures
        port matches Some(named) ==> r == Ok::<u16, String>(named),
        port is None ==> {
            &&& r == Ok::<u16, String>(433) <==> scheme@ == "wss"@ || scheme@ == "https"@
            &&& r == Ok::<u16, String>(80) <==> scheme@ == "ws"@ || scheme@ == "http"@
            &&& r is Err <==> scheme@ != "wss"@ && scheme@ != "https"@ && scheme@ != "ws"@
                && scheme@ != "http"@
        },
        r matches Err(text) ==> text@ == "Invalid url, unknown port"@,
{
    law_named_port_is_used(scheme@, port);
}

/// The connection of a client goes to the host and the port that its URL names, over TLS exactly if
/// the scheme asks for it, for the path of the URL, and with the credentials of the configuration.
/// There is none exactly if the URL cannot be parsed, names no host, or has no known port.
pub proof fn law_client_connects_where_it_is_told(
    config: &ClientConfig,
    r: Result<Connection, ConnectError>,
)
    requires
        can_encode(*config),
        call_ensures(find_connection, (config,), r),
    ensures
        url_parse(config.ws_url@) matches Err(error) ==> (r matches Err(
            ConnectError::InvalidUrl(text),
        ) && text@ == error),
        url_parse(config.ws_url@) matches Ok((scheme, host, port, path)) ==> {
            let known = port is Some || scheme == "wss"@ || scheme == "https"@ || scheme == "ws"@
                || scheme == "http"@;
            &&& host is None <==> r == Err::<Connection, _>(ConnectError::NoHost)
            &&& host is Some && !known <==> (r matches Err(ConnectError::Url(text)) && text@
                == "Invalid url, unknown port"@)
            &&& r is Ok <==> host is Some && known
            &&& r matches Ok(c) ==> {
                let n = c.host@.len() as int;
                let used = c.tcp_address@.skip(n + 1).fold_left(
                    0int,
                    |value: int, digit: char| value * 10 + (digit as int - '0' as int),
                );
                &&& host == Some(c.host@)
                &&& c.path@ == path
                &&& c.use_tls <==> scheme == "wss"@ || scheme == "https"@
                &&& c.tcp_address@.take(n) == c.host@
                &&& c.tcp_address@[n] == ':'
                &&& forall|i: int|
                    n < i < c.tcp_address@.len() ==> '0' <= #[trigger] c.tcp_address@[i] <= '9'
                &&& port matches Some(named) ==> used == named
                &&& port is None ==> used == if c.use_tls {
                    433int
                } else {
                    80
                }
                &&& c.auth@ == "Authorization: Basic "@ + base64_encoded(
                    encode_utf8(config.username@ + seq![':'] + config.password@),
                )
            }
        },
{
    if let Ok((scheme, host, port, path)) = url_parse(config.ws_url@) {
        law_named_port_is_used(scheme, port);
        if host is Some && server_port(scheme, port) is Some {
            let used = server_port(scheme, port)->0;
            law_connection_goes_where_the_url_says(
                scheme,
                host->0,
                used,
                path,
                config.username@,
                config.password@,
            );
            law_connection_carries_the_credentials(
                scheme,
                host->0,
                used,
                path,
                config.username@,
                config.password@,
            );
        }
        reveal_strlit("wss");
        reveal_strlit("https");
        reveal_strlit("ws");
        reveal_strlit("http");
        assert("ws"@.len() == 2 && "wss"@.len() == 3 && "http"@.len() == 4 && "https"@.len() == 5);
    }
}

/// The connection for a host goes to that host, at the port that was found, for that path.
pub proof fn law_host_is_connected_to(
    scheme: &str,
    host: &str,
    port: Option<u16>,
    path: &str,
    config: &ClientConfig,
    r: Result<Connection, String>,
)
    requires
        can_encode(*config),
        call_ensures(connect_to, (scheme, host, port, path, config), r),
    ensures
        r is Ok <==> port is Some || scheme@ == "wss"@ || scheme@ == "https"@ || scheme@ == "ws"@
            || scheme@ == "http"@,
        r matches Err(text) ==> text@ == "Invalid url, unknown port"@,
        r matches Ok(c) ==> {
            &&& c.host@ == host@
            &&& c.path@ == path@
            &&& c.use_tls <==> scheme@ == "wss"@ || scheme@ == "https"@
            &&& c.tcp_address@.take(host@.len() as int) == host@
            &&& port matches Some(named) ==> c.tcp_address@.skip(host@.len() as int + 1).fold_left(
                0int,
                |value: int, digit: char| value * 10 + (digit as int - '0' as int),
            ) == named
            &&& c.auth@ == "Authorization: Basic "@ + base64_encoded(
                encode_utf8(config.username@ + seq![':'] + config.password@),
            )
        },
{
    law_named_port_is_used(scheme@, port);
    if server_port(scheme@, port) is Some {
        let used = server_port(scheme@, port)->0;
        law_connection_goes_where_the_url_says(
            scheme@,
            host@,
            used,
            path@,
            config.username@,
            config.password@,
        );
        law_connection_carries_the_credentials(
            scheme@,
            host@,
            used,
            path@,
            config.username@,
            config.password@,
        );
    }
}

} // verus!
