use ws_tunnel::admission::{
    answer_handshake, answer_request, apply_status, lookup_client, read_header,
    return_401_unauthorized, return_404_not_found, HeaderError, HeaderStep, WebSocketHeader,
};
use ws_tunnel::authorization::authorization_header;
use ws_tunnel::config::{Client, ServerConfig};
use ws_tunnel::error::ServerError;
use ws_tunnel::handshake::WebSocketContext;
use ws_tunnel::request::{Header, Request, RequestStatus};

type Payload = Box<dyn std::any::Any + Send>;

const KEY: &str = "Z7OY1UwHOx/nkSz38kfPwg==";

fn client(tcp_addr: &str, username: &str, password: &str) -> Client {
    Client {
        tcp_addr: tcp_addr.to_owned(),
        username: username.to_owned(),
        password: password.to_owned(),
    }
}

fn config() -> ServerConfig {
    ServerConfig {
        ws_addr: "127.0.0.1:1337".to_owned(),
        ws_path: "/tunnel".to_owned(),
        clients: vec![
            client("127.0.0.1:5001", "alice", "one"),
            client("127.0.0.1:5002", "bob", "two"),
            client("127.0.0.1:5003", "bob", "two"),
        ],
    }
}

fn request(path: &str, extra: &str) -> String {
    format!(
        "GET {} HTTP/1.1\r\nHost: localhost\r\nUpgrade: websocket\r\nConnection: Upgrade\r\n\
         Sec-WebSocket-Key: {}\r\n{}Sec-WebSocket-Version: 13\r\n\r\n",
        path, KEY, extra
    )
}

fn authorized(path: &str, username: &str, password: &str) -> String {
    request(path, &format!("{}\r\n", authorization_header(username, password)))
}

fn context(protocols: &[&str]) -> WebSocketContext {
    WebSocketContext {
        sec_websocket_protocol_list: protocols.iter().map(|p| (*p).to_owned()).collect(),
        sec_websocket_key: KEY.to_owned(),
    }
}

fn admitted(tunnel_addr: &str, user: &str) -> HeaderStep {
    HeaderStep::Admitted(WebSocketHeader {
        tunnel_addr: tunnel_addr.to_owned(),
        user: user.to_owned(),
        websocket_context: context(&[]),
    })
}

/// Reads a request that arrives at once.
fn read(text: &[u8]) -> (Result<HeaderStep, HeaderError<Payload>>, usize) {
    let mut cursor = 0;
    let step = read_header(text, &mut cursor, Ok(text.len()), &config());
    (step, cursor)
}

fn not_found(path: &str) -> HeaderStep {
    HeaderStep::Refused(return_404_not_found(&Some(path.to_owned())))
}

fn step(text: &str) -> HeaderStep {
    read(text.as_bytes()).0.unwrap()
}

#[test]
fn client_is_admitted() {
    assert_eq!(step(&authorized("/tunnel", "alice", "one")), admitted("127.0.0.1:5001", "alice"));
}

#[test]
fn first_of_two_equal_clients_is_taken() {
    assert_eq!(step(&authorized("/tunnel", "bob", "two")), admitted("127.0.0.1:5002", "bob"));
    let clients = config().clients;
    let found = lookup_client(&clients, &"bob".to_owned(), &"two".to_owned()).unwrap();
    assert_eq!(found.tcp_addr, "127.0.0.1:5002");
    assert!(lookup_client(&clients, &"bob".to_owned(), &"one".to_owned()).is_none());
}

#[test]
fn wrong_credentials_are_unauthorized() {
    let refused = HeaderStep::Refused(return_401_unauthorized());
    assert_eq!(step(&authorized("/tunnel", "alice", "two")), refused);
    assert_eq!(step(&authorized("/tunnel", "", "")), refused);
    assert_eq!(step(&authorized("/tunnel", "Alice", "one")), refused);
    assert_eq!(step(&request("/tunnel", "")), refused);
    assert_eq!(step(&request("/tunnel", "Authorization: Basic %%%\r\n")), refused);
}

#[test]
fn other_paths_are_not_found() {
    assert_eq!(step(&authorized("/", "alice", "one")), not_found("/"));
    assert_eq!(step(&authorized("/tunnel/", "alice", "one")), not_found("/tunnel/"));
    assert_eq!(step(&request("/other", "")), not_found("/other"));
}

#[test]
fn request_without_upgrade_is_not_found() {
    let refused = not_found("/tunnel");
    assert_eq!(step("GET /tunnel HTTP/1.1\r\nHost: localhost\r\n\r\n"), refused);
    let line = authorization_header("alice", "one");
    assert_eq!(step(&format!("GET /tunnel HTTP/1.1\r\nUpgrade: h2c\r\n{}\r\n\r\n", line)), refused);
    // the last of several headers counts
    assert_eq!(step(&request("/tunnel", &format!("Upgrade: h2c\r\n{}\r\n", line))), refused);
}

#[test]
fn upgrade_is_not_case_sensitive() {
    let text = authorized("/tunnel", "alice", "one").replace("Upgrade: websocket", "UPGRADE: WebSocket");
    assert_eq!(step(&text), admitted("127.0.0.1:5001", "alice"));
}

#[test]
fn refusals() {
    let unauthorized = return_401_unauthorized();
    assert_eq!(unauthorized.pause_secs, 2);
    assert_eq!(
        unauthorized.html,
        "HTTP/1.1 401 Unauthorized\r\nContent-Length: 0\r\nConnection: close\r\n\r\n"
    );
    assert_eq!(unauthorized.unknown_path, None);
    let not_found = return_404_not_found(&Some("/x".to_owned()));
    assert_eq!(not_found.unknown_path, Some("/x".to_owned()));
    assert_eq!(return_404_not_found(&None).unknown_path, None);
    assert_eq!(not_found.pause_secs, 2);
    assert_eq!(
        not_found.html,
        "HTTP/1.1 404 Not Found\r\nContent-Length: 0\r\nConnection: close\r\n\r\n"
    );
}

#[test]
fn head_in_pieces() {
    let text = authorized("/tunnel", "alice", "one");
    let mut buf = vec![0_u8; 4000];
    let mut cursor = 0;
    let bytes = text.as_bytes();
    for (i, byte) in bytes.iter().enumerate() {
        buf[cursor] = *byte;
        let step = read_header::<Payload>(&buf, &mut cursor, Ok(1), &config()).unwrap();
        if i + 1 < bytes.len() {
            assert_eq!(step, HeaderStep::KeepReading);
            assert_eq!(cursor, i + 1);
        } else {
            assert_eq!(step, admitted("127.0.0.1:5001", "alice"));
            assert_eq!(cursor, 0);
        }
    }
}

/// Reads a request that arrives in pieces that end at these places.
fn read_pieces(text: &[u8], ends: &[usize]) -> (Result<HeaderStep, HeaderError<Payload>>, usize) {
    let mut buf = vec![0_u8; text.len()];
    let mut cursor = 0;
    for (i, end) in ends.iter().enumerate() {
        let size = end - cursor;
        buf[cursor..*end].copy_from_slice(&text[cursor..*end]);
        let result = read_header(&buf, &mut cursor, Ok(size), &config());
        if i + 1 == ends.len() {
            return (result, cursor);
        }
        assert_eq!(result.unwrap(), HeaderStep::KeepReading);
        assert_eq!(cursor, *end);
    }
    panic!("there is no last piece")
}

#[test]
fn split_does_not_matter() {
    for text in [
        authorized("/tunnel", "alice", "one"),
        authorized("/tunnel", "alice", "two"),
        authorized("/other", "alice", "one"),
        format!("\r\n{}", request("/tunnel", "")),
    ] {
        let bytes = text.as_bytes();
        let len = bytes.len();
        let (once, cursor) = read_pieces(bytes, &[len]);
        let once = once.unwrap();
        assert_eq!(cursor, 0);
        for first in 1..len {
            let (step, cursor) = read_pieces(bytes, &[first, len]);
            assert_eq!((step.unwrap(), cursor), (once_again(&once), 0));
        }
        let (step, cursor) = read_pieces(bytes, &[7, 20, 21, 60, len - 1, len]);
        assert_eq!((step.unwrap(), cursor), (once_again(&once), 0));
        // bytes that follow the head are left for the websocket, however many of them are there
        let longer = [bytes, &[0x82_u8, 0x80, 1, 2, 3, 4][..]].concat();
        for after in 0..6 {
            let (step, cursor) = read_pieces(&longer, &[len - 3, len + after]);
            assert_eq!((step.unwrap(), cursor), (once_again(&once), after));
        }
    }
}

/// Steps cannot be copied, only made again.
fn once_again(step: &HeaderStep) -> HeaderStep {
    match step {
        HeaderStep::KeepReading => HeaderStep::KeepReading,
        HeaderStep::Admitted(header) => admitted(&header.tunnel_addr, &header.user),
        HeaderStep::Refused(refusal) => match &refusal.unknown_path {
            Some(path) => not_found(path),
            None => HeaderStep::Refused(return_401_unauthorized()),
        },
    }
}

#[test]
fn split_does_not_matter_to_an_unreadable_handshake() {
    let mut bytes = b"GET /tunnel HTTP/1.1\r\nUpgrade: ".to_vec();
    bytes.extend_from_slice(&[0xff, 0xfe]);
    bytes.extend_from_slice(b"\r\n\r\n");
    let len = bytes.len();
    for first in 1..len {
        match read_pieces(&bytes, &[first, len]) {
            (Err(HeaderError::Server(ServerError::WebSocket(error))), 0) => {
                assert_eq!(error, embedded_websocket::Error::Utf8Error)
            }
            other => panic!("{:?}", other),
        }
    }
}

#[test]
fn failed_read() {
    let mut cursor = 3;
    let error = std::io::Error::from(std::io::ErrorKind::ConnectionReset);
    match read_header::<Payload>(b"GET", &mut cursor, Err(error), &config()) {
        Err(HeaderError::Server(ServerError::Io(error))) => {
            assert_eq!(error.kind(), std::io::ErrorKind::ConnectionReset)
        }
        other => panic!("{:?}", other),
    }
    assert_eq!(cursor, 3);
}

#[test]
fn cursor_is_what_follows_the_head() {
    let mut bytes = authorized("/tunnel", "alice", "one").into_bytes();
    assert_eq!(read(&bytes).1, 0);
    bytes.extend_from_slice(&[0x82, 0x80, 1, 2, 3, 4]);
    let (step, cursor) = read(&bytes);
    assert_eq!(step.unwrap(), admitted("127.0.0.1:5001", "alice"));
    assert_eq!(cursor, 6);
    // the same bytes, of which most were there before
    let mut cursor = bytes.len() - 8;
    read_header::<Payload>(&bytes, &mut cursor, Ok(8), &config()).unwrap();
    assert_eq!(cursor, 6);
}

#[test]
fn nothing_received() {
    let mut cursor = 0;
    let step = read_header::<Payload>(&[], &mut cursor, Ok(0), &config()).unwrap();
    assert_eq!((step, cursor), (HeaderStep::KeepReading, 0));
}

#[test]
fn malformed_request() {
    match read(b"\0\0\0\r\n\r\n") {
        (Err(HeaderError::Malformed(text)), 0) => assert_eq!(text, "invalid token"),
        other => panic!("{:?}", other),
    }
}

#[test]
fn sixteen_headers_are_the_limit() {
    let sixteen = format!("GET / HTTP/1.1\r\n{}\r\n", "A: b\r\n".repeat(16));
    assert_eq!(step(&sixteen), not_found("/"));
    let seventeen = format!("GET / HTTP/1.1\r\n{}\r\n", "A: b\r\n".repeat(17));
    match read(seventeen.as_bytes()) {
        (Err(HeaderError::Malformed(text)), 0) => assert_eq!(text, "too many headers"),
        other => panic!("{:?}", other),
    }
}

#[test]
fn oversized_handshake() {
    let text = request("/tunnel", "").replace(KEY, &"k".repeat(25));
    assert!(matches!(read(text.as_bytes()), (Err(HeaderError::Oversized), 0)));
    let longer = format!("{}ab", text);
    assert!(matches!(read(longer.as_bytes()), (Err(HeaderError::Oversized), 2)));
    let text = request("/tunnel", "").replace(KEY, &"k".repeat(24));
    assert_eq!(step(&text), HeaderStep::Refused(return_401_unauthorized()));
}

#[test]
fn unreadable_handshake() {
    let mut bytes = b"GET /tunnel HTTP/1.1\r\nUpgrade: ".to_vec();
    bytes.extend_from_slice(&[0xff, 0xfe]);
    bytes.extend_from_slice(b"\r\n\r\nrest");
    match read(&bytes) {
        (Err(HeaderError::Server(ServerError::WebSocket(error))), cursor) => {
            assert_eq!(error, embedded_websocket::Error::Utf8Error);
            assert_eq!(cursor, 4);
        }
        other => panic!("{:?}", other),
    }
}

#[test]
fn sub_protocols_are_kept() {
    let line = authorization_header("alice", "one");
    let text = request(
        "/tunnel",
        &format!("Sec-WebSocket-Protocol: chat, x,y\r\n{}\r\nSec-WebSocket-Protocol: p, q\r\n", line),
    );
    match step(&text) {
        HeaderStep::Admitted(header) => {
            assert_eq!(header.websocket_context, context(&["chat", "x,y", "p"]));
        }
        other => panic!("{:?}", other),
    }
}

#[test]
fn answers_to_parsed_requests() {
    let path = Some("/tunnel".to_owned());
    let alice = Some(("alice".to_owned(), "one".to_owned()));
    assert_eq!(
        answer_request(&config(), &path, &alice, Some(context(&[]))),
        admitted("127.0.0.1:5001", "alice")
    );
    assert_eq!(
        answer_request(&config(), &path, &None, Some(context(&[]))),
        HeaderStep::Refused(return_401_unauthorized())
    );
    for (path, context) in [(None, Some(context(&[]))), (path, None)] {
        assert_eq!(
            answer_request(&config(), &path, &alice, context),
            HeaderStep::Refused(return_404_not_found(&path))
        );
    }
}

#[test]
fn parsed_status_is_applied() {
    let mut cursor = 7;
    let step = apply_status::<Payload>(RequestStatus::Partial, 11, &mut cursor, &config()).unwrap();
    assert_eq!((step, cursor), (HeaderStep::KeepReading, 11));
    let request = Request {
        path: Some("/tunnel".to_owned()),
        headers: vec![Header { name: "upgrade".to_owned(), value: b"websocket".to_vec() }],
    };
    let status = RequestStatus::Complete(9, request);
    let step = apply_status::<Payload>(status, 11, &mut cursor, &config()).unwrap();
    assert_eq!((step, cursor), (HeaderStep::Refused(return_401_unauthorized()), 2));
}

#[test]
fn error_of_the_handshake_is_passed_on() {
    let alice = Some(("alice".to_owned(), "one".to_owned()));
    for path in [None, Some("/tunnel".to_owned()), Some("/other".to_owned())] {
        let outcome = Err(embedded_websocket::Error::HttpHeaderNoPath);
        match answer_handshake::<Payload>(&config(), &path, &alice, outcome) {
            Err(ServerError::WebSocket(error)) => {
                assert_eq!(error, embedded_websocket::Error::HttpHeaderNoPath)
            }
            other => panic!("{:?}", other),
        }
    }
    let path = Some("/tunnel".to_owned());
    let step = answer_handshake::<Payload>(&config(), &path, &alice, Ok(Some(context(&["chat"]))));
    match step {
        Ok(HeaderStep::Admitted(header)) => {
            assert_eq!(header.tunnel_addr, "127.0.0.1:5001");
            assert_eq!(header.websocket_context, context(&["chat"]));
        }
        other => panic!("{:?}", other),
    }
    let step = answer_handshake::<Payload>(&config(), &path, &alice, Ok(None)).unwrap();
    assert_eq!(step, not_found("/tunnel"));
}
