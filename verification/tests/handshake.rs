use ws_tunnel::handshake::context_fits;
use ws_tunnel::request::Header;

fn header(name: &str, value: &[u8]) -> Header {
    Header { name: name.to_owned(), value: value.to_vec() }
}

fn fits(headers: &[(&str, &[u8])]) -> bool {
    let headers: Vec<Header> = headers.iter().map(|(n, v)| header(n, v)).collect();
    context_fits(&headers)
}

const LONG: &[u8] = b"0123456789012345678901234";

#[test]
fn keys() {
    assert!(fits(&[]));
    assert!(fits(&[("Sec-WebSocket-Key", &LONG[..24])]));
    assert!(!fits(&[("Sec-WebSocket-Key", LONG)]));
    assert!(!fits(&[("SEC-WEBSOCKET-KEY", LONG)]));
    assert!(fits(&[("Host", LONG)]));
    assert!(fits(&[("Upgrade", LONG)]));
    assert!(!fits(&[("Sec-WebSocket-Key", b"short"), ("Sec-WebSocket-Key", LONG)]));
}

#[test]
fn protocols() {
    let name = "Sec-WebSocket-Protocol";
    assert!(fits(&[(name, b"")]));
    assert!(!fits(&[(name, LONG)]));
    assert!(fits(&[(name, b"012345678901234567890123, 012345678901234567890123")]));
    assert!(!fits(&[(name, b"012345678901234567890123,012345678901234567890123")]));
    assert!(!fits(&[(name, b"a, 0123456789012345678901234")]));
    assert!(!fits(&[(name, b"a, b, 0123456789012345678901234")]));
    assert!(fits(&[(name, b"a, b, c, 0123456789012345678901234")]));
    assert!(fits(&[(name, b"a, b, c"), (name, LONG)]));
    assert!(!fits(&[(name, b"a, b"), (name, LONG)]));
    assert!(fits(&[(name, b"a, b, , 0123456789012345678901234")]));
}

#[test]
fn nothing_counts_after_an_unreadable_header() {
    assert!(fits(&[("Upgrade", b"\xff"), ("Sec-WebSocket-Key", LONG)]));
    assert!(fits(&[("sec-websocket-key", b"\xff\xff\xff\xff\xff\xff\xff\xff\xff\xff\xff\xff\xff\xff\xff\xff\xff\xff\xff\xff\xff\xff\xff\xff\xff\xff")]));
    assert!(!fits(&[("Cookie", b"\xff"), ("Sec-WebSocket-Key", LONG)]));
}
