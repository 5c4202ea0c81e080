use std::io::{Error, ErrorKind};
use ws_tunnel::config::ConfigError;
use ws_tunnel::error::ServerError;

#[test]
fn configuration_errors() {
    assert!(matches!(ConfigError::from(Error::from(ErrorKind::NotFound)), ConfigError::Io(_)));
    let error = serde_json::from_str::<u8>("x").unwrap_err();
    assert!(matches!(ConfigError::from(error), ConfigError::Json(_)));
}

#[test]
fn server_errors() {
    type E = ServerError<u8>;
    assert!(matches!(E::from(Error::from(ErrorKind::NotFound)), ServerError::Io(_)));
    assert!(matches!(E::from(embedded_websocket::Error::Unknown), ServerError::WebSocket(_)));
    let framer = embedded_websocket::framer::FramerError::FrameTooLarge(3);
    assert!(matches!(E::from(framer), ServerError::Framer(_)));
    let utf8 = core::str::from_utf8(&[0xff]).unwrap_err();
    assert!(matches!(E::from(utf8), ServerError::Utf8Error));
}
