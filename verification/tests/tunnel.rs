use std::io::{Error, ErrorKind};
use ws_tunnel::error::ServerError;
use ws_tunnel::tunnel::{
    accept_tunnel_connections_step, handle_tunnel_connection_step, read_tunnel_step, take_chunk,
    tunnel_opened, AcceptOutcome, EgresAction, EgresEvent, ReadOutcome, TunnelRead,
};
use ws_tunnel::{EgresCommand, TunnelCommand};

#[test]
fn chunks() {
    let buf = [1, 2, 3, 4];
    assert_eq!(take_chunk(&buf, ReadOutcome::Read(3)), Some(vec![1, 2, 3]));
    assert_eq!(take_chunk(&buf, ReadOutcome::Read(4)), Some(vec![1, 2, 3, 4]));
    assert_eq!(take_chunk(&buf, ReadOutcome::Read(0)), None);
    assert_eq!(take_chunk(&buf, ReadOutcome::Failed), None);
}

#[test]
fn reader_of_a_connection() {
    assert_eq!(tunnel_opened(), TunnelCommand::Open);
    let buf = [1, 2, 3, 4];
    assert_eq!(
        read_tunnel_step(&buf, ReadOutcome::Read(2)),
        TunnelRead { ingres: TunnelCommand::Tx(vec![1, 2]), egres: None, done: false }
    );
    for outcome in [ReadOutcome::Read(0), ReadOutcome::Failed] {
        assert_eq!(
            read_tunnel_step(&buf, outcome),
            TunnelRead {
                ingres: TunnelCommand::Close,
                egres: Some(EgresCommand::Close),
                done: true
            }
        );
    }
}

#[test]
fn writer_of_a_connection() {
    assert_eq!(
        handle_tunnel_connection_step(EgresEvent::Command(EgresCommand::Bytes(vec![8]))),
        EgresAction::Write(vec![8])
    );
    assert_eq!(
        handle_tunnel_connection_step(EgresEvent::Command(EgresCommand::Close)),
        EgresAction::Finish(true)
    );
    assert_eq!(
        handle_tunnel_connection_step(EgresEvent::Command(EgresCommand::WebsocketClosed)),
        EgresAction::ShutdownAndFinish(false)
    );
    assert_eq!(handle_tunnel_connection_step(EgresEvent::Disconnected), EgresAction::Finish(false));
    assert_eq!(handle_tunnel_connection_step(EgresEvent::WriteFailed), EgresAction::Finish(false));
}

#[test]
fn accepting_connections() {
    let step = accept_tunnel_connections_step::<u8>;
    assert!(step(AcceptOutcome::Handled(Ok(true))).is_none());
    assert!(matches!(step(AcceptOutcome::Handled(Ok(false))), Some(Ok(()))));
    assert!(matches!(
        step(AcceptOutcome::Handled(Err(ServerError::Utf8Error))),
        Some(Err(ServerError::Utf8Error))
    ));
    match step(AcceptOutcome::Failed(Error::from(ErrorKind::AddrInUse))) {
        Some(Err(ServerError::Io(error))) => assert_eq!(error.kind(), ErrorKind::AddrInUse),
        other => panic!("{:?}", other),
    }
}
