use ws_tunnel::error::ServerError;
use ws_tunnel::session::{handle_client_step, join_results, Joined, SessionAction, SessionEvent, SessionPhase};
use ws_tunnel::{EgresCommand, TunnelCommand};

type Phase = SessionPhase<u8>;

fn ok() -> Joined<u8> {
    Ok(Ok(()))
}

fn failed() -> Joined<u8> {
    Ok(Err(ServerError::Utf8Error))
}

#[test]
fn messages_while_reading() {
    let (phase, action) = handle_client_step(Phase::Reading, SessionEvent::Binary(vec![1, 2]));
    assert!(matches!(phase, SessionPhase::Reading));
    assert_eq!(action, SessionAction::Forward(EgresCommand::Bytes(vec![1, 2])));
    for event in [SessionEvent::Text, SessionEvent::Pong] {
        let (phase, action) = handle_client_step(Phase::Reading, event);
        assert!(matches!(phase, SessionPhase::Reading));
        assert_eq!(action, SessionAction::ReadOn);
    }
}

#[test]
fn end_of_a_session() {
    for event in [SessionEvent::Closed, SessionEvent::ReadFailed, SessionEvent::ForwardFailed] {
        let (phase, action) = handle_client_step(Phase::Reading, event);
        assert!(matches!(phase, SessionPhase::StoppingWriter));
        assert_eq!(action, SessionAction::StopWriter(TunnelCommand::ClientDisconnected));
        let (phase, action) = handle_client_step(phase, SessionEvent::WriterJoined(ok()));
        assert!(matches!(phase, SessionPhase::StoppingListener(Ok(Ok(())))));
        assert_eq!(action, SessionAction::StopListener(EgresCommand::WebsocketClosed));
        let (phase, action) = handle_client_step(phase, SessionEvent::ListenerJoined(failed()));
        assert!(matches!(phase, SessionPhase::Closed(Err(ServerError::Utf8Error))));
        assert_eq!(action, SessionAction::Done);
    }
}

#[test]
fn results_of_the_threads() {
    assert!(matches!(join_results(ok(), ok()), Ok(())));
    assert!(matches!(join_results(ok(), failed()), Err(ServerError::Utf8Error)));
    assert!(matches!(join_results(failed(), Err(7)), Err(ServerError::Utf8Error)));
    assert!(matches!(join_results(Err(3), failed()), Err(ServerError::WriteThread(3))));
    assert!(matches!(join_results(ok(), Err(7)), Err(ServerError::AcceptConnectionThread(7))));
}
