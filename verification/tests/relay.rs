use embedded_websocket::{WebSocketClient, WebSocketReceiveMessageType, WebSocketState};
use ws_tunnel::client::{client_step, egres_step, open_tunnel_step, ClientAction, ClientEvent, EgresOutcome, EgresStep};
use ws_tunnel::frame::{write_to_websocket_step, MessageType, WriterStep, WEBSOCKET_BUF_LEN};
use ws_tunnel::session::{handle_client_step, SessionAction, SessionEvent, SessionPhase};
use ws_tunnel::tunnel::{accept_tunnel_connections_step, handle_tunnel_connection_step, read_tunnel_step, tunnel_opened, AcceptOutcome, EgresAction, EgresEvent, ReadOutcome};
use ws_tunnel::{EgresCommand, TunnelCommand};

/// What a client receives when the server carries out a command.
fn deliver(command: TunnelCommand) -> ClientEvent {
    let mut to_buf = vec![0_u8; WEBSOCKET_BUF_LEN];
    let len = match write_to_websocket_step(Some(command), &mut to_buf) {
        WriterStep::Send(len) => len,
        WriterStep::Stop => panic!("nothing was sent"),
    };
    let mut websocket = WebSocketClient::new_client(rand::thread_rng());
    websocket.state = WebSocketState::Open;
    let mut payload = vec![0_u8; WEBSOCKET_BUF_LEN];
    let result = websocket.read(&to_buf[..len], &mut payload).unwrap();
    assert_eq!(result.len_from, len);
    assert!(result.end_of_message);
    payload.truncate(result.len_to);
    match result.message_type {
        WebSocketReceiveMessageType::Text => ClientEvent::Text(String::from_utf8(payload).unwrap()),
        WebSocketReceiveMessageType::Binary => ClientEvent::Binary(payload),
        other => panic!("{:?}", other),
    }
}

#[test]
fn connection_is_relayed() {
    let chunks = [vec![1_u8, 2, 3], vec![9; 4000], vec![0; 126]];
    let mut commands = vec![tunnel_opened()];
    for chunk in &chunks {
        commands.push(read_tunnel_step(chunk, ReadOutcome::Read(chunk.len())).ingres);
    }
    commands.push(read_tunnel_step(&[], ReadOutcome::Read(0)).ingres);

    for before in [false, true] {
        let mut tunnel_open = before;
        let mut actions = Vec::new();
        for command in &commands {
            // commands cannot be copied, only made again
            let command = match command {
                TunnelCommand::Open => TunnelCommand::Open,
                TunnelCommand::Close => TunnelCommand::Close,
                TunnelCommand::Tx(bytes) => TunnelCommand::Tx(bytes.clone()),
                TunnelCommand::ClientDisconnected => TunnelCommand::ClientDisconnected,
            };
            actions.push(client_step(&mut tunnel_open, deliver(command)));
        }
        let mut expected = vec![ClientAction::OpenTunnel { shutdown: before }];
        expected.extend(chunks.iter().map(|c| ClientAction::WriteTunnel(c.clone())));
        expected.push(ClientAction::CloseTunnel { shutdown: true });
        assert_eq!(actions, expected);
        assert!(!tunnel_open);
    }
}

#[test]
fn connections_are_relayed_in_turn() {
    let connections = [vec![vec![1_u8], vec![2, 3]], vec![], vec![vec![4_u8; 300]]];
    let mut tunnel_open = true;
    let mut actions = Vec::new();
    let mut expected = Vec::new();
    for (i, chunks) in connections.iter().enumerate() {
        let mut commands = vec![tunnel_opened()];
        for chunk in chunks {
            commands.push(read_tunnel_step(chunk, ReadOutcome::Read(chunk.len())).ingres);
        }
        let last = read_tunnel_step(&[], ReadOutcome::Failed);
        commands.push(last.ingres);
        for command in commands {
            actions.push(client_step(&mut tunnel_open, deliver(command)));
        }
        // the end of the connection lets the next one be accepted
        let end = handle_tunnel_connection_step(EgresEvent::Command(last.egres.unwrap()));
        assert_eq!(end, EgresAction::Finish(true));
        assert!(accept_tunnel_connections_step::<u8>(AcceptOutcome::Handled(Ok(true))).is_none());

        expected.push(ClientAction::OpenTunnel { shutdown: i == 0 });
        expected.extend(chunks.iter().map(|c| ClientAction::WriteTunnel(c.clone())));
        expected.push(ClientAction::CloseTunnel { shutdown: true });
    }
    assert_eq!(actions, expected);
    assert!(!tunnel_open);
}

#[test]
fn session_announces_no_end() {
    let (phase, forward) = handle_client_step(SessionPhase::<u8>::Reading, SessionEvent::Binary(vec![1]));
    assert_eq!(forward, SessionAction::Forward(EgresCommand::Bytes(vec![1])));
    let (phase, _) = handle_client_step(phase, SessionEvent::Closed);
    let (_, stop) = handle_client_step(phase, SessionEvent::WriterJoined(Ok(Ok(()))));
    assert_eq!(stop, SessionAction::StopListener(EgresCommand::WebsocketClosed));
}

#[test]
fn answer_is_relayed() {
    let buf = [5_u8, 6, 7, 8];
    let payload = open_tunnel_step(&buf, ReadOutcome::Read(3)).unwrap();
    let (message_type, bytes) = match egres_step(EgresOutcome::Payload(payload)) {
        EgresStep::Send(message_type, bytes) => (message_type, bytes),
        other => panic!("{:?}", other),
    };
    assert_eq!(message_type, MessageType::Binary);
    let (_, action) = handle_client_step(SessionPhase::<u8>::Reading, SessionEvent::Binary(bytes));
    let command = match action {
        SessionAction::Forward(command) => command,
        other => panic!("{:?}", other),
    };
    assert_eq!(
        handle_tunnel_connection_step(EgresEvent::Command(command)),
        EgresAction::Write(vec![5, 6, 7])
    );
}
