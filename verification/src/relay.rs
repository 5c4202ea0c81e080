//! What the two programs do together: the bytes of a tunnel connection arrive at the other end.

use crate::client::{
    client_action, law_bytes_are_sent_as_bytes, payload_message, tunnel_after, ClientActionView,
    ClientEventView, EgresPayload, EgresPayloadView,
};
use crate::frame::{command_message, MessageType};
use crate::listener::{
    after_events, are_in_turn, connection_commands, connections_commands, is_listener_run,
    law_connections_are_served_in_turn, opened_commands, ListenerEvent,
};
use crate::session::{session_action, SessionActionView, SessionEvent};
use crate::tunnel::{
    chunk, egres_action, law_chunk_is_what_was_read, tunnel_read, EgresActionView, ReadOutcome,
};
use crate::{TunnelCommandView, CLOSE_STREAM_COMMAND, OPEN_STREAM_COMMAND};
use vstd::prelude::*;
use vstd::utf8::*;

verus! {

/// What a client receives when this message is sent to it. A ping is answered without it.
pub open spec fn client_event(message: (MessageType, Seq<u8>)) -> Option<ClientEventView> {
    match message.0 {
        MessageType::Text => Some(ClientEventView::Text(decode_utf8(message.1))),
        MessageType::Binary => Some(ClientEventView::Binary(message.1)),
        MessageType::Ping => None,
    }
}

/// Whether a client receives these events when the server carries out these commands.
pub open spec fn is_delivered(
    commands: Seq<TunnelCommandView>,
    events: Seq<ClientEventView>,
) -> bool {
    &&& events.len() == commands.len()
    &&& forall|i: int|
        0 <= i < commands.len() ==> {
            &&& command_message(#[trigger] commands[i]) is Some
            &&& client_event(command_message(commands[i])->0) == Some(events[i])
        }
}

/// Whether a client has a tunnel stream after these events.
pub open spec fn tunnel_after_all(tunnel_open: bool, events: Seq<ClientEventView>) -> bool
    decreases events.len(),
{
    if events.len() == 0 {
        tunnel_open
    } else {
        let before = tunnel_after_all(tunnel_open, events.drop_last());
        tunnel_after(before, client_action(before, events.last()))
    }
}

/// What a client does about these events.
pub open spec fn client_actions(tunnel_open: bool, events: Seq<ClientEventView>) -> Seq<
    ClientActionView,
> {
    Seq::new(
        events.len(),
        |i: int| client_action(tunnel_after_all(tunnel_open, events.take(i)), events[i]),
    )
}

/// The client understands what the server commands: the message for an opened connection opens a
/// tunnel stream, the message for a closed one closes it, and the message with bytes carries them.
pub proof fn law_commands_are_understood(tunnel_open: bool, bytes: Seq<u8>)
    ensures
        client_action(
            tunnel_open,
            client_event(command_message(TunnelCommandView::Open)->0)->0,
        ) == (ClientActionView::OpenTunnel { shutdown: tunnel_open }),
        client_action(
            tunnel_open,
            client_event(command_message(TunnelCommandView::Close)->0)->0,
        ) == (ClientActionView::CloseTunnel { shutdown: tunnel_open }),
        client_action(
            tunnel_open,
            client_event(command_message(TunnelCommandView::Tx(bytes))->0)->0,
        ) == if tunnel_open {
            ClientActionView::WriteTunnel(bytes)
        } else {
            ClientActionView::Ignore
        },
{
    broadcast use encode_utf8_decode_utf8;

    reveal_strlit("open");
    reveal_strlit("close");
    assert(OPEN_STREAM_COMMAND@.len() != CLOSE_STREAM_COMMAND@.len());
}

/// What a client does about a tunnel connection of the server that has not ended, from which these
/// chunks of bytes came so far: it opens a tunnel stream, after a stream that it still had was shut
/// down, and writes the chunks to it.
pub open spec fn opened_actions(tunnel_open: bool, chunks: Seq<Seq<u8>>) -> Seq<ClientActionView> {
    seq![ClientActionView::OpenTunnel { shutdown: tunnel_open }] + chunks.map_values(
        |bytes: Seq<u8>| ClientActionView::WriteTunnel(bytes),
    )
}

/// What a client does about one tunnel connection of the server, from which these chunks of bytes
/// came: in the end, it closes its tunnel stream.
pub open spec fn connection_actions(tunnel_open: bool, chunks: Seq<Seq<u8>>) -> Seq<
    ClientActionView,
> {
    opened_actions(tunnel_open, chunks) + seq![ClientActionView::CloseTunnel { shutdown: true }]
}

/// What a client does about several tunnel connections of the server, one after the other.
pub open spec fn connections_actions(tunnel_open: bool, connections: Seq<Seq<Seq<u8>>>) -> Seq<
    ClientActionView,
>
    decreases connections.len(),
{
    if connections.len() == 0 {
        seq![]
    } else {
        connections_actions(tunnel_open, connections.drop_last()) + connection_actions(
            tunnel_open && connections.len() == 1,
            connections.last(),
        )
    }
}

/// The chunks of bytes that the server reads from a tunnel connection are written by the client,
/// one by one and in the same order, to a tunnel stream that it opens for that connection and
/// closes after it. A stream that it still had is shut down before.
pub proof fn law_connection_is_relayed(
    tunnel_open: bool,
    chunks: Seq<Seq<u8>>,
    events: Seq<ClientEventView>,
)
    requires
        is_delivered(connection_commands(chunks), events),
    ensures
        client_actions(tunnel_open, events) == connection_actions(tunnel_open, chunks),
        tunnel_after_all(tunnel_open, events) == false,
{
    let commands = connection_commands(chunks);
    let actions = client_actions(tunnel_open, events);
    let n = chunks.len() as int;
    assert(commands.len() == n + 2);
    assert(commands[0] == TunnelCommandView::Open);
    assert(commands[n + 1] == TunnelCommandView::Close);
    assert forall|i: int| 0 <= i < n implies commands[i + 1] == TunnelCommandView::Tx(
        #[trigger] chunks[i],
    ) by {}
    assert forall|k: int| 1 <= k <= n + 1 implies #[trigger] tunnel_after_all(
        tunnel_open,
        events.take(k),
    ) by {
        lemma_tunnel_stays_open(tunnel_open, chunks, events, k);
    }
    let expected = connection_actions(tunnel_open, chunks);
    assert forall|i: int| 0 <= i < actions.len() implies actions[i] == expected[i] by {
        let open = tunnel_after_all(tunnel_open, events.take(i));
        if i == 0 {
            law_commands_are_understood(open, seq![]);
        } else if i <= n {
            law_commands_are_understood(open, chunks[i - 1]);
            assert(commands[(i - 1) + 1] == TunnelCommandView::Tx(chunks[i - 1]));
        } else {
            law_commands_are_understood(open, seq![]);
        }
        assert(command_message(commands[i]) is Some);
    }
    assert(actions =~= expected);
    assert(events.drop_last() =~= events.take(n + 1));
    assert(actions[n + 1] == client_action(
        tunnel_after_all(tunnel_open, events.take(n + 1)),
        events[n + 1],
    ));
}

/// From the first command of a connection to its last, the client has a tunnel stream.
proof fn lemma_tunnel_stays_open(
    tunnel_open: bool,
    chunks: Seq<Seq<u8>>,
    events: Seq<ClientEventView>,
    k: int,
)
    requires
        is_delivered(connection_commands(chunks), events),
        1 <= k <= chunks.len() + 1,
    ensures
        tunnel_after_all(tunnel_open, events.take(k)),
    decreases k,
{
    let commands = connection_commands(chunks);
    let before = tunnel_after_all(tunnel_open, events.take(k - 1));
    assert(events.take(k).drop_last() =~= events.take(k - 1));
    assert(command_message(commands[k - 1]) is Some);
    if k == 1 {
        assert(commands[0] == TunnelCommandView::Open);
        law_commands_are_understood(before, seq![]);
    } else {
        lemma_tunnel_stays_open(tunnel_open, chunks, events, k - 1);
        assert(commands[k - 1] == TunnelCommandView::Tx(chunks[k - 2]));
        law_commands_are_understood(before, chunks[k - 2]);
    }
}

/// What a client does about some events does not depend on what comes after them, and what it does
/// about those depends only on whether it has a tunnel stream then.
proof fn lemma_events_in_turn(
    tunnel_open: bool,
    first: Seq<ClientEventView>,
    second: Seq<ClientEventView>,
)
    ensures
        tunnel_after_all(tunnel_open, first + second) == tunnel_after_all(
            tunnel_after_all(tunnel_open, first),
            second,
        ),
        client_actions(tunnel_open, first + second) == client_actions(tunnel_open, first)
            + client_actions(tunnel_after_all(tunnel_open, first), second),
{
    lemma_tunnel_in_turn(tunnel_open, first, second);
    let events = first + second;
    let between = tunnel_after_all(tunnel_open, first);
    let expected = client_actions(tunnel_open, first) + client_actions(between, second);
    assert forall|i: int| 0 <= i < events.len() implies client_actions(tunnel_open, events)[i]
        == expected[i] by {
        if i < first.len() {
            assert(events.take(i) =~= first.take(i));
        } else {
            let j = i - first.len();
            assert(events.take(i) =~= first + second.take(j));
            lemma_tunnel_in_turn(tunnel_open, first, second.take(j));
        }
    }
    assert(client_actions(tunnel_open, events) =~= expected);
}

/// Whether a client has a tunnel stream in the end depends only on whether it has one in between.
proof fn lemma_tunnel_in_turn(
    tunnel_open: bool,
    first: Seq<ClientEventView>,
    second: Seq<ClientEventView>,
)
    ensures
        tunnel_after_all(tunnel_open, first + second) == tunnel_after_all(
            tunnel_after_all(tunnel_open, first),
            second,
        ),
    decreases second.len(),
{
    if second.len() == 0 {
        assert(first + second =~= first);
    } else {
        lemma_tunnel_in_turn(tunnel_open, first, second.drop_last());
        assert((first + second).drop_last() =~= first + second.drop_last());
    }
}

/// Tunnel connections that the server serves one after the other are relayed in turn: for each, the
/// client opens a tunnel stream of its own, writes the chunks of that connection to it, one by one
/// and in the same order, and closes it before the next one.
pub proof fn law_connections_are_relayed(
    tunnel_open: bool,
    connections: Seq<Seq<Seq<u8>>>,
    events: Seq<ClientEventView>,
)
    requires
        is_delivered(connections_commands(connections), events),
    ensures
        client_actions(tunnel_open, events) == connections_actions(tunnel_open, connections),
        tunnel_after_all(tunnel_open, events) == (tunnel_open && connections.len() == 0),
    decreases connections.len(),
{
    if connections.len() > 0 {
        let before = connections_commands(connections.drop_last());
        let first = events.take(before.len() as int);
        let second = events.skip(before.len() as int);
        lemma_delivered_in_turn(before, connection_commands(connections.last()), events);
        law_connections_are_relayed(tunnel_open, connections.drop_last(), first);
        let between = tunnel_after_all(tunnel_open, first);
        law_connection_is_relayed(between, connections.last(), second);
        lemma_events_in_turn(tunnel_open, first, second);
    }
}

/// The part of some commands that comes first is delivered with the part of the events that does,
/// and so is the rest.
proof fn lemma_delivered_in_turn(
    first: Seq<TunnelCommandView>,
    second: Seq<TunnelCommandView>,
    events: Seq<ClientEventView>,
)
    requires
        is_delivered(first + second, events),
    ensures
        is_delivered(first, events.take(first.len() as int)),
        is_delivered(second, events.skip(first.len() as int)),
        events == events.take(first.len() as int) + events.skip(first.len() as int),
{
    let commands = first + second;
    let n = first.len() as int;
    assert forall|i: int| 0 <= i < n implies command_message(#[trigger] first[i]) is Some
        && client_event(command_message(first[i])->0) == Some(events.take(n)[i]) by {
        assert(commands[i] == first[i]);
    }
    assert forall|i: int| 0 <= i < second.len() implies command_message(#[trigger] second[i]) is Some
        && client_event(command_message(second[i])->0) == Some(events.skip(n)[i]) by {
        assert(commands[n + i] == second[i]);
    }
    assert(events =~= events.take(n) + events.skip(n));
}

/// The client writes what came from a tunnel connection before the connection has ended.
proof fn lemma_opened_is_relayed(
    tunnel_open: bool,
    chunks: Seq<Seq<u8>>,
    events: Seq<ClientEventView>,
)
    requires
        is_delivered(opened_commands(chunks), events),
    ensures
        client_actions(tunnel_open, events) == opened_actions(tunnel_open, chunks),
{
    let last = client_event(command_message(TunnelCommandView::Close)->0)->0;
    let whole = events.push(last);
    let commands = connection_commands(chunks);
    assert forall|i: int| 0 <= i < commands.len() implies command_message(
        #[trigger] commands[i],
    ) is Some && client_event(command_message(commands[i])->0) == Some(whole[i]) by {
        if i < events.len() {
            assert(commands[i] == opened_commands(chunks)[i]);
        }
    }
    law_connection_is_relayed(tunnel_open, chunks, whole);
    lemma_events_in_turn(tunnel_open, events, seq![last]);
    assert(events + seq![last] =~= whole);
    let n = events.len() as int;
    assert(client_actions(tunnel_open, events) =~= client_actions(tunnel_open, whole).take(n));
    assert(opened_actions(tunnel_open, chunks) =~= connection_actions(tunnel_open, chunks).take(n));
}

/// Whatever the server's threads have done at some moment, the client that carries out what they
/// commanded so far serves the same connections in the same order: each from its start to its end,
/// and the one that has not ended, if there is one, as far as its bytes have come.
pub proof fn law_what_is_served_is_relayed(
    steps: Seq<ListenerEvent>,
    tunnel_open: bool,
    events: Seq<ClientEventView>,
)
    requires
        is_listener_run(steps),
        is_delivered(after_events(steps).sent, events),
    ensures
        exists|connections: Seq<Seq<Seq<u8>>>, current: Option<Seq<Seq<u8>>>|
            {
                &&& #[trigger] are_in_turn(after_events(steps).sent, connections, current)
                &&& current is Some <==> after_events(steps).reader is Reading
                &&& client_actions(tunnel_open, events) == connections_actions(
                    tunnel_open,
                    connections,
                ) + match current {
                    Some(chunks) => opened_actions(
                        tunnel_open && connections.len() == 0,
                        chunks,
                    ),
                    None => seq![],
                }
            },
{
    law_connections_are_served_in_turn(steps);
    let sent = after_events(steps).sent;
    let (connections, current) = choose|
        connections: Seq<Seq<Seq<u8>>>,
        current: Option<Seq<Seq<u8>>>,
    |
        {
            &&& #[trigger] are_in_turn(sent, connections, current)
            &&& current is Some <==> after_events(steps).reader is Reading
        };
    let ended = connections_commands(connections);
    match current {
        Some(chunks) => {
            lemma_delivered_in_turn(ended, opened_commands(chunks), events);
            let first = events.take(ended.len() as int);
            let second = events.skip(ended.len() as int);
            law_connections_are_relayed(tunnel_open, connections, first);
            lemma_opened_is_relayed(tunnel_after_all(tunnel_open, first), chunks, second);
            lemma_events_in_turn(tunnel_open, first, second);
        },
        None => {
            law_connections_are_relayed(tunnel_open, connections, events);
            assert(client_actions(tunnel_open, events) =~= connections_actions(
                tunnel_open,
                connections,
            ) + seq![]);
        },
    }
}

/// Bytes that arrive while the client has no tunnel stream, and text that is no command, change
/// nothing.
pub proof fn law_stray_messages_are_ignored(tunnel_open: bool, event: ClientEventView)
    requires
        event is Binary ==> !tunnel_open,
        event matches ClientEventView::Text(command) ==> command != OPEN_STREAM_COMMAND@ && command
            != CLOSE_STREAM_COMMAND@,
        event is Binary || event is Text,
    ensures
        client_action(tunnel_open, event) is Ignore || client_action(
            tunnel_open,
            event,
        ) is UnknownCommand,
        tunnel_after(tunnel_open, client_action(tunnel_open, event)) == tunnel_open,
{
}

/// Whether a server's session has this event when this message is sent to it.
pub open spec fn is_session_event<P>(
    message: (MessageType, Seq<u8>),
    event: SessionEvent<P>,
) -> bool {
    match message.0 {
        MessageType::Text => event is Text,
        MessageType::Binary => event matches SessionEvent::Binary(bytes) && bytes@ == message.1,
        MessageType::Ping => false,
    }
}

/// The bytes that the server writes to the tunnel connection on account of some events.
pub open spec fn written<P>(events: Seq<SessionEvent<P>>) -> Seq<Seq<u8>>
    decreases events.len(),
{
    if events.len() == 0 {
        seq![]
    } else {
        let before = written(events.drop_last());
        match session_action(events.last()) {
            SessionActionView::Forward(command) => match egres_action(command) {
                EgresActionView::Write(bytes) => before.push(bytes),
                _ => before,
            },
            _ => before,
        }
    }
}

/// The bytes that the client read from its tunnel stream, among all that it has to send.
pub open spec fn tunnel_chunks(payloads: Seq<EgresPayloadView>) -> Seq<Seq<u8>>
    decreases payloads.len(),
{
    if payloads.len() == 0 {
        seq![]
    } else {
        match payloads.last() {
            EgresPayloadView::TunnelBytes(bytes) => tunnel_chunks(payloads.drop_last()).push(bytes),
            EgresPayloadView::Ping => tunnel_chunks(payloads.drop_last()),
        }
    }
}

/// Whether a server's session has these events when the client sends all this, in order. Signs of
/// life reach no session.
pub open spec fn reaches_session<P>(
    payloads: Seq<EgresPayloadView>,
    events: Seq<SessionEvent<P>>,
) -> bool
    decreases payloads.len(),
{
    if payloads.len() == 0 {
        events.len() == 0
    } else {
        match payloads.last() {
            EgresPayloadView::Ping => reaches_session(payloads.drop_last(), events),
            EgresPayloadView::TunnelBytes(_) => {
                &&& events.len() > 0
                &&& is_session_event(payload_message(payloads.last()), events.last())
                &&& reaches_session(payloads.drop_last(), events.drop_last())
            },
        }
    }
}

/// The chunks of bytes that the client reads from its tunnel stream are written by the server, one
/// by one and in the same order, to the tunnel connection; signs of life in between make no
/// difference.
pub proof fn law_answers_are_relayed<P>(
    payloads: Seq<EgresPayloadView>,
    events: Seq<SessionEvent<P>>,
)
    requires
        reaches_session(payloads, events),
    ensures
        written(events) == tunnel_chunks(payloads),
    decreases payloads.len(),
{
    if payloads.len() > 0 {
        match payloads.last() {
            EgresPayloadView::Ping => {
                law_answers_are_relayed(payloads.drop_last(), events);
            },
            EgresPayloadView::TunnelBytes(_) => {
                law_answers_are_relayed(payloads.drop_last(), events.drop_last());
            },
        }
    }
}

/// The reader of a tunnel connection passes on bytes until there are no more. With its last step it
/// tells both ends: the client closes its tunnel stream, and the writer of the connection ends, so
/// that the next connection is accepted.
pub proof fn law_reader_ends_a_connection(bytes: Option<Seq<u8>>, tunnel_open: bool)
    ensures
        tunnel_read(bytes).done <==> bytes is None,
        tunnel_read(bytes).done <==> tunnel_read(bytes).egres is Some,
        tunnel_read(bytes).egres matches Some(command) ==> egres_action(command)
            == EgresActionView::Finish(true),
        tunnel_read(bytes).done ==> client_action(
            tunnel_open,
            client_event(command_message(tunnel_read(bytes).ingres)->0)->0,
        ) == (ClientActionView::CloseTunnel { shutdown: tunnel_open }),
{
    law_commands_are_understood(tunnel_open, seq![]);
}

/// A session never tells the writer of a tunnel connection that the connection has ended: that is
/// left to the reader of the connection.
pub proof fn law_session_announces_no_end<P>(event: SessionEvent<P>)
    ensures
        session_action(event) matches SessionActionView::Forward(command) ==> !(command is Close),
        session_action(event) matches SessionActionView::StopListener(command) ==> !(
        command is Close),
{
}

/// What a session tells its threads at its end does end them: the writer of the websocket sends
/// nothing more, and the tunnel connection is shut down and no further one accepted.
pub proof fn law_session_ends_its_threads<P>(event: SessionEvent<P>)
    ensures
        session_action(event) matches SessionActionView::StopWriter(command) ==> command_message(
            command,
        ) is None,
        session_action(event) matches SessionActionView::StopListener(command) ==> egres_action(
            command,
        ) == EgresActionView::ShutdownAndFinish(false),
{
}

/// A message reaches a client as what it is: text as that text, bytes as those bytes, and a ping not
/// at all.
pub proof fn law_messages_reach_the_client(message: (MessageType, Seq<u8>))
    ensures
        message.0 == MessageType::Text ==> client_event(message) == Some(
            ClientEventView::Text(decode_utf8(message.1)),
        ),
        forall|bytes: Seq<u8>|
            client_event(message) == Some(ClientEventView::Binary(bytes)) <==> message == (
                MessageType::Binary,
                bytes,
            ),
        client_event(message) is None <==> message.0 == MessageType::Ping,
{
}

/// Whatever the server's threads have commanded at some moment, it can reach the client: every
/// command has a message, and every message an effect.
pub proof fn law_what_is_served_reaches_the_client(steps: Seq<ListenerEvent>)
    requires
        is_listener_run(steps),
    ensures
        forall|i: int|
            0 <= i < after_events(steps).sent.len() ==> !((
            #[trigger] after_events(steps).sent[i]) is ClientDisconnected),
        exists|events: Seq<ClientEventView>| is_delivered(after_events(steps).sent, events),
{
    lemma_no_disconnect_is_sent(steps);
    law_commands_reach_the_client(after_events(steps).sent);
}

/// The server's threads never tell the writer of the websocket that the client is gone.
proof fn lemma_no_disconnect_is_sent(steps: Seq<ListenerEvent>)
    ensures
        forall|i: int|
            0 <= i < after_events(steps).sent.len() ==> !((
            #[trigger] after_events(steps).sent[i]) is ClientDisconnected),
    decreases steps.len(),
{
    if steps.len() > 0 {
        lemma_no_disconnect_is_sent(steps.drop_last());
    }
}

/// All commands but the end of the client can reach the client, in whatever order they come.
pub proof fn law_commands_reach_the_client(commands: Seq<TunnelCommandView>)
    requires
        forall|i: int| 0 <= i < commands.len() ==> !((#[trigger] commands[i]) is ClientDisconnected),
    ensures
        exists|events: Seq<ClientEventView>| is_delivered(commands, events),
{
    let events = Seq::new(
        commands.len(),
        |i: int| client_event(command_message(commands[i])->0)->0,
    );
    assert(is_delivered(commands, events));
}

/// The bytes of a tunnel connection arrive as they were read: the client opens a tunnel stream, then
/// writes for each read, in the order of the reads, just the bytes that the read left at the start of
/// its buffer, and closes the stream once a read brought no more.
pub proof fn law_bytes_arrive_as_they_were_read(
    tunnel_open: bool,
    reads: Seq<(Seq<u8>, usize)>,
    last: (Seq<u8>, ReadOutcome),
    commands: Seq<TunnelCommandView>,
    events: Seq<ClientEventView>,
)
    requires
        forall|i: int|
            0 <= i < reads.len() ==> 0 < (#[trigger] reads[i]).1 <= reads[i].0.len(),
        last.1 is Failed || last.1 == ReadOutcome::Read(0),
        commands.len() == reads.len() + 2,
        commands[0] is Open,
        forall|i: int|
            0 <= i < reads.len() ==> #[trigger] commands[i + 1] == tunnel_read(
                chunk(reads[i].0, ReadOutcome::Read(reads[i].1)),
            ).ingres,
        commands[reads.len() as int + 1] == tunnel_read(chunk(last.0, last.1)).ingres,
        is_delivered(commands, events),
    ensures
        client_actions(tunnel_open, events).len() == reads.len() + 2,
        client_actions(tunnel_open, events)[0] == (ClientActionView::OpenTunnel {
            shutdown: tunnel_open,
        }),
        forall|i: int|
            0 <= i < reads.len() ==> #[trigger] client_actions(tunnel_open, events)[i + 1]
                == ClientActionView::WriteTunnel(reads[i].0.take(reads[i].1 as int)),
        client_actions(tunnel_open, events)[reads.len() as int + 1] == (ClientActionView::CloseTunnel {
            shutdown: true,
        }),
        !tunnel_after_all(tunnel_open, events),
{
    let chunks = Seq::new(reads.len(), |i: int| reads[i].0.take(reads[i].1 as int));
    let n = reads.len() as int;
    let whole = connection_commands(chunks);
    assert forall|i: int| 0 <= i < commands.len() implies commands[i] == whole[i] by {
        if 0 < i <= n {
            let (buf, len) = reads[i - 1];
            law_chunk_is_what_was_read(buf, ReadOutcome::Read(len));
            assert(commands[(i - 1) + 1] == tunnel_read(chunk(buf, ReadOutcome::Read(len))).ingres);
            let bytes = chunk(buf, ReadOutcome::Read(len))->0;
            assert(bytes.len() == len && bytes + buf.skip(len as int) == buf);
            assert(bytes =~= buf.take(len as int));
            assert(chunks[i - 1] == bytes);
        }
    }
    assert(commands =~= whole);
    law_connection_is_relayed(tunnel_open, chunks, events);
    assert forall|i: int| 0 <= i < n implies #[trigger] client_actions(tunnel_open, events)[i + 1]
        == ClientActionView::WriteTunnel(reads[i].0.take(reads[i].1 as int)) by {
        assert(client_actions(tunnel_open, events)[i + 1] == ClientActionView::WriteTunnel(
            chunks[i],
        ));
    }
}

/// What the server writes to a tunnel connection is the bytes of the messages that its session
/// received, one by one and in the same order, and nothing else.
pub proof fn law_session_writes_the_bytes_it_received<P>(events: Seq<SessionEvent<P>>)
    ensures
        written(events) == events.filter(|event: SessionEvent<P>| event is Binary).map_values(
            |event: SessionEvent<P>| event->Binary_0@,
        ),
    decreases events.len(),
{
    reveal(Seq::filter);
    let is_binary = |event: SessionEvent<P>| event is Binary;
    let bytes_of = |event: SessionEvent<P>| event->Binary_0@;
    if events.len() > 0 {
        let before = events.drop_last();
        law_session_writes_the_bytes_it_received(before);
        if is_binary(events.last()) {
            assert(events.filter(is_binary) == before.filter(is_binary).push(events.last()));
        } else {
            assert(events.filter(is_binary) == before.filter(is_binary));
        }
    }
    assert(written(events) =~= events.filter(is_binary).map_values(bytes_of));
}

/// Whatever the client has to send can reach the server's session, and what the server then writes to
/// the tunnel connection is just the bytes that came from the tunnel stream, one by one and in the
/// same order, however many they are.
pub proof fn law_what_the_client_sends_is_written<P>(
    payloads: Seq<EgresPayload>,
    views: Seq<EgresPayloadView>,
)
    requires
        views.len() == payloads.len(),
        forall|i: int| 0 <= i < payloads.len() ==> #[trigger] views[i] == payloads[i]@,
    ensures
        exists|events: Seq<SessionEvent<P>>|
            {
                &&& #[trigger] reaches_session(views, events)
                &&& written(events) == payloads.filter(
                    |p: EgresPayload| p is TunnelBytes,
                ).map_values(|p: EgresPayload| p->TunnelBytes_0@)
            },
    decreases payloads.len(),
{
    reveal(Seq::filter);
    let has_bytes = |p: EgresPayload| p is TunnelBytes;
    let bytes_of = |p: EgresPayload| p->TunnelBytes_0@;
    if payloads.len() == 0 {
        let events = Seq::<SessionEvent<P>>::empty();
        assert(reaches_session(views, events));
        assert(written(events) =~= payloads.filter(has_bytes).map_values(bytes_of));
    } else {
        let before = payloads.drop_last();
        law_what_the_client_sends_is_written::<P>(before, views.drop_last());
        let events = choose|events: Seq<SessionEvent<P>>|
            {
                &&& #[trigger] reaches_session(views.drop_last(), events)
                &&& written(events) == before.filter(has_bytes).map_values(bytes_of)
            };
        assert(views.last() == payloads.last()@);
        match payloads.last() {
            EgresPayload::Ping => {
                assert(reaches_session(views, events));
                assert(payloads.filter(has_bytes) == before.filter(has_bytes));
            },
            EgresPayload::TunnelBytes(bytes) => {
                law_bytes_are_sent_as_bytes(views.last());
                let all = events.push(SessionEvent::Binary(bytes));
                assert(all.drop_last() =~= events);
                assert(is_session_event(payload_message(views.last()), all.last()));
                assert(reaches_session(views, all));
                assert(payloads.filter(has_bytes) == before.filter(has_bytes).push(
                    payloads.last(),
                ));
                assert(written(all) =~= payloads.filter(has_bytes).map_values(bytes_of));
            },
        }
    }
}

/// A message of bytes, and no other, is what a session takes for those bytes; a ping reaches none.
pub proof fn law_bytes_reach_the_session<P>(message: (MessageType, Seq<u8>), event: SessionEvent<P>)
    ensures
        event matches SessionEvent::Binary(bytes) ==> (is_session_event(message, event) <==> message
            == (MessageType::Binary, bytes@)),
        event is Text ==> (is_session_event(message, event) <==> message.0 == MessageType::Text),
        is_session_event(message, event) ==> event is Binary || event is Text,
{
}

} // verus!
