//! How the server serves tunnel connections: one after the other, each from its first command to its
//! last.
//!
//! Three threads take part. One accepts a connection and then writes to it what it is told, until it
//! is told to end; one reads from that connection; and one, the session, passes on what the client
//! sends. A `Listener` is what they have done between them at some moment, in whatever order their
//! steps came.

use crate::tunnel::{
    accept_result, tunnel_read, writer_action, AcceptOutcome, EgresActionView, EgresEventView,
};
use crate::{EgresCommandView, TunnelCommandView};
use vstd::prelude::*;

verus! {

/// What the server tells the writer of its websocket from the start of a tunnel connection, while it
/// reads these chunks of bytes from it.
pub open spec fn opened_commands(chunks: Seq<Seq<u8>>) -> Seq<TunnelCommandView> {
    seq![TunnelCommandView::Open] + chunks.map_values(
        |bytes: Seq<u8>| tunnel_read(Some(bytes)).ingres,
    )
}

/// What the server tells the writer of its websocket in the course of one tunnel connection, from
/// which it read these chunks of bytes.
pub open spec fn connection_commands(chunks: Seq<Seq<u8>>) -> Seq<TunnelCommandView> {
    opened_commands(chunks) + seq![tunnel_read(None).ingres]
}

/// What the server tells the writer of its websocket in the course of several tunnel connections,
/// one after the other.
pub open spec fn connections_commands(connections: Seq<Seq<Seq<u8>>>) -> Seq<TunnelCommandView>
    decreases connections.len(),
{
    if connections.len() == 0 {
        seq![]
    } else {
        connections_commands(connections.drop_last()) + connection_commands(connections.last())
    }
}

/// Whether some commands are those of whole tunnel connections, one after the other, and then those
/// of a connection that has not ended, if there is one.
pub open spec fn are_in_turn(
    commands: Seq<TunnelCommandView>,
    connections: Seq<Seq<Seq<u8>>>,
    current: Option<Seq<Seq<u8>>>,
) -> bool {
    commands == connections_commands(connections) + match current {
        Some(chunks) => opened_commands(chunks),
        None => seq![],
    }
}

/// How far the thread is that accepts tunnel connections.
pub enum ListenerPhase {
    /// It waits for a connection.
    Accepting,
    /// It writes to a connection what it is told.
    Serving,
    /// It has ended.
    Stopped,
}

/// How far the reader of the latest tunnel connection is.
pub enum ReaderPhase {
    /// It waits for bytes.
    Reading,
    /// It has told the writer of the websocket, and is about to tell this to the writer of the
    /// connection; it ends after that if `done` is set.
    Telling { command: EgresCommandView, done: bool },
    /// It has ended, or there was no connection yet.
    Ended,
}

/// The threads that serve tunnel connections, at some moment.
pub struct Listener {
    /// How far the thread is that accepts connections.
    pub phase: ListenerPhase,
    /// How far the reader of the latest connection is.
    pub reader: ReaderPhase,
    /// What the writer of the websocket was told so far.
    pub sent: Seq<TunnelCommandView>,
    /// What the writer of the connection was told and has not received yet.
    pub queue: Seq<EgresCommandView>,
}

/// A step of one of the threads.
pub enum ListenerEvent {
    /// A connection was accepted.
    Accepted,
    /// No connection could be accepted, for this reason.
    AcceptFailed(std::io::Error),
    /// The reader read these bytes, or came to the end of the connection.
    Read(Option<Seq<u8>>),
    /// The reader told the writer of the connection what it was about to.
    Told,
    /// The session told the writer of the connection something.
    Forwarded(EgresCommandView),
    /// The writer of the connection received the next command; where that is to write some bytes,
    /// the write failed if this is set.
    Received { write_failed: bool },
    /// The writer of the connection found that nobody can tell it anything any more.
    Disconnected,
}

/// The threads before the first connection.
pub open spec fn no_connection_yet() -> Listener {
    Listener {
        phase: ListenerPhase::Accepting,
        reader: ReaderPhase::Ended,
        sent: seq![],
        queue: seq![],
    }
}

/// Whether a step can come next. The session never announces the end of a connection; that is left
/// to its reader.
pub open spec fn can_happen(listener: Listener, event: ListenerEvent) -> bool {
    match event {
        ListenerEvent::Accepted | ListenerEvent::AcceptFailed(_) => listener.phase is Accepting,
        ListenerEvent::Read(_) => listener.reader is Reading,
        ListenerEvent::Told => listener.reader is Telling,
        ListenerEvent::Forwarded(command) => !(command is Close),
        ListenerEvent::Received { .. } => listener.phase is Serving && listener.queue.len() > 0,
        ListenerEvent::Disconnected => listener.phase is Serving,
    }
}

/// How far the accepting thread is once the attempt to accept a connection, and to serve it, came to
/// this.
pub open spec fn phase_after_outcome(outcome: AcceptOutcome<()>) -> ListenerPhase {
    if accept_result(outcome) is None {
        ListenerPhase::Accepting
    } else {
        ListenerPhase::Stopped
    }
}

/// How far the accepting thread is once the writer of a connection did this. A connection whose
/// shutdown failed ends like one that was shut down: either way the next one is not accepted.
pub open spec fn phase_after_action(action: EgresActionView) -> ListenerPhase {
    match action {
        EgresActionView::Write(_) => ListenerPhase::Serving,
        EgresActionView::ShutdownAndFinish(accept) | EgresActionView::Finish(accept) =>
            phase_after_outcome(AcceptOutcome::Handled(Ok(accept))),
    }
}

/// The threads after a step.
pub open spec fn after_event(listener: Listener, event: ListenerEvent) -> Listener {
    match event {
        ListenerEvent::Accepted => Listener {
            phase: ListenerPhase::Serving,
            reader: ReaderPhase::Reading,
            sent: listener.sent.push(TunnelCommandView::Open),
            ..listener
        },
        ListenerEvent::AcceptFailed(error) => Listener {
            phase: phase_after_outcome(AcceptOutcome::Failed(error)),
            ..listener
        },
        ListenerEvent::Read(bytes) => {
            let read = tunnel_read(bytes);
            Listener {
                reader: match read.egres {
                    Some(command) => ReaderPhase::Telling { command, done: read.done },
                    None => if read.done {
                        ReaderPhase::Ended
                    } else {
                        ReaderPhase::Reading
                    },
                },
                sent: listener.sent.push(read.ingres),
                ..listener
            }
        },
        ListenerEvent::Told => match listener.reader {
            ReaderPhase::Telling { command, done } => Listener {
                reader: if done {
                    ReaderPhase::Ended
                } else {
                    ReaderPhase::Reading
                },
                queue: listener.queue.push(command),
                ..listener
            },
            _ => listener,
        },
        ListenerEvent::Forwarded(command) => Listener {
            queue: listener.queue.push(command),
            ..listener
        },
        ListenerEvent::Received { write_failed } => {
            let action = writer_action(EgresEventView::Command(listener.queue[0]));
            Listener {
                phase: if write_failed && action is Write {
                    phase_after_action(writer_action(EgresEventView::WriteFailed))
                } else {
                    phase_after_action(action)
                },
                queue: listener.queue.skip(1),
                ..listener
            }
        },
        ListenerEvent::Disconnected => Listener {
            phase: phase_after_action(writer_action(EgresEventView::Disconnected)),
            ..listener
        },
    }
}

/// The threads after some steps.
pub open spec fn after_events(events: Seq<ListenerEvent>) -> Listener
    decreases events.len(),
{
    if events.len() == 0 {
        no_connection_yet()
    } else {
        after_event(after_events(events.drop_last()), events.last())
    }
}

/// Whether some steps can come in this order.
pub open spec fn is_listener_run(events: Seq<ListenerEvent>) -> bool
    decreases events.len(),
{
    events.len() == 0 || (is_listener_run(events.drop_last()) && can_happen(
        after_events(events.drop_last()),
        events.last(),
    ))
}

/// Whether the end of a connection is waiting to be received.
spec fn has_close(queue: Seq<EgresCommandView>) -> bool {
    exists|i: int| 0 <= i < queue.len() && (#[trigger] queue[i]) is Close
}

/// What holds of the threads at every moment: the end of the connection that is served is announced
/// once, by its reader, after everything else that the reader passes on.
spec fn is_orderly(listener: Listener) -> bool {
    &&& listener.phase is Accepting ==> listener.reader is Ended && !has_close(listener.queue)
    &&& listener.phase is Serving && !(listener.reader is Ended) ==> !has_close(listener.queue)
    &&& listener.phase is Serving ==> forall|i: int, j: int|
        0 <= i < j < listener.queue.len() ==> !((#[trigger] listener.queue[i]) is Close && (
        #[trigger] listener.queue[j]) is Close)
    &&& listener.reader matches ReaderPhase::Telling { command, done } ==> command is Close && done
}

/// Tunnel connections are served one at a time: at every moment, what the writer of the websocket was
/// told so far is, for each connection in turn, that it was opened, its bytes, and that it was
/// closed; only the last connection may be without its end. The next connection is opened only after
/// that.
pub proof fn law_connections_are_served_in_turn(events: Seq<ListenerEvent>)
    requires
        is_listener_run(events),
    ensures
        exists|connections: Seq<Seq<Seq<u8>>>, current: Option<Seq<Seq<u8>>>|
            {
                &&& #[trigger] are_in_turn(after_events(events).sent, connections, current)
                &&& current is Some <==> after_events(events).reader is Reading
            },
        after_events(events).phase is Accepting ==> after_events(events).reader is Ended,
{
    lemma_is_orderly(events);
}

/// The threads are orderly at every moment.
proof fn lemma_is_orderly(events: Seq<ListenerEvent>)
    requires
        is_listener_run(events),
    ensures
        is_orderly(after_events(events)),
        exists|connections: Seq<Seq<Seq<u8>>>, current: Option<Seq<Seq<u8>>>|
            {
                &&& #[trigger] are_in_turn(after_events(events).sent, connections, current)
                &&& current is Some <==> after_events(events).reader is Reading
            },
    decreases events.len(),
{
    let none: Option<Seq<Seq<u8>>> = None;
    if events.len() == 0 {
        assert(are_in_turn(after_events(events).sent, seq![], none));
    } else {
        lemma_is_orderly(events.drop_last());
        let before = after_events(events.drop_last());
        let after = after_events(events);
        let (connections, current) = choose|
            connections: Seq<Seq<Seq<u8>>>,
            current: Option<Seq<Seq<u8>>>,
        |
            {
                &&& #[trigger] are_in_turn(before.sent, connections, current)
                &&& current is Some <==> before.reader is Reading
            };
        lemma_step_is_orderly(before, events.last());
        match events.last() {
            ListenerEvent::Accepted => {
                assert(after.sent =~= connections_commands(connections) + opened_commands(seq![]));
                assert(are_in_turn(after.sent, connections, Some(seq![])));
            },
            ListenerEvent::Read(Some(bytes)) => {
                let chunks = current->0;
                assert(opened_commands(chunks.push(bytes)) =~= opened_commands(chunks).push(
                    TunnelCommandView::Tx(bytes),
                ));
                assert(are_in_turn(after.sent, connections, Some(chunks.push(bytes))));
            },
            ListenerEvent::Read(None) => {
                let chunks = current->0;
                let ended = connections.push(chunks);
                assert(ended.drop_last() =~= connections);
                assert(after.sent =~= connections_commands(ended) + seq![]);
                assert(are_in_turn(after.sent, ended, none));
            },
            _ => {
                assert(are_in_turn(after.sent, connections, current));
            },
        }
    }
}

/// A step keeps the threads orderly.
proof fn lemma_step_is_orderly(listener: Listener, event: ListenerEvent)
    requires
        is_orderly(listener),
        can_happen(listener, event),
    ensures
        is_orderly(after_event(listener, event)),
{
}

} // verus!
