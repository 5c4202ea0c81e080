//! The server's side of an open websocket: what it does with each message, and how it ends.

use crate::error::ServerError;
use crate::{EgresCommand, EgresCommandView, TunnelCommand, TunnelCommandView};
use vstd::prelude::*;

verus! {

/// The size of each of the two buffers in which a session builds its answers and keeps a message.
pub const SESSION_BUF_LEN: usize = 4096;

/// How a thread ended: with its own result, or with what its panic left behind.
pub type Joined<P> = Result<Result<(), ServerError<P>>, P>;

/// How far a session has come.
#[derive(Debug)]
pub enum SessionPhase<P> {
    /// Messages are read from the websocket.
    Reading,
    /// The thread that writes to the websocket was told to end.
    StoppingWriter,
    /// That thread has ended like this, and the one that accepts tunnel connections was told to.
    StoppingListener(Joined<P>),
    /// The session is over.
    Closed(Result<(), ServerError<P>>),
}

/// What happened to a session.
#[derive(Debug)]
pub enum SessionEvent<P> {
    /// A message of bytes came from the websocket.
    Binary(Vec<u8>),
    /// A text message came from the websocket.
    Text,
    /// The answer to a ping came from the websocket.
    Pong,
    /// The client closed the websocket.
    Closed,
    /// The websocket could not be read.
    ReadFailed,
    /// The bytes of a message could not be passed on.
    ForwardFailed,
    /// The thread that writes to the websocket ended.
    WriterJoined(Joined<P>),
    /// The thread that accepts tunnel connections ended.
    ListenerJoined(Joined<P>),
}

/// What a session does next.
#[derive(Debug, PartialEq, Eq)]
pub enum SessionAction {
    /// Pass this on to the tunnel connection, and read on unless that fails.
    Forward(EgresCommand),
    /// Read on.
    ReadOn,
    /// Tell this to the thread that writes to the websocket, and wait for its end.
    StopWriter(TunnelCommand),
    /// Tell this to the thread that accepts tunnel connections, and wait for its end.
    StopListener(EgresCommand),
    /// Nothing.
    Done,
}

/// What a session does next, over sequences.
pub enum SessionActionView {
    Forward(EgresCommandView),
    ReadOn,
    StopWriter(TunnelCommandView),
    StopListener(EgresCommandView),
    Done,
}

impl View for SessionAction {
    type V = SessionActionView;

    open spec fn view(&self) -> SessionActionView {
        match self {
            SessionAction::Forward(command) => SessionActionView::Forward(command@),
            SessionAction::ReadOn => SessionActionView::ReadOn,
            SessionAction::StopWriter(command) => SessionActionView::StopWriter(command@),
            SessionAction::StopListener(command) => SessionActionView::StopListener(command@),
            SessionAction::Done => SessionActionView::Done,
        }
    }
}

/// Whether an event can happen in a phase.
pub open spec fn is_expected<P>(phase: SessionPhase<P>, event: SessionEvent<P>) -> bool {
    match phase {
        SessionPhase::Reading => !(event is WriterJoined) && !(event is ListenerJoined),
        SessionPhase::StoppingWriter => event is WriterJoined,
        SessionPhase::StoppingListener(_) => event is ListenerJoined,
        SessionPhase::Closed(_) => false,
    }
}

/// The result of a session whose two threads ended like this: the writer's error goes first, and
/// for each thread a panic goes before its own result.
pub open spec fn session_result<P>(writer: Joined<P>, listener: Joined<P>) -> Result<
    (),
    ServerError<P>,
> {
    match writer {
        Err(panic) => Err(ServerError::WriteThread(panic)),
        Ok(Err(error)) => Err(error),
        Ok(Ok(())) => match listener {
            Err(panic) => Err(ServerError::AcceptConnectionThread(panic)),
            Ok(result) => result,
        },
    }
}

/// The next phase of a session.
pub open spec fn next_phase<P>(phase: SessionPhase<P>, event: SessionEvent<P>) -> SessionPhase<P> {
    match event {
        SessionEvent::Binary(_) | SessionEvent::Text | SessionEvent::Pong => phase,
        SessionEvent::Closed | SessionEvent::ReadFailed | SessionEvent::ForwardFailed =>
            SessionPhase::StoppingWriter,
        SessionEvent::WriterJoined(writer) => SessionPhase::StoppingListener(writer),
        SessionEvent::ListenerJoined(listener) => match phase {
            SessionPhase::StoppingListener(writer) => SessionPhase::Closed(
                session_result(writer, listener),
            ),
            _ => phase,
        },
    }
}

/// What a session does about an event.
pub open spec fn session_action<P>(event: SessionEvent<P>) -> SessionActionView {
    match event {
        SessionEvent::Binary(bytes) => SessionActionView::Forward(EgresCommandView::Bytes(bytes@)),
        SessionEvent::Text | SessionEvent::Pong => SessionActionView::ReadOn,
        SessionEvent::Closed | SessionEvent::ReadFailed | SessionEvent::ForwardFailed =>
            SessionActionView::StopWriter(TunnelCommandView::ClientDisconnected),
        SessionEvent::WriterJoined(_) => SessionActionView::StopListener(
            EgresCommandView::WebsocketClosed,
        ),
        SessionEvent::ListenerJoined(_) => SessionActionView::Done,
    }
}

/// One step of a session: the next phase, and what to do.
pub fn handle_client_step<P>(phase: SessionPhase<P>, event: SessionEvent<P>) -> (r: (
    SessionPhase<P>,
    SessionAction,
))
    requires
        is_expected(phase, event),
    ensures
        r.0 == next_phase(phase, event),
        r.1@ == session_action(event),
        match event {
            SessionEvent::Binary(bytes) => r.0 == phase && r.1 == SessionAction::Forward(
                EgresCommand::Bytes(bytes),
            ),
            SessionEvent::Text | SessionEvent::Pong => r.0 == phase && r.1 is ReadOn,
            SessionEvent::Closed | SessionEvent::ReadFailed | SessionEvent::ForwardFailed => {
                &&& r.0 is StoppingWriter
                &&& r.1 == SessionAction::StopWriter(TunnelCommand::ClientDisconnected)
            },
            SessionEvent::WriterJoined(writer) => {
                &&& r.0 == SessionPhase::StoppingListener(writer)
                &&& r.1 == SessionAction::StopListener(EgresCommand::WebsocketClosed)
            },
            SessionEvent::ListenerJoined(_) => r.0 is Closed && r.1 is Done,
        },
{
    match event {
        SessionEvent::Binary(bytes) => (
            phase,
            SessionAction::Forward(EgresCommand::Bytes(bytes)),
        ),
        SessionEvent::Text => (phase, SessionAction::ReadOn),
        SessionEvent::Pong => (phase, SessionAction::ReadOn),
        SessionEvent::Closed | SessionEvent::ReadFailed | SessionEvent::ForwardFailed => (
            SessionPhase::StoppingWriter,
            SessionAction::StopWriter(TunnelCommand::ClientDisconnected),
        ),
        SessionEvent::WriterJoined(writer) => (
            SessionPhase::StoppingListener(writer),
            SessionAction::StopListener(EgresCommand::WebsocketClosed),
        ),
        SessionEvent::ListenerJoined(listener) => match phase {
            SessionPhase::StoppingListener(writer) => (
                SessionPhase::Closed(join_results(writer, listener)),
                SessionAction::Done,
            ),
            _ => (phase, SessionAction::Done),
        },
    }
}

/// The result of a session, from how its two threads ended.
pub fn join_results<P>(writer: Joined<P>, listener: Joined<P>) -> (r: Result<(), ServerError<P>>)
    ensures
        r == session_result(writer, listener),
{
    match writer {
        Err(panic) => Err(ServerError::WriteThread(panic)),
        Ok(Err(error)) => Err(error),
        Ok(Ok(())) => match listener {
            Err(panic) => Err(ServerError::AcceptConnectionThread(panic)),
            Ok(result) => result,
        },
    }
}

/// A session does nothing more exactly once it is over, and it is over only once both threads were
/// told to end and have ended: after the client is gone, in whatever way, the writer is told that the
/// client disconnected; after the writer has ended, in whatever way, the listener is told that the
/// websocket is closed; and each is waited for.
pub proof fn law_session_stops_both_threads<P>(phase: SessionPhase<P>, event: SessionEvent<P>)
    requires
        is_expected(phase, event),
    ensures
        session_action(event) is Done <==> next_phase(phase, event) is Closed,
        next_phase(phase, event) is Closed <==> phase is StoppingListener,
        session_action(event) == SessionActionView::StopListener(EgresCommandView::WebsocketClosed)
            <==> phase is StoppingWriter,
        phase is StoppingWriter <==> next_phase(phase, event) is StoppingListener,
        session_action(event) == SessionActionView::StopWriter(TunnelCommandView::ClientDisconnected)
            <==> next_phase(phase, event) is StoppingWriter,
        next_phase(phase, event) is StoppingWriter <==> event is Closed || event is ReadFailed
            || event is ForwardFailed,
        session_action(event) is StopWriter || session_action(event) is StopListener
            || session_action(event) is Done <==> !is_message(event),
{
}

/// However the writer ended, the listener is told that the websocket is closed, and how the writer
/// ended is kept for the result of the session.
pub proof fn law_listener_is_stopped_whatever_the_writer_did<P>(writer: Joined<P>)
    ensures
        session_action(SessionEvent::WriterJoined(writer)) == SessionActionView::StopListener(
            EgresCommandView::WebsocketClosed,
        ),
        next_phase(SessionPhase::StoppingWriter, SessionEvent::WriterJoined(writer))
            == SessionPhase::StoppingListener(writer),
{
}

/// While it reads, a session waits for the next message after every message, and bytes are the only
/// messages that it passes on; it can be told of nothing but what it waits for.
pub proof fn law_session_reads_on<P>(phase: SessionPhase<P>, event: SessionEvent<P>)
    ensures
        phase is Reading && is_message(event) ==> is_expected(phase, event) && next_phase(
            phase,
            event,
        ) == phase,
        phase is Reading && (event is Closed || event is ReadFailed || event is ForwardFailed)
            ==> is_expected(phase, event),
        is_expected(phase, event) && event is WriterJoined <==> phase is StoppingWriter
            && event is WriterJoined,
        is_expected(phase, event) && event is ListenerJoined <==> phase is StoppingListener
            && event is ListenerJoined,
        is_message(event) <==> event is Binary || event is Text || event is Pong,
        session_action(event) is ReadOn <==> event is Text || event is Pong,
{
}

/// A session succeeds exactly if both of its threads did. It fails with the panic of the writer if
/// the writer panicked, with the error of the writer if that failed, and only then with the panic or
/// the error of the listener.
pub proof fn law_session_result_has_its_cause<P>(writer: Joined<P>, listener: Joined<P>)
    ensures
        session_result(writer, listener) is Ok <==> (writer matches Ok(Ok(_)) && listener matches Ok(
            Ok(_),
        )),
        writer matches Err(panic) ==> session_result(writer, listener) == Err::<(), _>(
            ServerError::WriteThread(panic),
        ),
        writer matches Ok(Err(error)) ==> session_result(writer, listener) == Err::<(), _>(error),
        writer matches Ok(Ok(_)) ==> (listener matches Err(panic) ==> session_result(
            writer,
            listener,
        ) == Err::<(), _>(ServerError::AcceptConnectionThread(panic))),
        writer matches Ok(Ok(_)) ==> (listener matches Ok(Err(error)) ==> session_result(
            writer,
            listener,
        ) == Err::<(), _>(error)),
{
}

/// Whether an event is a message of the client, after which the session reads on.
pub open spec fn is_message<P>(event: SessionEvent<P>) -> bool {
    event is Binary || event is Text || event is Pong
}

/// The phase of a session after some events.
pub open spec fn phase_after<P>(events: Seq<SessionEvent<P>>) -> SessionPhase<P>
    decreases events.len(),
{
    if events.len() == 0 {
        SessionPhase::Reading
    } else {
        next_phase(phase_after(events.drop_last()), events.last())
    }
}

/// Whether some events can happen to a session, in this order.
pub open spec fn is_run<P>(events: Seq<SessionEvent<P>>) -> bool
    decreases events.len(),
{
    events.len() == 0 || (is_run(events.drop_last()) && is_expected(
        phase_after(events.drop_last()),
        events.last(),
    ))
}

/// How a session comes to its phase: it reads messages until the first event that is none; then
/// the writer ends, and only then the listener. The result is that of the two threads, and nothing
/// happens after it.
pub proof fn law_session_ends_in_order<P>(events: Seq<SessionEvent<P>>)
    requires
        is_run(events),
    ensures
        match phase_after(events) {
            SessionPhase::Reading => forall|i: int|
                0 <= i < events.len() ==> is_message(#[trigger] events[i]),
            SessionPhase::StoppingWriter => {
                let n = events.len() - 1;
                &&& n >= 0
                &&& forall|i: int| 0 <= i < n ==> is_message(#[trigger] events[i])
                &&& !is_message(events[n])
            },
            SessionPhase::StoppingListener(writer) => {
                let n = events.len() - 2;
                &&& n >= 0
                &&& forall|i: int| 0 <= i < n ==> is_message(#[trigger] events[i])
                &&& !is_message(events[n])
                &&& events[n + 1] == SessionEvent::WriterJoined(writer)
            },
            SessionPhase::Closed(result) => {
                let n = events.len() - 3;
                &&& n >= 0
                &&& forall|i: int| 0 <= i < n ==> is_message(#[trigger] events[i])
                &&& !is_message(events[n])
                &&& events[n + 1] matches SessionEvent::WriterJoined(writer)
                &&& events[n + 2] matches SessionEvent::ListenerJoined(listener)
                &&& result == session_result(writer, listener)
            },
        },
    decreases events.len(),
{
    if events.len() > 0 {
        let before = events.drop_last();
        law_session_ends_in_order(before);
        assert forall|i: int| 0 <= i < before.len() implies before[i] == #[trigger] events[i] by {}
    }
}

/// A session passes on every message of bytes that the client sends while it reads, as it was
/// sent, and passes on nothing else.
pub proof fn law_session_forwards_bytes<P>(event: SessionEvent<P>)
    ensures
        forall|command: EgresCommandView|
            session_action(event) == SessionActionView::Forward(command) <==> (event matches
                SessionEvent::Binary(bytes) && command == EgresCommandView::Bytes(bytes@)),
{
}

/// A session keeps a message of up to 4096 bytes.
pub proof fn law_session_settings()
    ensures
        SESSION_BUF_LEN == 4096,
{
}

/// What a session does about an event, and how far it is then: it passes on bytes and waits for the
/// next message; once the client is gone it stops the writer; once the writer has ended, however, it
/// stops the listener; and once the listener has ended, and only then, it is over, with the result of
/// the two.
pub proof fn law_session_ends_step_by_step<P>(
    phase: SessionPhase<P>,
    event: SessionEvent<P>,
    r: (SessionPhase<P>, SessionAction),
)
    requires
        is_expected(phase, event),
        call_ensures(handle_client_step::<P>, (phase, event), r),
    ensures
        r.1 is Done <==> r.0 is Closed,
        r.0 is Closed <==> event is ListenerJoined,
        r.1 == SessionAction::StopListener(EgresCommand::WebsocketClosed) <==> event is WriterJoined,
        forall|writer: Joined<P>|
            r.0 == SessionPhase::StoppingListener(writer) <==> event == SessionEvent::WriterJoined(
                writer,
            ),
        r.1 == SessionAction::StopWriter(TunnelCommand::ClientDisconnected) <==> event is Closed
            || event is ReadFailed || event is ForwardFailed,
        r.0 is StoppingWriter <==> event is Closed || event is ReadFailed || event is ForwardFailed,
        forall|bytes: Vec<u8>|
            r.1 == SessionAction::Forward(EgresCommand::Bytes(bytes)) <==> event
                == SessionEvent::<P>::Binary(bytes),
        r.1 is ReadOn <==> event is Text || event is Pong,
        r.0 is Reading <==> event is Binary || event is Text || event is Pong,
        phase matches SessionPhase::StoppingListener(writer) ==> (event matches
            SessionEvent::ListenerJoined(listener) ==> (r.0 matches SessionPhase::Closed(result)
            && (result is Ok <==> (writer matches Ok(Ok(_)) && listener matches Ok(Ok(_)))))),
{
    law_session_stops_both_threads(phase, event);
}

/// The result of a session is a success exactly if both threads succeeded, and otherwise the panic
/// or the error of the writer before that of the listener.
pub proof fn law_joined_results_keep_the_cause<P>(
    writer: Joined<P>,
    listener: Joined<P>,
    r: Result<(), ServerError<P>>,
)
    requires
        call_ensures(join_results::<P>, (writer, listener), r),
    ensures
        r is Ok <==> (writer matches Ok(Ok(_)) && listener matches Ok(Ok(_))),
        writer matches Err(panic) ==> r == Err::<(), _>(ServerError::WriteThread(panic)),
        writer matches Ok(Err(error)) ==> r == Err::<(), _>(error),
        writer matches Ok(Ok(_)) ==> (listener matches Err(panic) ==> r == Err::<(), _>(
            ServerError::AcceptConnectionThread(panic),
        )),
        writer matches Ok(Ok(_)) ==> (listener matches Ok(Err(error)) ==> r == Err::<(), _>(error)),
{
}

} // verus!
