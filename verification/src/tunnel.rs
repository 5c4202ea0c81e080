//! The server's side of a tunnel connection: reading from it, writing to it, and accepting the
//! next one.

use crate::error::ServerError;
use crate::{EgresCommand, EgresCommandView, TunnelCommand, TunnelCommandView};
use vstd::prelude::*;
use vstd::slice::*;

verus! {

/// What came of a read.
#[derive(Debug, Clone, Copy, PartialEq, Eq)]
pub enum ReadOutcome {
    /// This many bytes were read; none means that the other end is closed.
    Read(usize),
    /// The read failed.
    Failed,
}

/// The bytes that a read left at the start of a buffer; `None` once there is nothing more to read.
pub open spec fn chunk(buf: Seq<u8>, outcome: ReadOutcome) -> Option<Seq<u8>> {
    match outcome {
        ReadOutcome::Read(len) => if len == 0 {
            None
        } else {
            Some(buf.take(len as int))
        },
        ReadOutcome::Failed => None,
    }
}

/// Takes out the bytes that a read left at the start of a buffer, unless there is nothing more to
/// read.
pub fn take_chunk(buf: &[u8], outcome: ReadOutcome) -> (r: Option<Vec<u8>>)
    requires
        outcome matches ReadOutcome::Read(len) ==> len <= buf@.len(),
    ensures
        match r {
            Some(bytes) => chunk(buf@, outcome) == Some(bytes@),
            None => chunk(buf@, outcome) is None,
        },
        match outcome {
            ReadOutcome::Read(len) if len > 0 => r matches Some(bytes) && bytes@.len() == len
                && forall|i: int| 0 <= i < len ==> #[trigger] bytes@[i] == buf@[i],
            _ => r is None,
        },
{
    match outcome {
        ReadOutcome::Read(len) if len > 0 => {
            let bytes = slice_subrange(buf, 0, len);
            assert(bytes@ =~= buf@.take(len as int));
            Some(slice_to_vec(bytes))
        },
        _ => None,
    }
}

/// Every byte that was read is passed on, in its place, and nothing else: a read of some bytes gives
/// as many, and a read of none, or a failed one, gives nothing.
pub proof fn law_chunk_is_what_was_read(buf: Seq<u8>, outcome: ReadOutcome)
    requires
        outcome matches ReadOutcome::Read(len) ==> len <= buf.len(),
    ensures
        chunk(buf, outcome) is Some <==> (outcome matches ReadOutcome::Read(len) && len > 0),
        forall|bytes: Seq<u8>, len: usize|
            chunk(buf, outcome) == Some(bytes) && outcome == ReadOutcome::Read(len) ==> {
                &&& #[trigger] bytes.len() == len
                &&& bytes + #[trigger] buf.skip(len as int) == buf
                &&& forall|i: int| 0 <= i < len ==> #[trigger] bytes[i] == buf[i]
            },
{
    assert forall|bytes: Seq<u8>, len: usize|
        chunk(buf, outcome) == Some(bytes) && outcome == ReadOutcome::Read(len) implies {
        &&& #[trigger] bytes.len() == len
        &&& bytes + #[trigger] buf.skip(len as int) == buf
        &&& forall|i: int| 0 <= i < len ==> #[trigger] bytes[i] == buf[i]
    } by {
        assert(bytes + buf.skip(len as int) =~= buf);
    }
}

/// What the reader of a tunnel connection passes on: `ingres` first, and `egres` only after that.
///
/// The order matters at the end of a connection. The writer of the connection, once it is told of
/// the end, lets the next connection be accepted; only since the writer of the websocket was told
/// before, the `Open` of the next connection comes after the `Close` of this one.
#[derive(Debug, PartialEq, Eq)]
pub struct TunnelRead {
    /// What the writer of the websocket is told, first.
    pub ingres: TunnelCommand,
    /// What the writer of the tunnel connection is told after that, if anything.
    pub egres: Option<EgresCommand>,
    /// Whether the reader ends.
    pub done: bool,
}

/// What the reader of a tunnel connection passes on, over sequences.
#[verifier::ext_equal]
pub struct TunnelReadView {
    pub ingres: TunnelCommandView,
    pub egres: Option<EgresCommandView>,
    pub done: bool,
}

impl View for TunnelRead {
    type V = TunnelReadView;

    open spec fn view(&self) -> TunnelReadView {
        TunnelReadView {
            ingres: self.ingres@,
            egres: match self.egres {
                Some(command) => Some(command@),
                None => None,
            },
            done: self.done,
        }
    }
}

/// What the reader of a tunnel connection passes on: the bytes that it read, or, once there are no
/// more, the end of the connection.
pub open spec fn tunnel_read(bytes: Option<Seq<u8>>) -> TunnelReadView {
    match bytes {
        Some(bytes) => TunnelReadView {
            ingres: TunnelCommandView::Tx(bytes),
            egres: None,
            done: false,
        },
        None => TunnelReadView {
            ingres: TunnelCommandView::Close,
            egres: Some(EgresCommandView::Close),
            done: true,
        },
    }
}

/// The reader of a tunnel connection passes on just what it read: the bytes of a read are told to
/// the writer of the websocket, all of them and in order, and reading goes on; once there are no more,
/// both writers are told of the end, and reading stops.
pub proof fn law_reader_passes_on_what_it_read(buf: Seq<u8>, outcome: ReadOutcome)
    requires
        outcome matches ReadOutcome::Read(len) ==> len <= buf.len(),
    ensures
        match outcome {
            ReadOutcome::Read(len) if len > 0 => {
                let read = tunnel_read(chunk(buf, outcome));
                &&& read.ingres matches TunnelCommandView::Tx(bytes)
                &&& bytes.len() == len
                &&& forall|i: int| 0 <= i < len ==> #[trigger] bytes[i] == buf[i]
                &&& read.egres is None
                &&& !read.done
            },
            _ => {
                let read = tunnel_read(chunk(buf, outcome));
                &&& read.ingres is Close
                &&& read.egres matches Some(command) && command is Close
                &&& read.done
            },
        },
{
}

/// What is passed on when a tunnel connection starts.
pub fn tunnel_opened() -> (r: TunnelCommand)
    ensures
        r@ == TunnelCommandView::Open,
        r is Open,
{
    TunnelCommand::Open
}

/// One round of the reader of a tunnel connection.
pub fn read_tunnel_step(buf: &[u8], outcome: ReadOutcome) -> (r: TunnelRead)
    requires
        outcome matches ReadOutcome::Read(len) ==> len <= buf@.len(),
    ensures
        r@ == tunnel_read(chunk(buf@, outcome)),
        match outcome {
            ReadOutcome::Read(len) if len > 0 => {
                &&& r.ingres matches TunnelCommand::Tx(bytes)
                &&& bytes@ == buf@.take(len as int)
                &&& r.egres is None
                &&& !r.done
            },
            _ => {
                &&& r.ingres is Close
                &&& r.egres matches Some(command) && command is Close
                &&& r.done
            },
        },
{
    match take_chunk(buf, outcome) {
        Some(bytes) => TunnelRead { ingres: TunnelCommand::Tx(bytes), egres: None, done: false },
        None => TunnelRead {
            ingres: TunnelCommand::Close,
            egres: Some(EgresCommand::Close),
            done: true,
        },
    }
}

/// What happened to the writer of a tunnel connection.
#[derive(Debug, PartialEq, Eq)]
pub enum EgresEvent {
    /// It was told something.
    Command(EgresCommand),
    /// The channel on which it is told something is gone.
    Disconnected,
    /// It could not write to the connection.
    WriteFailed,
}

/// What happened to the writer of a tunnel connection, over sequences.
pub enum EgresEventView {
    Command(EgresCommandView),
    Disconnected,
    WriteFailed,
}

impl View for EgresEvent {
    type V = EgresEventView;

    open spec fn view(&self) -> EgresEventView {
        match self {
            EgresEvent::Command(command) => EgresEventView::Command(command@),
            EgresEvent::Disconnected => EgresEventView::Disconnected,
            EgresEvent::WriteFailed => EgresEventView::WriteFailed,
        }
    }
}

/// What the writer of a tunnel connection does next.
#[derive(Debug, PartialEq, Eq)]
pub enum EgresAction {
    /// Write these bytes to the connection, and go on unless that fails.
    Write(Vec<u8>),
    /// Shut the connection down, and then end: another connection is accepted if and only if this
    /// is set.
    ShutdownAndFinish(bool),
    /// End: another connection is accepted if and only if this is set.
    Finish(bool),
}

/// What the writer of a tunnel connection does next, over sequences.
pub enum EgresActionView {
    Write(Seq<u8>),
    ShutdownAndFinish(bool),
    Finish(bool),
}

impl View for EgresAction {
    type V = EgresActionView;

    open spec fn view(&self) -> EgresActionView {
        match self {
            EgresAction::Write(bytes) => EgresActionView::Write(bytes@),
            EgresAction::ShutdownAndFinish(accept) => EgresActionView::ShutdownAndFinish(*accept),
            EgresAction::Finish(accept) => EgresActionView::Finish(*accept),
        }
    }
}

/// What the writer of a tunnel connection does when it is told something: only the end of the
/// connection itself leaves the server ready for another one.
pub open spec fn egres_action(command: EgresCommandView) -> EgresActionView {
    match command {
        EgresCommandView::Bytes(bytes) => EgresActionView::Write(bytes),
        EgresCommandView::Close => EgresActionView::Finish(true),
        EgresCommandView::WebsocketClosed => EgresActionView::ShutdownAndFinish(false),
    }
}

/// What the writer of a tunnel connection does about an event.
pub open spec fn writer_action(event: EgresEventView) -> EgresActionView {
    match event {
        EgresEventView::Command(command) => egres_action(command),
        EgresEventView::Disconnected => EgresActionView::Finish(false),
        EgresEventView::WriteFailed => EgresActionView::Finish(false),
    }
}

/// The writer of a tunnel connection writes every byte that it is told to write, as it is told, and
/// goes on. It ends in every other case, and only the announced end of the connection itself leaves
/// the server ready for another one; the connection is shut down only once the websocket is closed.
pub proof fn law_writer_of_a_connection(event: EgresEventView)
    ensures
        forall|bytes: Seq<u8>|
            writer_action(event) == EgresActionView::Write(bytes) <==> event
                == EgresEventView::Command(EgresCommandView::Bytes(bytes)),
        writer_action(event) == EgresActionView::Finish(true) <==> event
            == EgresEventView::Command(EgresCommandView::Close),
        writer_action(event) is ShutdownAndFinish <==> event
            == EgresEventView::Command(EgresCommandView::WebsocketClosed),
        writer_action(event) != EgresActionView::ShutdownAndFinish(true),
        writer_action(event) == EgresActionView::Finish(false) <==> event is Disconnected
            || event is WriteFailed,
{
}

/// One round of the writer of a tunnel connection.
pub fn handle_tunnel_connection_step(event: EgresEvent) -> (r: EgresAction)
    ensures
        r@ == writer_action(event@),
        match event {
            EgresEvent::Command(EgresCommand::Bytes(bytes)) => r == EgresAction::Write(bytes),
            EgresEvent::Command(EgresCommand::Close) => r == EgresAction::Finish(true),
            EgresEvent::Command(EgresCommand::WebsocketClosed) => r
                == EgresAction::ShutdownAndFinish(false),
            EgresEvent::Disconnected | EgresEvent::WriteFailed => r == EgresAction::Finish(false),
        },
{
    match event {
        EgresEvent::Command(EgresCommand::Bytes(bytes)) => EgresAction::Write(bytes),
        EgresEvent::Command(EgresCommand::Close) => EgresAction::Finish(true),
        EgresEvent::Command(EgresCommand::WebsocketClosed) => EgresAction::ShutdownAndFinish(false),
        EgresEvent::Disconnected => EgresAction::Finish(false),
        EgresEvent::WriteFailed => EgresAction::Finish(false),
    }
}

/// What came of the attempt to accept a tunnel connection.
#[derive(Debug)]
pub enum AcceptOutcome<P> {
    /// It was accepted and has ended, or failed.
    Handled(Result<bool, ServerError<P>>),
    /// It could not be accepted.
    Failed(std::io::Error),
}

/// What comes of accepting tunnel connections once one of them has ended: `None` if the next one
/// is to be accepted, otherwise the result of the whole.
pub open spec fn accept_result<P>(outcome: AcceptOutcome<P>) -> Option<
    Result<(), ServerError<P>>,
> {
    match outcome {
        AcceptOutcome::Handled(Ok(true)) => None,
        AcceptOutcome::Handled(Ok(false)) => Some(Ok(())),
        AcceptOutcome::Handled(Err(error)) => Some(Err(error)),
        AcceptOutcome::Failed(error) => Some(Err(ServerError::Io(error))),
    }
}

/// The next tunnel connection is accepted exactly after one that ended by itself. Accepting ends
/// without an error exactly after one that ended otherwise, and with an error exactly if there was
/// one: with that error.
pub proof fn law_accepting_ends_with_its_cause<P>(outcome: AcceptOutcome<P>)
    ensures
        accept_result(outcome) is None <==> outcome == AcceptOutcome::<P>::Handled(Ok(true)),
        accept_result(outcome) matches Some(Ok(_)) <==> outcome == AcceptOutcome::<P>::Handled(
            Ok(false),
        ),
        forall|error: ServerError<P>|
            outcome == AcceptOutcome::<P>::Handled(Err(error)) ==> #[trigger] accept_result(outcome)
                == Some(Err::<(), _>(error)),
        forall|error: std::io::Error|
            outcome == AcceptOutcome::<P>::Failed(error) ==> #[trigger] accept_result(outcome)
                == Some(Err::<(), _>(ServerError::<P>::Io(error))),
{
}

/// What the two writers are told, and what the reader passes on, is seen as it is: a command stands
/// for itself, with all its bytes.
pub proof fn law_commands_are_seen_as_they_are(bytes: Vec<u8>, read: TunnelRead)
    ensures
        TunnelCommand::Open@ is Open,
        TunnelCommand::Close@ is Close,
        TunnelCommand::Tx(bytes)@ == TunnelCommandView::Tx(bytes@),
        TunnelCommand::ClientDisconnected@ is ClientDisconnected,
        EgresCommand::Bytes(bytes)@ == EgresCommandView::Bytes(bytes@),
        EgresCommand::Close@ is Close,
        EgresCommand::WebsocketClosed@ is WebsocketClosed,
        read@.ingres == read.ingres@,
        read@.egres is Some <==> read.egres is Some,
        read.egres matches Some(command) ==> read@.egres == Some(command@),
        read@.done == read.done,
        EgresAction::Write(bytes)@ == EgresActionView::Write(bytes@),
        forall|accept: bool|
            #[trigger] EgresAction::Finish(accept)@ == EgresActionView::Finish(accept),
        forall|accept: bool|
            #[trigger] EgresAction::ShutdownAndFinish(accept)@
                == EgresActionView::ShutdownAndFinish(accept),
{
}

/// Decides whether to accept the next tunnel connection once one of them has ended.
pub fn accept_tunnel_connections_step<P>(outcome: AcceptOutcome<P>) -> (r: Option<
    Result<(), ServerError<P>>,
>)
    ensures
        r == accept_result(outcome),
{
    match outcome {
        AcceptOutcome::Handled(Ok(true)) => None,
        AcceptOutcome::Handled(Ok(false)) => Some(Ok(())),
        AcceptOutcome::Handled(Err(error)) => Some(Err(error)),
        AcceptOutcome::Failed(error) => Some(Err(ServerError::from(error))),
    }
}

/// What is taken out of a buffer is every byte that was read, in its place, and nothing else.
pub proof fn law_taken_bytes_are_what_was_read(
    buf: &[u8],
    outcome: ReadOutcome,
    r: Option<Vec<u8>>,
)
    requires
        outcome matches ReadOutcome::Read(len) ==> len <= buf@.len(),
        call_ensures(take_chunk, (buf, outcome), r),
    ensures
        r is Some <==> (outcome matches ReadOutcome::Read(len) && len > 0),
        r matches Some(bytes) ==> {
            &&& bytes@.len() == outcome->Read_0
            &&& forall|i: int| 0 <= i < bytes@.len() ==> #[trigger] bytes@[i] == buf@[i]
        },
{
}

/// The reader of a tunnel connection tells the writer of the websocket every byte that it read, in
/// its place and nothing else, and goes on; or that the connection has ended, and then it tells the
/// writer of the connection too, and ends.
pub proof fn law_reader_tells_what_it_read(buf: &[u8], outcome: ReadOutcome, r: TunnelRead)
    requires
        outcome matches ReadOutcome::Read(len) ==> len <= buf@.len(),
        call_ensures(read_tunnel_step, (buf, outcome), r),
    ensures
        r.done <==> outcome is Failed || outcome == ReadOutcome::Read(0),
        r.done <==> r.ingres is Close,
        r.done <==> r.egres is Some,
        r.egres matches Some(command) ==> command is Close,
        !r.done ==> {
            &&& r.ingres matches TunnelCommand::Tx(bytes)
            &&& bytes@.len() == outcome->Read_0
            &&& forall|i: int| 0 <= i < bytes@.len() ==> #[trigger] bytes@[i] == buf@[i]
        },
{
}

/// A tunnel connection starts with the command to open one.
pub proof fn law_connection_starts_with_open(r: TunnelCommand)
    requires
        call_ensures(tunnel_opened, (), r),
    ensures
        r is Open,
{
}

/// The writer of a tunnel connection writes the very bytes that it is told to write; it is ready for
/// another connection exactly after the end of this one was announced; and it shuts the connection
/// down exactly when the websocket is closed.
pub proof fn law_writer_writes_what_it_is_told(event: EgresEvent, r: EgresAction)
    requires
        call_ensures(handle_tunnel_connection_step, (event,), r),
    ensures
        forall|bytes: Vec<u8>|
            r == EgresAction::Write(bytes) <==> event == EgresEvent::Command(
                EgresCommand::Bytes(bytes),
            ),
        r == EgresAction::Finish(true) <==> event == EgresEvent::Command(EgresCommand::Close),
        r == EgresAction::ShutdownAndFinish(false) <==> event == EgresEvent::Command(
            EgresCommand::WebsocketClosed,
        ),
        r == EgresAction::Finish(false) <==> event is Disconnected || event is WriteFailed,
        r != EgresAction::ShutdownAndFinish(true),
{
}

/// Another tunnel connection is accepted exactly after one that ended by itself; otherwise accepting
/// ends with the error that there was, and without one if there was none.
pub proof fn law_next_connection_is_accepted<P>(
    outcome: AcceptOutcome<P>,
    r: Option<Result<(), ServerError<P>>>,
)
    requires
        call_ensures(accept_tunnel_connections_step::<P>, (outcome,), r),
    ensures
        r is None <==> outcome == AcceptOutcome::<P>::Handled(Ok(true)),
        r == Some(Ok::<(), ServerError<P>>(())) <==> outcome == AcceptOutcome::<P>::Handled(
            Ok(false),
        ),
        outcome matches AcceptOutcome::Handled(Err(error)) ==> r == Some(Err::<(), _>(error)),
        outcome matches AcceptOutcome::Failed(error) ==> r == Some(
            Err::<(), _>(ServerError::<P>::Io(error)),
        ),
{
}

} // verus!
