//! The websocket messages that the server sends.

use crate::{TunnelCommand, TunnelCommandView, CLOSE_STREAM_COMMAND, OPEN_STREAM_COMMAND};
use vstd::arithmetic::power::pow;
use vstd::prelude::*;
use vstd::utf8::*;

verus! {

/// The size of the buffer into which the server reads from a tunnel connection.
pub const TUNNEL_BUF_LEN: usize = 4000;

/// The size of the buffer in which the server builds a websocket message.
pub const WEBSOCKET_BUF_LEN: usize = 16384;

/// The kinds of websocket message that the programs send.
#[derive(Debug, Clone, Copy, PartialEq, Eq, Structural)]
pub enum MessageType {
    /// Text.
    Text,
    /// Bytes.
    Binary,
    /// A sign of life.
    Ping,
}

/// The code of a kind of message on the wire.
pub open spec fn opcode(message_type: MessageType) -> int {
    match message_type {
        MessageType::Text => 1,
        MessageType::Binary => 2,
        MessageType::Ping => 9,
    }
}

/// One byte of a number in base 256; the lowest is byte 0.
pub open spec fn byte_of(n: int, i: nat) -> u8
    decreases i,
{
    if i == 0 {
        (n % 256) as u8
    } else {
        byte_of(n / 256, (i - 1) as nat)
    }
}

/// The header of an unmasked websocket frame that is a whole message: a set final bit with the
/// opcode, then the length in one, three or nine bytes.
pub open spec fn frame_header(message_type: MessageType, len: int) -> Seq<u8> {
    let first = (0x80 + opcode(message_type)) as u8;
    if len < 126 {
        seq![first, len as u8]
    } else if len < 65535 {
        seq![first, 126u8, byte_of(len, 1), byte_of(len, 0)]
    } else {
        seq![first, 127u8] + Seq::new(8, |i: int| byte_of(len, (7 - i) as nat))
    }
}

/// An unmasked websocket frame that is a whole message.
pub open spec fn frame(message_type: MessageType, payload: Seq<u8>) -> Seq<u8> {
    frame_header(message_type, payload.len() as int) + payload
}

/// `embedded_websocket::WebSocket::write`, on a server's websocket that is open and in no
/// fragmented message, for a whole message: puts the frame at the start of `to` and gives its
/// length, or leaves `to` as it is and fails if the frame is longer than `to`.
#[verifier::external_body]
fn server_write(message_type: MessageType, from: &[u8], to: &mut [u8]) -> (r: Result<
    usize,
    embedded_websocket::Error,
>)
    ensures
        match r {
            Ok(len) => {
                &&& len == frame(message_type, from@).len()
                &&& len <= old(to)@.len()
                &&& final(to)@ == frame(message_type, from@) + old(to)@.skip(len as int)
            },
            Err(_) => {
                &&& frame(message_type, from@).len() > old(to)@.len()
                &&& final(to)@ == old(to)@
            },
        },
{
    let mut websocket = embedded_websocket::WebSocketServer::new_server();
    websocket.state = embedded_websocket::WebSocketState::Open;
    let send_type = match message_type {
        MessageType::Text => embedded_websocket::WebSocketSendMessageType::Text,
        MessageType::Binary => embedded_websocket::WebSocketSendMessageType::Binary,
        MessageType::Ping => embedded_websocket::WebSocketSendMessageType::Ping,
    };
    websocket.write(send_type, true, from, to)
}

/// Checks that a message with this payload fits in `room` bytes.
pub fn frame_fits(message_type: MessageType, payload: &[u8], room: usize) -> (r: bool)
    ensures
        r == (frame(message_type, payload@).len() <= room),
        r == (payload@.len() + (if payload@.len() < 126 {
            2int
        } else if payload@.len() < 65535 {
            4
        } else {
            10
        }) <= room),
{
    let len: usize = payload.len();
    let header: usize = if len < 126 {
        2
    } else if len < 65535 {
        4
    } else {
        10
    };
    len <= room && header <= room - len
}

/// Builds a message at the start of `to_buf` and gives its length; that much is to be sent.
pub fn write_to_websocket(message_type: MessageType, from_buf: &[u8], to_buf: &mut [u8]) -> (len:
    usize)
    requires
        frame(message_type, from_buf@).len() <= old(to_buf)@.len(),
    ensures
        len == frame(message_type, from_buf@).len(),
        final(to_buf)@ == frame(message_type, from_buf@) + old(to_buf)@.skip(len as int),
        final(to_buf)@.take(len as int) == frame(message_type, from_buf@),
{
    match server_write(message_type, from_buf, to_buf) {
        Ok(len) => {
            assert(to_buf@.take(len as int) =~= frame(message_type, from_buf@));
            len
        },
        Err(_) => 0,
    }
}

/// The message that a command stands for. The one command without a message ends the writer.
pub open spec fn command_message(command: TunnelCommandView) -> Option<(MessageType, Seq<u8>)> {
    match command {
        TunnelCommandView::Open => Some((MessageType::Text, encode_utf8(OPEN_STREAM_COMMAND@))),
        TunnelCommandView::Close => Some((MessageType::Text, encode_utf8(CLOSE_STREAM_COMMAND@))),
        TunnelCommandView::Tx(bytes) => Some((MessageType::Binary, bytes)),
        TunnelCommandView::ClientDisconnected => None,
    }
}

/// What the writer of a websocket does with what it received; `None` stands for a channel whose
/// other end is gone.
pub open spec fn writer_message(received: Option<TunnelCommand>) -> Option<(MessageType, Seq<u8>)> {
    match received {
        Some(command) => command_message(command@),
        None => None,
    }
}

/// What the writer of a websocket does next.
#[derive(Debug, PartialEq, Eq)]
pub enum WriterStep {
    /// Send this many bytes of the buffer and go on.
    Send(usize),
    /// End.
    Stop,
}

/// Whether the writer of a websocket takes this step, with this in its buffer, on what it received:
/// it sends the message that this stands for, and ends if there is none.
pub open spec fn is_writer_round(
    received: Option<TunnelCommand>,
    step: WriterStep,
    buf: Seq<u8>,
) -> bool {
    match writer_message(received) {
        Some((message_type, payload)) => {
            &&& step matches WriterStep::Send(len)
            &&& len <= buf.len()
            &&& buf.take(len as int) == frame(message_type, payload)
        },
        None => step matches WriterStep::Stop,
    }
}

/// One round of the writer of a websocket: turns what it received into a message at the start of
/// `to_buf`.
pub fn write_to_websocket_step(received: Option<TunnelCommand>, to_buf: &mut [u8]) -> (r:
    WriterStep)
    requires
        writer_message(received) matches Some((message_type, payload)) ==> frame(
            message_type,
            payload,
        ).len() <= old(to_buf)@.len(),
    ensures
        is_writer_round(received, r, final(to_buf)@),
        match received {
            Some(TunnelCommand::Open) => r matches WriterStep::Send(len) && final(to_buf)@.take(
                len as int,
            ) == frame(MessageType::Text, encode_utf8("open"@)),
            Some(TunnelCommand::Close) => r matches WriterStep::Send(len) && final(to_buf)@.take(
                len as int,
            ) == frame(MessageType::Text, encode_utf8("close"@)),
            Some(TunnelCommand::Tx(bytes)) => r matches WriterStep::Send(len) && final(to_buf)@.take(
                len as int,
            ) == frame(MessageType::Binary, bytes@),
            Some(TunnelCommand::ClientDisconnected) | None => r is Stop,
        },
        match writer_message(received) {
            Some((message_type, payload)) => {
                &&& r matches WriterStep::Send(len)
                &&& len == frame(message_type, payload).len()
                &&& final(to_buf)@ == frame(message_type, payload) + old(to_buf)@.skip(len as int)
            },
            None => {
                &&& r matches WriterStep::Stop
                &&& final(to_buf)@ == old(to_buf)@
            },
        },
{
    match received {
        Some(TunnelCommand::Open) => WriterStep::Send(
            write_to_websocket(MessageType::Text, OPEN_STREAM_COMMAND.as_bytes(), to_buf),
        ),
        Some(TunnelCommand::Close) => WriterStep::Send(
            write_to_websocket(MessageType::Text, CLOSE_STREAM_COMMAND.as_bytes(), to_buf),
        ),
        Some(TunnelCommand::Tx(bytes)) => WriterStep::Send(
            write_to_websocket(MessageType::Binary, bytes.as_slice(), to_buf),
        ),
        Some(TunnelCommand::ClientDisconnected) => WriterStep::Stop,
        None => WriterStep::Stop,
    }
}

/// The frames of several messages, one after the other.
pub open spec fn wire(messages: Seq<(MessageType, Seq<u8>)>) -> Seq<u8>
    decreases messages.len(),
{
    if messages.len() == 0 {
        seq![]
    } else {
        frame(messages[0].0, messages[0].1) + wire(messages.skip(1))
    }
}

/// A round of the writer of a websocket: what it received, what it did, and what its buffer held
/// then.
pub struct WriterRound {
    pub received: Option<TunnelCommand>,
    pub step: WriterStep,
    pub buf: Seq<u8>,
}

/// The bytes that the writer of a websocket sends in some rounds, up to the first in which it ends.
pub open spec fn bytes_sent(rounds: Seq<WriterRound>) -> Seq<u8>
    decreases rounds.len(),
{
    if rounds.len() == 0 {
        seq![]
    } else {
        match rounds[0].step {
            WriterStep::Send(len) => rounds[0].buf.take(len as int) + bytes_sent(rounds.skip(1)),
            WriterStep::Stop => seq![],
        }
    }
}

/// The messages that what the writer of a websocket received stands for, up to the first that
/// stands for none.
pub open spec fn messages_sent(rounds: Seq<WriterRound>) -> Seq<(MessageType, Seq<u8>)>
    decreases rounds.len(),
{
    if rounds.len() == 0 {
        seq![]
    } else {
        match writer_message(rounds[0].received) {
            Some(message) => seq![message] + messages_sent(rounds.skip(1)),
            None => seq![],
        }
    }
}

/// What the writer of a websocket sends is the frames of the messages that it was told to send, one
/// after the other and nothing else, up to the first command that stands for no message.
pub proof fn law_writer_sends_messages(rounds: Seq<WriterRound>)
    requires
        forall|i: int|
            0 <= i < rounds.len() ==> is_writer_round(
                (#[trigger] rounds[i]).received,
                rounds[i].step,
                rounds[i].buf,
            ),
    ensures
        bytes_sent(rounds) == wire(messages_sent(rounds)),
    decreases rounds.len(),
{
    if rounds.len() > 0 {
        assert(is_writer_round(rounds[0].received, rounds[0].step, rounds[0].buf));
        if let Some(message) = writer_message(rounds[0].received) {
            law_writer_sends_messages(rounds.skip(1));
            let messages = messages_sent(rounds);
            assert(messages.skip(1) =~= messages_sent(rounds.skip(1)));
        }
    }
}

/// Whether the length of a payload can be written in a frame header.
pub open spec fn has_length(payload: Seq<u8>) -> bool {
    payload.len() <= u64::MAX
}

/// Two numbers below 256 to the power `k` are equal if their lowest `k` bytes are.
proof fn lemma_bytes_determine(a: int, b: int, k: nat)
    requires
        0 <= a < pow(256, k),
        0 <= b < pow(256, k),
        forall|i: nat| i < k ==> byte_of(a, i) == #[trigger] byte_of(b, i),
    ensures
        a == b,
    decreases k,
{
    reveal(pow);
    if k > 0 {
        let lower = (k - 1) as nat;
        assert(pow(256, k) == 256 * pow(256, lower));
        assert(byte_of(a, 0) == byte_of(b, 0));
        assert(a % 256 == b % 256);
        assert forall|i: nat| i < lower implies byte_of(a / 256, i) == #[trigger] byte_of(
            b / 256,
            i,
        ) by {
            assert(byte_of(a, i + 1) == byte_of(b, i + 1));
        }
        lemma_bytes_determine(a / 256, b / 256, lower);
    }
}

/// Where one frame ends is known from its first bytes, and so is what it says: two frames that
/// start the same bytes are the same message, whatever follows them.
pub proof fn law_frame_is_unambiguous(
    left: (MessageType, Seq<u8>),
    right: (MessageType, Seq<u8>),
    after_left: Seq<u8>,
    after_right: Seq<u8>,
)
    requires
        has_length(left.1),
        has_length(right.1),
        frame(left.0, left.1) + after_left == frame(right.0, right.1) + after_right,
    ensures
        left == right,
        after_left == after_right,
{
    let bytes = frame(left.0, left.1) + after_left;
    let a = left.1.len() as int;
    let b = right.1.len() as int;
    let left_header = frame_header(left.0, a);
    let right_header = frame_header(right.0, b);
    assert forall|i: int| 0 <= i < left_header.len() implies bytes[i] == left_header[i] by {}
    assert forall|i: int| 0 <= i < right_header.len() implies bytes[i] == right_header[i] by {}
    assert(bytes[0] == left_header[0] && bytes[0] == right_header[0]);
    assert(bytes[1] == left_header[1] && bytes[1] == right_header[1]);
    assert(left.0 == right.0);
    if a < 126 {
        assert(a == b);
    } else if a < 65535 {
        assert(left_header[1] == 126);
        assert(126 <= b < 65535);
        assert(pow(256, 2) == 65536) by {
            reveal(pow);
            reveal_with_fuel(pow, 3);
        }
        assert(bytes[2] == byte_of(a, 1) && bytes[2] == byte_of(b, 1));
        assert(bytes[3] == byte_of(a, 0) && bytes[3] == byte_of(b, 0));
        assert forall|i: nat| i < 2 implies byte_of(a, i) == #[trigger] byte_of(b, i) by {
            assert(i == 0 || i == 1);
        }
        lemma_bytes_determine(a, b, 2);
    } else {
        assert(left_header[1] == 127);
        assert(b >= 65535);
        assert(pow(256, 8) == 0x1_0000_0000_0000_0000) by {
            reveal(pow);
            reveal_with_fuel(pow, 9);
        }
        assert forall|i: nat| i < 8 implies byte_of(a, i) == #[trigger] byte_of(b, i) by {
            assert(left_header[9 - i] == byte_of(a, i));
            assert(right_header[9 - i] == byte_of(b, i));
            assert(bytes[9 - i] == left_header[9 - i]);
        }
        lemma_bytes_determine(a, b, 8);
    }
    let start = left_header.len() as int;
    assert(left.1 =~= bytes.subrange(start, start + a));
    assert(right.1 =~= bytes.subrange(start, start + b));
    assert(after_left =~= bytes.skip(start + a));
    assert(after_right =~= bytes.skip(start + b));
}

/// The bytes that the server sends determine the messages that it sends, and their order.
pub proof fn law_wire_determines_messages(
    left: Seq<(MessageType, Seq<u8>)>,
    right: Seq<(MessageType, Seq<u8>)>,
)
    requires
        forall|i: int| 0 <= i < left.len() ==> has_length((#[trigger] left[i]).1),
        forall|i: int| 0 <= i < right.len() ==> has_length((#[trigger] right[i]).1),
        wire(left) == wire(right),
    ensures
        left == right,
    decreases left.len(),
{
    if left.len() == 0 {
        if right.len() > 0 {
            assert(frame(right[0].0, right[0].1).len() > 0);
            assert(wire(right).len() > 0);
            assert(wire(left).len() == 0);
        }
        assert(left =~= right);
    } else if right.len() == 0 {
        assert(frame(left[0].0, left[0].1).len() > 0);
        assert(wire(left).len() > 0);
        assert(wire(right).len() == 0);
    } else {
        law_frame_is_unambiguous(left[0], right[0], wire(left.skip(1)), wire(right.skip(1)));
        law_wire_determines_messages(left.skip(1), right.skip(1));
        assert(left =~= seq![left[0]] + left.skip(1));
        assert(right =~= seq![right[0]] + right.skip(1));
    }
}

/// The server's buffer for websocket messages has room for every command that the server sends:
/// the two text commands, and as many bytes as it reads from a tunnel connection at once.
pub proof fn law_commands_fit(command: TunnelCommandView)
    requires
        command matches TunnelCommandView::Tx(bytes) ==> bytes.len() <= TUNNEL_BUF_LEN,
    ensures
        command_message(command) matches Some((message_type, payload)) ==> frame(
            message_type,
            payload,
        ).len() <= WEBSOCKET_BUF_LEN,
{
    reveal_strlit("open");
    reveal_strlit("close");
    is_ascii_chars_encode_utf8(OPEN_STREAM_COMMAND@);
    is_ascii_chars_encode_utf8(CLOSE_STREAM_COMMAND@);
}

/// What a command says to the client: that a connection was opened or closed as the text of that
/// command, and bytes as a message of just those bytes, however many they are. The end of the client
/// is the only command that says nothing.
pub proof fn law_commands_have_their_messages(command: TunnelCommandView, bytes: Seq<u8>)
    ensures
        command_message(command) == Some((MessageType::Binary, bytes)) <==> command
            == TunnelCommandView::Tx(bytes),
        command is Open ==> command_message(command) == Some(
            (MessageType::Text, encode_utf8("open"@)),
        ),
        command is Close ==> command_message(command) == Some(
            (MessageType::Text, encode_utf8("close"@)),
        ),
        command_message(command) is None <==> command is ClientDisconnected,
        command_message(command) matches Some(message) ==> message.0 != MessageType::Ping,
{
}

/// The writer of a websocket sends the message of every command that it receives, and ends exactly
/// when nobody can command it any more or the client is gone.
pub proof fn law_writer_sends_what_it_is_told(received: Option<TunnelCommand>)
    ensures
        received matches Some(command) ==> writer_message(received) == command_message(command@),
        writer_message(received) is None <==> received is None || received->0 is ClientDisconnected,
{
}

/// What a frame looks like: a byte for the kind of message, the length of the payload, the highest
/// byte first where it takes several, and the payload itself, all of it and unchanged.
pub proof fn law_frame_holds_its_payload(message_type: MessageType, payload: Seq<u8>)
    requires
        payload.len() <= u64::MAX,
    ensures
        ({
            let bytes = frame(message_type, payload);
            let len = payload.len() as int;
            let header = bytes.len() - len;
            &&& bytes[0] == match message_type {
                MessageType::Text => 0x81u8,
                MessageType::Binary => 0x82u8,
                MessageType::Ping => 0x89u8,
            }
            &&& len < 126 ==> header == 2 && bytes[1] == len
            &&& 126 <= len < 65535 ==> header == 4 && bytes[1] == 126 && bytes[2] * 256 + bytes[3]
                == len
            &&& len >= 65535 ==> header == 10 && bytes[1] == 127 && bytes[2] * 0x100_0000_0000_0000
                + bytes[3] * 0x1_0000_0000_0000 + bytes[4] * 0x100_0000_0000 + bytes[5]
                * 0x1_0000_0000 + bytes[6] * 0x100_0000 + bytes[7] * 0x1_0000 + bytes[8] * 0x100
                + bytes[9] == len
            &&& bytes.skip(header) == payload
        }),
{
    let bytes = frame(message_type, payload);
    let len = payload.len() as int;
    let header = frame_header(message_type, len);
    assert(bytes.skip(header.len() as int) =~= payload);
    assert forall|i: int| 0 <= i < header.len() implies bytes[i] == header[i] by {}
    reveal_with_fuel(byte_of, 9);
    if len >= 65535 {
        assert forall|i: int| 0 <= i < 8 implies header[i + 2] == #[trigger] byte_of(
            len,
            (7 - i) as nat,
        ) by {}
        assert(bytes[2] == byte_of(len, 7) && bytes[3] == byte_of(len, 6));
        assert(bytes[4] == byte_of(len, 5) && bytes[5] == byte_of(len, 4));
        assert(bytes[6] == byte_of(len, 3) && bytes[7] == byte_of(len, 2));
        assert(bytes[8] == byte_of(len, 1) && bytes[9] == byte_of(len, 0));
    } else if len >= 126 {
        assert(bytes[2] == byte_of(len, 1) && bytes[3] == byte_of(len, 0));
    }
}

/// The bytes of two lists of messages in a row are those of the one and then those of the other, and
/// the bytes of one message are its frame.
pub proof fn law_frames_follow_each_other(
    left: Seq<(MessageType, Seq<u8>)>,
    right: Seq<(MessageType, Seq<u8>)>,
    message: (MessageType, Seq<u8>),
)
    ensures
        wire(left + right) == wire(left) + wire(right),
        wire(seq![message]) == frame(message.0, message.1),
    decreases left.len(),
{
    let one = seq![message];
    assert(one.skip(1) =~= seq![]);
    assert(wire(one.skip(1)) =~= seq![]);
    assert(wire(one) =~= frame(message.0, message.1));
    if left.len() == 0 {
        assert(left + right =~= right);
        assert(wire(left) + wire(right) =~= wire(right));
    } else {
        law_frames_follow_each_other(left.skip(1), right, message);
        assert((left + right).skip(1) =~= left.skip(1) + right);
        assert(wire(left + right) =~= wire(left) + wire(right));
    }
}

/// What is read from a tunnel connection at once is at most 4000 bytes, and a message is built in four
/// times 4096.
pub proof fn law_frame_settings()
    ensures
        TUNNEL_BUF_LEN == 4000,
        WEBSOCKET_BUF_LEN == 4 * 4096,
{
}

/// A message fits exactly if its payload and its header do.
pub proof fn law_messages_are_found_to_fit(
    message_type: MessageType,
    payload: &[u8],
    room: usize,
    r: bool,
)
    requires
        call_ensures(frame_fits, (message_type, payload, room), r),
    ensures
        payload@.len() < 126 ==> (r <==> payload@.len() + 2 <= room),
        126 <= payload@.len() < 65535 ==> (r <==> payload@.len() + 4 <= room),
        payload@.len() >= 65535 ==> (r <==> payload@.len() + 10 <= room),
{
}

/// What is written for a message is its frame, and the rest of the buffer stays as it was.
pub proof fn law_message_is_written_as_its_frame(
    message_type: MessageType,
    from_buf: &[u8],
    before: Seq<u8>,
    len: usize,
)
    ensures
        forall|to_buf: &mut [u8]|
            to_buf@ == before && frame(message_type, from_buf@).len() <= before.len()
                && #[trigger] call_ensures(write_to_websocket, (message_type, from_buf, to_buf), len)
                ==> {
                &&& len == frame(message_type, from_buf@).len()
                &&& final(to_buf)@ == frame(message_type, from_buf@) + before.skip(len as int)
            },
{
}

/// What the writer of a websocket sends for a command: bytes as a message of just those bytes, and
/// the start and the end of a connection as the text for it. It ends exactly if nobody can command it
/// any more or the client is gone.
pub proof fn law_writer_sends_the_frame_of_its_command(
    received: Option<TunnelCommand>,
    before: Seq<u8>,
    r: WriterStep,
)
    ensures
        forall|to_buf: &mut [u8]|
            to_buf@ == before && #[trigger] call_ensures(
                write_to_websocket_step,
                (received, to_buf),
                r,
            ) ==> {
                &&& r is Stop <==> received is None || received->0 is ClientDisconnected
                &&& received matches Some(TunnelCommand::Tx(bytes)) ==> (r matches WriterStep::Send(
                    len,
                ) && final(to_buf)@.take(len as int) == frame(MessageType::Binary, bytes@))
                &&& received matches Some(TunnelCommand::Open) ==> (r matches WriterStep::Send(len)
                    && final(to_buf)@.take(len as int) == frame(
                    MessageType::Text,
                    encode_utf8("open"@),
                ))
                &&& received matches Some(TunnelCommand::Close) ==> (r matches WriterStep::Send(len)
                    && final(to_buf)@.take(len as int) == frame(
                    MessageType::Text,
                    encode_utf8("close"@),
                ))
            },
{
}

} // verus!
