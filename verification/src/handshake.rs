//! The websocket side of a request: whether it asks for a websocket, and with what key.

use crate::request::{header_views, Header};
use crate::text::{ascii_lower, law_only_capitals_are_lowered};
use vstd::prelude::*;
use vstd::utf8::*;

verus! {

/// The header that asks for another protocol.
pub const UPGRADE: &'static str = "upgrade";

/// The header that lists sub protocols.
pub const PROTOCOL: &'static str = "sec-websocket-protocol";

/// The header with the key of the handshake.
pub const KEY: &'static str = "sec-websocket-key";

/// The most sub protocols that a context holds.
pub const MAX_PROTOCOLS: usize = 3;

/// The most bytes of a key or of a sub protocol that a context holds.
pub const MAX_TEXT: usize = 24;

/// What the server needs to answer a websocket request.
#[derive(Debug, PartialEq, Eq)]
pub struct WebSocketContext {
    /// The first sub protocols that the client offers.
    pub sec_websocket_protocol_list: Vec<String>,
    /// The key of the handshake; empty if the client sent none.
    pub sec_websocket_key: String,
}

/// A context over characters.
#[verifier::ext_equal]
pub struct ContextView {
    pub protocols: Seq<Seq<char>>,
    pub key: Seq<char>,
}

impl View for WebSocketContext {
    type V = ContextView;

    open spec fn view(&self) -> ContextView {
        ContextView {
            protocols: self.sec_websocket_protocol_list@.map_values(|p: String| p@),
            key: self.sec_websocket_key@,
        }
    }
}

/// A context that may be missing, over characters.
pub open spec fn option_context(context: Option<WebSocketContext>) -> Option<ContextView> {
    match context {
        Some(c) => Some(c@),
        None => None,
    }
}

/// Whether a header has this name; capitals make no difference.
pub open spec fn is_named(header: (Seq<char>, Seq<u8>), name: Seq<char>) -> bool {
    ascii_lower(header.0) == ascii_lower(name)
}

/// Whether a header belongs to the handshake and is not text.
pub open spec fn is_unreadable(header: (Seq<char>, Seq<u8>)) -> bool {
    (is_named(header, UPGRADE@) || is_named(header, PROTOCOL@) || is_named(header, KEY@))
        && !valid_utf8(header.1)
}

/// Whether some header of the handshake is not text.
pub open spec fn has_unreadable(headers: Seq<(Seq<char>, Seq<u8>)>) -> bool {
    exists|i: int| 0 <= i < headers.len() && is_unreadable(#[trigger] headers[i])
}

/// The value of the last header with this name.
pub open spec fn last_value(headers: Seq<(Seq<char>, Seq<u8>)>, name: Seq<char>) -> Option<Seq<u8>>
    decreases headers.len(),
{
    if headers.len() == 0 {
        None
    } else if is_named(headers.last(), name) {
        Some(headers.last().1)
    } else {
        last_value(headers.drop_last(), name)
    }
}

/// Whether a comma and a space stand at this place.
pub open spec fn is_separator(list: Seq<u8>, i: int) -> bool {
    0 <= i && i + 1 < list.len() && list[i] == 0x2c && list[i + 1] == 0x20
}

/// Where the item that starts at `from`, or before it, ends: at the next separator, or else at the
/// end of the list.
pub open spec fn item_end(list: Seq<u8>, from: int) -> int
    decreases list.len() - from,
{
    if from >= list.len() {
        list.len() as int
    } else if is_separator(list, from) {
        from
    } else {
        item_end(list, from + 1)
    }
}

/// The items from `from` on of a list whose separator is a comma and a space.
pub open spec fn list_items(list: Seq<u8>, from: int) -> Seq<Seq<u8>>
    decreases list.len() - from,
    when 0 <= from <= list.len()
{
    proof {
        lemma_item_end(list, from);
    }
    let end = item_end(list, from);
    let item = list.subrange(from, end);
    if end == list.len() {
        seq![item]
    } else {
        seq![item] + list_items(list, end + 2)
    }
}

/// An item ends within the list, and at a separator unless it is the last.
pub proof fn lemma_item_end(list: Seq<u8>, from: int)
    requires
        0 <= from <= list.len(),
    ensures
        from <= item_end(list, from) <= list.len(),
        item_end(list, from) < list.len() ==> is_separator(list, item_end(list, from)),
    decreases list.len() - from,
{
    if from < list.len() && !is_separator(list, from) {
        lemma_item_end(list, from + 1);
    }
}

/// The sub protocols that the headers offer, in order.
pub open spec fn offered_protocols(headers: Seq<(Seq<char>, Seq<u8>)>) -> Seq<Seq<u8>>
    decreases headers.len(),
{
    if headers.len() == 0 {
        seq![]
    } else {
        offered_protocols(headers.drop_last()) + if is_named(headers.last(), PROTOCOL@) {
            list_items(headers.last().1, 0)
        } else {
            seq![]
        }
    }
}

/// Whether the request asks for a websocket: its last `Upgrade` header says so.
pub open spec fn asks_for_websocket(headers: Seq<(Seq<char>, Seq<u8>)>) -> bool {
    match last_value(headers, UPGRADE@) {
        Some(value) => ascii_lower(decode_utf8(value)) == ascii_lower("websocket"@),
        None => false,
    }
}

/// The context of a request whose handshake headers are all text, if it asks for a websocket.
pub open spec fn handshake_context(headers: Seq<(Seq<char>, Seq<u8>)>) -> Option<ContextView> {
    if asks_for_websocket(headers) {
        let offered = offered_protocols(headers);
        let kept = offered.take(
            if offered.len() < MAX_PROTOCOLS {
                offered.len() as int
            } else {
                MAX_PROTOCOLS as int
            },
        );
        Some(
            ContextView {
                protocols: kept.map_values(|p: Seq<u8>| decode_utf8(p)),
                key: match last_value(headers, KEY@) {
                    Some(value) => decode_utf8(value),
                    None => seq![],
                },
            },
        )
    } else {
        None
    }
}

/// Whether the first `room` items are short enough for a context.
pub open spec fn items_fit(items: Seq<Seq<u8>>, room: nat) -> bool {
    forall|i: int| 0 <= i < items.len() && i < room ==> (#[trigger] items[i]).len() <= MAX_TEXT
}

/// Whether a context has room for what the headers hold, up to the first that is not text:
/// every key is short enough, and so are the sub protocols that the context keeps, of which
/// there are `room` at most.
pub open spec fn handshake_fits(headers: Seq<(Seq<char>, Seq<u8>)>, room: nat) -> bool
    decreases headers.len(),
{
    if headers.len() == 0 || is_unreadable(headers[0]) {
        true
    } else if is_named(headers[0], UPGRADE@) {
        handshake_fits(headers.skip(1), room)
    } else if is_named(headers[0], PROTOCOL@) {
        let items = list_items(headers[0].1, 0);
        items_fit(items, room) && handshake_fits(
            headers.skip(1),
            if items.len() < room {
                (room - items.len()) as nat
            } else {
                0
            },
        )
    } else if is_named(headers[0], KEY@) {
        headers[0].1.len() <= MAX_TEXT && handshake_fits(headers.skip(1), room)
    } else {
        handshake_fits(headers.skip(1), room)
    }
}

/// The error of `embedded_websocket::read_http_header` on headers that it cannot read. Which of the
/// variants of the outside type it is stays unsaid, since that type is opaque here.
pub uninterp spec fn handshake_error(
    headers: Seq<(Seq<char>, Seq<u8>)>,
) -> embedded_websocket::Error;

/// `embedded_websocket::read_http_header`: fails exactly when the value of an `Upgrade`, a
/// `Sec-WebSocket-Protocol` or a `Sec-WebSocket-Key` header is not text, with an error that depends
/// on nothing but the headers. Otherwise it gives the context of the request, or none if the last
/// `Upgrade` header does not ask for a websocket. It panics on a key, or on one of the first three
/// sub protocols, that is longer than 24 bytes.
#[verifier::external_body]
pub(crate) fn read_http_header(headers: &[Header]) -> (r: Result<
    Option<WebSocketContext>,
    embedded_websocket::Error,
>)
    requires
        handshake_fits(header_views(headers@), MAX_PROTOCOLS as nat),
    ensures
        r is Err <==> has_unreadable(header_views(headers@)),
        r matches Err(error) ==> error == handshake_error(header_views(headers@)),
        r matches Ok(context) ==> option_context(context) == handshake_context(
            header_views(headers@),
        ),
{
    let pairs = headers.iter().map(|h| (h.name.as_str(), h.value.as_slice()));
    let context = embedded_websocket::read_http_header(pairs)?;
    Ok(context.map(|c| WebSocketContext {
        sec_websocket_protocol_list: c.sec_websocket_protocol_list.iter().map(
            |p| p.as_str().to_owned(),
        ).collect(),
        sec_websocket_key: c.sec_websocket_key.as_str().to_owned(),
    }))
}

/// Checks the first `room` items of a list; gives the room that the list leaves, or nothing if
/// one of those items is too long.
fn list_fits(list: &[u8], room: usize) -> (r: Option<usize>)
    ensures
        match r {
            Some(left) => items_fit(list_items(list@, 0), room as nat) && left == (
            if list_items(list@, 0).len() < room {
                room - list_items(list@, 0).len()
            } else {
                0
            }),
            None => !items_fit(list_items(list@, 0), room as nat),
        },
{
    let len: usize = list.len();
    let mut start: usize = 0;
    let mut end: usize = 0;
    let mut left: usize = room;
    let ghost items = list_items(list@, 0);
    let ghost mut done: Seq<Seq<u8>> = seq![];
    assert(done + list_items(list@, 0) =~= items);
    while end < len
        invariant
            len == list@.len(),
            items == list_items(list@, 0),
            start <= end <= len,
            item_end(list@, start as int) == item_end(list@, end as int),
            items == done + list_items(list@, start as int),
            items_fit(done, room as nat),
            left == (if done.len() < room {
                room - done.len()
            } else {
                0
            }),
        decreases len - end,
    {
        if len - end >= 2 && list[end] == 0x2c && list[end + 1] == 0x20 {
            let ghost item = list@.subrange(start as int, end as int);
            assert(items =~= done.push(item) + list_items(list@, end + 2));
            assert(items[done.len() as int] == item);
            if left > 0 {
                if end - start > MAX_TEXT {
                    return None;
                }
                left = left - 1;
            }
            proof {
                done = done.push(item);
            }
            start = end + 2;
            end = start;
        } else {
            end = end + 1;
        }
    }
    let ghost item = list@.subrange(start as int, len as int);
    assert(items =~= done.push(item));
    assert(items[done.len() as int] == item);
    if left > 0 {
        if end - start > MAX_TEXT {
            return None;
        }
        left = left - 1;
    }
    Some(left)
}

/// Checks that a context has room for what the headers hold.
pub fn context_fits(headers: &[Header]) -> (r: bool)
    ensures
        r == handshake_fits(header_views(headers@), MAX_PROTOCOLS as nat),
{
    let ghost views = header_views(headers@);
    let mut room: usize = MAX_PROTOCOLS;
    assert(views.skip(0) =~= views);
    for i in 0..headers.len()
        invariant
            views == header_views(headers@),
            handshake_fits(views, MAX_PROTOCOLS as nat) == handshake_fits(
                views.skip(i as int),
                room as nat,
            ),
    {
        let header = &headers[i];
        let name = header.name.as_str();
        let value = header.value.as_slice();
        assert(views.skip(i as int)[0] == header@);
        assert(views.skip(i as int).skip(1) =~= views.skip(i + 1));
        let upgrade = name.eq_ignore_ascii_case(UPGRADE);
        let protocol = name.eq_ignore_ascii_case(PROTOCOL);
        let key = name.eq_ignore_ascii_case(KEY);
        if upgrade || protocol || key {
            if core::str::from_utf8(value).is_err() {
                return true;
            }
            if upgrade {
            } else if protocol {
                match list_fits(value, room) {
                    Some(left) => {
                        room = left;
                    },
                    None => {
                        return false;
                    },
                }
            } else if value.len() > MAX_TEXT {
                return false;
            }
        }
    }
    true
}

/// Of several headers with the same name, the last one counts.
pub proof fn law_last_header_counts(
    headers: Seq<(Seq<char>, Seq<u8>)>,
    name: Seq<char>,
    i: int,
)
    requires
        0 <= i < headers.len(),
        is_named(headers[i], name),
        forall|j: int| i < j < headers.len() ==> !is_named(#[trigger] headers[j], name),
    ensures
        last_value(headers, name) == Some(headers[i].1),
    decreases headers.len(),
{
    if i < headers.len() - 1 {
        let before = headers.drop_last();
        assert(!is_named(headers[headers.len() - 1], name));
        assert forall|j: int| i < j < before.len() implies !is_named(#[trigger] before[j], name) by {
            assert(before[j] == headers[j]);
        }
        law_last_header_counts(before, name, i);
    }
}

/// A request whose last `Upgrade` header is `websocket` asks for a websocket, and its context has
/// the key of its last `Sec-WebSocket-Key` header. Capitals make no difference to either name.
pub proof fn law_handshake_is_understood(
    headers: Seq<(Seq<char>, Seq<u8>)>,
    upgrade: int,
    key: int,
    key_text: Seq<char>,
)
    requires
        0 <= upgrade < headers.len(),
        is_named(headers[upgrade], UPGRADE@),
        headers[upgrade].1 == encode_utf8("websocket"@),
        forall|j: int| upgrade < j < headers.len() ==> !is_named(#[trigger] headers[j], UPGRADE@),
        0 <= key < headers.len(),
        is_named(headers[key], KEY@),
        headers[key].1 == encode_utf8(key_text),
        forall|j: int| key < j < headers.len() ==> !is_named(#[trigger] headers[j], KEY@),
    ensures
        asks_for_websocket(headers),
        handshake_context(headers) matches Some(context) && context.key == key_text,
{
    broadcast use encode_utf8_decode_utf8;

    law_last_header_counts(headers, UPGRADE@, upgrade);
    law_last_header_counts(headers, KEY@, key);
}

/// Two characters are the same letter: equal, or one the ASCII capital of the other.
pub open spec fn same_letter(left: char, right: char) -> bool {
    ||| left == right
    ||| 'A' <= left <= 'Z' && left as int - 'A' as int == right as int - 'a' as int
    ||| 'A' <= right <= 'Z' && right as int - 'A' as int == left as int - 'a' as int
}

/// A header has a name exactly if it is spelled the same, but for ASCII capitals.
pub proof fn law_names_are_compared_letter_by_letter(
    header: (Seq<char>, Seq<u8>),
    name: Seq<char>,
)
    ensures
        is_named(header, name) <==> header.0.len() == name.len() && forall|i: int|
            0 <= i < name.len() ==> same_letter(#[trigger] header.0[i], name[i]),
{
    assert forall|i: int| 0 <= i < header.0.len() && 0 <= i < name.len() implies (ascii_lower(
        header.0,
    )[i] == ascii_lower(name)[i] <==> same_letter(#[trigger] header.0[i], name[i])) by {
        law_only_capitals_are_lowered(header.0, i);
        law_only_capitals_are_lowered(name, i);
    }
    if is_named(header, name) {
        assert(ascii_lower(header.0).len() == header.0.len());
        assert(ascii_lower(name).len() == name.len());
    } else if header.0.len() == name.len() && forall|i: int|
        0 <= i < name.len() ==> same_letter(#[trigger] header.0[i], name[i]) {
        assert(ascii_lower(header.0) =~= ascii_lower(name));
    }
}

/// A request cannot be read exactly if the value of one of its `Upgrade`, `Sec-WebSocket-Protocol`
/// or `Sec-WebSocket-Key` headers is not text.
pub proof fn law_only_handshake_headers_must_be_text(headers: Seq<(Seq<char>, Seq<u8>)>)
    ensures
        has_unreadable(headers) <==> exists|i: int|
            {
                &&& 0 <= i < headers.len()
                &&& is_named(#[trigger] headers[i], "upgrade"@) || is_named(
                    headers[i],
                    "sec-websocket-protocol"@,
                ) || is_named(headers[i], "sec-websocket-key"@)
                &&& !valid_utf8(headers[i].1)
            },
{
    if exists|i: int|
        {
            &&& 0 <= i < headers.len()
            &&& is_named(#[trigger] headers[i], "upgrade"@) || is_named(
                headers[i],
                "sec-websocket-protocol"@,
            ) || is_named(headers[i], "sec-websocket-key"@)
            &&& !valid_utf8(headers[i].1)
        } {
        let i = choose|i: int|
            {
                &&& 0 <= i < headers.len()
                &&& is_named(#[trigger] headers[i], "upgrade"@) || is_named(
                    headers[i],
                    "sec-websocket-protocol"@,
                ) || is_named(headers[i], "sec-websocket-key"@)
                &&& !valid_utf8(headers[i].1)
            };
        assert(is_unreadable(headers[i]));
    }
    if has_unreadable(headers) {
        let i = choose|i: int| 0 <= i < headers.len() && is_unreadable(#[trigger] headers[i]);
        assert(is_named(headers[i], "upgrade"@) || is_named(headers[i], "sec-websocket-protocol"@)
            || is_named(headers[i], "sec-websocket-key"@));
    }
}

/// The value of the last header with a name is that of a header with the name, behind which there is
/// no other; there is none exactly if no header has the name.
pub proof fn law_value_is_that_of_the_last_header(
    headers: Seq<(Seq<char>, Seq<u8>)>,
    name: Seq<char>,
    value: Seq<u8>,
)
    ensures
        last_value(headers, name) == Some(value) <==> exists|i: int|
            {
                &&& 0 <= i < headers.len()
                &&& is_named(#[trigger] headers[i], name)
                &&& headers[i].1 == value
                &&& forall|j: int| i < j < headers.len() ==> !is_named(#[trigger] headers[j], name)
            },
        last_value(headers, name) is None <==> forall|i: int|
            0 <= i < headers.len() ==> !is_named(#[trigger] headers[i], name),
    decreases headers.len(),
{
    if headers.len() > 0 {
        let last = headers.len() - 1;
        if is_named(headers[last], name) {
            law_last_header_counts(headers, name, last);
            if headers[last].1 != value && exists|i: int|
                {
                    &&& 0 <= i < headers.len()
                    &&& is_named(#[trigger] headers[i], name)
                    &&& headers[i].1 == value
                    &&& forall|j: int|
                        i < j < headers.len() ==> !is_named(#[trigger] headers[j], name)
                } {
                let i = choose|i: int|
                    {
                        &&& 0 <= i < headers.len()
                        &&& is_named(#[trigger] headers[i], name)
                        &&& headers[i].1 == value
                        &&& forall|j: int|
                            i < j < headers.len() ==> !is_named(#[trigger] headers[j], name)
                    };
                assert(!is_named(headers[last], name));
            }
        } else {
            let before = headers.drop_last();
            law_value_is_that_of_the_last_header(before, name, value);
            assert forall|i: int| 0 <= i < before.len() implies #[trigger] headers[i]
                == before[i] by {}
            if last_value(headers, name) == Some(value) {
                let i = choose|i: int|
                    {
                        &&& 0 <= i < before.len()
                        &&& is_named(#[trigger] before[i], name)
                        &&& before[i].1 == value
                        &&& forall|j: int|
                            i < j < before.len() ==> !is_named(#[trigger] before[j], name)
                    };
                assert(headers[i] == before[i]);
                assert forall|j: int| i < j < headers.len() implies !is_named(
                    #[trigger] headers[j],
                    name,
                ) by {
                    if j < before.len() {
                        assert(!is_named(before[j], name));
                    }
                }
            }
            if exists|i: int|
                {
                    &&& 0 <= i < headers.len()
                    &&& is_named(#[trigger] headers[i], name)
                    &&& headers[i].1 == value
                    &&& forall|j: int|
                        i < j < headers.len() ==> !is_named(#[trigger] headers[j], name)
                } {
                let i = choose|i: int|
                    {
                        &&& 0 <= i < headers.len()
                        &&& is_named(#[trigger] headers[i], name)
                        &&& headers[i].1 == value
                        &&& forall|j: int|
                            i < j < headers.len() ==> !is_named(#[trigger] headers[j], name)
                    };
                law_last_header_counts(headers, name, i);
            }
            if forall|i: int| 0 <= i < headers.len() ==> !is_named(#[trigger] headers[i], name) {
                assert forall|i: int| 0 <= i < before.len() implies !is_named(
                    #[trigger] before[i],
                    name,
                ) by {
                    assert(headers[i] == before[i]);
                }
            }
            if last_value(headers, name) is None {
                assert forall|i: int| 0 <= i < headers.len() implies !is_named(
                    #[trigger] headers[i],
                    name,
                ) by {
                    if i < before.len() {
                        assert(!is_named(before[i], name));
                    }
                }
            }
        }
    }
}

/// A request asks for a websocket exactly if it has an `Upgrade` header and the last one says
/// `websocket`, in capitals or not.
pub proof fn law_upgrade_asks_for_a_websocket(headers: Seq<(Seq<char>, Seq<u8>)>)
    ensures
        asks_for_websocket(headers) <==> exists|i: int|
            {
                &&& 0 <= i < headers.len()
                &&& is_named(#[trigger] headers[i], "upgrade"@)
                &&& is_named((decode_utf8(headers[i].1), seq![]), "websocket"@)
                &&& forall|j: int|
                    i < j < headers.len() ==> !is_named(#[trigger] headers[j], "upgrade"@)
            },
{
    let value = last_value(headers, "upgrade"@)->0;
    law_value_is_that_of_the_last_header(headers, "upgrade"@, value);
    if exists|i: int|
        {
            &&& 0 <= i < headers.len()
            &&& is_named(#[trigger] headers[i], "upgrade"@)
            &&& is_named((decode_utf8(headers[i].1), seq![]), "websocket"@)
            &&& forall|j: int|
                i < j < headers.len() ==> !is_named(#[trigger] headers[j], "upgrade"@)
        } {
        let i = choose|i: int|
            {
                &&& 0 <= i < headers.len()
                &&& is_named(#[trigger] headers[i], "upgrade"@)
                &&& is_named((decode_utf8(headers[i].1), seq![]), "websocket"@)
                &&& forall|j: int|
                    i < j < headers.len() ==> !is_named(#[trigger] headers[j], "upgrade"@)
            };
        law_last_header_counts(headers, "upgrade"@, i);
    }
    if asks_for_websocket(headers) {
        let i = choose|i: int|
            {
                &&& 0 <= i < headers.len()
                &&& is_named(#[trigger] headers[i], "upgrade"@)
                &&& headers[i].1 == value
                &&& forall|j: int|
                    i < j < headers.len() ==> !is_named(#[trigger] headers[j], "upgrade"@)
            };
        assert(is_named((decode_utf8(headers[i].1), seq![]), "websocket"@));
    }
}

/// The context of a request: there is one exactly if the request asks for a websocket. Its key is
/// that of the last `Sec-WebSocket-Key` header, and empty without one. It holds the first sub
/// protocols that the request offers, in order, and three at most.
pub proof fn law_context_holds_the_key_and_the_first_protocols(
    headers: Seq<(Seq<char>, Seq<u8>)>,
)
    ensures
        handshake_context(headers) is Some <==> asks_for_websocket(headers),
        handshake_context(headers) matches Some(context) ==> {
            &&& last_value(headers, "sec-websocket-key"@) matches Some(value) ==> context.key
                == decode_utf8(value)
            &&& last_value(headers, "sec-websocket-key"@) is None ==> context.key.len() == 0
            &&& context.protocols.len() <= 3
            &&& context.protocols.len() <= offered_protocols(headers).len()
            &&& context.protocols.len() < 3 ==> context.protocols.len() == offered_protocols(
                headers,
            ).len()
            &&& forall|i: int|
                0 <= i < context.protocols.len() ==> #[trigger] context.protocols[i]
                    == decode_utf8(offered_protocols(headers)[i])
        },
{
}

/// A list is split at every comma that a space follows and nowhere else: the items make up the list
/// again when each is followed by a comma and a space, and no item holds such a pair.
pub proof fn law_list_is_split_at_its_separators(list: Seq<u8>)
    ensures
        list_items(list, 0).len() > 0,
        list_items(list, 0).map_values(|item: Seq<u8>| item + seq![0x2cu8, 0x20u8]).flatten() == list
            + seq![0x2cu8, 0x20u8],
        forall|i: int, k: int|
            0 <= i < list_items(list, 0).len() && 0 <= k < list_items(list, 0)[i].len() - 1 ==> !(
            #[trigger] list_items(list, 0)[i][k] == 0x2c && list_items(list, 0)[i][k + 1] == 0x20),
{
    lemma_list_items(list, 0);
    assert(list.skip(0) =~= list);
}

/// The items from `from` on make up the rest of the list again, and no item holds a separator.
proof fn lemma_list_items(list: Seq<u8>, from: int)
    requires
        0 <= from <= list.len(),
    ensures
        list_items(list, from).len() > 0,
        list_items(list, from).map_values(|item: Seq<u8>| item + seq![0x2cu8, 0x20u8]).flatten()
            == list.skip(from) + seq![0x2cu8, 0x20u8],
        forall|i: int, k: int|
            0 <= i < list_items(list, from).len() && 0 <= k < list_items(list, from)[i].len() - 1
                ==> !(#[trigger] list_items(list, from)[i][k] == 0x2c && list_items(list, from)[i][k
                + 1] == 0x20),
    decreases list.len() - from,
{
    let ended = |item: Seq<u8>| item + seq![0x2cu8, 0x20u8];
    lemma_item_end(list, from);
    let end = item_end(list, from);
    let item = list.subrange(from, end);
    let items = list_items(list, from);
    let parts = items.map_values(ended);
    assert forall|k: int| 0 <= k < item.len() - 1 implies !(#[trigger] item[k] == 0x2c && item[k + 1]
        == 0x20) by {
        lemma_no_separator_before_the_end(list, from, from + k);
    }
    assert(items[0] == item);
    assert(parts[0] == ended(item));
    if end == list.len() {
        assert(parts.drop_first() =~= seq![]);
        assert(parts.drop_first().flatten() =~= seq![]);
        assert(parts.flatten() =~= ended(item));
        assert(item =~= list.skip(from));
    } else {
        lemma_list_items(list, end + 2);
        let rest = list_items(list, end + 2);
        assert(parts.drop_first() =~= rest.map_values(ended));
        assert(parts.flatten() == ended(item) + rest.map_values(ended).flatten());
        assert(ended(item) + (list.skip(end + 2) + seq![0x2cu8, 0x20u8]) =~= list.skip(from) + seq![
            0x2cu8,
            0x20u8,
        ]);
        assert forall|i: int, k: int|
            0 <= i < items.len() && 0 <= k < items[i].len() - 1 implies !(#[trigger] items[i][k]
            == 0x2c && items[i][k + 1] == 0x20) by {
            if i > 0 {
                assert(items[i] == rest[i - 1]);
                assert(rest[i - 1][k] == items[i][k]);
            }
        }
    }
}

/// There is no separator between the start of an item and its end.
proof fn lemma_no_separator_before_the_end(list: Seq<u8>, from: int, k: int)
    requires
        0 <= from <= k < item_end(list, from),
    ensures
        !is_separator(list, k),
    decreases k - from,
{
    if from < k {
        lemma_no_separator_before_the_end(list, from + 1, k);
    }
}

/// The sub protocols that headers offer are the items of their `Sec-WebSocket-Protocol` headers, in
/// order: other headers offer none, and what two lists of headers offer in a row is what the one and
/// then the other offers.
pub proof fn law_protocols_are_offered_in_order(
    left: Seq<(Seq<char>, Seq<u8>)>,
    right: Seq<(Seq<char>, Seq<u8>)>,
    header: (Seq<char>, Seq<u8>),
)
    ensures
        offered_protocols(left + right) == offered_protocols(left) + offered_protocols(right),
        is_named(header, "sec-websocket-protocol"@) ==> offered_protocols(seq![header])
            == list_items(header.1, 0),
        !is_named(header, "sec-websocket-protocol"@) ==> offered_protocols(seq![header]).len() == 0,
    decreases right.len(),
{
    let single = seq![header];
    assert(single.drop_last() =~= seq![]);
    assert(offered_protocols(single.drop_last()) =~= seq![]);
    assert(offered_protocols(single) =~= if is_named(header, PROTOCOL@) {
        list_items(header.1, 0)
    } else {
        seq![]
    });
    let headers = left + right;
    if right.len() == 0 {
        assert(headers =~= left);
        assert(offered_protocols(right) =~= seq![]);
        assert(offered_protocols(left) + offered_protocols(right) =~= offered_protocols(left));
    } else {
        law_protocols_are_offered_in_order(left, right.drop_last(), header);
        assert(headers.drop_last() =~= left + right.drop_last());
        assert(headers.last() == right.last());
        assert(offered_protocols(headers) =~= offered_protocols(left) + offered_protocols(right));
    }
}

/// Whether a header, of which so many sub protocols came before, fits in a context with this room.
spec fn header_fits(header: (Seq<char>, Seq<u8>), offered: nat, room: nat) -> bool {
    &&& is_named(header, "sec-websocket-key"@) ==> header.1.len() <= 24
    &&& is_named(header, "sec-websocket-protocol"@) ==> forall|k: int|
        0 <= k < list_items(header.1, 0).len() && offered + k < room ==> (
        #[trigger] list_items(header.1, 0)[k]).len() <= 24
}

/// A request fits in a context exactly if, up to the first handshake header that is not text, every
/// key is at most 24 bytes long, and so is each of the first three sub protocols. Nothing else about
/// a request makes it too long.
pub proof fn law_only_long_keys_and_protocols_do_not_fit(headers: Seq<(Seq<char>, Seq<u8>)>)
    ensures
        handshake_fits(headers, 3) <==> forall|i: int|
            0 <= i < headers.len() && !has_unreadable(headers.take(i + 1)) ==> {
                &&& is_named(#[trigger] headers[i], "sec-websocket-key"@) ==> headers[i].1.len()
                    <= 24
                &&& is_named(headers[i], "sec-websocket-protocol"@) ==> forall|k: int|
                    0 <= k < list_items(headers[i].1, 0).len() && offered_protocols(
                        headers.take(i),
                    ).len() + k < 3 ==> (#[trigger] list_items(headers[i].1, 0)[k]).len() <= 24
            },
{
    lemma_handshake_fits(headers, 3);
    if handshake_fits(headers, 3) {
        assert forall|i: int|
            0 <= i < headers.len() && !has_unreadable(headers.take(i + 1)) implies {
            &&& is_named(#[trigger] headers[i], "sec-websocket-key"@) ==> headers[i].1.len() <= 24
            &&& is_named(headers[i], "sec-websocket-protocol"@) ==> forall|k: int|
                0 <= k < list_items(headers[i].1, 0).len() && offered_protocols(
                    headers.take(i),
                ).len() + k < 3 ==> (#[trigger] list_items(headers[i].1, 0)[k]).len() <= 24
        } by {
            assert(fits_at(headers, i, 3));
        }
    } else {
        let i = choose|i: int| 0 <= i < headers.len() && !(#[trigger] fits_at(headers, i, 3));
        assert(!header_fits(headers[i], offered_protocols(headers.take(i)).len(), 3));
    }
}

/// The names of the handshake headers differ.
proof fn lemma_names_differ(header: (Seq<char>, Seq<u8>))
    ensures
        !(is_named(header, UPGRADE@) && is_named(header, PROTOCOL@)),
        !(is_named(header, UPGRADE@) && is_named(header, KEY@)),
        !(is_named(header, PROTOCOL@) && is_named(header, KEY@)),
{
    reveal_strlit("upgrade");
    reveal_strlit("sec-websocket-protocol");
    reveal_strlit("sec-websocket-key");
    assert(ascii_lower(UPGRADE@).len() == 7);
    assert(ascii_lower(PROTOCOL@).len() == 22);
    assert(ascii_lower(KEY@).len() == 17);
}

/// The room that is left after a header.
spec fn room_after(header: (Seq<char>, Seq<u8>), room: nat) -> nat {
    let offered = offered_protocols(seq![header]).len();
    if offered < room {
        (room - offered) as nat
    } else {
        0
    }
}

/// The first header is readable and fits, and so do the others in the room that is left, exactly if
/// all of them do.
proof fn lemma_first_header_fits(headers: Seq<(Seq<char>, Seq<u8>)>, room: nat)
    requires
        headers.len() > 0,
    ensures
        handshake_fits(headers, room) <==> is_unreadable(headers[0]) || (header_fits(
            headers[0],
            0,
            room,
        ) && handshake_fits(headers.skip(1), room_after(headers[0], room))),
{
    let header = headers[0];
    lemma_names_differ(header);
    law_protocols_are_offered_in_order(seq![], seq![], header);
    let items = list_items(header.1, 0);
    if is_named(header, PROTOCOL@) {
        assert(header_fits(header, 0, room) <==> items_fit(items, room)) by {
            if items_fit(items, room) {
                assert forall|k: int| 0 <= k < items.len() && 0 + k < room implies (
                #[trigger] items[k]).len() <= 24 by {}
            }
            if header_fits(header, 0, room) {
                assert forall|k: int| 0 <= k < items.len() && k < room implies (
                #[trigger] items[k]).len() <= MAX_TEXT by {}
            }
        }
    }
}

/// Whether the header at this place fits, or is behind one that is not text.
spec fn fits_at(headers: Seq<(Seq<char>, Seq<u8>)>, i: int, room: nat) -> bool {
    !has_unreadable(headers.take(i + 1)) ==> header_fits(
        headers[i],
        offered_protocols(headers.take(i)).len(),
        room,
    )
}

/// Some headers are readable exactly if the first is and the others are.
proof fn lemma_first_is_readable(headers: Seq<(Seq<char>, Seq<u8>)>)
    requires
        headers.len() > 0,
    ensures
        has_unreadable(headers) <==> is_unreadable(headers[0]) || has_unreadable(headers.skip(1)),
{
    let rest = headers.skip(1);
    if has_unreadable(headers) {
        let j = choose|j: int| 0 <= j < headers.len() && is_unreadable(#[trigger] headers[j]);
        if j > 0 {
            assert(rest[j - 1] == headers[j]);
        }
    }
    if has_unreadable(rest) {
        let j = choose|j: int| 0 <= j < rest.len() && is_unreadable(#[trigger] rest[j]);
        assert(headers[j + 1] == rest[j]);
    }
}

/// What the first header leaves room for, the others fit in exactly if they fit behind it.
proof fn lemma_fits_behind_the_first(headers: Seq<(Seq<char>, Seq<u8>)>, i: int, room: nat)
    requires
        0 < i < headers.len(),
        !is_unreadable(headers[0]),
    ensures
        fits_at(headers, i, room) <==> fits_at(
            headers.skip(1),
            i - 1,
            room_after(headers[0], room),
        ),
{
    let header = headers[0];
    let rest = headers.skip(1);
    let left = room_after(header, room);
    lemma_first_is_readable(headers.take(i + 1));
    assert(headers.take(i + 1).skip(1) =~= rest.take(i));
    law_protocols_are_offered_in_order(seq![header], rest.take(i - 1), header);
    assert(seq![header] + rest.take(i - 1) =~= headers.take(i));
    assert(rest[i - 1] == headers[i]);
    let before = offered_protocols(rest.take(i - 1)).len();
    let all = offered_protocols(headers.take(i)).len();
    assert(all == offered_protocols(seq![header]).len() + before);
    let items = list_items(headers[i].1, 0);
    if header_fits(headers[i], all, room) {
        assert forall|k: int|
            is_named(headers[i], "sec-websocket-protocol"@) && 0 <= k < items.len() && before + k
                < left implies (#[trigger] items[k]).len() <= 24 by {
            assert(all + k < room);
        }
    }
    if header_fits(headers[i], before, left) {
        assert forall|k: int|
            is_named(headers[i], "sec-websocket-protocol"@) && 0 <= k < items.len() && all + k
                < room implies (#[trigger] items[k]).len() <= 24 by {
            assert(before + k < left);
        }
    }
}

/// The first header fits at its place exactly if it is not text or fits in all the room.
proof fn lemma_first_fits_at_its_place(headers: Seq<(Seq<char>, Seq<u8>)>, room: nat)
    requires
        headers.len() > 0,
    ensures
        fits_at(headers, 0, room) <==> is_unreadable(headers[0]) || header_fits(
            headers[0],
            0,
            room,
        ),
{
    lemma_first_is_readable(headers.take(1));
    assert(headers.take(1).skip(1) =~= seq![]);
    assert(headers.take(0) =~= seq![]);
    assert(offered_protocols(headers.take(0)).len() == 0);
}

/// Headers fit exactly if each of them does, up to the first that is not text.
proof fn lemma_handshake_fits(headers: Seq<(Seq<char>, Seq<u8>)>, room: nat)
    ensures
        handshake_fits(headers, room) <==> forall|i: int|
            0 <= i < headers.len() ==> #[trigger] fits_at(headers, i, room),
    decreases headers.len(),
{
    if headers.len() > 0 {
        let rest = headers.skip(1);
        let left = room_after(headers[0], room);
        lemma_first_header_fits(headers, room);
        lemma_first_fits_at_its_place(headers, room);
        if is_unreadable(headers[0]) {
            assert forall|i: int| 0 <= i < headers.len() implies #[trigger] fits_at(
                headers,
                i,
                room,
            ) by {
                assert(headers.take(i + 1)[0] == headers[0]);
            }
        } else {
            lemma_handshake_fits(rest, left);
            assert forall|i: int| 0 < i < headers.len() implies (#[trigger] fits_at(
                headers,
                i,
                room,
            ) <==> fits_at(rest, i - 1, left)) by {
                lemma_fits_behind_the_first(headers, i, room);
            }
            if forall|i: int| 0 <= i < headers.len() ==> #[trigger] fits_at(headers, i, room) {
                assert(fits_at(headers, 0, room));
                assert forall|i: int| 0 <= i < rest.len() implies #[trigger] fits_at(
                    rest,
                    i,
                    left,
                ) by {
                    assert(fits_at(headers, i + 1, room));
                }
            }
        }
    }
}

/// A context is seen as it is: its key, and every sub protocol in its place.
pub proof fn law_context_is_seen_as_it_is(
    context: WebSocketContext,
    missing: Option<WebSocketContext>,
)
    ensures
        context@.key == context.sec_websocket_key@,
        context@.protocols.len() == context.sec_websocket_protocol_list@.len(),
        forall|i: int|
            0 <= i < context@.protocols.len() ==> #[trigger] context@.protocols[i]
                == context.sec_websocket_protocol_list@[i]@,
        option_context(missing) is Some <==> missing is Some,
        missing matches Some(present) ==> option_context(missing) == Some(present@),
{
}

/// Headers are found to fit in a context exactly if they do: nothing but a key, or one of the first
/// three sub protocols, of more than 24 bytes is too long.
pub proof fn law_headers_are_found_to_fit(headers: &[Header], r: bool)
    requires
        call_ensures(context_fits, (headers,), r),
    ensures
        r == handshake_fits(header_views(headers@), 3),
        (forall|i: int|
            0 <= i < headers@.len() ==> {
                &&& is_named(
                    ((#[trigger] headers@[i]).name@, headers@[i].value@),
                    "sec-websocket-key"@,
                ) ==> headers@[i].value@.len() <= 24
                &&& !is_named(
                    (headers@[i].name@, headers@[i].value@),
                    "sec-websocket-protocol"@,
                )
            }) ==> r,
{
    let views = header_views(headers@);
    law_only_long_keys_and_protocols_do_not_fit(views);
    if forall|i: int|
        0 <= i < headers@.len() ==> {
            &&& is_named(
                ((#[trigger] headers@[i]).name@, headers@[i].value@),
                "sec-websocket-key"@,
            ) ==> headers@[i].value@.len() <= 24
            &&& !is_named((headers@[i].name@, headers@[i].value@), "sec-websocket-protocol"@)
        } {
        assert forall|i: int|
            0 <= i < views.len() && !has_unreadable(views.take(i + 1)) implies {
            &&& is_named(#[trigger] views[i], "sec-websocket-key"@) ==> views[i].1.len() <= 24
            &&& is_named(views[i], "sec-websocket-protocol"@) ==> forall|k: int|
                0 <= k < list_items(views[i].1, 0).len() && offered_protocols(views.take(i)).len()
                    + k < 3 ==> (#[trigger] list_items(views[i].1, 0)[k]).len() <= 24
        } by {
            assert(views[i] == (headers@[i].name@, headers@[i].value@));
        }
    }
}

} // verus!
