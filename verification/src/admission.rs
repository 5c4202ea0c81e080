//! The server's answer to a request: whom it admits, and what it tells the others.

use crate::authorization::{credentials, read_authorization_header};
use crate::config::{Client, ServerConfig};
use crate::error::ServerError;
use crate::handshake::{
    asks_for_websocket, context_fits, handshake_context, handshake_error, handshake_fits,
    has_unreadable, law_context_holds_the_key_and_the_first_protocols, option_context,
    read_http_header, ContextView, WebSocketContext, MAX_PROTOCOLS,
};
use crate::request::{
    header_views, is_head, option_text, parse_request, request_parse, RequestStatus,
};
use vstd::prelude::*;
use vstd::slice::*;

verus! {

/// The most headers that a request may have.
pub const MAX_HEADERS: usize = 16;

/// The size of the buffer into which the server reads a request, and after it the websocket.
pub const READ_BUF_LEN: usize = 4000;

/// How long the server waits before it refuses a request.
pub const REFUSAL_PAUSE_SECS: u64 = 2;

/// The answer to a request for the right path without the credentials of a client.
pub const UNAUTHORIZED: &'static str =
    "HTTP/1.1 401 Unauthorized\r\nContent-Length: 0\r\nConnection: close\r\n\r\n";

/// The answer to a request for another path, or for no websocket.
pub const NOT_FOUND: &'static str =
    "HTTP/1.1 404 Not Found\r\nContent-Length: 0\r\nConnection: close\r\n\r\n";

/// A request that was admitted.
#[derive(Debug, PartialEq, Eq)]
pub struct WebSocketHeader {
    /// The address on which to accept connections on behalf of the client.
    pub tunnel_addr: String,
    /// The name of the client.
    pub user: String,
    /// What the answer to the websocket request needs.
    pub websocket_context: WebSocketContext,
}

/// What to send to a client that is refused, and how long to wait before.
#[derive(Debug, PartialEq, Eq)]
pub struct Refusal {
    /// The wait, in seconds.
    pub pause_secs: u64,
    /// The text to send, after which the connection is done with.
    pub html: &'static str,
    /// The path that was asked for, if it was not found.
    pub unknown_path: Option<String>,
}

/// What to do after some bytes of a request were received.
#[derive(Debug, PartialEq, Eq)]
pub enum HeaderStep {
    /// Read on: the head of the request is not complete.
    KeepReading,
    /// Open the websocket.
    Admitted(WebSocketHeader),
    /// Refuse the request.
    Refused(Refusal),
}

/// What to do after some bytes of a request were received, over characters.
#[verifier::ext_equal]
pub enum StepView {
    KeepReading,
    Admitted { tunnel_addr: Seq<char>, user: Seq<char>, context: ContextView },
    Refused { pause_secs: u64, html: Seq<char>, unknown_path: Option<Seq<char>> },
}

impl View for HeaderStep {
    type V = StepView;

    open spec fn view(&self) -> StepView {
        match self {
            HeaderStep::KeepReading => StepView::KeepReading,
            HeaderStep::Admitted(header) => StepView::Admitted {
                tunnel_addr: header.tunnel_addr@,
                user: header.user@,
                context: header.websocket_context@,
            },
            HeaderStep::Refused(refusal) => StepView::Refused {
                pause_secs: refusal.pause_secs,
                html: refusal.html@,
                unknown_path: option_text(refusal.unknown_path),
            },
        }
    }
}

/// The refusal of a request for the right path without the credentials of a client.
pub open spec fn unauthorized() -> StepView {
    StepView::Refused { pause_secs: REFUSAL_PAUSE_SECS, html: UNAUTHORIZED@, unknown_path: None }
}

/// The refusal of a request for another path, or for no websocket.
pub open spec fn not_found(path: Option<Seq<char>>) -> StepView {
    StepView::Refused { pause_secs: REFUSAL_PAUSE_SECS, html: NOT_FOUND@, unknown_path: path }
}

/// Whether these are the credentials of a client.
pub open spec fn has_credentials(client: Client, pair: (Seq<char>, Seq<char>)) -> bool {
    client.username@ == pair.0 && client.password@ == pair.1
}

/// The first client with these credentials.
pub open spec fn find_client(clients: Seq<Client>, pair: (Seq<char>, Seq<char>)) -> Option<Client>
    decreases clients.len(),
{
    if clients.len() == 0 {
        None
    } else if has_credentials(clients[0], pair) {
        Some(clients[0])
    } else {
        find_client(clients.skip(1), pair)
    }
}

/// The answer to a complete request: it has to ask for a websocket at the configured path, and to
/// carry the credentials of a client.
pub open spec fn answer(
    config: ServerConfig,
    path: Option<Seq<char>>,
    auth: Option<(Seq<char>, Seq<char>)>,
    context: Option<ContextView>,
) -> StepView {
    match context {
        Some(context) if path == Some(config.ws_path@) => match auth {
            Some(pair) => match find_client(config.clients@, pair) {
                Some(client) => StepView::Admitted {
                    tunnel_addr: client.tcp_addr@,
                    user: client.username@,
                    context,
                },
                None => unauthorized(),
            },
            None => unauthorized(),
        },
        _ => not_found(path),
    }
}

/// The answer to a complete request whose handshake headers are all text.
pub open spec fn request_answer(
    config: ServerConfig,
    path: Option<Seq<char>>,
    headers: Seq<(Seq<char>, Seq<u8>)>,
) -> StepView {
    answer(config, path, credentials(headers), handshake_context(headers))
}

/// The refusal of a request for the right path without the credentials of a client.
pub fn return_401_unauthorized() -> (r: Refusal)
    ensures
        HeaderStep::Refused(r)@ == unauthorized(),
        r.pause_secs == 2,
        r.html@ == "HTTP/1.1 401 Unauthorized\r\nContent-Length: 0\r\nConnection: close\r\n\r\n"@,
        r.unknown_path is None,
{
    Refusal { pause_secs: REFUSAL_PAUSE_SECS, html: UNAUTHORIZED, unknown_path: None }
}

/// The refusal of a request for another path, or for no websocket.
pub fn return_404_not_found(unknown_path: &Option<String>) -> (r: Refusal)
    ensures
        HeaderStep::Refused(r)@ == not_found(option_text(*unknown_path)),
        r.pause_secs == 2,
        r.html@ == "HTTP/1.1 404 Not Found\r\nContent-Length: 0\r\nConnection: close\r\n\r\n"@,
        r.unknown_path is Some <==> unknown_path is Some,
        r.unknown_path matches Some(path) ==> path@ == unknown_path->0@,
{
    let unknown_path = match unknown_path {
        Some(path) => Some(path.clone()),
        None => None,
    };
    Refusal { pause_secs: REFUSAL_PAUSE_SECS, html: NOT_FOUND, unknown_path }
}

/// Looks for the first client with these credentials.
pub fn lookup_client<'a>(
    clients: &'a Vec<Client>,
    username: &String,
    password: &String,
) -> (r: Option<&'a Client>)
    ensures
        match r {
            Some(client) => find_client(clients@, (username@, password@)) == Some(*client),
            None => find_client(clients@, (username@, password@)) is None,
        },
        match r {
            Some(client) => client.username@ == username@ && client.password@ == password@,
            None => forall|i: int|
                0 <= i < clients@.len() ==> (#[trigger] clients@[i]).username@ != username@
                    || clients@[i].password@ != password@,
        },
{
    let ghost pair = (username@, password@);
    assert(clients@.skip(0) =~= clients@);
    for i in 0..clients.len()
        invariant
            pair == (username@, password@),
            find_client(clients@, pair) == find_client(clients@.skip(i as int), pair),
            forall|j: int|
                0 <= j < i ==> (#[trigger] clients@[j]).username@ != username@
                    || clients@[j].password@ != password@,
    {
        let client = &clients[i];
        assert(clients@.skip(i as int).skip(1) =~= clients@.skip(i + 1));
        if client.username == *username && client.password == *password {
            return Some(client);
        }
    }
    None
}

/// The characters of credentials that may be missing.
pub open spec fn option_pair(auth: Option<(String, String)>) -> Option<(Seq<char>, Seq<char>)> {
    match auth {
        Some((username, password)) => Some((username@, password@)),
        None => None,
    }
}

/// Answers a complete request.
pub fn answer_request(
    config: &ServerConfig,
    path: &Option<String>,
    auth: &Option<(String, String)>,
    context: Option<WebSocketContext>,
) -> (r: HeaderStep)
    ensures
        r@ == answer(*config, option_text(*path), option_pair(*auth), option_context(context)),
{
    match (context, path) {
        (Some(websocket_context), Some(known)) if *known == config.ws_path => {
            if let Some((username, password)) = auth {
                if let Some(client) = lookup_client(&config.clients, username, password) {
                    return HeaderStep::Admitted(
                        WebSocketHeader {
                            user: client.username.clone(),
                            tunnel_addr: client.tcp_addr.clone(),
                            websocket_context,
                        },
                    );
                }
            }
            HeaderStep::Refused(return_401_unauthorized())
        },
        _ => HeaderStep::Refused(return_404_not_found(path)),
    }
}

/// Answers a complete request whose handshake headers were read with this outcome: where that
/// failed, its own error ends the request, whatever the path and the credentials are.
pub fn answer_handshake<P>(
    config: &ServerConfig,
    path: &Option<String>,
    auth: &Option<(String, String)>,
    outcome: Result<Option<WebSocketContext>, embedded_websocket::Error>,
) -> (r: Result<HeaderStep, ServerError<P>>)
    ensures
        match outcome {
            Ok(context) => r matches Ok(step) && step@ == answer(
                *config,
                option_text(*path),
                option_pair(*auth),
                option_context(context),
            ),
            Err(error) => r == Err::<HeaderStep, _>(ServerError::<P>::WebSocket(error)),
        },
{
    match outcome {
        Ok(context) => Ok(answer_request(config, path, auth, context)),
        Err(error) => Err(ServerError::from(error)),
    }
}

/// What comes of the bytes of a request, over sequences: what to do next, or why there is no
/// answer.
pub type HeadView = Result<StepView, HeadErrorView>;

/// Why a request was not answered, over sequences.
pub enum HeadErrorView {
    Malformed(Seq<char>),
    Oversized,
    WebSocket(embedded_websocket::Error),
}

/// What comes of a complete request.
pub open spec fn request_result(
    config: ServerConfig,
    path: Option<Seq<char>>,
    headers: Seq<(Seq<char>, Seq<u8>)>,
) -> HeadView {
    if !handshake_fits(headers, MAX_PROTOCOLS as nat) {
        Err(HeadErrorView::Oversized)
    } else if has_unreadable(headers) {
        Err(HeadErrorView::WebSocket(handshake_error(headers)))
    } else {
        Ok(request_answer(config, path, headers))
    }
}

/// What comes of the bytes of a request that were received so far.
pub open spec fn head_result(config: ServerConfig, received: Seq<u8>) -> HeadView {
    match request_parse(received, MAX_HEADERS) {
        Err(error) => Err(HeadErrorView::Malformed(error)),
        Ok(None) => Ok(StepView::KeepReading),
        Ok(Some((len, path, headers))) => request_result(config, path, headers),
    }
}

/// Where the cursor stands after a read, given all that was received so far: behind it while the
/// head of the request is not complete, and at the number of bytes that came after the head once it
/// is. Where the head cannot be parsed, the cursor stays where it was.
pub open spec fn head_cursor(received: Seq<u8>, before: nat) -> nat {
    match request_parse(received, MAX_HEADERS) {
        Err(_) => before,
        Ok(None) => received.len(),
        Ok(Some((len, path, headers))) => (received.len() - len) as nat,
    }
}

/// Goes on with a request of which `total` bytes were received so far, and parsed to `status`.
///
/// While the head of the request is not complete, the cursor moves behind the bytes that were
/// received. Once it is, the cursor is the number of bytes that came after the head: 0 if exactly
/// the head was received.
pub fn apply_status<P>(
    status: RequestStatus,
    total: usize,
    read_cursor: &mut usize,
    config: &ServerConfig,
) -> (r: Result<HeaderStep, HeaderError<P>>)
    requires
        status matches RequestStatus::Complete(len, _) ==> len <= total,
    ensures
        match status@ {
            Some((len, path, headers)) => {
                &&& *final(read_cursor) == total - len
                &&& is_result(r, request_result(*config, path, headers))
            },
            None => {
                &&& *final(read_cursor) == total
                &&& is_result(r, Ok(StepView::KeepReading))
            },
        },
{
    match status {
        RequestStatus::Complete(len, request) => {
            *read_cursor = total - len;
            let auth = read_authorization_header(request.headers.as_slice());
            if !context_fits(request.headers.as_slice()) {
                return Err(HeaderError::Oversized);
            }
            let outcome = read_http_header(request.headers.as_slice());
            match answer_handshake(config, &request.path, &auth, outcome) {
                Ok(step) => Ok(step),
                Err(error) => Err(HeaderError::Server(error)),
            }
        },
        RequestStatus::Partial => {
            *read_cursor = total;
            Ok(HeaderStep::KeepReading)
        },
    }
}

/// Why a request was not answered.
#[derive(Debug)]
pub enum HeaderError<P> {
    /// The head of the request cannot be parsed; this says why.
    Malformed(String),
    /// A handshake header is too long.
    Oversized,
    /// The request cannot be read, or the handshake cannot be understood.
    Server(ServerError<P>),
}

/// Whether this is what comes of the bytes of a request.
pub open spec fn is_result<P>(r: Result<HeaderStep, HeaderError<P>>, expected: HeadView) -> bool {
    match expected {
        Ok(step) => r matches Ok(given) && given@ == step,
        Err(HeadErrorView::Malformed(error)) => r matches Err(HeaderError::Malformed(text))
            && text@ == error,
        Err(HeadErrorView::Oversized) => r matches Err(HeaderError::Oversized),
        Err(HeadErrorView::WebSocket(error)) => r == Err::<HeaderStep, _>(
            HeaderError::Server(ServerError::<P>::WebSocket(error)),
        ),
    }
}

/// Takes the outcome of the next read of a request into account: the first `*read_cursor` bytes of
/// `read_buf` were there before, and `received` says how many came after them. A read that failed
/// ends the request with its own error.
pub fn read_header<P>(
    read_buf: &[u8],
    read_cursor: &mut usize,
    received: Result<usize, std::io::Error>,
    config: &ServerConfig,
) -> (r: Result<HeaderStep, HeaderError<P>>)
    requires
        received matches Ok(size) ==> *old(read_cursor) + size <= read_buf@.len(),
    ensures
        match received {
            Ok(size) => {
                let bytes = read_buf@.take(*old(read_cursor) + size);
                &&& is_result(r, head_result(*config, bytes))
                &&& *final(read_cursor) == head_cursor(bytes, *old(read_cursor) as nat)
                &&& *final(read_cursor) <= bytes.len()
                &&& request_parse(bytes, MAX_HEADERS) matches Ok(Some((len, _, _))) ==> is_head(
                    bytes,
                    MAX_HEADERS,
                    len,
                )
            },
            Err(error) => {
                &&& r == Err::<HeaderStep, _>(HeaderError::Server(ServerError::<P>::Io(error)))
                &&& *final(read_cursor) == *old(read_cursor)
            },
        },
{
    let size: usize = match received {
        Ok(size) => size,
        Err(error) => return Err(HeaderError::Server(ServerError::from(error))),
    };
    assert(read_buf.len() == read_buf@.len());
    let total: usize = *read_cursor + size;
    let bytes = slice_subrange(read_buf, 0, total);
    assert(bytes@ =~= read_buf@.take(total as int));
    match parse_request(bytes, MAX_HEADERS) {
        Err(error) => Err(HeaderError::Malformed(error)),
        Ok(status) => apply_status(status, total, read_cursor, config),
    }
}

/// How many bytes some reads brought together.
pub open spec fn total(sizes: Seq<nat>) -> nat
    decreases sizes.len(),
{
    if sizes.len() == 0 {
        0
    } else {
        total(sizes.drop_last()) + sizes.last()
    }
}

/// What comes of a request whose bytes arrive in reads of these sizes, and where the cursor is then
/// left. The reads end with the first after which there is nothing more to read for.
pub open spec fn read_all(config: ServerConfig, bytes: Seq<u8>, sizes: Seq<nat>) -> (HeadView, nat)
    decreases sizes.len(),
{
    if sizes.len() == 0 {
        (Ok(StepView::KeepReading), 0)
    } else {
        let (result, cursor) = read_all(config, bytes, sizes.drop_last());
        if result == Ok::<StepView, HeadErrorView>(StepView::KeepReading) {
            let received = bytes.take((cursor + sizes.last()) as int);
            (head_result(config, received), head_cursor(received, cursor))
        } else {
            (result, cursor)
        }
    }
}

/// The first reads brought no more than all of them.
proof fn lemma_total_grows(sizes: Seq<nat>, i: int)
    requires
        0 <= i <= sizes.len(),
    ensures
        total(sizes.take(i)) <= total(sizes),
    decreases sizes.len(),
{
    if i < sizes.len() {
        lemma_total_grows(sizes.drop_last(), i);
        assert(sizes.drop_last().take(i) =~= sizes.take(i));
    } else {
        assert(sizes.take(i) =~= sizes);
    }
}

/// While the head of a request is not complete, reading goes on behind what was received.
proof fn lemma_reading_goes_on(config: ServerConfig, bytes: Seq<u8>, len: usize, sizes: Seq<nat>)
    requires
        is_head(bytes, MAX_HEADERS, len),
        total(sizes) < len,
    ensures
        read_all(config, bytes, sizes) == (
            Ok::<StepView, HeadErrorView>(StepView::KeepReading),
            total(sizes),
        ),
    decreases sizes.len(),
{
    if sizes.len() > 0 {
        lemma_reading_goes_on(config, bytes, len, sizes.drop_last());
    }
}

/// It does not matter how a request is split over reads: however the bytes arrive, reading goes on
/// until the head is complete, and then gives what it gives when they all arrive at once. The
/// cursor is left at the number of bytes that arrived after the head: at 0 if that was nothing.
///
/// Bytes start with a head whenever `read_header` finds a complete one there, as it says itself.
pub proof fn law_split_does_not_matter(
    config: ServerConfig,
    bytes: Seq<u8>,
    len: usize,
    sizes: Seq<nat>,
)
    requires
        is_head(bytes, MAX_HEADERS, len),
        sizes.len() > 0,
        total(sizes.drop_last()) < len <= total(sizes) <= bytes.len(),
    ensures
        forall|i: int|
            0 <= i < sizes.len() ==> read_all(config, bytes, #[trigger] sizes.take(i)) == (
                Ok::<StepView, HeadErrorView>(StepView::KeepReading),
                total(sizes.take(i)),
            ),
        read_all(config, bytes, sizes).0 == read_all(config, bytes, seq![bytes.len()]).0,
        read_all(config, bytes, sizes).0 == head_result(config, bytes),
        read_all(config, bytes, sizes).1 == total(sizes) - len,
        total(sizes) == bytes.len() ==> read_all(config, bytes, sizes) == read_all(
            config,
            bytes,
            seq![bytes.len()],
        ),
{
    assert forall|i: int| 0 <= i < sizes.len() implies read_all(
        config,
        bytes,
        #[trigger] sizes.take(i),
    ) == (Ok::<StepView, HeadErrorView>(StepView::KeepReading), total(sizes.take(i))) by {
        lemma_total_grows(sizes.drop_last(), i);
        assert(sizes.drop_last().take(i) =~= sizes.take(i));
        lemma_reading_goes_on(config, bytes, len, sizes.take(i));
    }
    assert(sizes.take(sizes.len() - 1) =~= sizes.drop_last());
    assert(bytes.take(bytes.len() as int) =~= bytes);
    let once = seq![bytes.len()];
    assert(once.drop_last() =~= seq![]);
    assert(read_all(config, bytes, once.drop_last()) == (
        Ok::<StepView, HeadErrorView>(StepView::KeepReading),
        0nat,
    ));
}

/// A client that is found is one of the configured clients and has the credentials, and a client
/// with the credentials is found if there is one.
proof fn lemma_find_client(clients: Seq<Client>, pair: (Seq<char>, Seq<char>))
    ensures
        match find_client(clients, pair) {
            Some(client) => clients.contains(client) && has_credentials(client, pair),
            None => forall|i: int|
                0 <= i < clients.len() ==> !has_credentials(#[trigger] clients[i], pair),
        },
    decreases clients.len(),
{
    if clients.len() > 0 && !has_credentials(clients[0], pair) {
        lemma_find_client(clients.skip(1), pair);
        match find_client(clients.skip(1), pair) {
            Some(client) => {
                let i = choose|i: int| 0 <= i < clients.len() - 1 && clients.skip(1)[i] == client;
                assert(clients[i + 1] == client);
            },
            None => {
                assert forall|i: int| 0 <= i < clients.len() implies !has_credentials(
                    #[trigger] clients[i],
                    pair,
                ) by {
                    if i > 0 {
                        assert(clients.skip(1)[i - 1] == clients[i]);
                    }
                }
            },
        }
    }
}

/// Only a configured client is admitted, only with its own credentials, only at the configured
/// path and only for a websocket; and it is given its own address.
pub proof fn law_only_clients_are_admitted(
    config: ServerConfig,
    path: Option<Seq<char>>,
    headers: Seq<(Seq<char>, Seq<u8>)>,
)
    requires
        request_answer(config, path, headers) is Admitted,
    ensures
        path == Some(config.ws_path@),
        asks_for_websocket(headers),
        exists|i: int|
            {
                &&& 0 <= i < config.clients@.len()
                &&& credentials(headers) == Some(
                    ((#[trigger] config.clients@[i]).username@, config.clients@[i].password@),
                )
                &&& request_answer(config, path, headers)->tunnel_addr
                    == config.clients@[i].tcp_addr@
                &&& request_answer(config, path, headers)->user == config.clients@[i].username@
            },
{
    lemma_find_client(config.clients@, credentials(headers)->0);
    let client = find_client(config.clients@, credentials(headers)->0)->0;
    let i = choose|i: int| 0 <= i < config.clients@.len() && config.clients@[i] == client;
    assert(config.clients@[i].username@ == client.username@);
}

/// A request that asks for a websocket at the configured path, with the credentials of a
/// configured client, is admitted under that client's name and with the context of the handshake.
/// The address is the client's own, unless an earlier one has the same credentials.
pub proof fn law_clients_are_admitted(
    config: ServerConfig,
    headers: Seq<(Seq<char>, Seq<u8>)>,
    i: int,
)
    requires
        0 <= i < config.clients@.len(),
        credentials(headers) == Some((config.clients@[i].username@, config.clients@[i].password@)),
        asks_for_websocket(headers),
    ensures
        request_answer(config, Some(config.ws_path@), headers) matches StepView::Admitted {
            tunnel_addr,
            user,
            context,
        } && user == config.clients@[i].username@ && Some(context) == handshake_context(headers)
            && ((forall|j: int|
            0 <= j < i ==> !has_credentials(
                #[trigger] config.clients@[j],
                credentials(headers)->0,
            )) ==> tunnel_addr == config.clients@[i].tcp_addr@),
{
    lemma_find_client(config.clients@, credentials(headers)->0);
    if forall|j: int|
        0 <= j < i ==> !has_credentials(#[trigger] config.clients@[j], credentials(headers)->0) {
        lemma_first_client(config.clients@, credentials(headers)->0, i);
    }
}

/// The first client with the credentials is the one that is found.
proof fn lemma_first_client(clients: Seq<Client>, pair: (Seq<char>, Seq<char>), i: int)
    requires
        0 <= i < clients.len(),
        has_credentials(clients[i], pair),
        forall|j: int| 0 <= j < i ==> !has_credentials(#[trigger] clients[j], pair),
    ensures
        find_client(clients, pair) == Some(clients[i]),
    decreases i,
{
    if i > 0 {
        assert(!has_credentials(clients[0], pair));
        assert forall|j: int| 0 <= j < i - 1 implies !has_credentials(
            #[trigger] clients.skip(1)[j],
            pair,
        ) by {
            assert(clients.skip(1)[j] == clients[j + 1]);
        }
        assert(clients.skip(1)[i - 1] == clients[i]);
        lemma_first_client(clients.skip(1), pair, i - 1);
    }
}

/// A complete request that is not admitted is refused: as not found unless it asks for a websocket
/// at the configured path, and otherwise as unauthorized. Credentials make no difference to a
/// request that is not found.
pub proof fn law_others_are_refused(
    config: ServerConfig,
    path: Option<Seq<char>>,
    headers: Seq<(Seq<char>, Seq<u8>)>,
)
    ensures
        request_answer(config, path, headers) == not_found(path) <==> (path != Some(config.ws_path@)
            || !asks_for_websocket(headers)),
        request_answer(config, path, headers) == unauthorized() <==> (path == Some(config.ws_path@)
            && asks_for_websocket(headers) && forall|i: int|
            0 <= i < config.clients@.len() ==> credentials(headers) != Some(
                ((#[trigger] config.clients@[i]).username@, config.clients@[i].password@),
            )),
        request_answer(config, path, headers) is Admitted || request_answer(config, path, headers)
            == not_found(path) || request_answer(config, path, headers) == unauthorized(),
{
    lemma_refusals_differ(path);
    match credentials(headers) {
        Some(pair) => {
            lemma_find_client(config.clients@, pair);
            if let Some(client) = find_client(config.clients@, pair) {
                let i = choose|i: int| 0 <= i < config.clients@.len() && config.clients@[i]
                    == client;
                assert(config.clients@[i].username@ == pair.0);
            } else {
                assert forall|i: int| 0 <= i < config.clients@.len() implies credentials(headers)
                    != Some(
                    ((#[trigger] config.clients@[i]).username@, config.clients@[i].password@),
                ) by {
                    assert(!has_credentials(config.clients@[i], pair));
                }
            }
        },
        None => {},
    }
}

/// The two refusals are not the same.
proof fn lemma_refusals_differ(path: Option<Seq<char>>)
    ensures
        unauthorized() != not_found(path),
{
    reveal_strlit(
        "HTTP/1.1 401 Unauthorized\r\nContent-Length: 0\r\nConnection: close\r\n\r\n",
    );
    reveal_strlit("HTTP/1.1 404 Not Found\r\nContent-Length: 0\r\nConnection: close\r\n\r\n");
    assert(UNAUTHORIZED@[11] == '1');
    assert(NOT_FOUND@[11] == '4');
}

/// The client that is found is the first that has both the user name and the password, and there is
/// none exactly if no client has both.
pub proof fn law_first_client_is_found(
    clients: Seq<Client>,
    username: Seq<char>,
    password: Seq<char>,
    i: int,
)
    ensures
        0 <= i < clients.len() && clients[i].username@ == username && clients[i].password@ == password
            && (forall|j: int|
            0 <= j < i ==> (#[trigger] clients[j]).username@ != username || clients[j].password@
                != password) ==> find_client(clients, (username, password)) == Some(clients[i]),
        find_client(clients, (username, password)) is None <==> forall|j: int|
            0 <= j < clients.len() ==> (#[trigger] clients[j]).username@ != username
                || clients[j].password@ != password,
{
    let pair = (username, password);
    lemma_find_client(clients, pair);
    if 0 <= i < clients.len() && clients[i].username@ == username && clients[i].password@ == password
        && (forall|j: int|
        0 <= j < i ==> (#[trigger] clients[j]).username@ != username || clients[j].password@
            != password) {
        lemma_first_client(clients, pair, i);
    }
    if find_client(clients, pair) is None {
        assert forall|j: int| 0 <= j < clients.len() implies (#[trigger] clients[j]).username@
            != username || clients[j].password@ != password by {
            assert(!has_credentials(clients[j], pair));
        }
    } else {
        let client = find_client(clients, pair)->0;
        let k = choose|k: int| 0 <= k < clients.len() && clients[k] == client;
        assert(clients[k].username@ == username);
    }
}

/// Who asks for a websocket at the configured path with the user name and the password of a client is
/// admitted under that name, with the address of that client (of the first, if several have both),
/// and with the context that was asked for.
pub proof fn law_client_gets_its_own_address(
    config: ServerConfig,
    context: ContextView,
    i: int,
)
    requires
        0 <= i < config.clients@.len(),
        forall|j: int|
            0 <= j < i ==> (#[trigger] config.clients@[j]).username@ != config.clients@[i].username@
                || config.clients@[j].password@ != config.clients@[i].password@,
    ensures
        answer(
            config,
            Some(config.ws_path@),
            Some((config.clients@[i].username@, config.clients@[i].password@)),
            Some(context),
        ) == (StepView::Admitted {
            tunnel_addr: config.clients@[i].tcp_addr@,
            user: config.clients@[i].username@,
            context,
        }),
{
    law_first_client_is_found(
        config.clients@,
        config.clients@[i].username@,
        config.clients@[i].password@,
        i,
    );
}

/// Who asks for another path, or for no websocket, is told that there is nothing, after two seconds
/// and whatever the credentials are.
pub proof fn law_nothing_else_is_found(
    config: ServerConfig,
    path: Option<Seq<char>>,
    auth: Option<(Seq<char>, Seq<char>)>,
    context: Option<ContextView>,
)
    requires
        path != Some(config.ws_path@) || context is None,
    ensures
        answer(config, path, auth, context) == (StepView::Refused {
            pause_secs: 2,
            html: "HTTP/1.1 404 Not Found\r\nContent-Length: 0\r\nConnection: close\r\n\r\n"@,
            unknown_path: path,
        }),
{
}

/// Who asks for a websocket at the configured path, but has not both the user name and the password
/// of one client, is told that they are not authorized, after two seconds.
pub proof fn law_strangers_are_unauthorized(
    config: ServerConfig,
    auth: Option<(Seq<char>, Seq<char>)>,
    context: ContextView,
)
    requires
        auth matches Some(pair) ==> forall|j: int|
            0 <= j < config.clients@.len() ==> (#[trigger] config.clients@[j]).username@ != pair.0
                || config.clients@[j].password@ != pair.1,
    ensures
        answer(config, Some(config.ws_path@), auth, Some(context)) == (StepView::Refused {
            pause_secs: 2,
            html: "HTTP/1.1 401 Unauthorized\r\nContent-Length: 0\r\nConnection: close\r\n\r\n"@,
            unknown_path: None,
        }),
{
    if let Some(pair) = auth {
        law_first_client_is_found(config.clients@, pair.0, pair.1, 0);
    }
}

/// What comes of the bytes of a complete request, whose handshake headers are text and fit in a
/// context, depends on three things alone: its path, its credentials, and what it asks for. Whatever
/// else it holds, and however many headers it has, a client at the configured path that asks for a
/// websocket is admitted with its own address; who has not the credentials of a client is not
/// authorized; and everybody else finds nothing.
pub proof fn law_complete_request_is_answered(
    config: ServerConfig,
    received: Seq<u8>,
    len: usize,
    path: Option<Seq<char>>,
    headers: Seq<(Seq<char>, Seq<u8>)>,
    i: int,
)
    requires
        request_parse(received, 16) == Ok::<_, Seq<char>>(Some((len, path, headers))),
        handshake_fits(headers, 3),
        !has_unreadable(headers),
    ensures
        head_result(config, received) == request_result(config, path, headers),
        path == Some(config.ws_path@) && asks_for_websocket(headers) && 0 <= i
            < config.clients@.len() && credentials(headers) == Some(
            (config.clients@[i].username@, config.clients@[i].password@),
        ) && (forall|j: int|
            0 <= j < i ==> (#[trigger] config.clients@[j]).username@ != config.clients@[i].username@
                || config.clients@[j].password@ != config.clients@[i].password@) ==> head_result(
            config,
            received,
        ) == Ok::<StepView, HeadErrorView>(
            StepView::Admitted {
                tunnel_addr: config.clients@[i].tcp_addr@,
                user: config.clients@[i].username@,
                context: handshake_context(headers)->0,
            },
        ),
        path != Some(config.ws_path@) || !asks_for_websocket(headers) ==> head_result(
            config,
            received,
        ) == Ok::<StepView, HeadErrorView>(
            StepView::Refused {
                pause_secs: 2,
                html: "HTTP/1.1 404 Not Found\r\nContent-Length: 0\r\nConnection: close\r\n\r\n"@,
                unknown_path: path,
            },
        ),
        path == Some(config.ws_path@) && asks_for_websocket(headers) && (credentials(
            headers,
        ) matches Some(pair) ==> forall|j: int|
            0 <= j < config.clients@.len() ==> (#[trigger] config.clients@[j]).username@ != pair.0
                || config.clients@[j].password@ != pair.1) ==> head_result(config, received) == Ok::<
            StepView,
            HeadErrorView,
        >(
            StepView::Refused {
                pause_secs: 2,
                html: "HTTP/1.1 401 Unauthorized\r\nContent-Length: 0\r\nConnection: close\r\n\r\n"@,
                unknown_path: None,
            },
        ),
{
    let auth = credentials(headers);
    let context = handshake_context(headers);
    if path != Some(config.ws_path@) || !asks_for_websocket(headers) {
        law_nothing_else_is_found(config, path, auth, context);
    } else {
        if 0 <= i < config.clients@.len() && (forall|j: int|
            0 <= j < i ==> (#[trigger] config.clients@[j]).username@ != config.clients@[i].username@
                || config.clients@[j].password@ != config.clients@[i].password@) {
            law_client_gets_its_own_address(config, context->0, i);
        }
        if auth matches Some(pair) ==> forall|j: int|
            0 <= j < config.clients@.len() ==> (#[trigger] config.clients@[j]).username@ != pair.0
                || config.clients@[j].password@ != pair.1 {
            law_strangers_are_unauthorized(config, auth, context->0);
        }
    }
}

/// When a request is not answered: never while its head is incomplete, when reading goes on; with the
/// error of the parser if it cannot be parsed; because it does not fit in a context, before anything
/// else is looked at; and with the error of the handshake if a handshake header is not text.
pub proof fn law_unanswered_requests_have_a_reason(config: ServerConfig, received: Seq<u8>)
    ensures
        match request_parse(received, 16) {
            Err(error) => head_result(config, received) == Err::<StepView, _>(
                HeadErrorView::Malformed(error),
            ),
            Ok(None) => head_result(config, received) == Ok::<StepView, HeadErrorView>(
                StepView::KeepReading,
            ),
            Ok(Some((len, path, headers))) => {
                &&& !handshake_fits(headers, 3) <==> head_result(config, received) == Err::<
                    StepView,
                    _,
                >(HeadErrorView::Oversized)
                &&& handshake_fits(headers, 3) && has_unreadable(headers) <==> head_result(
                    config,
                    received,
                ) == Err::<StepView, _>(HeadErrorView::WebSocket(handshake_error(headers)))
                &&& head_result(config, received) is Ok <==> handshake_fits(headers, 3)
                    && !has_unreadable(headers)
            },
        },
{
}

/// Where the cursor is after a read: behind all that was received while the head is incomplete, at
/// the number of bytes behind the head once it is complete, and where it was if it cannot be parsed.
pub proof fn law_cursor_counts_what_is_left(received: Seq<u8>, before: nat)
    ensures
        request_parse(received, 16) is Err ==> head_cursor(received, before) == before,
        request_parse(received, 16) matches Ok(None) ==> head_cursor(received, before)
            == received.len(),
        request_parse(received, 16) matches Ok(Some((len, _, _))) ==> len <= received.len()
            ==> head_cursor(received, before) + len == received.len(),
{
}

/// What comes of a request is told as it is: a step as a step, with every part of it, and each error
/// as that error.
pub proof fn law_results_are_told_as_they_are<P>(
    r: Result<HeaderStep, HeaderError<P>>,
    step: StepView,
    text: Seq<char>,
    error: embedded_websocket::Error,
)
    ensures
        is_result(r, Ok(step)) <==> r is Ok && r->Ok_0@ == step,
        is_result(r, Err(HeadErrorView::Malformed(text))) <==> (r matches Err(
            HeaderError::Malformed(told),
        ) && told@ == text),
        is_result(r, Err(HeadErrorView::Oversized)) <==> r matches Err(HeaderError::Oversized),
        is_result(r, Err(HeadErrorView::WebSocket(error))) <==> r == Err::<HeaderStep, _>(
            HeaderError::Server(ServerError::<P>::WebSocket(error)),
        ),
{
}

/// A step is seen as it is, with every part of it.
pub proof fn law_steps_are_seen_as_they_are(
    header: WebSocketHeader,
    refusal: Refusal,
    auth: Option<(String, String)>,
)
    ensures
        HeaderStep::KeepReading@ is KeepReading,
        HeaderStep::Admitted(header)@ == (StepView::Admitted {
            tunnel_addr: header.tunnel_addr@,
            user: header.user@,
            context: header.websocket_context@,
        }),
        HeaderStep::Refused(refusal)@ == (StepView::Refused {
            pause_secs: refusal.pause_secs,
            html: refusal.html@,
            unknown_path: option_text(refusal.unknown_path),
        }),
        option_pair(auth) is Some <==> auth is Some,
        auth matches Some(pair) ==> option_pair(auth) == Some((pair.0@, pair.1@)),
{
}

/// A request has at most 16 headers and is read into 4000 bytes.
pub proof fn law_admission_settings()
    ensures
        MAX_HEADERS == 16,
        READ_BUF_LEN == 4000,
{
}

/// What a refused request is told, and when.
pub proof fn law_refusals_say_why(
    path: &Option<String>,
    unauthorized: Refusal,
    not_found: Refusal,
)
    requires
        call_ensures(return_401_unauthorized, (), unauthorized),
        call_ensures(return_404_not_found, (path,), not_found),
    ensures
        unauthorized.pause_secs == 2,
        unauthorized.html@ == "HTTP/1.1 401 Unauthorized\r\nContent-Length: 0\r\nConnection: close\r\n\r\n"@,
        not_found.pause_secs == 2,
        not_found.html@ == "HTTP/1.1 404 Not Found\r\nContent-Length: 0\r\nConnection: close\r\n\r\n"@,
        not_found.unknown_path is Some <==> path is Some,
        not_found.unknown_path matches Some(text) ==> text@ == path->0@,
{
}

/// The client that is looked up is the first that has both the user name and the password; there is
/// none exactly if no client has both.
pub proof fn law_looked_up_client_has_the_credentials(
    clients: &Vec<Client>,
    username: &String,
    password: &String,
    r: Option<&Client>,
    i: int,
)
    requires
        call_ensures(lookup_client, (clients, username, password), r),
    ensures
        r is None <==> forall|j: int|
            0 <= j < clients@.len() ==> (#[trigger] clients@[j]).username@ != username@
                || clients@[j].password@ != password@,
        0 <= i < clients@.len() && clients@[i].username@ == username@ && clients@[i].password@
            == password@ && (forall|j: int|
            0 <= j < i ==> (#[trigger] clients@[j]).username@ != username@ || clients@[j].password@
                != password@) ==> (r matches Some(client) && *client == clients@[i]),
{
    law_first_client_is_found(clients@, username@, password@, i);
}

/// How a complete request is answered: a client at the configured path that asks for a websocket is
/// admitted with its own address and the context of its handshake; who is no client there is told so;
/// and everybody else is told that there is nothing.
pub proof fn law_answer_is_by_path_handshake_and_credentials(
    config: &ServerConfig,
    path: &Option<String>,
    auth: &Option<(String, String)>,
    context: Option<WebSocketContext>,
    r: HeaderStep,
    i: int,
)
    requires
        call_ensures(answer_request, (config, path, auth, context), r),
    ensures
        context is None || path is None || path->0@ != config.ws_path@ ==> (r matches
            HeaderStep::Refused(refusal) && refusal.pause_secs == 2 && refusal.html@ == "HTTP/1.1 404 Not Found\r\nContent-Length: 0\r\nConnection: close\r\n\r\n"@),
        context is Some && path is Some && path->0@ == config.ws_path@ ==> {
            &&& (auth matches Some(pair) ==> forall|j: int|
                0 <= j < config.clients@.len() ==> (#[trigger] config.clients@[j]).username@
                    != pair.0@ || config.clients@[j].password@ != pair.1@) ==> (r matches
                HeaderStep::Refused(refusal) && refusal.pause_secs == 2 && refusal.html@ == "HTTP/1.1 401 Unauthorized\r\nContent-Length: 0\r\nConnection: close\r\n\r\n"@)
            &&& auth matches Some(pair) ==> (0 <= i < config.clients@.len()
                && config.clients@[i].username@ == pair.0@ && config.clients@[i].password@
                == pair.1@ && (forall|j: int|
                0 <= j < i ==> (#[trigger] config.clients@[j]).username@ != pair.0@
                    || config.clients@[j].password@ != pair.1@) ==> (r matches HeaderStep::Admitted(
                header,
            ) && header.tunnel_addr@ == config.clients@[i].tcp_addr@ && header.user@
                == config.clients@[i].username@ && header.websocket_context@ == context->0@))
        },
{
    let wanted = option_text(*path);
    let pair = option_pair(*auth);
    let seen = option_context(context);
    if context is None || path is None || path->0@ != config.ws_path@ {
        law_nothing_else_is_found(*config, wanted, pair, seen);
    } else {
        if auth matches Some(pair) ==> forall|j: int|
            0 <= j < config.clients@.len() ==> (#[trigger] config.clients@[j]).username@ != pair.0@
                || config.clients@[j].password@ != pair.1@ {
            law_strangers_are_unauthorized(*config, pair, seen->0);
        }
        if let Some((username, password)) = auth {
            if 0 <= i < config.clients@.len() && config.clients@[i].username@ == username@
                && config.clients@[i].password@ == password@ && (forall|j: int|
                0 <= j < i ==> (#[trigger] config.clients@[j]).username@ != username@
                    || config.clients@[j].password@ != password@) {
                law_client_gets_its_own_address(*config, seen->0, i);
            }
        }
    }
}

/// The error of a handshake that could not be read is passed on as it is; otherwise the request is
/// answered.
pub proof fn law_handshake_errors_are_passed_on<P>(
    config: &ServerConfig,
    path: &Option<String>,
    auth: &Option<(String, String)>,
    outcome: Result<Option<WebSocketContext>, embedded_websocket::Error>,
    r: Result<HeaderStep, ServerError<P>>,
)
    requires
        call_ensures(answer_handshake::<P>, (config, path, auth, outcome), r),
    ensures
        outcome matches Err(error) ==> r == Err::<HeaderStep, _>(ServerError::<P>::WebSocket(error)),
        outcome matches Ok(context) ==> (r matches Ok(step) && step@ == answer(
            *config,
            option_text(*path),
            option_pair(*auth),
            option_context(context),
        )),
{
}

/// What comes of a complete request, whose handshake headers are text and fit in a context, once it
/// was parsed: who asks for a websocket at the configured path with the credentials of a client is
/// admitted with the address of that client, however many headers there are; and the cursor is left
/// at the number of bytes that came behind the head.
pub proof fn law_parsed_request_is_answered<P>(
    status: RequestStatus,
    total: usize,
    config: &ServerConfig,
    r: Result<HeaderStep, HeaderError<P>>,
    i: int,
)
    requires
        status matches RequestStatus::Complete(len, request) ==> len <= total && handshake_fits(
            header_views(request.headers@),
            3,
        ) && !has_unreadable(header_views(request.headers@)),
    ensures
        forall|read_cursor: &mut usize| #[trigger]
            call_ensures(apply_status::<P>, (status, total, read_cursor, config), r) ==> {
                &&& status is Partial ==> *final(read_cursor) == total && r
                    == Ok::<HeaderStep, HeaderError<P>>(HeaderStep::KeepReading)
                &&& status matches RequestStatus::Complete(len, request) ==> {
                    let headers = header_views(request.headers@);
                    &&& *final(read_cursor) + len == total
                    &&& request.path is None || request.path->0@ != config.ws_path@
                        || !asks_for_websocket(headers) ==> (r matches Ok(
                        HeaderStep::Refused(refusal),
                    ) && refusal.pause_secs == 2 && refusal.html@ == "HTTP/1.1 404 Not Found\r\nContent-Length: 0\r\nConnection: close\r\n\r\n"@)
                    &&& request.path is Some && request.path->0@ == config.ws_path@
                        && asks_for_websocket(headers) ==> {
                        &&& 0 <= i < config.clients@.len() && credentials(headers) == Some(
                            (config.clients@[i].username@, config.clients@[i].password@),
                        ) && (forall|j: int|
                            0 <= j < i ==> (#[trigger] config.clients@[j]).username@
                                != config.clients@[i].username@ || config.clients@[j].password@
                                != config.clients@[i].password@) ==> (r matches Ok(
                            HeaderStep::Admitted(header),
                        ) && header.tunnel_addr@ == config.clients@[i].tcp_addr@ && header.user@
                            == config.clients@[i].username@ && Some(header.websocket_context@)
                            == handshake_context(headers))
                        &&& (credentials(headers) matches Some(pair) ==> forall|j: int|
                            0 <= j < config.clients@.len() ==> (
                            #[trigger] config.clients@[j]).username@ != pair.0
                                || config.clients@[j].password@ != pair.1) ==> (r matches Ok(
                            HeaderStep::Refused(refusal),
                        ) && refusal.pause_secs == 2 && refusal.html@ == "HTTP/1.1 401 Unauthorized\r\nContent-Length: 0\r\nConnection: close\r\n\r\n"@)
                    }
                }
            },
{
    if let RequestStatus::Complete(len, request) = status {
        let headers = header_views(request.headers@);
        let path = option_text(request.path);
        let auth = credentials(headers);
        let context = handshake_context(headers);
        law_context_holds_the_key_and_the_first_protocols(headers);
        if path != Some(config.ws_path@) || !asks_for_websocket(headers) {
            law_nothing_else_is_found(*config, path, auth, context);
        } else {
            if 0 <= i < config.clients@.len() && (forall|j: int|
                0 <= j < i ==> (#[trigger] config.clients@[j]).username@
                    != config.clients@[i].username@ || config.clients@[j].password@
                    != config.clients@[i].password@) {
                law_client_gets_its_own_address(*config, context->0, i);
            }
            if auth matches Some(pair) ==> forall|j: int|
                0 <= j < config.clients@.len() ==> (#[trigger] config.clients@[j]).username@
                    != pair.0 || config.clients@[j].password@ != pair.1 {
                law_strangers_are_unauthorized(*config, auth, context->0);
            }
        }
    }
}

/// What comes of a read of a request: a failed read ends it with that error, and leaves the cursor
/// where it was; otherwise it is what comes of all the bytes that were received so far.
pub proof fn law_read_goes_on_from_what_was_received<P>(
    read_buf: &[u8],
    before: usize,
    received: Result<usize, std::io::Error>,
    config: &ServerConfig,
    r: Result<HeaderStep, HeaderError<P>>,
)
    requires
        received matches Ok(size) ==> before + size <= read_buf@.len(),
    ensures
        forall|read_cursor: &mut usize|
            *read_cursor == before && #[trigger] call_ensures(
                read_header::<P>,
                (read_buf, read_cursor, received, config),
                r,
            ) ==> {
                &&& received matches Err(error) ==> r == Err::<HeaderStep, _>(
                    HeaderError::Server(ServerError::<P>::Io(error)),
                ) && *final(read_cursor) == before
                &&& received matches Ok(size) ==> {
                    let bytes = read_buf@.take(before + size);
                    &&& is_result(r, head_result(*config, bytes))
                    &&& request_parse(bytes, 16) matches Err(error) ==> *final(read_cursor)
                        == before
                    &&& request_parse(bytes, 16) matches Ok(None) ==> *final(read_cursor) == before
                        + size
                    &&& request_parse(bytes, 16) matches Ok(Some((len, _, _)))
                        ==> *final(read_cursor) + len == before + size
                }
            },
{
}

} // verus!
