//! The head of an HTTP request.

use vstd::prelude::*;

verus! {

/// One header line of a request.
#[derive(Debug, PartialEq, Eq)]
pub struct Header {
    /// The name, as it was sent.
    pub name: String,
    /// The value, which need not be text.
    pub value: Vec<u8>,
}

impl View for Header {
    type V = (Seq<char>, Seq<u8>);

    open spec fn view(&self) -> (Seq<char>, Seq<u8>) {
        (self.name@, self.value@)
    }
}

/// The names and values of a list of headers.
pub open spec fn header_views(headers: Seq<Header>) -> Seq<(Seq<char>, Seq<u8>)> {
    headers.map_values(|h: Header| h@)
}

/// What a request asks for.
#[derive(Debug, PartialEq, Eq)]
pub struct Request {
    /// The path, if the request names one.
    pub path: Option<String>,
    /// The headers, in the order in which they were sent.
    pub headers: Vec<Header>,
}

/// How far the head of a request has been received.
#[derive(Debug, PartialEq, Eq)]
pub enum RequestStatus {
    /// It is complete, and this many bytes long.
    Complete(usize, Request),
    /// Some of it is still to come.
    Partial,
}

/// The characters of a string that may be missing.
pub open spec fn option_text(text: Option<String>) -> Option<Seq<char>> {
    match text {
        Some(s) => Some(s@),
        None => None,
    }
}

impl View for RequestStatus {
    type V = Option<(usize, Option<Seq<char>>, Seq<(Seq<char>, Seq<u8>)>)>;

    open spec fn view(&self) -> Option<(usize, Option<Seq<char>>, Seq<(Seq<char>, Seq<u8>)>)> {
        match self {
            RequestStatus::Complete(len, request) => Some(
                (*len, option_text(request.path), header_views(request.headers@)),
            ),
            RequestStatus::Partial => None,
        }
    }
}

/// What `httparse::Request::parse` makes of some bytes, given room for so many headers: the
/// length, the path and the headers of a complete head, `None` for one that is not complete, or
/// the text of the error.
pub uninterp spec fn request_parse(bytes: Seq<u8>, max_headers: usize) -> Result<
    Option<(usize, Option<Seq<char>>, Seq<(Seq<char>, Seq<u8>)>)>,
    Seq<char>,
>;

/// Whether the first `len` bytes are the head of a request, whatever follows them: it is complete
/// once they are all there, and not before.
pub open spec fn is_head(bytes: Seq<u8>, max_headers: usize, len: usize) -> bool {
    &&& len <= bytes.len()
    &&& request_parse(bytes, max_headers) matches Ok(Some((parsed, _, _))) && parsed == len
    &&& forall|n: int|
        0 <= n <= bytes.len() ==> request_parse(#[trigger] bytes.take(n), max_headers) == if n
            < len {
            Ok(None)
        } else {
            request_parse(bytes, max_headers)
        }
}

/// `httparse::Request::parse`: reads the head of a request at the start of `bytes`, into room for
/// `max_headers` headers, which is allocated first. It takes the bytes one after the other, asks for
/// more when they run out, and stops behind the last byte of the head: so of a complete head, every
/// shorter piece is incomplete, and what comes behind it makes no difference.
#[verifier::external_body]
pub(crate) fn parse_request(bytes: &[u8], max_headers: usize) -> (r: Result<RequestStatus, String>)
    requires
        max_headers <= u16::MAX,
    ensures
        match r {
            Ok(status) => request_parse(bytes@, max_headers) == Ok::<_, Seq<char>>(status@),
            Err(error) => request_parse(bytes@, max_headers) == Err::<
                Option<(usize, Option<Seq<char>>, Seq<(Seq<char>, Seq<u8>)>)>,
                _,
            >(error@),
        },
        r matches Ok(RequestStatus::Complete(len, _)) ==> is_head(bytes@, max_headers, len),
{
    let mut headers = vec![httparse::EMPTY_HEADER; max_headers];
    let mut request = httparse::Request::new(&mut headers);
    let status = request.parse(bytes).map_err(|e| e.to_string())?;
    Ok(match status {
        httparse::Status::Complete(len) => RequestStatus::Complete(len, Request {
            path: request.path.map(|p| p.to_owned()),
            headers: request.headers.iter().map(
                |h| Header { name: h.name.to_owned(), value: h.value.to_owned() },
            ).collect(),
        }),
        httparse::Status::Partial => RequestStatus::Partial,
    })
}

/// The parts of a request are seen as they are: every header in its place, with its name and value,
/// and the path and the length of a head that is complete.
pub proof fn law_request_is_seen_as_it_is(
    headers: Seq<Header>,
    path: Option<String>,
    status: RequestStatus,
)
    ensures
        header_views(headers).len() == headers.len(),
        forall|i: int|
            0 <= i < headers.len() ==> #[trigger] header_views(headers)[i] == (
                headers[i].name@,
                headers[i].value@,
            ),
        option_text(path) is Some <==> path is Some,
        path matches Some(text) ==> option_text(path) == Some(text@),
        status@ is None <==> status is Partial,
        status matches RequestStatus::Complete(len, request) ==> status@ == Some(
            (len, option_text(request.path), header_views(request.headers@)),
        ),
{
}

/// The head of a request is complete with its last byte and not before, and bytes that follow it
/// change nothing of what is read from it.
pub proof fn law_head_ends_with_its_last_byte(
    bytes: Seq<u8>,
    max_headers: usize,
    len: usize,
    n: int,
)
    requires
        is_head(bytes, max_headers, len),
        0 <= n <= bytes.len(),
    ensures
        n < len ==> request_parse(bytes.take(n), max_headers) == Ok::<
            Option<(usize, Option<Seq<char>>, Seq<(Seq<char>, Seq<u8>)>)>,
            Seq<char>,
        >(None),
        n >= len ==> request_parse(bytes.take(n), max_headers) == request_parse(bytes, max_headers),
        request_parse(bytes, max_headers) matches Ok(Some((parsed, _, _))) && parsed == len,
{
}

} // verus!
