//! The credentials of a request: HTTP basic authentication, read by the server and written by
//! the client.

use crate::request::{header_views, Header};
use crate::text::{
    law_text_is_split_at_its_first_colon, lemma_encode_utf8_concat, lemma_split_at_colon,
    split_at_colon, split_once_colon,
};
use vstd::prelude::*;
use vstd::slice::*;
use vstd::string::*;
use vstd::utf8::*;

verus! {

/// The name of the header that carries the credentials.
pub const AUTHORIZATION: &'static str = "Authorization";

/// What stands before the encoded credentials in the value of that header.
pub const BASIC: &'static str = "Basic ";

/// The error of a failed base64 decoding, which nothing here looks into.
#[verifier::external_type_specification]
#[verifier::external_body]
pub struct ExDecodeError(base64::DecodeError);

/// The base64 text that `base64::encode` makes of some bytes.
pub uninterp spec fn base64_encoded(bytes: Seq<u8>) -> Seq<char>;

/// The bytes that `base64::decode` makes of a text given as bytes, or `None` where it fails.
pub uninterp spec fn base64_decoded(text: Seq<u8>) -> Option<Seq<u8>>;

/// `base64::decode`: the standard alphabet, strict about misplaced padding and about trailing bits.
/// It panics only where the length of the text nears `usize::MAX`, which no slice's does.
#[verifier::external_body]
fn decode_base64(text: &[u8]) -> (r: Result<Vec<u8>, base64::DecodeError>)
    ensures
        match r {
            Ok(bytes) => base64_decoded(text@) == Some(bytes@),
            Err(_) => base64_decoded(text@) is None,
        },
{
    base64::decode(text)
}

/// A character of base64 text: the standard alphabet and the padding.
pub open spec fn is_base64_char(c: char) -> bool {
    'A' <= c <= 'Z' || 'a' <= c <= 'z' || '0' <= c <= '9' || c == '+' || c == '/' || c == '='
}

/// The length of the base64 text of so many bytes: four characters for every three bytes begun.
pub open spec fn base64_len(len: nat) -> nat {
    (len + 2) / 3 * 4
}

/// `base64::encode`: the standard alphabet, padded. The text has four characters for every
/// three bytes begun, all of them of that alphabet, and decodes to the bytes again.
#[verifier::external_body]
fn encode_base64(bytes: &[u8]) -> (r: String)
    requires
        base64_len(bytes@.len()) <= isize::MAX,
    ensures
        r@ == base64_encoded(bytes@),
        r@.len() == base64_len(bytes@.len()),
        forall|i: int| 0 <= i < r@.len() ==> is_base64_char(#[trigger] r@[i]),
        base64_decoded(encode_utf8(r@)) == Some(bytes@),
{
    base64::encode(bytes)
}

/// What one header says of the credentials.
#[derive(Debug, PartialEq, Eq)]
pub enum Authorization {
    /// Nothing: a later header may still carry them.
    Ignored,
    /// It carries credentials that cannot be read.
    Refused,
    /// It carries this user name and this password.
    Credentials(String, String),
}

/// What one header says of the credentials, over characters.
pub enum AuthorizationView {
    Ignored,
    Refused,
    Credentials(Seq<char>, Seq<char>),
}

impl View for Authorization {
    type V = AuthorizationView;

    open spec fn view(&self) -> AuthorizationView {
        match self {
            Authorization::Ignored => AuthorizationView::Ignored,
            Authorization::Refused => AuthorizationView::Refused,
            Authorization::Credentials(username, password) => AuthorizationView::Credentials(
                username@,
                password@,
            ),
        }
    }
}

/// The encoded credentials that a header carries: it is named `Authorization`, its value is text
/// that starts with `Basic `, and something follows.
pub open spec fn basic_token(header: (Seq<char>, Seq<u8>)) -> Option<Seq<u8>> {
    let prefix = encode_utf8(BASIC@);
    if header.0 == AUTHORIZATION@ && valid_utf8(header.1) && header.1.len() > prefix.len()
        && header.1.take(prefix.len() as int) == prefix {
        Some(header.1.skip(prefix.len() as int))
    } else {
        None
    }
}

/// What decoded credentials say: they must be text, and the user name ends at the first colon.
/// Text without a colon says nothing.
pub open spec fn decoded_authorization(decoded: Option<Seq<u8>>) -> AuthorizationView {
    match decoded {
        None => AuthorizationView::Refused,
        Some(bytes) => if !valid_utf8(bytes) {
            AuthorizationView::Refused
        } else {
            match split_at_colon(decode_utf8(bytes)) {
                Some((username, password)) => AuthorizationView::Credentials(username, password),
                None => AuthorizationView::Ignored,
            }
        },
    }
}

/// What one header says of the credentials.
pub open spec fn header_authorization(header: (Seq<char>, Seq<u8>)) -> AuthorizationView {
    match basic_token(header) {
        None => AuthorizationView::Ignored,
        Some(token) => decoded_authorization(base64_decoded(token)),
    }
}

/// The credentials of a request: those of the first header that is not ignored.
pub open spec fn credentials(headers: Seq<(Seq<char>, Seq<u8>)>) -> Option<(Seq<char>, Seq<char>)>
    decreases headers.len(),
{
    if headers.len() == 0 {
        None
    } else {
        match header_authorization(headers[0]) {
            AuthorizationView::Ignored => credentials(headers.skip(1)),
            AuthorizationView::Refused => None,
            AuthorizationView::Credentials(username, password) => Some((username, password)),
        }
    }
}

/// Reads decoded credentials; `None` stands for a decoding that failed.
pub fn read_decoded_authorization(decoded: Option<Vec<u8>>) -> (r: Authorization)
    ensures
        r@ == decoded_authorization(
            match decoded {
                Some(bytes) => Some(bytes@),
                None => None,
            },
        ),
{
    match decoded {
        None => Authorization::Refused,
        Some(bytes) => match core::str::from_utf8(bytes.as_slice()) {
            Err(_) => Authorization::Refused,
            Ok(text) => match split_once_colon(text) {
                Some((username, password)) => Authorization::Credentials(username, password),
                None => Authorization::Ignored,
            },
        },
    }
}

/// Whether `bytes` starts with `prefix`.
fn starts_with(bytes: &[u8], prefix: &[u8]) -> (r: bool)
    ensures
        r == (prefix@.len() <= bytes@.len() && bytes@.take(prefix@.len() as int) == prefix@),
{
    if bytes.len() < prefix.len() {
        return false;
    }
    for i in 0..prefix.len()
        invariant
            prefix@.len() <= bytes@.len(),
            forall|j: int| 0 <= j < i ==> bytes@[j] == prefix@[j],
    {
        if bytes[i] != prefix[i] {
            assert(bytes@.take(prefix@.len() as int)[i as int] != prefix@[i as int]);
            return false;
        }
    }
    assert(bytes@.take(prefix@.len() as int) =~= prefix@);
    true
}

/// Reads what one header says of the credentials.
pub fn read_header_authorization(header: &Header) -> (r: Authorization)
    ensures
        r@ == header_authorization(header@),
{
    let prefix = BASIC.as_bytes();
    let value = header.value.as_slice();
    if *header.name.as_str() == *AUTHORIZATION && core::str::from_utf8(value).is_ok()
        && value.len() > prefix.len() && starts_with(value, prefix) {
        let token = slice_subrange(value, prefix.len(), value.len());
        assert(token@ =~= header@.1.skip(prefix@.len() as int));
        read_decoded_authorization(decode_base64(token).ok())
    } else {
        Authorization::Ignored
    }
}

/// Reads the credentials of a request from its headers.
pub fn read_authorization_header(headers: &[Header]) -> (r: Option<(String, String)>)
    ensures
        match r {
            Some((username, password)) => credentials(header_views(headers@)) == Some(
                (username@, password@),
            ),
            None => credentials(header_views(headers@)) is None,
        },
{
    let ghost views = header_views(headers@);
    assert(views.skip(0) =~= views);
    for i in 0..headers.len()
        invariant
            views == header_views(headers@),
            credentials(views) == credentials(views.skip(i as int)),
    {
        assert(views.skip(i as int).skip(1) =~= views.skip(i + 1));
        match read_header_authorization(&headers[i]) {
            Authorization::Ignored => {},
            Authorization::Refused => {
                return None;
            },
            Authorization::Credentials(username, password) => {
                return Some((username, password));
            },
        }
    }
    None
}

/// The text that a client encodes: user name and password, with a colon between them.
pub open spec fn credentials_text(username: Seq<char>, password: Seq<char>) -> Seq<char> {
    username + seq![':'] + password
}

/// The value of the header that a client sends.
pub open spec fn authorization_value(username: Seq<char>, password: Seq<char>) -> Seq<char> {
    BASIC@ + base64_encoded(encode_utf8(credentials_text(username, password)))
}

/// Whether the first `Authorization` header of a request has this value.
pub open spec fn carries(headers: Seq<(Seq<char>, Seq<u8>)>, value: Seq<char>) -> bool {
    exists|i: int|
        {
            &&& 0 <= i < headers.len()
            &&& #[trigger] headers[i] == (AUTHORIZATION@, encode_utf8(value))
            &&& forall|j: int| 0 <= j < i ==> (#[trigger] headers[j]).0 != AUTHORIZATION@
        }
}

/// Writes the header line that carries encoded credentials, without a line end.
pub fn basic_header(encoded: &str) -> (r: String)
    ensures
        r@ == AUTHORIZATION@ + seq![':', ' '] + BASIC@ + encoded@,
{
    let mut line: String = AUTHORIZATION.to_owned();
    line.append(": ");
    line.append(BASIC);
    line.append(encoded);
    proof {
        reveal_strlit(": ");
        assert(": "@ =~= seq![':', ' ']);
    }
    line
}

/// Writes the header line with a client's credentials, without a line end.
///
/// From a request that carries this header a server reads what `split_at_colon` makes of the text:
/// the credentials themselves, unless the user name holds a colon. The line holds no line break.
pub fn authorization_header(username: &str, password: &str) -> (r: String)
    requires
        base64_len(encode_utf8(credentials_text(username@, password@)).len()) <= isize::MAX,
    ensures
        r@ == AUTHORIZATION@ + seq![':', ' '] + authorization_value(username@, password@),
        forall|i: int|
            0 <= i < r@.len() ==> #[trigger] r@[i] != '\r' && r@[i] != '\n',
        forall|headers: Seq<(Seq<char>, Seq<u8>)>|
            carries(headers, authorization_value(username@, password@))
                ==> #[trigger] credentials(headers) == split_at_colon(
                credentials_text(username@, password@),
            ),
        !username@.contains(':') ==> split_at_colon(credentials_text(username@, password@))
            == Some((username@, password@)),
{
    let mut text: String = username.to_owned();
    text.append(":");
    text.append(password);
    proof {
        reveal_strlit(":");
        assert(":"@ =~= seq![':']);
    }
    assert(text@ =~= credentials_text(username@, password@));
    let encoded = encode_base64(text.as_str().as_bytes());
    let line = basic_header(encoded.as_str());
    proof {
        reveal_strlit("Basic ");
        reveal_strlit("Authorization");
        assert(line@ =~= AUTHORIZATION@ + seq![':', ' '] + authorization_value(
            username@,
            password@,
        ));
        lemma_authorization_value(username@, password@, encoded@);
        text@.index_of_first_ensures(':');
        assert(text@[username@.len() as int] == ':');
        if !username@.contains(':') {
            lemma_split_at_colon(username@, password@);
        }
        let value = authorization_value(username@, password@);
        assert forall|headers: Seq<(Seq<char>, Seq<u8>)>| carries(
            headers,
            value,
        ) implies #[trigger] credentials(headers) == split_at_colon(text@) by {
            let i = choose|i: int|
                {
                    &&& 0 <= i < headers.len()
                    &&& #[trigger] headers[i] == (AUTHORIZATION@, encode_utf8(value))
                    &&& forall|j: int| 0 <= j < i ==> (#[trigger] headers[j]).0 != AUTHORIZATION@
                };
            law_first_authorization_decides(headers, i);
        }
    }
    line
}

/// What a server reads from the value that a client sends is what it makes of the text that the
/// client encoded.
proof fn lemma_authorization_value(username: Seq<char>, password: Seq<char>, encoded: Seq<char>)
    requires
        encoded == base64_encoded(encode_utf8(credentials_text(username, password))),
        encoded.len() > 0,
        base64_decoded(encode_utf8(encoded)) == Some(
            encode_utf8(credentials_text(username, password)),
        ),
    ensures
        header_authorization(
            (AUTHORIZATION@, encode_utf8(authorization_value(username, password))),
        ) == decoded_authorization(Some(encode_utf8(credentials_text(username, password)))),
        decoded_authorization(Some(encode_utf8(credentials_text(username, password)))) == (
        match split_at_colon(credentials_text(username, password)) {
            Some((u, p)) => AuthorizationView::Credentials(u, p),
            None => AuthorizationView::Ignored,
        }),
{
    broadcast use {encode_utf8_valid_utf8, encode_utf8_decode_utf8};

    let prefix = encode_utf8(BASIC@);
    let value = encode_utf8(BASIC@ + encoded);
    lemma_encode_utf8_concat(BASIC@, encoded);
    assert(value.take(prefix.len() as int) =~= prefix);
    assert(value.skip(prefix.len() as int) =~= encode_utf8(encoded));
    assert(encode_utf8(encoded).len() > 0);
}

/// A header with another name says nothing of the credentials.
pub proof fn law_other_headers_are_ignored(header: (Seq<char>, Seq<u8>))
    requires
        header.0 != AUTHORIZATION@,
    ensures
        header_authorization(header) == AuthorizationView::Ignored,
{
}

/// Headers that are ignored make no difference, wherever they stand.
pub proof fn law_ignored_headers_do_not_matter(
    before: Seq<(Seq<char>, Seq<u8>)>,
    ignored: Seq<(Seq<char>, Seq<u8>)>,
    after: Seq<(Seq<char>, Seq<u8>)>,
)
    requires
        forall|i: int|
            0 <= i < ignored.len() ==> header_authorization(#[trigger] ignored[i])
                == AuthorizationView::Ignored,
    ensures
        credentials(before + ignored + after) == credentials(before + after),
    decreases before.len() + ignored.len(),
{
    let headers = before + ignored + after;
    if before.len() > 0 {
        law_ignored_headers_do_not_matter(before.skip(1), ignored, after);
        assert(headers.skip(1) =~= before.skip(1) + ignored + after);
        assert((before + after).skip(1) =~= before.skip(1) + after);
    } else if ignored.len() > 0 {
        law_ignored_headers_do_not_matter(before, ignored.skip(1), after);
        assert(headers.skip(1) =~= before + ignored.skip(1) + after);
        assert(headers[0] == ignored[0]);
    } else {
        assert(headers =~= before + after);
    }
}

/// The first header that is not ignored decides: nothing that comes after it makes a difference.
pub proof fn law_first_authorization_decides(headers: Seq<(Seq<char>, Seq<u8>)>, i: int)
    requires
        0 <= i < headers.len(),
        forall|j: int|
            0 <= j < i ==> header_authorization(#[trigger] headers[j])
                == AuthorizationView::Ignored,
        header_authorization(headers[i]) != AuthorizationView::Ignored,
    ensures
        credentials(headers) == (match header_authorization(headers[i]) {
            AuthorizationView::Credentials(username, password) => Some((username, password)),
            _ => None,
        }),
{
    law_ignored_headers_do_not_matter(seq![], headers.take(i), headers.skip(i));
    assert(seq![] + headers.take(i) + headers.skip(i) =~= headers);
    assert(seq![] + headers.skip(i) =~= headers.skip(i));
    assert(headers.skip(i)[0] == headers[i]);
}

/// A header carries encoded credentials exactly if it is named `Authorization` and its value is text
/// that starts with `Basic ` and goes on: what comes after that is what it carries.
pub proof fn law_credentials_follow_the_scheme(header: (Seq<char>, Seq<u8>), token: Seq<u8>)
    ensures
        basic_token(header) == Some(token) <==> {
            &&& header.0 == "Authorization"@
            &&& valid_utf8(header.1)
            &&& header.1 == encode_utf8("Basic "@) + token
            &&& token.len() > 0
        },
{
    let prefix = encode_utf8("Basic "@);
    let n = prefix.len() as int;
    if basic_token(header) == Some(token) {
        assert(header.1 =~= prefix + token);
    }
    if header.1 == prefix + token && token.len() > 0 {
        assert(header.1.take(n) =~= prefix);
        assert(header.1.skip(n) =~= token);
    }
}

/// What encoded credentials say: they are refused exactly if they cannot be decoded to text;
/// otherwise the user name is what stands before the first colon and the password is all that stands
/// behind it, and they say nothing exactly if there is no colon.
pub proof fn law_user_name_ends_at_the_first_colon(
    header: (Seq<char>, Seq<u8>),
    token: Seq<u8>,
    username: Seq<char>,
    password: Seq<char>,
)
    requires
        basic_token(header) == Some(token),
    ensures
        header_authorization(header) is Refused <==> (base64_decoded(token) is None || !valid_utf8(
            base64_decoded(token)->0,
        )),
        base64_decoded(token) matches Some(bytes) ==> valid_utf8(bytes) ==> {
            &&& header_authorization(header) == AuthorizationView::Credentials(username, password)
                <==> (decode_utf8(bytes) == username + seq![':'] + password && !username.contains(
                ':',
            ))
            &&& header_authorization(header) is Ignored <==> !decode_utf8(bytes).contains(':')
        },
{
    if let Some(bytes) = base64_decoded(token) {
        law_text_is_split_at_its_first_colon(decode_utf8(bytes), username, password);
    }
}

/// A header that carries no encoded credentials says nothing of them.
pub proof fn law_header_without_a_token_is_ignored(header: (Seq<char>, Seq<u8>))
    requires
        forall|token: Seq<u8>|
            token.len() > 0 ==> header.1 != #[trigger] (encode_utf8("Basic "@) + token)
                || header.0 != "Authorization"@ || !valid_utf8(header.1),
    ensures
        header_authorization(header) is Ignored,
{
    if let Some(token) = basic_token(header) {
        law_credentials_follow_the_scheme(header, token);
    }
}

/// A request has credentials exactly if one of its headers does and no earlier one says anything of
/// them: they are that header's.
pub proof fn law_credentials_are_those_of_the_first(
    headers: Seq<(Seq<char>, Seq<u8>)>,
    username: Seq<char>,
    password: Seq<char>,
)
    ensures
        credentials(headers) == Some((username, password)) <==> exists|i: int|
            {
                &&& 0 <= i < headers.len()
                &&& header_authorization(#[trigger] headers[i]) == AuthorizationView::Credentials(
                    username,
                    password,
                )
                &&& forall|j: int|
                    0 <= j < i ==> header_authorization(#[trigger] headers[j]) is Ignored
            },
    decreases headers.len(),
{
    if exists|i: int|
        {
            &&& 0 <= i < headers.len()
            &&& header_authorization(#[trigger] headers[i]) == AuthorizationView::Credentials(
                username,
                password,
            )
            &&& forall|j: int| 0 <= j < i ==> header_authorization(#[trigger] headers[j]) is Ignored
        } {
        let i = choose|i: int|
            {
                &&& 0 <= i < headers.len()
                &&& header_authorization(#[trigger] headers[i]) == AuthorizationView::Credentials(
                    username,
                    password,
                )
                &&& forall|j: int|
                    0 <= j < i ==> header_authorization(#[trigger] headers[j]) is Ignored
            };
        law_first_authorization_decides(headers, i);
    }
    if credentials(headers) == Some((username, password)) {
        if header_authorization(headers[0]) is Ignored {
            let rest = headers.skip(1);
            law_credentials_are_those_of_the_first(rest, username, password);
            let k = choose|i: int|
                {
                    &&& 0 <= i < rest.len()
                    &&& header_authorization(#[trigger] rest[i]) == AuthorizationView::Credentials(
                        username,
                        password,
                    )
                    &&& forall|j: int|
                        0 <= j < i ==> header_authorization(#[trigger] rest[j]) is Ignored
                };
            assert(headers[k + 1] == rest[k]);
            assert forall|j: int| 0 <= j < k + 1 implies header_authorization(
                #[trigger] headers[j],
            ) is Ignored by {
                if j > 0 {
                    assert(headers[j] == rest[j - 1]);
                }
            }
        } else {
            assert(header_authorization(headers[0]) == AuthorizationView::Credentials(
                username,
                password,
            ));
        }
    }
}

/// What a server reads from a request whose first header of that name is the one that a client
/// writes is the user name and the password of that client, as long as the encoding can be undone and
/// the user name has no colon. Headers with other names, before it and behind it, make no difference.
pub proof fn law_client_is_recognised(
    headers: Seq<(Seq<char>, Seq<u8>)>,
    i: int,
    token: Seq<u8>,
    username: Seq<char>,
    password: Seq<char>,
)
    requires
        0 <= i < headers.len(),
        forall|j: int| 0 <= j < i ==> (#[trigger] headers[j]).0 != "Authorization"@,
        headers[i].0 == "Authorization"@,
        headers[i].1 == encode_utf8("Basic "@) + token,
        valid_utf8(headers[i].1),
        token.len() > 0,
        base64_decoded(token) == Some(encode_utf8(username + seq![':'] + password)),
        !username.contains(':'),
    ensures
        credentials(headers) == Some((username, password)),
{
    broadcast use {encode_utf8_valid_utf8, encode_utf8_decode_utf8};

    law_credentials_follow_the_scheme(headers[i], token);
    law_user_name_ends_at_the_first_colon(headers[i], token, username, password);
    law_first_authorization_decides(headers, i);
}

/// The value that a client sends is the scheme and the base64 of its user name, a colon and its
/// password.
pub proof fn law_value_encodes_the_credentials(username: Seq<char>, password: Seq<char>)
    ensures
        authorization_value(username, password) == "Basic "@ + base64_encoded(
            encode_utf8(username + seq![':'] + password),
        ),
        credentials_text(username, password).len() == username.len() + 1 + password.len(),
{
}

/// What a header says is seen as it is.
pub proof fn law_authorization_is_seen_as_it_is(username: String, password: String)
    ensures
        Authorization::Ignored@ is Ignored,
        Authorization::Refused@ is Refused,
        Authorization::Credentials(username, password)@ == AuthorizationView::Credentials(
            username@,
            password@,
        ),
{
}

/// What is read from decoded credentials: nothing can be read exactly if they could not be decoded to
/// text; otherwise the user name and the password, with the first colon between them, are the text.
pub proof fn law_decoded_text_is_made_up_again(decoded: Option<Vec<u8>>, r: Authorization)
    requires
        call_ensures(read_decoded_authorization, (decoded,), r),
    ensures
        r is Refused <==> (decoded is None || !valid_utf8(decoded->0@)),
        r is Ignored ==> !decode_utf8(decoded->0@).contains(':'),
        r matches Authorization::Credentials(username, password) ==> decode_utf8(decoded->0@)
            == username@ + seq![':'] + password@ && !username@.contains(':'),
{
    if let Some(bytes) = decoded {
        let text = decode_utf8(bytes@);
        match r {
            Authorization::Credentials(username, password) => {
                law_text_is_split_at_its_first_colon(text, username@, password@);
            },
            _ => {
                law_text_is_split_at_its_first_colon(text, seq![], seq![]);
            },
        }
    }
}

/// What is read from a header: credentials only from one that is named `Authorization` and carries
/// the base64 of a user name, a colon and a password; and from such a header, just those.
pub proof fn law_header_is_read_as_it_was_sent(
    header: &Header,
    r: Authorization,
    token: Seq<u8>,
    username: Seq<char>,
    password: Seq<char>,
)
    requires
        call_ensures(read_header_authorization, (header,), r),
    ensures
        header.name@ != "Authorization"@ ==> r is Ignored,
        header.name@ == "Authorization"@ && header.value@ == encode_utf8("Basic "@) + token
            && valid_utf8(header.value@) && token.len() > 0 ==> {
            &&& r is Refused <==> (base64_decoded(token) is None || !valid_utf8(
                base64_decoded(token)->0,
            ))
            &&& base64_decoded(token) == Some(encode_utf8(username + seq![':'] + password))
                && !username.contains(':') ==> (r matches Authorization::Credentials(u, p) && u@
                == username && p@ == password)
        },
{
    broadcast use {encode_utf8_valid_utf8, encode_utf8_decode_utf8};

    law_credentials_follow_the_scheme(header@, token);
    if basic_token(header@) == Some(token) {
        law_user_name_ends_at_the_first_colon(header@, token, username, password);
    }
    if header.name@ != "Authorization"@ {
        law_other_headers_are_ignored(header@);
    }
}

/// What is read from the headers of a request is what its first header says that says anything, and
/// nothing if there is none.
pub proof fn law_read_credentials_are_those_of_the_first(
    headers: &[Header],
    r: Option<(String, String)>,
    i: int,
)
    requires
        call_ensures(read_authorization_header, (headers,), r),
        0 <= i <= headers@.len(),
        forall|j: int|
            0 <= j < i ==> header_authorization(
                ((#[trigger] headers@[j]).name@, headers@[j].value@),
            ) is Ignored,
    ensures
        i == headers@.len() ==> r is None,
        i < headers@.len() ==> match header_authorization(
            (headers@[i].name@, headers@[i].value@),
        ) {
            AuthorizationView::Ignored => true,
            AuthorizationView::Refused => r is None,
            AuthorizationView::Credentials(username, password) => r matches Some(pair) && pair.0@
                == username && pair.1@ == password,
        },
{
    let views = header_views(headers@);
    assert forall|j: int| 0 <= j < i implies header_authorization(#[trigger] views[j])
        == AuthorizationView::Ignored by {
        assert(views[j] == (headers@[j].name@, headers@[j].value@));
    }
    if i < headers@.len() {
        assert(views[i] == (headers@[i].name@, headers@[i].value@));
        if header_authorization(views[i]) != AuthorizationView::Ignored {
            law_first_authorization_decides(views, i);
        }
    } else {
        law_ignored_headers_do_not_matter(seq![], views, seq![]);
        assert(seq![] + views + seq![] =~= views);
        assert(credentials(Seq::<(Seq<char>, Seq<u8>)>::empty()) is None);
        assert(Seq::<(Seq<char>, Seq<u8>)>::empty() + Seq::<(Seq<char>, Seq<u8>)>::empty()
            =~= Seq::<(Seq<char>, Seq<u8>)>::empty());
    }
}

/// The header line of a client says, behind its name and scheme, the base64 of its user name, a colon
/// and its password, and nothing else.
pub proof fn law_header_line_encodes_the_credentials(
    username: &str,
    password: &str,
    encoded: &str,
    line: String,
    written: String,
)
    requires
        base64_len(encode_utf8(credentials_text(username@, password@)).len()) <= isize::MAX,
        call_ensures(authorization_header, (username, password), line),
        call_ensures(basic_header, (encoded,), written),
    ensures
        line@ == "Authorization: Basic "@ + base64_encoded(
            encode_utf8(username@ + seq![':'] + password@),
        ),
        written@ == "Authorization: Basic "@ + encoded@,
{
    reveal_strlit("Authorization: Basic ");
    reveal_strlit("Authorization");
    reveal_strlit("Basic ");
    assert("Authorization: Basic "@ =~= AUTHORIZATION@ + seq![':', ' '] + BASIC@);
    assert(line@ =~= "Authorization: Basic "@ + base64_encoded(
        encode_utf8(username@ + seq![':'] + password@),
    ));
}

} // verus!
