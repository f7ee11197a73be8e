use vstd::prelude::*;
use vstd::utf8::{decode_utf8, encode_utf8, valid_utf8};

verus! {

/// A byte that an HTTP header value may hold as text: visible ASCII or a tab.
pub open spec fn is_visible_byte(b: u8) -> bool {
    (32 <= b && b < 127) || b == 9
}

/// Bytes read one for one as ASCII characters.
pub open spec fn ascii_chars(b: Seq<u8>) -> Seq<char> {
    b.map_values(|x: u8| x as char)
}

/// A header value as text: its bytes as characters when every byte is
/// visible ASCII or a tab, otherwise nothing.
pub open spec fn header_text_of(b: Seq<u8>) -> Option<Seq<char>> {
    if forall|i: int| 0 <= i < b.len() ==> is_visible_byte(#[trigger] b[i]) {
        Some(ascii_chars(b))
    } else {
        None
    }
}

/// The bearer token that a raw `Authorization` header value carries.
pub open spec fn header_token(b: Seq<u8>) -> Option<Seq<char>> {
    match header_text_of(b) {
        Some(t) => bearer_token(t),
        None => None,
    }
}

/// Relies on std's `String::from_utf8`: a string whose characters are the
/// UTF-8 decoding of the bytes, given whenever the bytes are valid UTF-8.
#[verifier::external_body]
fn decode_text(bytes: &[u8]) -> (r: Option<String>)
    ensures
        r matches Some(s) ==> s@ == decode_utf8(bytes@),
        valid_utf8(bytes@) ==> r is Some,
{
    String::from_utf8(bytes.to_vec()).ok()
}

proof fn lemma_ascii_bytes_decode(b: Seq<u8>)
    requires
        forall|i: int| 0 <= i < b.len() ==> #[trigger] b[i] < 128,
    ensures
        valid_utf8(b),
        decode_utf8(b) == ascii_chars(b),
{
    let c = ascii_chars(b);
    assert(vstd::utf8::is_ascii_chars(c));
    vstd::utf8::is_ascii_chars_encode_utf8(c);
    assert(encode_utf8(c) =~= b);
    vstd::utf8::encode_utf8_valid_utf8(c);
    vstd::utf8::encode_utf8_decode_utf8(c);
}

/// The text of a raw header value, when every byte is visible ASCII or a tab.
pub fn header_text(header_value: &[u8]) -> (r: Option<String>)
    ensures
        r matches Some(t) ==> header_text_of(header_value@) == Some(t@),
        r is None ==> header_text_of(header_value@) is None,
{
    let mut i: usize = 0;
    while i < header_value.len()
        invariant
            i <= header_value@.len(),
            forall|j: int| 0 <= j < i ==> is_visible_byte(#[trigger] header_value@[j]),
        decreases header_value@.len() - i,
    {
        let b = header_value[i];
        if !((32 <= b && b < 127) || b == 9) {
            assert(!is_visible_byte(header_value@[i as int]));
            return None;
        }
        i = i + 1;
    }
    proof {
        lemma_ascii_bytes_decode(header_value@);
    }
    decode_text(header_value)
}

/// Why an inbound request was refused by the access guard.
#[derive(Debug, Clone, Copy, PartialEq, Eq, Structural)]
pub enum AuthorizationError {
    /// No `Authorization` header was present in the request.
    MissingAuthorizationHeader,
    /// The `Authorization` header does not use the bearer scheme.
    InvalidAuthorizationScheme,
    /// The presented access key is not among the configured access keys.
    Unauthorized,
}

/// HTTP status of every authorization failure.
pub const UNAUTHORIZED_STATUS: u16 = 401;

impl AuthorizationError {
    /// The HTTP status that the caller receives for this failure.
    pub fn status(&self) -> (r: u16)
        ensures
            r == 401,
    {
        UNAUTHORIZED_STATUS
    }

    /// The human-readable detail carried in the error body.
    pub fn message(&self) -> (r: &'static str)
        ensures
            *self == AuthorizationError::MissingAuthorizationHeader ==> r@
                == "Authorization header is missing"@,
            *self == AuthorizationError::InvalidAuthorizationScheme ==> r@
                == "Invalid authorization scheme"@,
            *self == AuthorizationError::Unauthorized ==> r@ == "Access key is invalid or missing"@,
    {
        match self {
            AuthorizationError::MissingAuthorizationHeader => "Authorization header is missing",
            AuthorizationError::InvalidAuthorizationScheme => "Invalid authorization scheme",
            AuthorizationError::Unauthorized => "Access key is invalid or missing",
        }
    }
}

/// An access key that was found among the configured access keys.
#[derive(Debug, Clone)]
pub struct ValidatedAccessKey {
    /// The validated access key string.
    pub key: String,
}

/// The bearer scheme prefix `"Bearer "`.
pub open spec fn bearer_prefix() -> Seq<char> {
    seq!['B', 'e', 'a', 'r', 'e', 'r', ' ']
}

/// The host on which the proxy is exposed publicly, `"0.0.0.0"`.
pub open spec fn public_host() -> Seq<char> {
    seq!['0', '.', '0', '.', '0', '.', '0']
}

/// The token of a bearer-scheme header value, if it has that scheme.
pub open spec fn bearer_token(header: Seq<char>) -> Option<Seq<char>> {
    if header.len() >= 7 && header.subrange(0, 7) == bearer_prefix() {
        Some(header.subrange(7, header.len() as int))
    } else {
        None
    }
}

/// Views of a list of strings.
pub open spec fn views(keys: Seq<String>) -> Seq<Seq<char>> {
    keys.map_values(|k: String| k@)
}

/// The text of an optional header value.
pub open spec fn header_view(header: Option<&str>) -> Option<Seq<char>> {
    match header {
        Some(h) => Some(h@),
        None => None,
    }
}

/// Whether the guard checks credentials at all for this bind host and allowlist.
pub open spec fn guard_enforced(host: Seq<char>, allowlist: Seq<Seq<char>>) -> bool {
    host == public_host() && allowlist.len() > 0
}

/// The outcome of the guard for a request that carries `header` as its
/// `Authorization` value (`None` when the header is absent).
pub open spec fn access_outcome(
    host: Seq<char>,
    allowlist: Seq<Seq<char>>,
    header: Option<Seq<char>>,
) -> Result<(), AuthorizationError> {
    if !guard_enforced(host, allowlist) {
        Ok(())
    } else {
        match header {
            None => Err(AuthorizationError::MissingAuthorizationHeader),
            Some(h) => match bearer_token(h) {
                None => Err(AuthorizationError::InvalidAuthorizationScheme),
                Some(t) => if allowlist.contains(t) {
                    Ok(())
                } else {
                    Err(AuthorizationError::Unauthorized)
                },
            },
        }
    }
}

/// On any bind host other than the public one, every request passes the
/// guard, whatever its `Authorization` header.
pub proof fn lemma_private_host_passes(
    host: Seq<char>,
    allowlist: Seq<Seq<char>>,
    header: Option<Seq<char>>,
)
    requires
        host != public_host(),
    ensures
        access_outcome(host, allowlist, header) == Ok::<(), AuthorizationError>(()),
{
}

/// With an empty allowlist every request passes the guard, on any bind host.
pub proof fn lemma_empty_allowlist_passes(host: Seq<char>, header: Option<Seq<char>>)
    ensures
        access_outcome(host, Seq::empty(), header) == Ok::<(), AuthorizationError>(()),
{
}

/// Whether `s` holds exactly the characters `lit`.
pub(crate) fn text_is(s: &str, lit: &str) -> (r: bool)
    ensures
        r == (s@ == lit@),
{
    let a = s.to_owned();
    let b = lit.to_owned();
    a == b
}

/// Whether `host` is the public bind address.
pub fn is_public_host(host: &str) -> (r: bool)
    ensures
        r == (host@ == public_host()),
{
    proof {
        reveal_strlit("0.0.0.0");
    }
    assert("0.0.0.0"@ =~= public_host());
    text_is(host, "0.0.0.0")
}

/// Returns the token of a bearer-scheme header value.
pub fn get_access_token_from_bearer(header_value: &str) -> (r: Option<String>)
    ensures
        r matches Some(t) ==> bearer_token(header_value@) == Some(t@),
        r is None ==> bearer_token(header_value@) is None,
{
    let prefix = "Bearer ";
    proof {
        reveal_strlit("Bearer ");
    }
    assert(prefix@ =~= bearer_prefix());
    let len = header_value.unicode_len();
    if len < 7 {
        return None;
    }
    let mut i: usize = 0;
    while i < 7
        invariant
            i <= 7 <= len,
            len == header_value@.len(),
            prefix@ == bearer_prefix(),
            forall|j: int| 0 <= j < i ==> header_value@[j] == bearer_prefix()[j],
        decreases 7 - i,
    {
        if header_value.get_char(i) != prefix.get_char(i) {
            assert(header_value@.subrange(0, 7)[i as int] != bearer_prefix()[i as int]);
            return None;
        }
        i = i + 1;
    }
    assert(header_value@.subrange(0, 7) =~= bearer_prefix());
    Some(header_value.substring_char(7, len).to_owned())
}

/// Checks `access_key` against the configured access keys.
pub fn validate_access_key(access_key: &str, configured_keys: &[String]) -> (r: Result<
    ValidatedAccessKey,
    AuthorizationError,
>)
    ensures
        r is Ok <==> views(configured_keys@).contains(access_key@),
        r matches Ok(v) ==> v.key@ == access_key@,
        r matches Err(e) ==> e == AuthorizationError::Unauthorized,
{
    let key = access_key.to_owned();
    let mut i: usize = 0;
    while i < configured_keys.len()
        invariant
            i <= configured_keys@.len(),
            key@ == access_key@,
            forall|j: int| 0 <= j < i ==> configured_keys@[j]@ != access_key@,
        decreases configured_keys@.len() - i,
    {
        if configured_keys[i] == key {
            assert(views(configured_keys@)[i as int] == access_key@);
            return Ok(ValidatedAccessKey { key });
        }
        i = i + 1;
    }
    assert(!views(configured_keys@).contains(access_key@));
    Err(AuthorizationError::Unauthorized)
}

/// The access guard: decides whether a request with the given `Authorization`
/// header text may reach the relay.
pub fn authorize(host: &str, access_keys: &[String], auth_header: Option<&str>) -> (r: Result<
    (),
    AuthorizationError,
>)
    ensures
        r == access_outcome(host@, views(access_keys@), header_view(auth_header)),
{
    if !is_public_host(host) || access_keys.len() == 0 {
        return Ok(());
    }
    let header = match auth_header {
        Some(h) => h,
        None => return Err(AuthorizationError::MissingAuthorizationHeader),
    };
    let token = match get_access_token_from_bearer(header) {
        Some(t) => t,
        None => return Err(AuthorizationError::InvalidAuthorizationScheme),
    };
    match validate_access_key(token.as_str(), access_keys) {
        Ok(_) => Ok(()),
        Err(e) => Err(e),
    }
}

/// Extracts the access key from a bearer-scheme `Authorization` header value.
/// A value that is not text, or not in the bearer scheme, yields nothing.
pub fn extract_access_key_from_header(header_value: &[u8]) -> (r: Option<String>)
    ensures
        r matches Some(k) ==> header_token(header_value@) == Some(k@),
        r is None ==> header_token(header_value@) is None,
{
    match header_text(header_value) {
        Some(text) => get_access_token_from_bearer(text.as_str()),
        None => None,
    }
}

/// The outcome of the guard for a request whose raw `Authorization` header
/// value is `header` (`None` when absent). A value that is not text is
/// outside the bearer scheme.
pub open spec fn raw_access_outcome(
    host: Seq<char>,
    allowlist: Seq<Seq<char>>,
    header: Option<Seq<u8>>,
) -> Result<(), AuthorizationError> {
    match header {
        None => access_outcome(host, allowlist, None),
        Some(b) => match header_text_of(b) {
            Some(t) => access_outcome(host, allowlist, Some(t)),
            None => if guard_enforced(host, allowlist) {
                Err(AuthorizationError::InvalidAuthorizationScheme)
            } else {
                Ok(())
            },
        },
    }
}

/// The bytes of an optional raw header value.
pub open spec fn raw_header_view(header: Option<&[u8]>) -> Option<Seq<u8>> {
    match header {
        Some(b) => Some(b@),
        None => None,
    }
}

/// The access guard on a request's raw `Authorization` header value.
pub fn authorize_header(host: &str, access_keys: &[String], auth_header: Option<&[u8]>) -> (r:
    Result<(), AuthorizationError>)
    ensures
        r == raw_access_outcome(host@, views(access_keys@), raw_header_view(auth_header)),
{
    match auth_header {
        None => authorize(host, access_keys, None),
        Some(value) => match header_text(value) {
            Some(text) => authorize(host, access_keys, Some(text.as_str())),
            None => {
                if !is_public_host(host) || access_keys.len() == 0 {
                    Ok(())
                } else {
                    Err(AuthorizationError::InvalidAuthorizationScheme)
                }
            },
        },
    }
}

} // verus!
