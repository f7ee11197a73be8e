use crate::authorization::{bearer_prefix, text_is};
use crate::key_manager::KeyManager;
use vstd::prelude::*;
use vstd::utf8::encode_utf8;

verus! {

/// Status with which an upstream signals that the current credential is
/// rate-limited.
pub const TOO_MANY_REQUESTS: u16 = 429;

/// Status returned to the caller when the upstream could not be reached.
pub const INTERNAL_SERVER_ERROR: u16 = 500;

/// Status returned for a path that no route serves.
pub const NOT_FOUND: u16 = 404;

/// One header: its lower-case name and its raw value.
pub type Header = (String, Vec<u8>);

/// What a header is: its name as text and its value as bytes.
pub open spec fn header_view(h: Header) -> (Seq<char>, Seq<u8>) {
    (h.0@, h.1@)
}

/// The view of a header list.
pub open spec fn headers_view(hs: Seq<Header>) -> Seq<(Seq<char>, Seq<u8>)> {
    hs.map_values(|h: Header| header_view(h))
}

/// The header name `authorization`.
pub open spec fn authorization_name() -> Seq<char> {
    seq!['a', 'u', 't', 'h', 'o', 'r', 'i', 'z', 'a', 't', 'i', 'o', 'n']
}

/// The header name `host`.
pub open spec fn host_name() -> Seq<char> {
    seq!['h', 'o', 's', 't']
}

/// The header name `content-type`.
pub open spec fn content_type_name() -> Seq<char> {
    seq!['c', 'o', 'n', 't', 'e', 'n', 't', '-', 't', 'y', 'p', 'e']
}

/// The media type of a server-sent-event stream, `text/event-stream`, as bytes.
pub open spec fn event_stream_type() -> Seq<u8> {
    encode_utf8(
        seq!['t', 'e', 'x', 't', '/', 'e', 'v', 'e', 'n', 't', '-', 's', 't', 'r', 'e', 'a', 'm'],
    )
}

/// The path of the chat-completion endpoint, `/chat/completions`.
pub open spec fn completions_path() -> Seq<char> {
    seq!['/', 'c', 'h', 'a', 't', '/', 'c', 'o', 'm', 'p', 'l', 'e', 't', 'i', 'o', 'n', 's']
}

/// Whether a caller's header must not travel upstream.
pub open spec fn is_stripped(h: (Seq<char>, Seq<u8>)) -> bool {
    h.0 == authorization_name() || h.0 == host_name()
}

/// The headers sent upstream: the caller's headers without its own
/// `authorization` and `host`, followed by the upstream credential as a
/// bearer `authorization` header.
pub open spec fn forwarded_headers(
    inbound: Seq<(Seq<char>, Seq<u8>)>,
    key: Seq<char>,
) -> Seq<(Seq<char>, Seq<u8>)> {
    inbound.filter(|h: (Seq<char>, Seq<u8>)| !is_stripped(h)).push(
        (authorization_name(), encode_utf8(bearer_prefix() + key)),
    )
}

/// Whether the first `content-type` header declares a server-sent-event stream.
pub open spec fn declares_event_stream(hs: Seq<(Seq<char>, Seq<u8>)>) -> bool {
    exists|i: int|
        0 <= i < hs.len() && (#[trigger] hs[i]).0 == content_type_name() && hs[i].1
            == event_stream_type() && forall|j: int| 0 <= j < i ==> hs[j].0 != content_type_name()
}

/// How a response body travels to the caller.
#[derive(Debug, Clone, Copy, PartialEq, Eq, Structural)]
pub enum RelayMode {
    /// Each chunk is forwarded as it arrives, in arrival order.
    Streaming,
    /// The body is read whole and written as one response.
    Buffered,
}

/// The relay mode that a response with headers `hs` calls for.
pub open spec fn relay_mode_of(hs: Seq<(Seq<char>, Seq<u8>)>) -> RelayMode {
    if declares_event_stream(hs) {
        RelayMode::Streaming
    } else {
        RelayMode::Buffered
    }
}

/// The request that goes to the upstream service.
pub struct OutboundRequest {
    /// Where the request is posted.
    pub url: String,
    /// The forwarded headers, credential attached.
    pub headers: Vec<Header>,
    /// The caller's body, unchanged.
    pub body: Vec<u8>,
}

/// What the caller receives for an upstream response.
pub struct RelayPlan {
    /// The upstream status, unchanged.
    pub status: u16,
    /// The upstream headers, unchanged.
    pub headers: Vec<Header>,
    /// How the body is relayed.
    pub mode: RelayMode,
}

fn bytes_eq(a: &Vec<u8>, b: &[u8]) -> (r: bool)
    ensures
        r == (a@ == b@),
{
    if a.len() != b.len() {
        return false;
    }
    let mut i: usize = 0;
    while i < a.len()
        invariant
            a@.len() == b@.len(),
            i <= a@.len(),
            forall|j: int| 0 <= j < i ==> a@[j] == b@[j],
        decreases a@.len() - i,
    {
        if a[i] != b[i] {
            return false;
        }
        i = i + 1;
    }
    assert(a@ =~= b@);
    true
}

fn clone_header(h: &Header) -> (r: Header)
    ensures
        header_view(r) == header_view(*h),
{
    let name = h.0.clone();
    let mut value: Vec<u8> = Vec::new();
    let mut i: usize = 0;
    while i < h.1.len()
        invariant
            i <= h.1@.len(),
            value@ == h.1@.subrange(0, i as int),
        decreases h.1@.len() - i,
    {
        value.push(h.1[i]);
        i = i + 1;
        assert(value@ =~= h.1@.subrange(0, i as int));
    }
    assert(value@ =~= h.1@);
    (name, value)
}

/// Whether a header name is one of the caller's own that must not travel upstream.
pub fn is_stripped_header(name: &String) -> (r: bool)
    ensures
        r == (name@ == authorization_name() || name@ == host_name()),
{
    proof {
        reveal_strlit("authorization");
        reveal_strlit("host");
    }
    assert("authorization"@ =~= authorization_name());
    assert("host"@ =~= host_name());
    text_is(name.as_str(), "authorization") || text_is(name.as_str(), "host")
}

/// The `authorization` header that carries `api_key` as a bearer credential.
pub fn bearer_header(api_key: &str) -> (r: Header)
    ensures
        header_view(r) == (authorization_name(), encode_utf8(bearer_prefix() + api_key@)),
{
    proof {
        reveal_strlit("Bearer ");
        reveal_strlit("authorization");
    }
    assert("Bearer "@ =~= bearer_prefix());
    assert("authorization"@ =~= authorization_name());
    let value = "Bearer ".to_owned().concat(api_key);
    let bytes = value.as_str().as_bytes_vec();
    ("authorization".to_owned(), bytes)
}

/// The headers to send upstream for a caller's `headers` and the upstream
/// credential `api_key`.
pub fn prepare_outbound_headers(headers: &Vec<Header>, api_key: &str) -> (r: Vec<Header>)
    ensures
        headers_view(r@) == forwarded_headers(headers_view(headers@), api_key@),
{
    let ghost keep = |h: (Seq<char>, Seq<u8>)| !is_stripped(h);
    let mut out: Vec<Header> = Vec::new();
    let mut i: usize = 0;
    while i < headers.len()
        invariant
            i <= headers@.len(),
            keep == (|h: (Seq<char>, Seq<u8>)| !is_stripped(h)),
            headers_view(out@) == headers_view(headers@).subrange(0, i as int).filter(keep),
        decreases headers@.len() - i,
    {
        let ghost before = out@;
        let h = &headers[i];
        proof {
            reveal(Seq::filter);
            let s = headers_view(headers@).subrange(0, i + 1);
            assert(s.drop_last() =~= headers_view(headers@).subrange(0, i as int));
            assert(s.last() == header_view(headers@[i as int]));
        }
        if !is_stripped_header(&h.0) {
            let c = clone_header(h);
            out.push(c);
            assert(headers_view(out@) =~= headers_view(before).push(header_view(*h)));
        } else {
            assert(headers_view(out@) =~= headers_view(before));
        }
        i = i + 1;
    }
    assert(headers_view(headers@).subrange(0, i as int) =~= headers_view(headers@));
    let ghost kept = out@;
    out.push(bearer_header(api_key));
    assert(headers_view(out@) =~= headers_view(kept).push(
        (authorization_name(), encode_utf8(bearer_prefix() + api_key@)),
    ));
    out
}

/// The relay mode for an upstream response with `headers`: streaming exactly
/// when the first `content-type` header is `text/event-stream`.
pub fn relay_mode(headers: &Vec<Header>) -> (r: RelayMode)
    ensures
        r == relay_mode_of(headers_view(headers@)),
{
    proof {
        reveal_strlit("content-type");
        reveal_strlit("text/event-stream");
    }
    assert("content-type"@ =~= content_type_name());
    let ghost hs = headers_view(headers@);
    let mut i: usize = 0;
    while i < headers.len()
        invariant
            i <= headers@.len(),
            hs == headers_view(headers@),
            "content-type"@ == content_type_name(),
            forall|j: int| 0 <= j < i ==> hs[j].0 != content_type_name(),
        decreases headers@.len() - i,
    {
        let h = &headers[i];
        assert(hs[i as int] == header_view(headers@[i as int]));
        if text_is(h.0.as_str(), "content-type") {
            let expected = "text/event-stream".as_bytes();
            assert(expected@ == event_stream_type()) by {
                reveal_strlit("text/event-stream");
                assert("text/event-stream"@ =~= seq![
                    't', 'e', 'x', 't', '/', 'e', 'v', 'e', 'n', 't', '-', 's', 't', 'r', 'e', 'a', 'm',
                ]);
            }
            if bytes_eq(&h.1, expected) {
                assert(hs[i as int].0 == content_type_name());
                return RelayMode::Streaming;
            } else {
                assert forall|k: int|
                    0 <= k < hs.len() && (#[trigger] hs[k]).0 == content_type_name() && hs[k].1
                        == event_stream_type() implies exists|j: int|
                    0 <= j < k && hs[j].0 == content_type_name() by {
                    if k != i {
                        assert(k > i);
                        assert(0 <= i < k && hs[i as int].0 == content_type_name());
                    }
                }
                return RelayMode::Buffered;
            }
        }
        i = i + 1;
    }
    RelayMode::Buffered
}

/// The key manager's position after an upstream answered with `status`:
/// one step further on a rate-limit signal, unchanged otherwise.
pub open spec fn position_after(position: int, len: nat, status: u16) -> int {
    if status == TOO_MANY_REQUESTS {
        (position + 1) % (len as int)
    } else {
        position
    }
}

/// Forwarding the same request twice against an upstream that does not
/// signal a rate limit yields the same outbound headers both times: the first
/// exchange leaves the rotation where it was, so the second uses the same
/// credential.
pub proof fn lemma_forward_twice_same_credential(
    pool: Seq<Seq<char>>,
    position: int,
    status: u16,
    inbound: Seq<(Seq<char>, Seq<u8>)>,
)
    requires
        status != TOO_MANY_REQUESTS,
    ensures
        position_after(position, pool.len(), status) == position,
        forwarded_headers(inbound, pool[position_after(position, pool.len(), status)])
            == forwarded_headers(inbound, pool[position]),
{
}

/// A rate-limit signal moves the rotation exactly one credential forward,
/// wrapping at the end of the pool, so the next request carries the
/// neighbouring credential.
pub proof fn lemma_rate_limit_rotates_once(pool: Seq<Seq<char>>, position: int)
    requires
        pool.len() > 0,
        0 <= position < pool.len(),
    ensures
        position_after(position, pool.len(), TOO_MANY_REQUESTS) == (if position + 1 == pool.len() {
            0
        } else {
            position + 1
        }),
{
    if position + 1 == pool.len() {
        vstd::arithmetic::div_mod::lemma_mod_self_0(pool.len() as int);
    } else {
        vstd::arithmetic::div_mod::lemma_small_mod((position + 1) as nat, pool.len());
    }
}

/// The upstream endpoint under `base_url`.
pub fn upstream_url(base_url: &str) -> (r: String)
    ensures
        r@ == base_url@ + completions_path(),
{
    proof {
        reveal_strlit("/chat/completions");
    }
    assert("/chat/completions"@ =~= completions_path());
    base_url.to_owned().concat("/chat/completions")
}

/// Builds the upstream request for a caller's `headers` and `body`, using the
/// key manager's current credential. The rotation position is not changed.
pub fn build_outbound(
    key_manager: &mut KeyManager,
    base_url: &str,
    headers: &Vec<Header>,
    body: Vec<u8>,
) -> (r: OutboundRequest)
    requires
        old(key_manager).pool().len() > 0,
    ensures
        final(key_manager).pool() == old(key_manager).pool(),
        final(key_manager).position() == old(key_manager).position(),
        r.url@ == base_url@ + completions_path(),
        headers_view(r.headers@) == forwarded_headers(
            headers_view(headers@),
            old(key_manager).current(),
        ),
        r.body@ == body@,
{
    let api_key = key_manager.get_key();
    let url = upstream_url(base_url);
    let out_headers = prepare_outbound_headers(headers, api_key.as_str());
    OutboundRequest { url, headers: out_headers, body }
}

/// Decides what the caller receives for an upstream response with `status`
/// and `headers`, rotating the credential when the upstream signals a rate
/// limit. The status and the headers are relayed unchanged.
pub fn plan_response(key_manager: &mut KeyManager, status: u16, headers: Vec<Header>) -> (r:
    RelayPlan)
    ensures
        final(key_manager).pool() == old(key_manager).pool(),
        old(key_manager).pool().len() > 0 ==> final(key_manager).position() == position_after(
            old(key_manager).position(),
            old(key_manager).pool().len(),
            status,
        ),
        r.status == status,
        r.headers@ == headers@,
        r.mode == relay_mode_of(headers_view(headers@)),
{
    if status == TOO_MANY_REQUESTS {
        key_manager.switch_key();
    }
    let mode = relay_mode(&headers);
    RelayPlan { status, headers, mode }
}

/// The status and body the caller receives when the upstream could not be
/// reached: an internal error carrying the error text. No rotation happens.
pub fn transport_failure(error_text: String) -> (r: (u16, String))
    ensures
        r.0 == INTERNAL_SERVER_ERROR,
        r.1@ == error_text@,
{
    (INTERNAL_SERVER_ERROR, error_text)
}

/// The plain-text body for a path that no route serves: `No route for <path>`.
pub fn fallback_message(path: &str) -> (r: String)
    ensures
        r@ == seq!['N', 'o', ' ', 'r', 'o', 'u', 't', 'e', ' ', 'f', 'o', 'r', ' '] + path@,
{
    proof {
        reveal_strlit("No route for ");
    }
    assert("No route for "@ =~= seq!['N', 'o', ' ', 'r', 'o', 'u', 't', 'e', ' ', 'f', 'o', 'r', ' ']);
    "No route for ".to_owned().concat(path)
}

} // verus!
