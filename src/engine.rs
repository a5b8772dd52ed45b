//! The per-query request engine: from the state of a query and the outcome of
//! the last outside step (a cache lookup, a connection attempt, a response)
//! to the next state and the next step to perform.
use vstd::prelude::*;
use vstd::string::*;

use crate::dns::{DnsPacket, is_response_bytes, size_error, tid_of, valid_packet, with_tid, zero_tid};
use crate::response::{ResponseError, check_response, response_verdict};

verus! {

/// The settings that the engine reads.
pub struct Config {
    /// `https://<domain>/<path>`.
    pub uri: String,
    /// Connection attempts before giving up (at least one is made).
    pub retries: u32,
    /// Seconds to wait for a response.
    pub timeout: u64,
    /// POST the query in the body; else GET it in the URI.
    pub post: bool,
    /// Entries of the response cache; 0 disables it.
    pub cache_size: usize,
    /// Answer from an expired entry when the upstream fails.
    pub cache_fallback: bool,
}

impl Config {
    /// Settings for the server `domain` with the URI path `path`.
    pub fn new(
        domain: &str,
        path: &str,
        retries: u32,
        timeout: u64,
        post: bool,
        cache_size: usize,
        cache_fallback: bool,
    ) -> (r: Config)
        ensures
            r.uri@ == "https://"@ + domain@ + "/"@ + path@,
            r.retries == retries,
            r.timeout == timeout,
            r.post == post,
            r.cache_size == cache_size,
            r.cache_fallback == cache_fallback,
    {
        let mut uri = <String as StringExecFns>::from_str("https://");
        uri.append(domain);
        uri.append("/");
        uri.append(path);
        Config { uri, retries, timeout, post, cache_size, cache_fallback }
    }

    /// Expired entries are consulted after an upstream failure only when the
    /// fallback is on and the cache is enabled at all.
    pub open spec fn falls_back(&self) -> bool {
        self.cache_fallback && self.cache_size > 0
    }

    /// Whether an upstream failure goes to the expired-entry lookup.
    pub fn uses_fallback(&self) -> (r: bool)
        ensures
            r == self.falls_back(),
    {
        self.cache_fallback && self.cache_size > 0
    }
}

/// The attempt that follows a failed connection attempt `attempt`, or `None`
/// once `retries` attempts are used up (one attempt is always made).
pub open spec fn next_attempt(attempt: u32, retries: u32) -> Option<u32> {
    if attempt < retries {
        Some((attempt + 1) as u32)
    } else {
        None
    }
}

/// How many connection attempts are made from attempt `attempt` on when
/// every one fails.
pub open spec fn attempts_from(attempt: u32, retries: u32) -> nat
    decreases retries - attempt,
{
    match next_attempt(attempt, retries) {
        Some(a) => 1 + attempts_from(a, retries),
        None => 1,
    }
}

/// When every connection fails, a query makes exactly `max(retries, 1)`
/// attempts before it gives up: `step` starts at attempt 1 and follows
/// `next_attempt` on each failure.
pub proof fn lemma_connect_attempts(retries: u32)
    ensures
        attempts_from(1, retries) == if retries >= 1 {
            retries as nat
        } else {
            1
        },
{
    lemma_attempts_from(1, retries);
}

proof fn lemma_attempts_from(a: u32, retries: u32)
    requires
        a >= 1,
    ensures
        attempts_from(a, retries) == if a < retries {
            (retries - a + 1) as nat
        } else {
            1
        },
    decreases retries - a,
{
    if a < retries {
        lemma_attempts_from((a + 1) as u32, retries);
    }
}

/// Names the URL-safe, unpadded base64 text of some bytes.
pub uninterp spec fn base64url_nopad_of(b: Seq<u8>) -> Seq<char>;

/// A symbol of the URL-safe base64 alphabet: `A-Z`, `a-z`, `0-9`, `-`, `_`.
pub open spec fn is_base64url_symbol(c: char) -> bool {
    ('A' <= c && c <= 'Z') || ('a' <= c && c <= 'z') || ('0' <= c && c <= '9') || c == '-' || c
        == '_'
}

/// Relies on data_encoding's `BASE64URL_NOPAD.encode`: the URL-safe base64
/// text of the bytes, without padding; it depends on the bytes alone. Its
/// length is `encode_len`, that is `ceil(8 n / 6)` characters for `n` bytes,
/// every one of the encoding's symbols. Its documentation allows a panic
/// only on inputs longer than `usize::MAX / 512`.
#[verifier::external_body]
fn base64url_nopad(b: &Vec<u8>) -> (r: String)
    requires
        b@.len() <= usize::MAX / 512,
    ensures
        r@ == base64url_nopad_of(b@),
        r@.len() == (8 * b@.len() + 5) / 6,
        forall|i: int| 0 <= i < r@.len() ==> is_base64url_symbol(#[trigger] r@[i]),
{
    data_encoding::BASE64URL_NOPAD.encode(b)
}

/// The URI of a GET request: `uri?dns=encoded`.
pub fn query_uri(uri: &str, encoded: &str) -> (r: String)
    ensures
        r@ == uri@ + "?dns="@ + encoded@,
{
    let mut r = <String as StringExecFns>::from_str(uri);
    r.append("?dns=");
    r.append(encoded);
    r
}

/// A request to the upstream server. Both shapes send
/// `accept: application/dns-message`; a POST also sends that media type as
/// `content-type` and the body length as `content-length`.
pub struct UpstreamRequest {
    pub post: bool,
    pub uri: String,
    pub body: Vec<u8>,
}

/// The request for the query `q`: its zero-ID form in the body of a POST, or
/// base64-encoded in the URI of a GET, where it needs no escaping.
pub open spec fn request_ok(req: UpstreamRequest, config: &Config, q: Seq<u8>) -> bool {
    &&& req.post == config.post
    &&& config.post ==> req.uri@ == config.uri@ && req.body@ == zero_tid(q)
    &&& !config.post ==> req.uri@ == config.uri@ + "?dns="@ + base64url_nopad_of(zero_tid(q))
        && req.body@.len() == 0
        && base64url_nopad_of(zero_tid(q)).len() == (8 * q.len() + 5) / 6
        && forall|i: int|
        0 <= i < base64url_nopad_of(zero_tid(q)).len() ==> is_base64url_symbol(
            #[trigger] base64url_nopad_of(zero_tid(q))[i],
        )
}

/// What came back from the upstream server: the status, the `content-type`
/// and `cache-control` values if present, and the kept body bytes.
pub struct UpstreamResponse {
    pub status: u16,
    pub content_type: Option<Vec<u8>>,
    pub cache_control: Option<Vec<u8>>,
    pub body: Vec<u8>,
}

impl UpstreamResponse {
    /// What `check_response` makes of the headers.
    pub open spec fn verdict(&self) -> Result<Option<u64>, ResponseError> {
        response_verdict(
            self.status,
            match self.content_type {
                Some(v) => Some(v@),
                None => None,
            },
            match self.cache_control {
                Some(v) => Some(v@),
                None => None,
            },
        )
    }
}

/// Where a query stands.
pub enum QueryState {
    CacheLookup,
    AcquireSession,
    Establish { attempt: u32 },
    AwaitResponse { generation: u64 },
    Invalidate { generation: u64 },
    FallbackLookup,
    Done,
    Failed,
}

/// The outcome of the step last performed.
pub enum QueryEvent {
    /// A cache lookup returned this value.
    CacheResult(Option<Vec<u8>>),
    /// The session holds a handle of this generation.
    SessionPresent(u64),
    /// The session holds no handle.
    SessionAbsent,
    /// A connection was made and installed as this generation.
    Connected(u64),
    /// A connection attempt failed.
    ConnectFailed,
    /// The upstream server answered.
    Response(UpstreamResponse),
    /// The request could not be sent, the stream failed or timed out.
    StreamFailed,
    /// The session invalidation is done.
    Invalidated,
}

/// Why a query gets no reply.
#[derive(Debug, Clone, Copy, PartialEq, Eq, Structural)]
pub enum QueryError {
    /// Every connection attempt failed.
    UpstreamConnect,
    /// Sending or receiving failed.
    UpstreamStream,
    /// The response status or media type is wrong.
    UpstreamProtocol(ResponseError),
    /// The response body is no DNS response.
    BadResponse,
    /// No cache entry to fall back on.
    FallbackUnavailable,
    /// An event that the state does not expect.
    UnexpectedEvent,
}

/// A cache insert: the zero-ID forms of query and response, and the seconds
/// to keep it.
pub struct CacheStore {
    pub key: Vec<u8>,
    pub value: Vec<u8>,
    pub ttl: u64,
}

/// The next step to perform.
pub enum QueryAction {
    /// Look `key` up in the cache; with `keep_expired` an expired entry stays
    /// for a later fallback.
    LookupCache { key: Vec<u8>, keep_expired: bool },
    /// Lock the session and report whether it holds a handle.
    LockSession,
    /// Try to connect (the session stays locked).
    Connect,
    /// Wait a second, then try to connect again.
    RetryConnect,
    /// Send the request on the handle of `generation` and await the response
    /// within the timeout.
    Submit { request: UpstreamRequest, generation: u64 },
    /// Drop the session's handle if it is still of `generation`.
    InvalidateSession { generation: u64 },
    /// Look `key` up in the cache, expired entries included.
    LookupFallback { key: Vec<u8> },
    /// Send `packet` to the client, then store `store` in the cache if given.
    Reply { packet: DnsPacket, store: Option<CacheStore> },
    /// Give up on the query.
    Fail(QueryError),
}

/// The state and event pairs that the engine expects.
pub open spec fn expected(state: QueryState, event: QueryEvent) -> bool {
    match state {
        QueryState::CacheLookup => event is CacheResult,
        QueryState::AcquireSession => event is SessionPresent || event is SessionAbsent,
        QueryState::Establish { .. } => event is Connected || event is ConnectFailed,
        QueryState::AwaitResponse { .. } => event is Response || event is StreamFailed,
        QueryState::Invalidate { .. } => event is Invalidated,
        QueryState::FallbackLookup => event is CacheResult,
        _ => false,
    }
}

/// One query on its way through the engine.
pub struct QueryTask {
    pub msg: DnsPacket,
}

impl QueryTask {
    /// A task for a query accepted from a client.
    pub fn new(msg: DnsPacket) -> (r: QueryTask)
        ensures
            r.msg@ == msg@,
    {
        QueryTask { msg }
    }

    /// The reply that carries the bytes `b` with the query's transaction ID.
    pub open spec fn reply_bytes(&self, b: Seq<u8>) -> Seq<u8> {
        with_tid(b, self.msg@[0], self.msg@[1])
    }

    fn request(&self, config: &Config) -> (r: UpstreamRequest)
        ensures
            request_ok(r, config, self.msg@),
    {
        let key = self.msg.get_without_tid();
        if config.post {
            UpstreamRequest { post: true, uri: config.uri.clone(), body: key }
        } else {
            let encoded = base64url_nopad(&key);
            let uri = query_uri(config.uri.as_str(), encoded.as_str());
            UpstreamRequest { post: false, uri, body: Vec::new() }
        }
    }

    /// The first step: the cache when it is enabled, else the session.
    pub fn start(&self, config: &Config) -> (r: (QueryState, QueryAction))
        ensures
            config.cache_size == 0 ==> r.0 == QueryState::AcquireSession && r.1
                == QueryAction::LockSession,
            config.cache_size > 0 ==> r.0 == QueryState::CacheLookup && r.1 is LookupCache
                && r.1->LookupCache_key@ == zero_tid(self.msg@) && r.1->LookupCache_keep_expired
                == config.cache_fallback,
    {
        if config.cache_size == 0 {
            (QueryState::AcquireSession, QueryAction::LockSession)
        } else {
            let key = self.msg.get_without_tid();
            (QueryState::CacheLookup, QueryAction::LookupCache { key, keep_expired: config.cache_fallback })
        }
    }

    /// The next state and step, given the current state and the outcome of
    /// the step last performed.
    pub fn step(&self, config: &Config, state: QueryState, event: QueryEvent) -> (r: (
        QueryState,
        QueryAction,
    ))
        ensures
            !expected(state, event) ==> r == (QueryState::Failed, QueryAction::Fail(
                QueryError::UnexpectedEvent,
            )),
            // a cache hit is answered at once; a miss or unreadable bytes go upstream
            state == QueryState::CacheLookup && event is CacheResult ==> {
                let c = event->CacheResult_0;
                &&& (c is None || size_error(c->0@) is Some) ==> r == (
                    QueryState::AcquireSession,
                    QueryAction::LockSession,
                )
                &&& (c is Some && size_error(c->0@) is None) ==> r.0 == QueryState::Done
                    && r.1 is Reply && r.1->Reply_packet@ == self.reply_bytes(c->0@)
                    && r.1->Reply_store is None
            },
            state == QueryState::AcquireSession && event is SessionPresent ==> {
                &&& r.0 == (QueryState::AwaitResponse { generation: event->SessionPresent_0 })
                &&& r.1 is Submit && r.1->Submit_generation == event->SessionPresent_0
                &&& request_ok(r.1->Submit_request, config, self.msg@)
            },
            state == QueryState::AcquireSession && event is SessionAbsent ==> r == (
                QueryState::Establish { attempt: 1 },
                QueryAction::Connect,
            ),
            state is Establish && event is Connected ==> {
                &&& r.0 == (QueryState::AwaitResponse { generation: event->Connected_0 })
                &&& r.1 is Submit && r.1->Submit_generation == event->Connected_0
                &&& request_ok(r.1->Submit_request, config, self.msg@)
            },
            state is Establish && event is ConnectFailed ==> {
                let a = state->Establish_attempt;
                &&& next_attempt(a, config.retries) is Some ==> r == (
                    QueryState::Establish { attempt: next_attempt(a, config.retries)->0 },
                    QueryAction::RetryConnect,
                )
                &&& next_attempt(a, config.retries) is None && config.falls_back() ==> r.0
                    == QueryState::FallbackLookup && r.1 is LookupFallback
                    && r.1->LookupFallback_key@ == zero_tid(self.msg@)
                &&& next_attempt(a, config.retries) is None && !config.falls_back() ==> r == (
                    QueryState::Failed,
                    QueryAction::Fail(QueryError::UpstreamConnect),
                )
            },
            state is AwaitResponse && event is StreamFailed ==> r == (
                QueryState::Invalidate { generation: state->AwaitResponse_generation },
                QueryAction::InvalidateSession { generation: state->AwaitResponse_generation },
            ),
            state is AwaitResponse && event is Response ==> {
                let resp = event->Response_0;
                &&& resp.verdict() is Err ==> r == (QueryState::Failed, QueryAction::Fail(
                    QueryError::UpstreamProtocol(resp.verdict()->Err_0),
                ))
                &&& resp.verdict() is Ok && !(size_error(resp.body@) is None && is_response_bytes(
                    self.reply_bytes(resp.body@),
                )) ==> r == (QueryState::Failed, QueryAction::Fail(QueryError::BadResponse))
                &&& resp.verdict() is Ok && size_error(resp.body@) is None && is_response_bytes(
                    self.reply_bytes(resp.body@),
                ) ==> {
                    &&& r.0 == QueryState::Done
                    &&& r.1 is Reply
                    &&& r.1->Reply_packet@ == self.reply_bytes(resp.body@)
                    &&& (config.cache_size > 0 && resp.verdict()->Ok_0 is Some) ==> r.1->Reply_store
                        is Some && r.1->Reply_store->0.key@ == zero_tid(self.msg@)
                        && r.1->Reply_store->0.value@ == zero_tid(resp.body@)
                        && r.1->Reply_store->0.ttl == resp.verdict()->Ok_0->0
                    &&& !(config.cache_size > 0 && resp.verdict()->Ok_0 is Some) ==> r.1->Reply_store
                        is None
                }
            },
            state is Invalidate && event is Invalidated ==> {
                &&& config.falls_back() ==> r.0 == QueryState::FallbackLookup && r.1 is LookupFallback
                    && r.1->LookupFallback_key@ == zero_tid(self.msg@)
                &&& !config.falls_back() ==> r == (
                    QueryState::Failed,
                    QueryAction::Fail(QueryError::UpstreamStream),
                )
            },
            state == QueryState::FallbackLookup && event is CacheResult ==> {
                let c = event->CacheResult_0;
                &&& c is None ==> r == (
                    QueryState::Failed,
                    QueryAction::Fail(QueryError::FallbackUnavailable),
                )
                &&& (c is Some && size_error(c->0@) is Some) ==> r == (
                    QueryState::Failed,
                    QueryAction::Fail(QueryError::BadResponse),
                )
                &&& (c is Some && size_error(c->0@) is None) ==> r.0 == QueryState::Done
                    && r.1 is Reply && r.1->Reply_packet@ == self.reply_bytes(c->0@)
                    && r.1->Reply_store is None
            },
    {
        match state {
            QueryState::CacheLookup => match event {
                QueryEvent::CacheResult(c) => match c {
                    Some(bytes) => match self.reply_from_cache(bytes) {
                        Some(packet) => (QueryState::Done, QueryAction::Reply { packet, store: None }),
                        None => (QueryState::AcquireSession, QueryAction::LockSession),
                    },
                    None => (QueryState::AcquireSession, QueryAction::LockSession),
                },
                _ => (QueryState::Failed, QueryAction::Fail(QueryError::UnexpectedEvent)),
            },
            QueryState::AcquireSession => match event {
                QueryEvent::SessionPresent(generation) => (
                    QueryState::AwaitResponse { generation },
                    QueryAction::Submit { request: self.request(config), generation },
                ),
                QueryEvent::SessionAbsent => (QueryState::Establish { attempt: 1 }, QueryAction::Connect),
                _ => (QueryState::Failed, QueryAction::Fail(QueryError::UnexpectedEvent)),
            },
            QueryState::Establish { attempt } => match event {
                QueryEvent::Connected(generation) => (
                    QueryState::AwaitResponse { generation },
                    QueryAction::Submit { request: self.request(config), generation },
                ),
                QueryEvent::ConnectFailed => {
                    if attempt < config.retries {
                        (QueryState::Establish { attempt: attempt + 1 }, QueryAction::RetryConnect)
                    } else if config.uses_fallback() {
                        let key = self.msg.get_without_tid();
                        (QueryState::FallbackLookup, QueryAction::LookupFallback { key })
                    } else {
                        (QueryState::Failed, QueryAction::Fail(QueryError::UpstreamConnect))
                    }
                },
                _ => (QueryState::Failed, QueryAction::Fail(QueryError::UnexpectedEvent)),
            },
            QueryState::AwaitResponse { generation } => match event {
                QueryEvent::Response(resp) => self.on_response(config, resp),
                QueryEvent::StreamFailed => (
                    QueryState::Invalidate { generation },
                    QueryAction::InvalidateSession { generation },
                ),
                _ => (QueryState::Failed, QueryAction::Fail(QueryError::UnexpectedEvent)),
            },
            QueryState::Invalidate { generation: _ } => match event {
                QueryEvent::Invalidated => {
                    if config.uses_fallback() {
                        let key = self.msg.get_without_tid();
                        (QueryState::FallbackLookup, QueryAction::LookupFallback { key })
                    } else {
                        (QueryState::Failed, QueryAction::Fail(QueryError::UpstreamStream))
                    }
                },
                _ => (QueryState::Failed, QueryAction::Fail(QueryError::UnexpectedEvent)),
            },
            QueryState::FallbackLookup => match event {
                QueryEvent::CacheResult(c) => match c {
                    Some(bytes) => match self.reply_from_cache(bytes) {
                        Some(packet) => (QueryState::Done, QueryAction::Reply { packet, store: None }),
                        None => (QueryState::Failed, QueryAction::Fail(QueryError::BadResponse)),
                    },
                    None => (QueryState::Failed, QueryAction::Fail(QueryError::FallbackUnavailable)),
                },
                _ => (QueryState::Failed, QueryAction::Fail(QueryError::UnexpectedEvent)),
            },
            _ => (QueryState::Failed, QueryAction::Fail(QueryError::UnexpectedEvent)),
        }
    }

    /// The reply for cached bytes, or `None` when they do not parse.
    fn reply_from_cache(&self, bytes: Vec<u8>) -> (r: Option<DnsPacket>)
        ensures
            r is Some <==> size_error(bytes@) is None,
            r is Some ==> r->0@ == self.reply_bytes(bytes@),
    {
        match DnsPacket::from_tid(bytes, self.msg.get_tid()) {
            Ok(p) => Some(p),
            Err(_) => None,
        }
    }

    /// The step after the upstream answered.
    fn on_response(&self, config: &Config, resp: UpstreamResponse) -> (r: (QueryState, QueryAction))
        ensures
            resp.verdict() is Err ==> r == (QueryState::Failed, QueryAction::Fail(
                QueryError::UpstreamProtocol(resp.verdict()->Err_0),
            )),
            resp.verdict() is Ok && !(size_error(resp.body@) is None && is_response_bytes(
                self.reply_bytes(resp.body@),
            )) ==> r == (QueryState::Failed, QueryAction::Fail(QueryError::BadResponse)),
            resp.verdict() is Ok && size_error(resp.body@) is None && is_response_bytes(
                self.reply_bytes(resp.body@),
            ) ==> {
                &&& r.0 == QueryState::Done
                &&& r.1 is Reply
                &&& r.1->Reply_packet@ == self.reply_bytes(resp.body@)
                &&& (config.cache_size > 0 && resp.verdict()->Ok_0 is Some) ==> r.1->Reply_store
                    is Some && r.1->Reply_store->0.key@ == zero_tid(self.msg@)
                    && r.1->Reply_store->0.value@ == zero_tid(resp.body@)
                    && r.1->Reply_store->0.ttl == resp.verdict()->Ok_0->0
                &&& !(config.cache_size > 0 && resp.verdict()->Ok_0 is Some) ==> r.1->Reply_store
                    is None
            },
    {
        let verdict = check_response(resp.status, resp.content_type.as_ref(), resp.cache_control.as_ref());
        let ttl = match verdict {
            Err(e) => {
                return (QueryState::Failed, QueryAction::Fail(QueryError::UpstreamProtocol(e)));
            },
            Ok(t) => t,
        };
        let ghost body = resp.body@;
        let packet = match DnsPacket::from_tid(resp.body, self.msg.get_tid()) {
            Ok(p) => p,
            Err(_) => {
                return (QueryState::Failed, QueryAction::Fail(QueryError::BadResponse));
            },
        };
        if !packet.is_response() {
            return (QueryState::Failed, QueryAction::Fail(QueryError::BadResponse));
        }
        let store = match ttl {
            Some(t) => {
                if config.cache_size > 0 {
                    let key = self.msg.get_without_tid();
                    let value = packet.get_without_tid();
                    proof {
                        crate::dns::lemma_zero_tid_after_with_tid(body, self.msg@[0], self.msg@[1]);
                    }
                    Some(CacheStore { key, value, ttl: t })
                } else {
                    None
                }
            },
            None => None,
        };
        (QueryState::Done, QueryAction::Reply { packet, store })
    }
}

/// Every reply that the engine builds for a query starts with the query's
/// transaction ID, whatever the upstream or the cache stored.
pub proof fn lemma_reply_keeps_tid(task: QueryTask, b: Seq<u8>)
    requires
        valid_packet(task.msg@),
        size_error(b) is None,
    ensures
        tid_of(task.reply_bytes(b)) == tid_of(task.msg@),
{
    assert(tid_of(task.reply_bytes(b)) =~= tid_of(task.msg@));
}

} // verus!
