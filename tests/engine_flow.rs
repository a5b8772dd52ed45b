use doh_client::cache::Cache;
use doh_client::dns::DnsPacket;
use doh_client::engine::{
    query_uri, Config, QueryAction, QueryError, QueryEvent, QueryState, QueryTask, UpstreamResponse,
};
use doh_client::response::ResponseError;
use doh_client::session::Session;

fn query_bytes(tid: [u8; 2]) -> Vec<u8> {
    let mut q = vec![0u8; 29];
    q[0] = tid[0];
    q[1] = tid[1];
    q[2] = 0x01;
    q[5] = 1;
    q[12] = 7;
    q
}

fn answer_bytes() -> Vec<u8> {
    let mut r: Vec<u8> = (0..50u32).map(|i| (i * 3) as u8).collect();
    r[0] = 0;
    r[1] = 0;
    r[2] = 0x81;
    r
}

fn ok_response(body: Vec<u8>, cache_control: Option<&str>) -> UpstreamResponse {
    UpstreamResponse {
        status: 200,
        content_type: Some(b"application/dns-message".to_vec()),
        cache_control: cache_control.map(|c| c.as_bytes().to_vec()),
        body,
    }
}

fn config(post: bool, cache_size: usize, fallback: bool) -> Config {
    Config::new("dns.example", "dns-query", 3, 2, post, cache_size, fallback)
}

fn task(tid: [u8; 2]) -> QueryTask {
    QueryTask::new(DnsPacket::from(query_bytes(tid)).ok().unwrap())
}

#[test]
fn config_joins_uri() {
    let c = config(true, 0, false);
    assert_eq!(c.uri, "https://dns.example/dns-query");
    assert_eq!(c.retries, 3);
    assert_eq!(c.timeout, 2);
}

#[test]
fn query_uri_appends_parameter() {
    assert_eq!(query_uri("https://a/b", "AAAB"), "https://a/b?dns=AAAB");
}

#[test]
fn cold_post_then_warm_hit() {
    let cfg = config(true, 1024, false);
    let mut cache = Cache::new(cfg.cache_size);
    let mut session: Session<u8> = Session::new();
    let t = task([0xAB, 0xCD]);
    let key = t.msg.get_without_tid();

    let (state, action) = t.start(&cfg);
    let looked_up = match action {
        QueryAction::LookupCache { key: k, keep_expired } => {
            assert_eq!(k, key);
            assert!(!keep_expired);
            cache.get(&k, 1000)
        }
        _ => panic!("expected a cache lookup"),
    };
    assert!(looked_up.is_none());
    let (state, action) = t.step(&cfg, state, QueryEvent::CacheResult(looked_up));
    assert!(matches!(state, QueryState::AcquireSession));
    assert!(matches!(action, QueryAction::LockSession));
    let (state, action) = t.step(&cfg, state, QueryEvent::SessionAbsent);
    assert!(matches!(state, QueryState::Establish { attempt: 1 }));
    assert!(matches!(action, QueryAction::Connect));
    let generation = session.install(1);
    let (state, action) = t.step(&cfg, state, QueryEvent::Connected(generation));
    match action {
        QueryAction::Submit { request, generation: g } => {
            assert_eq!(g, generation);
            assert!(request.post);
            assert_eq!(request.uri, "https://dns.example/dns-query");
            assert_eq!(request.body, key);
        }
        _ => panic!("expected a submit"),
    }
    let r = answer_bytes();
    let (state, action) = t.step(&cfg, state, QueryEvent::Response(ok_response(r.clone(), Some("max-age=60"))));
    assert!(matches!(state, QueryState::Done));
    match action {
        QueryAction::Reply { packet, store } => {
            let mut expected = vec![0xAB, 0xCD];
            expected.extend_from_slice(&r[2..]);
            assert_eq!(packet.get(), expected);
            let store = store.unwrap();
            assert_eq!(store.key, key);
            assert_eq!(store.value, r);
            assert_eq!(store.ttl, 60);
            cache.put(store.key, store.value, store.ttl, 1000);
        }
        _ => panic!("expected a reply"),
    }
    assert_eq!(cache.get(&key, 1060), Some(r.clone()));

    let t2 = task([0x11, 0x22]);
    let (state, action) = t2.start(&cfg);
    let hit = match action {
        QueryAction::LookupCache { key: k, .. } => cache.get(&k, 1001),
        _ => panic!("expected a cache lookup"),
    };
    let (state, action) = t2.step(&cfg, state, QueryEvent::CacheResult(hit));
    assert!(matches!(state, QueryState::Done));
    match action {
        QueryAction::Reply { packet, store } => {
            let mut expected = vec![0x11, 0x22];
            expected.extend_from_slice(&r[2..]);
            assert_eq!(packet.get(), expected);
            assert!(store.is_none());
        }
        _ => panic!("expected a reply from the cache"),
    }
}

#[test]
fn expired_entry_serves_when_upstream_is_down() {
    let cfg = config(true, 16, true);
    let mut cache = Cache::new(cfg.cache_size);
    let t = task([0x42, 0x43]);
    let key = t.msg.get_without_tid();
    let r = answer_bytes();
    cache.put(key.clone(), r.clone(), 60, 0);

    let (mut state, action) = t.start(&cfg);
    let looked_up = match action {
        QueryAction::LookupCache { key: k, keep_expired } => {
            assert!(keep_expired);
            cache.get_expired(&k, 120)
        }
        _ => panic!("expected a cache lookup"),
    };
    assert!(looked_up.is_none());
    let (s, _) = t.step(&cfg, state, QueryEvent::CacheResult(looked_up));
    let (s, a) = t.step(&cfg, s, QueryEvent::SessionAbsent);
    assert!(matches!(a, QueryAction::Connect));
    state = s;
    let mut retries = 0;
    let fallback_key = loop {
        let (s, a) = t.step(&cfg, state, QueryEvent::ConnectFailed);
        state = s;
        match a {
            QueryAction::RetryConnect => retries += 1,
            QueryAction::LookupFallback { key: k } => break k,
            _ => panic!("unexpected step"),
        }
    };
    assert_eq!(retries, 2);
    assert_eq!(fallback_key, key);
    let found = cache.get_expired_fallback(&fallback_key);
    let (state, action) = t.step(&cfg, state, QueryEvent::CacheResult(found));
    assert!(matches!(state, QueryState::Done));
    match action {
        QueryAction::Reply { packet, store } => {
            assert_eq!(packet.get_tid(), [0x42, 0x43]);
            assert_eq!(&packet.get()[2..], &r[2..]);
            assert!(store.is_none());
        }
        _ => panic!("expected a reply"),
    }
}

#[test]
fn connect_exhaustion_without_fallback_fails() {
    let cfg = Config::new("d", "p", 1, 2, true, 0, false);
    let t = task([1, 2]);
    let (state, action) = t.start(&cfg);
    assert!(matches!(action, QueryAction::LockSession));
    let (state, _) = t.step(&cfg, state, QueryEvent::SessionAbsent);
    let (state, action) = t.step(&cfg, state, QueryEvent::ConnectFailed);
    assert!(matches!(state, QueryState::Failed));
    assert!(matches!(action, QueryAction::Fail(QueryError::UpstreamConnect)));
}

#[test]
fn timeout_invalidates_then_fails_or_falls_back() {
    let t = task([1, 2]);
    for fallback in [false, true] {
        let cfg = config(true, 8, fallback);
        let (state, action) = t.step(&cfg, QueryState::AcquireSession, QueryEvent::SessionPresent(5));
        assert!(matches!(state, QueryState::AwaitResponse { generation: 5 }));
        assert!(matches!(action, QueryAction::Submit { generation: 5, .. }));
        let (state, action) = t.step(&cfg, state, QueryEvent::StreamFailed);
        assert!(matches!(action, QueryAction::InvalidateSession { generation: 5 }));
        let (state, action) = t.step(&cfg, state, QueryEvent::Invalidated);
        if fallback {
            assert!(matches!(state, QueryState::FallbackLookup));
            let (state, action) = t.step(&cfg, state, QueryEvent::CacheResult(None));
            assert!(matches!(state, QueryState::Failed));
            assert!(matches!(action, QueryAction::Fail(QueryError::FallbackUnavailable)));
        } else {
            assert!(matches!(state, QueryState::Failed));
            assert!(matches!(action, QueryAction::Fail(QueryError::UpstreamStream)));
        }
    }
}

#[test]
fn get_request_carries_base64_query() {
    let cfg = config(false, 0, false);
    let t = task([0xAB, 0xCD]);
    let (_, action) = t.step(&cfg, QueryState::AcquireSession, QueryEvent::SessionPresent(1));
    match action {
        QueryAction::Submit { request, .. } => {
            assert!(!request.post);
            assert!(request.body.is_empty());
            assert_eq!(
                request.uri,
                "https://dns.example/dns-query?dns=AAABAAABAAAAAAAABwAAAAAAAAAAAAAAAAAAAAA"
            );
        }
        _ => panic!("expected a submit"),
    }
}

#[test]
fn bad_responses_fail() {
    let cfg = config(true, 8, false);
    let t = task([1, 2]);
    let aw = || QueryState::AwaitResponse { generation: 1 };
    let mut wrong_status = ok_response(answer_bytes(), None);
    wrong_status.status = 500;
    let (_, a) = t.step(&cfg, aw(), QueryEvent::Response(wrong_status));
    assert!(matches!(a, QueryAction::Fail(QueryError::UpstreamProtocol(ResponseError::Status))));
    let mut no_type = ok_response(answer_bytes(), None);
    no_type.content_type = None;
    let (_, a) = t.step(&cfg, aw(), QueryEvent::Response(no_type));
    assert!(matches!(a, QueryAction::Fail(QueryError::UpstreamProtocol(ResponseError::MissingContentType))));
    let mut wrong_type = ok_response(answer_bytes(), None);
    wrong_type.content_type = Some(b"text/plain".to_vec());
    let (_, a) = t.step(&cfg, aw(), QueryEvent::Response(wrong_type));
    assert!(matches!(a, QueryAction::Fail(QueryError::UpstreamProtocol(ResponseError::ContentType))));
    let (_, a) = t.step(&cfg, aw(), QueryEvent::Response(ok_response(vec![0u8; 5], None)));
    assert!(matches!(a, QueryAction::Fail(QueryError::BadResponse)));
    let mut not_answer = answer_bytes();
    not_answer[2] = 0x01;
    let (_, a) = t.step(&cfg, aw(), QueryEvent::Response(ok_response(not_answer, None)));
    assert!(matches!(a, QueryAction::Fail(QueryError::BadResponse)));
    let (_, a) = t.step(&cfg, QueryState::Done, QueryEvent::Invalidated);
    assert!(matches!(a, QueryAction::Fail(QueryError::UnexpectedEvent)));
}

#[test]
fn no_store_without_max_age_or_cache() {
    let t = task([1, 2]);
    let aw = || QueryState::AwaitResponse { generation: 1 };
    let cached = config(true, 8, false);
    let (_, a) = t.step(&cached, aw(), QueryEvent::Response(ok_response(answer_bytes(), Some("no-cache"))));
    assert!(matches!(a, QueryAction::Reply { store: None, .. }));
    let uncached = config(true, 0, false);
    let (_, a) = t.step(&uncached, aw(), QueryEvent::Response(ok_response(answer_bytes(), Some("max-age=60"))));
    assert!(matches!(a, QueryAction::Reply { store: None, .. }));
}

#[test]
fn disabled_cache_is_never_a_fallback() {
    let cfg = Config::new("d", "p", 1, 2, true, 0, true);
    let t = task([1, 2]);
    let (state, action) = t.start(&cfg);
    assert!(matches!(action, QueryAction::LockSession));
    let (state, _) = t.step(&cfg, state, QueryEvent::SessionAbsent);
    let (state, action) = t.step(&cfg, state, QueryEvent::ConnectFailed);
    assert!(matches!(state, QueryState::Failed));
    assert!(matches!(action, QueryAction::Fail(QueryError::UpstreamConnect)));

    let (state, _) = t.step(&cfg, QueryState::AcquireSession, QueryEvent::SessionPresent(3));
    let (state, _) = t.step(&cfg, state, QueryEvent::StreamFailed);
    let (state, action) = t.step(&cfg, state, QueryEvent::Invalidated);
    assert!(matches!(state, QueryState::Failed));
    assert!(matches!(action, QueryAction::Fail(QueryError::UpstreamStream)));
}

#[test]
fn retries_zero_still_makes_one_attempt() {
    let cfg = Config::new("d", "p", 0, 2, true, 4, true);
    let t = task([1, 2]);
    let (state, _) = t.step(&cfg, QueryState::AcquireSession, QueryEvent::SessionAbsent);
    let (_, action) = t.step(&cfg, state, QueryEvent::ConnectFailed);
    assert!(matches!(action, QueryAction::LookupFallback { .. }));
}

#[test]
fn unreadable_cache_control_is_forwarded_not_cached() {
    let cfg = config(true, 8, false);
    let t = task([1, 2]);
    let mut resp = ok_response(answer_bytes(), None);
    let mut cc = b"max-age=60,".to_vec();
    cc.push(0x80);
    resp.cache_control = Some(cc);
    let (state, a) = t.step(&cfg, QueryState::AwaitResponse { generation: 1 }, QueryEvent::Response(resp));
    assert!(matches!(state, QueryState::Done));
    assert!(matches!(a, QueryAction::Reply { store: None, .. }));
}
