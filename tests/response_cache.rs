use doh_client::cache::Cache;
use doh_client::response::{check_response, max_age, parse_u64, trim_bounds, BodyBuffer, ResponseError};
use doh_client::session::Session;

fn bytes(s: &str) -> Vec<u8> {
    s.as_bytes().to_vec()
}

#[test]
fn cache_get_live_and_expired() {
    let mut c = Cache::new(4);
    c.put(vec![1], vec![10], 60, 100);
    assert_eq!(c.get(&vec![1], 160), Some(vec![10]));
    assert_eq!(c.get_expired(&vec![1], 161), None);
    assert_eq!(c.len(), 1);
    assert_eq!(c.get_expired_fallback(&vec![1]), Some(vec![10]));
    assert_eq!(c.get(&vec![1], 161), None);
    assert_eq!(c.len(), 0);
    assert_eq!(c.get_expired_fallback(&vec![1]), None);
}

#[test]
fn cache_replaces_and_evicts_least_recent() {
    let mut c = Cache::new(2);
    c.put(vec![1], vec![10], 60, 0);
    c.put(vec![2], vec![20], 60, 0);
    assert_eq!(c.get(&vec![1], 1), Some(vec![10]));
    c.put(vec![3], vec![30], 60, 1);
    assert_eq!(c.len(), 2);
    assert_eq!(c.get(&vec![2], 2), None);
    assert_eq!(c.get(&vec![1], 2), Some(vec![10]));
    c.put(vec![1], vec![11], 5, 2);
    assert_eq!(c.len(), 2);
    assert_eq!(c.get(&vec![1], 7), Some(vec![11]));
    assert_eq!(c.get(&vec![1], 8), None);
}

#[test]
fn cache_of_capacity_zero_stores_nothing() {
    let mut c = Cache::new(0);
    c.put(vec![1], vec![10], 60, 0);
    assert_eq!(c.len(), 0);
    assert_eq!(c.capacity(), 0);
    assert_eq!(c.get_expired_fallback(&vec![1]), None);
}

#[test]
fn max_age_directive_is_read() {
    assert_eq!(max_age(&bytes("max-age=60")), Some(60));
    assert_eq!(max_age(&bytes("public, max-age=300")), Some(300));
    assert_eq!(max_age(&bytes(" max-age = 7 ,no-cache")), Some(7));
    assert_eq!(max_age(&bytes("max-age=1, max-age=2")), Some(2));
    assert_eq!(max_age(&bytes("max-age=1, max-age=x")), Some(1));
    assert_eq!(max_age(&bytes("max-age=+5")), Some(5));
    assert_eq!(max_age(&bytes("no-cache")), None);
    assert_eq!(max_age(&bytes("max-age")), None);
    assert_eq!(max_age(&bytes("max-age=")), None);
    assert_eq!(max_age(&bytes("max-age=-1")), None);
    assert_eq!(max_age(&bytes("s-maxage=5")), None);
    assert_eq!(max_age(&bytes("max-age=18446744073709551615")), Some(u64::MAX));
    assert_eq!(max_age(&bytes("max-age=18446744073709551616")), None);
    assert_eq!(max_age(&bytes("")), None);
}

#[test]
fn decimal_and_trim_helpers() {
    let s = bytes("  12a 34 ");
    assert_eq!(trim_bounds(&s, 0, s.len()), (2, 8));
    assert_eq!(parse_u64(&s, 2, 4), Some(12));
    assert_eq!(parse_u64(&s, 2, 5), None);
    assert_eq!(parse_u64(&s, 6, 8), Some(34));
    assert_eq!(parse_u64(&s, 0, 0), None);
    let plus = bytes("+");
    assert_eq!(parse_u64(&plus, 0, 1), None);
}

#[test]
fn response_headers_are_checked() {
    let ct = bytes("application/dns-message");
    let cc = bytes("max-age=60");
    assert_eq!(check_response(200, Some(&ct), Some(&cc)), Ok(Some(60)));
    assert_eq!(check_response(200, Some(&ct), None), Ok(None));
    assert_eq!(check_response(200, Some(&ct), Some(&bytes("no-store"))), Ok(None));
    assert_eq!(check_response(404, Some(&ct), Some(&cc)), Err(ResponseError::Status));
    assert_eq!(check_response(200, None, Some(&cc)), Err(ResponseError::MissingContentType));
    assert_eq!(
        check_response(200, Some(&bytes("text/html")), Some(&cc)),
        Err(ResponseError::ContentType)
    );
}

#[test]
fn oversize_body_is_cut_at_4096() {
    let body: Vec<u8> = (0..5000u32).map(|i| (i % 251) as u8).collect();
    let mut buf = BodyBuffer::new();
    let mut credit = 0usize;
    for chunk in body.chunks(1000) {
        credit += buf.push(&chunk.to_vec());
    }
    assert_eq!(credit, 5000);
    let kept = buf.into_bytes();
    assert_eq!(kept.len(), 4096);
    assert_eq!(&kept[..], &body[..4096]);
}

#[test]
fn short_body_is_kept_whole() {
    let mut buf = BodyBuffer::new();
    assert_eq!(buf.push(&vec![1, 2, 3]), 3);
    assert_eq!(buf.push(&vec![]), 0);
    assert_eq!(buf.push(&vec![4]), 1);
    assert_eq!(buf.into_bytes(), vec![1, 2, 3, 4]);
}

#[test]
fn session_invalidation_is_idempotent() {
    let mut s: Session<&str> = Session::new();
    assert_eq!(s.generation(), 0);
    let g = s.install("first");
    assert_eq!(g, 1);
    assert!(s.is_present());
    let recorded_a = s.generation();
    let recorded_b = s.generation();
    assert!(s.invalidate(recorded_a));
    assert!(!s.is_present());
    assert_eq!(s.generation(), g);
    assert!(!s.invalidate(recorded_b));
    assert!(!s.is_present());
    assert_eq!(s.generation(), g);
    assert_eq!(s.install("second"), g + 1);
    assert_eq!(s.handle(), Some(&"second"));
}

#[test]
fn stale_invalidation_keeps_new_session() {
    let mut s: Session<u32> = Session::new();
    let old = s.install(1);
    let new = s.install(2);
    assert_eq!(new, old + 1);
    assert!(!s.invalidate(old));
    assert_eq!(s.handle(), Some(&2));
}

#[test]
fn non_text_cache_control_gives_no_ttl() {
    let mut cc = bytes("max-age=60,");
    cc.push(0x80);
    assert_eq!(max_age(&cc), None);
    let ct = bytes("application/dns-message");
    assert_eq!(check_response(200, Some(&ct), Some(&cc)), Ok(None));
    let mut ctl = bytes("max-age=60");
    ctl.push(0x07);
    assert_eq!(max_age(&ctl), None);
    assert_eq!(max_age(&bytes("max-age=60,\tpublic")), Some(60));
}
