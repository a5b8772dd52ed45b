//! Validation of an upstream HTTP/2 response: status, media type, the
//! `max-age` directive of `cache-control`, and the bounded body buffer.
use vstd::prelude::*;

use crate::cache::bytes_eq;

verus! {

/// At most this many body bytes are kept in memory.
pub const MAX_BODY_LEN: usize = 4096;

/// The one status that carries a DNS answer.
pub const STATUS_OK: u16 = 200;

/// Why an upstream response is refused.
#[derive(Debug, Clone, Copy, PartialEq, Eq, Structural)]
pub enum ResponseError {
    /// The status is not 200.
    Status,
    /// There is no `content-type` header.
    MissingContentType,
    /// The `content-type` is not `application/dns-message`.
    ContentType,
}

/// The media type of a DNS message: `application/dns-message`.
pub open spec fn dns_media_type() -> Seq<u8> {
    seq![
        97u8, 112, 112, 108, 105, 99, 97, 116, 105, 111, 110, 47,
        100, 110, 115, 45, 109, 101, 115, 115, 97, 103, 101,
    ]
}

/// The directive name `max-age`.
pub open spec fn max_age_name() -> Seq<u8> {
    seq![109u8, 97, 120, 45, 97, 103, 101]
}

/// ASCII white space: space, tab, and the line and page breaks.
pub open spec fn is_space(b: u8) -> bool {
    b == 32u8 || (9u8 <= b && b <= 13u8)
}

/// The bytes without leading white space.
pub open spec fn trim_start(s: Seq<u8>) -> Seq<u8>
    decreases s.len(),
{
    if s.len() > 0 && is_space(s[0]) {
        trim_start(s.drop_first())
    } else {
        s
    }
}

/// The bytes without trailing white space.
pub open spec fn trim_end(s: Seq<u8>) -> Seq<u8>
    decreases s.len(),
{
    if s.len() > 0 && is_space(s.last()) {
        trim_end(s.drop_last())
    } else {
        s
    }
}

/// The bytes without leading and trailing white space.
pub open spec fn trim(s: Seq<u8>) -> Seq<u8> {
    trim_end(trim_start(s))
}

/// An ASCII decimal digit.
pub open spec fn is_digit(b: u8) -> bool {
    48u8 <= b && b <= 57u8
}

/// The number that a string of decimal digits denotes.
pub open spec fn digits_value(s: Seq<u8>) -> int
    decreases s.len(),
{
    if s.len() == 0 {
        0
    } else {
        digits_value(s.drop_last()) * 10 + (s.last() - 48u8)
    }
}

/// The digits of a number: without a leading `+`.
pub open spec fn unsigned_part(s: Seq<u8>) -> Seq<u8> {
    if s.len() > 0 && s[0] == 43u8 {
        s.drop_first()
    } else {
        s
    }
}

/// At least one digit, only digits, and a value that fits in 64 bits.
pub open spec fn digits_u64(d: Seq<u8>) -> Option<u64> {
    if d.len() > 0 && (forall|i: int| 0 <= i < d.len() ==> is_digit(#[trigger] d[i]))
        && digits_value(d) <= u64::MAX {
        Some(digits_value(d) as u64)
    } else {
        None
    }
}

/// An unsigned decimal number as `u64` parsing reads it: an optional `+`,
/// then at least one digit, and a value that fits in 64 bits.
pub open spec fn parse_u64_spec(s: Seq<u8>) -> Option<u64> {
    digits_u64(unsigned_part(s))
}

/// The position of the first `=` in a directive.
pub open spec fn first_equals(d: Seq<u8>) -> Option<int> {
    if exists|i: int|
        0 <= i < d.len() && d[i] == 61u8 && (forall|j: int| 0 <= j < i ==> #[trigger] d[j] != 61u8) {
        Some(
            choose|i: int|
                0 <= i < d.len() && d[i] == 61u8 && (forall|j: int|
                    0 <= j < i ==> #[trigger] d[j] != 61u8),
        )
    } else {
        None
    }
}

/// The seconds that one directive gives: `max-age=N`, the name and the value
/// trimmed, split at the first `=`.
pub open spec fn directive_ttl(d: Seq<u8>) -> Option<u64> {
    match first_equals(d) {
        None => None,
        Some(i) => if trim(d.subrange(0, i)) == max_age_name() {
            parse_u64_spec(trim(d.subrange(i + 1, d.len() as int)))
        } else {
            None
        },
    }
}

/// The comma-separated segments of a value, in order; a value without a
/// comma is one segment.
pub open spec fn split_commas(s: Seq<u8>) -> Seq<Seq<u8>>
    decreases s.len(),
{
    if s.len() == 0 {
        seq![Seq::<u8>::empty()]
    } else {
        let rest = split_commas(s.drop_last());
        if s.last() == 44u8 {
            rest.push(Seq::<u8>::empty())
        } else {
            rest.update(rest.len() - 1, rest.last().push(s.last()))
        }
    }
}

/// The value of the last directive among `segs` that reads `max-age=N`.
pub open spec fn last_ttl(segs: Seq<Seq<u8>>) -> Option<u64>
    decreases segs.len(),
{
    if segs.len() == 0 {
        None
    } else {
        match directive_ttl(segs.last()) {
            Some(n) => Some(n),
            None => last_ttl(segs.drop_last()),
        }
    }
}

/// A byte that a header value may hold as text: visible ASCII or tab.
pub open spec fn is_header_text_byte(b: u8) -> bool {
    b == 9u8 || (32u8 <= b && b <= 126u8)
}

/// The time to live that a `cache-control` value gives: the last of its
/// comma-separated directives that reads `max-age=N`. A value that is not
/// text (a byte outside visible ASCII and tab) cannot be read and gives none.
pub open spec fn max_age_spec(s: Seq<u8>) -> Option<u64> {
    if forall|i: int| 0 <= i < s.len() ==> is_header_text_byte(#[trigger] s[i]) {
        last_ttl(split_commas(s))
    } else {
        None
    }
}

/// The segments with `t` appended to the last one.
spec fn with_tail(segs: Seq<Seq<u8>>, t: Seq<u8>) -> Seq<Seq<u8>> {
    segs.update(segs.len() - 1, segs.last() + t)
}

proof fn lemma_split_nonempty(s: Seq<u8>)
    ensures
        split_commas(s).len() >= 1,
    decreases s.len(),
{
    if s.len() > 0 {
        lemma_split_nonempty(s.drop_last());
    }
}

proof fn lemma_digits_prefix(d: Seq<u8>, k: int)
    requires
        0 <= k <= d.len(),
        forall|i: int| 0 <= i < d.len() ==> is_digit(#[trigger] d[i]),
    ensures
        0 <= digits_value(d.subrange(0, k)) <= digits_value(d),
    decreases d.len(),
{
    if k < d.len() {
        let p = d.drop_last();
        assert(is_digit(d[d.len() - 1]));
        assert forall|i: int| 0 <= i < p.len() implies is_digit(#[trigger] p[i]) by {
            assert(p[i] == d[i]);
        }
        lemma_digits_prefix(p, k);
        assert(p.subrange(0, k) =~= d.subrange(0, k));
    } else {
        assert(d.subrange(0, k) =~= d);
        if d.len() > 0 {
            let p = d.drop_last();
            assert forall|i: int| 0 <= i < p.len() implies is_digit(#[trigger] p[i]) by {
                assert(p[i] == d[i]);
            }
            assert(is_digit(d[d.len() - 1]));
            lemma_digits_prefix(p, p.len() as int);
            assert(p.subrange(0, p.len() as int) =~= p);
        }
    }
}

/// Parses `s[lo..hi]` as an unsigned 64-bit decimal number.
pub fn parse_u64(s: &Vec<u8>, lo: usize, hi: usize) -> (r: Option<u64>)
    requires
        lo <= hi <= s@.len(),
    ensures
        r == parse_u64_spec(s@.subrange(lo as int, hi as int)),
{
    let ghost whole = s@.subrange(lo as int, hi as int);
    let mut start = lo;
    if lo < hi && s[lo] == 43u8 {
        start = lo + 1;
        assert(whole.drop_first() =~= s@.subrange(start as int, hi as int));
    } else {
        assert(whole =~= s@.subrange(start as int, hi as int));
    }
    let ghost d = s@.subrange(start as int, hi as int);
    assert(unsigned_part(whole) == d);
    if start == hi {
        return None;
    }
    let mut acc: u64 = 0;
    let mut i = start;
    while i < hi
        invariant
            lo <= start < hi <= s@.len(),
            start <= i <= hi,
            d == s@.subrange(start as int, hi as int),
            whole == s@.subrange(lo as int, hi as int),
            parse_u64_spec(whole) == digits_u64(d),
            forall|k: int| 0 <= k < i - start ==> is_digit(#[trigger] d[k]),
            acc as int == digits_value(d.subrange(0, i - start)),
        decreases hi - i,
    {
        let b = s[i];
        if !(48u8 <= b && b <= 57u8) {
            assert(!is_digit(d[i - start]));
            return None;
        }
        let next: u128 = acc as u128 * 10 + (b - 48u8) as u128;
        assert(d.subrange(0, i + 1 - start).drop_last() =~= d.subrange(0, i - start));
        assert(next as int == digits_value(d.subrange(0, i + 1 - start)));
        if next > u64::MAX as u128 {
            proof {
                if forall|k: int| 0 <= k < d.len() ==> is_digit(#[trigger] d[k]) {
                    lemma_digits_prefix(d, i + 1 - start);
                }
            }
            return None;
        }
        acc = next as u64;
        i += 1;
    }
    assert(d.subrange(0, i - start) =~= d);
    Some(acc)
}

/// The bounds of `s[lo..hi]` without leading and trailing white space.
pub fn trim_bounds(s: &Vec<u8>, lo: usize, hi: usize) -> (r: (usize, usize))
    requires
        lo <= hi <= s@.len(),
    ensures
        lo <= r.0 <= r.1 <= hi,
        s@.subrange(r.0 as int, r.1 as int) == trim(s@.subrange(lo as int, hi as int)),
{
    let mut a = lo;
    while a < hi && (s[a] == 32u8 || (9u8 <= s[a] && s[a] <= 13u8))
        invariant
            lo <= a <= hi <= s@.len(),
            trim_start(s@.subrange(a as int, hi as int)) == trim_start(
                s@.subrange(lo as int, hi as int),
            ),
        decreases hi - a,
    {
        assert(s@.subrange(a as int, hi as int).drop_first() =~= s@.subrange(a + 1, hi as int));
        a += 1;
    }
    let ghost t = s@.subrange(a as int, hi as int);
    assert(trim_start(t) == t);
    let mut b = hi;
    while b > a && (s[b - 1] == 32u8 || (9u8 <= s[b - 1] && s[b - 1] <= 13u8))
        invariant
            lo <= a <= b <= hi <= s@.len(),
            t == s@.subrange(a as int, hi as int),
            trim_end(s@.subrange(a as int, b as int)) == trim_end(t),
        decreases b - a,
    {
        assert(s@.subrange(a as int, b as int).drop_last() =~= s@.subrange(a as int, b - 1));
        b -= 1;
    }
    (a, b)
}

fn is_max_age_name(s: &Vec<u8>, a: usize, b: usize) -> (r: bool)
    requires
        a <= b <= s@.len(),
    ensures
        r == (s@.subrange(a as int, b as int) == max_age_name()),
{
    if b - a != 7 {
        assert(s@.subrange(a as int, b as int).len() != max_age_name().len());
        return false;
    }
    let r = s[a] == 109u8 && s[a + 1] == 97u8 && s[a + 2] == 120u8 && s[a + 3] == 45u8
        && s[a + 4] == 97u8 && s[a + 5] == 103u8 && s[a + 6] == 101u8;
    if r {
        assert(s@.subrange(a as int, b as int) =~= max_age_name());
    } else {
        let ghost t = s@.subrange(a as int, b as int);
        assert(t != max_age_name()) by {
            if t == max_age_name() {
                assert(t[0] == s@[a as int] && t[1] == s@[a + 1] && t[2] == s@[a + 2]);
                assert(t[3] == s@[a + 3] && t[4] == s@[a + 4] && t[5] == s@[a + 5]);
                assert(t[6] == s@[a + 6]);
            }
        }
    }
    r
}

/// The seconds that the directive `s[lo..hi]` gives, if it reads `max-age=N`.
fn directive_ttl_exec(s: &Vec<u8>, lo: usize, hi: usize) -> (r: Option<u64>)
    requires
        lo <= hi <= s@.len(),
    ensures
        r == directive_ttl(s@.subrange(lo as int, hi as int)),
{
    let ghost d = s@.subrange(lo as int, hi as int);
    let mut i = lo;
    while i < hi && s[i] != 61u8
        invariant
            lo <= i <= hi <= s@.len(),
            d == s@.subrange(lo as int, hi as int),
            forall|j: int| 0 <= j < i - lo ==> #[trigger] d[j] != 61u8,
        decreases hi - i,
    {
        i += 1;
    }
    if i == hi {
        assert(!exists|k: int|
            0 <= k < d.len() && d[k] == 61u8 && (forall|j: int| 0 <= j < k ==> #[trigger] d[j] != 61u8));
        return None;
    }
    let ghost k = i - lo;
    assert(d[k] == 61u8);
    let ghost c = choose|c: int|
        0 <= c < d.len() && d[c] == 61u8 && (forall|j: int| 0 <= j < c ==> #[trigger] d[j] != 61u8);
    assert(c == k) by {
        if c < k {
            assert(d[c] != 61u8);
        } else if c > k {
            assert(d[k] != 61u8);
        }
    }
    assert(first_equals(d) == Some(k));
    assert(d.subrange(0, k) =~= s@.subrange(lo as int, i as int));
    assert(d.subrange(k + 1, d.len() as int) =~= s@.subrange(i + 1, hi as int));
    let (a, b) = trim_bounds(s, lo, i);
    if !is_max_age_name(s, a, b) {
        return None;
    }
    let (va, vb) = trim_bounds(s, i + 1, hi);
    parse_u64(s, va, vb)
}

/// The time to live that a `cache-control` value gives: the last of its
/// comma-separated directives that reads `max-age=N`, or `None`.
pub fn max_age(s: &Vec<u8>) -> (r: Option<u64>)
    ensures
        r == max_age_spec(s@),
{
    let mut k: usize = 0;
    while k < s.len()
        invariant
            k <= s@.len(),
            forall|i: int| 0 <= i < k ==> is_header_text_byte(#[trigger] s@[i]),
        decreases s@.len() - k,
    {
        let b = s[k];
        if !(b == 9u8 || (32u8 <= b && b <= 126u8)) {
            assert(!is_header_text_byte(s@[k as int]));
            return None;
        }
        k += 1;
    }
    let mut seg_end = s.len();
    let mut pos = s.len();
    proof {
        lemma_split_nonempty(s@);
        let segs = split_commas(s@);
        assert(s@.subrange(0, s@.len() as int) =~= s@);
        assert(with_tail(segs, s@.subrange(pos as int, seg_end as int)) =~= segs);
    }
    while pos > 0
        invariant
            pos <= seg_end <= s@.len(),
            forall|i: int| 0 <= i < s@.len() ==> is_header_text_byte(#[trigger] s@[i]),
            last_ttl(with_tail(split_commas(s@.subrange(0, pos as int)), s@.subrange(pos as int, seg_end as int)))
                == max_age_spec(s@),
        decreases pos,
    {
        let ghost p = s@.subrange(0, pos as int);
        let ghost q = s@.subrange(0, pos - 1);
        let ghost tail = s@.subrange(pos as int, seg_end as int);
        proof {
            assert(p.drop_last() =~= q);
            lemma_split_nonempty(q);
        }
        if s[pos - 1] == 44u8 {
            proof {
                assert(with_tail(split_commas(p), tail) =~= split_commas(q).push(tail));
                assert(split_commas(q).push(tail).drop_last() =~= split_commas(q));
            }
            let t = directive_ttl_exec(s, pos, seg_end);
            if t.is_some() {
                return t;
            }
            seg_end = pos - 1;
            proof {
                assert(with_tail(split_commas(q), s@.subrange(pos - 1, pos - 1)) =~= split_commas(q));
            }
        } else {
            proof {
                let a = split_commas(q);
                let c = s@[pos - 1];
                assert(a.last().push(c) + tail =~= a.last() + s@.subrange(pos - 1, seg_end as int));
                assert(with_tail(split_commas(p), tail) =~= with_tail(a, s@.subrange(pos - 1, seg_end as int)));
            }
        }
        pos -= 1;
    }
    proof {
        let segs = with_tail(split_commas(s@.subrange(0, 0)), s@.subrange(0, seg_end as int));
        assert(s@.subrange(0, 0) =~= Seq::<u8>::empty());
        assert(split_commas(s@.subrange(0, 0)) == seq![Seq::<u8>::empty()]);
        assert(segs =~= seq![s@.subrange(0, seg_end as int)]);
        assert(segs.last() == s@.subrange(0, seg_end as int));
        assert(last_ttl(segs.drop_last()) is None);
    }
    directive_ttl_exec(s, 0, seg_end)
}

/// What a response with these parts yields: the time to live for caching
/// (`None`: forward but do not cache), or why it is refused.
pub open spec fn response_verdict(
    status: u16,
    content_type: Option<Seq<u8>>,
    cache_control: Option<Seq<u8>>,
) -> Result<Option<u64>, ResponseError> {
    if status != STATUS_OK {
        Err(ResponseError::Status)
    } else {
        match content_type {
            None => Err(ResponseError::MissingContentType),
            Some(ct) => if ct != dns_media_type() {
                Err(ResponseError::ContentType)
            } else {
                match cache_control {
                    None => Ok(None),
                    Some(cc) => Ok(max_age_spec(cc)),
                }
            },
        }
    }
}

fn dns_media_type_bytes() -> (r: Vec<u8>)
    ensures
        r@ == dns_media_type(),
{
    let r: Vec<u8> = vec![
        97u8, 112, 112, 108, 105, 99, 97, 116, 105, 111, 110, 47,
        100, 110, 115, 45, 109, 101, 115, 115, 97, 103, 101,
    ];
    assert(r@ =~= dns_media_type());
    r
}

/// Checks the status and the media type of a response and reads the time to
/// live from its `cache-control` value.
pub fn check_response(
    status: u16,
    content_type: Option<&Vec<u8>>,
    cache_control: Option<&Vec<u8>>,
) -> (r: Result<Option<u64>, ResponseError>)
    ensures
        r == response_verdict(
            status,
            match content_type {
                Some(v) => Some(v@),
                None => None,
            },
            match cache_control {
                Some(v) => Some(v@),
                None => None,
            },
        ),
{
    if status != STATUS_OK {
        return Err(ResponseError::Status);
    }
    match content_type {
        None => Err(ResponseError::MissingContentType),
        Some(ct) => {
            let expected = dns_media_type_bytes();
            if !bytes_eq(ct, &expected) {
                return Err(ResponseError::ContentType);
            }
            match cache_control {
                None => Ok(None),
                Some(cc) => Ok(max_age(cc)),
            }
        },
    }
}

/// The part of a body that is kept: its first 4096 bytes.
pub open spec fn kept(body: Seq<u8>) -> Seq<u8> {
    if body.len() <= MAX_BODY_LEN {
        body
    } else {
        body.subrange(0, MAX_BODY_LEN as int)
    }
}

/// Collects a response body chunk by chunk, keeping at most 4096 bytes while
/// every received byte is handed back as flow-control credit.
pub struct BodyBuffer {
    data: Vec<u8>,
    received: Ghost<Seq<u8>>,
}

impl View for BodyBuffer {
    type V = Seq<u8>;

    closed spec fn view(&self) -> Seq<u8> {
        self.data@
    }
}

impl BodyBuffer {
    /// Everything received so far, kept or not.
    pub closed spec fn received(&self) -> Seq<u8> {
        self.received@
    }

    /// The kept bytes are the first 4096 of what was received.
    pub closed spec fn wf(&self) -> bool {
        self.data@ == kept(self.received@)
    }

    /// An empty buffer.
    pub fn new() -> (r: BodyBuffer)
        ensures
            r.wf(),
            r.received() == Seq::<u8>::empty(),
            r@ == kept(r.received()),
    {
        BodyBuffer { data: Vec::new(), received: Ghost(Seq::empty()) }
    }

    /// Adds a chunk of the body; returns the credit to release, which is the
    /// whole chunk.
    pub fn push(&mut self, chunk: &Vec<u8>) -> (credit: usize)
        requires
            old(self).wf(),
        ensures
            final(self).wf(),
            final(self).received() == old(self).received() + chunk@,
            final(self)@ == kept(final(self).received()),
            credit == chunk@.len(),
    {
        let ghost before = self.received@;
        let ghost all = before + chunk@;
        let mut i: usize = 0;
        while i < chunk.len() && self.data.len() < MAX_BODY_LEN
            invariant
                i <= chunk@.len(),
                all == before + chunk@,
                self.data@ == kept(before + chunk@.subrange(0, i as int)),
                self.data@.len() < MAX_BODY_LEN ==> self.data@ == before + chunk@.subrange(0, i as int),
            decreases chunk@.len() - i,
        {
            let ghost prev = before + chunk@.subrange(0, i as int);
            self.data.push(chunk[i]);
            i += 1;
            assert(before + chunk@.subrange(0, i as int) =~= prev.push(chunk@[i - 1]));
            assert(self.data@ =~= prev.push(chunk@[i - 1]));
        }
        proof {
            if i < chunk@.len() {
                let p = before + chunk@.subrange(0, i as int);
                assert(kept(p).len() == MAX_BODY_LEN);
                assert(p.len() >= MAX_BODY_LEN);
                assert(kept(all) =~= kept(p));
            } else {
                assert(chunk@.subrange(0, i as int) =~= chunk@);
            }
        }
        self.received = Ghost(all);
        chunk.len()
    }

    /// The kept bytes.
    pub fn into_bytes(self) -> (r: Vec<u8>)
        requires
            self.wf(),
        ensures
            r@ == self@,
            r@ == kept(self.received()),
    {
        self.data
    }
}

/// Of a body of length L, the first min(L, 4096) bytes are kept.
pub proof fn lemma_kept_prefix(body: Seq<u8>)
    ensures
        kept(body).len() == if body.len() <= MAX_BODY_LEN {
            body.len()
        } else {
            MAX_BODY_LEN as nat
        },
        kept(body) == body.subrange(0, kept(body).len() as int),
{
    assert(kept(body) =~= body.subrange(0, kept(body).len() as int));
}

} // verus!
