//! DNS framing: size checks, header fields and transaction-ID rewriting.
use vstd::prelude::*;

verus! {

/// Smallest accepted DNS message: the 12-byte header.
pub const MIN_PACKET_LEN: usize = 12;

/// Largest accepted DNS message over UDP.
pub const MAX_PACKET_LEN: usize = 512;

/// Why a byte buffer is not a DNS message.
#[derive(Debug, Clone, Copy, PartialEq, Eq, Structural)]
pub enum DnsParserError {
    TooLittleData,
    TooMuchData,
}

impl DnsParserError {
    /// The name of the error.
    pub fn name(&self) -> (r: &'static str)
        ensures
            *self == DnsParserError::TooLittleData ==> r@ == "TooLittleData"@,
            *self == DnsParserError::TooMuchData ==> r@ == "TooMuchData"@,
    {
        proof {
            reveal_strlit("TooLittleData");
            reveal_strlit("TooMuchData");
        }
        match self {
            DnsParserError::TooLittleData => "TooLittleData",
            DnsParserError::TooMuchData => "TooMuchData",
        }
    }
}

/// A big-endian 16-bit number made of two bytes.
pub open spec fn be16(hi: u8, lo: u8) -> int {
    hi as int * 256 + lo as int
}

/// The size check of `DnsPacket::from`: `None` when the length is acceptable.
pub open spec fn size_error(s: Seq<u8>) -> Option<DnsParserError> {
    if s.len() < MIN_PACKET_LEN {
        Some(DnsParserError::TooLittleData)
    } else if s.len() > MAX_PACKET_LEN {
        Some(DnsParserError::TooMuchData)
    } else {
        None
    }
}

/// A byte sequence that `parse` accepts.
pub open spec fn valid_packet(s: Seq<u8>) -> bool {
    MIN_PACKET_LEN <= s.len() <= MAX_PACKET_LEN
}

/// The transaction ID: the first two bytes.
pub open spec fn tid_of(s: Seq<u8>) -> Seq<u8> {
    s.subrange(0, 2)
}

/// The QR bit: bit 7 of byte 2.
pub open spec fn is_response_bytes(s: Seq<u8>) -> bool {
    s[2] & 0x80u8 == 0x80u8
}

/// QDCOUNT: the big-endian number at offset 4.
pub open spec fn questions_of(s: Seq<u8>) -> int {
    be16(s[4], s[5])
}

/// The bytes with the first two replaced by `t0 t1`.
pub open spec fn with_tid(s: Seq<u8>, t0: u8, t1: u8) -> Seq<u8> {
    if s.len() < 2 {
        s
    } else {
        s.update(0, t0).update(1, t1)
    }
}

/// The bytes with the transaction ID set to zero: the cache key and the
/// payload sent upstream.
pub open spec fn zero_tid(s: Seq<u8>) -> Seq<u8> {
    with_tid(s, 0, 0)
}

/// A datagram that is forwarded: a well-sized query with at least one question.
pub open spec fn accepted_query(s: Seq<u8>) -> bool {
    valid_packet(s) && !is_response_bytes(s) && questions_of(s) > 0
}

/// A parsed DNS message of 12 to 512 bytes.
pub struct DnsPacket {
    data: Vec<u8>,
    tid: [u8; 2],
    response: bool,
    questions: u16,
    answer: u16,
    authority: u16,
    additional_records: u16,
}

impl View for DnsPacket {
    type V = Seq<u8>;

    closed spec fn view(&self) -> Seq<u8> {
        self.data@
    }
}

fn read_be16(b: &Vec<u8>, i: usize) -> (r: u16)
    requires
        i < MAX_PACKET_LEN,
        i + 1 < b@.len(),
    ensures
        r as int == be16(b@[i as int], b@[i + 1]),
{
    let hi = b[i] as u16;
    let lo = b[i + 1] as u16;
    (hi * 256 + lo) as u16
}

impl DnsPacket {
    #[verifier::type_invariant]
    closed spec fn inv(&self) -> bool {
        &&& valid_packet(self.data@)
        &&& self.tid@ == tid_of(self.data@)
        &&& self.response == is_response_bytes(self.data@)
        &&& self.questions as int == questions_of(self.data@)
        &&& self.answer as int == be16(self.data@[6], self.data@[7])
        &&& self.authority as int == be16(self.data@[8], self.data@[9])
        &&& self.additional_records as int == be16(self.data@[10], self.data@[11])
    }

    /// Parses a message: fails when it is shorter than 12 or longer than 512 bytes.
    pub fn from(buffer: Vec<u8>) -> (r: Result<DnsPacket, DnsParserError>)
        ensures
            r is Ok <==> size_error(buffer@) is None,
            r is Ok ==> r->Ok_0@ == buffer@,
            r is Err ==> Some(r->Err_0) == size_error(buffer@),
    {
        DnsPacket::parser(buffer)
    }

    /// Parses a message after its first two bytes are overwritten with `tid`.
    pub fn from_tid(buffer: Vec<u8>, tid: [u8; 2]) -> (r: Result<DnsPacket, DnsParserError>)
        ensures
            r is Ok <==> size_error(buffer@) is None,
            r is Ok ==> r->Ok_0@ == with_tid(buffer@, tid@[0], tid@[1]),
            r is Err ==> Some(r->Err_0) == size_error(buffer@),
    {
        let mut buffer = buffer;
        if buffer.len() < 2 {
            return Err(DnsParserError::TooLittleData);
        }
        buffer.set(0, tid[0]);
        buffer.set(1, tid[1]);
        DnsPacket::parser(buffer)
    }

    fn parser(buffer: Vec<u8>) -> (r: Result<DnsPacket, DnsParserError>)
        ensures
            r is Ok <==> size_error(buffer@) is None,
            r is Ok ==> r->Ok_0@ == buffer@,
            r is Err ==> Some(r->Err_0) == size_error(buffer@),
    {
        let len = buffer.len();
        if len < MIN_PACKET_LEN {
            return Err(DnsParserError::TooLittleData);
        } else if MAX_PACKET_LEN < len {
            return Err(DnsParserError::TooMuchData);
        }
        let response = (buffer[2] & 0x80u8) == 0x80u8;
        let tid: [u8; 2] = [buffer[0], buffer[1]];
        let questions = read_be16(&buffer, 4);
        let answer = read_be16(&buffer, 6);
        let authority = read_be16(&buffer, 8);
        let additional_records = read_be16(&buffer, 10);
        assert(tid@ =~= tid_of(buffer@));
        Ok(DnsPacket { data: buffer, tid, response, questions, answer, authority, additional_records })
    }

    /// The length of the message in bytes.
    pub fn len(&self) -> (r: usize)
        ensures
            r == self@.len(),
            valid_packet(self@),
    {
        proof { use_type_invariant(self); }
        self.data.len()
    }

    /// The message with its transaction ID set to zero.
    pub fn get_without_tid(&self) -> (r: Vec<u8>)
        ensures
            r@ == zero_tid(self@),
            valid_packet(self@),
    {
        proof { use_type_invariant(self); }
        let mut data: Vec<u8> = Vec::with_capacity(self.data.len());
        let mut i: usize = 0;
        while i < self.data.len()
            invariant
                i <= self.data@.len(),
                data@ == self.data@.subrange(0, i as int),
            decreases self.data@.len() - i,
        {
            data.push(self.data[i]);
            i += 1;
            assert(data@ =~= self.data@.subrange(0, i as int));
        }
        assert(data@ =~= self.data@);
        data.set(0, 0u8);
        data.set(1, 0u8);
        data
    }

    /// The bytes of the message.
    pub fn get(&self) -> (r: Vec<u8>)
        ensures
            r@ == self@,
            valid_packet(self@),
    {
        proof { use_type_invariant(self); }
        let r = self.data.clone();
        assert(r@ =~= self.data@);
        r
    }

    /// The transaction ID.
    pub fn get_tid(&self) -> (r: [u8; 2])
        ensures
            r@ == tid_of(self@),
            valid_packet(self@),
    {
        proof { use_type_invariant(self); }
        self.tid
    }

    /// Whether the QR bit is set.
    pub fn is_response(&self) -> (r: bool)
        ensures
            r == is_response_bytes(self@),
            valid_packet(self@),
    {
        proof { use_type_invariant(self); }
        self.response
    }

    /// QDCOUNT.
    pub fn get_questions(&self) -> (r: u16)
        ensures
            r as int == questions_of(self@),
            valid_packet(self@),
    {
        proof { use_type_invariant(self); }
        self.questions
    }

    /// ANCOUNT.
    pub fn get_answer(&self) -> (r: u16)
        ensures
            valid_packet(self@),
            r as int == be16(self@[6], self@[7]),
    {
        proof { use_type_invariant(self); }
        self.answer
    }

    /// NSCOUNT.
    pub fn get_authority(&self) -> (r: u16)
        ensures
            valid_packet(self@),
            r as int == be16(self@[8], self@[9]),
    {
        proof { use_type_invariant(self); }
        self.authority
    }

    /// ARCOUNT.
    pub fn get_additional_records(&self) -> (r: u16)
        ensures
            valid_packet(self@),
            r as int == be16(self@[10], self@[11]),
    {
        proof { use_type_invariant(self); }
        self.additional_records
    }
}

/// Turns UDP datagrams into DNS queries and DNS messages into datagrams.
#[derive(Debug)]
pub struct DnsCodec;

impl DnsCodec {
    /// Accepts a datagram if it parses, is a query and asks at least one
    /// question; any other datagram is dropped and the buffer cleared.
    pub fn decode(&mut self, buf: &mut Vec<u8>) -> (r: Option<DnsPacket>)
        ensures
            r is Some <==> accepted_query(old(buf)@),
            r is Some ==> r->0@ == old(buf)@ && final(buf)@ == old(buf)@,
            r is None ==> final(buf)@.len() == 0,
    {
        let data = buf.clone();
        assert(data@ =~= buf@);
        if let Ok(dns) = DnsPacket::from(data) {
            if !dns.is_response() && dns.get_questions() > 0 {
                return Some(dns);
            }
        }
        buf.clear();
        None
    }

    /// Writes exactly the bytes of the message into `buf`.
    pub fn encode(&mut self, data: DnsPacket, buf: &mut Vec<u8>)
        ensures
            final(buf)@ == data@,
    {
        buf.clear();
        let b = data.get();
        let mut i: usize = 0;
        while i < b.len()
            invariant
                i <= b@.len(),
                buf@ == b@.subrange(0, i as int),
            decreases b@.len() - i,
        {
            buf.push(b[i]);
            i += 1;
            assert(buf@ =~= b@.subrange(0, i as int));
        }
        assert(buf@ =~= b@);
    }
}

/// Two queries that differ only in their transaction ID have the same cache
/// key.
pub proof fn lemma_cache_key_ignores_tid(q1: Seq<u8>, q2: Seq<u8>)
    requires
        q1.len() == q2.len(),
        q1.len() >= 2,
        forall|i: int| 2 <= i < q1.len() ==> q1[i] == q2[i],
    ensures
        zero_tid(q1) == zero_tid(q2),
{
    assert(zero_tid(q1) =~= zero_tid(q2));
}

/// Stamping a valid message with a transaction ID and parsing it again gives
/// back that transaction ID.
pub proof fn lemma_parse_with_tid_reads_tid(m: Seq<u8>, t0: u8, t1: u8)
    requires
        valid_packet(m),
    ensures
        size_error(with_tid(m, t0, t1)) is None,
        tid_of(with_tid(m, t0, t1)) == seq![t0, t1],
{
    assert(tid_of(with_tid(m, t0, t1)) =~= seq![t0, t1]);
}

/// Re-stamping a message with another transaction ID does not change its
/// zero-ID form.
pub proof fn lemma_zero_tid_after_with_tid(b: Seq<u8>, t0: u8, t1: u8)
    requires
        size_error(b) is None,
    ensures
        size_error(with_tid(b, t0, t1)) is None,
        zero_tid(with_tid(b, t0, t1)) == zero_tid(b),
{
    assert(zero_tid(with_tid(b, t0, t1)) =~= zero_tid(b));
}

} // verus!
