use vstd::prelude::*;
use crate::dns::{
    allowed, build_reply, normalized, reply_of, Address, AllowList, AnswerRecord, DnsDecision, DnsReply,
    FailurePolicy, ResponseCode,
};
use crate::http::{lossy_of, utf8_lossy};

verus! {

/// The big-endian 16-bit number at `i`.
pub open spec fn be16(m: Seq<u8>, i: int) -> int {
    m[i] as int * 256 + m[i + 1] as int
}

/// Reads the labels of a name starting at `pos`, appending them to `acc` with dots
/// between; gives the dotted name and the offset after its terminating zero.
/// Compressed names and labels over 63 bytes are refused.
pub open spec fn name_from(m: Seq<u8>, pos: int, acc: Seq<u8>) -> Option<(Seq<u8>, int)>
    decreases m.len() - pos,
{
    if pos < 0 || pos >= m.len() {
        None
    } else if m[pos] == 0 {
        Some((acc, pos + 1))
    } else if m[pos] > 63 || pos + 1 + m[pos] > m.len() {
        None
    } else {
        let next = pos + 1 + m[pos];
        let label = m.subrange(pos + 1, next);
        name_from(m, next, if acc.len() == 0 { label } else { acc + seq![0x2eu8] + label })
    }
}

proof fn lemma_name_end_after_start(m: Seq<u8>, pos: int, acc: Seq<u8>)
    ensures
        name_from(m, pos, acc) matches Some((_, p)) ==> p > pos,
    decreases m.len() - pos,
{
    if 0 <= pos < m.len() && m[pos] != 0 && !(m[pos] > 63 || pos + 1 + m[pos] > m.len()) {
        let next = pos + 1 + m[pos];
        let label = m.subrange(pos + 1, next);
        lemma_name_end_after_start(m, next, if acc.len() == 0 { label } else { acc + seq![0x2eu8] + label });
    }
}

/// The first question of a DNS message.
#[derive(Debug)]
pub struct DnsQuery {
    pub id: u16,
    /// The queried name, its labels joined by dots.
    pub name: Vec<u8>,
    pub qtype: u16,
    /// The offset just after the first question.
    pub question_end: usize,
}

/// The message holds a header with at least one question, and a first question
/// that reads whole.
pub open spec fn has_query(m: Seq<u8>) -> bool {
    m.len() >= 12 && be16(m, 4) >= 1 && match name_from(m, 12, Seq::empty()) {
        Some((_, p)) => p + 4 <= m.len(),
        None => false,
    }
}

/// `q` is the first question of the message.
pub open spec fn is_query_of(m: Seq<u8>, q: DnsQuery) -> bool {
    has_query(m) && q.id as int == be16(m, 0) && match name_from(m, 12, Seq::empty()) {
        Some((n, p)) => q.name@ == n && q.qtype as int == be16(m, p) && q.question_end == p + 4,
        None => false,
    }
}

/// Reads the id and the first question of a DNS message; `None` where the
/// message is too short, holds no question, or its first name cannot be read.
pub fn parse_query(msg: &[u8]) -> (r: Option<DnsQuery>)
    ensures
        match r {
            Some(q) => is_query_of(msg@, q),
            None => !has_query(msg@),
        },
{
    let len = msg.len();
    if len < 12 {
        return None;
    }
    if msg[4] == 0 && msg[5] == 0 {
        return None;
    }
    let id: u16 = msg[0] as u16 * 256 + msg[1] as u16;
    let mut pos: usize = 12;
    let mut name: Vec<u8> = Vec::new();
    while pos < len
        invariant
            len == msg@.len(),
            len >= 12,
            be16(msg@, 4) >= 1,
            id as int == be16(msg@, 0),
            12 <= pos,
            name_from(msg@, 12, Seq::empty()) == name_from(msg@, pos as int, name@),
        decreases len - pos,
    {
        let l = msg[pos] as usize;
        if l == 0 {
            if len - (pos + 1) < 4 {
                return None;
            }
            let qtype: u16 = msg[pos + 1] as u16 * 256 + msg[pos + 2] as u16;
            return Some(DnsQuery { id, name, qtype, question_end: pos + 5 });
        }
        if l > 63 || l > len - pos - 1 {
            return None;
        }
        let ghost before = name@;
        if name.len() > 0 {
            name.push(0x2eu8);
        }
        let ghost with_dot = name@;
        let mut k: usize = 0;
        while k < l
            invariant
                len == msg@.len(),
                pos + 1 + l <= len,
                k <= l,
                name@ == with_dot + msg@.subrange(pos + 1, pos + 1 + k),
            decreases l - k,
        {
            name.push(msg[pos + 1 + k]);
            assert(msg@.subrange(pos + 1, pos + 1 + k + 1) =~= msg@.subrange(pos + 1, pos + 1 + k).push(
                msg@[pos + 1 + k],
            ));
            k += 1;
        }
        assert(name@ =~= (if before.len() == 0 {
            msg@.subrange(pos + 1, pos + 1 + l)
        } else {
            before + seq![0x2eu8] + msg@.subrange(pos + 1, pos + 1 + l)
        }));
        pos = pos + 1 + l;
    }
    None
}

/// The wire value of a response code.
pub open spec fn rcode_value(c: ResponseCode) -> u8 {
    match c {
        ResponseCode::NoError => 0,
        ResponseCode::ServFail => 2,
        ResponseCode::NxDomain => 3,
    }
}

/// A 32-bit number in four big-endian bytes.
pub open spec fn be32_bytes(v: u32) -> Seq<u8> {
    seq![(v / 0x100_0000) as u8, (v / 0x1_0000 % 256) as u8, (v / 256 % 256) as u8, (v % 256) as u8]
}

/// One answer record: the name as a pointer to the question, type `A` or
/// `AAAA`, class `IN`, the time to live and the address.
pub open spec fn record_bytes(r: AnswerRecord) -> Seq<u8> {
    match r.address {
        Address::V4(a) => seq![0xc0u8, 0x0c, 0, 1, 0, 1] + be32_bytes(r.ttl) + seq![0u8, 4] + a@,
        Address::V6(a) => seq![0xc0u8, 0x0c, 0, 28, 0, 1] + be32_bytes(r.ttl) + seq![0u8, 16] + a@,
    }
}

/// The answer records in order.
pub open spec fn records_bytes(s: Seq<AnswerRecord>) -> Seq<u8>
    decreases s.len(),
{
    if s.len() == 0 {
        Seq::empty()
    } else {
        records_bytes(s.drop_last()) + record_bytes(s.last())
    }
}

/// The reply's header: the request's id and flags turned into a response with
/// code `c`, one question, `n` answers, no other records.
pub open spec fn reply_header(m: Seq<u8>, c: ResponseCode, n: int) -> Seq<u8> {
    seq![m[0], m[1], m[2] | 0x80u8, (m[3] & 0xf0u8) | rcode_value(c), 0, 1, (n / 256) as u8, (n % 256) as u8, 0, 0, 0, 0]
}

/// The reply to a request: its header flipped to a response, its first
/// question, and the answers.
pub open spec fn reply_message(m: Seq<u8>, question_end: int, c: ResponseCode, answers: Seq<AnswerRecord>) -> Seq<u8> {
    reply_header(m, c, answers.len() as int) + m.subrange(12, question_end) + records_bytes(answers)
}

fn push_all(out: &mut Vec<u8>, b: &[u8])
    ensures
        final(out)@ == old(out)@ + b@,
{
    let mut i: usize = 0;
    while i < b.len()
        invariant
            i <= b@.len(),
            out@ == old(out)@ + b@.subrange(0, i as int),
        decreases b@.len() - i,
    {
        out.push(b[i]);
        assert(b@.subrange(0, i + 1) =~= b@.subrange(0, i as int).push(b@[i as int]));
        i += 1;
    }
    assert(b@.subrange(0, b@.len() as int) =~= b@);
}

fn push_record(out: &mut Vec<u8>, r: &AnswerRecord)
    ensures
        final(out)@ == old(out)@ + record_bytes(*r),
{
    let t = r.ttl;
    let ttl: [u8; 4] = [(t / 0x100_0000) as u8, (t / 0x1_0000 % 256) as u8, (t / 256 % 256) as u8, (t % 256) as u8];
    assert(ttl@ =~= be32_bytes(t));
    match &r.address {
        Address::V4(a) => {
            let head: [u8; 6] = [0xc0u8, 0x0c, 0, 1, 0, 1];
            let size: [u8; 2] = [0u8, 4];
            push_all(out, head.as_slice());
            push_all(out, ttl.as_slice());
            push_all(out, size.as_slice());
            push_all(out, a.as_slice());
            assert(head@ =~= seq![0xc0u8, 0x0c, 0, 1, 0, 1]);
            assert(size@ =~= seq![0u8, 4]);
            assert(final(out)@ =~= old(out)@ + record_bytes(*r));
        },
        Address::V6(a) => {
            let head: [u8; 6] = [0xc0u8, 0x0c, 0, 28, 0, 1];
            let size: [u8; 2] = [0u8, 16];
            push_all(out, head.as_slice());
            push_all(out, ttl.as_slice());
            push_all(out, size.as_slice());
            push_all(out, a.as_slice());
            assert(head@ =~= seq![0xc0u8, 0x0c, 0, 28, 0, 1]);
            assert(size@ =~= seq![0u8, 16]);
            assert(final(out)@ =~= old(out)@ + record_bytes(*r));
        },
    }
}

/// Encodes the reply to a request whose first question is `query`: the request's
/// header turned into a response with the reply's code and answer count, the
/// question, and one record per answer.
pub fn encode_reply(request: &[u8], query: &DnsQuery, reply: &DnsReply) -> (r: Vec<u8>)
    requires
        is_query_of(request@, *query),
        reply.answers@.len() <= 0xffff,
    ensures
        r@ == reply_message(request@, query.question_end as int, reply.code, reply.answers@),
{
    let n = reply.answers.len();
    let code: u8 = match reply.code {
        ResponseCode::NoError => 0,
        ResponseCode::ServFail => 2,
        ResponseCode::NxDomain => 3,
    };
    let mut out: Vec<u8> = Vec::new();
    out.push(request[0]);
    out.push(request[1]);
    out.push(request[2] | 0x80u8);
    out.push((request[3] & 0xf0u8) | code);
    out.push(0);
    out.push(1);
    out.push((n / 256) as u8);
    out.push((n % 256) as u8);
    out.push(0);
    out.push(0);
    out.push(0);
    out.push(0);
    assert(out@ =~= reply_header(request@, reply.code, n as int));
    proof {
        lemma_name_end_after_start(request@, 12, Seq::empty());
    }
    let mut i: usize = 12;
    while i < query.question_end
        invariant
            is_query_of(request@, *query),
            12 <= i <= query.question_end,
            query.question_end <= request@.len(),
            out@ == reply_header(request@, reply.code, n as int) + request@.subrange(12, i as int),
        decreases query.question_end - i,
    {
        out.push(request[i]);
        assert(request@.subrange(12, i + 1) =~= request@.subrange(12, i as int).push(request@[i as int]));
        i += 1;
    }
    let ghost head = out@;
    let mut j: usize = 0;
    while j < n
        invariant
            n == reply.answers@.len(),
            j <= n,
            out@ == head + records_bytes(reply.answers@.take(j as int)),
        decreases n - j,
    {
        push_record(&mut out, &reply.answers[j]);
        assert(reply.answers@.take(j + 1).drop_last() =~= reply.answers@.take(j as int));
        assert(out@ =~= head + records_bytes(reply.answers@.take(j + 1)));
        j += 1;
    }
    assert(reply.answers@.take(n as int) =~= reply.answers@);
    out
}

/// A received query with the policy's decision on it.
#[derive(Debug)]
pub struct QueryPlan {
    pub query: DnsQuery,
    /// The queried name as text, as received (not lower-cased or trimmed).
    pub name: String,
    pub decision: DnsDecision,
}

/// Reads a received datagram and decides its first question under the
/// allow-list; `None` where the datagram holds no readable question.
pub fn plan_query(msg: &[u8], allow: &AllowList) -> (r: Option<QueryPlan>)
    ensures
        match r {
            None => !has_query(msg@),
            Some(p) => is_query_of(msg@, p.query) && p.name@ == lossy_of(p.query.name@) && p.decision == (if allowed(
                normalized(p.name@),
                allow.view_entries(),
            ) {
                DnsDecision::Allow
            } else {
                DnsDecision::Block
            }),
        },
{
    match parse_query(msg) {
        None => None,
        Some(query) => {
            let name = utf8_lossy(query.name.as_slice());
            let decision = allow.decide(name.as_str());
            Some(QueryPlan { query, name, decision })
        },
    }
}

/// The reply datagram for a planned query: blocked names get NXDOMAIN; allowed
/// ones a record for each address that the upstream resolution returned, or, where
/// it failed, what `policy` says.
pub fn answer_query(msg: &[u8], plan: &QueryPlan, upstream: Option<Vec<Address>>, policy: FailurePolicy) -> (r: Vec<u8>)
    requires
        is_query_of(msg@, plan.query),
        upstream matches Some(v) ==> v@.len() <= 0xffff,
    ensures
        ({
            let (code, answers) = reply_of(plan.decision, match upstream {
                Some(v) => Some(v@),
                None => None,
            }, policy);
            r@ == reply_message(msg@, plan.query.question_end as int, code, answers)
        }),
{
    let reply = build_reply(plan.decision, upstream, policy);
    encode_reply(msg, &plan.query, &reply)
}

} // verus!
