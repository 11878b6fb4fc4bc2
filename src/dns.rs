use vstd::prelude::*;
use vstd::string::StrSliceExecFns;
use crate::http::{lower_of, lowercase};
use crate::signature::join_names;

verus! {

/// The time to live given to every answer record, in seconds.
pub const ANSWER_TTL: u32 = 60;

/// `needle` occurs in `hay` as a contiguous run.
pub open spec fn contains_sub(hay: Seq<char>, needle: Seq<char>) -> bool {
    exists|i: int| 0 <= i && i + needle.len() <= hay.len() && #[trigger] hay.subrange(i, i + needle.len()) == needle
}

/// A queried name as the policy sees it: lower-cased, without a trailing root dot.
pub open spec fn normalized(name: Seq<char>) -> Seq<char> {
    let l = lower_of(name);
    if l.len() > 0 && l.last() == '.' {
        l.drop_last()
    } else {
        l
    }
}

/// The policy on a normalised name: `localhost`, or a name that holds one of the entries.
pub open spec fn allowed(name: Seq<char>, entries: Seq<Seq<char>>) -> bool {
    name == "localhost"@ || exists|k: int| 0 <= k < entries.len() && contains_sub(name, #[trigger] entries[k])
}

/// A set of lower-case domain substrings for which resolution is permitted.
#[derive(Debug)]
pub struct AllowList {
    pub entries: Vec<String>,
}

impl AllowList {
    /// The views of the entries.
    pub open spec fn view_entries(&self) -> Seq<Seq<char>> {
        self.entries@.map_values(|s: String| s@)
    }

    /// Every entry is non-empty.
    pub open spec fn wf(&self) -> bool {
        forall|k: int| 0 <= k < self.entries@.len() ==> #[trigger] self.entries@[k]@.len() > 0
    }
}

/// The pieces of `s` between commas: joined again with commas they give `s`, and
/// none holds a comma.
pub open spec fn is_comma_split(s: Seq<char>, pieces: Seq<Seq<char>>) -> bool {
    pieces.len() > 0 && join_names(pieces) == s && forall|k: int|
        0 <= k < pieces.len() ==> !(#[trigger] pieces[k]).contains(',')
}

proof fn lemma_join_extend_last(p: Seq<Seq<char>>, y: Seq<char>, c: char)
    ensures
        join_names(p.push(y.push(c))) == join_names(p.push(y)).push(c),
{
    assert(p.push(y.push(c)).drop_last() =~= p);
    assert(p.push(y).drop_last() =~= p);
    if p.len() == 0 {
        assert(join_names(p.push(y.push(c))) == y.push(c));
        assert(join_names(p.push(y)) == y);
    } else {
        assert(join_names(p.push(y.push(c))) =~= join_names(p) + seq![','] + y.push(c));
        assert(join_names(p.push(y)).push(c) =~= join_names(p) + seq![','] + y.push(c));
    }
}

/// Splits `s` at each comma, keeping empty pieces.
pub fn split_commas(s: &str) -> (r: Vec<String>)
    ensures
        is_comma_split(s@, r@.map_values(|p: String| p@)),
{
    let n = s.unicode_len();
    let mut pieces: Vec<String> = Vec::new();
    let mut start: usize = 0;
    let mut i: usize = 0;
    assert(s@.subrange(0, 0) =~= Seq::<char>::empty());
    assert(pieces@.map_values(|p: String| p@).push(s@.subrange(0, 0)) =~= seq![Seq::<char>::empty()]);
    assert(join_names(seq![Seq::<char>::empty()]) == Seq::<char>::empty());
    while i < n
        invariant
            n == s@.len(),
            start <= i <= n,
            join_names(pieces@.map_values(|p: String| p@).push(s@.subrange(start as int, i as int))) == s@.subrange(
                0,
                i as int,
            ),
            forall|k: int| 0 <= k < pieces@.len() ==> !(#[trigger] pieces@[k])@.contains(','),
            !s@.subrange(start as int, i as int).contains(','),
        decreases n - i,
    {
        let c = s.get_char(i);
        let ghost pv = pieces@.map_values(|p: String| p@);
        let ghost cur = s@.subrange(start as int, i as int);
        if c == ',' {
            let piece = s.substring_char(start, i).to_owned();
            pieces.push(piece);
            proof {
                let pv2 = pieces@.map_values(|p: String| p@);
                assert(pv2 =~= pv.push(cur));
                assert(pv2.push(s@.subrange(i + 1, i + 1)).drop_last() =~= pv2);
                assert(join_names(pv2.push(s@.subrange(i + 1, i + 1))) =~= join_names(pv2) + seq![','] + Seq::<char>::empty());
                assert(s@.subrange(0, i + 1) =~= s@.subrange(0, i as int).push(','));
                assert(join_names(pv2.push(s@.subrange(i + 1, i + 1))) =~= s@.subrange(0, i + 1));
                assert forall|k: int| 0 <= k < pieces@.len() implies !(#[trigger] pieces@[k])@.contains(',') by {
                    if k == pieces@.len() - 1 {
                        assert(pieces@[k]@ == cur);
                    }
                }
                assert(!s@.subrange(i + 1, i + 1).contains(',')) by {
                    assert(s@.subrange(i + 1, i + 1).len() == 0);
                }
            }
            start = i + 1;
        } else {
            proof {
                lemma_join_extend_last(pv, cur, c);
                assert(s@.subrange(start as int, i + 1) =~= cur.push(c));
                assert(s@.subrange(0, i + 1) =~= s@.subrange(0, i as int).push(c));
                assert(!s@.subrange(start as int, i + 1).contains(',')) by {
                    let nxt = s@.subrange(start as int, i + 1);
                    assert forall|m: int| 0 <= m < nxt.len() implies #[trigger] nxt[m] != ',' by {
                        if m < cur.len() {
                            assert(nxt[m] == cur[m]);
                        }
                    }
                }
            }
        }
        i += 1;
    }
    let last = s.substring_char(start, n).to_owned();
    let ghost pv = pieces@.map_values(|p: String| p@);
    pieces.push(last);
    proof {
        let pv2 = pieces@.map_values(|p: String| p@);
        assert(pv2 =~= pv.push(s@.subrange(start as int, n as int)));
        assert(s@.subrange(0, n as int) =~= s@);
        assert forall|k: int| 0 <= k < pv2.len() implies !(#[trigger] pv2[k]).contains(',') by {
            if k < pv.len() {
                assert(pv2[k] == pieces@[k]@);
            }
        }
    }
    pieces
}

/// The allow-list of a configuration string: its comma-separated pieces,
/// lower-cased, empty ones left out.
pub open spec fn allow_entries_of(pieces: Seq<Seq<char>>) -> Seq<Seq<char>>
    decreases pieces.len(),
{
    if pieces.len() == 0 {
        Seq::empty()
    } else {
        let rest = allow_entries_of(pieces.drop_last());
        let l = lower_of(pieces.last());
        if l.len() == 0 {
            rest
        } else {
            rest.push(l)
        }
    }
}

/// The answer to a query under the allow-list.
#[derive(Debug, Clone, Copy, PartialEq, Eq, Structural)]
pub enum DnsDecision {
    Allow,
    Block,
}

/// An address that an upstream resolution returned.
#[derive(Debug, Clone, Copy, PartialEq, Eq)]
pub enum Address {
    V4([u8; 4]),
    V6([u8; 16]),
}

/// An answer record: `A` for an IPv4 address, `AAAA` for an IPv6 one.
#[derive(Debug, Clone, Copy, PartialEq, Eq)]
pub struct AnswerRecord {
    pub address: Address,
    pub ttl: u32,
}

/// The response code of a reply.
#[derive(Debug, Clone, Copy, PartialEq, Eq, Structural)]
pub enum ResponseCode {
    NoError,
    ServFail,
    NxDomain,
}

/// What an allowed query is answered with when the upstream resolution fails.
#[derive(Debug, Clone, Copy, PartialEq, Eq, Structural)]
pub enum FailurePolicy {
    /// A reply with no error and no records.
    EmptyAnswer,
    /// A reply with a server failure code.
    ServerFailure,
}

/// A reply to send for a query: the request's message flipped to a response, with
/// this code and these answers.
#[derive(Debug)]
pub struct DnsReply {
    pub code: ResponseCode,
    pub answers: Vec<AnswerRecord>,
}

/// The record of one address, with the fixed time to live.
pub open spec fn record_of(a: Address) -> AnswerRecord {
    AnswerRecord { address: a, ttl: ANSWER_TTL }
}

/// The reply for a decision, given what the upstream resolution returned.
pub open spec fn reply_of(
    d: DnsDecision,
    upstream: Option<Seq<Address>>,
    policy: FailurePolicy,
) -> (ResponseCode, Seq<AnswerRecord>) {
    match d {
        DnsDecision::Block => (ResponseCode::NxDomain, Seq::empty()),
        DnsDecision::Allow => match upstream {
            Some(addrs) => (ResponseCode::NoError, addrs.map_values(|a: Address| record_of(a))),
            None => match policy {
                FailurePolicy::EmptyAnswer => (ResponseCode::NoError, Seq::empty()),
                FailurePolicy::ServerFailure => (ResponseCode::ServFail, Seq::empty()),
            },
        },
    }
}

fn contains_str(hay: &str, needle: &str) -> (r: bool)
    ensures
        r == contains_sub(hay@, needle@),
{
    let hn = hay.unicode_len();
    let nn = needle.unicode_len();
    if nn > hn {
        proof {
            assert forall|i: int| !(0 <= i && i + needle@.len() <= hay@.len() && #[trigger] hay@.subrange(i, i + needle@.len()) == needle@) by {}
        }
        return false;
    }
    let mut i: usize = 0;
    while i <= hn - nn
        invariant
            hn == hay@.len(),
            nn == needle@.len(),
            nn <= hn,
            forall|j: int| 0 <= j < i ==> #[trigger] hay@.subrange(j, j + nn) != needle@,
        decreases hn - nn + 1 - i,
    {
        let mut k: usize = 0;
        let mut same = true;
        while k < nn
            invariant
                hn == hay@.len(),
                nn == needle@.len(),
                i + nn <= hn,
                k <= nn,
                same == forall|m: int| 0 <= m < k ==> hay@[i + m] == needle@[m],
            decreases nn - k,
        {
            if hay.get_char(i + k) != needle.get_char(k) {
                same = false;
            }
            k += 1;
        }
        if same {
            assert(hay@.subrange(i as int, i + nn) =~= needle@);
            return true;
        }
        proof {
            let m = choose|m: int| 0 <= m < nn && hay@[i + m] != needle@[m];
            assert(hay@.subrange(i as int, i + nn)[m] != needle@[m]);
        }
        i += 1;
    }
    proof {
        assert forall|j: int| !(0 <= j && j + nn <= hay@.len() && #[trigger] hay@.subrange(j, j + nn) == needle@) by {}
    }
    false
}

impl AllowList {
    /// Builds the allow-list from a configuration string of comma-separated
    /// domain substrings.
    pub fn from_config(config: &str) -> (r: AllowList)
        ensures
            r.wf(),
            exists|pieces: Seq<Seq<char>>| is_comma_split(config@, pieces) && r.view_entries() == allow_entries_of(pieces),
    {
        let pieces = split_commas(config);
        let ghost pv = pieces@.map_values(|p: String| p@);
        let mut entries: Vec<String> = Vec::new();
        let mut i: usize = 0;
        while i < pieces.len()
            invariant
                i <= pieces@.len(),
                pv == pieces@.map_values(|p: String| p@),
                entries@.map_values(|s: String| s@) == allow_entries_of(pv.take(i as int)),
                forall|k: int| 0 <= k < entries@.len() ==> #[trigger] entries@[k]@.len() > 0,
            decreases pieces@.len() - i,
        {
            let l = lowercase(pieces[i].as_str());
            assert(pv.take(i + 1).drop_last() =~= pv.take(i as int));
            if l.unicode_len() > 0 {
                entries.push(l);
                assert(entries@.map_values(|s: String| s@) =~= allow_entries_of(pv.take(i as int)).push(l@));
            }
            i += 1;
        }
        assert(pv.take(pieces@.len() as int) =~= pv);
        AllowList { entries }
    }

    /// Decides a query for `name`: lower-cased and without a trailing root dot,
    /// it is allowed where it is `localhost` or holds one of the entries.
    pub fn decide(&self, name: &str) -> (r: DnsDecision)
        ensures
            r == (if allowed(normalized(name@), self.view_entries()) {
                DnsDecision::Allow
            } else {
                DnsDecision::Block
            }),
    {
        let l = lowercase(name);
        let n = l.unicode_len();
        let trimmed: &str = if n > 0 && l.get_char(n - 1) == '.' {
            l.as_str().substring_char(0, n - 1)
        } else {
            l.as_str()
        };
        assert(trimmed@ == normalized(name@)) by {
            if n > 0 && lower_of(name@).last() == '.' {
                assert(lower_of(name@).drop_last() =~= lower_of(name@).subrange(0, n - 1));
            }
        }
        let local = "localhost".to_owned();
        if trimmed.to_owned() == local {
            return DnsDecision::Allow;
        }
        let mut k: usize = 0;
        while k < self.entries.len()
            invariant
                k <= self.entries@.len(),
                trimmed@ == normalized(name@),
                trimmed@ != "localhost"@,
                forall|j: int| 0 <= j < k ==> !contains_sub(trimmed@, #[trigger] self.view_entries()[j]),
            decreases self.entries@.len() - k,
        {
            if contains_str(trimmed, self.entries[k].as_str()) {
                assert(self.view_entries()[k as int] == self.entries@[k as int]@);
                return DnsDecision::Allow;
            }
            k += 1;
        }
        DnsDecision::Block
    }
}

/// Builds the reply to a query: for a blocked name NXDOMAIN with no records; for
/// an allowed one a record per address that upstream returned, in order, or, where
/// the resolution failed, what `policy` says.
pub fn build_reply(d: DnsDecision, upstream: Option<Vec<Address>>, policy: FailurePolicy) -> (r: DnsReply)
    ensures
        (r.code, r.answers@) == reply_of(d, match upstream {
            Some(v) => Some(v@),
            None => None,
        }, policy),
{
    match d {
        DnsDecision::Block => DnsReply { code: ResponseCode::NxDomain, answers: Vec::new() },
        DnsDecision::Allow => match upstream {
            Some(addrs) => {
                let mut answers: Vec<AnswerRecord> = Vec::new();
                let mut i: usize = 0;
                while i < addrs.len()
                    invariant
                        i <= addrs@.len(),
                        answers@ == addrs@.take(i as int).map_values(|a: Address| record_of(a)),
                    decreases addrs@.len() - i,
                {
                    answers.push(AnswerRecord { address: addrs[i], ttl: ANSWER_TTL });
                    assert(answers@ =~= addrs@.take(i + 1).map_values(|a: Address| record_of(a)));
                    i += 1;
                }
                assert(addrs@.take(addrs@.len() as int) =~= addrs@);
                DnsReply { code: ResponseCode::NoError, answers }
            },
            None => match policy {
                FailurePolicy::EmptyAnswer => DnsReply { code: ResponseCode::NoError, answers: Vec::new() },
                FailurePolicy::ServerFailure => DnsReply { code: ResponseCode::ServFail, answers: Vec::new() },
            },
        },
    }
}

/// The proxy's policy end to end: a name holding an entry is allowed and, when
/// upstream returns addresses, answered without error and with a record for
/// each; `localhost` is always allowed; any other name gets NXDOMAIN and no records.
pub proof fn lemma_dns_policy(
    name: Seq<char>,
    entries: Seq<Seq<char>>,
    upstream: Option<Seq<Address>>,
    policy: FailurePolicy,
)
    ensures
        (exists|k: int| 0 <= k < entries.len() && contains_sub(name, #[trigger] entries[k]))
            ==> allowed(name, entries),
        allowed("localhost"@, entries),
        upstream matches Some(a) && a.len() > 0 ==> reply_of(DnsDecision::Allow, upstream, policy).0
            == ResponseCode::NoError && reply_of(DnsDecision::Allow, upstream, policy).1.len() > 0,
        reply_of(DnsDecision::Block, upstream, policy) == (ResponseCode::NxDomain, Seq::<AnswerRecord>::empty()),
{
}

} // verus!
