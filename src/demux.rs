use vstd::prelude::*;

verus! {

/// `needle` occurs in `hay` starting at index `i`.
#[verifier::opaque]
pub open spec fn occurs_at(hay: Seq<u8>, needle: Seq<u8>, i: int) -> bool {
    0 <= i && i + needle.len() <= hay.len() && hay.subrange(i, i + needle.len()) == needle
}

/// `r` is the index of the leftmost occurrence of `needle` in `hay`, or `None` when it never occurs.
pub open spec fn is_leftmost(hay: Seq<u8>, needle: Seq<u8>, r: Option<usize>) -> bool {
    match r {
        Some(i) => occurs_at(hay, needle, i as int) && forall|j: int|
            0 <= j < i ==> !occurs_at(hay, needle, j),
        None => forall|j: int| !occurs_at(hay, needle, j),
    }
}

pub open spec fn get_prefix() -> Seq<u8> {
    seq![0x47u8, 0x45, 0x54, 0x20]
}

pub open spec fn post_prefix() -> Seq<u8> {
    seq![0x50u8, 0x4f, 0x53, 0x54, 0x20]
}

pub open spec fn put_prefix() -> Seq<u8> {
    seq![0x50u8, 0x55, 0x54, 0x20]
}

pub open spec fn delete_prefix() -> Seq<u8> {
    seq![0x44u8, 0x45, 0x4c, 0x45, 0x54, 0x45, 0x20]
}

pub open spec fn patch_prefix() -> Seq<u8> {
    seq![0x50u8, 0x41, 0x54, 0x43, 0x48, 0x20]
}

/// The preamble of an HTTP response: `HTTP/`.
pub open spec fn response_prefix() -> Seq<u8> {
    seq![0x48u8, 0x54, 0x54, 0x50, 0x2f]
}

/// A request line (`GET `, `POST `, `PUT `, `DELETE `, `PATCH `) begins at `i`.
pub open spec fn request_at(f: Seq<u8>, i: int) -> bool {
    occurs_at(f, get_prefix(), i) || occurs_at(f, post_prefix(), i) || occurs_at(f, put_prefix(), i)
        || occurs_at(f, delete_prefix(), i) || occurs_at(f, patch_prefix(), i)
}

/// A request line or a response preamble begins at `i`.
pub open spec fn marker_at(f: Seq<u8>, i: int) -> bool {
    request_at(f, i) || occurs_at(f, response_prefix(), i)
}

/// `p` is the earliest offset of the frame at which any HTTP marker begins.
pub open spec fn is_first_marker(f: Seq<u8>, p: int) -> bool {
    0 <= p && marker_at(f, p) && forall|i: int| 0 <= i < p ==> !marker_at(f, i)
}

/// What the demuxer decides for a frame: the offset of the request that it carries,
/// or `None` where it carries no marker, or where its earliest marker is a response.
pub open spec fn locates_request(f: Seq<u8>, r: Option<usize>) -> bool {
    match r {
        Some(p) => is_first_marker(f, p as int) && !occurs_at(f, response_prefix(), p as int),
        None => forall|p: int| is_first_marker(f, p) ==> occurs_at(f, response_prefix(), p),
    }
}

fn matches_at(hay: &[u8], needle: &[u8], i: usize) -> (r: bool)
    requires
        i + needle@.len() <= hay@.len(),
    ensures
        r == occurs_at(hay@, needle@, i as int),
{
    reveal(occurs_at);
    let n: usize = hay.len();
    let mut j: usize = 0;
    while j < needle.len()
        invariant
            n == hay@.len(),
            j <= needle@.len(),
            i + needle@.len() <= hay@.len(),
            forall|k: int| 0 <= k < j ==> hay@[i + k] == needle@[k],
        decreases needle@.len() - j,
    {
        if hay[i + j] != needle[j] {
            reveal(occurs_at);
            assert(hay@.subrange(i as int, i + needle@.len())[j as int] == hay@[i + j]);
            assert(hay@.subrange(i as int, i + needle@.len()) != needle@);
            assert(!occurs_at(hay@, needle@, i as int));
            return false;
        }
        j += 1;
    }
    assert(hay@.subrange(i as int, i + needle@.len()) =~= needle@);
    true
}

/// Index of the leftmost occurrence of a non-empty `needle` in `haystack`.
pub fn find_subsequence(haystack: &[u8], needle: &[u8]) -> (r: Option<usize>)
    requires
        needle@.len() > 0,
    ensures
        is_leftmost(haystack@, needle@, r),
{
    reveal(occurs_at);
    if needle.len() > haystack.len() {
        return None;
    }
    let n: usize = haystack.len();
    let last: usize = n - needle.len();
    let mut i: usize = 0;
    while i <= last
        invariant
            n == haystack@.len(),
            last + needle@.len() == haystack@.len(),
            needle@.len() > 0,
            forall|j: int| 0 <= j < i ==> !occurs_at(haystack@, needle@, j),
        decreases last + 1 - i,
    {
        if matches_at(haystack, needle, i) {
            return Some(i);
        }
        i += 1;
    }
    None
}

fn earlier(a: Option<usize>, b: Option<usize>) -> (r: Option<usize>)
    ensures
        r == (match (a, b) {
            (Some(x), Some(y)) => if x <= y { a } else { b },
            (Some(_), None) => a,
            _ => b,
        }),
{
    match (a, b) {
        (Some(x), Some(y)) => if x <= y { a } else { b },
        (Some(_), None) => a,
        _ => b,
    }
}

/// Finds where the HTTP request carried by a captured frame begins.
///
/// The frame's earliest HTTP marker decides: a request line there gives its
/// offset; a response preamble there, or no marker at all, gives `None`.
pub fn locate_http_start(frame: &[u8]) -> (r: Option<usize>)
    ensures
        locates_request(frame@, r),
{
    let get: Vec<u8> = vec![0x47u8, 0x45, 0x54, 0x20];
    let post: Vec<u8> = vec![0x50u8, 0x4f, 0x53, 0x54, 0x20];
    let put: Vec<u8> = vec![0x50u8, 0x55, 0x54, 0x20];
    let delete: Vec<u8> = vec![0x44u8, 0x45, 0x4c, 0x45, 0x54, 0x45, 0x20];
    let patch: Vec<u8> = vec![0x50u8, 0x41, 0x54, 0x43, 0x48, 0x20];
    let response: Vec<u8> = vec![0x48u8, 0x54, 0x54, 0x50, 0x2f];
    assert(get@ =~= get_prefix());
    assert(post@ =~= post_prefix());
    assert(put@ =~= put_prefix());
    assert(delete@ =~= delete_prefix());
    assert(patch@ =~= patch_prefix());
    assert(response@ =~= response_prefix());
    let f = frame;
    let a = find_subsequence(f, get.as_slice());
    let b = find_subsequence(f, post.as_slice());
    let c = find_subsequence(f, put.as_slice());
    let d = find_subsequence(f, delete.as_slice());
    let e = find_subsequence(f, patch.as_slice());
    let h = find_subsequence(f, response.as_slice());
    let first = earlier(earlier(earlier(a, b), earlier(c, d)), earlier(e, h));
    match first {
        Some(p) => {
            assert(is_first_marker(f@, p as int));
            if h == Some(p) {
                assert forall|q: int| is_first_marker(f@, q) implies occurs_at(
                    f@,
                    response_prefix(),
                    q,
                ) by {
                    if q < p {
                        assert(!marker_at(f@, q));
                    } else if q > p {
                        assert(!marker_at(f@, p as int));
                    }
                }
                None
            } else {
                proof {
                    if occurs_at(f@, response_prefix(), p as int) {
                        match h {
                            Some(j) => {
                                assert(marker_at(f@, j as int));
                            },
                            None => {},
                        }
                    }
                }
                Some(p)
            }
        },
        None => {
            assert forall|p: int| !marker_at(f@, p) by {}
            None
        },
    }
}

/// The TCP source port of a captured Ethernet frame carrying IPv4 without
/// options: the big-endian 16 bits at offset 34. `None` for a frame of 38 bytes
/// or fewer, too short to hold a TCP header's ports.
pub fn source_port(frame: &[u8]) -> (r: Option<u16>)
    ensures
        r == (if frame@.len() > 38 {
            Some((frame@[34] as int * 256 + frame@[35] as int) as u16)
        } else {
            None
        }),
{
    if frame.len() > 38 {
        Some(frame[34] as u16 * 256 + frame[35] as u16)
    } else {
        None
    }
}

} // verus!
