use vstd::prelude::*;
use vstd::slice::slice_subrange;
use crate::demux::{locate_http_start, locates_request};
use crate::fields::{extract_json_keys, is_ordered_set, json_object_keys, names_of};
use crate::signature::{generate_signature, signature_of};

verus! {

/// What `str::to_lowercase` makes of a string.
pub uninterp spec fn lower_of(s: Seq<char>) -> Seq<char>;

/// What `String::from_utf8_lossy` makes of a byte string.
pub uninterp spec fn lossy_of(b: Seq<u8>) -> Seq<char>;

/// Relies on `str::to_lowercase`: the result depends on the characters alone.
#[verifier::external_body]
pub(crate) fn lowercase(s: &str) -> (r: String)
    ensures
        r@ == lower_of(s@),
{
    s.to_lowercase()
}

/// Relies on `String::from_utf8_lossy`: the result depends on the bytes alone.
#[verifier::external_body]
pub(crate) fn utf8_lossy(b: &[u8]) -> (r: String)
    ensures
        r@ == lossy_of(b@),
{
    String::from_utf8_lossy(b).into_owned()
}

/// One header line of a request.
#[derive(Debug)]
pub struct RequestHeader {
    pub name: String,
    pub value: Vec<u8>,
}

/// A request line and headers as the HTTP parser read them.
#[derive(Debug)]
pub struct ParsedRequest {
    pub method: Option<String>,
    pub path: Option<String>,
    pub headers: Vec<RequestHeader>,
    /// Where the body begins: the first byte after the blank line.
    pub body_offset: usize,
}

/// What the HTTP parser made of a byte slice.
#[derive(Debug)]
pub enum ParseStatus {
    Complete(ParsedRequest),
    /// More bytes are needed.
    Partial,
    Malformed,
}

/// What `httparse::Request::parse` makes of a byte slice: `None` for an error,
/// `Some(None)` where more bytes are needed, and otherwise the method, path,
/// headers (name and value) and the offset where the body begins.
pub uninterp spec fn http_parse_of(b: Seq<u8>) -> Option<
    Option<(Option<Seq<char>>, Option<Seq<char>>, Seq<(Seq<char>, Seq<u8>)>, nat)>,
>;

/// The header lines as names and values.
pub open spec fn headers_view(h: Seq<RequestHeader>) -> Seq<(Seq<char>, Seq<u8>)> {
    h.map_values(|x: RequestHeader| (x.name@, x.value@))
}

/// A parsed request as plain values: method, path, headers and body offset.
pub open spec fn parsed_view(q: ParsedRequest) -> (Option<Seq<char>>, Option<Seq<char>>, Seq<(Seq<char>, Seq<u8>)>, nat) {
    (
        match q.method {
            Some(m) => Some(m@),
            None => None,
        },
        match q.path {
            Some(p) => Some(p@),
            None => None,
        },
        headers_view(q.headers@),
        q.body_offset as nat,
    )
}

/// Relies on `httparse::Request::parse` with room for 64 headers: the result
/// depends on the bytes alone, and on `Complete` it reports the offset of the body
/// within `payload`.
#[verifier::external_body]
fn parse_request(payload: &[u8]) -> (r: ParseStatus)
    ensures
        match r {
            ParseStatus::Complete(q) => http_parse_of(payload@) == Some(Some(parsed_view(q)))
                && q.body_offset <= payload@.len(),
            ParseStatus::Partial => http_parse_of(payload@) == Some(
                None::<(Option<Seq<char>>, Option<Seq<char>>, Seq<(Seq<char>, Seq<u8>)>, nat)>,
            ),
            ParseStatus::Malformed => http_parse_of(payload@) is None,
        },
{
    let mut headers = [httparse::EMPTY_HEADER; 64];
    let mut req = httparse::Request::new(&mut headers);
    match req.parse(payload) {
        Ok(httparse::Status::Complete(n)) => ParseStatus::Complete(ParsedRequest {
            method: req.method.map(|m| m.to_string()),
            path: req.path.map(|p| p.to_string()),
            headers: req.headers.iter().map(|h| RequestHeader { name: h.name.to_string(), value: h.value.to_vec() }).collect(),
            body_offset: n,
        }),
        Ok(httparse::Status::Partial) => ParseStatus::Partial,
        Err(_) => ParseStatus::Malformed,
    }
}

/// The value of the first header whose name is `host` in any case; `unknown_host`
/// where there is none.
pub open spec fn host_of(h: Seq<(Seq<char>, Seq<u8>)>) -> Seq<char>
    decreases h.len(),
{
    if h.len() == 0 {
        "unknown_host"@
    } else if lower_of(h[0].0) == "host"@ {
        lossy_of(h[0].1)
    } else {
        host_of(h.drop_first())
    }
}

/// The request's method, `GET` where the parser gave none.
pub open spec fn method_of(m: Option<Seq<char>>) -> Seq<char> {
    match m {
        Some(m) => m,
        None => "GET"@,
    }
}

/// The request's path, `/` where the parser gave none.
pub open spec fn path_of(p: Option<Seq<char>>) -> Seq<char> {
    match p {
        Some(p) => p,
        None => "/"@,
    }
}

/// The observed shape of one captured call.
#[derive(Debug)]
pub struct ObservedCall {
    pub host: String,
    pub method: String,
    pub path: String,
    /// The top-level JSON keys of the body, ascending and without repeats.
    pub fields: Vec<String>,
    /// Hex SHA-256 of the call's canonical string.
    pub digest: String,
}

/// The field names of a body, with the meaning `extract_json_keys` gives them.
pub open spec fn fields_of_body(body: Seq<u8>, fields: Seq<Seq<char>>) -> bool {
    is_ordered_set(fields) && match json_object_keys(body) {
        Some(keys) => fields.to_set() == keys,
        None => fields.len() == 0,
    }
}

/// Reads the `Host` header of a list of headers, matching its name in any case.
pub fn find_host(headers: &Vec<RequestHeader>) -> (r: String)
    ensures
        r@ == host_of(headers_view(headers@)),
{
    let ghost hv = headers_view(headers@);
    let mut i: usize = 0;
    assert(hv.subrange(0, hv.len() as int) =~= hv);
    while i < headers.len()
        invariant
            i <= headers@.len(),
            hv == headers_view(headers@),
            host_of(hv) == host_of(hv.subrange(i as int, hv.len() as int)),
        decreases headers@.len() - i,
    {
        let h = &headers[i];
        assert(hv.subrange(i as int, hv.len() as int).drop_first() =~= hv.subrange(i + 1, hv.len() as int));
        if lowercase(h.name.as_str()) == "host".to_owned() {
            return utf8_lossy(h.value.as_slice());
        }
        i += 1;
    }
    assert(hv.subrange(i as int, hv.len() as int) =~= Seq::<(Seq<char>, Seq<u8>)>::empty());
    "unknown_host".to_owned()
}

/// Summarises a parsed request over the payload it was read from: host, method,
/// path, the JSON field names of the body, and the call's signature.
pub fn handle_http_request(req: &ParsedRequest, payload: &[u8]) -> (r: ObservedCall)
    requires
        req.body_offset <= payload@.len(),
    ensures
        r.host@ == host_of(parsed_view(*req).2),
        r.method@ == method_of(parsed_view(*req).0),
        r.path@ == path_of(parsed_view(*req).1),
        fields_of_body(payload@.subrange(req.body_offset as int, payload@.len() as int), names_of(r.fields@)),
        r.digest@ == signature_of(r.host@, r.method@, r.path@, names_of(r.fields@)),
{
    let method = match &req.method {
        Some(m) => m.clone(),
        None => "GET".to_owned(),
    };
    let path = match &req.path {
        Some(p) => p.clone(),
        None => "/".to_owned(),
    };
    let host = find_host(&req.headers);
    let body = slice_subrange(payload, req.body_offset, payload.len());
    let fields = extract_json_keys(body);
    let digest = generate_signature(host.as_str(), method.as_str(), path.as_str(), &fields);
    ObservedCall { host, method, path, fields, digest }
}

/// What became of one captured frame.
#[derive(Debug)]
pub enum PacketOutcome {
    /// The frame carries no HTTP request, or only a response.
    NotHttp,
    /// The request does not end within the frame.
    Partial,
    /// The request could not be parsed.
    Malformed,
    Captured(ObservedCall),
}

/// The outcome for a frame whose request begins at `s`: `Malformed` where the
/// parser fails on the bytes from `s`, `Partial` where it needs more, and
/// otherwise the call with the parsed method, path and host, the JSON field names
/// of the body from the parser's body offset, and their signature.
pub open spec fn outcome_of_parse(f: Seq<u8>, s: int, r: PacketOutcome) -> bool {
    match http_parse_of(f.subrange(s, f.len() as int)) {
        None => r is Malformed,
        Some(None) => r is Partial,
        Some(Some(v)) => match r {
            PacketOutcome::Captured(c) => c.host@ == host_of(v.2) && c.method@ == method_of(v.0) && c.path@
                == path_of(v.1) && s + v.3 <= f.len() && fields_of_body(
                f.subrange(s + v.3, f.len() as int),
                names_of(c.fields@),
            ) && c.digest@ == signature_of(c.host@, c.method@, c.path@, names_of(c.fields@)),
            _ => false,
        },
    }
}

/// Looks for an HTTP request in a captured frame and summarises it: nothing where
/// the demuxer finds no request; otherwise what the parse of the bytes from the
/// request's start gives.
pub fn process_packet(raw_data: &[u8]) -> (r: PacketOutcome)
    ensures
        r is NotHttp <==> locates_request(raw_data@, None),
        forall|s: usize| #[trigger] locates_request(raw_data@, Some(s)) ==> outcome_of_parse(raw_data@, s as int, r),
{
    match locate_http_start(raw_data) {
        None => PacketOutcome::NotHttp,
        Some(start) => {
            proof {
                assert(!locates_request(raw_data@, None)) by {
                    assert(crate::demux::is_first_marker(raw_data@, start as int));
                }
                reveal(crate::demux::occurs_at);
            }
            proof {
                assert forall|s: usize| #[trigger] locates_request(raw_data@, Some(s)) implies s == start by {
                    if s < start {
                        assert(!crate::demux::marker_at(raw_data@, s as int));
                    } else if s > start {
                        assert(!crate::demux::marker_at(raw_data@, start as int));
                    }
                }
            }
            let payload = slice_subrange(raw_data, start, raw_data.len());
            let r = match parse_request(payload) {
                ParseStatus::Complete(req) => {
                    let c = handle_http_request(&req, payload);
                    assert(payload@.subrange(req.body_offset as int, payload@.len() as int) =~= raw_data@.subrange(
                        start + req.body_offset,
                        raw_data@.len() as int,
                    ));
                    PacketOutcome::Captured(c)
                },
                ParseStatus::Partial => PacketOutcome::Partial,
                ParseStatus::Malformed => PacketOutcome::Malformed,
            };
            assert(outcome_of_parse(raw_data@, start as int, r));
            r
        },
    }
}

} // verus!
