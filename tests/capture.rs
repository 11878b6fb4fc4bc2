use guardi::correlate::{is_port_owned_by_pid, owned_in_snapshot, socket_owns_port, FdEntry, TcpEntry};
use guardi::demux::{find_subsequence, locate_http_start, source_port};
use guardi::fields::extract_json_keys;
use guardi::http::{find_host, process_packet, PacketOutcome, RequestHeader};
use guardi::signature::{canonical_string, generate_signature};
use guardi::types::Primitive;

fn frame(header: &[u8], text: &str) -> Vec<u8> {
    let mut v = header.to_vec();
    v.extend_from_slice(text.as_bytes());
    v
}

fn names(v: &[&str]) -> Vec<String> {
    v.iter().map(|s| s.to_string()).collect()
}

#[test]
fn find_subsequence_gives_leftmost() {
    assert_eq!(find_subsequence(b"abcabc", b"bc"), Some(1));
    assert_eq!(find_subsequence(b"abcabc", b"cab"), Some(2));
    assert_eq!(find_subsequence(b"abc", b"abcd"), None);
    assert_eq!(find_subsequence(b"", b"a"), None);
    assert_eq!(find_subsequence(b"aaa", b"x"), None);
}

#[test]
fn request_start_found_after_headers() {
    let f = frame(&[0u8; 54], "GET /index HTTP/1.1\r\nHost: a\r\n\r\n");
    assert_eq!(locate_http_start(&f), Some(54));
}

#[test]
fn earliest_request_prefix_wins() {
    let f = frame(&[1u8, 2, 3], "POST /x HTTP/1.1\r\n\r\nGET /y");
    assert_eq!(locate_http_start(&f), Some(3));
    let f = frame(&[9u8], "xx PATCH a GET b");
    assert_eq!(locate_http_start(&f), Some(4));
}

#[test]
fn response_frames_are_rejected() {
    let f = frame(&[0u8; 40], "HTTP/1.1 200 OK\r\nContent-Length: 3\r\n\r\nGET");
    assert_eq!(locate_http_start(&f), None);
    assert!(matches!(process_packet(&f), PacketOutcome::NotHttp));
}

#[test]
fn frames_without_marker_are_skipped() {
    assert_eq!(locate_http_start(b"GE"), None);
    assert_eq!(locate_http_start(b""), None);
    assert_eq!(locate_http_start(b"\x00\x01random bytes"), None);
}

#[test]
fn json_keys_are_sorted_and_unique() {
    let keys = extract_json_keys(br#"{"b":1,"a":2,"a":3}"#);
    assert_eq!(keys, names(&["a", "b"]));
    let keys = extract_json_keys(br#"{"user":{"inner":1},"id":2}"#);
    assert_eq!(keys, names(&["id", "user"]));
}

#[test]
fn json_key_order_does_not_matter() {
    assert_eq!(extract_json_keys(br#"{"x":1,"y":2}"#), extract_json_keys(br#"{"y":2,"x":1,"y":3}"#));
}

#[test]
fn non_object_bodies_have_no_fields() {
    assert!(extract_json_keys(b"[1,2,3]").is_empty());
    assert!(extract_json_keys(b"not json").is_empty());
    assert!(extract_json_keys(b"").is_empty());
    assert!(extract_json_keys(&[0xff, 0xfe, 0x00]).is_empty());
}

#[test]
fn canonical_string_joins_parts() {
    let s = canonical_string("api.test", "get", "/users", &names(&["email", "id"]));
    assert_eq!(s, "api.test|GET|/users|email,id");
    let s = canonical_string("a", "GET", "/", &Vec::new());
    assert_eq!(s, "a|GET|/|");
}

#[test]
fn signature_has_known_digest() {
    let d = generate_signature("api.test", "GET", "/users", &names(&["email", "id"]));
    assert_eq!(d, "72cadffe203f11ed419c5ed2074efb532952cbff00621a3039e54f0ae00af224");
    let d = generate_signature("a", "get", "/", &Vec::new());
    assert_eq!(d, "96c977ef39dd810890e9e3fed485eb8364b015149c78bf0defd65c1c93de6c5e");
}

#[test]
fn signature_ignores_method_case_and_field_order() {
    let from_body = extract_json_keys(br#"{"id":1,"email":"e"}"#);
    let a = generate_signature("api.test", "get", "/users", &from_body);
    let b = generate_signature("api.test", "GET", "/users", &names(&["email", "id"]));
    assert_eq!(a, b);
}

#[test]
fn signature_changes_with_each_part() {
    let base = generate_signature("api.test", "GET", "/users", &names(&["email", "id"]));
    assert_ne!(base, generate_signature("api.other", "GET", "/users", &names(&["email", "id"])));
    assert_ne!(base, generate_signature("api.test", "POST", "/users", &names(&["email", "id"])));
    assert_ne!(base, generate_signature("api.test", "GET", "/user", &names(&["email", "id"])));
    assert_ne!(base, generate_signature("api.test", "GET", "/users", &names(&["email"])));
}

#[test]
fn host_header_matches_in_any_case() {
    let headers = vec![
        RequestHeader { name: "Accept".to_string(), value: b"*/*".to_vec() },
        RequestHeader { name: "HoSt".to_string(), value: b"api.test".to_vec() },
        RequestHeader { name: "host".to_string(), value: b"second".to_vec() },
    ];
    assert_eq!(find_host(&headers), "api.test");
    assert_eq!(find_host(&Vec::new()), "unknown_host");
}

#[test]
fn post_request_is_captured() {
    let body = r#"{"password":"123"}"#;
    let text = format!(
        "POST /post HTTP/1.1\r\nHost: httpbin.org\r\nContent-Length: {}\r\n\r\n{}",
        body.len(),
        body
    );
    let f = frame(&[0u8; 54], &text);
    match process_packet(&f) {
        PacketOutcome::Captured(c) => {
            assert_eq!(c.host, "httpbin.org");
            assert_eq!(c.method, "POST");
            assert_eq!(c.path, "/post");
            assert_eq!(c.fields, names(&["password"]));
            assert_eq!(c.digest, "75a328872be14789aef25da42cc6d364a425a432635a42fceb381eb343ba92d4");
        }
        other => panic!("unexpected outcome {:?}", other),
    }
}

#[test]
fn request_without_host_gets_placeholder() {
    let f = frame(&[], "GET /a HTTP/1.1\r\nAccept: */*\r\n\r\n");
    match process_packet(&f) {
        PacketOutcome::Captured(c) => {
            assert_eq!(c.host, "unknown_host");
            assert!(c.fields.is_empty());
        }
        other => panic!("unexpected outcome {:?}", other),
    }
}

#[test]
fn truncated_request_is_partial() {
    let f = frame(&[0u8; 10], "GET /a HTTP/1.1\r\nHost: x");
    assert!(matches!(process_packet(&f), PacketOutcome::Partial));
}

#[test]
fn broken_request_is_malformed() {
    let f = frame(&[], "GET /a HTTP/9\x01\r\n\r\n");
    assert!(matches!(process_packet(&f), PacketOutcome::Malformed));
}

#[test]
fn socket_ownership_from_tables() {
    let fds = vec![FdEntry::Other, FdEntry::Socket(77), FdEntry::Unreadable];
    let tcp4 = vec![TcpEntry { inode: 12, local_port: 8080 }];
    let tcp6 = vec![TcpEntry { inode: 77, local_port: 443 }];
    assert!(socket_owns_port(&fds, &tcp4, &tcp6, 443));
    assert!(!socket_owns_port(&fds, &tcp4, &tcp6, 8080));
    assert!(!socket_owns_port(&fds, &tcp4, &tcp6, 1));
    let no_sockets = vec![FdEntry::Other];
    assert!(!socket_owns_port(&no_sockets, &tcp4, &tcp6, 443));
}

#[test]
fn missing_process_owns_nothing() {
    assert!(!is_port_owned_by_pid(u32::MAX, 80).0);
    assert!(!is_port_owned_by_pid(0, 80).0);
}

#[test]
fn primitive_tags() {
    assert_eq!(Primitive::from_str("!string"), Some(Primitive::Str));
    assert_eq!(Primitive::from_str("!int"), Some(Primitive::Int));
    assert_eq!(Primitive::from_str("!bool"), Some(Primitive::Bool));
    assert_eq!(Primitive::from_str("string"), None);
}

#[test]
fn source_port_read_at_transport_header() {
    let mut f = vec![0u8; 39];
    f[34] = 0x1f;
    f[35] = 0x90;
    assert_eq!(source_port(&f), Some(8080));
    assert_eq!(source_port(&f[..38]), None);
}

#[test]
fn unreadable_snapshot_parts() {
    let fds = Some(vec![FdEntry::Socket(5)]);
    let t = Some(vec![TcpEntry { inode: 5, local_port: 9000 }]);
    assert!(owned_in_snapshot(&fds, &t, &None, 9000));
    assert!(owned_in_snapshot(&fds, &None, &t, 9000));
    assert!(!owned_in_snapshot(&fds, &None, &None, 9000));
    assert!(!owned_in_snapshot(&None, &t, &t, 9000));
}

fn captured(f: &[u8]) -> guardi::http::ObservedCall {
    match process_packet(f) {
        PacketOutcome::Captured(c) => c,
        other => panic!("unexpected outcome {:?}", other),
    }
}

#[test]
fn leftmost_request_is_reported() {
    let f = [b"xxPOST /a HTTP/1.1\r\nHost: h\r\n\r\n".as_slice(), br#"{"q":"GET "}"#].concat();
    let c = captured(&f);
    assert_eq!(c.host, "h");
    assert_eq!(c.method, "POST");
    assert_eq!(c.path, "/a");
    assert_eq!(c.digest, generate_signature("h", "POST", "/a", &names(&["q"])));
}

#[test]
fn put_request_is_reported() {
    let f = [[0u8; 54].as_slice(), b"PUT /items/1 HTTP/1.1\r\nHost: api.test\r\n\r\n", br#"{"id":1,"name":"x"}"#].concat();
    let c = captured(&f);
    assert_eq!(c.host, "api.test");
    assert_eq!(c.method, "PUT");
    assert_eq!(c.path, "/items/1");
    assert_eq!(c.fields, names(&["id", "name"]));
    assert_eq!(c.digest, generate_signature("api.test", "PUT", "/items/1", &names(&["id", "name"])));
}

#[test]
fn body_starts_at_parser_boundary() {
    let f = [[0u8; 54].as_slice(), b"POST /p HTTP/1.1\nHost: h\n\n{\"k\":1}\r\n\r\n"].concat();
    let c = captured(&f);
    assert_eq!(c.method, "POST");
    assert_eq!(c.path, "/p");
    assert_eq!(c.fields, names(&["k"]));
}

#[test]
fn short_broken_request_does_not_panic() {
    assert!(matches!(process_packet(b"GET \x00"), PacketOutcome::Malformed));
    assert!(matches!(process_packet(b"GET /users HTTP/1.1\r\nHost: api.te"), PacketOutcome::Partial));
}

#[test]
fn digest_is_lowercase_hex_of_fixed_length() {
    let d = generate_signature("h", "get", "/", &names(&["a"]));
    assert_eq!(d.len(), 64);
    assert!(d.chars().all(|c| c.is_ascii_digit() || ('a'..='f').contains(&c)));
}
