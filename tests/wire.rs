use guardi::dns::{Address, AllowList, DnsDecision, FailurePolicy};
use guardi::dnswire::{answer_query, parse_query, plan_query};

fn question(name: &[&str]) -> Vec<u8> {
    let mut q = Vec::new();
    for label in name {
        q.push(label.len() as u8);
        q.extend_from_slice(label.as_bytes());
    }
    q.push(0);
    q.extend_from_slice(&[0, 1, 0, 1]);
    q
}

fn query_message(name: &[&str]) -> Vec<u8> {
    let mut m = vec![0x12, 0x34, 0x01, 0x00, 0, 1, 0, 0, 0, 0, 0, 0];
    m.extend(question(name));
    m
}

#[test]
fn query_name_and_type_are_read() {
    let m = query_message(&["www", "example", "com"]);
    let q = parse_query(&m).unwrap();
    assert_eq!(q.id, 0x1234);
    assert_eq!(q.name, b"www.example.com".to_vec());
    assert_eq!(q.qtype, 1);
    assert_eq!(q.question_end, m.len());
}

#[test]
fn unreadable_queries_are_dropped() {
    assert!(parse_query(&[0u8; 11]).is_none());
    let mut no_question = query_message(&["a"]);
    no_question[5] = 0;
    assert!(parse_query(&no_question).is_none());
    let mut compressed = vec![0x12, 0x34, 0x01, 0x00, 0, 1, 0, 0, 0, 0, 0, 0];
    compressed.extend_from_slice(&[0xc0, 0x0c, 0, 1, 0, 1]);
    assert!(parse_query(&compressed).is_none());
    let mut cut = query_message(&["example", "com"]);
    cut.truncate(cut.len() - 2);
    assert!(parse_query(&cut).is_none());
}

#[test]
fn blocked_query_gets_nxdomain_reply() {
    let m = query_message(&["httpbin", "org"]);
    let allow = AllowList::from_config("example.com");
    let plan = plan_query(&m, &allow).unwrap();
    assert_eq!(plan.name, "httpbin.org");
    assert_eq!(plan.decision, DnsDecision::Block);
    let r = answer_query(&m, &plan, None, FailurePolicy::EmptyAnswer);
    let mut expected = vec![0x12, 0x34, 0x81, 0x03, 0, 1, 0, 0, 0, 0, 0, 0];
    expected.extend(question(&["httpbin", "org"]));
    assert_eq!(r, expected);
}

#[test]
fn allowed_query_gets_records() {
    let m = query_message(&["www", "Example", "com"]);
    let allow = AllowList::from_config("example.com");
    let plan = plan_query(&m, &allow).unwrap();
    assert_eq!(plan.name, "www.Example.com");
    assert_eq!(plan.decision, DnsDecision::Allow);
    let r = answer_query(&m, &plan, Some(vec![Address::V4([93, 184, 216, 34])]), FailurePolicy::EmptyAnswer);
    let mut expected = vec![0x12, 0x34, 0x81, 0x00, 0, 1, 0, 1, 0, 0, 0, 0];
    expected.extend(question(&["www", "Example", "com"]));
    expected.extend_from_slice(&[0xc0, 0x0c, 0, 1, 0, 1, 0, 0, 0, 60, 0, 4, 93, 184, 216, 34]);
    assert_eq!(r, expected);
}

#[test]
fn localhost_query_is_allowed() {
    let m = query_message(&["localhost"]);
    let allow = AllowList::from_config("example.com");
    let plan = plan_query(&m, &allow).unwrap();
    assert_eq!(plan.decision, DnsDecision::Allow);
    let v6 = [0, 0, 0, 0, 0, 0, 0, 0, 0, 0, 0, 0, 0, 0, 0, 1];
    let r = answer_query(&m, &plan, Some(vec![Address::V6(v6)]), FailurePolicy::EmptyAnswer);
    let tail = &r[r.len() - 28..];
    assert_eq!(&tail[..12], &[0xc0, 0x0c, 0, 28, 0, 1, 0, 0, 0, 60, 0, 16]);
    assert_eq!(&tail[12..], &v6);
    assert_eq!(r[3] & 0x0f, 0);
    assert_eq!(r[7], 1);
}
