use guardi::dns::{split_commas, build_reply, Address, AllowList, AnswerRecord, DnsDecision, FailurePolicy, ResponseCode, ANSWER_TTL};
use guardi::filter::{capture_filter, decimal_string, default_inspected_ports};
use guardi::session::{Phase, Session, SessionEvent};

#[test]
fn allow_list_from_config() {
    let list = AllowList::from_config("Example.com,,api.test");
    assert_eq!(list.entries, vec!["example.com".to_string(), "api.test".to_string()]);
}

#[test]
fn allowed_substring_and_localhost() {
    let list = AllowList::from_config("example.com");
    assert_eq!(list.decide("www.EXAMPLE.com."), DnsDecision::Allow);
    assert_eq!(list.decide("localhost"), DnsDecision::Allow);
    assert_eq!(list.decide("LOCALHOST."), DnsDecision::Allow);
    assert_eq!(list.decide("httpbin.org"), DnsDecision::Block);
    assert_eq!(list.decide("example.co"), DnsDecision::Block);
}

#[test]
fn empty_allow_list_blocks_all_but_localhost() {
    let list = AllowList::from_config("");
    assert!(list.entries.is_empty());
    assert_eq!(list.decide("example.com"), DnsDecision::Block);
    assert_eq!(list.decide("localhost."), DnsDecision::Allow);
}

#[test]
fn allowed_reply_carries_records() {
    let r = build_reply(
        DnsDecision::Allow,
        Some(vec![Address::V4([127, 0, 0, 1]), Address::V6([0, 0, 0, 0, 0, 0, 0, 0, 0, 0, 0, 0, 0, 0, 0, 1])]),
        FailurePolicy::EmptyAnswer,
    );
    assert_eq!(r.code, ResponseCode::NoError);
    assert_eq!(
        r.answers,
        vec![
            AnswerRecord { address: Address::V4([127, 0, 0, 1]), ttl: ANSWER_TTL },
            AnswerRecord { address: Address::V6([0, 0, 0, 0, 0, 0, 0, 0, 0, 0, 0, 0, 0, 0, 0, 1]), ttl: 60 },
        ]
    );
}

#[test]
fn blocked_reply_is_nxdomain() {
    let r = build_reply(DnsDecision::Block, Some(vec![Address::V4([1, 1, 1, 1])]), FailurePolicy::EmptyAnswer);
    assert_eq!(r.code, ResponseCode::NxDomain);
    assert!(r.answers.is_empty());
}

#[test]
fn resolver_failure_follows_policy() {
    let r = build_reply(DnsDecision::Allow, None, FailurePolicy::EmptyAnswer);
    assert_eq!(r.code, ResponseCode::NoError);
    assert!(r.answers.is_empty());
    let r = build_reply(DnsDecision::Allow, None, FailurePolicy::ServerFailure);
    assert_eq!(r.code, ResponseCode::ServFail);
    assert!(r.answers.is_empty());
}

#[test]
fn disallowed_host_is_never_resolved() {
    let list = AllowList::from_config("api.test");
    let d = list.decide("httpbin.org");
    assert_eq!(d, DnsDecision::Block);
    let r = build_reply(d, None, FailurePolicy::EmptyAnswer);
    assert_eq!(r.code, ResponseCode::NxDomain);
    assert!(r.answers.is_empty());
}

#[test]
fn session_runs_and_drains() {
    let mut s = Session::new(2000);
    assert_eq!(s.phase, Phase::Starting);
    assert!(s.step(SessionEvent::CaptureOpened));
    assert_eq!(s.phase, Phase::Running);
    assert!(s.step(SessionEvent::Tick(5000)));
    assert!(s.step(SessionEvent::ProcessExited(10_000)));
    assert_eq!(s.phase, Phase::Draining);
    assert!(s.step(SessionEvent::Tick(12_000)));
    assert!(s.step(SessionEvent::CorrelatedPacket(11_500)));
    assert!(s.step(SessionEvent::Tick(13_400)));
    assert_eq!(s.phase, Phase::Draining);
    assert!(!s.step(SessionEvent::Tick(13_501)));
    assert_eq!(s.phase, Phase::Stopped);
    assert!(!s.step(SessionEvent::CaptureOpened));
}

#[test]
fn second_exit_report_is_ignored() {
    let mut s = Session::new(100);
    s.step(SessionEvent::CaptureOpened);
    s.step(SessionEvent::ProcessExited(50));
    s.step(SessionEvent::ProcessExited(500));
    assert_eq!(s.last_activity_ms, 50);
    assert!(!s.step(SessionEvent::Tick(151)));
}

#[test]
fn capture_failure_stops_at_once() {
    let mut s = Session::new(100);
    assert!(!s.step(SessionEvent::CaptureFailed));
    let mut s = Session::new(100);
    s.step(SessionEvent::CaptureOpened);
    assert!(!s.step(SessionEvent::CaptureFailed));
    assert_eq!(s.phase, Phase::Stopped);
}

#[test]
fn decimal_port_numbers() {
    assert_eq!(decimal_string(0), "0");
    assert_eq!(decimal_string(7), "7");
    assert_eq!(decimal_string(443), "443");
    assert_eq!(decimal_string(65535), "65535");
}

#[test]
fn capture_filter_lists_ports() {
    assert_eq!(capture_filter(&vec![]), "not dst net 127.0.0.0/8");
    assert_eq!(
        capture_filter(&vec![80, 5432]),
        "not dst net 127.0.0.0/8 or dst port 80 or dst port 5432"
    );
    let f = capture_filter(&default_inspected_ports());
    assert!(f.ends_with(" or dst port 27017"));
    assert!(f.contains(" or dst port 6379"));
}

#[test]
fn config_split_at_commas() {
    assert_eq!(split_commas("a,,bc,"), vec!["a".to_string(), "".to_string(), "bc".to_string(), "".to_string()]);
    assert_eq!(split_commas(""), vec!["".to_string()]);
    assert_eq!(split_commas("é,x"), vec!["é".to_string(), "x".to_string()]);
}
