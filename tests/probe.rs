use m3u8_checker::{
    check_url_validity, is_success_or_redirection, Collector, InvalidReason, M3U8Entry, ProbeOutcome, Verdict,
};

fn entry(d: &str, u: &str) -> M3U8Entry {
    M3U8Entry { description: d.to_string(), url: u.to_string() }
}

#[test]
fn status_classes() {
    assert!(!is_success_or_redirection(199));
    assert!(is_success_or_redirection(200));
    assert!(is_success_or_redirection(204));
    assert!(is_success_or_redirection(301));
    assert!(is_success_or_redirection(399));
    assert!(!is_success_or_redirection(400));
    assert!(!is_success_or_redirection(404));
    assert!(!is_success_or_redirection(500));
    assert!(!is_success_or_redirection(100));
}

#[test]
fn ok_probe_is_valid() {
    let v = check_url_validity(entry("#EXTINF:,Channel A", "http://example.com/a.ts"), ProbeOutcome::Status(200));
    match v {
        Verdict::Valid(e) => {
            assert_eq!(e.description, "#EXTINF:,Channel A");
            assert_eq!(e.url, "http://example.com/a.ts");
        }
        other => panic!("unexpected {:?}", other),
    }
}

#[test]
fn redirect_probe_is_valid() {
    assert!(matches!(check_url_validity(entry("d", "http://r"), ProbeOutcome::Status(302)), Verdict::Valid(_)));
}

#[test]
fn timeout_is_invalid() {
    match check_url_validity(entry("#EXTINF:,Channel A", "http://example.com/a.ts"), ProbeOutcome::TimedOut) {
        Verdict::Invalid(e, r) => {
            assert_eq!(e.url, "http://example.com/a.ts");
            assert_eq!(r, InvalidReason::TimedOut);
        }
        other => panic!("unexpected {:?}", other),
    }
}

#[test]
fn transport_error_is_invalid() {
    match check_url_validity(entry("d", "http://down"), ProbeOutcome::TransportError) {
        Verdict::Invalid(_, r) => assert_eq!(r, InvalidReason::TransportError),
        other => panic!("unexpected {:?}", other),
    }
}

#[test]
fn error_status_is_invalid_with_code() {
    match check_url_validity(entry("d", "http://gone"), ProbeOutcome::Status(404)) {
        Verdict::Invalid(_, r) => assert_eq!(r, InvalidReason::Status(404)),
        other => panic!("unexpected {:?}", other),
    }
}

#[test]
fn collector_writes_only_valid_entries_after_partial_failure() {
    let mut c = Collector::new();
    let outcomes = [
        ("http://a", ProbeOutcome::Status(200)),
        ("http://b", ProbeOutcome::TimedOut),
        ("http://c", ProbeOutcome::Status(503)),
        ("http://d", ProbeOutcome::Status(301)),
        ("http://e", ProbeOutcome::TransportError),
    ];
    let mut written = Vec::new();
    let mut rejected = 0;
    for (u, o) in outcomes {
        match c.receive(entry("#EXTINF:", u), o) {
            Verdict::Valid(e) => written.push(e.url),
            Verdict::Invalid(..) => rejected += 1,
        }
    }
    assert_eq!(written, vec!["http://a".to_string(), "http://d".to_string()]);
    assert_eq!(rejected, 3);
}
