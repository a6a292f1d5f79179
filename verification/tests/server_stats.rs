use ariax_engine::byte_budget::ByteBudget;
use ariax_engine::protocols::{ProtocolRow, ProtocolTable, TransferProtocol};
use ariax_engine::server_stats::{transfer_origin, ServerFeedback, ServerStatistics, UriAuthority, UriParts};
use ariax_engine::span::Span;

fn row(code: &str, id: u8, http: bool, default_port: u16) -> ProtocolRow {
    ProtocolRow { code: code.to_owned(), protocol: TransferProtocol { id, http, enabled: true, default_port } }
}

fn protocols() -> ProtocolTable {
    ProtocolTable {
        rows: vec![
            row("http", 0, true, 80),
            row("https", 1, true, 443),
            row("ftp", 2, false, 21),
            row("ftps", 3, false, 990),
            row("sftp", 4, false, 22),
        ],
    }
}

#[test]
fn origin_feedback_covers_protocols_without_retaining_authority_or_path_secrets() {
    let table = protocols();
    for (uri, expected) in [
        ("http://Example.test/path?token=secret", "http://example.test:80"),
        ("https://example.test/path", "https://example.test:443"),
        ("ftp://example.test/path", "ftp://example.test:21"),
        ("ftps://example.test/path", "ftps://example.test:990"),
        ("sftp://example.test:2222/path", "sftp://example.test:2222"),
        ("ftp://[::1]:2121/path", "ftp://[::1]:2121"),
    ] {
        assert_eq!(transfer_origin(uri, &table).as_deref(), Some(expected));
    }
    for uri in [
        "ftp://secret@example.test/path",
        "ftp://example.test:0/path",
        "ftp://example.test:65536/path",
        "file:///path",
        "/relative",
    ] {
        assert_eq!(transfer_origin(uri, &table), None);
    }
}

#[test]
fn timeout_override_expires_feedback_and_zero_disables_updates() {
    let mut stats = ServerStatistics::default();
    stats.observe_at_with_timeout("sftp://a:22", 10, Span::from_secs(1), true, 0, 100);
    assert_eq!(stats.feedback_at_with_timeout("sftp://a:22", 9, 10).samples, 1);
    assert_eq!(stats.feedback_at_with_timeout("sftp://a:22", 10, 10), ServerFeedback::default());
    assert_eq!(stats.feedback_at_with_timeout("sftp://a:22", 11, 100).samples, 1);
    stats.observe_with_timeout("sftp://b:22", 10, Span::from_secs(1), true, 11, Span::from_secs(0));
    assert_eq!(stats.len(), 1);
    assert_eq!(
        stats.feedback_with_timeout("sftp://a:22", 11, Span::from_secs(0)),
        ServerFeedback::default()
    );
}

#[test]
fn expires_before_lru_and_charges_and_refunds_entries() {
    let mut stats = ServerStatistics::new(2, Span::from_millis(10), ByteBudget::new(1024));
    stats.observe("http://a:80", 100, Span::from_secs(1), true, 0);
    stats.observe("http://b:80", 100, Span::from_secs(1), true, 0);
    stats.feedback("http://a:80", 1);
    stats.observe("http://c:80", 50, Span::from_secs(1), true, 1);
    assert_eq!(stats.feedback("http://b:80", 1), ServerFeedback::default());
    assert_eq!(stats.len(), 2);
    assert!(stats.bytes.used() > 0);
    assert_eq!(stats.feedback("http://a:80", 10), ServerFeedback::default());
    assert_eq!(stats.len(), 1);
    assert_eq!(stats.close().used(), 0);
    let mut denied = ServerStatistics::new(1, Span::from_secs(1), ByteBudget::new(1));
    denied.observe("http://a:80", 1, Span::from_secs(1), true, 0);
    assert!(denied.is_empty());
    let mut bad = ServerStatistics::default();
    bad.observe("http://secret@a:80", 1, Span::from_secs(1), true, 0);
    assert!(bad.is_empty());
}

#[test]
fn failed_samples_reduce_score_and_success_recovers_it() {
    let mut value = ServerFeedback::default();
    value.observe(1000, Span::from_secs(1), true);
    let healthy = value.score(0);
    value.observe(0, Span::from_secs(1), false);
    assert!(value.score(0) < healthy);
    value.observe(1000, Span::from_secs(1), true);
    assert_eq!(value.score(0), healthy);
    assert_eq!(value.score(1), healthy / 2);
}

#[test]
fn throughput_is_measured_in_bytes_per_second() {
    let mut value = ServerFeedback::default();
    value.observe(3000, Span::from_millis(1500), true);
    assert_eq!(value.bytes_per_second, 2000);
    assert_eq!(value.score(0), 2000);
    assert_eq!(ServerFeedback::default().score(0), 1_048_576);
    for _ in 0..80 {
        value.observe(0, Span::from_secs(1), false);
    }
    assert_eq!(value.failures, 32);
    assert_eq!(value.score(0), 60);
    let mut unknown = ServerFeedback::default();
    unknown.observe(0, Span::from_secs(1), false);
    assert_eq!(unknown.score(0), 0);
}

#[test]
fn a_read_gives_what_was_observed() {
    let mut stats = ServerStatistics::new(2, Span::from_millis(100), ByteBudget { limit: 4096, used: 1000 });
    let given = stats.observe("http://a.invalid/", 4096, Span::from_secs(1), true, 10);
    assert_eq!(stats.feedback("http://a.invalid/", 109), given);
    assert_eq!(stats.len(), 1);
    let refused = stats.observe("http://u@a.invalid/", 4096, Span::from_secs(1), true, 10);
    assert_eq!(refused, ServerFeedback::default());
    assert_eq!(stats.feedback("http://u@a.invalid/", 20), refused);
    assert_eq!(stats.feedback("http://a.invalid/", 110), ServerFeedback::default());
    assert_eq!(stats.close(), ByteBudget { limit: 4096, used: 1000 });
}

#[test]
fn samples_count_for_what_the_parts_of_an_origin_are() {
    let parts = |scheme: &str, path: &str, query: Option<&str>| UriParts {
        scheme: Some(scheme.to_owned()),
        authority: Some(UriAuthority { text: "a.invalid".to_owned(), host: "a.invalid".to_owned(), port: None }),
        path: path.to_owned(),
        query: query.map(str::to_owned),
    };
    let mut stats = ServerStatistics::default();
    let mut sample = |uri: Option<UriParts>, timeout_ms: u64| {
        let given = stats.observe_parsed("http://a.invalid", &uri, 4096, Span::from_secs(1), true, 10, timeout_ms);
        (given.samples, given.bytes_per_second, stats.len())
    };
    assert_eq!(sample(None, 100), (0, 0, 0));
    assert_eq!(sample(Some(parts("gopher", "/", None)), 100), (0, 0, 0));
    assert_eq!(sample(Some(parts("http", "/path", None)), 100), (0, 0, 0));
    assert_eq!(sample(Some(parts("http", "/", Some("q"))), 100), (0, 0, 0));
    assert_eq!(sample(Some(UriParts { authority: None, ..parts("http", "/", None) }), 100), (0, 0, 0));
    assert_eq!(sample(Some(parts("http", "/", None)), 0), (0, 0, 0));
    assert_eq!(sample(Some(parts("http", "/", None)), 100), (1, 4096, 1));
    assert_eq!(stats.feedback("http://a.invalid", 10).samples, 1);
}
