use ariax_engine::protocols::{ProtocolRow, ProtocolTable, TransferProtocol};
use ariax_engine::session::{ErrorKind, RetryClass};
use ariax_engine::transport::{
    authority_uri, connect_target, resolution_uri, ConnectAction, ConnectEvent, ConnectRoute, ConnectTarget,
    ProtocolConnect, ProtocolFailure,
};

fn protocols() -> ProtocolTable {
    ProtocolTable {
        rows: vec![ProtocolRow {
            code: "ftp".to_owned(),
            protocol: TransferProtocol { id: 2, http: false, enabled: true, default_port: 21 },
        }],
    }
}

#[test]
fn failures_are_reported_by_code_and_class() {
    assert_eq!(ProtocolFailure::Malformed.code(), "MalformedProtocol");
    assert!(ProtocolFailure::Timeout.retryable());
    assert!(!ProtocolFailure::HostKeyMismatch.retryable());
    let error = ProtocolFailure::Data.into_public();
    assert_eq!(error.kind, ErrorKind::Network);
    assert_eq!(error.message, "DataConnection");
    assert_eq!(error.retry, RetryClass::AnotherSource);
    assert_eq!(ProtocolFailure::Tls.into_public().kind, ErrorKind::Permission);
    assert_eq!(ProtocolFailure::AuthFailure.into_public().retry, RetryClass::Never);
}

#[test]
fn addresses_of_authorities_bracket_colons() {
    assert_eq!(authority_uri("example.test", 21), "https://example.test:21/");
    assert_eq!(authority_uri("::1", 2121), "https://[::1]:2121/");
    assert_eq!(authority_uri("[::1]", 2121), "https://[::1]:2121/");
}

#[test]
fn targets_need_a_known_protocol_a_host_and_a_port() {
    let table = protocols();
    let target = connect_target("ftp://[::1]/x", &table).expect("target");
    assert_eq!(target, ConnectTarget { host: "::1".to_owned(), port: 21 });
    assert_eq!(resolution_uri(&target, None), "https://[::1]:21/");
    let pinned = ConnectTarget { host: "192.0.2.1".to_owned(), port: 7 };
    assert_eq!(resolution_uri(&target, Some(&pinned)), "https://192.0.2.1:7/");
    for uri in ["sftp://example.test/", "ftp://example.test:0/", "nonsense"] {
        assert_eq!(connect_target(uri, &table), Err(ProtocolFailure::UnsafeDestination));
    }
}

#[test]
fn connections_follow_their_route() {
    let (start, first) = ProtocolConnect::new();
    assert_eq!(first, ConnectAction::Resolve);
    let mut direct = start;
    assert_eq!(direct.step(ConnectEvent::Resolved { addresses: 2 }), ConnectAction::Route);
    assert_eq!(direct.step(ConnectEvent::Routed(ConnectRoute::Direct)), ConnectAction::Acquire);
    assert_eq!(direct.step(ConnectEvent::Acquired), ConnectAction::Acquire);
    assert_eq!(direct.step(ConnectEvent::Acquired), ConnectAction::ConnectDirect);
    assert_eq!(direct.step(ConnectEvent::Connected), ConnectAction::Finish { proxied: false, kept: 1 });
    let mut proxied = start;
    proxied.step(ConnectEvent::Resolved { addresses: 1 });
    assert_eq!(proxied.step(ConnectEvent::Routed(ConnectRoute::Socks5)), ConnectAction::ResolveProxy);
    assert_eq!(proxied.step(ConnectEvent::Resolved { addresses: 1 }), ConnectAction::ConnectProxy);
    assert_eq!(proxied.step(ConnectEvent::Failed), ConnectAction::Fail(ProtocolFailure::Connect));
    let mut forward = start;
    forward.step(ConnectEvent::Resolved { addresses: 1 });
    assert_eq!(
        forward.step(ConnectEvent::Routed(ConnectRoute::HttpForward)),
        ConnectAction::Fail(ProtocolFailure::UnsafeDestination)
    );
    let mut full = start;
    full.step(ConnectEvent::Resolved { addresses: 1 });
    full.step(ConnectEvent::Routed(ConnectRoute::Direct));
    assert_eq!(full.step(ConnectEvent::Failed), ConnectAction::Fail(ProtocolFailure::ResourceLimit));
}
