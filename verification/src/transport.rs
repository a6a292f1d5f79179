//! Connections of protocols other than HTTP: their failures, and how they are
//! made under the policy that holds for all destinations.
use vstd::prelude::*;
use crate::protocols::ProtocolTable;
use crate::session::{ErrorKind, PublicError, RetryClass};
use crate::text::{chars_of, decimal_digits, decimal_text, strip_around, text_of, without_leading, without_trailing};
use crate::urls::{parse_url, parsed_url, UrlParts, UrlPartsView};

verus! {

/// Why a transfer failed.
#[derive(Clone, Copy, Debug, PartialEq, Eq, Structural)]
pub enum ProtocolFailure {
    UnsafeDestination,
    Connect,
    Control,
    Data,
    SizeUnsupported,
    ResumeUnsupported,
    AuthFailure,
    Malformed,
    Tls,
    HostKeyMismatch,
    HostKeyApprovalRequired,
    ResourceLimit,
    Cancelled,
    Timeout,
    StaleValidator,
}

impl ProtocolFailure {
    /// The code of a failure.
    pub open spec fn spec_code(self) -> Seq<char> {
        match self {
            ProtocolFailure::UnsafeDestination => "UnsafeDestination"@,
            ProtocolFailure::Connect => "ProtocolConnect"@,
            ProtocolFailure::Control => "ControlConnection"@,
            ProtocolFailure::Data => "DataConnection"@,
            ProtocolFailure::SizeUnsupported => "SizeUnsupported"@,
            ProtocolFailure::ResumeUnsupported => "ResumeUnsupported"@,
            ProtocolFailure::AuthFailure => "AuthFailure"@,
            ProtocolFailure::Malformed => "MalformedProtocol"@,
            ProtocolFailure::Tls => "ProtocolTls"@,
            ProtocolFailure::HostKeyMismatch => "HostKeyMismatch"@,
            ProtocolFailure::HostKeyApprovalRequired => "HostKeyApprovalRequired"@,
            ProtocolFailure::ResourceLimit => "ResourceLimit"@,
            ProtocolFailure::Cancelled => "Cancelled"@,
            ProtocolFailure::Timeout => "ProtocolTimeout"@,
            ProtocolFailure::StaleValidator => "StaleValidator"@,
        }
    }

    /// Whether another attempt may succeed.
    pub open spec fn spec_retryable(self) -> bool {
        self is Connect || self is Control || self is Data || self is Timeout
    }

    /// The class of a failure.
    pub open spec fn spec_kind(self) -> ErrorKind {
        match self {
            ProtocolFailure::UnsafeDestination
            | ProtocolFailure::Tls
            | ProtocolFailure::HostKeyMismatch => ErrorKind::Permission,
            ProtocolFailure::AuthFailure => ErrorKind::NeedsCredentials,
            ProtocolFailure::HostKeyApprovalRequired => ErrorKind::HostKeyApprovalRequired,
            ProtocolFailure::ResourceLimit => ErrorKind::ResourceLimit,
            ProtocolFailure::Cancelled => ErrorKind::Cancelled,
            ProtocolFailure::Timeout => ErrorKind::Timeout,
            ProtocolFailure::StaleValidator => ErrorKind::StaleValidator,
            _ => ErrorKind::Network,
        }
    }

    pub fn code(self) -> (r: &'static str)
        ensures
            r@ == self.spec_code(),
    {
        match self {
            ProtocolFailure::UnsafeDestination => "UnsafeDestination",
            ProtocolFailure::Connect => "ProtocolConnect",
            ProtocolFailure::Control => "ControlConnection",
            ProtocolFailure::Data => "DataConnection",
            ProtocolFailure::SizeUnsupported => "SizeUnsupported",
            ProtocolFailure::ResumeUnsupported => "ResumeUnsupported",
            ProtocolFailure::AuthFailure => "AuthFailure",
            ProtocolFailure::Malformed => "MalformedProtocol",
            ProtocolFailure::Tls => "ProtocolTls",
            ProtocolFailure::HostKeyMismatch => "HostKeyMismatch",
            ProtocolFailure::HostKeyApprovalRequired => "HostKeyApprovalRequired",
            ProtocolFailure::ResourceLimit => "ResourceLimit",
            ProtocolFailure::Cancelled => "Cancelled",
            ProtocolFailure::Timeout => "ProtocolTimeout",
            ProtocolFailure::StaleValidator => "StaleValidator",
        }
    }

    pub fn retryable(self) -> (r: bool)
        ensures
            r == self.spec_retryable(),
    {
        matches!(
            self,
            ProtocolFailure::Connect | ProtocolFailure::Control | ProtocolFailure::Data | ProtocolFailure::Timeout
        )
    }

    /// The failure as it is reported: one that may be retried is retried with
    /// another source.
    pub fn into_public(self) -> (r: PublicError)
        ensures
            r.kind == self.spec_kind(),
            r.message@ == self.spec_code(),
            r.retry == (if self.spec_retryable() {
                RetryClass::AnotherSource
            } else {
                RetryClass::Never
            }),
            r.diagnostic_id is None,
    {
        let kind = match self {
            ProtocolFailure::UnsafeDestination | ProtocolFailure::Tls | ProtocolFailure::HostKeyMismatch => {
                ErrorKind::Permission
            },
            ProtocolFailure::AuthFailure => ErrorKind::NeedsCredentials,
            ProtocolFailure::HostKeyApprovalRequired => ErrorKind::HostKeyApprovalRequired,
            ProtocolFailure::ResourceLimit => ErrorKind::ResourceLimit,
            ProtocolFailure::Cancelled => ErrorKind::Cancelled,
            ProtocolFailure::Timeout => ErrorKind::Timeout,
            ProtocolFailure::StaleValidator => ErrorKind::StaleValidator,
            _ => ErrorKind::Network,
        };
        let retry = if self.retryable() {
            RetryClass::AnotherSource
        } else {
            RetryClass::Never
        };
        PublicError { kind, message: self.code().to_owned(), retry, diagnostic_id: None }
    }
}

/// Failures of security are never retried.
pub proof fn law_security_failures_are_final(failure: ProtocolFailure)
    requires
        failure.spec_kind() == ErrorKind::Permission || failure.spec_kind() == ErrorKind::NeedsCredentials
            || failure.spec_kind() == ErrorKind::HostKeyApprovalRequired,
    ensures
        !failure.spec_retryable(),
{
}

/// A host and port as an address; a numeric address with colons is bracketed.
pub open spec fn authority_text(host: Seq<char>, port: u16) -> Seq<char> {
    if host.contains(':') && !(host.len() > 0 && host[0] == '[') {
        "https://["@ + host + "]:"@ + decimal_digits(port as nat) + "/"@
    } else {
        "https://"@ + host + ":"@ + decimal_digits(port as nat) + "/"@
    }
}

/// A host and port as an address.
pub fn authority_uri(host: &str, port: u16) -> (r: String)
    ensures
        r@ == authority_text(host@, port),
{
    let chars = chars_of(host);
    let mut colon = false;
    let mut i: usize = 0;
    while i < chars.len()
        invariant
            i <= chars.len(),
            chars@ == host@,
            colon == (exists|k: int| 0 <= k < i && #[trigger] chars@[k] == ':'),
        decreases chars.len() - i,
    {
        if chars[i] == ':' {
            colon = true;
        }
        i = i + 1;
    }
    assert(colon == host@.contains(':'));
    if colon && !(chars.len() > 0 && chars[0] == '[') {
        let mut r = "https://[".to_owned();
        r.append(host);
        r.append("]:");
        r.append(decimal_text(port as u64).as_str());
        r.append("/");
        r
    } else {
        let mut r = "https://".to_owned();
        r.append(host);
        r.append(":");
        r.append(decimal_text(port as u64).as_str());
        r.append("/");
        r
    }
}

/// A host without brackets before and after it.
pub open spec fn bare_host(host: Seq<char>) -> Seq<char> {
    without_trailing(without_leading(host, '['), ']')
}

/// Where a transfer connects to.
#[derive(Debug, PartialEq, Eq)]
pub struct ConnectTarget {
    pub host: String,
    pub port: u16,
}

/// The host and port that the parts of an address name: its protocol is known,
/// it has a host, and its port is not zero.
pub open spec fn target_of(parts: UrlPartsView, table: ProtocolTable) -> Option<(Seq<char>, u16)> {
    match (table.spec_parse(parts.scheme), parts.host) {
        (Some(protocol), Some(host)) => {
            let port = match parts.port {
                Some(port) => port,
                None => protocol.default_port,
            };
            if port == 0 {
                None
            } else {
                Some((bare_host(host), port))
            }
        },
        _ => None,
    }
}


/// What connecting to an address starts from.
pub open spec fn targeted(target: Option<(Seq<char>, u16)>, r: Result<ConnectTarget, ProtocolFailure>) -> bool {
    match target {
        Some((host, port)) => r is Ok && r->Ok_0.host@ == host && r->Ok_0.port == port,
        None => r == Err::<ConnectTarget, ProtocolFailure>(ProtocolFailure::UnsafeDestination),
    }
}

/// The target of a parsed address.
pub fn parts_target(parts: &UrlParts, table: &ProtocolTable) -> (r: Result<ConnectTarget, ProtocolFailure>)
    ensures
        targeted(target_of(parts@, *table), r),
{
    let protocol = match table.parse(parts.scheme.as_str()) {
        Some(protocol) => protocol,
        None => return Err(ProtocolFailure::UnsafeDestination),
    };
    let host = match &parts.host {
        Some(host) => host,
        None => return Err(ProtocolFailure::UnsafeDestination),
    };
    let port: u16 = match parts.port {
        Some(port) => port,
        None => protocol.default_port,
    };
    if port == 0 {
        return Err(ProtocolFailure::UnsafeDestination);
    }
    let bare = strip_around(&chars_of(host.as_str()), '[', ']');
    Ok(ConnectTarget { host: text_of(&bare), port })
}

/// The target of an address.
pub fn connect_target(uri: &str, table: &ProtocolTable) -> (r: Result<ConnectTarget, ProtocolFailure>)
    ensures
        targeted(
            match parsed_url(uri@) {
                Ok(parts) => target_of(parts, *table),
                Err(_) => None,
            },
            r,
        ),
{
    match parse_url(uri) {
        Ok(parts) => parts_target(&parts, table),
        Err(_) => Err(ProtocolFailure::UnsafeDestination),
    }
}

/// The address that is resolved: that of a pinned peer, or that of the target.
pub fn resolution_uri(target: &ConnectTarget, pinned: Option<&ConnectTarget>) -> (r: String)
    ensures
        r@ == (match pinned {
            Some(peer) => authority_text(peer.host@, peer.port),
            None => authority_text(target.host@, target.port),
        }),
{
    match pinned {
        Some(peer) => authority_uri(peer.host.as_str(), peer.port),
        None => authority_uri(target.host.as_str(), target.port),
    }
}

/// How a destination is reached.
#[derive(Clone, Copy, Debug, PartialEq, Eq, Structural)]
pub enum ConnectRoute {
    Direct,
    HttpConnect,
    Socks5,
    HttpForward,
}

/// What a connection attempt waits for.
#[derive(Clone, Copy, Debug, PartialEq, Eq, Structural)]
pub enum ConnectStage {
    /// The target is being resolved.
    Resolving,
    /// A route to the first of so many addresses is being chosen.
    Routing { addresses: usize },
    /// Room for a connection is being taken; `more` if another is needed for
    /// the attempt.
    Acquiring { held: usize, more: bool },
    /// The addresses are being tried.
    Connecting { held: usize },
    /// The proxy is being resolved.
    ResolvingProxy,
    /// The proxy is being connected to.
    ConnectingProxy,
    Ended,
}

/// What came of the last action of a connection attempt.
#[derive(Clone, Copy, Debug, PartialEq, Eq, Structural)]
pub enum ConnectEvent {
    Resolved { addresses: usize },
    Routed(ConnectRoute),
    Acquired,
    Connected,
    Failed,
}

/// What a connection attempt does next.
#[derive(Clone, Copy, Debug, PartialEq, Eq, Structural)]
pub enum ConnectAction {
    Resolve,
    Route,
    Acquire,
    ConnectDirect,
    ResolveProxy,
    ConnectProxy,
    /// The connection stands. It keeps `kept` of the connections that were
    /// taken for it; the others are given back. Its peer is the one that
    /// answered, or behind a proxy the first resolved one.
    Finish { proxied: bool, kept: usize },
    /// All that was taken is given back.
    Fail(ProtocolFailure),
}

/// A connection attempt.
#[derive(Clone, Copy, Debug, PartialEq, Eq, Structural)]
pub struct ProtocolConnect {
    pub stage: ConnectStage,
}

impl ProtocolConnect {
    /// The attempt and its next action after an event.
    pub open spec fn stepped(self, event: ConnectEvent) -> (ProtocolConnect, ConnectAction) {
        match (self.stage, event) {
            (ConnectStage::Resolving, ConnectEvent::Resolved { addresses }) => (
                ProtocolConnect { stage: ConnectStage::Routing { addresses } },
                ConnectAction::Route,
            ),
            (ConnectStage::Routing { addresses }, ConnectEvent::Routed(route)) => match route {
                ConnectRoute::Direct => (
                    ProtocolConnect { stage: ConnectStage::Acquiring { held: 0, more: addresses > 1 } },
                    ConnectAction::Acquire,
                ),
                ConnectRoute::HttpConnect | ConnectRoute::Socks5 => (
                    ProtocolConnect { stage: ConnectStage::ResolvingProxy },
                    ConnectAction::ResolveProxy,
                ),
                ConnectRoute::HttpForward => (
                    ProtocolConnect { stage: ConnectStage::Ended },
                    ConnectAction::Fail(ProtocolFailure::UnsafeDestination),
                ),
            },
            (ConnectStage::Acquiring { held, more }, ConnectEvent::Acquired) => if more {
                (ProtocolConnect { stage: ConnectStage::Acquiring { held: 1, more: false } }, ConnectAction::Acquire)
            } else {
                (
                    ProtocolConnect {
                        stage: ConnectStage::Connecting {
                            held: if held == 0 {
                                1
                            } else {
                                2
                            },
                        },
                    },
                    ConnectAction::ConnectDirect,
                )
            },
            (ConnectStage::Connecting { held }, ConnectEvent::Connected) => (
                ProtocolConnect { stage: ConnectStage::Ended },
                ConnectAction::Finish { proxied: false, kept: 1 },
            ),
            (ConnectStage::ResolvingProxy, ConnectEvent::Resolved { addresses }) => (
                ProtocolConnect { stage: ConnectStage::ConnectingProxy },
                ConnectAction::ConnectProxy,
            ),
            (ConnectStage::ConnectingProxy, ConnectEvent::Connected) => (
                ProtocolConnect { stage: ConnectStage::Ended },
                ConnectAction::Finish { proxied: true, kept: 1 },
            ),
            (stage, _) => (
                ProtocolConnect { stage: ConnectStage::Ended },
                ConnectAction::Fail(stage.failure()),
            ),
        }
    }

    /// Starts an attempt.
    pub fn new() -> (r: (ProtocolConnect, ConnectAction))
        ensures
            r == ((ProtocolConnect { stage: ConnectStage::Resolving }), ConnectAction::Resolve),
    {
        (ProtocolConnect { stage: ConnectStage::Resolving }, ConnectAction::Resolve)
    }

    /// Takes the attempt one step on.
    pub fn step(&mut self, event: ConnectEvent) -> (r: ConnectAction)
        ensures
            (*final(self), r) == old(self).stepped(event),
    {
        let (stage, action) = match (self.stage, event) {
            (ConnectStage::Resolving, ConnectEvent::Resolved { addresses }) => {
                (ConnectStage::Routing { addresses }, ConnectAction::Route)
            },
            (ConnectStage::Routing { addresses }, ConnectEvent::Routed(route)) => match route {
                ConnectRoute::Direct => {
                    (ConnectStage::Acquiring { held: 0, more: addresses > 1 }, ConnectAction::Acquire)
                },
                ConnectRoute::HttpConnect | ConnectRoute::Socks5 => {
                    (ConnectStage::ResolvingProxy, ConnectAction::ResolveProxy)
                },
                ConnectRoute::HttpForward => {
                    (ConnectStage::Ended, ConnectAction::Fail(ProtocolFailure::UnsafeDestination))
                },
            },
            (ConnectStage::Acquiring { held, more }, ConnectEvent::Acquired) => {
                if more {
                    (ConnectStage::Acquiring { held: 1, more: false }, ConnectAction::Acquire)
                } else if held == 0 {
                    (ConnectStage::Connecting { held: 1 }, ConnectAction::ConnectDirect)
                } else {
                    (ConnectStage::Connecting { held: 2 }, ConnectAction::ConnectDirect)
                }
            },
            (ConnectStage::Connecting { .. }, ConnectEvent::Connected) => {
                (ConnectStage::Ended, ConnectAction::Finish { proxied: false, kept: 1 })
            },
            (ConnectStage::ResolvingProxy, ConnectEvent::Resolved { .. }) => {
                (ConnectStage::ConnectingProxy, ConnectAction::ConnectProxy)
            },
            (ConnectStage::ConnectingProxy, ConnectEvent::Connected) => {
                (ConnectStage::Ended, ConnectAction::Finish { proxied: true, kept: 1 })
            },
            (stage, _) => (ConnectStage::Ended, ConnectAction::Fail(stage.reason())),
        };
        self.stage = stage;
        action
    }
}

impl ConnectStage {
    /// Why an attempt fails that goes no further from here.
    pub open spec fn failure(self) -> ProtocolFailure {
        match self {
            ConnectStage::Acquiring { .. } => ProtocolFailure::ResourceLimit,
            ConnectStage::Connecting { .. } | ConnectStage::ConnectingProxy | ConnectStage::Ended => {
                ProtocolFailure::Connect
            },
            _ => ProtocolFailure::UnsafeDestination,
        }
    }

    /// Why an attempt fails that goes no further from here.
    fn reason(self) -> (r: ProtocolFailure)
        ensures
            r == self.failure(),
    {
        match self {
            ConnectStage::Acquiring { .. } => ProtocolFailure::ResourceLimit,
            ConnectStage::Connecting { .. } | ConnectStage::ConnectingProxy | ConnectStage::Ended => {
                ProtocolFailure::Connect
            },
            _ => ProtocolFailure::UnsafeDestination,
        }
    }
}

/// The attempt and the last action after a run of events.
pub open spec fn connect_run(events: Seq<ConnectEvent>) -> (ProtocolConnect, ConnectAction)
    decreases events.len(),
{
    if events.len() == 0 {
        (ProtocolConnect { stage: ConnectStage::Resolving }, ConnectAction::Resolve)
    } else {
        connect_run(events.drop_last()).0.stepped(events.last())
    }
}

/// Before any socket is opened to a destination, the destination has been
/// resolved under the policy and a route to it has been chosen; a direct socket
/// is opened only on a direct route, one to a proxy only on a proxy's route
/// after the proxy has been resolved.
pub proof fn law_policy_comes_before_the_socket(events: Seq<ConnectEvent>)
    ensures
        connect_run(events).1 is ConnectDirect ==> 3 <= events.len() && events[0] is Resolved && events[1]
            == ConnectEvent::Routed(ConnectRoute::Direct) && events[2] is Acquired,
        connect_run(events).1 is ConnectProxy ==> 3 <= events.len() && events[0] is Resolved && (events[1]
            == ConnectEvent::Routed(ConnectRoute::HttpConnect) || events[1] == ConnectEvent::Routed(
            ConnectRoute::Socks5,
        )) && events[2] is Resolved,
{
    lemma_connect_course(events);
}

/// What led to each stage of an attempt.
proof fn lemma_connect_course(events: Seq<ConnectEvent>)
    ensures
        match connect_run(events).0.stage {
            ConnectStage::Resolving => events.len() == 0,
            ConnectStage::Routing { .. } => events.len() == 1 && events[0] is Resolved,
            ConnectStage::Acquiring { held, more } => 2 <= events.len() && events[0] is Resolved && events[1]
                == ConnectEvent::Routed(ConnectRoute::Direct) && (held == 0 || (3 <= events.len() && events[2]
                is Acquired)) && (held == 0 ==> events.len() == 2),
            ConnectStage::Connecting { .. } => 3 <= events.len() && events[0] is Resolved && events[1]
                == ConnectEvent::Routed(ConnectRoute::Direct) && events[2] is Acquired,
            ConnectStage::ResolvingProxy => events.len() == 2 && events[0] is Resolved && (events[1]
                == ConnectEvent::Routed(ConnectRoute::HttpConnect) || events[1] == ConnectEvent::Routed(
                ConnectRoute::Socks5,
            )),
            ConnectStage::ConnectingProxy => events.len() == 3 && events[0] is Resolved && (events[1]
                == ConnectEvent::Routed(ConnectRoute::HttpConnect) || events[1] == ConnectEvent::Routed(
                ConnectRoute::Socks5,
            )) && events[2] is Resolved,
            ConnectStage::Ended => true,
        },
        connect_run(events).1 is ConnectDirect ==> connect_run(events).0.stage is Connecting,
        connect_run(events).1 is ConnectProxy ==> connect_run(events).0.stage is ConnectingProxy,
    decreases events.len(),
{
    if events.len() > 0 {
        lemma_connect_course(events.drop_last());
    }
}

} // verus!
