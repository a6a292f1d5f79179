//! The steps by which a session over SSH is opened and ended.
use vstd::prelude::*;
use vstd::utf8::{decode_utf8, valid_utf8};
use crate::known_hosts::MAX_RETAINED_KNOWN_HOSTS_BYTES;
use crate::sftp::{
    read_cap, read_limit, ChannelReply, FileFacts, ProtocolValidator, MAX_AGENT_IDENTITIES, MAX_HANDLE_BYTES,
    SUBSYSTEM_MESSAGES,
};
use crate::text::utf8_text;
use crate::transport::ProtocolFailure;

verus! {

/// What is reserved for the window and the queues of a connection.
pub const CONNECTION_BYTES: usize = 4_194_304;

/// What is reserved while known hosts are read, besides what they may keep.
pub const TRUST_SCRATCH_BYTES: usize = 262_144;

/// The most bytes of a private key.
pub const MAX_PRIVATE_KEY_BYTES: usize = 1_048_576;

/// What is reserved while a private key is read, besides its bytes.
pub const KEY_SCRATCH_BYTES: usize = 65_536;

/// The version of the protocol.
pub const SFTP_VERSION: u32 = 3;

/// What a session may use to authenticate, and its limits.
#[derive(Clone, Copy, Debug, PartialEq, Eq, Structural)]
pub struct SftpOptions {
    pub private_key: bool,
    pub agent: bool,
    pub max_read: usize,
    pub max_packet: usize,
}

/// What a server says to an attempt to authenticate: success, or which methods
/// are left.
#[derive(Clone, Copy, Debug, PartialEq, Eq, Structural)]
pub enum AuthReply {
    Success,
    Failure { public_key: bool, password: bool, keyboard: bool },
}

impl AuthReply {
    pub open spec fn offers_key(self) -> bool {
        self is Failure && self->public_key
    }

    pub open spec fn offers_password(self) -> bool {
        self is Failure && self->password
    }

    pub open spec fn offers_keyboard(self) -> bool {
        self is Failure && self->keyboard
    }

    fn key_left(self) -> (r: bool)
        ensures
            r == self.offers_key(),
    {
        matches!(self, AuthReply::Failure { public_key: true, .. })
    }

    fn password_left(self) -> (r: bool)
        ensures
            r == self.offers_password(),
    {
        matches!(self, AuthReply::Failure { password: true, .. })
    }

    fn keyboard_left(self) -> (r: bool)
        ensures
            r == self.offers_keyboard(),
    {
        matches!(self, AuthReply::Failure { keyboard: true, .. })
    }
}

/// What opening a session waits for.
#[derive(Clone, Copy, Debug, PartialEq, Eq, Structural)]
pub enum SftpStage {
    Metadata,
    Trust,
    Socket,
    Handshake,
    Credentials,
    AuthNone { password: bool },
    LoadKey { password: bool },
    PublicKey { password: bool },
    AgentSlot { password: bool, reply: AuthReply },
    Agent { password: bool },
    Password { password: bool },
    KeyboardStart,
    KeyboardRespond,
    Channel,
    Subsystem,
    Reply { remaining: usize },
    Ingress,
    Init,
    Limits,
    OpenFile { cap: usize },
    Stat { cap: usize },
    Ended,
}

/// What came of the last action.
#[derive(Clone, Copy, Debug, PartialEq, Eq, Structural)]
pub enum SftpEvent {
    Done,
    /// The credentials were found, with a password or without.
    Found { password: bool },
    Answered(AuthReply),
    /// The server accepted what was typed.
    KeyboardSuccess,
    /// The server asks; `password` if it asks for the password alone.
    KeyboardQuestion { password: bool },
    KeyboardFailure,
    Message(ChannelReply),
    /// The server's version, whether it states limits, and the bytes of a packet.
    Version { version: u32, limits: bool, packet: u32 },
    /// The most bytes of a read that the server states, and the bytes of a packet.
    ServerLimits { max_read: u64, packet: u32 },
    /// The file was opened under a handle of so many bytes.
    Opened { handle: usize },
    Validated(ProtocolValidator),
    /// The action failed in a way of its own.
    Failed(ProtocolFailure),
    /// The call that the action makes failed.
    Refused,
    TimedOut,
    Cancelled,
}

/// Why opening a session failed.
#[derive(Clone, Copy, Debug, PartialEq, Eq, Structural)]
pub enum SftpCause {
    /// The transfer was cancelled before there was a connection.
    Cancelled,
    Protocol(ProtocolFailure),
    /// The handshake failed: what was found of the host's key comes first.
    Handshake(ProtocolFailure),
}

/// What is given up when opening a session fails, in this order.
#[derive(Clone, Copy, Debug, PartialEq, Eq, Structural)]
pub struct SftpRelease {
    /// The requests to the server are drained.
    pub requests: bool,
    /// The client that speaks SSH is dropped.
    pub client: bool,
    /// The socket is closed and drained.
    pub socket: bool,
}

/// What opening a session does next.
#[derive(Clone, Copy, Debug, PartialEq, Eq, Structural)]
pub enum SftpAction {
    AcquireMetadata { bytes: usize },
    LoadTrust { bytes: usize },
    Connect,
    Handshake,
    LoadCredentials,
    AuthenticateNone,
    /// The private key is read, with so many bytes reserved meanwhile.
    LoadKey { bytes: usize },
    AuthenticateKey,
    AcquireAgent,
    /// The agent's identities are tried from the given reply on.
    AuthenticateAgent(AuthReply),
    AuthenticatePassword,
    StartKeyboard,
    RespondKeyboard,
    OpenChannel,
    RequestSubsystem,
    Wait,
    AcquireIngress { bytes: usize },
    Initialize,
    ReadLimits,
    OpenFile,
    Stat,
    Finish { validator: ProtocolValidator, max_read: usize },
    Fail { cause: SftpCause, release: SftpRelease },
}

impl SftpStage {
    /// What has to be given up at a stage.
    pub open spec fn release(self) -> SftpRelease {
        match self {
            SftpStage::Metadata | SftpStage::Trust | SftpStage::Socket | SftpStage::Ended => SftpRelease {
                requests: false,
                client: false,
                socket: false,
            },
            SftpStage::Handshake => SftpRelease { requests: false, client: false, socket: true },
            SftpStage::Init | SftpStage::Limits | SftpStage::OpenFile { .. } | SftpStage::Stat { .. } => SftpRelease {
                requests: true,
                client: false,
                socket: true,
            },
            _ => SftpRelease { requests: false, client: true, socket: true },
        }
    }

    /// The failure of a call at a stage.
    pub open spec fn refusal(self) -> ProtocolFailure {
        match self {
            SftpStage::Metadata | SftpStage::AgentSlot { .. } | SftpStage::Ingress => ProtocolFailure::ResourceLimit,
            SftpStage::Socket | SftpStage::Handshake => ProtocolFailure::Connect,
            SftpStage::Channel | SftpStage::Subsystem | SftpStage::Reply { .. } => ProtocolFailure::Control,
            SftpStage::Trust | SftpStage::Init | SftpStage::Limits | SftpStage::OpenFile { .. } | SftpStage::Stat {
                ..
            } | SftpStage::Ended => ProtocolFailure::Malformed,
            _ => ProtocolFailure::AuthFailure,
        }
    }

    /// How a stage ends without success.
    pub open spec fn failed(self, failure: ProtocolFailure) -> (SftpStage, SftpAction) {
        (
            SftpStage::Ended,
            SftpAction::Fail {
                cause: if self is Handshake {
                    SftpCause::Handshake(failure)
                } else {
                    SftpCause::Protocol(failure)
                },
                release: self.release(),
            },
        )
    }

    fn given_up(self) -> (r: SftpRelease)
        ensures
            r == self.release(),
    {
        match self {
            SftpStage::Metadata | SftpStage::Trust | SftpStage::Socket | SftpStage::Ended => SftpRelease {
                requests: false,
                client: false,
                socket: false,
            },
            SftpStage::Handshake => SftpRelease { requests: false, client: false, socket: true },
            SftpStage::Init | SftpStage::Limits | SftpStage::OpenFile { .. } | SftpStage::Stat { .. } => SftpRelease {
                requests: true,
                client: false,
                socket: true,
            },
            _ => SftpRelease { requests: false, client: true, socket: true },
        }
    }

    fn refused(self) -> (r: ProtocolFailure)
        ensures
            r == self.refusal(),
    {
        match self {
            SftpStage::Metadata | SftpStage::AgentSlot { .. } | SftpStage::Ingress => ProtocolFailure::ResourceLimit,
            SftpStage::Socket | SftpStage::Handshake => ProtocolFailure::Connect,
            SftpStage::Channel | SftpStage::Subsystem | SftpStage::Reply { .. } => ProtocolFailure::Control,
            SftpStage::Trust | SftpStage::Init | SftpStage::Limits | SftpStage::OpenFile { .. } | SftpStage::Stat {
                ..
            } | SftpStage::Ended => ProtocolFailure::Malformed,
            _ => ProtocolFailure::AuthFailure,
        }
    }

    fn fail(self, failure: ProtocolFailure) -> (r: (SftpStage, SftpAction))
        ensures
            r == self.failed(failure),
    {
        let cause = if matches!(self, SftpStage::Handshake) {
            SftpCause::Handshake(failure)
        } else {
            SftpCause::Protocol(failure)
        };
        (SftpStage::Ended, SftpAction::Fail { cause, release: self.given_up() })
    }
}

/// What follows once all methods have been tried.
pub open spec fn authenticated(stage: SftpStage, success: bool) -> (SftpStage, SftpAction) {
    if success {
        (SftpStage::Channel, SftpAction::OpenChannel)
    } else {
        stage.failed(ProtocolFailure::AuthFailure)
    }
}

/// What follows a reply once a password has been tried, or could not be.
pub open spec fn after_password(stage: SftpStage, password: bool, reply: AuthReply) -> (SftpStage, SftpAction) {
    if reply.offers_keyboard() && password {
        (SftpStage::KeyboardStart, SftpAction::StartKeyboard)
    } else {
        authenticated(stage, reply is Success)
    }
}

/// What follows a reply once the agent has been tried, or could not be.
pub open spec fn after_agent(stage: SftpStage, password: bool, reply: AuthReply) -> (SftpStage, SftpAction) {
    if reply.offers_password() && password {
        (SftpStage::Password { password }, SftpAction::AuthenticatePassword)
    } else {
        after_password(stage, password, reply)
    }
}

/// What follows a reply once a private key has been tried, or could not be.
pub open spec fn after_key(stage: SftpStage, options: SftpOptions, password: bool, reply: AuthReply) -> (
    SftpStage,
    SftpAction,
) {
    if reply.offers_key() && options.agent {
        (SftpStage::AgentSlot { password, reply }, SftpAction::AcquireAgent)
    } else {
        after_agent(stage, password, reply)
    }
}

/// What follows the reply to an attempt without credentials.
pub open spec fn after_none(stage: SftpStage, options: SftpOptions, password: bool, reply: AuthReply) -> (
    SftpStage,
    SftpAction,
) {
    if reply.offers_key() && options.private_key {
        (
            SftpStage::LoadKey { password },
            SftpAction::LoadKey { bytes: (MAX_PRIVATE_KEY_BYTES + KEY_SCRATCH_BYTES) as usize },
        )
    } else {
        after_key(stage, options, password, reply)
    }
}

/// What follows once the server's limits are known.
pub open spec fn after_limits(stage: SftpStage, options: SftpOptions, server: Option<u64>, packet: u32) -> (
    SftpStage,
    SftpAction,
) {
    let cap = read_limit(options.max_read, server, packet);
    if cap == 0 {
        stage.failed(ProtocolFailure::ResourceLimit)
    } else {
        (SftpStage::OpenFile { cap: cap as usize }, SftpAction::OpenFile)
    }
}

/// The next stage and action of opening a session.
pub open spec fn sftp_step(stage: SftpStage, options: SftpOptions, event: SftpEvent) -> (SftpStage, SftpAction) {
    match (stage, event) {
        (SftpStage::Socket, SftpEvent::Cancelled) => (
            SftpStage::Ended,
            SftpAction::Fail { cause: SftpCause::Cancelled, release: stage.release() },
        ),
        (_, SftpEvent::Cancelled) => stage.failed(ProtocolFailure::Cancelled),
        (_, SftpEvent::TimedOut) => stage.failed(ProtocolFailure::Timeout),
        (_, SftpEvent::Failed(failure)) => stage.failed(failure),
        (_, SftpEvent::Refused) => stage.failed(stage.refusal()),
        (SftpStage::Metadata, SftpEvent::Done) => (
            SftpStage::Trust,
            SftpAction::LoadTrust { bytes: (MAX_RETAINED_KNOWN_HOSTS_BYTES + TRUST_SCRATCH_BYTES) as usize },
        ),
        (SftpStage::Trust, SftpEvent::Done) => (SftpStage::Socket, SftpAction::Connect),
        (SftpStage::Socket, SftpEvent::Done) => (SftpStage::Handshake, SftpAction::Handshake),
        (SftpStage::Handshake, SftpEvent::Done) => (SftpStage::Credentials, SftpAction::LoadCredentials),
        (SftpStage::Credentials, SftpEvent::Found { password }) => (
            SftpStage::AuthNone { password },
            SftpAction::AuthenticateNone,
        ),
        (SftpStage::AuthNone { password }, SftpEvent::Answered(reply)) => after_none(stage, options, password, reply),
        (SftpStage::LoadKey { password }, SftpEvent::Done) => (
            SftpStage::PublicKey { password },
            SftpAction::AuthenticateKey,
        ),
        (SftpStage::PublicKey { password }, SftpEvent::Answered(reply)) => after_key(stage, options, password, reply),
        (SftpStage::AgentSlot { password, reply }, SftpEvent::Done) => (
            SftpStage::Agent { password },
            SftpAction::AuthenticateAgent(reply),
        ),
        (SftpStage::Agent { password }, SftpEvent::Answered(reply)) => after_agent(stage, password, reply),
        (SftpStage::Password { password }, SftpEvent::Answered(reply)) => after_password(stage, password, reply),
        (SftpStage::KeyboardStart, SftpEvent::KeyboardSuccess) => authenticated(stage, true),
        (SftpStage::KeyboardStart, SftpEvent::KeyboardQuestion { password }) => if password {
            (SftpStage::KeyboardRespond, SftpAction::RespondKeyboard)
        } else {
            authenticated(stage, false)
        },
        (SftpStage::KeyboardStart, SftpEvent::KeyboardFailure) => authenticated(stage, false),
        (SftpStage::KeyboardRespond, SftpEvent::KeyboardSuccess) => authenticated(stage, true),
        (SftpStage::KeyboardRespond, SftpEvent::KeyboardQuestion { .. }) => authenticated(stage, false),
        (SftpStage::KeyboardRespond, SftpEvent::KeyboardFailure) => authenticated(stage, false),
        (SftpStage::Channel, SftpEvent::Done) => (SftpStage::Subsystem, SftpAction::RequestSubsystem),
        (SftpStage::Subsystem, SftpEvent::Done) => (
            SftpStage::Reply { remaining: SUBSYSTEM_MESSAGES },
            SftpAction::Wait,
        ),
        (SftpStage::Reply { remaining }, SftpEvent::Message(message)) => if remaining == 0 {
            stage.failed(ProtocolFailure::Control)
        } else {
            match message {
                ChannelReply::Success => (
                    SftpStage::Ingress,
                    SftpAction::AcquireIngress {
                        bytes: if 2 * options.max_packet > usize::MAX {
                            usize::MAX
                        } else {
                            (2 * options.max_packet) as usize
                        },
                    },
                ),
                ChannelReply::WindowAdjusted => (
                    SftpStage::Reply { remaining: (remaining - 1) as usize },
                    SftpAction::Wait,
                ),
                _ => stage.failed(ProtocolFailure::Control),
            }
        },
        (SftpStage::Ingress, SftpEvent::Done) => (SftpStage::Init, SftpAction::Initialize),
        (SftpStage::Init, SftpEvent::Version { version, limits, packet }) => if version != SFTP_VERSION {
            stage.failed(ProtocolFailure::Malformed)
        } else if limits {
            (SftpStage::Limits, SftpAction::ReadLimits)
        } else {
            after_limits(stage, options, None, packet)
        },
        (SftpStage::Limits, SftpEvent::ServerLimits { max_read, packet }) => after_limits(
            stage,
            options,
            Some(max_read),
            packet,
        ),
        (SftpStage::OpenFile { cap }, SftpEvent::Opened { handle }) => if handle == 0 || handle > MAX_HANDLE_BYTES {
            stage.failed(ProtocolFailure::Malformed)
        } else {
            (SftpStage::Stat { cap }, SftpAction::Stat)
        },
        (SftpStage::Stat { cap }, SftpEvent::Validated(validator)) => (
            SftpStage::Ended,
            SftpAction::Finish { validator, max_read: cap },
        ),
        _ => stage.failed(ProtocolFailure::Malformed),
    }
}

fn authenticate(stage: SftpStage, success: bool) -> (r: (SftpStage, SftpAction))
    ensures
        r == authenticated(stage, success),
{
    if success {
        (SftpStage::Channel, SftpAction::OpenChannel)
    } else {
        stage.fail(ProtocolFailure::AuthFailure)
    }
}

fn follow_password(stage: SftpStage, password: bool, reply: AuthReply) -> (r: (SftpStage, SftpAction))
    ensures
        r == after_password(stage, password, reply),
{
    if reply.keyboard_left() && password {
        (SftpStage::KeyboardStart, SftpAction::StartKeyboard)
    } else {
        authenticate(stage, matches!(reply, AuthReply::Success))
    }
}

fn follow_agent(stage: SftpStage, password: bool, reply: AuthReply) -> (r: (SftpStage, SftpAction))
    ensures
        r == after_agent(stage, password, reply),
{
    if reply.password_left() && password {
        (SftpStage::Password { password }, SftpAction::AuthenticatePassword)
    } else {
        follow_password(stage, password, reply)
    }
}

fn follow_key(stage: SftpStage, options: SftpOptions, password: bool, reply: AuthReply) -> (r: (SftpStage, SftpAction))
    ensures
        r == after_key(stage, options, password, reply),
{
    if reply.key_left() && options.agent {
        (SftpStage::AgentSlot { password, reply }, SftpAction::AcquireAgent)
    } else {
        follow_agent(stage, password, reply)
    }
}

fn follow_none(stage: SftpStage, options: SftpOptions, password: bool, reply: AuthReply) -> (r: (
    SftpStage,
    SftpAction,
))
    ensures
        r == after_none(stage, options, password, reply),
{
    if reply.key_left() && options.private_key {
        (SftpStage::LoadKey { password }, SftpAction::LoadKey { bytes: MAX_PRIVATE_KEY_BYTES + KEY_SCRATCH_BYTES })
    } else {
        follow_key(stage, options, password, reply)
    }
}

fn follow_limits(stage: SftpStage, options: SftpOptions, server: Option<u64>, packet: u32) -> (r: (
    SftpStage,
    SftpAction,
))
    ensures
        r == after_limits(stage, options, server, packet),
{
    match read_cap(options.max_read, server, packet) {
        Ok(cap) => (SftpStage::OpenFile { cap }, SftpAction::OpenFile),
        Err(failure) => stage.fail(failure),
    }
}

/// A private key of SSH.
#[verifier::external_type_specification]
#[verifier::external_body]
pub struct ExPrivateKey(russh::keys::PrivateKey);

/// What a passphrase holds, where one is given.
pub open spec fn phrase_view(passphrase: Option<&str>) -> Option<Seq<char>> {
    match passphrase {
        Some(phrase) => Some(phrase@),
        None => None,
    }
}

/// The private key that a text holds and a passphrase, or none, opens, if there is
/// one, as `russh::keys::decode_secret_key` reads it.
pub uninterp spec fn decoded_key(text: Seq<char>, passphrase: Option<Seq<char>>) -> Option<russh::keys::PrivateKey>;

/// Whether a text holds a private key that a passphrase, or none, opens.
pub open spec fn opens_key(text: Seq<char>, passphrase: Option<Seq<char>>) -> bool {
    decoded_key(text, passphrase) is Some
}

/// The private key that a text holds, by `russh::keys::decode_secret_key`: which one
/// it is, if there is one, depends on the text and the passphrase alone.
#[verifier::external_body]
fn decode_key(text: &str, passphrase: Option<&str>) -> (r: Option<russh::keys::PrivateKey>)
    ensures
        r == decoded_key(text@, phrase_view(passphrase)),
{
    russh::keys::decode_secret_key(text, passphrase).ok()
}

/// Whether bytes hold a private key that a passphrase, or none, opens.
pub open spec fn holds_key(bytes: Seq<u8>, passphrase: Option<Seq<char>>) -> bool {
    valid_utf8(bytes) && opens_key(decode_utf8(bytes), passphrase)
}

/// The private key that the bytes of a file hold: too many bytes are refused as
/// such, and whatever holds no key that the passphrase opens cannot authenticate.
pub fn read_private_key(bytes: &[u8], passphrase: Option<&str>) -> (r: Result<
    russh::keys::PrivateKey,
    ProtocolFailure,
>)
    ensures
        r is Ok <==> bytes@.len() <= MAX_PRIVATE_KEY_BYTES && holds_key(bytes@, phrase_view(passphrase)),
        r matches Ok(key) ==> decoded_key(decode_utf8(bytes@), phrase_view(passphrase)) == Some(key),
        r matches Err(failure) ==> failure == if bytes@.len() > MAX_PRIVATE_KEY_BYTES {
            ProtocolFailure::ResourceLimit
        } else {
            ProtocolFailure::AuthFailure
        },
{
    if bytes.len() > MAX_PRIVATE_KEY_BYTES {
        return Err(ProtocolFailure::ResourceLimit);
    }
    let text = match utf8_text(bytes) {
        Some(text) => text,
        None => return Err(ProtocolFailure::AuthFailure),
    };
    match decode_key(text, passphrase) {
        Some(key) => Ok(key),
        None => Err(ProtocolFailure::AuthFailure),
    }
}

/// What came of loading a private key from the bytes of a file.
pub open spec fn key_event(bytes: Seq<u8>, passphrase: Option<Seq<char>>) -> SftpEvent {
    if bytes.len() > MAX_PRIVATE_KEY_BYTES {
        SftpEvent::Failed(ProtocolFailure::ResourceLimit)
    } else if holds_key(bytes, passphrase) {
        SftpEvent::Done
    } else {
        SftpEvent::Failed(ProtocolFailure::AuthFailure)
    }
}

/// The opening of a session.
#[derive(Clone, Copy, Debug, PartialEq, Eq, Structural)]
pub struct SftpConnect {
    pub stage: SftpStage,
    pub options: SftpOptions,
}

impl SftpConnect {
    /// Starts to open a session.
    pub fn connect(options: SftpOptions) -> (r: (Self, SftpAction))
        ensures
            r == ((SftpConnect { stage: SftpStage::Metadata, options }), (SftpAction::AcquireMetadata {
                bytes: CONNECTION_BYTES,
            })),
    {
        (
            SftpConnect { stage: SftpStage::Metadata, options },
            SftpAction::AcquireMetadata { bytes: CONNECTION_BYTES },
        )
    }

    /// Takes the opening one step on with the bytes of the file that holds the
    /// private key, and gives the key where they hold one.
    pub fn load_key(&mut self, bytes: &[u8], passphrase: Option<&str>) -> (r: (
        SftpAction,
        Option<russh::keys::PrivateKey>,
    ))
        ensures
            final(self).options == old(self).options,
            (final(self).stage, r.0) == sftp_step(
                old(self).stage,
                old(self).options,
                key_event(bytes@, phrase_view(passphrase)),
            ),
            r.1 == (if key_event(bytes@, phrase_view(passphrase)) is Done {
                decoded_key(decode_utf8(bytes@), phrase_view(passphrase))
            } else {
                None
            }),
    {
        match read_private_key(bytes, passphrase) {
            Ok(key) => (self.step(SftpEvent::Done), Some(key)),
            Err(failure) => (self.step(SftpEvent::Failed(failure)), None),
        }
    }

    /// Takes the opening one step on.
    pub fn step(&mut self, event: SftpEvent) -> (r: SftpAction)
        ensures
            final(self).options == old(self).options,
            (final(self).stage, r) == sftp_step(old(self).stage, old(self).options, event),
    {
        let stage = self.stage;
        let options = self.options;
        let (next, action) = match (stage, event) {
            (SftpStage::Socket, SftpEvent::Cancelled) => (
                SftpStage::Ended,
                SftpAction::Fail { cause: SftpCause::Cancelled, release: stage.given_up() },
            ),
            (_, SftpEvent::Cancelled) => stage.fail(ProtocolFailure::Cancelled),
            (_, SftpEvent::TimedOut) => stage.fail(ProtocolFailure::Timeout),
            (_, SftpEvent::Failed(failure)) => stage.fail(failure),
            (_, SftpEvent::Refused) => stage.fail(stage.refused()),
            (SftpStage::Metadata, SftpEvent::Done) => (
                SftpStage::Trust,
                SftpAction::LoadTrust { bytes: MAX_RETAINED_KNOWN_HOSTS_BYTES + TRUST_SCRATCH_BYTES },
            ),
            (SftpStage::Trust, SftpEvent::Done) => (SftpStage::Socket, SftpAction::Connect),
            (SftpStage::Socket, SftpEvent::Done) => (SftpStage::Handshake, SftpAction::Handshake),
            (SftpStage::Handshake, SftpEvent::Done) => (SftpStage::Credentials, SftpAction::LoadCredentials),
            (SftpStage::Credentials, SftpEvent::Found { password }) => (
                SftpStage::AuthNone { password },
                SftpAction::AuthenticateNone,
            ),
            (SftpStage::AuthNone { password }, SftpEvent::Answered(reply)) => {
                follow_none(stage, options, password, reply)
            },
            (SftpStage::LoadKey { password }, SftpEvent::Done) => (
                SftpStage::PublicKey { password },
                SftpAction::AuthenticateKey,
            ),
            (SftpStage::PublicKey { password }, SftpEvent::Answered(reply)) => {
                follow_key(stage, options, password, reply)
            },
            (SftpStage::AgentSlot { password, reply }, SftpEvent::Done) => (
                SftpStage::Agent { password },
                SftpAction::AuthenticateAgent(reply),
            ),
            (SftpStage::Agent { password }, SftpEvent::Answered(reply)) => follow_agent(stage, password, reply),
            (SftpStage::Password { password }, SftpEvent::Answered(reply)) => {
                follow_password(stage, password, reply)
            },
            (SftpStage::KeyboardStart, SftpEvent::KeyboardSuccess) => authenticate(stage, true),
            (SftpStage::KeyboardStart, SftpEvent::KeyboardQuestion { password }) => {
                if password {
                    (SftpStage::KeyboardRespond, SftpAction::RespondKeyboard)
                } else {
                    authenticate(stage, false)
                }
            },
            (SftpStage::KeyboardStart, SftpEvent::KeyboardFailure) => authenticate(stage, false),
            (SftpStage::KeyboardRespond, SftpEvent::KeyboardSuccess) => authenticate(stage, true),
            (SftpStage::KeyboardRespond, SftpEvent::KeyboardQuestion { .. }) => authenticate(stage, false),
            (SftpStage::KeyboardRespond, SftpEvent::KeyboardFailure) => authenticate(stage, false),
            (SftpStage::Channel, SftpEvent::Done) => (SftpStage::Subsystem, SftpAction::RequestSubsystem),
            (SftpStage::Subsystem, SftpEvent::Done) => (
                SftpStage::Reply { remaining: SUBSYSTEM_MESSAGES },
                SftpAction::Wait,
            ),
            (SftpStage::Reply { remaining }, SftpEvent::Message(message)) => {
                let mut left: usize = remaining;
                match crate::sftp::subsystem_approved(message, &mut left) {
                    Ok(approved) => {
                        if approved {
                            let bytes: usize = match options.max_packet.checked_mul(2) {
                                Some(bytes) => bytes,
                                None => usize::MAX,
                            };
                            (SftpStage::Ingress, SftpAction::AcquireIngress { bytes })
                        } else {
                            (SftpStage::Reply { remaining: left }, SftpAction::Wait)
                        }
                    },
                    Err(failure) => stage.fail(failure),
                }
            },
            (SftpStage::Ingress, SftpEvent::Done) => (SftpStage::Init, SftpAction::Initialize),
            (SftpStage::Init, SftpEvent::Version { version, limits, packet }) => {
                if version != SFTP_VERSION {
                    stage.fail(ProtocolFailure::Malformed)
                } else if limits {
                    (SftpStage::Limits, SftpAction::ReadLimits)
                } else {
                    follow_limits(stage, options, None, packet)
                }
            },
            (SftpStage::Limits, SftpEvent::ServerLimits { max_read, packet }) => {
                follow_limits(stage, options, Some(max_read), packet)
            },
            (SftpStage::OpenFile { cap }, SftpEvent::Opened { handle }) => {
                if handle == 0 || handle > MAX_HANDLE_BYTES {
                    stage.fail(ProtocolFailure::Malformed)
                } else {
                    (SftpStage::Stat { cap }, SftpAction::Stat)
                }
            },
            (SftpStage::Stat { cap }, SftpEvent::Validated(validator)) => (
                SftpStage::Ended,
                SftpAction::Finish { validator, max_read: cap },
            ),
            _ => stage.fail(ProtocolFailure::Malformed),
        };
        self.stage = next;
        action
    }
}

/// The stage and last action of opening a session after a run of events.
pub open spec fn sftp_run(options: SftpOptions, events: Seq<SftpEvent>) -> (SftpStage, SftpAction)
    decreases events.len(),
{
    if events.len() == 0 {
        (SftpStage::Metadata, SftpAction::AcquireMetadata { bytes: CONNECTION_BYTES })
    } else {
        sftp_step(sftp_run(options, events.drop_last()).0, options, events.last())
    }
}

/// Whether a stage comes after the host's key has been accepted.
pub open spec fn after_handshake(stage: SftpStage) -> bool {
    !(stage is Metadata || stage is Trust || stage is Socket || stage is Handshake || stage is Ended)
}

/// Whether an action shows anything of the user's credentials to the server.
pub open spec fn shows_credentials(action: SftpAction) -> bool {
    action is AuthenticateNone || action is AuthenticateKey || action is AuthenticateAgent || action
        is AuthenticatePassword || action is RespondKeyboard
}

/// Credentials are shown only after the handshake, in which the host's key is
/// judged, has been done.
pub proof fn law_credentials_follow_the_handshake(options: SftpOptions, events: Seq<SftpEvent>)
    requires
        shows_credentials(sftp_run(options, events).1),
    ensures
        events.len() > 4,
        events[3] is Done,
        sftp_run(options, events.take(3)) == (SftpStage::Handshake, SftpAction::Handshake),
{
    lemma_sftp_course(options, events);
}

/// Whenever opening a session fails once its socket is open, the socket is closed
/// and drained.
pub proof fn law_a_failure_closes_the_socket(options: SftpOptions, events: Seq<SftpEvent>)
    requires
        events.len() > 3,
        sftp_run(options, events.drop_last()).0 != SftpStage::Ended,
        sftp_run(options, events).1 is Fail,
    ensures
        sftp_run(options, events).1->release.socket,
{
    lemma_sftp_course(options, events.drop_last());
}

/// What a stage comes after.
proof fn lemma_sftp_course(options: SftpOptions, events: Seq<SftpEvent>)
    ensures
        ({
            let (stage, action) = sftp_run(options, events);
            &&& stage is Metadata ==> events.len() == 0
            &&& stage is Trust ==> events.len() == 1
            &&& stage is Socket ==> events.len() == 2
            &&& stage is Handshake ==> events.len() == 3 && action is Handshake
            &&& after_handshake(stage) ==> events.len() > 3 && events[3] is Done && sftp_run(options, events.take(3))
                == (SftpStage::Handshake, SftpAction::Handshake)
            &&& stage is Credentials ==> events.len() == 4
            &&& shows_credentials(action) ==> after_handshake(stage) && events.len() > 4
            &&& action is Handshake <==> stage is Handshake
        }),
    decreases events.len(),
{
    if events.len() > 0 {
        let before = events.drop_last();
        lemma_sftp_course(options, before);
        if before.len() >= 3 {
            assert(before.take(3) =~= events.take(3));
        }
        if before.len() == 3 {
            assert(events.take(3) =~= before);
        }
    }
}

/// The next identity of an agent that is tried after a reply: the first from
/// `from` on that is a plain key, as long as keys are still accepted.
pub open spec fn identity_from(keys: Seq<bool>, from: int, reply: AuthReply) -> Option<int>
    decreases keys.len() - from,
{
    if from < 0 || from >= keys.len() || !reply.offers_key() {
        None
    } else if keys[from] {
        Some(from)
    } else {
        identity_from(keys, from + 1, reply)
    }
}

/// The next identity of an agent that is tried; `keys` says which identities are
/// plain keys. An agent with too many identities is not used.
pub fn next_identity(keys: &Vec<bool>, from: usize, reply: AuthReply) -> (r: Result<Option<usize>, ProtocolFailure>)
    ensures
        if keys@.len() > MAX_AGENT_IDENTITIES {
            r == Err::<Option<usize>, ProtocolFailure>(ProtocolFailure::ResourceLimit)
        } else {
            r is Ok && match identity_from(keys@, from as int, reply) {
                Some(at) => r->Ok_0 is Some && r->Ok_0->0 == at,
                None => r->Ok_0 is None,
            }
        },
{
    if keys.len() > MAX_AGENT_IDENTITIES {
        return Err(ProtocolFailure::ResourceLimit);
    }
    if !reply.key_left() {
        return Ok(None);
    }
    let mut at: usize = from;
    while at < keys.len()
        invariant
            from <= at,
            keys@.len() <= MAX_AGENT_IDENTITIES,
            reply.offers_key(),
            identity_from(keys@, from as int, reply) == identity_from(keys@, at as int, reply),
        decreases keys.len() - at,
    {
        if keys[at] {
            return Ok(Some(at));
        }
        at = at + 1;
    }
    Ok(None)
}

/// What ending a session waits for.
#[derive(Clone, Copy, Debug, PartialEq, Eq, Structural)]
pub enum SftpEnding {
    Stat,
    Close,
    Ended,
}

/// What came of the last action of ending a session.
#[derive(Clone, Copy, Debug, PartialEq, Eq, Structural)]
pub enum EndingEvent {
    Stated(FileFacts),
    Closed,
    Failed(ProtocolFailure),
}

/// What ending a session does next.
#[derive(Clone, Copy, Debug, PartialEq, Eq, Structural)]
pub enum EndingAction {
    Close,
    /// Requests and socket are drained; the session ends with this failure, or
    /// with success.
    Drain(Option<ProtocolFailure>),
}

/// The next stage and action of ending a session: a file that has changed fails
/// the transfer; the session is drained whatever came before.
pub open spec fn ending_step(ending: SftpEnding, validator: ProtocolValidator, event: EndingEvent) -> (
    SftpEnding,
    EndingAction,
) {
    match (ending, event) {
        (_, EndingEvent::Failed(failure)) => (SftpEnding::Ended, EndingAction::Drain(Some(failure))),
        (SftpEnding::Stat, EndingEvent::Stated(facts)) => if crate::sftp::unchanged(validator, facts) {
            (SftpEnding::Close, EndingAction::Close)
        } else {
            (SftpEnding::Ended, EndingAction::Drain(Some(ProtocolFailure::StaleValidator)))
        },
        (SftpEnding::Close, EndingEvent::Closed) => (SftpEnding::Ended, EndingAction::Drain(None)),
        _ => (SftpEnding::Ended, EndingAction::Drain(Some(ProtocolFailure::Malformed))),
    }
}

/// Takes the ending of a session one step on, from `SftpEnding::Stat` on.
pub fn finish(ending: &mut SftpEnding, validator: &ProtocolValidator, event: EndingEvent) -> (r: EndingAction)
    ensures
        (*final(ending), r) == ending_step(*old(ending), *validator, event),
{
    let (next, action) = match (*ending, event) {
        (_, EndingEvent::Failed(failure)) => (SftpEnding::Ended, EndingAction::Drain(Some(failure))),
        (SftpEnding::Stat, EndingEvent::Stated(facts)) => {
            match crate::sftp::check_unchanged(validator, facts) {
                Ok(_) => (SftpEnding::Close, EndingAction::Close),
                Err(failure) => (SftpEnding::Ended, EndingAction::Drain(Some(failure))),
            }
        },
        (SftpEnding::Close, EndingEvent::Closed) => (SftpEnding::Ended, EndingAction::Drain(None)),
        _ => (SftpEnding::Ended, EndingAction::Drain(Some(ProtocolFailure::Malformed))),
    };
    *ending = next;
    action
}

/// A session ends with success only if its file was found unchanged.
pub proof fn law_success_means_an_unchanged_file(validator: ProtocolValidator, first: EndingEvent, second: EndingEvent)
    requires
        ({
            let one = ending_step(SftpEnding::Stat, validator, first);
            one.1 == EndingAction::Drain(None) || ending_step(one.0, validator, second).1 == EndingAction::Drain(None)
        }),
    ensures
        first is Stated && crate::sftp::unchanged(validator, first->Stated_0) && second is Closed,
{
}

} // verus!
