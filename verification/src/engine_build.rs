//! How an engine is built: where its files lie, which steps there are, in which
//! order, and what the failure of each is called.
use vstd::prelude::*;
use crate::bittorrent::BitTorrentConfig;
use crate::control::HttpControlError;
use crate::native_api::busy;
use crate::native_error::NativeApiError;
use crate::rpc_broker::{next_for, RpcEventBroker, RpcEventDelivery};
use crate::rpc_budget::{charged, slotted, RpcByteCharge, RpcItem, RpcLedger, RPC_RESULT_WORKSPACE_BYTES};
use crate::rpc_events::{texts, RpcEventError};
use crate::session_format::SessionFormat;

verus! {

/// A directory, and whether its path says where it is from anywhere.
#[derive(Debug)]
pub struct RootPath {
    pub text: String,
    pub absolute: bool,
}

/// Where a session is exported to, and how often.
#[derive(Debug)]
pub struct SessionExportConfig {
    pub path: String,
    pub format: SessionFormat,
    pub interval_ms: Option<u64>,
}

/// What a new engine takes its tasks from.
#[derive(Debug)]
pub struct InputFile {
    pub path: String,
    pub format: SessionFormat,
}

/// What an engine is built with.
#[derive(Debug)]
pub struct EngineBuilder {
    pub output_root: Option<RootPath>,
    pub control_directory: Option<String>,
    pub database_path: Option<String>,
    /// The number of the runtime profile, unless it is the usual one.
    pub profile: Option<u16>,
    pub session_export: Option<SessionExportConfig>,
    pub input_file: Option<InputFile>,
    pub bittorrent: Option<BitTorrentConfig>,
}

impl Default for EngineBuilder {
    fn default() -> (r: Self)
        ensures
            r == (EngineBuilder {
                output_root: None,
                control_directory: None,
                database_path: None,
                profile: None,
                session_export: None,
                input_file: None,
                bittorrent: None,
            }),
    {
        EngineBuilder {
            output_root: None,
            control_directory: None,
            database_path: None,
            profile: None,
            session_export: None,
            input_file: None,
            bittorrent: None,
        }
    }
}

impl EngineBuilder {
    pub fn bittorrent(self, config: BitTorrentConfig) -> (r: Self)
        ensures
            r == (EngineBuilder { bittorrent: Some(config), ..self }),
    {
        EngineBuilder { bittorrent: Some(config), ..self }
    }

    pub fn output_root(self, output_root: RootPath) -> (r: Self)
        ensures
            r == (EngineBuilder { output_root: Some(output_root), ..self }),
    {
        EngineBuilder { output_root: Some(output_root), ..self }
    }

    pub fn control_directory(self, control_directory: String) -> (r: Self)
        ensures
            r == (EngineBuilder { control_directory: Some(control_directory), ..self }),
    {
        EngineBuilder { control_directory: Some(control_directory), ..self }
    }

    pub fn database_path(self, database_path: String) -> (r: Self)
        ensures
            r == (EngineBuilder { database_path: Some(database_path), ..self }),
    {
        EngineBuilder { database_path: Some(database_path), ..self }
    }

    pub fn profile(self, profile: u16) -> (r: Self)
        ensures
            r == (EngineBuilder { profile: Some(profile), ..self }),
    {
        EngineBuilder { profile: Some(profile), ..self }
    }

    pub fn session_export(self, config: SessionExportConfig) -> (r: Self)
        ensures
            r == (EngineBuilder { session_export: Some(config), ..self }),
    {
        EngineBuilder { session_export: Some(config), ..self }
    }

    pub fn input_file(self, path: String, format: SessionFormat) -> (r: Self)
        ensures
            r == (EngineBuilder { input_file: Some(InputFile { path, format }), ..self }),
    {
        EngineBuilder { input_file: Some(InputFile { path, format }), ..self }
    }

    /// Whether building can begin at all: there is an absolute output root.
    pub open spec fn spec_check(self) -> Result<(), NativeApiError> {
        match self.output_root {
            None => Err(NativeApiError::InvalidConfiguration("output root is required")),
            Some(root) => if root.absolute {
                Ok(())
            } else {
                Err(NativeApiError::InvalidConfiguration("output root must be absolute"))
            },
        }
    }

    pub fn check(&self) -> (r: Result<(), NativeApiError>)
        ensures
            r == self.spec_check(),
    {
        match &self.output_root {
            None => Err(NativeApiError::InvalidConfiguration("output root is required")),
            Some(root) => {
                if root.absolute {
                    Ok(())
                } else {
                    Err(NativeApiError::InvalidConfiguration("output root must be absolute"))
                }
            },
        }
    }
}

/// A path: where it begins, and the names that lead on from there.
#[derive(Debug, PartialEq, Eq)]
pub struct BuildPath {
    pub base: String,
    pub below: Vec<String>,
}

/// What a path holds.
#[verifier::ext_equal]
pub struct PathView {
    pub base: Seq<char>,
    pub below: Seq<Seq<char>>,
}

impl PathView {
    /// The path of a name under this one.
    pub open spec fn joined(self, name: Seq<char>) -> PathView {
        PathView { below: self.below.push(name), ..self }
    }
}

/// The path that a text is by itself.
pub open spec fn plain_path(text: Seq<char>) -> PathView {
    PathView { base: text, below: Seq::empty() }
}

impl View for BuildPath {
    type V = PathView;

    open spec fn view(&self) -> PathView {
        PathView { base: self.base@, below: texts(self.below@) }
    }
}

impl BuildPath {
    fn plain(text: &String) -> (r: Self)
        ensures
            r@ == plain_path(text@),
    {
        let r = BuildPath { base: text.clone(), below: Vec::new() };
        assert(r@.below =~= Seq::empty());
        r
    }

    fn join(&self, name: &str) -> (r: Self)
        ensures
            r@ == self@.joined(name@),
    {
        let mut below: Vec<String> = Vec::new();
        let mut i: usize = 0;
        assert(texts(below@) =~= self@.below.take(0));
        while i < self.below.len()
            invariant
                i <= self.below.len(),
                texts(below@) == self@.below.take(i as int),
            decreases self.below.len() - i,
        {
            let ghost before = below@;
            below.push(self.below[i].clone());
            assert(texts(below@) =~= texts(before).push(self@.below[i as int]));
            assert(self@.below.take(i as int + 1) =~= self@.below.take(i as int).push(self@.below[i as int]));
            i = i + 1;
        }
        let ghost before = below@;
        below.push(name.to_owned());
        assert(self@.below.take(i as int) =~= self@.below);
        assert(texts(below@) =~= texts(before).push(name@));
        BuildPath { base: self.base.clone(), below }
    }
}

/// Where an engine keeps its files besides the downloads.
#[derive(Debug, PartialEq, Eq)]
pub struct BuildPaths {
    pub control_directory: BuildPath,
    pub database: BuildPath,
    pub journal_root: BuildPath,
}

impl EngineBuilder {
    /// The control directory: the one that is given, or `.ariax-control` under the
    /// output root.
    pub open spec fn control_path(self) -> PathView {
        match (self.control_directory, self.output_root) {
            (Some(directory), _) => plain_path(directory@),
            (None, Some(root)) => plain_path(root.text@).joined(".ariax-control"@),
            (None, None) => plain_path(""@),
        }
    }

    /// The database: the one that is given, or `session.db` under the control
    /// directory.
    pub open spec fn store_path(self) -> PathView {
        match self.database_path {
            Some(path) => plain_path(path@),
            None => self.control_path().joined("session.db"@),
        }
    }

    /// The journals, under the control directory.
    pub open spec fn journal_path(self) -> PathView {
        self.control_path().joined("http-journals"@)
    }

    /// Where the engine's files lie, if building can begin at all.
    pub fn paths(&self) -> (r: Result<BuildPaths, NativeApiError>)
        ensures
            match self.spec_check() {
                Err(error) => r == Err::<BuildPaths, NativeApiError>(error),
                Ok(_) => r matches Ok(paths) && paths.control_directory@ == self.control_path() && paths.database@
                    == self.store_path() && paths.journal_root@ == self.journal_path(),
            },
    {
        if let Err(error) = self.check() {
            return Err(error);
        }
        let control_directory = match (&self.control_directory, &self.output_root) {
            (Some(directory), _) => BuildPath::plain(directory),
            (None, Some(root)) => BuildPath::plain(&root.text).join(".ariax-control"),
            (None, None) => BuildPath { base: "".to_owned(), below: Vec::new() },
        };
        let database = match &self.database_path {
            Some(path) => BuildPath::plain(path),
            None => control_directory.join("session.db"),
        };
        let journal_root = control_directory.join("http-journals");
        Ok(BuildPaths { control_directory, database, journal_root })
    }
}

/// A step of building.
#[derive(Clone, Copy, Debug, PartialEq, Eq, Structural)]
pub enum BuildStep {
    CreateOutputRoot,
    CreateControlDirectory,
    CreateJournalDirectory,
    Configure,
    Bootstrap,
    Resources,
    Plane,
    AttachResources,
    BitTorrent,
    SessionExport,
    InputFile,
    Resolver,
    Cookies,
    Worker,
    AttachWorker,
    AttachRate,
    Client,
    Start,
}

/// Where a step stands in the order.
pub open spec fn step_rank(step: BuildStep) -> int {
    match step {
        BuildStep::CreateOutputRoot => 0,
        BuildStep::CreateControlDirectory => 1,
        BuildStep::CreateJournalDirectory => 2,
        BuildStep::Configure => 3,
        BuildStep::Bootstrap => 4,
        BuildStep::Resources => 5,
        BuildStep::Plane => 6,
        BuildStep::AttachResources => 7,
        BuildStep::BitTorrent => 8,
        BuildStep::SessionExport => 9,
        BuildStep::InputFile => 10,
        BuildStep::Resolver => 11,
        BuildStep::Cookies => 12,
        BuildStep::Worker => 13,
        BuildStep::AttachWorker => 14,
        BuildStep::AttachRate => 15,
        BuildStep::Client => 16,
        BuildStep::Start => 17,
    }
}

/// Whether a step is taken: three only where they are configured.
pub open spec fn step_taken(builder: EngineBuilder, step: BuildStep) -> bool {
    match step {
        BuildStep::BitTorrent => builder.bittorrent is Some,
        BuildStep::SessionExport => builder.session_export is Some,
        BuildStep::InputFile => builder.input_file is Some,
        _ => true,
    }
}

/// The step after another, taken or not.
pub open spec fn following(step: BuildStep) -> Option<BuildStep> {
    match step {
        BuildStep::CreateOutputRoot => Some(BuildStep::CreateControlDirectory),
        BuildStep::CreateControlDirectory => Some(BuildStep::CreateJournalDirectory),
        BuildStep::CreateJournalDirectory => Some(BuildStep::Configure),
        BuildStep::Configure => Some(BuildStep::Bootstrap),
        BuildStep::Bootstrap => Some(BuildStep::Resources),
        BuildStep::Resources => Some(BuildStep::Plane),
        BuildStep::Plane => Some(BuildStep::AttachResources),
        BuildStep::AttachResources => Some(BuildStep::BitTorrent),
        BuildStep::BitTorrent => Some(BuildStep::SessionExport),
        BuildStep::SessionExport => Some(BuildStep::InputFile),
        BuildStep::InputFile => Some(BuildStep::Resolver),
        BuildStep::Resolver => Some(BuildStep::Cookies),
        BuildStep::Cookies => Some(BuildStep::Worker),
        BuildStep::Worker => Some(BuildStep::AttachWorker),
        BuildStep::AttachWorker => Some(BuildStep::AttachRate),
        BuildStep::AttachRate => Some(BuildStep::Client),
        BuildStep::Client => Some(BuildStep::Start),
        BuildStep::Start => None,
    }
}

/// The next step that is taken.
pub open spec fn next_taken(builder: EngineBuilder, step: BuildStep) -> Option<BuildStep>
    decreases 17 - step_rank(step),
{
    match following(step) {
        None => None,
        Some(next) => if step_taken(builder, next) {
            Some(next)
        } else {
            next_taken(builder, next)
        },
    }
}

fn follow(step: BuildStep) -> (r: Option<BuildStep>)
    ensures
        r == following(step),
{
    match step {
        BuildStep::CreateOutputRoot => Some(BuildStep::CreateControlDirectory),
        BuildStep::CreateControlDirectory => Some(BuildStep::CreateJournalDirectory),
        BuildStep::CreateJournalDirectory => Some(BuildStep::Configure),
        BuildStep::Configure => Some(BuildStep::Bootstrap),
        BuildStep::Bootstrap => Some(BuildStep::Resources),
        BuildStep::Resources => Some(BuildStep::Plane),
        BuildStep::Plane => Some(BuildStep::AttachResources),
        BuildStep::AttachResources => Some(BuildStep::BitTorrent),
        BuildStep::BitTorrent => Some(BuildStep::SessionExport),
        BuildStep::SessionExport => Some(BuildStep::InputFile),
        BuildStep::InputFile => Some(BuildStep::Resolver),
        BuildStep::Resolver => Some(BuildStep::Cookies),
        BuildStep::Cookies => Some(BuildStep::Worker),
        BuildStep::Worker => Some(BuildStep::AttachWorker),
        BuildStep::AttachWorker => Some(BuildStep::AttachRate),
        BuildStep::AttachRate => Some(BuildStep::Client),
        BuildStep::Client => Some(BuildStep::Start),
        BuildStep::Start => None,
    }
}

/// Why a step failed.
#[derive(Debug)]
pub enum BuildFailure {
    OutputRoot,
    ControlDirectory,
    JournalDirectory,
    /// The process could not be configured, for the reason that `process_config`
    /// gives.
    Configuration(NativeApiError),
    SchedulerBounds,
    /// What the process is made of failed, in its own words.
    Process(String),
    /// The configuration of BitTorrent was refused, for the reason that
    /// `BitTorrentConfig::apply` gives.
    BitTorrent(NativeApiError),
    SessionExport(HttpControlError),
    InputFile(HttpControlError),
    Client,
    Start(HttpControlError),
}

impl BuildFailure {
    /// The error that building ends with.
    pub open spec fn spec_error(self) -> NativeApiError {
        match self {
            BuildFailure::OutputRoot => NativeApiError::InvalidConfiguration("cannot create output root"),
            BuildFailure::ControlDirectory => NativeApiError::InvalidConfiguration("cannot create control directory"),
            BuildFailure::JournalDirectory => NativeApiError::InvalidConfiguration("cannot create journal directory"),
            BuildFailure::SchedulerBounds => NativeApiError::InvalidConfiguration("invalid scheduler bounds"),
            BuildFailure::Process(text) => NativeApiError::Bootstrap(text),
            BuildFailure::Configuration(error) | BuildFailure::BitTorrent(error) => error,
            BuildFailure::SessionExport(error) | BuildFailure::InputFile(error) | BuildFailure::Start(error) =>
                NativeApiError::Control(error),
            BuildFailure::Client => busy(),
        }
    }

    pub fn error(self) -> (r: NativeApiError)
        ensures
            r == self.spec_error(),
    {
        match self {
            BuildFailure::OutputRoot => NativeApiError::InvalidConfiguration("cannot create output root"),
            BuildFailure::ControlDirectory => NativeApiError::InvalidConfiguration("cannot create control directory"),
            BuildFailure::JournalDirectory => NativeApiError::InvalidConfiguration("cannot create journal directory"),
            BuildFailure::SchedulerBounds => NativeApiError::InvalidConfiguration("invalid scheduler bounds"),
            BuildFailure::Process(text) => NativeApiError::Bootstrap(text),
            BuildFailure::Configuration(error) | BuildFailure::BitTorrent(error) => error,
            BuildFailure::SessionExport(error) | BuildFailure::InputFile(error) | BuildFailure::Start(error) => {
                NativeApiError::Control(error)
            },
            BuildFailure::Client => NativeApiError::Control(HttpControlError::Busy),
        }
    }
}

impl BuildStep {
    /// The step that is taken after this one.
    pub fn next(self, builder: &EngineBuilder) -> (r: Option<BuildStep>)
        ensures
            r == next_taken(*builder, self),
        decreases 17 - step_rank(self),
    {
        match follow(self) {
            None => None,
            Some(next) => {
                let taken = match next {
                    BuildStep::BitTorrent => builder.bittorrent.is_some(),
                    BuildStep::SessionExport => builder.session_export.is_some(),
                    BuildStep::InputFile => builder.input_file.is_some(),
                    _ => true,
                };
                if taken {
                    Some(next)
                } else {
                    next.next(builder)
                }
            },
        }
    }
}

/// Steps are taken in order and each once, and one is passed over exactly where
/// it is not configured.
pub proof fn law_build_order(builder: EngineBuilder, step: BuildStep, between: BuildStep)
    ensures
        next_taken(builder, step) matches Some(next) ==> step_rank(step) < step_rank(next) && step_taken(
            builder,
            next,
        ) && (step_rank(step) < step_rank(between) < step_rank(next) ==> !step_taken(builder, between)),
        next_taken(builder, step) is None ==> step == BuildStep::Start,
    decreases 17 - step_rank(step),
{
    match following(step) {
        None => {},
        Some(next) => {
            law_build_order(builder, next, between);
        },
    }
}

/// The next event for a program that embeds the engine: it needs the place and
/// the room for an answer, and gives both back at once.
pub fn try_next(
    broker: &mut RpcEventBroker,
    ledger: &RpcLedger,
    client: usize,
    subscriber: u64,
    value_bytes: usize,
) -> (r: Result<Option<RpcEventDelivery>, NativeApiError>)
    requires
        old(broker)@.valid(ledger@),
        client < ledger@.clients.len(),
    ensures
        final(broker)@.valid(ledger@),
        match slotted(ledger@.accounts(client as int), RpcItem::Response) {
            Err(_) => r == Err::<Option<RpcEventDelivery>, NativeApiError>(busy()) && final(broker)@ == old(broker)@,
            Ok(after) => match charged(
                after,
                RpcByteCharge { request: false, bytes: RPC_RESULT_WORKSPACE_BYTES },
            ) {
                Err(_) => r == Err::<Option<RpcEventDelivery>, NativeApiError>(busy()) && final(broker)@
                    == old(broker)@,
                Ok(_) => exists|found: Result<Option<RpcEventDelivery>, RpcEventError>| #[trigger]
                    next_for(old(broker)@, subscriber, value_bytes as int, final(broker)@, found) && r == (match found {
                        Ok(delivery) => Ok::<Option<RpcEventDelivery>, NativeApiError>(delivery),
                        Err(error) => Err::<Option<RpcEventDelivery>, NativeApiError>(NativeApiError::Event(error)),
                    }),
            },
        },
{
    assert(ledger@.accounts(client as int).valid());
    let mut accounts = ledger.accounts(client);
    if accounts.response(None).is_err() {
        return Err(NativeApiError::Control(HttpControlError::Busy));
    }
    if accounts.workspace().is_err() {
        return Err(NativeApiError::Control(HttpControlError::Busy));
    }
    match broker.try_next_bounded(ledger, subscriber, value_bytes) {
        Ok(delivery) => Ok(delivery),
        Err(error) => Err(NativeApiError::Event(error)),
    }
}

} // verus!
