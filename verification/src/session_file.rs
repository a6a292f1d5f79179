//! Sessions as documents. What a document says of progress or identities is a
//! hint and never taken at its word.
use vstd::prelude::*;
use crate::bytes::{big_endian, read_u128};
use crate::control::HttpControlError;
use crate::hex::{hex_bytes, is_hex, lower_hex, parse_hex};
use crate::json::{field_from, field_text, json_field, json_fields, json_items, json_text, Json, JsonField};
use crate::rpc_broker::{field_set, set_field};
use crate::rpc_compat::{is_listed, lists};
use crate::session::{JournalHash, SessionTaskSourceRecord};
use crate::session_format::invalid;
use crate::source_rows::{all_chars, chars_in};
use crate::session_torrent::{parse_bittorrent, torrent_view, ImportedBt, TorrentFindings, TorrentView};
use crate::text::{byte_len, chars_of, parse_i64, parse_unsigned, parsed_signed, parsed_unsigned, same_text};

verus! {

/// The longest line of a session in text form.
pub const MAX_SESSION_LINE_BYTES: usize = 65_536;

/// How much a session may hold.
#[derive(Clone, Copy, Debug, PartialEq, Eq, Structural)]
pub struct SessionLimits {
    pub document_bytes: usize,
    pub tasks: usize,
    pub sources: usize,
    pub safe_uri_bytes: usize,
    pub resume_bytes: usize,
}

/// Names that sessions are held against: those of the states of tasks, and those
/// of the options that every client knows.
#[derive(Debug)]
pub struct SessionRules {
    pub task_states: Vec<String>,
    pub aria2_options: Vec<String>,
}

/// An error of a session.
pub open spec fn fault(message: &'static str) -> HttpControlError {
    HttpControlError::InvalidParams(message)
}

/// What an object of a session is about.
#[derive(Clone, Copy, Debug, PartialEq, Eq, Structural)]
pub enum SessionObject {
    Document,
    Task,
    Source,
    Torrent,
}

/// Whether an object may have a field.
pub open spec fn known_field(object: SessionObject, name: Seq<char>) -> bool {
    match object {
        SessionObject::Document => name == "formatVersion"@ || name == "sessionId"@ || name == "tasks"@,
        SessionObject::Task => name == "kind"@ || name == "gid"@ || name == "uris"@ || name == "sources"@ || name
            == "options"@ || name == "state"@ || name == "verification"@ || name == "bittorrent"@,
        SessionObject::Source => name == "uriId"@ || name == "uri"@ || name == "fingerprint"@ || name
            == "needsCredentials"@ || name == "priority"@,
        SessionObject::Torrent => name == "identity"@ || name == "metainfo"@ || name == "magnet"@ || name
            == "files"@ || name == "resumeData"@,
    }
}

/// Whether an object has no field but those that it may have.
pub open spec fn all_known(object: SessionObject, fields: Seq<JsonField>) -> bool {
    forall|i: int| 0 <= i < fields.len() ==> known_field(object, (#[trigger] fields[i]).name@)
}

fn is_known(object: SessionObject, name: &str) -> (r: bool)
    ensures
        r == known_field(object, name@),
{
    match object {
        SessionObject::Document => {
            same_text(name, "formatVersion") || same_text(name, "sessionId") || same_text(name, "tasks")
        },
        SessionObject::Task => {
            same_text(name, "kind") || same_text(name, "gid") || same_text(name, "uris") || same_text(
                name,
                "sources",
            ) || same_text(name, "options") || same_text(name, "state") || same_text(name, "verification")
                || same_text(name, "bittorrent")
        },
        SessionObject::Source => {
            same_text(name, "uriId") || same_text(name, "uri") || same_text(name, "fingerprint") || same_text(
                name,
                "needsCredentials",
            ) || same_text(name, "priority")
        },
        SessionObject::Torrent => {
            same_text(name, "identity") || same_text(name, "metainfo") || same_text(name, "magnet") || same_text(
                name,
                "files",
            ) || same_text(name, "resumeData")
        },
    }
}

/// Refuses an object with a field that it may not have.
pub fn reject_unknown(fields: &Vec<JsonField>, object: SessionObject) -> (r: Result<(), HttpControlError>)
    ensures
        r == (if all_known(object, fields@) {
            Ok::<(), HttpControlError>(())
        } else {
            Err::<(), HttpControlError>(fault("unknown session field"))
        }),
{
    let mut i: usize = 0;
    while i < fields.len()
        invariant
            i <= fields.len(),
            forall|k: int| 0 <= k < i ==> known_field(object, (#[trigger] fields@[k]).name@),
        decreases fields.len() - i,
    {
        if !is_known(object, fields[i].name.as_str()) {
            assert(!known_field(object, fields@[i as int].name@));
            return Err(invalid("unknown session field"));
        }
        i = i + 1;
    }
    Ok(())
}

/// What a source record says.
#[verifier::ext_equal]
pub struct SourceView {
    pub uri_id: u32,
    pub persistence_safe_uri: Option<Seq<char>>,
    pub redacted_fingerprint: JournalHash,
    pub needs_credentials: bool,
    pub priority: i64,
}

impl View for SessionTaskSourceRecord {
    type V = SourceView;

    open spec fn view(&self) -> SourceView {
        SourceView {
            uri_id: self.uri_id,
            persistence_safe_uri: chars_in(self.persistence_safe_uri),
            redacted_fingerprint: self.redacted_fingerprint,
            needs_credentials: self.needs_credentials,
            priority: self.priority,
        }
    }
}

/// The number that a field spells, within bounds.
pub open spec fn spelled(value: Json, name: Seq<char>, signed: bool, max: int) -> Option<int> {
    match field_text(value, name) {
        Some(text) => if signed {
            parsed_signed(text, i64::MIN as int, i64::MAX as int)
        } else {
            parsed_unsigned(text, max)
        },
        None => None,
    }
}

/// The hash that sixty-four digits spell.
pub open spec fn hash_of(text: Seq<char>) -> JournalHash {
    let bytes = hex_bytes(text);
    JournalHash {
        high: big_endian(bytes.take(16)) as u128,
        low: big_endian(bytes.skip(16)) as u128,
    }
}

/// The address of a source: none where its credentials are missing, and
/// otherwise one that may be persisted.
pub open spec fn source_uri(value: Json, needs_credentials: bool, limits: SessionLimits) -> Option<Option<Seq<char>>> {
    match json_field(value, "uri"@) {
        Some(Json::Null) => if needs_credentials {
            Some(None)
        } else {
            None
        },
        Some(Json::Text(text)) => if byte_len(text.text@) <= limits.safe_uri_bytes && text.persistable {
            Some(Some(text.text@))
        } else {
            None
        },
        _ => None,
    }
}

/// The truth of a field that is one.
pub open spec fn field_truth(value: Json, name: Seq<char>) -> Option<bool> {
    match json_field(value, name) {
        Some(Json::Bool(b)) => Some(b),
        _ => None,
    }
}

/// The digits of a fingerprint.
pub open spec fn fingerprint_text(value: Json) -> Option<Seq<char>> {
    match field_text(value, "fingerprint"@) {
        Some(text) => if lower_hex(text, 64) {
            Some(text)
        } else {
            None
        },
        None => None,
    }
}

/// What a source record of a session says, or its first error.
pub open spec fn source_of(value: Json, limits: SessionLimits) -> Result<SourceView, HttpControlError> {
    if !(value is Object) {
        Err(fault("session source must be an object"))
    } else if !all_known(SessionObject::Source, json_fields(value)->0) {
        Err(fault("unknown session field"))
    } else if spelled(value, "uriId"@, false, u32::MAX as int) is None {
        Err(fault("invalid source identity"))
    } else if spelled(value, "priority"@, true, 0) is None {
        Err(fault("invalid source priority"))
    } else if field_truth(value, "needsCredentials"@) is None {
        Err(fault("invalid source credential marker"))
    } else if source_uri(value, field_truth(value, "needsCredentials"@)->0, limits) is None {
        Err(fault("session source URI is not persistence-safe"))
    } else if fingerprint_text(value) is None {
        Err(fault("invalid source fingerprint"))
    } else {
        Ok(
            SourceView {
                uri_id: spelled(value, "uriId"@, false, u32::MAX as int)->0 as u32,
                persistence_safe_uri: source_uri(value, field_truth(value, "needsCredentials"@)->0, limits)->0,
                redacted_fingerprint: hash_of(fingerprint_text(value)->0),
                needs_credentials: field_truth(value, "needsCredentials"@)->0,
                priority: spelled(value, "priority"@, true, 0)->0 as i64,
            },
        )
    }
}

fn read_hash(text: &str) -> (r: JournalHash)
    requires
        lower_hex(text@, 64),
    ensures
        r == hash_of(text@),
{
    let bytes = parse_hex(text);
    let mut tail: Vec<u8> = Vec::new();
    let mut i: usize = 16;
    while i < bytes.len()
        invariant
            16 <= i <= bytes.len(),
            bytes.len() == 32,
            tail@ == bytes@.subrange(16, i as int),
        decreases bytes.len() - i,
    {
        tail.push(bytes[i]);
        assert(bytes@.subrange(16, i as int + 1) =~= bytes@.subrange(16, i as int).push(bytes@[i as int]));
        i = i + 1;
    }
    assert(tail@ =~= bytes@.skip(16));
    assert(tail@.take(16) =~= tail@);
    let high: u128 = read_u128(&bytes, 16);
    let low: u128 = read_u128(&tail, 16);
    JournalHash { high, low }
}

/// Reads a source record of a session.
pub fn parse_source(value: &Json, limits: &SessionLimits) -> (r: Result<SessionTaskSourceRecord, HttpControlError>)
    ensures
        match source_of(*value, *limits) {
            Ok(view) => r is Ok && r->Ok_0@ == view,
            Err(error) => r == Err::<SessionTaskSourceRecord, HttpControlError>(error),
        },
{
    match value {
        Json::Object(fields) => match reject_unknown(fields, SessionObject::Source) {
            Ok(_) => {},
            Err(error) => return Err(error),
        },
        _ => return Err(invalid("session source must be an object")),
    }
    let uri_id: u32 = match value.get_text("uriId") {
        Some(text) => match parse_unsigned(&chars_of(text), u32::MAX as u64) {
            Some(n) => n as u32,
            None => return Err(invalid("invalid source identity")),
        },
        None => return Err(invalid("invalid source identity")),
    };
    let priority: i64 = match value.get_text("priority") {
        Some(text) => match parse_i64(&chars_of(text)) {
            Some(n) => n,
            None => return Err(invalid("invalid source priority")),
        },
        None => return Err(invalid("invalid source priority")),
    };
    let needs_credentials = match value.get("needsCredentials") {
        Some(Json::Bool(b)) => *b,
        _ => return Err(invalid("invalid source credential marker")),
    };
    let persistence_safe_uri = match value.get("uri") {
        Some(Json::Null) => {
            if !needs_credentials {
                return Err(invalid("session source URI is not persistence-safe"));
            }
            None
        },
        Some(Json::Text(text)) => {
            if text.text.as_str().len() > limits.safe_uri_bytes || !text.persistable {
                return Err(invalid("session source URI is not persistence-safe"));
            }
            Some(text.text.clone())
        },
        _ => return Err(invalid("session source URI is not persistence-safe")),
    };
    let redacted_fingerprint = match value.get_text("fingerprint") {
        Some(text) => {
            if !is_hex(text, 64) {
                return Err(invalid("invalid source fingerprint"));
            }
            read_hash(text)
        },
        None => return Err(invalid("invalid source fingerprint")),
    };
    Ok(
        SessionTaskSourceRecord {
            uri_id,
            persistence_safe_uri,
            redacted_fingerprint,
            needs_credentials,
            priority,
        },
    )
}

/// An option as a session sets it.
#[verifier::ext_equal]
pub enum OptionForm {
    Text(Seq<char>),
    Flag(bool),
    Other(Json),
}

/// What a value sets an option to.
pub open spec fn form(value: Json) -> OptionForm {
    match value {
        Json::Text(text) => OptionForm::Text(text.text@),
        Json::Bool(b) => OptionForm::Flag(b),
        other => OptionForm::Other(other),
    }
}

/// What fields set options to.
pub open spec fn option_forms(fields: Seq<JsonField>) -> Map<Seq<char>, OptionForm> {
    Map::new(
        |name: Seq<char>| field_from(fields, name, 0) is Some,
        |name: Seq<char>| form(fields[field_from(fields, name, 0)->0].value),
    )
}

/// A verified document, by its number, and the file of it that a task is.
#[derive(Clone, Copy, Debug, PartialEq, Eq, Structural)]
pub struct VerifiedDocument {
    pub ticket: u64,
    pub index: Option<u32>,
}

/// What was found out about a task outside of it: what its verification document
/// says, and what is known of its torrent, where this process has BitTorrent.
#[derive(Debug)]
pub struct TaskFindings {
    pub verification: Result<VerifiedDocument, HttpControlError>,
    pub torrent: Option<TorrentFindings>,
}

/// A task of a session, ready to be added.
pub struct ImportedTask {
    pub bittorrent: Option<ImportedBt>,
    pub uris: Vec<String>,
    pub sources: Option<Vec<SessionTaskSourceRecord>>,
    pub options: Vec<JsonField>,
    pub verification: Option<u64>,
    pub metalink_index: Option<u32>,
}

/// What source records say.
pub open spec fn source_views(sources: Seq<SessionTaskSourceRecord>) -> Seq<SourceView> {
    sources.map_values(|source: SessionTaskSourceRecord| source@)
}

/// What a task says.
#[verifier::ext_equal]
pub struct TaskView {
    pub bittorrent: Option<TorrentView>,
    pub uris: Seq<Seq<char>>,
    pub sources: Option<Seq<SourceView>>,
    pub options: Map<Seq<char>, OptionForm>,
    pub verification: Option<u64>,
    pub metalink_index: Option<u32>,
}

impl View for ImportedTask {
    type V = TaskView;

    open spec fn view(&self) -> TaskView {
        TaskView {
            bittorrent: match self.bittorrent {
                Some(torrent) => Some(torrent@),
                None => None,
            },
            uris: all_chars(self.uris@),
            sources: match self.sources {
                Some(sources) => Some(source_views(sources@)),
                None => None,
            },
            options: option_forms(self.options@),
            verification: self.verification,
            metalink_index: self.metalink_index,
        }
    }
}

/// Whether a task is a torrent.
pub open spec fn is_torrent(task: Json) -> bool {
    field_text(task, "kind"@) == Some("bittorrent"@)
}

/// The torrent of a task, where it is one, or the error of a task whose kind and
/// fields do not agree or whose torrent cannot be read.
pub open spec fn task_torrent(task: Json, findings: TaskFindings, resume_limit: int) -> Result<
    Option<TorrentView>,
    HttpControlError,
> {
    if is_torrent(task) {
        if json_field(task, "uris"@) is Some || json_field(task, "sources"@) is Some || json_field(
            task,
            "verification"@,
        ) is Some {
            Err(fault("BitTorrent session member contains transfer fields"))
        } else {
            match findings.torrent {
                None => Err(HttpControlError::Unsupported("BitTorrent feature unavailable")),
                Some(found) => match json_field(task, "bittorrent"@) {
                    None => Err(fault("missing BitTorrent session metadata")),
                    Some(value) => match torrent_view(value, found, resume_limit) {
                        Ok(torrent) => Ok(Some(torrent)),
                        Err(error) => Err(error),
                    },
                },
            }
        }
    } else if json_field(task, "bittorrent"@) is Some || (json_field(task, "kind"@) is Some && field_text(
        task,
        "kind"@,
    ) != Some("transfer"@)) {
        Err(fault("session task kind differs from its metadata"))
    } else {
        Ok(None)
    }
}

/// The verification document of a task.
pub open spec fn task_verification(task: Json, findings: TaskFindings) -> Option<VerifiedDocument> {
    match (json_field(task, "verification"@), findings.verification) {
        (Some(_), Ok(document)) => Some(document),
        _ => None,
    }
}

/// Whether a hint is absent or so many digits.
pub open spec fn hint_fits(value: Option<Json>, length: int) -> bool {
    match value {
        None => true,
        Some(value) => match json_text(value) {
            Some(text) => lower_hex(text, length),
            None => false,
        },
    }
}

/// Whether a hint is absent or the name of a state.
pub open spec fn state_fits(value: Option<Json>, states: Seq<String>) -> bool {
    match value {
        None => true,
        Some(value) => match json_text(value) {
            Some(text) => lists(states, text),
            None => false,
        },
    }
}

/// The texts of values, if each of the first `n` is one.
pub open spec fn texts_in(items: Seq<Json>, n: int) -> Option<Seq<Seq<char>>>
    decreases n,
{
    if n <= 0 {
        Some(Seq::empty())
    } else {
        match (texts_in(items, n - 1), json_text(items[n - 1])) {
            (Some(texts), Some(text)) => Some(texts.push(text)),
            _ => None,
        }
    }
}

/// The addresses of a task: none where it names none.
pub open spec fn task_uris(task: Json, limits: SessionLimits) -> Result<Seq<Seq<char>>, HttpControlError> {
    match json_field(task, "uris"@) {
        None => Ok(Seq::empty()),
        Some(list) => match json_items(list) {
            Some(items) => if items.len() > limits.sources {
                Err(fault("invalid session URI array"))
            } else {
                match texts_in(items, items.len() as int) {
                    Some(texts) => Ok(texts),
                    None => Err(fault("session URI must be text")),
                }
            },
            None => Err(fault("invalid session URI array")),
        },
    }
}

/// The first `n` source records of a list, or the first error.
pub open spec fn sources_in(items: Seq<Json>, limits: SessionLimits, n: int) -> Result<
    Seq<SourceView>,
    HttpControlError,
>
    decreases n,
{
    if n <= 0 {
        Ok(Seq::empty())
    } else {
        match sources_in(items, limits, n - 1) {
            Err(error) => Err(error),
            Ok(before) => match source_of(items[n - 1], limits) {
                Err(error) => Err(error),
                Ok(source) => Ok(before.push(source)),
            },
        }
    }
}

/// The source records of a task, where it has any.
pub open spec fn task_sources(task: Json, limits: SessionLimits) -> Result<Option<Seq<SourceView>>, HttpControlError> {
    match json_field(task, "sources"@) {
        None => Ok(None),
        Some(list) => match json_items(list) {
            Some(items) => if items.len() == 0 || items.len() > limits.sources {
                Err(fault("invalid session sources"))
            } else {
                match sources_in(items, limits, items.len() as int) {
                    Ok(sources) => Ok(Some(sources)),
                    Err(error) => Err(error),
                }
            },
            None => Err(fault("invalid session sources")),
        },
    }
}

/// The addresses that the first `n` source records may be persisted with.
pub open spec fn record_uris(sources: Seq<SourceView>, n: int) -> Seq<Seq<char>>
    decreases n,
{
    if n <= 0 {
        Seq::empty()
    } else {
        match sources[n - 1].persistence_safe_uri {
            Some(uri) => record_uris(sources, n - 1).push(uri),
            None => record_uris(sources, n - 1),
        }
    }
}

/// Where addresses and source records of a task do not agree.
pub open spec fn origin_fault(task: Json, uris: Seq<Seq<char>>, sources: Option<Seq<SourceView>>) -> Option<
    HttpControlError,
> {
    match sources {
        Some(sources) => if json_field(task, "uris"@) is Some && uris != record_uris(
            sources,
            sources.len() as int,
        ) {
            Some(fault("session URI projection differs from its source records"))
        } else {
            None
        },
        None => if uris.len() == 0 && !is_torrent(task) {
            Some(fault("session task has no sources"))
        } else {
            None
        },
    }
}

/// Whether an option that pauses a task can be understood.
pub open spec fn pause_fits(options: Map<Seq<char>, OptionForm>) -> bool {
    options.contains_key("pause"@) ==> match options["pause"@] {
        OptionForm::Flag(_) => true,
        OptionForm::Text(text) => text == "true"@ || text == "false"@,
        OptionForm::Other(_) => false,
    }
}

/// Whether some option binds a task to what only this process knows.
pub open spec fn holds_binding(options: Map<Seq<char>, OptionForm>) -> bool {
    options.contains_key("metadata-expansion"@) || options.contains_key("verification-manifest"@)
        || options.contains_key("metalink-file-index"@)
}

/// The options of a task as it is added, or why they are refused.
pub open spec fn imported_options(options: Map<Seq<char>, OptionForm>, force_pause: bool, verified: bool) -> Result<
    Map<Seq<char>, OptionForm>,
    HttpControlError,
> {
    if !pause_fits(options) {
        Err(fault("invalid session pause option"))
    } else if holds_binding(options) {
        Err(fault("internal verification bindings cannot be imported as options"))
    } else {
        let paused = if force_pause {
            options.insert("pause"@, OptionForm::Flag(true))
        } else {
            options
        };
        Ok(
            if verified {
                paused.remove("piece-length"@)
            } else {
                paused
            },
        )
    }
}

/// What the options of a task set.
pub open spec fn task_options(task: Json) -> Option<Map<Seq<char>, OptionForm>> {
    match json_field(task, "options"@) {
        None => Some(Map::empty()),
        Some(options) => match json_fields(options) {
            Some(fields) => Some(option_forms(fields)),
            None => None,
        },
    }
}

/// A task of a session, or its first error.
pub open spec fn task_of(
    task: Json,
    force_pause: bool,
    findings: TaskFindings,
    states: Seq<String>,
    limits: SessionLimits,
) -> Result<TaskView, HttpControlError> {
    if !(task is Object) {
        Err(fault("session task must be an object"))
    } else if !all_known(SessionObject::Task, json_fields(task)->0) {
        Err(fault("unknown session field"))
    } else if task_torrent(task, findings, limits.resume_bytes as int) is Err {
        Err(task_torrent(task, findings, limits.resume_bytes as int)->Err_0)
    } else if json_field(task, "verification"@) is Some && findings.verification is Err {
        Err(findings.verification->Err_0)
    } else if !hint_fits(json_field(task, "gid"@), 16) {
        Err(fault("invalid task identity hint"))
    } else if !state_fits(json_field(task, "state"@), states) {
        Err(fault("invalid task state hint"))
    } else if task_uris(task, limits) is Err {
        Err(task_uris(task, limits)->Err_0)
    } else if task_sources(task, limits) is Err {
        Err(task_sources(task, limits)->Err_0)
    } else if origin_fault(task, task_uris(task, limits)->Ok_0, task_sources(task, limits)->Ok_0) is Some {
        Err(origin_fault(task, task_uris(task, limits)->Ok_0, task_sources(task, limits)->Ok_0)->0)
    } else if task_options(task) is None {
        Err(fault("session options must be an object"))
    } else {
        let document = task_verification(task, findings);
        match imported_options(task_options(task)->0, force_pause, document is Some) {
            Err(error) => Err(error),
            Ok(options) => Ok(
                TaskView {
                    bittorrent: task_torrent(task, findings, limits.resume_bytes as int)->Ok_0,
                    uris: task_uris(task, limits)->Ok_0,
                    sources: task_sources(task, limits)->Ok_0,
                    options,
                    verification: match document {
                        Some(document) => Some(document.ticket),
                        None => None,
                    },
                    metalink_index: match document {
                        Some(document) => document.index,
                        None => None,
                    },
                },
            ),
        }
    }
}

proof fn lemma_field_from(fields: Seq<JsonField>, name: Seq<char>, from: int)
    requires
        0 <= from,
    ensures
        match field_from(fields, name, from) {
            Some(i) => from <= i < fields.len() && fields[i].name@ == name && forall|k: int|
                from <= k < i ==> (#[trigger] fields[k]).name@ != name,
            None => forall|k: int| from <= k < fields.len() ==> (#[trigger] fields[k]).name@ != name,
        },
    decreases fields.len() - from,
{
    if from < fields.len() && fields[from].name@ != name {
        lemma_field_from(fields, name, from + 1);
    }
}

proof fn lemma_field_is(fields: Seq<JsonField>, name: Seq<char>, from: int, at: int)
    requires
        0 <= from <= at < fields.len(),
        fields[at].name@ == name,
        forall|k: int| from <= k < at ==> (#[trigger] fields[k]).name@ != name,
    ensures
        field_from(fields, name, from) == Some(at),
    decreases at - from,
{
    if from < at {
        lemma_field_is(fields, name, from + 1, at);
    }
}

proof fn lemma_field_absent(fields: Seq<JsonField>, name: Seq<char>, from: int)
    requires
        0 <= from,
        forall|k: int| from <= k < fields.len() ==> (#[trigger] fields[k]).name@ != name,
    ensures
        field_from(fields, name, from) is None,
    decreases fields.len() - from,
{
    if from < fields.len() {
        lemma_field_absent(fields, name, from + 1);
    }
}

/// Setting a field sets its option and leaves the others.
pub proof fn lemma_set_option(before: Seq<JsonField>, after: Seq<JsonField>, name: Seq<char>, value: Json)
    requires
        field_set(before, after, name, value),
    ensures
        option_forms(after) == option_forms(before).insert(name, form(value)),
{
    lemma_field_from(before, name, 0);
    let place = match field_from(before, name, 0) {
        Some(i) => i,
        None => before.len() as int,
    };
    assert(after[place].name@ == name);
    assert forall|k: int| 0 <= k < place implies (#[trigger] after[k]).name@ != name by {
        assert(after[k] == before[k]);
    }
    lemma_field_is(after, name, 0, place);
    assert forall|other: Seq<char>| other != name implies #[trigger] field_from(after, other, 0) == field_from(
        before,
        other,
        0,
    ) by {
        lemma_field_from(before, other, 0);
        match field_from(before, other, 0) {
            Some(i) => {
                assert(i != place);
                assert(after[i] == before[i]);
                assert forall|k: int| 0 <= k < i implies (#[trigger] after[k]).name@ != other by {
                    if k != place {
                        assert(after[k] == before[k]);
                    }
                }
                lemma_field_is(after, other, 0, i);
            },
            None => {
                assert forall|k: int| 0 <= k < after.len() implies (#[trigger] after[k]).name@ != other by {
                    if k != place {
                        assert(after[k] == before[k]);
                    }
                }
                lemma_field_absent(after, other, 0);
            },
        }
    }
    assert forall|other: Seq<char>| #[trigger] option_forms(before).contains_key(other) && other != name implies
        option_forms(after)[other] == option_forms(before)[other] by {
        lemma_field_from(before, other, 0);
        let i = field_from(before, other, 0)->0;
        assert(i != place);
        assert(after[i] == before[i]);
    }
    let grown = option_forms(before).insert(name, form(value));
    assert forall|other: Seq<char>| #[trigger] option_forms(after).contains_key(other) == grown.contains_key(
        other,
    ) by {
        if other != name {
            assert(field_from(after, other, 0) == field_from(before, other, 0));
        }
    }
    assert(option_forms(after).dom() =~= grown.dom());
    assert forall|other: Seq<char>| #[trigger] option_forms(after).contains_key(other) implies option_forms(
        after,
    )[other] == grown[other] by {
        if other != name {
            assert(option_forms(before).contains_key(other));
        } else {
            assert(after[place].value == value);
        }
    }
    assert(option_forms(after) =~= grown);
}

/// The first `n` fields without those of a name.
pub open spec fn fields_without(fields: Seq<JsonField>, name: Seq<char>, n: int) -> Seq<JsonField>
    decreases n,
{
    if n <= 0 {
        Seq::empty()
    } else if fields[n - 1].name@ == name {
        fields_without(fields, name, n - 1)
    } else {
        fields_without(fields, name, n - 1).push(fields[n - 1])
    }
}

proof fn lemma_without(fields: Seq<JsonField>, name: Seq<char>, n: int)
    requires
        0 <= n <= fields.len(),
    ensures
        option_forms(fields_without(fields, name, n)) == option_forms(fields.take(n)).remove(name),
    decreases n,
{
    let done = fields_without(fields, name, n);
    if n == 0 {
        assert(fields.take(0) =~= Seq::empty());
        assert(option_forms(done) =~= option_forms(fields.take(0)).remove(name));
    } else {
        lemma_without(fields, name, n - 1);
        let field = fields[n - 1];
        let before = fields_without(fields, name, n - 1);
        lemma_push_option(fields.take(n - 1), field);
        assert(fields.take(n - 1).push(field) =~= fields.take(n));
        if field.name@ == name {
            assert(option_forms(done) =~= option_forms(fields.take(n)).remove(name));
        } else {
            lemma_push_option(before, field);
            assert(option_forms(done) =~= option_forms(fields.take(n)).remove(name));
        }
    }
}

/// A field at the end sets its option, unless it was set before.
proof fn lemma_push_option(before: Seq<JsonField>, field: JsonField)
    ensures
        option_forms(before.push(field)) == (if option_forms(before).contains_key(field.name@) {
            option_forms(before)
        } else {
            option_forms(before).insert(field.name@, form(field.value))
        }),
{
    let after = before.push(field);
    let name = field.name@;
    assert forall|other: Seq<char>| field_from(before, other, 0) is Some implies #[trigger] field_from(
        after,
        other,
        0,
    ) == field_from(before, other, 0) by {
        lemma_field_from(before, other, 0);
        lemma_field_is(after, other, 0, field_from(before, other, 0)->0);
    }
    assert forall|other: Seq<char>| field_from(before, other, 0) is None && other != name implies (
    #[trigger] field_from(after, other, 0)) is None by {
        lemma_field_from(before, other, 0);
        lemma_field_absent(after, other, 0);
    }
    if field_from(before, name, 0) is None {
        lemma_field_from(before, name, 0);
        lemma_field_is(after, name, 0, before.len() as int);
    }
    assert forall|other: Seq<char>| #[trigger] option_forms(before).contains_key(other) implies option_forms(
        after,
    )[other] == option_forms(before)[other] by {
        lemma_field_from(before, other, 0);
    }
    if option_forms(before).contains_key(name) {
        assert(option_forms(after) =~= option_forms(before));
    } else {
        assert(option_forms(after) =~= option_forms(before).insert(name, form(field.value)));
    }
}

fn drop_field(fields: Vec<JsonField>, name: &str) -> (r: Vec<JsonField>)
    ensures
        option_forms(r@) == option_forms(fields@).remove(name@),
{
    let ghost all = fields@;
    let mut rest = fields;
    let total: usize = rest.len();
    let mut kept: Vec<JsonField> = Vec::new();
    let mut i: usize = 0;
    assert(rest@ =~= all.skip(0));
    while rest.len() > 0
        invariant
            i + rest.len() == all.len(),
            all.len() == total,
            rest@ == all.skip(i as int),
            kept@ == fields_without(all, name@, i as int),
        decreases rest.len(),
    {
        let field = rest.remove(0);
        assert(field == all[i as int]);
        assert(rest@ =~= all.skip(i as int + 1));
        if !same_text(field.name.as_str(), name) {
            kept.push(field);
        }
        i = i + 1;
    }
    proof {
        lemma_without(all, name@, all.len() as int);
        assert(all.take(all.len() as int) =~= all);
    }
    kept
}

/// Takes a field out of an object.
pub fn take_field(value: Json, name: &str) -> (r: Option<Json>)
    ensures
        r == json_field(value, name@),
{
    match value {
        Json::Object(fields) => {
            let ghost all = fields@;
            let mut rest = fields;
            let mut i: usize = 0;
            while i < rest.len()
                invariant
                    i <= rest.len(),
                    rest@ == all,
                    json_fields(value) == Some(all),
                    field_from(all, name@, 0) == field_from(all, name@, i as int),
                decreases rest.len() - i,
            {
                if same_text(rest[i].name.as_str(), name) {
                    let field = rest.remove(i);
                    return Some(field.value);
                }
                i = i + 1;
            }
            None
        },
        _ => None,
    }
}

proof fn lemma_text_missing(items: Seq<Json>, a: int, b: int)
    requires
        a <= b,
        texts_in(items, a) is None,
    ensures
        texts_in(items, b) is None,
    decreases b - a,
{
    if a < b {
        lemma_text_missing(items, a, b - 1);
    }
}

/// The texts of values.
pub fn read_texts(items: &Vec<Json>) -> (r: Option<Vec<String>>)
    ensures
        (match r {
            Some(texts) => Some(all_chars(texts@)),
            None => None,
        }) == texts_in(items@, items@.len() as int),
{
    let mut texts: Vec<String> = Vec::new();
    assert(all_chars(texts@) =~= Seq::empty());
    let mut i: usize = 0;
    while i < items.len()
        invariant
            i <= items.len(),
            texts_in(items@, i as int) == Some(all_chars(texts@)),
        decreases items.len() - i,
    {
        match items[i].as_text() {
            Some(text) => {
                let ghost before = texts@;
                texts.push(text.to_owned());
                assert(all_chars(texts@) =~= all_chars(before).push(text@));
            },
            None => {
                proof {
                    lemma_text_missing(items@, i as int + 1, items@.len() as int);
                }
                return None;
            },
        }
        i = i + 1;
    }
    Some(texts)
}

proof fn lemma_source_fault_stays(items: Seq<Json>, limits: SessionLimits, a: int, b: int)
    requires
        a <= b,
        sources_in(items, limits, a) is Err,
    ensures
        sources_in(items, limits, b) == sources_in(items, limits, a),
    decreases b - a,
{
    if a < b {
        lemma_source_fault_stays(items, limits, a, b - 1);
    }
}

fn read_sources(items: &Vec<Json>, limits: &SessionLimits) -> (r: Result<
    Vec<SessionTaskSourceRecord>,
    HttpControlError,
>)
    ensures
        match sources_in(items@, *limits, items@.len() as int) {
            Ok(views) => r is Ok && source_views(r->Ok_0@) == views,
            Err(error) => r == Err::<Vec<SessionTaskSourceRecord>, HttpControlError>(error),
        },
{
    let mut sources: Vec<SessionTaskSourceRecord> = Vec::new();
    assert(source_views(sources@) =~= Seq::empty());
    let mut i: usize = 0;
    while i < items.len()
        invariant
            i <= items.len(),
            sources_in(items@, *limits, i as int) == Ok::<Seq<SourceView>, HttpControlError>(source_views(sources@)),
        decreases items.len() - i,
    {
        proof {
            if sources_in(items@, *limits, i as int + 1) is Err {
                lemma_source_fault_stays(items@, *limits, i as int + 1, items@.len() as int);
            }
        }
        match parse_source(&items[i], limits) {
            Ok(source) => {
                let ghost before = sources@;
                sources.push(source);
                assert(source_views(sources@) =~= source_views(before).push(source@));
            },
            Err(error) => return Err(error),
        }
        i = i + 1;
    }
    Ok(sources)
}

fn read_uris(task: &Json, limits: &SessionLimits) -> (r: Result<Vec<String>, HttpControlError>)
    ensures
        match task_uris(*task, *limits) {
            Ok(uris) => r is Ok && all_chars(r->Ok_0@) == uris,
            Err(error) => r == Err::<Vec<String>, HttpControlError>(error),
        },
{
    match task.get("uris") {
        None => {
            let none: Vec<String> = Vec::new();
            assert(all_chars(none@) =~= Seq::empty());
            Ok(none)
        },
        Some(Json::Array(items)) => {
            if items.len() > limits.sources {
                return Err(invalid("invalid session URI array"));
            }
            match read_texts(items) {
                Some(texts) => Ok(texts),
                None => Err(invalid("session URI must be text")),
            }
        },
        Some(_) => Err(invalid("invalid session URI array")),
    }
}

/// Source records as views, if there are any.
pub open spec fn optional_views(sources: Option<Vec<SessionTaskSourceRecord>>) -> Option<Seq<SourceView>> {
    match sources {
        Some(sources) => Some(source_views(sources@)),
        None => None,
    }
}

fn read_records(task: &Json, limits: &SessionLimits) -> (r: Result<
    Option<Vec<SessionTaskSourceRecord>>,
    HttpControlError,
>)
    ensures
        match task_sources(*task, *limits) {
            Ok(sources) => r is Ok && optional_views(r->Ok_0) == sources,
            Err(error) => r == Err::<Option<Vec<SessionTaskSourceRecord>>, HttpControlError>(error),
        },
{
    match task.get("sources") {
        None => Ok(None),
        Some(Json::Array(items)) => {
            if items.len() == 0 || items.len() > limits.sources {
                return Err(invalid("invalid session sources"));
            }
            match read_sources(items, limits) {
                Ok(sources) => Ok(Some(sources)),
                Err(error) => Err(error),
            }
        },
        Some(_) => Err(invalid("invalid session sources")),
    }
}

/// Whether addresses are those of source records, in order.
fn same_uris(uris: &Vec<String>, sources: &Vec<SessionTaskSourceRecord>) -> (r: bool)
    ensures
        r == (all_chars(uris@) == record_uris(source_views(sources@), sources@.len() as int)),
{
    let ghost views = source_views(sources@);
    let ghost texts = all_chars(uris@);
    let mut seen: usize = 0;
    let mut i: usize = 0;
    assert(texts.take(0) =~= Seq::empty());
    while i < sources.len()
        invariant
            i <= sources.len(),
            seen <= uris.len(),
            views == source_views(sources@),
            texts == all_chars(uris@),
            texts.take(seen as int) == record_uris(views, i as int),
        decreases sources.len() - i,
    {
        assert(views[i as int] == sources@[i as int]@);
        if let Some(uri) = &sources[i].persistence_safe_uri {
            let ghost next = record_uris(views, i as int + 1);
            assert(next == texts.take(seen as int).push(uri@));
            proof {
                lemma_records_grow(views, i as int + 1, views.len() as int);
            }
            if seen >= uris.len() {
                return false;
            }
            assert(texts[seen as int] == uris@[seen as int]@);
            if !same_text(uris[seen].as_str(), uri.as_str()) {
                proof {
                    let all = record_uris(views, views.len() as int);
                    assert(all.take(next.len() as int)[seen as int] == next[seen as int]);
                    assert(all[seen as int] == uri@);
                }
                return false;
            }
            assert(texts.take(seen as int + 1) =~= texts.take(seen as int).push(texts[seen as int]));
            seen = seen + 1;
        }
        i = i + 1;
    }
    assert(seen == uris.len() ==> texts.take(seen as int) =~= texts);
    seen == uris.len()
}

proof fn lemma_records_grow(sources: Seq<SourceView>, a: int, b: int)
    requires
        0 <= a <= b,
    ensures
        record_uris(sources, a).len() <= record_uris(sources, b).len(),
        record_uris(sources, b).take(record_uris(sources, a).len() as int) == record_uris(sources, a),
    decreases b - a,
{
    let first = record_uris(sources, a);
    let last = record_uris(sources, b);
    if a < b {
        lemma_records_grow(sources, a, b - 1);
        let before = record_uris(sources, b - 1);
        assert(last.take(first.len() as int) =~= before.take(first.len() as int));
    } else {
        assert(last.take(first.len() as int) =~= first);
    }
}

fn read_torrent(task: &Json, findings: &TaskFindings, resume_limit: usize) -> (r: Result<
    Option<ImportedBt>,
    HttpControlError,
>)
    ensures
        match task_torrent(*task, *findings, resume_limit as int) {
            Ok(Some(view)) => r is Ok && r->Ok_0 is Some && r->Ok_0->0@ == view,
            Ok(None) => r == Ok::<Option<ImportedBt>, HttpControlError>(None),
            Err(error) => r == Err::<Option<ImportedBt>, HttpControlError>(error),
        },
{
    let kind = task.get_text("kind");
    let torrent = match kind {
        Some(kind) => same_text(kind, "bittorrent"),
        None => false,
    };
    if torrent {
        if task.get("uris").is_some() || task.get("sources").is_some() || task.get("verification").is_some() {
            return Err(invalid("BitTorrent session member contains transfer fields"));
        }
        let found = match &findings.torrent {
            Some(found) => found,
            None => return Err(HttpControlError::Unsupported("BitTorrent feature unavailable")),
        };
        let value = match task.get("bittorrent") {
            Some(value) => value,
            None => return Err(invalid("missing BitTorrent session metadata")),
        };
        return match parse_bittorrent(value, found, resume_limit) {
            Ok(torrent) => Ok(Some(torrent)),
            Err(error) => Err(error),
        };
    }
    let transfer = match kind {
        Some(kind) => same_text(kind, "transfer"),
        None => false,
    };
    if task.get("bittorrent").is_some() || (task.get("kind").is_some() && !transfer) {
        return Err(invalid("session task kind differs from its metadata"));
    }
    Ok(None)
}

fn check_hint(value: Option<&Json>, length: usize) -> (r: bool)
    ensures
        r == hint_fits(
            match value {
                Some(value) => Some(*value),
                None => None,
            },
            length as int,
        ),
{
    match value {
        None => true,
        Some(value) => match value.as_text() {
            Some(text) => is_hex(text, length),
            None => false,
        },
    }
}

fn check_state(value: Option<&Json>, states: &Vec<String>) -> (r: bool)
    ensures
        r == state_fits(
            match value {
                Some(value) => Some(*value),
                None => None,
            },
            states@,
        ),
{
    match value {
        None => true,
        Some(value) => match value.as_text() {
            Some(text) => is_listed(states, text),
            None => false,
        },
    }
}

/// The field of an object of options.
pub fn find_option<'a>(fields: &'a Vec<JsonField>, name: &str) -> (r: Option<&'a Json>)
    ensures
        r is Some <==> option_forms(fields@).contains_key(name@),
        r matches Some(value) ==> option_forms(fields@)[name@] == form(*value),
{
    let mut i: usize = 0;
    while i < fields.len()
        invariant
            i <= fields.len(),
            field_from(fields@, name@, 0) == field_from(fields@, name@, i as int),
        decreases fields.len() - i,
    {
        if same_text(fields[i].name.as_str(), name) {
            return Some(&fields[i].value);
        }
        i = i + 1;
    }
    None
}

/// Makes the options of a task ready.
pub fn import_options(fields: Vec<JsonField>, force_pause: bool, verified: bool) -> (r: Result<
    Vec<JsonField>,
    HttpControlError,
>)
    ensures
        match imported_options(option_forms(fields@), force_pause, verified) {
            Ok(options) => r is Ok && option_forms(r->Ok_0@) == options,
            Err(error) => r == Err::<Vec<JsonField>, HttpControlError>(error),
        },
{
    let understood = match find_option(&fields, "pause") {
        None => true,
        Some(Json::Bool(_)) => true,
        Some(Json::Text(text)) => {
            same_text(text.text.as_str(), "true") || same_text(text.text.as_str(), "false")
        },
        Some(_) => false,
    };
    if !understood {
        return Err(invalid("invalid session pause option"));
    }
    if find_option(&fields, "metadata-expansion").is_some() || find_option(&fields, "verification-manifest").is_some()
        || find_option(&fields, "metalink-file-index").is_some() {
        return Err(invalid("internal verification bindings cannot be imported as options"));
    }
    let mut options = fields;
    if force_pause {
        options = set_field(options, "pause", Json::Bool(true));
        proof {
            lemma_set_option(fields@, options@, "pause"@, Json::Bool(true));
        }
    }
    if verified {
        options = drop_field(options, "piece-length");
    }
    Ok(options)
}

/// Reads a task of a session.
pub fn parse_task(task: Json, force_pause: bool, findings: &TaskFindings, rules: &SessionRules, limits: &SessionLimits) -> (r:
    Result<ImportedTask, HttpControlError>)
    ensures
        match task_of(task, force_pause, *findings, rules.task_states@, *limits) {
            Ok(view) => r is Ok && r->Ok_0@ == view,
            Err(error) => r == Err::<ImportedTask, HttpControlError>(error),
        },
{
    match &task {
        Json::Object(fields) => match reject_unknown(fields, SessionObject::Task) {
            Ok(_) => {},
            Err(error) => return Err(error),
        },
        _ => return Err(invalid("session task must be an object")),
    }
    let bittorrent = match read_torrent(&task, findings, limits.resume_bytes) {
        Ok(bittorrent) => bittorrent,
        Err(error) => return Err(error),
    };
    let document = if task.get("verification").is_some() {
        match findings.verification {
            Ok(document) => Some(document),
            Err(error) => return Err(error),
        }
    } else {
        None
    };
    assert(document == task_verification(task, *findings));
    if !check_hint(task.get("gid"), 16) {
        return Err(invalid("invalid task identity hint"));
    }
    if !check_state(task.get("state"), &rules.task_states) {
        return Err(invalid("invalid task state hint"));
    }
    let uris = match read_uris(&task, limits) {
        Ok(uris) => uris,
        Err(error) => return Err(error),
    };
    let sources = match read_records(&task, limits) {
        Ok(sources) => sources,
        Err(error) => return Err(error),
    };
    match &sources {
        Some(sources) => {
            if task.get("uris").is_some() && !same_uris(&uris, sources) {
                return Err(invalid("session URI projection differs from its source records"));
            }
        },
        None => {
            if uris.len() == 0 && bittorrent.is_none() {
                return Err(invalid("session task has no sources"));
            }
        },
    }
    let fields = match take_field(task, "options") {
        None => {
            let none: Vec<JsonField> = Vec::new();
            assert(option_forms(none@) =~= Map::empty());
            none
        },
        Some(Json::Object(fields)) => fields,
        Some(_) => return Err(invalid("session options must be an object")),
    };
    let options = match import_options(fields, force_pause, document.is_some()) {
        Ok(options) => options,
        Err(error) => return Err(error),
    };
    let (verification, metalink_index) = match document {
        Some(document) => (Some(document.ticket), document.index),
        None => (None, None),
    };
    Ok(ImportedTask { bittorrent, uris, sources, options, verification, metalink_index })
}

/// Whether two values set an option to the same.
pub fn same_form(a: &Json, b: &Json) -> (r: bool)
    ensures
        a is Text ==> r == (form(*a) == form(*b)),
        !(a is Text) ==> !r,
{
    match (a, b) {
        (Json::Text(a), Json::Text(b)) => same_text(a.text.as_str(), b.text.as_str()),
        _ => false,
    }
}

/// A field at the end sets an option that was not set.
pub proof fn lemma_field_at_end(before: Seq<JsonField>, field: JsonField)
    requires
        !option_forms(before).contains_key(field.name@),
    ensures
        option_forms(before.push(field)) == option_forms(before).insert(field.name@, form(field.value)),
{
    lemma_push_option(before, field);
}

/// A field sets its option.
pub proof fn lemma_option_of_field(fields: Seq<JsonField>, i: int)
    requires
        0 <= i < fields.len(),
    ensures
        option_forms(fields).contains_key(fields[i].name@),
{
    lemma_field_from(fields, fields[i].name@, 0);
}

/// An option that is set has a field.
pub proof fn lemma_field_of_option(fields: Seq<JsonField>, name: Seq<char>)
    requires
        option_forms(fields).contains_key(name),
    ensures
        field_from(fields, name, 0) is Some,
        0 <= field_from(fields, name, 0)->0 < fields.len(),
        fields[field_from(fields, name, 0)->0].name@ == name,
{
    lemma_field_from(fields, name, 0);
}

} // verus!
