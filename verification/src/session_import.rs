//! Importing sessions: the call, and documents in JSON.
use vstd::prelude::*;
use crate::control::HttpControlError;
use crate::json::{
    capped, command, command_value_bytes, field_from, field_text, json_field, json_fields, json_items, json_text,
    Json, JsonField,
};
use crate::native_api::returnable;
use crate::rpc_broker::{field_set, set_field};
use crate::rpc_budget::{reserved, RpcAccounts, RpcRequestLease};
use crate::session_file::{
    all_known, fault, find_option, hint_fits, parse_task, reject_unknown, take_field, task_of, ImportedTask,
    SessionLimits, SessionObject, SessionRules, TaskFindings, TaskView,
};
use crate::session_format::{invalid, SessionFormat};
use crate::hex::is_hex;
use crate::text::{byte_len, same_text};

verus! {

/// What a call to import a session brings.
#[derive(Debug)]
pub enum ImportRequest {
    /// A session in text form.
    Aria2(String),
    /// A document in JSON that is still to be read.
    Unread(String),
    Document(Json),
}

/// The form that a call names: JSON where it names none.
pub open spec fn asked_format(values: Seq<Json>) -> Result<SessionFormat, HttpControlError> {
    if values.len() < 2 {
        Ok(SessionFormat::Json)
    } else {
        match json_text(values[1]) {
            None => Err(fault("session format must be text")),
            Some(name) => match SessionFormat::named(name) {
                Some(format) => Ok(format),
                None => Err(fault("session format must be json or aria2")),
            },
        }
    }
}

/// Whether a call was understood.
pub open spec fn understood(params: Json, r: Result<ImportRequest, HttpControlError>) -> bool {
    match json_items(params) {
        None => r == Err::<ImportRequest, HttpControlError>(
            fault("importSession requires a document and optional format"),
        ),
        Some(values) => if values.len() < 1 || values.len() > 2 {
            r == Err::<ImportRequest, HttpControlError>(
                fault("importSession requires a document and optional format"),
            )
        } else {
            match asked_format(values) {
                Err(error) => r == Err::<ImportRequest, HttpControlError>(error),
                Ok(SessionFormat::Aria2) => match values[0] {
                    Json::Text(text) => r == Ok::<ImportRequest, HttpControlError>(ImportRequest::Aria2(text.text)),
                    _ => r == Err::<ImportRequest, HttpControlError>(fault("aria2 session must be text")),
                },
                Ok(SessionFormat::Json) => match values[0] {
                    Json::Text(text) => r == Ok::<ImportRequest, HttpControlError>(
                        ImportRequest::Unread(text.text),
                    ),
                    document => r == Ok::<ImportRequest, HttpControlError>(ImportRequest::Document(document)),
                },
            }
        },
    }
}

/// Reads a call to import a session.
pub fn import_request(params: Json) -> (r: Result<ImportRequest, HttpControlError>)
    ensures
        understood(params, r),
{
    let mut values = match params {
        Json::Array(values) => values,
        _ => return Err(invalid("importSession requires a document and optional format")),
    };
    if values.len() < 1 || values.len() > 2 {
        return Err(invalid("importSession requires a document and optional format"));
    }
    let format = if values.len() == 2 {
        match values[1].as_text() {
            Some(name) => match SessionFormat::parse(name) {
                Ok(format) => format,
                Err(error) => return Err(error),
            },
            None => return Err(invalid("session format must be text")),
        }
    } else {
        SessionFormat::Json
    };
    let first = values.remove(0);
    match format {
        SessionFormat::Aria2 => match first {
            Json::Text(text) => Ok(ImportRequest::Aria2(text.text)),
            _ => Err(invalid("aria2 session must be text")),
        },
        SessionFormat::Json => match first {
            Json::Text(text) => Ok(ImportRequest::Unread(text.text)),
            document => Ok(ImportRequest::Document(document)),
        },
    }
}

/// Whether a text is short enough to be read.
pub fn check_length(text: &str, limits: &SessionLimits) -> (r: Result<(), HttpControlError>)
    ensures
        r == (if byte_len(text@) > limits.document_bytes {
            Err::<(), HttpControlError>(fault("session document exceeds its byte limit"))
        } else {
            Ok::<(), HttpControlError>(())
        }),
{
    if text.len() > limits.document_bytes {
        Err(invalid("session document exceeds its byte limit"))
    } else {
        Ok(())
    }
}

/// Why JSON could not be read.
#[derive(Clone, Copy, Debug, PartialEq, Eq, Structural)]
pub enum JsonFault {
    Budget,
    Parse,
}

/// Takes a field on that was read. Of fields under one name the last holds, unless
/// reading is strict: then none may stand twice.
pub fn read_field(fields: Vec<JsonField>, name: String, value: Json, strict: bool) -> (r: Result<
    Vec<JsonField>,
    JsonFault,
>)
    ensures
        if strict && field_from(fields@, name@, 0) is Some {
            r == Err::<Vec<JsonField>, JsonFault>(JsonFault::Parse)
        } else {
            r is Ok && field_set(fields@, r->Ok_0@, name@, value)
        },
{
    if strict && find_option(&fields, name.as_str()).is_some() {
        return Err(JsonFault::Parse);
    }
    Ok(set_field(fields, name.as_str(), value))
}

/// What is charged of what is left to a request.
pub open spec fn charge_more(accounts: RpcAccounts, lease: RpcRequestLease, bytes: int) -> Result<
    (RpcAccounts, RpcRequestLease),
    HttpControlError,
> {
    match reserved(accounts, lease.allocation, bytes) {
        Err(_) => Err(HttpControlError::Busy),
        Ok((after, allocation)) => Ok((after, RpcRequestLease { allocation })),
    }
}

/// Lets a request take more; where it cannot, nothing changes.
pub fn reserve_more(accounts: &mut RpcAccounts, lease: &mut RpcRequestLease, bytes: usize) -> (r: Result<
    (),
    HttpControlError,
>)
    requires
        old(accounts).valid(),
        returnable(*old(accounts), *old(lease)),
    ensures
        final(accounts).valid(),
        returnable(*final(accounts), *final(lease)),
        match charge_more(*old(accounts), *old(lease), bytes as int) {
            Ok((after, grown)) => r is Ok && *final(accounts) == after && *final(lease) == grown,
            Err(error) => r == Err::<(), HttpControlError>(error) && *final(accounts) == *old(accounts)
                && *final(lease) == *old(lease),
        },
{
    let mut allocation = lease.allocation;
    match accounts.reserve(&mut allocation, bytes) {
        Ok(_) => {
            lease.allocation = allocation;
            Ok(())
        },
        Err(_) => Err(HttpControlError::Busy),
    }
}

/// Takes a value that was read, and charges what working on it takes.
pub fn take_json(parsed: Result<Json, JsonFault>, accounts: &mut RpcAccounts, lease: &mut RpcRequestLease) -> (r: Result<
    Json,
    HttpControlError,
>)
    requires
        old(accounts).valid(),
        returnable(*old(accounts), *old(lease)),
    ensures
        final(accounts).valid(),
        returnable(*final(accounts), *final(lease)),
        match parsed {
            Err(JsonFault::Budget) => r == Err::<Json, HttpControlError>(HttpControlError::Busy) && *final(accounts)
                == *old(accounts) && *final(lease) == *old(lease),
            Err(JsonFault::Parse) => r == Err::<Json, HttpControlError>(fault("invalid session JSON")) && *final(accounts)
                == *old(accounts) && *final(lease) == *old(lease),
            Ok(value) => match charge_more(*old(accounts), *old(lease), capped(command(value))) {
                Ok((after, grown)) => r == Ok::<Json, HttpControlError>(value) && *final(accounts) == after
                    && *final(lease) == grown,
                Err(error) => r == Err::<Json, HttpControlError>(error) && *final(accounts) == *old(accounts)
                    && *final(lease) == *old(lease),
            },
        },
{
    match parsed {
        Err(JsonFault::Budget) => Err(HttpControlError::Busy),
        Err(JsonFault::Parse) => Err(invalid("invalid session JSON")),
        Ok(value) => {
            let bytes = command_value_bytes(&value);
            match reserve_more(accounts, lease, bytes) {
                Ok(_) => Ok(value),
                Err(error) => Err(error),
            }
        },
    }
}

/// What was found out about a task; about one of which nothing was, that it has
/// no torrent and that its document cannot be verified.
pub open spec fn findings_at(findings: Seq<TaskFindings>, i: int) -> TaskFindings {
    if 0 <= i < findings.len() {
        findings[i]
    } else {
        TaskFindings {
            verification: Err(fault("verification document was not read")),
            torrent: None,
        }
    }
}

/// Whether a task says what kind it is.
pub open spec fn kind_named(task: Json) -> bool {
    field_text(task, "kind"@) == Some("transfer"@) || field_text(task, "kind"@) == Some("bittorrent"@)
}

/// The first `n` tasks of a document, or the first error. Every task that is
/// imported is paused.
pub open spec fn tasks_in(
    items: Seq<Json>,
    findings: Seq<TaskFindings>,
    states: Seq<String>,
    limits: SessionLimits,
    n: int,
) -> Result<Seq<TaskView>, HttpControlError>
    decreases n,
{
    if n <= 0 {
        Ok(Seq::empty())
    } else {
        match tasks_in(items, findings, states, limits, n - 1) {
            Err(error) => Err(error),
            Ok(before) => if !kind_named(items[n - 1]) {
                Err(fault("session task requires an explicit supported kind"))
            } else {
                match task_of(items[n - 1], true, findings_at(findings, n - 1), states, limits) {
                    Err(error) => Err(error),
                    Ok(task) => Ok(before.push(task)),
                }
            },
        }
    }
}

/// The tasks of a document, or its first error.
pub open spec fn document_tasks(
    document: Json,
    findings: Seq<TaskFindings>,
    states: Seq<String>,
    limits: SessionLimits,
) -> Result<Seq<TaskView>, HttpControlError> {
    if !(document is Object) {
        Err(fault("session must be an object"))
    } else if !all_known(SessionObject::Document, json_fields(document)->0) {
        Err(fault("unknown session field"))
    } else if json_field(document, "formatVersion"@) != Some(Json::Unsigned(3)) {
        Err(fault("unsupported session format version; expected version 3"))
    } else if !hint_fits(json_field(document, "sessionId"@), 32) {
        Err(fault("invalid session identity hint"))
    } else {
        match json_field(document, "tasks"@) {
            Some(Json::Array(items)) => if items@.len() > limits.tasks {
                Err(fault("invalid session task array"))
            } else {
                tasks_in(items@, findings, states, limits, items@.len() as int)
            },
            _ => Err(fault("invalid session task array")),
        }
    }
}

proof fn lemma_task_fault_stays(
    items: Seq<Json>,
    findings: Seq<TaskFindings>,
    states: Seq<String>,
    limits: SessionLimits,
    a: int,
    b: int,
)
    requires
        a <= b,
        tasks_in(items, findings, states, limits, a) is Err,
    ensures
        tasks_in(items, findings, states, limits, b) == tasks_in(items, findings, states, limits, a),
    decreases b - a,
{
    if a < b {
        lemma_task_fault_stays(items, findings, states, limits, a, b - 1);
    }
}

/// What tasks say.
pub open spec fn task_views(tasks: Seq<ImportedTask>) -> Seq<TaskView> {
    tasks.map_values(|task: ImportedTask| task@)
}

/// Reads the tasks of a document; what was found out about each is given.
pub fn import_document(
    document: Json,
    findings: &Vec<TaskFindings>,
    rules: &SessionRules,
    limits: &SessionLimits,
) -> (r: Result<Vec<ImportedTask>, HttpControlError>)
    ensures
        match document_tasks(document, findings@, rules.task_states@, *limits) {
            Ok(views) => r is Ok && task_views(r->Ok_0@) == views,
            Err(error) => r == Err::<Vec<ImportedTask>, HttpControlError>(error),
        },
{
    match &document {
        Json::Object(fields) => match reject_unknown(fields, SessionObject::Document) {
            Ok(_) => {},
            Err(error) => return Err(error),
        },
        _ => return Err(invalid("session must be an object")),
    }
    let current = match document.get("formatVersion") {
        Some(Json::Unsigned(version)) => *version == 3,
        _ => false,
    };
    if !current {
        return Err(invalid("unsupported session format version; expected version 3"));
    }
    let identity = match document.get("sessionId") {
        None => true,
        Some(value) => match value.as_text() {
            Some(text) => is_hex(text, 32),
            None => false,
        },
    };
    if !identity {
        return Err(invalid("invalid session identity hint"));
    }
    let items = match take_field(document, "tasks") {
        Some(Json::Array(items)) => items,
        _ => return Err(invalid("invalid session task array")),
    };
    if items.len() > limits.tasks {
        return Err(invalid("invalid session task array"));
    }
    let ghost all = items@;
    let ghost states = rules.task_states@;
    let mut rest = items;
    let total: usize = rest.len();
    let mut tasks: Vec<ImportedTask> = Vec::new();
    assert(task_views(tasks@) =~= Seq::empty());
    assert(rest@ =~= all.skip(0));
    let unknown = TaskFindings { verification: Err(invalid("verification document was not read")), torrent: None };
    let mut i: usize = 0;
    while rest.len() > 0
        invariant
            unknown == (TaskFindings {
                verification: Err(fault("verification document was not read")),
                torrent: None,
            }),
            i + rest.len() == all.len(),
            all.len() == total,
            states == rules.task_states@,
            rest@ == all.skip(i as int),
            document_tasks(document, findings@, states, *limits) == tasks_in(
                all,
                findings@,
                states,
                *limits,
                all.len() as int,
            ),
            tasks_in(all, findings@, states, *limits, i as int) == Ok::<Seq<TaskView>, HttpControlError>(
                task_views(tasks@),
            ),
        decreases rest.len(),
    {
        let task = rest.remove(0);
        assert(task == all[i as int]);
        assert(rest@ =~= all.skip(i as int + 1));
        proof {
            if tasks_in(all, findings@, states, *limits, i as int + 1) is Err {
                lemma_task_fault_stays(all, findings@, states, *limits, i as int + 1, all.len() as int);
            }
        }
        let named = match task.get_text("kind") {
            Some(kind) => same_text(kind, "transfer") || same_text(kind, "bittorrent"),
            None => false,
        };
        if !named {
            return Err(invalid("session task requires an explicit supported kind"));
        }
        let found: &TaskFindings = if i < findings.len() {
            &findings[i]
        } else {
            &unknown
        };
        match parse_task(task, true, found, rules, limits) {
            Ok(task) => {
                let ghost before = tasks@;
                tasks.push(task);
                assert(task_views(tasks@) =~= task_views(before).push(task@));
            },
            Err(error) => return Err(error),
        }
        i = i + 1;
    }
    Ok(tasks)
}

/// Every task that a document in JSON brings is paused, and there are as many as
/// it lists.
pub proof fn law_imported_tasks_are_paused(
    document: Json,
    findings: Seq<TaskFindings>,
    states: Seq<String>,
    limits: SessionLimits,
)
    ensures
        document_tasks(document, findings, states, limits) matches Ok(tasks) ==> {
            &&& tasks.len() <= limits.tasks
            &&& forall|i: int|
                0 <= i < tasks.len() ==> (#[trigger] tasks[i]).options.contains_key("pause"@)
                    && tasks[i].options["pause"@] == crate::session_file::OptionForm::Flag(true)
        },
{
    match json_field(document, "tasks"@) {
        Some(Json::Array(items)) => lemma_paused(items@, findings, states, limits, items@.len() as int),
        _ => {},
    }
}

proof fn lemma_paused(
    items: Seq<Json>,
    findings: Seq<TaskFindings>,
    states: Seq<String>,
    limits: SessionLimits,
    n: int,
)
    requires
        0 <= n,
    ensures
        tasks_in(items, findings, states, limits, n) matches Ok(tasks) ==> {
            &&& tasks.len() == n
            &&& forall|i: int|
                0 <= i < tasks.len() ==> (#[trigger] tasks[i]).options.contains_key("pause"@)
                    && tasks[i].options["pause"@] == crate::session_file::OptionForm::Flag(true)
        },
    decreases n,
{
    if n > 0 {
        lemma_paused(items, findings, states, limits, n - 1);
        reveal_strlit("pause");
        reveal_strlit("piece-length");
        assert("pause"@.len() == 5);
        assert("piece-length"@.len() == 12);
    }
}

} // verus!
