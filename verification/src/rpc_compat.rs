//! What of a result goes over the wire, and which calls are known.
use vstd::prelude::*;
use crate::json::{json_items, json_text, Json, JsonField};
use crate::text::same_text;

verus! {

/// A refused call.
#[derive(Clone, Copy, Debug)]
pub struct HttpRpcBackendError {
    pub code: i32,
    pub message: &'static str,
}

/// How strictly calls are taken and how much of results is shown.
#[derive(Clone, Copy, Debug, PartialEq, Eq, Structural)]
pub enum RpcCompatibility {
    Aria2,
    Extended,
    Strict,
}

impl Default for RpcCompatibility {
    fn default() -> (r: Self)
        ensures
            r == RpcCompatibility::Aria2,
    {
        RpcCompatibility::Aria2
    }
}

impl RpcCompatibility {
    /// The mode of a name.
    pub open spec fn named(name: Seq<char>) -> Option<RpcCompatibility> {
        if name == "aria2"@ {
            Some(RpcCompatibility::Aria2)
        } else if name == "extended"@ {
            Some(RpcCompatibility::Extended)
        } else if name == "strict"@ {
            Some(RpcCompatibility::Strict)
        } else {
            None
        }
    }

    /// The name of a mode.
    pub open spec fn name(self) -> Seq<char> {
        match self {
            RpcCompatibility::Aria2 => "aria2"@,
            RpcCompatibility::Extended => "extended"@,
            RpcCompatibility::Strict => "strict"@,
        }
    }

    pub fn parse(value: &str) -> (r: Result<Self, HttpRpcBackendError>)
        ensures
            r == (match Self::named(value@) {
                Some(mode) => Ok::<Self, HttpRpcBackendError>(mode),
                None => Err::<Self, HttpRpcBackendError>(
                    HttpRpcBackendError { code: -32602i32, message: "invalid RPC compatibility mode" },
                ),
            }),
    {
        if same_text(value, "aria2") {
            Ok(RpcCompatibility::Aria2)
        } else if same_text(value, "extended") {
            Ok(RpcCompatibility::Extended)
        } else if same_text(value, "strict") {
            Ok(RpcCompatibility::Strict)
        } else {
            Err(HttpRpcBackendError { code: -32602i32, message: "invalid RPC compatibility mode" })
        }
    }

    pub fn as_str(self) -> (r: &'static str)
        ensures
            r@ == self.name(),
    {
        match self {
            RpcCompatibility::Aria2 => "aria2",
            RpcCompatibility::Extended => "extended",
            RpcCompatibility::Strict => "strict",
        }
    }
}

/// Every mode is read back from its name.
pub proof fn law_mode_names_round_trip(mode: RpcCompatibility)
    ensures
        RpcCompatibility::named(mode.name()) == Some(mode),
{
    reveal_strlit("aria2");
    reveal_strlit("extended");
    reveal_strlit("strict");
    assert("aria2"@[0] == 'a');
    assert("extended"@[0] == 'e');
    assert("strict"@[0] == 's');
}

/// A field of a status that every mode shows.
pub open spec fn is_aria2_key(key: Seq<char>) -> bool {
    key == "gid"@ || key == "status"@ || key == "totalLength"@ || key == "completedLength"@ || key
        == "downloadSpeed"@ || key == "uploadSpeed"@ || key == "connections"@ || key == "errorCode"@ || key
        == "errorMessage"@ || key == "uploadLength"@ || key == "infoHash"@ || key == "seeder"@ || key
        == "numSeeders"@ || key == "bittorrent"@ || key == "pieceLength"@ || key == "numPieces"@ || key == "dir"@
        || key == "files"@ || key == "followedBy"@
}

/// A field of a status that only the extended mode shows unasked.
pub open spec fn is_extended_key(key: Seq<char>) -> bool {
    key == "slotState"@ || key == "slotReason"@ || key == "slowSince"@ || key == "demotionCount"@ || key
        == "readmitAfter"@ || key == "retryWaitConsumesSlot"@ || key == "verifiedLength"@ || key
        == "verifiedSpeed"@ || key == "retryCount"@ || key == "discardedLength"@ || key
        == "discardBudgetConsumed"@ || key == "discardBudgetRemaining"@ || key == "receivedPayloadLength"@ || key
        == "acceptedLength"@ || key == "wireSpeed"@ || key == "usefulSpeed"@ || key == "smoothedSpeed"@ || key
        == "sampleAge"@ || key == "connectionCondition"@ || key == "conditionReason"@ || key == "rateDebt"@ || key
        == "retryDiagnostic"@ || key == "infoHashV2"@ || key == "btCheckpointDirty"@ || key
        == "btCheckpointError"@ || key == "btDownloadedLength"@ || key == "btSeedTime"@
}

fn aria2_key(key: &str) -> (r: bool)
    ensures
        r == is_aria2_key(key@),
{
    same_text(key, "gid") || same_text(key, "status") || same_text(key, "totalLength") || same_text(
        key,
        "completedLength",
    ) || same_text(key, "downloadSpeed") || same_text(key, "uploadSpeed") || same_text(key, "connections")
        || same_text(key, "errorCode") || same_text(key, "errorMessage") || same_text(key, "uploadLength")
        || same_text(key, "infoHash") || same_text(key, "seeder") || same_text(key, "numSeeders") || same_text(
        key,
        "bittorrent",
    ) || same_text(key, "pieceLength") || same_text(key, "numPieces") || same_text(key, "dir") || same_text(
        key,
        "files",
    ) || same_text(key, "followedBy")
}

fn extended_key(key: &str) -> (r: bool)
    ensures
        r == is_extended_key(key@),
{
    same_text(key, "slotState") || same_text(key, "slotReason") || same_text(key, "slowSince") || same_text(
        key,
        "demotionCount",
    ) || same_text(key, "readmitAfter") || same_text(key, "retryWaitConsumesSlot") || same_text(
        key,
        "verifiedLength",
    ) || same_text(key, "verifiedSpeed") || same_text(key, "retryCount") || same_text(key, "discardedLength")
        || same_text(key, "discardBudgetConsumed") || same_text(key, "discardBudgetRemaining") || same_text(
        key,
        "receivedPayloadLength",
    ) || same_text(key, "acceptedLength") || same_text(key, "wireSpeed") || same_text(key, "usefulSpeed")
        || same_text(key, "smoothedSpeed") || same_text(key, "sampleAge") || same_text(
        key,
        "connectionCondition",
    ) || same_text(key, "conditionReason") || same_text(key, "rateDebt") || same_text(key, "retryDiagnostic")
        || same_text(key, "infoHashV2") || same_text(key, "btCheckpointDirty") || same_text(
        key,
        "btCheckpointError",
    ) || same_text(key, "btDownloadedLength") || same_text(key, "btSeedTime")
}

/// A call that tells of one task.
pub open spec fn tells_one(method: Seq<char>) -> bool {
    method == "aria2.tellStatus"@ || method == "tellStatus"@
}

/// A call that tells of the tasks at work.
pub open spec fn tells_active(method: Seq<char>) -> bool {
    method == "aria2.tellActive"@ || method == "tellActive"@
}

/// A call that tells of waiting or stopped tasks.
pub open spec fn tells_range(method: Seq<char>) -> bool {
    method == "aria2.tellWaiting"@ || method == "tellWaiting"@ || method == "aria2.tellStopped"@ || method
        == "tellStopped"@
}

/// A call that tells options.
pub open spec fn tells_options(method: Seq<char>) -> bool {
    method == "aria2.getOption"@ || method == "getOption"@ || method == "aria2.getGlobalOption"@ || method
        == "getGlobalOption"@
}

/// Which kind of call a method is.
#[derive(Clone, Copy, Debug, PartialEq, Eq, Structural)]
pub enum MethodKind {
    One,
    Active,
    Range,
    Options,
    Other,
}

pub open spec fn kind_of(method: Seq<char>) -> MethodKind {
    if tells_one(method) {
        MethodKind::One
    } else if tells_active(method) {
        MethodKind::Active
    } else if tells_range(method) {
        MethodKind::Range
    } else if tells_options(method) {
        MethodKind::Options
    } else {
        MethodKind::Other
    }
}

fn method_kind(method: &str) -> (r: MethodKind)
    ensures
        r == kind_of(method@),
{
    if same_text(method, "aria2.tellStatus") || same_text(method, "tellStatus") {
        MethodKind::One
    } else if same_text(method, "aria2.tellActive") || same_text(method, "tellActive") {
        MethodKind::Active
    } else if same_text(method, "aria2.tellWaiting") || same_text(method, "tellWaiting") || same_text(
        method,
        "aria2.tellStopped",
    ) || same_text(method, "tellStopped") {
        MethodKind::Range
    } else if same_text(method, "aria2.getOption") || same_text(method, "getOption") || same_text(
        method,
        "aria2.getGlobalOption",
    ) || same_text(method, "getGlobalOption") {
        MethodKind::Options
    } else {
        MethodKind::Other
    }
}

/// The fields of a status that a call asks for, where it does.
pub open spec fn asked_keys(method: Seq<char>, params: Json) -> Option<Seq<Json>> {
    let index = match kind_of(method) {
        MethodKind::One => 1int,
        MethodKind::Active => 0int,
        MethodKind::Range => 2int,
        _ => -1int,
    };
    match json_items(params) {
        Some(items) => if 0 <= index < items.len() {
            json_items(items[index])
        } else {
            None
        },
        None => None,
    }
}

fn status_keys<'a>(method: &str, params: &'a Json) -> (r: Option<&'a Vec<Json>>)
    ensures
        (match r {
            Some(keys) => Some(keys@),
            None => None,
        }) == asked_keys(method@, *params),
{
    let index: usize = match method_kind(method) {
        MethodKind::One => 1,
        MethodKind::Active => 0,
        MethodKind::Range => 2,
        _ => return None,
    };
    match params {
        Json::Array(items) => {
            if index < items.len() {
                match &items[index] {
                    Json::Array(keys) => Some(keys),
                    _ => None,
                }
            } else {
                None
            }
        },
        _ => None,
    }
}

/// Whether a call asks for fields of a status by name.
pub fn has_explicit_keys(method: &str, params: &Json) -> (r: bool)
    ensures
        r == (asked_keys(method@, *params) is Some),
{
    status_keys(method, params).is_some()
}

/// Whether a value names a field of a status.
pub open spec fn names_key(value: Json) -> bool {
    match json_text(value) {
        Some(key) => is_aria2_key(key) || is_extended_key(key),
        None => false,
    }
}

/// Whether every value names a field of a status.
pub open spec fn all_named(keys: Seq<Json>) -> bool {
    forall|i: int| 0 <= i < keys.len() ==> names_key(#[trigger] keys[i])
}

/// Whether a list holds a text.
pub open spec fn lists(names: Seq<String>, name: Seq<char>) -> bool {
    exists|i: int| 0 <= i < names.len() && (#[trigger] names[i])@ == name
}

/// Whether a list holds a text.
pub fn is_listed(names: &Vec<String>, name: &str) -> (r: bool)
    ensures
        r == lists(names@, name@),
{
    let mut i: usize = 0;
    while i < names.len()
        invariant
            i <= names.len(),
            forall|k: int| 0 <= k < i ==> (#[trigger] names@[k])@ != name@,
        decreases names.len() - i,
    {
        if same_text(names[i].as_str(), name) {
            return true;
        }
        i = i + 1;
    }
    false
}

/// Why a strict mode refuses a call.
pub open spec fn call_fault(
    mode: RpcCompatibility,
    methods: Seq<String>,
    method: Seq<char>,
    params: Json,
) -> Option<HttpRpcBackendError> {
    if mode != RpcCompatibility::Strict {
        None
    } else if !lists(methods, method) {
        Some(
            HttpRpcBackendError {
                code: -32601i32,
                message: "method is not in the implemented compatibility matrix",
            },
        )
    } else {
        match asked_keys(method, params) {
            Some(keys) => if all_named(keys) {
                None
            } else {
                Some(
                    HttpRpcBackendError {
                        code: -32602i32,
                        message: "status key is not in the implemented compatibility matrix",
                    },
                )
            },
            None => None,
        }
    }
}

/// Checks a call against the methods that there are and the fields that statuses
/// have.
pub fn validate(mode: RpcCompatibility, methods: &Vec<String>, method: &str, params: &Json) -> (r: Result<
    (),
    HttpRpcBackendError,
>)
    ensures
        r == (match call_fault(mode, methods@, method@, *params) {
            Some(error) => Err::<(), HttpRpcBackendError>(error),
            None => Ok::<(), HttpRpcBackendError>(()),
        }),
{
    if mode != RpcCompatibility::Strict {
        return Ok(());
    }
    if !is_listed(methods, method) {
        return Err(
            HttpRpcBackendError {
                code: -32601i32,
                message: "method is not in the implemented compatibility matrix",
            },
        );
    }
    if let Some(keys) = status_keys(method, params) {
        let mut i: usize = 0;
        while i < keys.len()
            invariant
                i <= keys.len(),
                mode == RpcCompatibility::Strict,
                lists(methods@, method@),
                asked_keys(method@, *params) == Some(keys@),
                forall|k: int| 0 <= k < i ==> names_key(#[trigger] keys@[k]),
            decreases keys.len() - i,
        {
            let known = match keys[i].as_text() {
                Some(key) => aria2_key(key) || extended_key(key),
                None => false,
            };
            if !known {
                assert(!names_key(keys@[i as int]));
                return Err(
                    HttpRpcBackendError {
                        code: -32602i32,
                        message: "status key is not in the implemented compatibility matrix",
                    },
                );
            }
            i = i + 1;
        }
    }
    Ok(())
}

/// Which fields are kept.
#[derive(Clone, Copy, Debug, PartialEq, Eq, Structural)]
pub enum Keep {
    All,
    Status,
    Options,
}

/// Whether a field is kept; `available` are the options that every client knows.
pub open spec fn keeps(keep: Keep, available: Seq<String>, name: Seq<char>) -> bool {
    match keep {
        Keep::All => true,
        Keep::Status => is_aria2_key(name),
        Keep::Options => lists(available, name),
    }
}

/// The fields that are kept among the first `n`.
pub open spec fn kept_fields(fields: Seq<JsonField>, keep: Keep, available: Seq<String>, n: int) -> Seq<JsonField>
    decreases n,
{
    if n <= 0 {
        Seq::empty()
    } else if keeps(keep, available, fields[n - 1].name@) {
        kept_fields(fields, keep, available, n - 1).push(fields[n - 1])
    } else {
        kept_fields(fields, keep, available, n - 1)
    }
}

/// Whether a value was stripped of the fields that are not kept.
pub open spec fn stripped(before: Json, after: Json, keep: Keep, available: Seq<String>) -> bool {
    match before {
        Json::Object(fields) => after is Object && after->Object_0@ == kept_fields(
            fields@,
            keep,
            available,
            fields@.len() as int,
        ),
        _ => after == before,
    }
}

/// Whether every item of a list was stripped.
pub open spec fn all_stripped(before: Json, after: Json, keep: Keep, available: Seq<String>) -> bool {
    match before {
        Json::Array(items) => after is Array && after->Array_0@.len() == items@.len() && forall|i: int|
            0 <= i < items@.len() ==> stripped(#[trigger] items@[i], after->Array_0@[i], keep, available),
        _ => after == before,
    }
}

/// What a result is stripped to for a client.
pub open spec fn projected(
    mode: RpcCompatibility,
    method: Seq<char>,
    explicit_keys: bool,
    available: Seq<String>,
    before: Json,
    after: Json,
) -> bool {
    let status = if explicit_keys {
        Keep::All
    } else {
        Keep::Status
    };
    if mode == RpcCompatibility::Extended {
        after == before
    } else {
        match kind_of(method) {
            MethodKind::One => if explicit_keys {
                after == before
            } else {
                stripped(before, after, status, available)
            },
            MethodKind::Active | MethodKind::Range => if explicit_keys {
                after == before
            } else {
                all_stripped(before, after, status, available)
            },
            MethodKind::Options => stripped(before, after, Keep::Options, available),
            MethodKind::Other => after == before,
        }
    }
}

fn keep_field(keep: Keep, available: &Vec<String>, name: &str) -> (r: bool)
    ensures
        r == keeps(keep, available@, name@),
{
    match keep {
        Keep::All => true,
        Keep::Status => aria2_key(name),
        Keep::Options => is_listed(available, name),
    }
}

fn strip(value: Json, keep: Keep, available: &Vec<String>) -> (r: Json)
    ensures
        stripped(value, r, keep, available@),
{
    match value {
        Json::Object(fields) => {
            let ghost all = fields@;
            let mut rest = fields;
            let total: usize = rest.len();
            let mut kept: Vec<JsonField> = Vec::new();
            let mut i: usize = 0;
            assert(rest@ =~= all.skip(0));
            while rest.len() > 0
                invariant
                    i + rest.len() == all.len(),
                    all.len() == total,
                    rest@ == all.skip(i as int),
                    kept@ == kept_fields(all, keep, available@, i as int),
                decreases rest.len(),
            {
                let field = rest.remove(0);
                assert(field == all[i as int]);
                assert(rest@ =~= all.skip(i as int + 1));
                if keep_field(keep, available, field.name.as_str()) {
                    kept.push(field);
                }
                i = i + 1;
            }
            Json::Object(kept)
        },
        other => other,
    }
}

fn strip_all(value: Json, keep: Keep, available: &Vec<String>) -> (r: Json)
    ensures
        all_stripped(value, r, keep, available@),
{
    match value {
        Json::Array(items) => {
            let ghost all = items@;
            let mut rest = items;
            let mut done: Vec<Json> = Vec::new();
            assert(rest@ =~= all.skip(0));
            while rest.len() > 0
                invariant
                    done.len() + rest.len() == all.len(),
                    rest@ == all.skip(done.len() as int),
                    forall|i: int|
                        0 <= i < done.len() ==> stripped(#[trigger] all[i], done@[i], keep, available@),
                decreases rest.len(),
            {
                let ghost i = done.len() as int;
                let item = rest.remove(0);
                assert(item == all[i]);
                assert(rest@ =~= all.skip(i + 1));
                done.push(strip(item, keep, available));
            }
            Json::Array(done)
        },
        other => other,
    }
}

/// Strips a result of what a client is not shown; `available` are the options
/// that every client knows.
pub fn project(
    mode: RpcCompatibility,
    method: &str,
    explicit_keys: bool,
    available: &Vec<String>,
    value: Json,
) -> (r: Json)
    ensures
        projected(mode, method@, explicit_keys, available@, value, r),
{
    if mode == RpcCompatibility::Extended {
        return value;
    }
    match method_kind(method) {
        MethodKind::One => {
            if explicit_keys {
                value
            } else {
                strip(value, Keep::Status, available)
            }
        },
        MethodKind::Active | MethodKind::Range => {
            if explicit_keys {
                value
            } else {
                strip_all(value, Keep::Status, available)
            }
        },
        MethodKind::Options => strip(value, Keep::Options, available),
        MethodKind::Other => value,
    }
}

proof fn lemma_kept(fields: Seq<JsonField>, keep: Keep, available: Seq<String>, n: int)
    requires
        0 <= n <= fields.len(),
    ensures
        forall|i: int|
            0 <= i < kept_fields(fields, keep, available, n).len() ==> keeps(
                keep,
                available,
                (#[trigger] kept_fields(fields, keep, available, n)[i]).name@,
            ),
    decreases n,
{
    if n > 0 {
        lemma_kept(fields, keep, available, n - 1);
    }
}

proof fn lemma_kept_all(fields: Seq<JsonField>, keep: Keep, available: Seq<String>, n: int)
    requires
        0 <= n <= fields.len(),
        forall|i: int| 0 <= i < fields.len() ==> keeps(keep, available, (#[trigger] fields[i]).name@),
    ensures
        kept_fields(fields, keep, available, n) == fields.take(n),
    decreases n,
{
    if n > 0 {
        lemma_kept_all(fields, keep, available, n - 1);
        assert(fields.take(n) =~= fields.take(n - 1).push(fields[n - 1]));
    } else {
        assert(fields.take(0) =~= Seq::empty());
    }
}

/// What was stripped once is not stripped further.
pub proof fn law_stripping_is_idempotent(fields: Seq<JsonField>, keep: Keep, available: Seq<String>)
    ensures
        ({
            let once = kept_fields(fields, keep, available, fields.len() as int);
            kept_fields(once, keep, available, once.len() as int) == once
        }),
{
    let once = kept_fields(fields, keep, available, fields.len() as int);
    lemma_kept(fields, keep, available, fields.len() as int);
    lemma_kept_all(once, keep, available, once.len() as int);
    assert(once.take(once.len() as int) =~= once);
}

} // verus!
