//! The plain calls of the embedding interface: each names a method of the control
//! plane and at most a task or a range.
use vstd::prelude::*;
use crate::control::HttpControlError;
use crate::json::{capped, owned_value_bytes, owned_with, rooms_suffice, text_capacity, texts_of, Json};
use crate::native_api::{
    admitted, about, control, holds_text, law_given_up_call_refunds_everything, open_call, opened, take_call,
    CallParam, ControlCall, OpenCall,
};
use crate::native_calls::{configuration, configures, ConfigurationUpdate};
use crate::native_error::{native_budget_error, NativeApiError};
use crate::rpc_budget::{charged, RpcAccounts, RpcByteCharge, RpcRequestLease};
use crate::session::Gid;
use crate::session_file::{SessionLimits, SessionRules};
use crate::session_format::SessionFormat;
use crate::session_render::{render, renders};
use crate::text::byte_len;

verus! {

/// The accounts of a call whose parameters take so many bytes, once it may be
/// sent.
pub open spec fn called(accounts: RpcAccounts, input_bytes: usize) -> Result<
    (RpcAccounts, OpenCall),
    NativeApiError,
> {
    match admitted(accounts, 0, Some(input_bytes)) {
        Err(error) => Err(error),
        Ok((after, lease)) => opened(after, lease),
    }
}

/// Admits a call by what its parameters take and makes room for its answer; a
/// refusal changes nothing.
pub fn call_sized(accounts: &mut RpcAccounts, input_bytes: usize) -> (r: Result<OpenCall, NativeApiError>)
    requires
        old(accounts).valid(),
    ensures
        final(accounts).valid(),
        match called(*old(accounts), input_bytes) {
            Ok((after, call)) => r == Ok::<OpenCall, NativeApiError>(call) && *final(accounts) == after,
            Err(error) => r == Err::<OpenCall, NativeApiError>(error) && *final(accounts) == *old(accounts),
        },
{
    proof {
        law_given_up_call_refunds_everything(*accounts, 0, Some(input_bytes));
    }
    match take_call(accounts, 0, Some(input_bytes)) {
        Ok(lease) => open_call(accounts, lease),
        Err(error) => Err(error),
    }
}

/// Admits a call, charges what its parameters own and makes room for its answer; a
/// refusal changes nothing. Texts are counted with the room that they have, which is
/// at least their bytes.
pub fn call_control(accounts: &mut RpcAccounts, params: &Json) -> (r: Result<OpenCall, NativeApiError>)
    requires
        old(accounts).valid(),
    ensures
        final(accounts).valid(),
        exists|rooms: Seq<usize>|
            rooms_suffice(rooms, texts_of(*params)) && match called(
                *old(accounts),
                capped(#[trigger] owned_with(*params, rooms)) as usize,
            ) {
                Ok((after, call)) => r == Ok::<OpenCall, NativeApiError>(call) && *final(accounts) == after,
                Err(error) => r == Err::<OpenCall, NativeApiError>(error) && *final(accounts) == *old(accounts),
            },
{
    let bytes = owned_value_bytes(params);
    proof {
        let rooms = choose|rooms: Seq<usize>|
            rooms_suffice(rooms, texts_of(*params)) && bytes == capped(#[trigger] owned_with(*params, rooms));
        assert(capped(owned_with(*params, rooms)) as usize == bytes);
    }
    call_sized(accounts, bytes)
}

/// A call without parameters.
pub open spec fn plain(method: &'static str, call: ControlCall) -> bool {
    call.method == method && call.params@ == Seq::<CallParam>::empty()
}

fn without_params(method: &'static str) -> (r: ControlCall)
    ensures
        plain(method, r),
{
    ControlCall { method, params: Vec::new() }
}

/// A call for a part of a list: `count` tasks from `offset` on, counted from the
/// end where it is negative.
pub open spec fn ranged(method: &'static str, offset: i64, count: usize, call: ControlCall) -> bool {
    call.method == method && call.params@ == seq![CallParam::Signed(offset), CallParam::Unsigned(count as u64)]
}

fn with_range(method: &'static str, offset: i64, count: usize) -> (r: ControlCall)
    ensures
        ranged(method, offset, count, r),
{
    let mut params: Vec<CallParam> = Vec::new();
    params.push(CallParam::Signed(offset));
    params.push(CallParam::Unsigned(count as u64));
    assert(params@ =~= seq![CallParam::Signed(offset), CallParam::Unsigned(count as u64)]);
    ControlCall { method, params }
}

/// Asks for the status of a task.
pub fn status(gid: Gid) -> (r: ControlCall)
    ensures
        about("aria2.tellStatus", gid, r),
{
    control("aria2.tellStatus", gid)
}

/// Asks for the URIs of a task.
pub fn uris(gid: Gid) -> (r: ControlCall)
    ensures
        about("aria2.getUris", gid, r),
{
    control("aria2.getUris", gid)
}

/// Asks for the files of a task.
pub fn files(gid: Gid) -> (r: ControlCall)
    ensures
        about("aria2.getFiles", gid, r),
{
    control("aria2.getFiles", gid)
}

/// Asks for the servers of a task.
pub fn servers(gid: Gid) -> (r: ControlCall)
    ensures
        about("aria2.getServers", gid, r),
{
    control("aria2.getServers", gid)
}

/// Asks for the peers of a task.
pub fn peers(gid: Gid) -> (r: ControlCall)
    ensures
        about("aria2.getPeers", gid, r),
{
    control("aria2.getPeers", gid)
}

/// Asks for the options of a task.
pub fn options(gid: Gid) -> (r: ControlCall)
    ensures
        about("aria2.getOption", gid, r),
{
    control("aria2.getOption", gid)
}

/// Pauses a task.
pub fn pause(gid: Gid) -> (r: ControlCall)
    ensures
        about("aria2.pause", gid, r),
{
    control("aria2.pause", gid)
}

/// Resumes a task.
pub fn resume(gid: Gid) -> (r: ControlCall)
    ensures
        about("aria2.unpause", gid, r),
{
    control("aria2.unpause", gid)
}

/// Removes a task.
pub fn remove(gid: Gid) -> (r: ControlCall)
    ensures
        about("aria2.remove", gid, r),
{
    control("aria2.remove", gid)
}

/// Pauses a task without waiting for it.
pub fn force_pause(gid: Gid) -> (r: ControlCall)
    ensures
        about("aria2.forcePause", gid, r),
{
    control("aria2.forcePause", gid)
}

/// Removes a task without waiting for it.
pub fn force_remove(gid: Gid) -> (r: ControlCall)
    ensures
        about("aria2.forceRemove", gid, r),
{
    control("aria2.forceRemove", gid)
}

/// Forgets the result of a stopped task.
pub fn remove_result(gid: Gid) -> (r: ControlCall)
    ensures
        about("aria2.removeDownloadResult", gid, r),
{
    control("aria2.removeDownloadResult", gid)
}

/// Asks for the status of every active task.
pub fn active() -> (r: ControlCall)
    ensures
        plain("aria2.tellActive", r),
{
    without_params("aria2.tellActive")
}

/// Asks for the statistics of the engine.
pub fn global_statistics() -> (r: ControlCall)
    ensures
        plain("aria2.getGlobalStat", r),
{
    without_params("aria2.getGlobalStat")
}

/// Asks for the version of the engine.
pub fn version() -> (r: ControlCall)
    ensures
        plain("aria2.getVersion", r),
{
    without_params("aria2.getVersion")
}

/// Asks for the identity of the session.
pub fn session_info() -> (r: ControlCall)
    ensures
        plain("aria2.getSessionInfo", r),
{
    without_params("aria2.getSessionInfo")
}

/// Resumes every task.
pub fn resume_all() -> (r: ControlCall)
    ensures
        plain("aria2.unpauseAll", r),
{
    without_params("aria2.unpauseAll")
}

/// Forgets the results of every stopped task.
pub fn purge_results() -> (r: ControlCall)
    ensures
        plain("aria2.purgeDownloadResult", r),
{
    without_params("aria2.purgeDownloadResult")
}

/// Asks for the diagnostics of the engine.
pub fn diagnostics() -> (r: ControlCall)
    ensures
        plain("ariax.getDiagnostics", r),
{
    without_params("ariax.getDiagnostics")
}

/// Saves the session.
pub fn save_session() -> (r: ControlCall)
    ensures
        plain("aria2.saveSession", r),
{
    without_params("aria2.saveSession")
}

/// Asks for the session as a document.
pub fn export_session() -> (r: ControlCall)
    ensures
        plain("ariax.exportSession", r),
{
    without_params("ariax.exportSession")
}

/// The text of an exported session. The longest document is charged while it is
/// written; where that is not left, the engine is busy.
pub fn exported_session<P: Fn(&Json) -> String>(
    accounts: &mut RpcAccounts,
    document: &Json,
    format: SessionFormat,
    print: P,
    rules: &SessionRules,
    limits: &SessionLimits,
) -> (r: Result<String, NativeApiError>)
    requires
        old(accounts).valid(),
        forall|value: Json| #[trigger] print.requires((&value,)),
    ensures
        final(accounts).valid(),
        *final(accounts) == *old(accounts),
        match charged(*old(accounts), RpcByteCharge { request: false, bytes: limits.document_bytes }) {
            Err(_) => r == Err::<String, NativeApiError>(NativeApiError::Control(HttpControlError::Busy)),
            Ok(_) => exists|text: Result<String, HttpControlError>| #[trigger]
                renders(*document, format, print, *rules, *limits, text) && r == (match text {
                    Ok(text) => Ok::<String, NativeApiError>(text),
                    Err(error) => Err::<String, NativeApiError>(NativeApiError::Control(error)),
                }),
        },
{
    let charge = RpcByteCharge { request: false, bytes: limits.document_bytes };
    if let Err(error) = accounts.charge(charge) {
        return Err(native_budget_error(error));
    }
    let text = render(document, format, print, rules, limits);
    let ghost given = text;
    assert(renders(*document, format, print, *rules, *limits, given));
    accounts.refund(charge);
    match text {
        Ok(text) => Ok(text),
        Err(error) => Err(NativeApiError::Control(error)),
    }
}

/// Asks the engine to stop.
pub fn shutdown() -> (r: ControlCall)
    ensures
        plain("aria2.shutdown", r),
{
    without_params("aria2.shutdown")
}

/// Asks for the status of waiting tasks.
pub fn waiting(offset: i64, count: usize) -> (r: ControlCall)
    ensures
        ranged("aria2.tellWaiting", offset, count, r),
{
    with_range("aria2.tellWaiting", offset, count)
}

/// Asks for the status of stopped tasks.
pub fn stopped(offset: i64, count: usize) -> (r: ControlCall)
    ensures
        ranged("aria2.tellStopped", offset, count, r),
{
    with_range("aria2.tellStopped", offset, count)
}

/// What a configuration takes when it is sent, by the rooms of its text and of its
/// rules.
pub open spec fn configuration_bytes(text: usize, rules: usize) -> int {
    capped(text + rules + 65_536)
}

/// What a configuration takes when it is sent.
pub fn sized_configuration(text: usize, rules: usize) -> (r: usize)
    ensures
        r == configuration_bytes(text, rules),
{
    text.saturating_add(rules).saturating_add(64 * 1024)
}

/// Whether a configuration takes so many bytes for some rooms that hold its texts.
pub open spec fn configuration_cost(update: ConfigurationUpdate, bytes: usize) -> bool {
    exists|text: usize, rules: usize|
        text >= byte_len(update.text@) && holds_text(rules, update.url_rules) && bytes
            == #[trigger] configuration_bytes(text, rules)
}

/// What a configuration takes when it is sent. Texts are counted with the room
/// that they have, which is at least their bytes.
pub fn configuration_input_bytes(update: &ConfigurationUpdate) -> (r: usize)
    ensures
        configuration_cost(*update, r),
{
    let text = text_capacity(&update.text);
    let rules: usize = match &update.url_rules {
        Some(rules) => text_capacity(rules),
        None => 0,
    };
    let r = sized_configuration(text, rules);
    assert(r == configuration_bytes(text, rules));
    r
}

/// Asks to check a configuration, and charges what it takes.
pub fn check_config(accounts: &mut RpcAccounts, update: ConfigurationUpdate, most_bytes: usize) -> (r: Result<
    (ControlCall, RpcRequestLease),
    NativeApiError,
>)
    requires
        old(accounts).valid(),
    ensures
        final(accounts).valid(),
        exists|bytes: usize| #[trigger]
            configuration_cost(update, bytes) && configures(
                *old(accounts),
                "ariax.checkConfig",
                update,
                bytes,
                most_bytes,
                *final(accounts),
                r,
            ),
{
    let bytes = configuration_input_bytes(&update);
    configuration(accounts, "ariax.checkConfig", update, bytes, most_bytes)
}

/// Asks to put a configuration in force, and charges what it takes.
pub fn reload_config(accounts: &mut RpcAccounts, update: ConfigurationUpdate, most_bytes: usize) -> (r: Result<
    (ControlCall, RpcRequestLease),
    NativeApiError,
>)
    requires
        old(accounts).valid(),
    ensures
        final(accounts).valid(),
        exists|bytes: usize| #[trigger]
            configuration_cost(update, bytes) && configures(
                *old(accounts),
                "ariax.reloadConfig",
                update,
                bytes,
                most_bytes,
                *final(accounts),
                r,
            ),
{
    let bytes = configuration_input_bytes(&update);
    configuration(accounts, "ariax.reloadConfig", update, bytes, most_bytes)
}

} // verus!
