//! Laws of calls: each goes to the method that it is named for, and each setting under the name
//! that it is set by.
use vstd::prelude::*;
use crate::bittorrent::{ratio_text, with_one, BitTorrentConfig, BitTorrentOptions, BtAdapterConfig};
use crate::control::HttpControlError;
use crate::engine_build::{EngineBuilder, InputFile, RootPath};
use crate::native_api::{ApproveHostKey, CallParam, ControlCall};
use crate::native_calls::{change_position, shutdown_outcome, PositionOrigin};
use crate::native_error::NativeApiError;
use crate::native_laws::law_a_setting_changes_its_own_name;
use crate::native_queries::{
    active, diagnostics, export_session, files, force_pause, force_remove, global_statistics, options, pause, peers,
    purge_results, remove, remove_result, resume, resume_all, save_session, servers, session_info, shutdown, status,
    stopped, uris, version, waiting,
};
use crate::pairs::{value_under, TextPair};
use crate::reconcile::StartupReconciliation;
use crate::session::Gid;
use crate::session_format::SessionFormat;
use crate::slow_slots::HttpSchedulingPolicy;
use crate::span::Span;
use crate::startup::{SchedulerRestoreError, StartupRecoveryError};
use crate::startup_restore::{startup_of, EngineStartup};
use crate::text::decimal_digits;

verus! {

/// Whether a call asks something of one task.
pub open spec fn asks(call: ControlCall, method: &'static str, gid: Gid) -> bool {
    call.method == method && call.params@.len() == 1 && call.params@[0] == CallParam::Gid(gid)
}

/// What is asked of a task, or done to it, goes to the method of that name, for that task.
pub proof fn law_calls_of_a_task_go_to_their_methods(gid: Gid, r: ControlCall)
    ensures
        call_ensures(status, (gid,), r) ==> asks(r, "aria2.tellStatus", gid),
        call_ensures(uris, (gid,), r) ==> asks(r, "aria2.getUris", gid),
        call_ensures(files, (gid,), r) ==> asks(r, "aria2.getFiles", gid),
        call_ensures(servers, (gid,), r) ==> asks(r, "aria2.getServers", gid),
        call_ensures(peers, (gid,), r) ==> asks(r, "aria2.getPeers", gid),
        call_ensures(options, (gid,), r) ==> asks(r, "aria2.getOption", gid),
        call_ensures(pause, (gid,), r) ==> asks(r, "aria2.pause", gid),
        call_ensures(resume, (gid,), r) ==> asks(r, "aria2.unpause", gid),
        call_ensures(remove, (gid,), r) ==> asks(r, "aria2.remove", gid),
        call_ensures(force_pause, (gid,), r) ==> asks(r, "aria2.forcePause", gid),
        call_ensures(force_remove, (gid,), r) ==> asks(r, "aria2.forceRemove", gid),
        call_ensures(remove_result, (gid,), r) ==> asks(r, "aria2.removeDownloadResult", gid),
{
}

/// Whether a call asks something of the engine.
pub open spec fn asks_engine(call: ControlCall, method: &'static str) -> bool {
    call.method == method && call.params@.len() == 0
}

/// What is asked of the engine, or done to it, goes to the method of that name.
pub proof fn law_calls_of_the_engine_go_to_their_methods(r: ControlCall)
    ensures
        call_ensures(active, (), r) ==> asks_engine(r, "aria2.tellActive"),
        call_ensures(global_statistics, (), r) ==> asks_engine(r, "aria2.getGlobalStat"),
        call_ensures(version, (), r) ==> asks_engine(r, "aria2.getVersion"),
        call_ensures(session_info, (), r) ==> asks_engine(r, "aria2.getSessionInfo"),
        call_ensures(resume_all, (), r) ==> asks_engine(r, "aria2.unpauseAll"),
        call_ensures(purge_results, (), r) ==> asks_engine(r, "aria2.purgeDownloadResult"),
        call_ensures(diagnostics, (), r) ==> asks_engine(r, "ariax.getDiagnostics"),
        call_ensures(save_session, (), r) ==> asks_engine(r, "aria2.saveSession"),
        call_ensures(export_session, (), r) ==> asks_engine(r, "ariax.exportSession"),
        call_ensures(shutdown, (), r) ==> asks_engine(r, "aria2.shutdown"),
{
}

/// A part of a list is asked for by where it begins and how long it is, in this order.
pub proof fn law_lists_are_asked_for_in_parts(offset: i64, count: usize, r: ControlCall)
    ensures
        call_ensures(waiting, (offset, count), r) ==> r.method == "aria2.tellWaiting" && r.params@.len() == 2
            && r.params@[0] == CallParam::Signed(offset) && r.params@[1] == CallParam::Unsigned(count as u64),
        call_ensures(stopped, (offset, count), r) ==> r.method == "aria2.tellStopped" && r.params@.len() == 2
            && r.params@[0] == CallParam::Signed(offset) && r.params@[1] == CallParam::Unsigned(count as u64),
{
}

/// A host key is approved for the task, by the challenge and the fingerprint that were spelled.
pub proof fn law_approvals_say_what_is_approved(approval: ApproveHostKey, r: ControlCall)
    requires
        call_ensures(ApproveHostKey::call, (&approval,), r),
    ensures
        r.method == "ariax.approveHostKey",
        r.params@.len() == 3,
        r.params@[0] == CallParam::Gid(approval.gid),
        r.params@[1] == CallParam::Challenge(approval.challenge),
        r.params@[2] == CallParam::Fingerprint(approval.fingerprint_sha256),
{
}

/// A limit of rates is set under the name of its direction.
pub proof fn law_rates_are_set_under_their_names<V: Fn(&Vec<TextPair>) -> Option<HttpControlError>>(
    before: BitTorrentOptions,
    download: u64,
    upload: u64,
    validate: V,
    after: BitTorrentOptions,
)
    requires
        call_ensures(
            BitTorrentOptions::rates::<V>,
            (before, download, upload, validate),
            Ok::<BitTorrentOptions, NativeApiError>(after),
        ),
    ensures
        value_under(after@, "max-download-limit"@) == Some(decimal_digits(download as nat)),
        value_under(after@, "max-upload-limit"@) == Some(decimal_digits(upload as nat)),
        forall|other: Seq<char>|
            other != "max-download-limit"@ && other != "max-upload-limit"@ ==> #[trigger] value_under(after@, other)
                == value_under(before@, other),
{
    reveal_strlit("max-download-limit");
    reveal_strlit("max-upload-limit");
    assert("max-download-limit"@.len() == 18);
    assert("max-upload-limit"@.len() == 16);
    let first = with_one(before@, "max-download-limit"@, decimal_digits(download as nat));
    law_a_setting_changes_its_own_name(before@, "max-download-limit"@, decimal_digits(download as nat));
    law_a_setting_changes_its_own_name(first, "max-upload-limit"@, decimal_digits(upload as nat));
}

/// A flag as it is sent.
pub open spec fn flagged(value: bool) -> Seq<char> {
    if value {
        "true"@
    } else {
        "false"@
    }
}

/// A limit of peers is set under its name.
pub proof fn law_peers_are_limited_under_their_name<V: Fn(&Vec<TextPair>) -> Option<HttpControlError>>(
    before: BitTorrentOptions,
    peers: u32,
    validate: V,
    after: BitTorrentOptions,
)
    requires
        call_ensures(
            BitTorrentOptions::peer_limit::<V>,
            (before, peers, validate),
            Ok::<BitTorrentOptions, NativeApiError>(after),
        ),
    ensures
        value_under(after@, "bt-max-peers"@) == Some(decimal_digits(peers as nat)),
        forall|other: Seq<char>|
            other != "bt-max-peers"@ ==> #[trigger] value_under(after@, other) == value_under(before@, other),
{
    law_a_setting_changes_its_own_name(before@, "bt-max-peers"@, decimal_digits(peers as nat));
}

/// Whether a torrent begins paused is set under that name.
pub proof fn law_torrents_are_paused_under_that_name<V: Fn(&Vec<TextPair>) -> Option<HttpControlError>>(
    before: BitTorrentOptions,
    paused: bool,
    validate: V,
    after: BitTorrentOptions,
)
    requires
        call_ensures(
            BitTorrentOptions::paused::<V>,
            (before, paused, validate),
            Ok::<BitTorrentOptions, NativeApiError>(after),
        ),
    ensures
        value_under(after@, "pause"@) == Some(flagged(paused)),
        forall|other: Seq<char>|
            other != "pause"@ ==> #[trigger] value_under(after@, other) == value_under(before@, other),
{
    law_a_setting_changes_its_own_name(before@, "pause"@, flagged(paused));
}

/// The output of a torrent is set under its name.
pub proof fn law_outputs_are_set_under_their_name<V: Fn(&Vec<TextPair>) -> Option<HttpControlError>>(
    before: BitTorrentOptions,
    name: String,
    validate: V,
    after: BitTorrentOptions,
)
    requires
        call_ensures(
            BitTorrentOptions::output::<V>,
            (before, name, validate),
            Ok::<BitTorrentOptions, NativeApiError>(after),
        ),
    ensures
        value_under(after@, "out"@) == Some(name@),
        forall|other: Seq<char>|
            other != "out"@ ==> #[trigger] value_under(after@, other) == value_under(before@, other),
{
    law_a_setting_changes_its_own_name(before@, "out"@, name@);
}

/// How peers are discovered is set under the names of the two ways.
pub proof fn law_discovery_is_set_under_its_names<V: Fn(&Vec<TextPair>) -> Option<HttpControlError>>(
    before: BitTorrentOptions,
    dht: bool,
    peer_exchange: bool,
    validate: V,
    after: BitTorrentOptions,
)
    requires
        call_ensures(
            BitTorrentOptions::discovery::<V>,
            (before, dht, peer_exchange, validate),
            Ok::<BitTorrentOptions, NativeApiError>(after),
        ),
    ensures
        value_under(after@, "enable-dht"@) == Some(flagged(dht)),
        value_under(after@, "enable-peer-exchange"@) == Some(flagged(peer_exchange)),
        forall|other: Seq<char>|
            other != "enable-dht"@ && other != "enable-peer-exchange"@ ==> #[trigger] value_under(after@, other) == value_under(
                before@,
                other,
            ),
{
    reveal_strlit("enable-dht");
    reveal_strlit("enable-peer-exchange");
    assert("enable-dht"@.len() == 10);
    assert("enable-peer-exchange"@.len() == 20);
    let first = with_one(before@, "enable-dht"@, flagged(dht));
    law_a_setting_changes_its_own_name(before@, "enable-dht"@, flagged(dht));
    law_a_setting_changes_its_own_name(first, "enable-peer-exchange"@, flagged(peer_exchange));
}

/// What is done with metadata is set under the names of the two things.
pub proof fn law_metadata_is_set_under_its_names<V: Fn(&Vec<TextPair>) -> Option<HttpControlError>>(
    before: BitTorrentOptions,
    only: bool,
    save: bool,
    validate: V,
    after: BitTorrentOptions,
)
    requires
        call_ensures(
            BitTorrentOptions::metadata::<V>,
            (before, only, save, validate),
            Ok::<BitTorrentOptions, NativeApiError>(after),
        ),
    ensures
        value_under(after@, "bt-metadata-only"@) == Some(flagged(only)),
        value_under(after@, "bt-save-metadata"@) == Some(flagged(save)),
        forall|other: Seq<char>|
            other != "bt-metadata-only"@ && other != "bt-save-metadata"@ ==> #[trigger] value_under(after@, other) == value_under(
                before@,
                other,
            ),
{
    reveal_strlit("bt-metadata-only");
    reveal_strlit("bt-save-metadata");
    assert("bt-metadata-only"@[3] == 'm');
    assert("bt-save-metadata"@[3] == 's');
    let first = with_one(before@, "bt-metadata-only"@, flagged(only));
    law_a_setting_changes_its_own_name(before@, "bt-metadata-only"@, flagged(only));
    law_a_setting_changes_its_own_name(first, "bt-save-metadata"@, flagged(save));
}

/// What a checkpoint may take, in bytes and whole seconds, is set under the names of the two.
pub proof fn law_checkpoints_are_set_under_their_names<V: Fn(&Vec<TextPair>) -> Option<HttpControlError>>(
    before: BitTorrentOptions,
    bytes: usize,
    timeout: Span,
    validate: V,
    after: BitTorrentOptions,
)
    requires
        call_ensures(
            BitTorrentOptions::checkpoint::<V>,
            (before, bytes, timeout, validate),
            Ok::<BitTorrentOptions, NativeApiError>(after),
        ),
    ensures
        timeout.nanos == 0,
        value_under(after@, "bt-resume-data-limit"@) == Some(decimal_digits(bytes as nat)),
        value_under(after@, "bt-resume-timeout"@) == Some(decimal_digits(timeout.seconds as nat)),
        forall|other: Seq<char>|
            other != "bt-resume-data-limit"@ && other != "bt-resume-timeout"@ ==> #[trigger] value_under(after@, other) == value_under(
                before@,
                other,
            ),
{
    reveal_strlit("bt-resume-data-limit");
    reveal_strlit("bt-resume-timeout");
    assert("bt-resume-data-limit"@.len() == 20);
    assert("bt-resume-timeout"@.len() == 17);
    let first = with_one(before@, "bt-resume-data-limit"@, decimal_digits(bytes as nat));
    law_a_setting_changes_its_own_name(before@, "bt-resume-data-limit"@, decimal_digits(bytes as nat));
    law_a_setting_changes_its_own_name(first, "bt-resume-timeout"@, decimal_digits(timeout.seconds as nat));
}

/// How long a torrent is seeded is set under the names of its two measures; a time that is not
/// given is not set.
pub proof fn law_seeding_is_set_under_its_names<V: Fn(&Vec<TextPair>) -> Option<HttpControlError>>(
    before: BitTorrentOptions,
    ratio_milli: u32,
    minutes: Option<String>,
    validate: V,
    after: BitTorrentOptions,
)
    requires
        call_ensures(
            BitTorrentOptions::seeding::<V>,
            (before, ratio_milli, minutes, validate),
            Ok::<BitTorrentOptions, NativeApiError>(after),
        ),
    ensures
        value_under(after@, "seed-ratio"@) == Some(ratio_text(ratio_milli)),
        minutes matches Some(minutes) ==> value_under(after@, "seed-time"@) == Some(minutes@),
        minutes is None ==> value_under(after@, "seed-time"@) == value_under(before@, "seed-time"@),
{
    reveal_strlit("seed-ratio");
    reveal_strlit("seed-time");
    assert("seed-ratio"@.len() == 10);
    assert("seed-time"@.len() == 9);
    let first = with_one(before@, "seed-ratio"@, ratio_text(ratio_milli));
    law_a_setting_changes_its_own_name(before@, "seed-ratio"@, ratio_text(ratio_milli));
    if let Some(minutes) = minutes {
        law_a_setting_changes_its_own_name(first, "seed-time"@, minutes@);
    }
}

/// A configuration is applied field by field, where the process has the feature and no limit is
/// out of range.
pub proof fn law_configurations_are_applied_as_they_are(
    config: BitTorrentConfig,
    feature: bool,
    r: Result<BtAdapterConfig, NativeApiError>,
)
    requires
        call_ensures(BitTorrentConfig::apply, (config, feature), r),
    ensures
        r is Ok <==> feature && 1 <= config.max_tasks <= 4096 && 2 <= config.max_peers <= 16384 && 2
            <= config.max_open_files <= 16384 && 1 <= config.disk_threads <= 16,
        r matches Ok(applied) ==> {
            &&& applied.listen == config.listen
            &&& applied.max_torrents == config.max_tasks
            &&& applied.peers == config.max_peers
            &&& applied.files == config.max_open_files
            &&& applied.disk_threads == config.disk_threads
            &&& applied.allow_private == config.allow_private_destinations
            &&& applied.dht == config.dht
            &&& applied.pex == config.peer_exchange
            &&& applied.encryption == 0 <==> config.encryption is Required
            &&& applied.encryption == 1 <==> config.encryption is Preferred
            &&& applied.encryption == 2 <==> config.encryption is Disabled
        },
{
}

/// A task is moved by the offset and from the origin that were given.
pub proof fn law_moves_say_where_to(gid: Gid, offset: i64, origin: PositionOrigin, r: ControlCall)
    requires
        call_ensures(change_position, (gid, offset, origin), r),
    ensures
        r.method == "aria2.changePosition",
        r.params@.len() == 3,
        r.params@[0] == CallParam::Gid(gid),
        r.params@[1] == CallParam::Signed(offset),
        origin is Start ==> r.params@[2] == CallParam::Word("POS_SET"),
        origin is Current ==> r.params@[2] == CallParam::Word("POS_CUR"),
        origin is End ==> r.params@[2] == CallParam::Word("POS_END"),
{
}

/// An engine has ended well only where nobody holds it any more, it was shut down cleanly, and its
/// work had been drained.
pub proof fn law_only_clean_ends_are_well(
    released: bool,
    report: Result<bool, String>,
    drained: Result<(), HttpControlError>,
    r: Result<(), NativeApiError>,
)
    requires
        call_ensures(shutdown_outcome, (released, report, drained), r),
    ensures
        r is Ok <==> released && report == Ok::<bool, String>(true) && drained is Ok,
        released && report is Err ==> r == Err::<(), NativeApiError>(NativeApiError::Shutdown(report->Err_0)),
        released && report is Ok && drained is Err ==> r == Err::<(), NativeApiError>(
            NativeApiError::Control(drained->Err_0),
        ),
{
}

/// A retry that waits keeps its slot, or gives it up, as its policy says; where that is left open,
/// it gives it up if it waits as long as a slow task would, or if all others idle.
pub proof fn law_waiting_retries_give_up_their_slots(policy: HttpSchedulingPolicy, wait: Span, r: bool)
    requires
        call_ensures(HttpSchedulingPolicy::release_retry_wait, (&policy, wait), r),
        wait.valid(),
        policy.config.readmit_after.valid(),
    ensures
        policy.config.retry_wait is Retain ==> !r,
        policy.config.retry_wait is Release ==> r,
        policy.config.retry_wait is Auto && policy.all_active_idle ==> r,
        policy.config.retry_wait is Auto && !policy.all_active_idle ==> (r <==> wait.seconds
            > policy.config.readmit_after.seconds || (wait.seconds == policy.config.readmit_after.seconds && wait.nanos
            >= policy.config.readmit_after.nanos)),
{
}

/// Spans are as long as they are made.
pub proof fn law_spans_are_as_long_as_they_are_made(n: u64, r: Span, other: Span, longer: bool)
    ensures
        call_ensures(Span::from_secs, (n,), r) ==> r.seconds == n && r.nanos == 0,
        call_ensures(Span::from_millis, (n,), r) ==> r.seconds == n / 1000 && r.nanos == (n % 1000) * 1_000_000,
        call_ensures(Span::longer_than, (r, other), longer) && r.valid() && other.valid() ==> (longer <==> r.seconds
            > other.seconds || (r.seconds == other.seconds && r.nanos > other.nanos)),
{
}

/// A scheduler is restored from what was reconciled, and nothing else of that is changed or
/// lost.
pub proof fn law_restoring_loses_nothing<S, P>(
    done: StartupReconciliation,
    restored: Result<(S, P), SchedulerRestoreError>,
)
    ensures
        startup_of(done, restored) is Ok <==> restored is Ok,
        startup_of(done, restored) matches Ok(startup) ==> {
            &&& restored == Ok::<(S, P), SchedulerRestoreError>((startup.scheduler, startup.restore_plan))
            &&& startup.tasks == done.tasks
            &&& startup.authority_repairs == done.authority_repairs
            &&& startup.appender_recoveries == done.appender_recoveries
            &&& startup.journal_install_recoveries == done.journal_install_recoveries
            &&& startup.no_space_probe_targets == done.no_space_probe_targets
            &&& startup.queue_session_repairs == done.queue_session_repairs
            &&& startup.terminal_session_repairs == done.terminal_session_repairs
        },
        restored matches Err(error) ==> startup_of(done, restored) == Err::<EngineStartup<S, P>, StartupRecoveryError>(
            StartupRecoveryError::SchedulerRestore(error),
        ),
{
}

/// What a builder is told is what it holds, and it is told nothing else by it.
pub proof fn law_builders_hold_what_they_are_told(
    builder: EngineBuilder,
    root: RootPath,
    text: String,
    profile: u16,
    format: SessionFormat,
    r: EngineBuilder,
)
    ensures
        call_ensures(EngineBuilder::output_root, (builder, root), r) ==> r == (EngineBuilder {
            output_root: Some(root),
            ..builder
        }),
        call_ensures(EngineBuilder::control_directory, (builder, text), r) ==> r == (EngineBuilder {
            control_directory: Some(text),
            ..builder
        }),
        call_ensures(EngineBuilder::database_path, (builder, text), r) ==> r == (EngineBuilder {
            database_path: Some(text),
            ..builder
        }),
        call_ensures(EngineBuilder::profile, (builder, profile), r) ==> r == (EngineBuilder {
            profile: Some(profile),
            ..builder
        }),
        call_ensures(EngineBuilder::input_file, (builder, text, format), r) ==> r == (EngineBuilder {
            input_file: Some(InputFile { path: text, format }),
            ..builder
        }),
{
}

} // verus!
