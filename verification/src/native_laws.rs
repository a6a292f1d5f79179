//! Laws of the interface for programs that embed the engine: what is sent and what is
//! read stands under its own name.
use vstd::prelude::*;
use crate::bittorrent::{
    configured, join, number_texts, ratio_text, set_pair, startup_config, texts_of, with_one, with_trackers,
    AddMagnet, AddTorrent, BitTorrentConfigView, BitTorrentOptions, StartupSetting,
};
use crate::download_laws::{sends_number, sends_text, sent};
use crate::download_options::DownloadOptions;
use crate::encoding::base64_of;
use crate::json::{field_text, json_field, json_items, json_text, Json, JsonField};
use crate::native_api::{
    admits_metalink, admits_uris, AddMetalink, AddUri, CallParam, ControlCall, MetalinkSelection,
};
use crate::native_calls::{
    admits_changes, admits_globals, admits_magnet, admits_settings, admits_sources, admits_torrent, configures,
    dump_params, origin_word, statuses, text_fields, with_settings, ConfigDumpFormat, ConfigDumpMode,
    ConfigurationUpdate, GlobalOptions, PositionOrigin,
};
use crate::native_error::NativeApiError;
use crate::options::{OptionMapView, OptionScalar};
use crate::pairs::{pair_of, pair_views, value_under, PairView};
use crate::rpc_budget::{RpcAccounts, RpcRequestLease};
use crate::session::Gid;
use crate::slow_slots::{config_options, SlowSlotConfig};
use crate::task_status::{gids_of, status_view, SshConnectionStatus, TaskStatusView};
use crate::text::{
    all_digits, decimal_digits, decimal_value, law_decimal_round_trip, lemma_decimal_digits, parsed_unsigned, parts,
};

verus! {

/// What selects files of a Metalink document is sent under its own names, and nothing
/// that was set before is lost.
pub proof fn law_selections_are_sent_under_their_names(selection: MetalinkSelection, before: OptionMapView)
    requires
        sent(before, "metalink-base-uri"@) is None,
        sent(before, "select-file"@) is None,
        sent(before, "metalink-language"@) is None,
        sent(before, "metalink-os"@) is None,
        sent(before, "metalink-version"@) is None,
        sent(before, "metalink-location"@) is None,
        sent(before, "metalink-preferred-protocol"@) is None,
        sent(before, "metalink-enable-unique-protocol"@) is None,
    ensures
        ({
            let m = selection.option_map(before);
            &&& sends_text(m, "metalink-base-uri"@, selection.base_uri)
            &&& sends_text(m, "select-file"@, selection.select_file)
            &&& sends_text(m, "metalink-language"@, selection.language)
            &&& sends_text(m, "metalink-os"@, selection.os)
            &&& sends_text(m, "metalink-version"@, selection.version)
            &&& sends_text(m, "metalink-location"@, selection.location)
            &&& sends_text(m, "metalink-preferred-protocol"@, selection.preferred_protocol)
            &&& selection.unique_protocol matches Some(unique) ==> sent(m, "metalink-enable-unique-protocol"@) == Some(
                OptionScalar::Flag(unique),
            )
            &&& selection.unique_protocol is None ==> sent(m, "metalink-enable-unique-protocol"@) is None
            &&& forall|name: Seq<char>| before.contains_key(name) ==> #[trigger] m.contains_key(name) && m[name]
                == before[name]
        }),
{
    reveal_strlit("metalink-base-uri");
    reveal_strlit("select-file");
    reveal_strlit("metalink-language");
    reveal_strlit("metalink-os");
    reveal_strlit("metalink-version");
    reveal_strlit("metalink-location");
    reveal_strlit("metalink-preferred-protocol");
    reveal_strlit("metalink-enable-unique-protocol");
    assert("metalink-base-uri"@.len() == 17 && "metalink-base-uri"@[9] == 'b');
    assert("select-file"@.len() == 11 && "select-file"@[0] == 's');
    assert("metalink-language"@.len() == 17 && "metalink-language"@[9] == 'l' && "metalink-language"@[10] == 'a');
    assert("metalink-os"@.len() == 11 && "metalink-os"@[0] == 'm');
    assert("metalink-version"@.len() == 16);
    assert("metalink-location"@.len() == 17 && "metalink-location"@[9] == 'l' && "metalink-location"@[10] == 'o');
    assert("metalink-preferred-protocol"@.len() == 27);
    assert("metalink-enable-unique-protocol"@.len() == 31);
}

/// Settings that are not named stay as they are.
proof fn lemma_settings_keep(options: OptionMapView, settings: Seq<PairView>, n: int, name: Seq<char>)
    requires
        0 <= n <= settings.len(),
        forall|i: int| 0 <= i < settings.len() ==> (#[trigger] settings[i]).name != name,
    ensures
        sent(with_settings(options, settings, n), name) == sent(options, name),
    decreases n,
{
    if n > 0 {
        lemma_settings_keep(options, settings, n - 1, name);
        assert(settings[n - 1].name != name);
    }
}

/// The last setting of a name holds.
proof fn lemma_settings_bound(options: OptionMapView, settings: Seq<PairView>, n: int, at: int)
    requires
        0 <= at < n <= settings.len(),
        forall|k: int| at < k < settings.len() ==> (#[trigger] settings[k]).name != settings[at].name,
    ensures
        sent(with_settings(options, settings, n), settings[at].name) == Some(OptionScalar::Text(settings[at].value)),
    decreases n,
{
    if n > at + 1 {
        lemma_settings_bound(options, settings, n - 1, at);
        assert(settings[n - 1].name != settings[at].name);
    }
}

/// The limits of the whole engine are sent under their own names, and so are the BitTorrent
/// settings that go with them.
pub proof fn law_global_limits_are_sent_under_their_names(options: GlobalOptions, defaults: OptionMapView)
    requires
        sent(defaults, "max-overall-download-limit"@) is None,
        sent(defaults, "max-overall-upload-limit"@) is None,
    ensures
        ({
            let m = options.limits_map(defaults);
            let named = |name: Seq<char>| options.bittorrent_defaults is Some && exists|i: int|
                0 <= i < options.bittorrent_defaults->0@.len() && (#[trigger] options.bittorrent_defaults->0@[i]).name
                    == name;
            &&& !named("max-overall-download-limit"@) ==> sends_number(
                m,
                "max-overall-download-limit"@,
                options.max_overall_download_limit,
            )
            &&& !named("max-overall-upload-limit"@) ==> sends_number(
                m,
                "max-overall-upload-limit"@,
                match options.max_overall_upload_limit {
                    Some(limit) => Some(limit as u64),
                    None => None,
                },
            )
            &&& options.bittorrent_defaults matches Some(settings) ==> forall|at: int|
                #![trigger settings@[at]]
                0 <= at < settings@.len() && (forall|k: int|
                    at < k < settings@.len() ==> (#[trigger] settings@[k]).name != settings@[at].name) ==> sent(
                    m,
                    settings@[at].name,
                ) == Some(OptionScalar::Text(settings@[at].value))
        }),
        options.scheduling is None ==> options.option_map(defaults) == options.limits_map(defaults),
{
    reveal_strlit("max-overall-download-limit");
    reveal_strlit("max-overall-upload-limit");
    assert("max-overall-download-limit"@.len() == 26);
    assert("max-overall-upload-limit"@.len() == 24);
    let first = match options.max_overall_download_limit {
        Some(limit) => defaults.insert("max-overall-download-limit"@, OptionScalar::Number(limit)),
        None => defaults,
    };
    let second = match options.max_overall_upload_limit {
        Some(limit) => first.insert("max-overall-upload-limit"@, OptionScalar::Number(limit as u64)),
        None => first,
    };
    if let Some(settings) = options.bittorrent_defaults {
        let n = settings@.len() as int;
        if forall|i: int| 0 <= i < n ==> (#[trigger] settings@[i]).name != "max-overall-download-limit"@ {
            lemma_settings_keep(second, settings@, n, "max-overall-download-limit"@);
        }
        if forall|i: int| 0 <= i < n ==> (#[trigger] settings@[i]).name != "max-overall-upload-limit"@ {
            lemma_settings_keep(second, settings@, n, "max-overall-upload-limit"@);
        }
        assert forall|at: int|
            #![trigger settings@[at]]
            0 <= at < n && (forall|k: int| at < k < n ==> (#[trigger] settings@[k]).name != settings@[at].name) implies sent(
            options.limits_map(defaults),
            settings@[at].name,
        ) == Some(OptionScalar::Text(settings@[at].value)) by {
            lemma_settings_bound(second, settings@, n, at);
        }
    }
}

/// How slow tasks are treated is sent under its own names: each policy by its code, each
/// number and each time in seconds as digits.
pub proof fn law_scheduling_is_sent_under_its_names(config: SlowSlotConfig)
    ensures
        ({
            let m = config_options(config);
            let text = |name: Seq<char>, value: Seq<char>| sent(m, name) == Some(OptionScalar::Text(value));
            let number = |name: Seq<char>, value: nat| text(name, decimal_digits(value));
            &&& number("slow-slot-speed-limit"@, config.speed_limit as nat)
            &&& number("slow-slot-grace-period"@, config.grace_period.seconds as nat)
            &&& number("slow-slot-min-active-time"@, config.min_active_time.seconds as nat)
            &&& number("slow-slot-max-demotions"@, config.max_demotions as nat)
            &&& number("slow-slot-readmit-after"@, config.readmit_after.seconds as nat)
            &&& config.policy is Off ==> text("slow-slot-policy"@, "off"@)
            &&& config.policy is Demote ==> text("slow-slot-policy"@, "demote"@)
            &&& config.policy is Pause ==> text("slow-slot-policy"@, "pause"@)
            &&& config.readmit_policy is Front ==> text("slow-slot-readmit-policy"@, "front"@)
            &&& config.readmit_policy is OriginalPosition ==> text("slow-slot-readmit-policy"@, "original-position"@)
            &&& config.readmit_policy is Back ==> text("slow-slot-readmit-policy"@, "back"@)
            &&& config.retry_wait is Retain ==> text("retry-wait-consumes-slot"@, "true"@)
            &&& config.retry_wait is Release ==> text("retry-wait-consumes-slot"@, "false"@)
            &&& config.retry_wait is Auto ==> text("retry-wait-consumes-slot"@, "auto"@)
        }),
{
    reveal_strlit("slow-slot-policy");
    reveal_strlit("slow-slot-speed-limit");
    reveal_strlit("slow-slot-grace-period");
    reveal_strlit("slow-slot-min-active-time");
    reveal_strlit("slow-slot-max-demotions");
    reveal_strlit("slow-slot-readmit-after");
    reveal_strlit("slow-slot-readmit-policy");
    reveal_strlit("retry-wait-consumes-slot");
    assert("slow-slot-policy"@.len() == 16);
    assert("slow-slot-speed-limit"@.len() == 21);
    assert("slow-slot-grace-period"@.len() == 22);
    assert("slow-slot-min-active-time"@.len() == 25);
    assert("slow-slot-max-demotions"@.len() == 23);
    assert("slow-slot-readmit-after"@.len() == 23);
    assert("slow-slot-readmit-policy"@.len() == 24);
    assert("retry-wait-consumes-slot"@.len() == 24);
    assert("slow-slot-max-demotions"@[10] == 'm');
    assert("slow-slot-readmit-after"@[10] == 'r');
    assert("slow-slot-readmit-policy"@[0] == 's');
    assert("retry-wait-consumes-slot"@[0] == 'r');
}

/// What goes with a configuration is sent under its own names, and what is known but not
/// supported passes only where that was allowed.
pub proof fn law_configurations_are_sent_under_their_names(update: ConfigurationUpdate)
    ensures
        ({
            let m = update.settings_map();
            &&& sends_text(m, "urlRules"@, update.url_rules)
            &&& sends_number(m, "expectedGeneration"@, update.expected_generation)
            &&& update.allow_known_unsupported ==> sent(m, "compatibility"@) == Some(OptionScalar::Text("aria2"@))
            &&& !update.allow_known_unsupported ==> sent(m, "compatibility"@) == Some(OptionScalar::Text("strict"@))
        }),
{
    reveal_strlit("urlRules");
    reveal_strlit("expectedGeneration");
    reveal_strlit("compatibility");
    assert("urlRules"@.len() == 8);
    assert("expectedGeneration"@.len() == 18);
    assert("compatibility"@.len() == 13);
}

/// Sources that are added go out as they were given, in one call with their options; and
/// there is at least one and not too many.
pub proof fn law_added_sources_are_sent(
    before: RpcAccounts,
    request: AddUri,
    input_bytes: usize,
    most_sources: usize,
    after: RpcAccounts,
    call: ControlCall,
    lease: RpcRequestLease,
)
    requires
        admits_uris(
            before,
            request,
            input_bytes,
            most_sources,
            after,
            Ok::<(ControlCall, RpcRequestLease), NativeApiError>((call, lease)),
        ),
    ensures
        0 < request.uris@.len() <= most_sources,
        call.method == "aria2.addUri",
        call.params@.len() == 2,
        call.params@[0] == CallParam::Texts(request.uris),
        call.params@[1] is Options,
        request.options.option_map(true) == Ok::<OptionMapView, NativeApiError>(call.params@[1]->Options_0@),
{
}

/// A Metalink document that is added goes out as its bytes in base 64, with its options and
/// selection, and to the place in the queue that was asked for, or to the end.
pub proof fn law_added_metalinks_are_sent(
    before: RpcAccounts,
    request: AddMetalink,
    input_bytes: usize,
    most_bytes: usize,
    after: RpcAccounts,
    call: ControlCall,
    lease: RpcRequestLease,
)
    requires
        admits_metalink(
            before,
            request,
            input_bytes,
            most_bytes,
            after,
            Ok::<(ControlCall, RpcRequestLease), NativeApiError>((call, lease)),
        ),
    ensures
        request.bytes@.len() <= most_bytes,
        call.method == "aria2.addMetalink",
        call.params@.len() == 3,
        call.params@[0] is Encoded && call.params@[0]->Encoded_0@ == base64_of(request.bytes@),
        call.params@[1] is Options,
        request.options.option_map(true) is Ok,
        call.params@[1]->Options_0@ == request.selection.option_map(request.options.option_map(true)->Ok_0),
        request.position matches Some(position) ==> call.params@[2] == CallParam::Signed(position),
        request.position is None ==> call.params@[2] == CallParam::Signed(-1i64),
{
}

/// A torrent that is added goes out as its bytes in base 64, with its web seeds and
/// settings, and to the place that was asked for, or to the end.
pub proof fn law_added_torrents_are_sent(
    before: RpcAccounts,
    request: AddTorrent,
    input_bytes: usize,
    after: RpcAccounts,
    call: ControlCall,
    lease: RpcRequestLease,
)
    requires
        admits_torrent(
            before,
            request,
            input_bytes,
            after,
            Ok::<(ControlCall, RpcRequestLease), NativeApiError>((call, lease)),
        ),
    ensures
        call.method == "aria2.addTorrent",
        call.params@.len() == 4,
        call.params@[0] is Encoded && call.params@[0]->Encoded_0@ == base64_of(request.bytes@),
        call.params@[1] == CallParam::Texts(request.web_seeds),
        call.params@[2] is Settings && pair_views(call.params@[2]->Settings_0@) == request.options@,
        request.position matches Some(position) ==> call.params@[3] == CallParam::Signed(position),
        request.position is None ==> call.params@[3] == CallParam::Signed(-1i64),
{
}

/// A magnet link that is added goes out as the one source of its call.
pub proof fn law_added_magnets_are_sent(
    before: RpcAccounts,
    request: AddMagnet,
    input_bytes: usize,
    after: RpcAccounts,
    call: ControlCall,
    lease: RpcRequestLease,
)
    requires
        admits_magnet(
            before,
            request,
            input_bytes,
            after,
            Ok::<(ControlCall, RpcRequestLease), NativeApiError>((call, lease)),
        ),
    ensures
        call.method == "aria2.addUri",
        call.params@.len() == 3,
        call.params@[0] is Texts && call.params@[0]->Texts_0@ == seq![request.uri],
        call.params@[1] is Settings && pair_views(call.params@[1]->Settings_0@) == request.options@,
        request.position matches Some(position) ==> call.params@[2] == CallParam::Signed(position),
        request.position is None ==> call.params@[2] == CallParam::Signed(-1i64),
{
}

/// Options that are changed go out for the task they are meant for, without a word on
/// whether it is paused, and with the wish to restart it or not.
pub proof fn law_changed_options_are_sent(
    before: RpcAccounts,
    gid: Gid,
    options: DownloadOptions,
    restart: bool,
    input_bytes: usize,
    after: RpcAccounts,
    call: ControlCall,
    lease: RpcRequestLease,
)
    requires
        admits_changes(
            before,
            gid,
            options,
            restart,
            input_bytes,
            after,
            Ok::<(ControlCall, RpcRequestLease), NativeApiError>((call, lease)),
        ),
    ensures
        !options.pause,
        call.method == "aria2.changeOption",
        call.params@.len() == 3,
        call.params@[0] == CallParam::Gid(gid),
        call.params@[1] is Options,
        options.option_map(false) == Ok::<OptionMapView, NativeApiError>(call.params@[1]->Options_0@),
        call.params@[2] == CallParam::Restart(restart),
{
}

/// Sources that replace others go out for the task they are meant for, as they were
/// given.
pub proof fn law_replaced_sources_are_sent(
    before: RpcAccounts,
    gid: Gid,
    uris: Vec<String>,
    input_bytes: usize,
    most_sources: usize,
    after: RpcAccounts,
    call: ControlCall,
    lease: RpcRequestLease,
)
    requires
        admits_sources(
            before,
            gid,
            uris,
            input_bytes,
            most_sources,
            after,
            Ok::<(ControlCall, RpcRequestLease), NativeApiError>((call, lease)),
        ),
    ensures
        0 < uris@.len() <= most_sources,
        call.method == "ariax.replaceSources",
        call.params@.len() == 2,
        call.params@[0] == CallParam::Gid(gid),
        call.params@[1] == CallParam::Texts(uris),
{
}

/// Options of the engine go out as its limits and defaults, with the scheduling over them
/// where there is one.
pub proof fn law_global_options_are_sent(
    before: RpcAccounts,
    options: GlobalOptions,
    task_bytes: usize,
    bt_bytes: usize,
    after: RpcAccounts,
    call: ControlCall,
    lease: RpcRequestLease,
)
    requires
        admits_globals(
            before,
            options,
            task_bytes,
            bt_bytes,
            after,
            Ok::<(ControlCall, RpcRequestLease), NativeApiError>((call, lease)),
        ),
    ensures
        options.task_defaults.option_map(false) is Ok,
        call.method == "aria2.changeGlobalOption",
        call.params@.len() == 1,
        call.params@[0] is Options,
        ({
            let defaults = options.task_defaults.option_map(false)->Ok_0;
            let all = call.params@[0]->Options_0@;
            &&& options.scheduling is None ==> all == options.limits_map(defaults)
            &&& options.scheduling matches Some(config) ==> forall|name: Seq<char>|
                #![trigger sent(all, name)]
                sent(all, name) == (if config_options(config).contains_key(name) {
                    sent(config_options(config), name)
                } else {
                    sent(options.limits_map(defaults), name)
                })
        }),
{
}

/// A place in a queue is counted from what the caller says: its start, the task's own
/// place or its end.
pub proof fn law_places_are_counted_from_their_origin(origin: PositionOrigin)
    ensures
        origin is Start ==> origin_word(origin) == "POS_SET",
        origin is Current ==> origin_word(origin) == "POS_CUR",
        origin is End ==> origin_word(origin) == "POS_END",
{
}

/// What is shown of a configuration is what was asked for, in the form that was asked for,
/// and of a task only where one was named.
pub proof fn law_dumps_show_what_is_asked_for(mode: ConfigDumpMode, format: ConfigDumpFormat)
    ensures
        ({
            let params = dump_params(mode, format);
            &&& mode is Defaults ==> params[0] == CallParam::Word("defaults")
            &&& mode is Effective ==> params[0] == CallParam::Word("effective")
            &&& mode is TaskEffective ==> params[0] == CallParam::Word("task-effective")
            &&& mode is UrlRules ==> params[0] == CallParam::Word("url-rules")
            &&& format is Flat ==> params[1] == CallParam::Word("flat")
            &&& format is Json ==> params[1] == CallParam::Word("json")
            &&& format is Toml ==> params[1] == CallParam::Word("toml")
            &&& mode matches ConfigDumpMode::TaskEffective(gid) ==> params.len() == 3 && params[2] == CallParam::Gid(gid)
            &&& !(mode is TaskEffective) ==> params.len() == 2
        }),
{
}

/// Options that a call returns are those of its fields that are texts, each under its own
/// name and in their order.
pub proof fn law_returned_options_are_the_texts(fields: Seq<JsonField>)
    ensures
        ({
            let pairs = text_fields(fields, fields.len() as int);
            &&& forall|i: int|
                0 <= i < fields.len() && json_text((#[trigger] fields[i]).value) is Some ==> pairs.contains(
                    PairView { name: fields[i].name@, value: json_text(fields[i].value)->0 },
                )
            &&& forall|k: int|
                0 <= k < pairs.len() ==> exists|i: int|
                    0 <= i < fields.len() && (#[trigger] fields[i]).name@ == (#[trigger] pairs[k]).name && json_text(
                        fields[i].value,
                    ) == Some(pairs[k].value)
        }),
{
    lemma_text_fields(fields, fields.len() as int);
}

proof fn lemma_text_fields(fields: Seq<JsonField>, n: int)
    requires
        0 <= n <= fields.len(),
    ensures
        ({
            let pairs = text_fields(fields, n);
            &&& forall|i: int|
                0 <= i < n && json_text((#[trigger] fields[i]).value) is Some ==> pairs.contains(
                    PairView { name: fields[i].name@, value: json_text(fields[i].value)->0 },
                )
            &&& forall|k: int|
                0 <= k < pairs.len() ==> exists|i: int|
                    0 <= i < n && (#[trigger] fields[i]).name@ == (#[trigger] pairs[k]).name && json_text(
                        fields[i].value,
                    ) == Some(pairs[k].value)
        }),
    decreases n,
{
    if n > 0 {
        lemma_text_fields(fields, n - 1);
        let before = text_fields(fields, n - 1);
        let pairs = text_fields(fields, n);
        assert forall|i: int| 0 <= i < n && json_text((#[trigger] fields[i]).value) is Some implies pairs.contains(
            PairView { name: fields[i].name@, value: json_text(fields[i].value)->0 },
        ) by {
            let pair = PairView { name: fields[i].name@, value: json_text(fields[i].value)->0 };
            if i < n - 1 {
                let k = before.index_of(pair);
                assert(pairs[k] == pair);
            } else {
                assert(pairs[before.len() as int] == pair);
            }
        }
        assert forall|k: int| 0 <= k < pairs.len() implies exists|i: int|
            0 <= i < n && (#[trigger] fields[i]).name@ == (#[trigger] pairs[k]).name && json_text(fields[i].value) == Some(
                pairs[k].value,
            ) by {
            if k < before.len() {
                assert(pairs[k] == before[k]);
                let i = choose|i: int|
                    0 <= i < n - 1 && (#[trigger] fields[i]).name@ == before[k].name && json_text(fields[i].value)
                        == Some(before[k].value);
                assert(fields[i].name@ == pairs[k].name);
            } else {
                assert(fields[n - 1].name@ == pairs[k].name);
            }
        }
    }
}

/// A status is read from the fields of its own names: the state by its name, the lengths
/// and speeds as the digits that spell them, and the tasks that follow in their order.
pub proof fn law_statuses_are_read_under_their_names(
    value: Json,
    ssh: Option<SshConnectionStatus>,
    status: TaskStatusView,
)
    requires
        status_view(value, ssh) == Ok::<TaskStatusView, NativeApiError>(status),
    ensures
        status.status is Active <==> field_text(value, "status"@) == Some("active"@),
        status.status is Waiting <==> field_text(value, "status"@) == Some("waiting"@),
        status.status is Paused <==> field_text(value, "status"@) == Some("paused"@),
        status.status is Complete <==> field_text(value, "status"@) == Some("complete"@),
        status.status is Error <==> field_text(value, "status"@) == Some("error"@),
        status.status is Removed <==> field_text(value, "status"@) == Some("removed"@),
        forall|n: u64|
            field_text(value, "totalLength"@) == Some(#[trigger] decimal_digits(n as nat)) ==> status.total_length == n,
        forall|n: u64|
            field_text(value, "completedLength"@) == Some(#[trigger] decimal_digits(n as nat)) ==> status.completed_length
                == n,
        json_field(value, "infoHash"@) is Some <==> status.bittorrent is Some,
        status.bittorrent matches Some(torrent) ==> {
            &&& json_text(json_field(value, "infoHash"@)->0) == Some(torrent.info_hash)
            &&& field_text(value, "infoHashV2"@) == torrent.info_hash_v2
            &&& torrent.seeder <==> field_text(value, "seeder"@) == Some("true"@)
            &&& forall|n: u64|
                field_text(value, "connections"@) == Some(#[trigger] decimal_digits(n as nat)) ==> torrent.peers == n
            &&& forall|n: u64|
                field_text(value, "numSeeders"@) == Some(#[trigger] decimal_digits(n as nat)) ==> torrent.seeders == n
            &&& forall|n: u64|
                field_text(value, "btDownloadedLength"@) == Some(#[trigger] decimal_digits(n as nat))
                    ==> torrent.downloaded == n
            &&& forall|n: u64|
                field_text(value, "uploadLength"@) == Some(#[trigger] decimal_digits(n as nat)) ==> torrent.uploaded == n
            &&& forall|n: u64|
                field_text(value, "downloadSpeed"@) == Some(#[trigger] decimal_digits(n as nat))
                    ==> torrent.download_speed == n
            &&& forall|n: u64|
                field_text(value, "uploadSpeed"@) == Some(#[trigger] decimal_digits(n as nat)) ==> torrent.upload_speed
                    == n
            &&& json_field(value, "btSeedTime"@) == Some(Json::Unsigned(torrent.seed_seconds))
            &&& json_field(value, "btCheckpointDirty"@) == Some(Json::Bool(torrent.checkpoint_dirty))
        },
        json_field(value, "followedBy"@) is None ==> status.followed_by.len() == 0,
        json_field(value, "followedBy"@) matches Some(list) ==> json_items(list) is Some && status.followed_by.len()
            == json_items(list)->0.len() && forall|i: int|
            0 <= i < status.followed_by.len() ==> Some(#[trigger] status.followed_by[i]) == crate::json::json_gid(
                json_items(list)->0[i],
            ),
        json_field(value, "hostKeyChallenge"@) is Some <==> status.host_key_challenge is Some,
        status.host_key_challenge matches Some(challenge) ==> {
            let told = json_field(value, "hostKeyChallenge"@)->0;
            &&& field_text(told, "host"@) == Some(challenge.canonical_host)
            &&& json_field(told, "port"@) == Some(Json::Unsigned(challenge.port as u64))
            &&& challenge.port > 0
            &&& field_text(told, "algorithm"@) == Some(challenge.algorithm)
        },
        json_field(value, "sshConnection"@) is Some ==> status.ssh_connection == ssh,
        json_field(value, "sshConnection"@) is None ==> status.ssh_connection is None,
{
    reveal_strlit("active");
    reveal_strlit("waiting");
    reveal_strlit("paused");
    reveal_strlit("complete");
    reveal_strlit("error");
    reveal_strlit("removed");
    reveal_strlit("true");
    reveal_strlit("false");
    assert("active"@.len() == 6 && "active"@[0] == 'a');
    assert("waiting"@.len() == 7 && "waiting"@[0] == 'w');
    assert("paused"@.len() == 6 && "paused"@[0] == 'p');
    assert("complete"@.len() == 8);
    assert("error"@.len() == 5);
    assert("removed"@.len() == 7 && "removed"@[0] == 'r');
    assert("true"@.len() == 4);
    assert("false"@.len() == 5);
    assert forall|n: u64| parsed_unsigned(#[trigger] decimal_digits(n as nat), u64::MAX as int) == Some(n as int) by {
        law_decimal_round_trip(n as nat, u64::MAX as int);
    }
    if let Some(list) = json_field(value, "followedBy"@) {
        if let Some(items) = json_items(list) {
            lemma_gids(items, items.len() as int);
        }
    }
}

proof fn lemma_gids(items: Seq<Json>, n: int)
    requires
        0 <= n <= items.len(),
    ensures
        gids_of(items, n) matches Some(gids) ==> gids.len() == n && forall|i: int|
            0 <= i < n ==> Some(#[trigger] gids[i]) == crate::json::json_gid(items[i]),
    decreases n,
{
    if n > 0 {
        lemma_gids(items, n - 1);
        if let Some(gids) = gids_of(items, n) {
            let before = gids_of(items, n - 1)->0;
            assert forall|i: int| 0 <= i < n implies Some(#[trigger] gids[i]) == crate::json::json_gid(items[i]) by {
                if i < n - 1 {
                    assert(gids[i] == before[i]);
                }
            }
        }
    }
}

/// A list of statuses is read item by item, in its order.
pub proof fn law_status_lists_keep_their_order(
    items: Seq<Json>,
    connections: Seq<Option<SshConnectionStatus>>,
    views: Seq<TaskStatusView>,
)
    requires
        statuses(items, connections, items.len() as int) == Ok::<Seq<TaskStatusView>, NativeApiError>(views),
        connections.len() == items.len(),
    ensures
        views.len() == items.len(),
        forall|i: int|
            0 <= i < items.len() ==> status_view(items[i], connections[i]) == Ok::<TaskStatusView, NativeApiError>(
                #[trigger] views[i],
            ),
{
    lemma_statuses(items, connections, items.len() as int);
}

proof fn lemma_statuses(items: Seq<Json>, connections: Seq<Option<SshConnectionStatus>>, n: int)
    requires
        0 <= n <= items.len(),
        connections.len() == items.len(),
    ensures
        statuses(items, connections, n) matches Ok(views) ==> views.len() == n && forall|i: int|
            0 <= i < n ==> status_view(items[i], connections[i]) == Ok::<TaskStatusView, NativeApiError>(
                #[trigger] views[i],
            ),
    decreases n,
{
    if n > 0 {
        lemma_statuses(items, connections, n - 1);
    }
}

/// A startup setting of BitTorrent changes what its name says and nothing else.
pub proof fn law_startup_settings_change_what_they_name(
    config: BitTorrentConfigView,
    setting: StartupSetting,
    after: BitTorrentConfigView,
)
    requires
        configured(config, setting) == Ok::<BitTorrentConfigView, NativeApiError>(after),
    ensures
        setting.name@ == "bt-listen-address"@ ==> setting.parsed is Text && setting.parsed->Text_socket is Some && after
            == (BitTorrentConfigView { listen: setting.parsed->Text_socket->0@, ..config }),
        setting.name@ == "bt-allow-private-destinations"@ ==> setting.parsed is Flag && after == (BitTorrentConfigView {
            allow_private_destinations: setting.parsed->Flag_0,
            ..config
        }),
        setting.name@ == "enable-dht"@ ==> setting.parsed is Flag && after == (BitTorrentConfigView {
            dht: setting.parsed->Flag_0,
            ..config
        }),
        setting.name@ == "enable-peer-exchange"@ ==> setting.parsed is Flag && after == (BitTorrentConfigView {
            peer_exchange: setting.parsed->Flag_0,
            ..config
        }),
        setting.name@ == "bt-encryption"@ ==> setting.parsed is Choice && after == (BitTorrentConfigView {
            encryption: after.encryption,
            ..config
        }) && (after.encryption is Required <==> setting.parsed->Choice_0@ == "required"@) && (after.encryption
            is Preferred <==> setting.parsed->Choice_0@ == "preferred"@) && (after.encryption is Disabled
            <==> setting.parsed->Choice_0@ == "disabled"@),
        setting.name@ == "bt-listen-address"@ || setting.name@ == "bt-allow-private-destinations"@ || setting.name@
            == "enable-dht"@ || setting.name@ == "enable-peer-exchange"@ || setting.name@ == "bt-encryption"@,
{
    reveal_strlit("bt-listen-address");
    reveal_strlit("bt-allow-private-destinations");
    reveal_strlit("enable-dht");
    reveal_strlit("enable-peer-exchange");
    reveal_strlit("bt-encryption");
    reveal_strlit("required");
    reveal_strlit("preferred");
    reveal_strlit("disabled");
    assert("bt-listen-address"@.len() == 17);
    assert("bt-allow-private-destinations"@.len() == 29);
    assert("enable-dht"@.len() == 10);
    assert("enable-peer-exchange"@.len() == 20);
    assert("bt-encryption"@.len() == 13);
    assert("required"@.len() == 8 && "required"@[0] == 'r');
    assert("preferred"@.len() == 9);
    assert("disabled"@.len() == 8 && "disabled"@[0] == 'd');
}

/// Unless it is set otherwise, BitTorrent listens on this machine only and reaches no
/// private destinations.
pub proof fn law_bittorrent_starts_closed(settings: Seq<StartupSetting>, n: int, config: BitTorrentConfigView)
    requires
        0 <= n <= settings.len(),
        startup_config(settings, n) == Ok::<BitTorrentConfigView, NativeApiError>(config),
    ensures
        (forall|i: int| 0 <= i < n ==> (#[trigger] settings[i]).name@ != "bt-allow-private-destinations"@)
            ==> !config.allow_private_destinations,
        (forall|i: int| 0 <= i < n ==> (#[trigger] settings[i]).name@ != "bt-listen-address"@) ==> config.listen
            == "127.0.0.1:0"@,
        config.in_range(),
    decreases n,
{
    if n > 0 {
        let before = startup_config(settings, n - 1)->Ok_0;
        law_bittorrent_starts_closed(settings, n - 1, before);
        law_startup_settings_change_what_they_name(before, settings[n - 1], config);
        assert(settings[n - 1].name@ == settings[n - 1].name@);
    }
}

/// A ratio is written as a decimal number of three places that has its value.
pub proof fn law_ratios_are_written_as_they_are(ratio_milli: u32)
    ensures
        exists|whole: Seq<char>, places: Seq<char>|
            {
                &&& #[trigger] pointed(whole, places) == ratio_text(ratio_milli)
                &&& all_digits(whole)
                &&& all_digits(places)
                &&& places.len() == 3
                &&& decimal_value(whole) * 1000 + decimal_value(places) == ratio_milli
            },
{
    reveal_strlit(".");
    reveal_strlit("0");
    reveal_strlit("00");
    reveal_strlit("");
    let whole = decimal_digits((ratio_milli / 1000) as nat);
    let rest = (ratio_milli % 1000) as nat;
    let fraction = decimal_digits(rest);
    lemma_decimal_digits((ratio_milli / 1000) as nat);
    lemma_decimal_digits(rest);
    lemma_digit_count(rest);
    let zeros = if rest < 10 {
        seq!['0', '0']
    } else if rest < 100 {
        seq!['0']
    } else {
        Seq::<char>::empty()
    };
    let places = zeros + fraction;
    assert("00"@ =~= seq!['0', '0']);
    assert("0"@ =~= seq!['0']);
    assert(""@ =~= Seq::<char>::empty());
    assert(pointed(whole, places) =~= ratio_text(ratio_milli));
    assert forall|i: int| 0 <= i < places.len() implies crate::text::is_digit(#[trigger] places[i]) by {
        if i >= zeros.len() {
            assert(places[i] == fraction[i - zeros.len()]);
        }
    }
    lemma_zeros_before(zeros, fraction);
}

/// Digits around a point.
pub open spec fn pointed(whole: Seq<char>, places: Seq<char>) -> Seq<char> {
    whole + "."@ + places
}

/// A number below a thousand has as many digits as it takes.
proof fn lemma_digit_count(n: nat)
    requires
        n < 1000,
    ensures
        n < 10 ==> decimal_digits(n).len() == 1,
        10 <= n < 100 ==> decimal_digits(n).len() == 2,
        100 <= n ==> decimal_digits(n).len() == 3,
{
    reveal_with_fuel(decimal_digits, 4);
}

/// Zeros before a number do not change it.
proof fn lemma_zeros_before(zeros: Seq<char>, digits: Seq<char>)
    requires
        forall|i: int| 0 <= i < zeros.len() ==> zeros[i] == '0',
    ensures
        decimal_value(zeros + digits) == decimal_value(digits),
    decreases zeros.len() + digits.len(),
{
    let all = zeros + digits;
    if digits.len() > 0 {
        assert(all.drop_last() =~= zeros + digits.drop_last());
        assert(all.last() == digits.last());
        lemma_zeros_before(zeros, digits.drop_last());
    } else if zeros.len() > 0 {
        assert(all =~= zeros);
        assert(zeros.drop_last() + digits =~= zeros.drop_last());
        lemma_zeros_before(zeros.drop_last(), digits);
        assert(zeros.last() == zeros[zeros.len() - 1]);
        assert(decimal_value(digits) == 0);
    } else {
        assert(all =~= digits);
    }
}

/// Settings of a torrent that are changed go out for the task they are meant for, as they
/// were given.
pub proof fn law_changed_settings_are_sent(
    before: RpcAccounts,
    gid: Gid,
    options: BitTorrentOptions,
    input_bytes: usize,
    after: RpcAccounts,
    call: ControlCall,
    lease: RpcRequestLease,
)
    requires
        admits_settings(
            before,
            gid,
            options,
            input_bytes,
            after,
            Ok::<(ControlCall, RpcRequestLease), NativeApiError>((call, lease)),
        ),
    ensures
        call.method == "aria2.changeOption",
        call.params@.len() == 2,
        call.params@[0] == CallParam::Gid(gid),
        call.params@[1] is Settings && pair_views(call.params@[1]->Settings_0@) == options@,
{
}

/// A configuration goes out as its text, to the method that it is meant for, with what goes with
/// it; one that is too long goes nowhere, and a refusal costs nothing.
pub proof fn law_configurations_are_sent(
    before: RpcAccounts,
    method: &'static str,
    update: ConfigurationUpdate,
    input_bytes: usize,
    most_bytes: usize,
    after: RpcAccounts,
    r: Result<(ControlCall, RpcRequestLease), NativeApiError>,
)
    requires
        configures(before, method, update, input_bytes, most_bytes, after, r),
    ensures
        r is Err ==> after == before,
        r matches Ok((call, lease)) ==> {
            &&& update.length() <= most_bytes
            &&& call.method == method
            &&& call.params@.len() == 2
            &&& call.params@[0] == CallParam::Text(update.text)
            &&& call.params@[1] is Options && call.params@[1]->Options_0@ == update.settings_map()
        },
{
}

/// A part without a separator that follows lengthens the last part.
proof fn lemma_parts_grow(s: Seq<char>, tail: Seq<char>, separator: char)
    requires
        !tail.contains(separator),
    ensures
        parts(s, separator).len() > 0,
        parts(s + tail, separator) == parts(s, separator).drop_last().push(parts(s, separator).last() + tail),
    decreases tail.len(),
{
    lemma_some_part(s, separator);
    let before = parts(s, separator);
    if tail.len() == 0 {
        assert(s + tail =~= s);
        assert(before.last() + tail =~= before.last());
        assert(before =~= before.drop_last().push(before.last()));
    } else {
        let rest = tail.drop_last();
        assert forall|i: int| 0 <= i < rest.len() implies rest[i] != separator by {
            assert(tail.contains(tail[i]));
        }
        assert(!rest.contains(separator));
        assert(tail.contains(tail.last()));
        lemma_parts_grow(s, rest, separator);
        assert((s + tail).drop_last() =~= s + rest);
        assert((s + tail).last() == tail.last());
        let middle = parts(s + rest, separator);
        assert(middle.drop_last() =~= before.drop_last());
        assert(middle.last() == before.last() + rest);
        assert((before.last() + rest).push(tail.last()) =~= before.last() + tail);
    }
}

proof fn lemma_some_part(s: Seq<char>, separator: char)
    ensures
        parts(s, separator).len() > 0,
    decreases s.len(),
{
    if s.len() > 0 {
        lemma_some_part(s.drop_last(), separator);
    }
}

/// Texts that are joined by commas part again into the same texts, as long as none of them holds
/// a comma.
pub proof fn law_joined_texts_part_again(texts: Seq<Seq<char>>)
    requires
        texts.len() > 0,
        forall|i: int| 0 <= i < texts.len() ==> !(#[trigger] texts[i]).contains(','),
    ensures
        parts(join(texts, ","@), ',') == texts,
    decreases texts.len(),
{
    reveal_strlit(",");
    assert(","@ =~= seq![',']);
    let empty = Seq::<char>::empty();
    if texts.len() == 1 {
        lemma_parts_grow(empty, texts[0], ',');
        assert(empty + texts[0] =~= texts[0]);
        assert(parts(empty, ',') =~= seq![empty]);
        assert(parts(texts[0], ',') =~= texts);
    } else {
        let first = texts.drop_last();
        assert forall|i: int| 0 <= i < first.len() implies !(#[trigger] first[i]).contains(',') by {
            assert(first[i] == texts[i]);
        }
        law_joined_texts_part_again(first);
        let head = join(first, ","@);
        let whole = head + ","@;
        assert(whole =~= head.push(','));
        assert(whole.drop_last() =~= head);
        assert(parts(whole, ',') == first.push(empty));
        assert(!texts.last().contains(',')) by {
            assert(texts[texts.len() - 1] == texts.last());
        }
        lemma_parts_grow(whole, texts.last(), ',');
        assert(first.push(empty).drop_last() =~= first);
        assert(empty + texts.last() =~= texts.last());
        assert(first.push(texts.last()) =~= texts);
    }
}

/// A setting of one name leaves those of other names as they are.
proof fn lemma_set_other(settings: Seq<PairView>, pair: PairView, name: Seq<char>)
    requires
        name != pair.name,
    ensures
        value_under(set_pair(settings, pair), name) == value_under(settings, name),
{
    lemma_pair_found(settings, pair.name, 0);
    match pair_of(settings, pair.name, 0) {
        Some(i) => {
            lemma_same_places(settings, settings.update(i, pair), name, 0);
        },
        None => {
            lemma_pushed_place(settings, pair, name, 0);
        },
    }
}

proof fn lemma_pair_found(settings: Seq<PairView>, name: Seq<char>, from: int)
    requires
        0 <= from,
    ensures
        pair_of(settings, name, from) matches Some(i) ==> from <= i < settings.len() && settings[i].name == name,
    decreases settings.len() - from,
{
    if from < settings.len() && settings[from].name != name {
        lemma_pair_found(settings, name, from + 1);
    }
}

proof fn lemma_same_places(a: Seq<PairView>, b: Seq<PairView>, name: Seq<char>, from: int)
    requires
        0 <= from,
        a.len() == b.len(),
        forall|i: int|
            0 <= i < a.len() ==> ((#[trigger] a[i]).name == name <==> b[i].name == name) && (a[i].name == name ==> a[i]
                == b[i]),
    ensures
        pair_of(a, name, from) == pair_of(b, name, from),
        pair_of(a, name, from) matches Some(i) ==> 0 <= i < a.len() && a[i] == b[i],
    decreases a.len() - from,
{
    if from < a.len() {
        assert(a[from].name == name <==> b[from].name == name);
        if a[from].name != name {
            lemma_same_places(a, b, name, from + 1);
        }
    }
}

proof fn lemma_pushed_place(settings: Seq<PairView>, pair: PairView, name: Seq<char>, from: int)
    requires
        0 <= from <= settings.len(),
        name != pair.name,
    ensures
        pair_of(settings.push(pair), name, from) == pair_of(settings, name, from),
        pair_of(settings, name, from) matches Some(i) ==> 0 <= i < settings.len(),
    decreases settings.len() - from,
{
    let all = settings.push(pair);
    if from < settings.len() {
        assert(all[from] == settings[from]);
        if settings[from].name != name {
            lemma_pushed_place(settings, pair, name, from + 1);
        }
    } else {
        assert(all[from] == pair);
        assert(pair_of(all, name, from + 1) is None);
    }
}

/// A setting that is made holds its value.
proof fn lemma_set_own(settings: Seq<PairView>, pair: PairView)
    ensures
        value_under(set_pair(settings, pair), pair.name) == Some(pair.value),
{
    lemma_pair_found(settings, pair.name, 0);
    match pair_of(settings, pair.name, 0) {
        Some(i) => {
            let after = settings.update(i, pair);
            lemma_first_place(settings, pair.name, 0, i);
            lemma_at_place(after, pair.name, 0, i);
        },
        None => {
            lemma_no_place(settings, pair.name, 0);
            let after = settings.push(pair);
            assert forall|k: int| 0 <= k < settings.len() implies (#[trigger] after[k]).name != pair.name by {
                assert(after[k] == settings[k]);
            }
            lemma_at_place(after, pair.name, 0, settings.len() as int);
        },
    }
}

proof fn lemma_first_place(settings: Seq<PairView>, name: Seq<char>, from: int, at: int)
    requires
        0 <= from,
        pair_of(settings, name, from) == Some(at),
    ensures
        forall|k: int| from <= k < at ==> (#[trigger] settings[k]).name != name,
    decreases settings.len() - from,
{
    if from < settings.len() && settings[from].name != name {
        lemma_first_place(settings, name, from + 1, at);
    }
}

proof fn lemma_at_place(settings: Seq<PairView>, name: Seq<char>, from: int, at: int)
    requires
        0 <= from <= at < settings.len(),
        settings[at].name == name,
        forall|k: int| from <= k < at ==> (#[trigger] settings[k]).name != name,
    ensures
        pair_of(settings, name, from) == Some(at),
    decreases at - from,
{
    if from < at {
        lemma_at_place(settings, name, from + 1, at);
    }
}

proof fn lemma_no_place(settings: Seq<PairView>, name: Seq<char>, from: int)
    requires
        0 <= from,
        pair_of(settings, name, from) is None,
    ensures
        forall|k: int| from <= k < settings.len() ==> (#[trigger] settings[k]).name != name,
    decreases settings.len() - from,
{
    if from < settings.len() {
        lemma_no_place(settings, name, from + 1);
    }
}

/// A setting holds under its own name what it was set to, and no other setting changes with
/// it.
pub proof fn law_a_setting_changes_its_own_name(settings: Seq<PairView>, name: Seq<char>, value: Seq<char>)
    ensures
        value_under(with_one(settings, name, value), name) == Some(value),
        forall|other: Seq<char>|
            other != name ==> #[trigger] value_under(with_one(settings, name, value), other) == value_under(
                settings,
                other,
            ),
{
    lemma_set_own(settings, PairView { name, value });
    assert forall|other: Seq<char>| other != name implies #[trigger] value_under(
        with_one(settings, name, value),
        other,
    ) == value_under(settings, other) by {
        lemma_set_other(settings, PairView { name, value }, other);
    }
}

/// Trackers that are added and those that are left out are set under their own names, each list
/// as it was given; a list that is empty sets nothing.
pub proof fn law_trackers_are_set_under_their_names(
    settings: Seq<PairView>,
    added: Seq<String>,
    left_out: Seq<String>,
)
    requires
        forall|i: int| 0 <= i < added.len() ==> !(#[trigger] added[i])@.contains(','),
        forall|i: int| 0 <= i < left_out.len() ==> !(#[trigger] left_out[i])@.contains(','),
    ensures
        ({
            let after = with_trackers(settings, added, left_out);
            &&& added.len() == 0 ==> value_under(after, "bt-tracker"@) == value_under(settings, "bt-tracker"@)
            &&& added.len() > 0 ==> value_under(after, "bt-tracker"@) is Some && parts(
                value_under(after, "bt-tracker"@)->0,
                ',',
            ) == texts_of(added)
            &&& left_out.len() == 0 ==> value_under(after, "bt-exclude-tracker"@) == value_under(
                settings,
                "bt-exclude-tracker"@,
            )
            &&& left_out.len() > 0 ==> value_under(after, "bt-exclude-tracker"@) is Some && parts(
                value_under(after, "bt-exclude-tracker"@)->0,
                ',',
            ) == texts_of(left_out)
            &&& forall|other: Seq<char>|
                other != "bt-tracker"@ && other != "bt-exclude-tracker"@ ==> #[trigger] value_under(after, other)
                    == value_under(settings, other)
        }),
{
    reveal_strlit("bt-tracker");
    reveal_strlit("bt-exclude-tracker");
    assert("bt-tracker"@.len() == 10);
    assert("bt-exclude-tracker"@.len() == 18);
    let first = if added.len() == 0 {
        settings
    } else {
        with_one(settings, "bt-tracker"@, join(texts_of(added), ","@))
    };
    law_a_setting_changes_its_own_name(settings, "bt-tracker"@, join(texts_of(added), ","@));
    law_a_setting_changes_its_own_name(first, "bt-exclude-tracker"@, join(texts_of(left_out), ","@));
    if added.len() > 0 {
        assert forall|i: int| 0 <= i < texts_of(added).len() implies !(#[trigger] texts_of(added)[i]).contains(',') by {
            assert(!added[i]@.contains(','));
        }
        law_joined_texts_part_again(texts_of(added));
    }
    if left_out.len() > 0 {
        assert forall|i: int| 0 <= i < texts_of(left_out).len() implies !(#[trigger] texts_of(left_out)[i]).contains(
            ',',
        ) by {
            assert(!left_out[i]@.contains(','));
        }
        law_joined_texts_part_again(texts_of(left_out));
    }
}

/// Numbers that are joined by commas part again into the same numbers.
pub proof fn law_joined_numbers_part_again(numbers: Seq<u32>)
    requires
        numbers.len() > 0,
    ensures
        parts(join(number_texts(numbers), ","@), ',') == number_texts(numbers),
        forall|i: int|
            0 <= i < numbers.len() ==> parsed_unsigned(#[trigger] number_texts(numbers)[i], u32::MAX as int) == Some(
                numbers[i] as int,
            ),
{
    let texts = number_texts(numbers);
    assert forall|i: int| 0 <= i < texts.len() implies !(#[trigger] texts[i]).contains(',') by {
        lemma_decimal_digits(numbers[i] as nat);
        if texts[i].contains(',') {
            let k = texts[i].index_of(',');
            assert(crate::text::is_digit(texts[i][k]));
        }
    }
    law_joined_texts_part_again(texts);
    assert forall|i: int| 0 <= i < numbers.len() implies parsed_unsigned(#[trigger] texts[i], u32::MAX as int) == Some(
        numbers[i] as int,
    ) by {
        law_decimal_round_trip(numbers[i] as nat, u32::MAX as int);
    }
}

} // verus!
