//! The other calls of the embedding interface.
use vstd::prelude::*;
use crate::bittorrent::{rooms_hold, settings_bytes, AddMagnet, AddTorrent, BitTorrentOptions, SettingRoom};
use crate::control::HttpControlError;
use crate::download_options::DownloadOptions;
use crate::encoding::{base64_of, base64_text};
use crate::json::{capped, json_fields, json_items, json_text, text_capacity, text_rooms, texts_hold, Json, JsonField};
use crate::native_api::{
    admitted, asked_position, busy, give_up, grow, law_given_up_call_refunds_everything, list_capacity,
    source_count_error, source_count_fits, source_input_bytes, sources_cost, take_call, CallParam, ControlCall,
};
use crate::native_error::NativeApiError;
use crate::options::{with_option, OptionMapView, OptionObject, OptionScalar, OptionValue};
use crate::pairs::{pair_views, PairView, TextPair};
use crate::rpc_budget::{reserved, RpcAccounts, RpcRequestLease};
use crate::runtime_effects::RuntimeEffectConfig;
use crate::session::Gid;
use crate::shutdown::DEFAULT_PROCESS_SHUTDOWN_STEP_TIMEOUT_MS;
use crate::slow_slots::{config_fits, config_options, SlowSlotConfig};
use crate::task_status::{status_view, task_status, SshConnectionStatus, TaskStatus, TaskStatusView};
use crate::text::{byte_len, has_prefix, starts_with};

verus! {

/// Whether a torrent and what comes with it may be sent.
pub open spec fn torrent_fits(bytes: Seq<u8>, web_seeds: Seq<String>) -> bool {
    &&& bytes.len() <= 16_777_216
    &&& web_seeds.len() <= 64
    &&& forall|i: int| 0 <= i < web_seeds.len() ==> byte_len((#[trigger] web_seeds[i])@) <= 8192
}

fn check_torrent(bytes: &Vec<u8>, web_seeds: &Vec<String>) -> (r: bool)
    ensures
        r == torrent_fits(bytes@, web_seeds@),
{
    if bytes.len() > 16_777_216 || web_seeds.len() > 64 {
        return false;
    }
    let mut i: usize = 0;
    while i < web_seeds.len()
        invariant
            i <= web_seeds.len(),
            forall|k: int| 0 <= k < i ==> byte_len((#[trigger] web_seeds@[k])@) <= 8192,
        decreases web_seeds.len() - i,
    {
        if web_seeds[i].as_str().len() > 8192 {
            assert(byte_len(web_seeds@[i as int]@) > 8192);
            return false;
        }
        i = i + 1;
    }
    true
}

/// Twice what rooms come to.
pub open spec fn doubled_rooms(rooms: Seq<usize>) -> int
    decreases rooms.len(),
{
    if rooms.len() == 0 {
        0
    } else {
        doubled_rooms(rooms.drop_last()) + capped(2 * rooms.last())
    }
}

/// What a torrent takes when it is sent, by the room and the length of its bytes,
/// what its settings take and the rooms of its web seeds.
pub open spec fn torrent_bytes(capacity: usize, length: usize, settings: usize, seeds: Seq<usize>) -> int {
    capped(capacity + capped(2 * length) + settings + doubled_rooms(seeds))
}

/// Twice a size, as far as the machine can count.
fn twofold(n: usize) -> (r: usize)
    ensures
        r == capped(2 * n),
{
    match n.checked_mul(2) {
        Some(product) => product,
        None => usize::MAX,
    }
}

/// What a torrent takes when it is sent.
pub fn sized_torrent(capacity: usize, length: usize, settings: usize, seeds: &Vec<usize>) -> (r: usize)
    ensures
        r == torrent_bytes(capacity, length, settings, seeds@),
{
    let mut bytes: usize = capacity.saturating_add(twofold(length)).saturating_add(settings);
    let mut i: usize = 0;
    while i < seeds.len()
        invariant
            i <= seeds.len(),
            doubled_rooms(seeds@.take(i as int)) >= 0,
            bytes == capped(capacity + capped(2 * length) + settings + doubled_rooms(seeds@.take(i as int))),
        decreases seeds.len() - i,
    {
        assert(seeds@.take(i as int + 1).drop_last() =~= seeds@.take(i as int));
        bytes = bytes.saturating_add(twofold(seeds[i]));
        i = i + 1;
    }
    assert(seeds@.take(i as int) =~= seeds@);
    bytes
}

/// Whether a torrent takes so many bytes for some rooms that hold its texts.
pub open spec fn torrent_cost(capacity: usize, request: AddTorrent, bytes: usize) -> bool {
    exists|rooms: Seq<SettingRoom>, seeds: Seq<usize>|
        #![trigger rooms_hold(rooms, request.options@), texts_hold(seeds, request.web_seeds@)]
        rooms_hold(rooms, request.options@) && texts_hold(seeds, request.web_seeds@) && bytes == torrent_bytes(
            capacity,
            request.bytes.len(),
            settings_bytes(rooms) as usize,
            seeds,
        )
}

/// What a torrent takes when it is sent, with the room that its bytes have. Texts
/// are counted with the room that they have, which is at least their bytes.
pub fn torrent_input_bytes(capacity: usize, request: &AddTorrent) -> (r: usize)
    ensures
        torrent_cost(capacity, *request, r),
{
    let settings = request.options.input_bytes();
    let seeds = text_rooms(&request.web_seeds);
    sized_torrent(capacity, request.bytes.len(), settings, &seeds)
}

/// A call that sends a torrent.
pub open spec fn sends_torrent(call: ControlCall, request: AddTorrent) -> bool {
    &&& call.method == "aria2.addTorrent"
    &&& call.params@.len() == 4
    &&& call.params@[0] is Encoded && call.params@[0]->Encoded_0@ == base64_of(request.bytes@)
    &&& call.params@[1] == CallParam::Texts(request.web_seeds)
    &&& call.params@[2] is Settings && pair_views(call.params@[2]->Settings_0@) == request.options@
    &&& call.params@[3] == CallParam::Signed(asked_position(request.position))
}

fn signed_position(position: Option<i64>) -> (r: CallParam)
    ensures
        r == CallParam::Signed(asked_position(position)),
{
    match position {
        Some(position) => CallParam::Signed(position),
        None => CallParam::Signed(-1),
    }
}

/// What comes of admitting a torrent that takes so many bytes: a refusal changes
/// nothing.
pub open spec fn admits_torrent(
    before: RpcAccounts,
    request: AddTorrent,
    input_bytes: usize,
    after: RpcAccounts,
    r: Result<(ControlCall, RpcRequestLease), NativeApiError>,
) -> bool {
    &&& r is Err ==> after == before
    &&& if !torrent_fits(request.bytes@, request.web_seeds@) {
        r == Err::<(ControlCall, RpcRequestLease), NativeApiError>(
            NativeApiError::InvalidConfiguration("torrent admission exceeds its input limit"),
        )
    } else {
        match admitted(before, 0, Some(input_bytes)) {
            Err(error) => r == Err::<(ControlCall, RpcRequestLease), NativeApiError>(error),
            Ok((charged, lease)) => r is Ok && r->Ok_0.1 == lease && after == charged && sends_torrent(
                r->Ok_0.0,
                request,
            ),
        }
    }
}

/// Admits a torrent and makes the call; a refusal changes nothing.
pub fn add_sized_torrent(accounts: &mut RpcAccounts, request: AddTorrent, input_bytes: usize) -> (r: Result<
    (ControlCall, RpcRequestLease),
    NativeApiError,
>)
    requires
        old(accounts).valid(),
    ensures
        final(accounts).valid(),
        admits_torrent(*old(accounts), request, input_bytes, *final(accounts), r),
{
    if !check_torrent(&request.bytes, &request.web_seeds) {
        return Err(NativeApiError::InvalidConfiguration("torrent admission exceeds its input limit"));
    }
    let lease = match take_call(accounts, 0, Some(input_bytes)) {
        Ok(lease) => lease,
        Err(error) => return Err(error),
    };
    let mut params: Vec<CallParam> = Vec::new();
    params.push(CallParam::Encoded(base64_text(request.bytes.as_slice())));
    params.push(CallParam::Texts(request.web_seeds));
    params.push(CallParam::Settings(request.options.into_value()));
    params.push(signed_position(request.position));
    Ok((ControlCall { method: "aria2.addTorrent", params }, lease))
}

/// Admits a torrent, charges what it takes and makes the call; a refusal changes
/// nothing.
pub fn add_torrent(accounts: &mut RpcAccounts, request: AddTorrent) -> (r: Result<
    (ControlCall, RpcRequestLease),
    NativeApiError,
>)
    requires
        old(accounts).valid(),
    ensures
        final(accounts).valid(),
        exists|capacity: usize, bytes: usize|
            capacity >= request.bytes@.len() && #[trigger] torrent_cost(capacity, request, bytes) && admits_torrent(
                *old(accounts),
                request,
                bytes,
                *final(accounts),
                r,
            ),
{
    let capacity = list_capacity(&request.bytes);
    let bytes = torrent_input_bytes(capacity, &request);
    add_sized_torrent(accounts, request, bytes)
}

/// What a magnet link takes when it is sent, by the room of its text and what its
/// settings take.
pub open spec fn magnet_bytes(room: usize, settings: usize) -> int {
    capped(capped(2 * room) + settings)
}

/// What a magnet link takes when it is sent.
pub fn sized_magnet(room: usize, settings: usize) -> (r: usize)
    ensures
        r == magnet_bytes(room, settings),
{
    twofold(room).saturating_add(settings)
}

/// Whether a magnet link takes so many bytes for some rooms that hold its texts.
pub open spec fn magnet_cost(request: AddMagnet, bytes: usize) -> bool {
    exists|room: usize, rooms: Seq<SettingRoom>|
        #![trigger rooms_hold(rooms, request.options@), magnet_bytes(room, settings_bytes(rooms) as usize)]
        room >= byte_len(request.uri@) && rooms_hold(rooms, request.options@) && bytes == magnet_bytes(
            room,
            settings_bytes(rooms) as usize,
        )
}

/// What a magnet link takes when it is sent. Texts are counted with the room that
/// they have, which is at least their bytes.
pub fn magnet_input_bytes(request: &AddMagnet) -> (r: usize)
    ensures
        magnet_cost(*request, r),
{
    let room = text_capacity(&request.uri);
    let settings = request.options.input_bytes();
    proof {
        let rooms = choose|rooms: Seq<SettingRoom>| #[trigger]
            rooms_hold(rooms, request.options@) && settings == settings_bytes(rooms);
        assert(magnet_bytes(room, settings) == magnet_bytes(room, settings_bytes(rooms) as usize));
    }
    sized_magnet(room, settings)
}

/// A call that sends a magnet link.
pub open spec fn sends_magnet(call: ControlCall, request: AddMagnet) -> bool {
    &&& call.method == "aria2.addUri"
    &&& call.params@.len() == 3
    &&& call.params@[0] is Texts && call.params@[0]->Texts_0@ == seq![request.uri]
    &&& call.params@[1] is Settings && pair_views(call.params@[1]->Settings_0@) == request.options@
    &&& call.params@[2] == CallParam::Signed(asked_position(request.position))
}

/// What comes of admitting a magnet link that takes so many bytes: a refusal changes
/// nothing.
pub open spec fn admits_magnet(
    before: RpcAccounts,
    request: AddMagnet,
    input_bytes: usize,
    after: RpcAccounts,
    r: Result<(ControlCall, RpcRequestLease), NativeApiError>,
) -> bool {
    &&& r is Err ==> after == before
    &&& if byte_len(request.uri@) > 65536 || !has_prefix(request.uri@, "magnet:?"@) {
        r == Err::<(ControlCall, RpcRequestLease), NativeApiError>(
            NativeApiError::InvalidConfiguration("invalid or oversized magnet URI"),
        )
    } else {
        match admitted(before, 0, Some(input_bytes)) {
            Err(error) => r == Err::<(ControlCall, RpcRequestLease), NativeApiError>(error),
            Ok((charged, lease)) => r is Ok && r->Ok_0.1 == lease && after == charged && sends_magnet(
                r->Ok_0.0,
                request,
            ),
        }
    }
}

/// Admits a magnet link and makes the call; a refusal changes nothing.
pub fn add_sized_magnet(accounts: &mut RpcAccounts, request: AddMagnet, input_bytes: usize) -> (r: Result<
    (ControlCall, RpcRequestLease),
    NativeApiError,
>)
    requires
        old(accounts).valid(),
    ensures
        final(accounts).valid(),
        admits_magnet(*old(accounts), request, input_bytes, *final(accounts), r),
{
    if request.uri.as_str().len() > 65536 || !starts_with(request.uri.as_str(), "magnet:?") {
        return Err(NativeApiError::InvalidConfiguration("invalid or oversized magnet URI"));
    }
    let lease = match take_call(accounts, 0, Some(input_bytes)) {
        Ok(lease) => lease,
        Err(error) => return Err(error),
    };
    let mut uris: Vec<String> = Vec::new();
    uris.push(request.uri);
    assert(uris@ =~= seq![request.uri]);
    let mut params: Vec<CallParam> = Vec::new();
    params.push(CallParam::Texts(uris));
    params.push(CallParam::Settings(request.options.into_value()));
    params.push(signed_position(request.position));
    Ok((ControlCall { method: "aria2.addUri", params }, lease))
}

/// Admits a magnet link, charges what it takes and makes the call; a refusal changes
/// nothing.
pub fn add_magnet(accounts: &mut RpcAccounts, request: AddMagnet) -> (r: Result<
    (ControlCall, RpcRequestLease),
    NativeApiError,
>)
    requires
        old(accounts).valid(),
    ensures
        final(accounts).valid(),
        exists|bytes: usize| #[trigger]
            magnet_cost(request, bytes) && admits_magnet(*old(accounts), request, bytes, *final(accounts), r),
{
    let bytes = magnet_input_bytes(&request);
    add_sized_magnet(accounts, request, bytes)
}

/// What comes of admitting settings that take so many bytes: a refusal changes
/// nothing.
pub open spec fn admits_settings(
    before: RpcAccounts,
    gid: Gid,
    options: BitTorrentOptions,
    input_bytes: usize,
    after: RpcAccounts,
    r: Result<(ControlCall, RpcRequestLease), NativeApiError>,
) -> bool {
    &&& match admitted(before, 0, Some(input_bytes)) {
        Err(error) => r == Err::<(ControlCall, RpcRequestLease), NativeApiError>(error) && after
            == before,
        Ok((charged, lease)) => r is Ok && r->Ok_0.1 == lease && after == charged
            && r->Ok_0.0.method == "aria2.changeOption" && r->Ok_0.0.params@.len() == 2 && r->Ok_0.0.params@[0]
            == CallParam::Gid(gid) && r->Ok_0.0.params@[1] is Settings && pair_views(
            r->Ok_0.0.params@[1]->Settings_0@,
        ) == options@,
    }
}

/// Admits new BitTorrent settings of a task and makes the call.
pub fn change_sized_bittorrent_options(
    accounts: &mut RpcAccounts,
    gid: Gid,
    options: BitTorrentOptions,
    input_bytes: usize,
) -> (r: Result<(ControlCall, RpcRequestLease), NativeApiError>)
    requires
        old(accounts).valid(),
    ensures
        final(accounts).valid(),
        admits_settings(*old(accounts), gid, options, input_bytes, *final(accounts), r),
{
    let lease = match take_call(accounts, 0, Some(input_bytes)) {
        Ok(lease) => lease,
        Err(error) => return Err(error),
    };
    let mut params: Vec<CallParam> = Vec::new();
    params.push(CallParam::Gid(gid));
    params.push(CallParam::Settings(options.into_value()));
    Ok((ControlCall { method: "aria2.changeOption", params }, lease))
}

/// Admits new BitTorrent settings of a task, charges what they take and makes the
/// call.
pub fn change_bittorrent_options(accounts: &mut RpcAccounts, gid: Gid, options: BitTorrentOptions) -> (r: Result<
    (ControlCall, RpcRequestLease),
    NativeApiError,
>)
    requires
        old(accounts).valid(),
    ensures
        final(accounts).valid(),
        exists|rooms: Seq<SettingRoom>| #[trigger]
            rooms_hold(rooms, options@) && admits_settings(
                *old(accounts),
                gid,
                options,
                settings_bytes(rooms) as usize,
                *final(accounts),
                r,
            ),
{
    let bytes = options.input_bytes();
    change_sized_bittorrent_options(accounts, gid, options, bytes)
}

/// What comes of admitting options that take so many bytes: a refusal changes
/// nothing.
pub open spec fn admits_changes(
    before: RpcAccounts,
    gid: Gid,
    options: DownloadOptions,
    restart: bool,
    input_bytes: usize,
    after: RpcAccounts,
    r: Result<(ControlCall, RpcRequestLease), NativeApiError>,
) -> bool {
    &&& r is Err ==> after == before
    &&& match admitted(before, input_bytes as int, None) {
        Err(error) => r == Err::<(ControlCall, RpcRequestLease), NativeApiError>(error),
        Ok((charged, lease)) => match options.option_map(false) {
            Err(error) => r == Err::<(ControlCall, RpcRequestLease), NativeApiError>(error),
            Ok(m) => r is Ok && r->Ok_0.1 == lease && after == charged && sends_changes(
                r->Ok_0.0,
                gid,
                m,
                restart,
            ),
        },
    }
}

/// Admits new options of a task and makes the call; a refusal changes nothing.
pub fn change_sized_options(
    accounts: &mut RpcAccounts,
    gid: Gid,
    options: DownloadOptions,
    restart: bool,
    input_bytes: usize,
) -> (r: Result<(ControlCall, RpcRequestLease), NativeApiError>)
    requires
        old(accounts).valid(),
    ensures
        final(accounts).valid(),
        admits_changes(*old(accounts), gid, options, restart, input_bytes, *final(accounts), r),
{
    proof {
        law_given_up_call_refunds_everything(*accounts, input_bytes as nat, None);
    }
    let lease = match take_call(accounts, input_bytes, None) {
        Ok(lease) => lease,
        Err(error) => return Err(error),
    };
    let values = match options.into_value(false) {
        Ok(values) => values,
        Err(error) => {
            give_up(accounts, lease);
            return Err(error);
        },
    };
    let mut params: Vec<CallParam> = Vec::new();
    params.push(CallParam::Gid(gid));
    params.push(CallParam::Options(values));
    params.push(CallParam::Restart(restart));
    Ok((ControlCall { method: "aria2.changeOption", params }, lease))
}

/// Admits new options of a task, charges what they take and makes the call; a refusal
/// changes nothing.
pub fn change_options(accounts: &mut RpcAccounts, gid: Gid, options: DownloadOptions, restart: bool) -> (r: Result<
    (ControlCall, RpcRequestLease),
    NativeApiError,
>)
    requires
        old(accounts).valid(),
    ensures
        final(accounts).valid(),
        exists|bytes: usize| #[trigger]
            options.costs(bytes) && admits_changes(
                *old(accounts),
                gid,
                options,
                restart,
                bytes,
                *final(accounts),
                r,
            ),
{
    let bytes = options.input_bytes();
    change_sized_options(accounts, gid, options, restart, bytes)
}

/// A call that changes the options of a task.
pub open spec fn sends_changes(call: ControlCall, gid: Gid, options: OptionMapView, restart: bool) -> bool {
    &&& call.method == "aria2.changeOption"
    &&& call.params@.len() == 3
    &&& call.params@[0] == CallParam::Gid(gid)
    &&& call.params@[1] is Options && call.params@[1]->Options_0@ == options
    &&& call.params@[2] == CallParam::Restart(restart)
}

/// Options of the whole engine.
pub struct GlobalOptions {
    pub task_defaults: DownloadOptions,
    pub max_overall_download_limit: Option<u64>,
    pub max_overall_upload_limit: Option<u32>,
    pub bittorrent_defaults: Option<BitTorrentOptions>,
    pub scheduling: Option<SlowSlotConfig>,
}

/// Options with the first `n` settings.
pub open spec fn with_settings(options: OptionMapView, settings: Seq<PairView>, n: int) -> OptionMapView
    decreases n,
{
    if n <= 0 {
        options
    } else {
        with_settings(options, settings, n - 1).insert(
            settings[n - 1].name,
            OptionScalar::Text(settings[n - 1].value),
        )
    }
}

fn put_settings(options: &mut OptionObject, settings: &Vec<TextPair>)
    requires
        old(options).valid(),
    ensures
        final(options).valid(),
        final(options)@ == with_settings(old(options)@, pair_views(settings@), settings@.len() as int),
{
    let ghost views = pair_views(settings@);
    let mut i: usize = 0;
    while i < settings.len()
        invariant
            i <= settings.len(),
            views == pair_views(settings@),
            options.valid(),
            options@ == with_settings(old(options)@, views, i as int),
        decreases settings.len() - i,
    {
        assert(views[i as int] == settings@[i as int]@);
        options.insert(settings[i].name.clone(), OptionValue::Text(settings[i].value.clone()));
        i = i + 1;
    }
}

impl GlobalOptions {
    /// The options as they are sent, but for scheduling.
    pub open spec fn limits_map(self, defaults: OptionMapView) -> OptionMapView {
        let m = with_option(
            defaults,
            "max-overall-download-limit"@,
            match self.max_overall_download_limit {
                Some(limit) => Some(OptionScalar::Number(limit)),
                None => None,
            },
        );
        let m = with_option(
            m,
            "max-overall-upload-limit"@,
            match self.max_overall_upload_limit {
                Some(limit) => Some(OptionScalar::Number(limit as u64)),
                None => None,
            },
        );
        match self.bittorrent_defaults {
            Some(settings) => with_settings(m, settings@, settings@.len() as int),
            None => m,
        }
    }

    /// The options as they are sent.
    pub open spec fn option_map(self, defaults: OptionMapView) -> OptionMapView {
        let m = self.limits_map(defaults);
        match self.scheduling {
            Some(config) => m.union_prefer_right(config_options(config)),
            None => m,
        }
    }
}

/// The lease of a call about the whole engine: BitTorrent settings are charged on
/// top.
pub open spec fn global_lease(accounts: RpcAccounts, options: GlobalOptions, task_bytes: usize, bt_bytes: usize) -> Result<
    (RpcAccounts, RpcRequestLease),
    NativeApiError,
> {
    match admitted(accounts, task_bytes as int, None) {
        Err(error) => Err(error),
        Ok((after, lease)) => match options.task_defaults.option_map(false) {
            Err(error) => Err(error),
            Ok(_) => if options.bittorrent_defaults is None {
                Ok((after, lease))
            } else {
                match reserved(after, lease.allocation, bt_bytes as int) {
                    Err(_) => Err(busy()),
                    Ok((grown, allocation)) => Ok((grown, RpcRequestLease { allocation })),
                }
            },
        },
    }
}

/// Whether settings take so many bytes for some rooms that hold them; none take none.
pub open spec fn settings_cost(settings: Option<BitTorrentOptions>, bytes: usize) -> bool {
    match settings {
        Some(settings) => exists|rooms: Seq<SettingRoom>| #[trigger]
            rooms_hold(rooms, settings@) && bytes == settings_bytes(rooms),
        None => bytes == 0,
    }
}

/// What comes of admitting options of the engine that take so many bytes: a refusal
/// changes nothing.
pub open spec fn admits_globals(
    before: RpcAccounts,
    options: GlobalOptions,
    task_bytes: usize,
    bt_bytes: usize,
    after: RpcAccounts,
    r: Result<(ControlCall, RpcRequestLease), NativeApiError>,
) -> bool {
    &&& r is Err ==> after == before
    &&& match global_lease(before, options, task_bytes, bt_bytes) {
        Err(error) => r == Err::<(ControlCall, RpcRequestLease), NativeApiError>(error),
        Ok((charged, lease)) => if options.scheduling is Some && !config_fits(options.scheduling->0) {
            r == Err::<(ControlCall, RpcRequestLease), NativeApiError>(
                NativeApiError::Control(HttpControlError::InvalidConfig),
            )
        } else {
            r is Ok && r->Ok_0.1 == lease && after == charged && sends_globals(
                r->Ok_0.0,
                options.option_map(options.task_defaults.option_map(false)->Ok_0),
            )
        },
    }
}

/// Admits new options of the engine and makes the call; a refusal changes
/// nothing.
pub fn change_sized_global_options(
    accounts: &mut RpcAccounts,
    options: GlobalOptions,
    task_bytes: usize,
    bt_bytes: usize,
) -> (r: Result<(ControlCall, RpcRequestLease), NativeApiError>)
    requires
        old(accounts).valid(),
    ensures
        final(accounts).valid(),
        admits_globals(*old(accounts), options, task_bytes, bt_bytes, *final(accounts), r),
{
    proof {
        law_given_up_call_refunds_everything(*accounts, task_bytes as nat, None);
        law_given_up_call_refunds_everything(*accounts, task_bytes as nat, Some(bt_bytes));
    }
    let mut lease = match take_call(accounts, task_bytes, None) {
        Ok(lease) => lease,
        Err(error) => return Err(error),
    };
    let mut values = match options.task_defaults.into_value(false) {
        Ok(values) => values,
        Err(error) => {
            give_up(accounts, lease);
            return Err(error);
        },
    };
    if let Some(limit) = options.max_overall_download_limit {
        values.insert("max-overall-download-limit".to_owned(), OptionValue::Number(limit));
    }
    if let Some(limit) = options.max_overall_upload_limit {
        values.insert("max-overall-upload-limit".to_owned(), OptionValue::Number(limit as u64));
    }
    match &options.bittorrent_defaults {
        Some(settings) => {
            lease = match grow(accounts, lease, bt_bytes) {
                Ok(lease) => lease,
                Err(error) => return Err(error),
            };
            put_settings(&mut values, settings.value());
        },
        None => {},
    }
    match options.scheduling {
        Some(config) => match config.validate() {
            Ok(config) => values.extend(config.options()),
            Err(error) => {
                give_up(accounts, lease);
                return Err(NativeApiError::Control(error));
            },
        },
        None => {},
    }
    let mut params: Vec<CallParam> = Vec::new();
    params.push(CallParam::Options(values));
    Ok((ControlCall { method: "aria2.changeGlobalOption", params }, lease))
}

/// Admits new options of the engine, charges what they take and makes the call; a
/// refusal changes nothing.
pub fn change_global_options(accounts: &mut RpcAccounts, options: GlobalOptions) -> (r: Result<
    (ControlCall, RpcRequestLease),
    NativeApiError,
>)
    requires
        old(accounts).valid(),
    ensures
        final(accounts).valid(),
        exists|task_bytes: usize, bt_bytes: usize|
            #![trigger options.task_defaults.costs(task_bytes), settings_cost(options.bittorrent_defaults, bt_bytes)]
            options.task_defaults.costs(task_bytes) && settings_cost(options.bittorrent_defaults, bt_bytes)
                && admits_globals(*old(accounts), options, task_bytes, bt_bytes, *final(accounts), r),
{
    let task_bytes = options.task_defaults.input_bytes();
    let bt_bytes: usize = match &options.bittorrent_defaults {
        Some(settings) => settings.input_bytes(),
        None => 0,
    };
    assert(settings_cost(options.bittorrent_defaults, bt_bytes));
    change_sized_global_options(accounts, options, task_bytes, bt_bytes)
}

/// A call that changes the options of the engine.
pub open spec fn sends_globals(call: ControlCall, options: OptionMapView) -> bool {
    &&& call.method == "aria2.changeGlobalOption"
    &&& call.params@.len() == 1
    &&& call.params@[0] is Options && call.params@[0]->Options_0@ == options
}

/// What comes of admitting other sources that take so many bytes: a refusal changes
/// nothing.
pub open spec fn admits_sources(
    before: RpcAccounts,
    gid: Gid,
    uris: Vec<String>,
    input_bytes: usize,
    most_sources: usize,
    after: RpcAccounts,
    r: Result<(ControlCall, RpcRequestLease), NativeApiError>,
) -> bool {
    &&& r is Err ==> after == before
    &&& if !source_count_fits(uris@.len(), most_sources) {
        r == Err::<(ControlCall, RpcRequestLease), NativeApiError>(source_count_error())
    } else {
        match admitted(before, input_bytes as int, None) {
            Err(error) => r == Err::<(ControlCall, RpcRequestLease), NativeApiError>(error),
            Ok((charged, lease)) => r is Ok && r->Ok_0.1 == lease && after == charged
                && r->Ok_0.0.method == "ariax.replaceSources" && r->Ok_0.0.params@ == seq![
                CallParam::Gid(gid),
                CallParam::Texts(uris),
            ],
        }
    }
}

/// Admits other sources of a task and makes the call; a refusal changes nothing.
pub fn replace_sized_sources(
    accounts: &mut RpcAccounts,
    gid: Gid,
    uris: Vec<String>,
    input_bytes: usize,
    most_sources: usize,
) -> (r: Result<(ControlCall, RpcRequestLease), NativeApiError>)
    requires
        old(accounts).valid(),
    ensures
        final(accounts).valid(),
        admits_sources(*old(accounts), gid, uris, input_bytes, most_sources, *final(accounts), r),
{
    if uris.len() == 0 || uris.len() > most_sources {
        return Err(NativeApiError::InvalidConfiguration("URI count is outside the supported bound"));
    }
    let lease = match take_call(accounts, input_bytes, None) {
        Ok(lease) => lease,
        Err(error) => return Err(error),
    };
    let mut params: Vec<CallParam> = Vec::new();
    params.push(CallParam::Gid(gid));
    params.push(CallParam::Texts(uris));
    assert(params@ =~= seq![CallParam::Gid(gid), CallParam::Texts(uris)]);
    Ok((ControlCall { method: "ariax.replaceSources", params }, lease))
}

/// Admits other sources of a task, charges what they take and makes the call; a
/// refusal changes nothing.
pub fn replace_sources(accounts: &mut RpcAccounts, gid: Gid, uris: Vec<String>, most_sources: usize) -> (r: Result<
    (ControlCall, RpcRequestLease),
    NativeApiError,
>)
    requires
        old(accounts).valid(),
    ensures
        final(accounts).valid(),
        exists|bytes: usize| #[trigger]
            sources_cost(uris@, None, bytes) && admits_sources(
                *old(accounts),
                gid,
                uris,
                bytes,
                most_sources,
                *final(accounts),
                r,
            ),
{
    let bytes = source_input_bytes(&uris, &None);
    replace_sized_sources(accounts, gid, uris, bytes, most_sources)
}

/// What a place in the queue is counted from.
#[derive(Clone, Copy, Debug, PartialEq, Eq, Structural)]
pub enum PositionOrigin {
    Start,
    Current,
    End,
}

/// The name of an origin.
pub open spec fn origin_word(origin: PositionOrigin) -> &'static str {
    match origin {
        PositionOrigin::Start => "POS_SET",
        PositionOrigin::Current => "POS_CUR",
        PositionOrigin::End => "POS_END",
    }
}

/// A call that moves a task in the queue.
pub fn change_position(gid: Gid, offset: i64, origin: PositionOrigin) -> (r: ControlCall)
    ensures
        r.method == "aria2.changePosition",
        r.params@ == seq![CallParam::Gid(gid), CallParam::Signed(offset), CallParam::Word(origin_word(origin))],
{
    let mode = match origin {
        PositionOrigin::Start => "POS_SET",
        PositionOrigin::Current => "POS_CUR",
        PositionOrigin::End => "POS_END",
    };
    let mut params: Vec<CallParam> = Vec::new();
    params.push(CallParam::Gid(gid));
    params.push(CallParam::Signed(offset));
    params.push(CallParam::Word(mode));
    assert(params@ =~= seq![CallParam::Gid(gid), CallParam::Signed(offset), CallParam::Word(origin_word(origin))]);
    ControlCall { method: "aria2.changePosition", params }
}

/// The place in the queue that a call returns.
pub fn changed_position(value: &Json) -> (r: Result<usize, NativeApiError>)
    ensures
        match *value {
            Json::Unsigned(place) => if place <= usize::MAX {
                r == Ok::<usize, NativeApiError>(place as usize)
            } else {
                r == Err::<usize, NativeApiError>(NativeApiError::InvalidResponse("invalid queue position"))
            },
            _ => r == Err::<usize, NativeApiError>(NativeApiError::InvalidResponse("invalid queue position")),
        },
{
    match value {
        Json::Unsigned(place) => {
            if *place <= usize::MAX as u64 {
                Ok(*place as usize)
            } else {
                Err(NativeApiError::InvalidResponse("invalid queue position"))
            }
        },
        _ => Err(NativeApiError::InvalidResponse("invalid queue position")),
    }
}

/// A configuration to check or to put in force.
#[derive(Debug)]
pub struct ConfigurationUpdate {
    pub text: String,
    pub url_rules: Option<String>,
    pub expected_generation: Option<u64>,
    pub allow_known_unsupported: bool,
}

/// What came of it.
#[derive(Clone, Copy, Debug, PartialEq, Eq, Structural)]
pub struct ConfigurationReport {
    pub config_generation: u64,
    pub options: usize,
    pub warnings: usize,
}

impl ConfigurationUpdate {
    /// The settings that go with the text.
    pub open spec fn settings_map(self) -> OptionMapView {
        let m = with_option(
            OptionMapView::empty(),
            "urlRules"@,
            match self.url_rules {
                Some(rules) => Some(OptionScalar::Text(rules@)),
                None => None,
            },
        );
        let m = with_option(
            m,
            "expectedGeneration"@,
            match self.expected_generation {
                Some(generation) => Some(OptionScalar::Number(generation)),
                None => None,
            },
        );
        m.insert(
            "compatibility"@,
            OptionScalar::Text(
                if self.allow_known_unsupported {
                    "aria2"@
                } else {
                    "strict"@
                },
            ),
        )
    }

    /// How long text and rules are together.
    pub open spec fn length(self) -> int {
        capped(
            byte_len(self.text@) + (match self.url_rules {
                Some(rules) => byte_len(rules@) as int,
                None => 0,
            }),
        )
    }

    /// The parameters of a call, where text and rules are not too long.
    pub fn into_params(self, most_bytes: usize) -> (r: Result<Vec<CallParam>, NativeApiError>)
        ensures
            if self.length() > most_bytes {
                r == Err::<Vec<CallParam>, NativeApiError>(
                    NativeApiError::InvalidConfiguration("configuration input exceeds its byte limit"),
                )
            } else {
                r is Ok && r->Ok_0@.len() == 2 && r->Ok_0@[0] == CallParam::Text(self.text) && r->Ok_0@[1] is Options
                    && r->Ok_0@[1]->Options_0@ == self.settings_map()
            },
    {
        let rules: usize = match &self.url_rules {
            Some(rules) => rules.as_str().len(),
            None => 0,
        };
        if self.text.as_str().len().saturating_add(rules) > most_bytes {
            return Err(NativeApiError::InvalidConfiguration("configuration input exceeds its byte limit"));
        }
        let mut settings = OptionObject::new();
        if let Some(rules) = self.url_rules {
            settings.insert("urlRules".to_owned(), OptionValue::Text(rules));
        }
        if let Some(generation) = self.expected_generation {
            settings.insert("expectedGeneration".to_owned(), OptionValue::Number(generation));
        }
        let compatibility = if self.allow_known_unsupported {
            "aria2"
        } else {
            "strict"
        };
        settings.insert("compatibility".to_owned(), OptionValue::Text(compatibility.to_owned()));
        let mut params: Vec<CallParam> = Vec::new();
        params.push(CallParam::Text(self.text));
        params.push(CallParam::Options(settings));
        Ok(params)
    }
}

/// What comes of admitting a configuration: a refusal changes nothing.
pub open spec fn configures(
    before: RpcAccounts,
    method: &'static str,
    update: ConfigurationUpdate,
    input_bytes: usize,
    most_bytes: usize,
    after: RpcAccounts,
    r: Result<(ControlCall, RpcRequestLease), NativeApiError>,
) -> bool {
    &&& r is Err ==> after == before
    &&& match admitted(before, input_bytes as int, None) {
        Err(error) => r == Err::<(ControlCall, RpcRequestLease), NativeApiError>(error),
        Ok((charged, lease)) => if update.length() > most_bytes {
            r == Err::<(ControlCall, RpcRequestLease), NativeApiError>(
                NativeApiError::InvalidConfiguration("configuration input exceeds its byte limit"),
            )
        } else {
            &&& r is Ok
            &&& r->Ok_0.1 == lease
            &&& after == charged
            &&& r->Ok_0.0.method == method
            &&& r->Ok_0.0.params@.len() == 2
            &&& r->Ok_0.0.params@[0] == CallParam::Text(update.text)
            &&& r->Ok_0.0.params@[1] is Options
            &&& r->Ok_0.0.params@[1]->Options_0@ == update.settings_map()
        },
    }
}

/// Admits a configuration and makes the call.
pub fn configuration(
    accounts: &mut RpcAccounts,
    method: &'static str,
    update: ConfigurationUpdate,
    input_bytes: usize,
    most_bytes: usize,
) -> (r: Result<(ControlCall, RpcRequestLease), NativeApiError>)
    requires
        old(accounts).valid(),
    ensures
        final(accounts).valid(),
        configures(*old(accounts), method, update, input_bytes, most_bytes, *final(accounts), r),
{
    proof {
        law_given_up_call_refunds_everything(*accounts, input_bytes as nat, None);
    }
    let lease = match take_call(accounts, input_bytes, None) {
        Ok(lease) => lease,
        Err(error) => return Err(error),
    };
    match update.into_params(most_bytes) {
        Ok(params) => Ok((ControlCall { method, params }, lease)),
        Err(error) => {
            give_up(accounts, lease);
            Err(error)
        },
    }
}

/// Which configuration to show.
#[derive(Clone, Copy, Debug, PartialEq, Eq, Structural)]
pub enum ConfigDumpMode {
    Defaults,
    Effective,
    TaskEffective(Gid),
    UrlRules,
}

/// How to show it.
#[derive(Clone, Copy, Debug, PartialEq, Eq, Structural)]
pub enum ConfigDumpFormat {
    Flat,
    Json,
    Toml,
}

/// The parameters of a call that shows a configuration.
pub open spec fn dump_params(mode: ConfigDumpMode, format: ConfigDumpFormat) -> Seq<CallParam> {
    let format = CallParam::Word(
        match format {
            ConfigDumpFormat::Flat => "flat",
            ConfigDumpFormat::Json => "json",
            ConfigDumpFormat::Toml => "toml",
        },
    );
    match mode {
        ConfigDumpMode::Defaults => seq![CallParam::Word("defaults"), format],
        ConfigDumpMode::Effective => seq![CallParam::Word("effective"), format],
        ConfigDumpMode::TaskEffective(gid) => seq![
            CallParam::Word("task-effective"),
            format,
            CallParam::Gid(gid),
        ],
        ConfigDumpMode::UrlRules => seq![CallParam::Word("url-rules"), format],
    }
}

/// A call that shows a configuration.
pub fn dump_config(mode: ConfigDumpMode, format: ConfigDumpFormat) -> (r: ControlCall)
    ensures
        r.method == "ariax.dumpConfig",
        r.params@ == dump_params(mode, format),
{
    let format_word = match format {
        ConfigDumpFormat::Flat => "flat",
        ConfigDumpFormat::Json => "json",
        ConfigDumpFormat::Toml => "toml",
    };
    let (mode_word, gid) = match mode {
        ConfigDumpMode::Defaults => ("defaults", None),
        ConfigDumpMode::Effective => ("effective", None),
        ConfigDumpMode::TaskEffective(gid) => ("task-effective", Some(gid)),
        ConfigDumpMode::UrlRules => ("url-rules", None),
    };
    let mut params: Vec<CallParam> = Vec::new();
    params.push(CallParam::Word(mode_word));
    params.push(CallParam::Word(format_word));
    if let Some(gid) = gid {
        params.push(CallParam::Gid(gid));
    }
    assert(params@ =~= dump_params(mode, format));
    ControlCall { method: "ariax.dumpConfig", params }
}

/// Whether a request of raw bytes may be taken on.
pub fn check_rpc_json(length: usize, most_bytes: usize) -> (r: Result<(), NativeApiError>)
    ensures
        r == (if length > most_bytes {
            Err::<(), NativeApiError>(NativeApiError::InvalidConfiguration("RPC request exceeds its byte limit"))
        } else {
            Ok::<(), NativeApiError>(())
        }),
{
    if length > most_bytes {
        Err(NativeApiError::InvalidConfiguration("RPC request exceeds its byte limit"))
    } else {
        Ok(())
    }
}

/// A call that imports a session, where the document is not too long.
pub fn import_session(document: String, format: &'static str, most_bytes: usize) -> (r: Result<
    ControlCall,
    NativeApiError,
>)
    ensures
        if byte_len(document@) > most_bytes {
            r == Err::<ControlCall, NativeApiError>(
                NativeApiError::InvalidConfiguration("session input exceeds its byte limit"),
            )
        } else {
            r is Ok && r->Ok_0.method == "ariax.importSession" && r->Ok_0.params@ == seq![
                CallParam::Text(document),
                CallParam::Word(format),
            ]
        },
{
    if document.as_str().len() > most_bytes {
        return Err(NativeApiError::InvalidConfiguration("session input exceeds its byte limit"));
    }
    let mut params: Vec<CallParam> = Vec::new();
    params.push(CallParam::Text(document));
    params.push(CallParam::Word(format));
    assert(params@ =~= seq![CallParam::Text(document), CallParam::Word(format)]);
    Ok(ControlCall { method: "ariax.importSession", params })
}

/// The options among fields that are texts.
pub open spec fn text_fields(fields: Seq<JsonField>, n: int) -> Seq<PairView>
    decreases n,
{
    if n <= 0 {
        Seq::empty()
    } else {
        match json_text(fields[n - 1].value) {
            Some(text) => text_fields(fields, n - 1).push(PairView { name: fields[n - 1].name@, value: text }),
            None => text_fields(fields, n - 1),
        }
    }
}

/// The options that a call returns: those that are texts.
pub fn read_options(value: &Json) -> (r: Result<Vec<TextPair>, NativeApiError>)
    ensures
        match json_fields(*value) {
            Some(fields) => r is Ok && pair_views(r->Ok_0@) == text_fields(fields, fields.len() as int),
            None => r == Err::<Vec<TextPair>, NativeApiError>(
                NativeApiError::InvalidResponse("options response is not an object"),
            ),
        },
{
    match value {
        Json::Object(fields) => {
            let mut pairs: Vec<TextPair> = Vec::new();
            assert(pair_views(pairs@) =~= Seq::empty());
            let mut i: usize = 0;
            while i < fields.len()
                invariant
                    i <= fields.len(),
                    pair_views(pairs@) == text_fields(fields@, i as int),
                decreases fields.len() - i,
            {
                let ghost before = pairs@;
                if let Some(text) = fields[i].value.as_text() {
                    let pair = TextPair { name: fields[i].name.clone(), value: text.to_owned() };
                    pairs.push(pair);
                    assert(pair_views(pairs@) =~= pair_views(before).push(pair@));
                    assert(pair@ =~= (PairView { name: fields@[i as int].name@, value: text@ }));
                }
                i = i + 1;
            }
            Ok(pairs)
        },
        _ => Err(NativeApiError::InvalidResponse("options response is not an object")),
    }
}

/// The connections that come with a list of statuses, one for each.
pub open spec fn connection_at(connections: Seq<Option<SshConnectionStatus>>, i: int) -> Option<SshConnectionStatus> {
    if 0 <= i < connections.len() {
        connections[i]
    } else {
        None
    }
}

/// What the first `n` statuses of a list say; the first that cannot be read is
/// the error.
pub open spec fn statuses(items: Seq<Json>, connections: Seq<Option<SshConnectionStatus>>, n: int) -> Result<
    Seq<TaskStatusView>,
    NativeApiError,
>
    decreases n,
{
    if n <= 0 {
        Ok(Seq::empty())
    } else {
        match statuses(items, connections, n - 1) {
            Err(error) => Err(error),
            Ok(before) => match status_view(items[n - 1], connection_at(connections, n - 1)) {
                Err(error) => Err(error),
                Ok(status) => Ok(before.push(status)),
            },
        }
    }
}

proof fn lemma_status_fault_stays(
    items: Seq<Json>,
    connections: Seq<Option<SshConnectionStatus>>,
    a: int,
    b: int,
)
    requires
        a <= b,
        statuses(items, connections, a) is Err,
    ensures
        statuses(items, connections, b) == statuses(items, connections, a),
    decreases b - a,
{
    if a < b {
        lemma_status_fault_stays(items, connections, a, b - 1);
    }
}

/// What statuses say.
pub open spec fn status_views(list: Seq<TaskStatus>) -> Seq<TaskStatusView> {
    list.map_values(|status: TaskStatus| status@)
}

/// Reads a list of statuses; what the field about the connection of each decodes
/// to is given.
pub fn status_list(value: &Json, connections: Vec<Option<SshConnectionStatus>>) -> (r: Result<
    Vec<TaskStatus>,
    NativeApiError,
>)
    ensures
        match json_items(*value) {
            None => r == Err::<Vec<TaskStatus>, NativeApiError>(
                NativeApiError::InvalidResponse("expected status list"),
            ),
            Some(items) => match statuses(items, connections@, items.len() as int) {
                Ok(views) => r is Ok && status_views(r->Ok_0@) == views,
                Err(error) => r == Err::<Vec<TaskStatus>, NativeApiError>(error),
            },
        },
{
    let items = match value {
        Json::Array(items) => items,
        _ => return Err(NativeApiError::InvalidResponse("expected status list")),
    };
    let ghost given = connections@;
    let mut rest = connections;
    let mut list: Vec<TaskStatus> = Vec::new();
    assert(status_views(list@) =~= Seq::empty());
    let mut i: usize = 0;
    while i < items.len()
        invariant
            i <= items.len(),
            json_items(*value) == Some(items@),
            given == connections@,
            rest@ == (if i <= given.len() {
                given.skip(i as int)
            } else {
                Seq::empty()
            }),
            statuses(items@, given, i as int) == Ok::<Seq<TaskStatusView>, NativeApiError>(status_views(list@)),
        decreases items.len() - i,
    {
        let connection = if rest.len() > 0 {
            rest.remove(0)
        } else {
            None
        };
        assert(connection == connection_at(given, i as int));
        assert(rest@ =~= (if i + 1 <= given.len() {
            given.skip(i as int + 1)
        } else {
            Seq::empty()
        }));
        proof {
            if statuses(items@, given, i as int + 1) is Err {
                lemma_status_fault_stays(items@, given, i as int + 1, items@.len() as int);
            }
        }
        match task_status(&items[i], connection) {
            Ok(status) => {
                let ghost before = list@;
                list.push(status);
                assert(status_views(list@) =~= status_views(before).push(status@));
            },
            Err(error) => return Err(error),
        }
        i = i + 1;
    }
    Ok(list)
}

/// How an engine ended: whether nobody else holds the control plane, what came of
/// shutting it down, and whether its work was drained first.
pub fn shutdown_outcome(
    released: bool,
    report: Result<bool, String>,
    drained: Result<(), HttpControlError>,
) -> (r: Result<(), NativeApiError>)
    ensures
        if !released {
            r matches Err(NativeApiError::Shutdown(text)) && text@ == "control plane is still referenced"@
        } else {
            match (report, drained) {
                (Err(text), _) => r == Err::<(), NativeApiError>(NativeApiError::Shutdown(text)),
                (Ok(_), Err(error)) => r == Err::<(), NativeApiError>(NativeApiError::Control(error)),
                (Ok(true), Ok(_)) => r is Ok,
                (Ok(false), Ok(_)) => r matches Err(NativeApiError::Shutdown(text)) && text@
                    == "engine did not complete a clean shutdown"@,
            }
        },
{
    if !released {
        return Err(NativeApiError::Shutdown("control plane is still referenced".to_owned()));
    }
    let clean = match report {
        Ok(clean) => clean,
        Err(text) => return Err(NativeApiError::Shutdown(text)),
    };
    if let Err(error) = drained {
        return Err(NativeApiError::Control(error));
    }
    if !clean {
        return Err(NativeApiError::Shutdown("engine did not complete a clean shutdown".to_owned()));
    }
    Ok(())
}

/// The bounds that a process is started with.
#[derive(Clone, Copy, Debug, PartialEq, Eq, Structural)]
pub struct ProcessBounds {
    pub task_capacity: usize,
    pub active_capacity: usize,
    pub plan_capacity: usize,
    pub max_wait_ms: u64,
    pub runtime: RuntimeEffectConfig,
    pub shutdown_step_timeout_ms: u64,
    pub now_unix_ms: u64,
}

/// The bounds of a process that starts now, where the clock can be read.
pub fn process_config(now_unix_ms: Option<u64>) -> (r: Result<ProcessBounds, NativeApiError>)
    ensures
        match now_unix_ms {
            None => r == Err::<ProcessBounds, NativeApiError>(
                NativeApiError::InvalidConfiguration("system clock is before Unix epoch"),
            ),
            Some(now) => r == Ok::<ProcessBounds, NativeApiError>(
                ProcessBounds {
                    task_capacity: 1024,
                    active_capacity: 64,
                    plan_capacity: 64,
                    max_wait_ms: 86_400_000,
                    runtime: RuntimeEffectConfig {
                        request_capacity: 1024,
                        event_capacity: 1024,
                        timer_capacity: 1024,
                        option_plan_capacity: 64,
                    },
                    shutdown_step_timeout_ms: DEFAULT_PROCESS_SHUTDOWN_STEP_TIMEOUT_MS,
                    now_unix_ms: now,
                },
            ) && r->Ok_0.runtime.fault() is None,
        },
{
    let now_unix_ms: u64 = match now_unix_ms {
        Some(now) => now,
        None => return Err(NativeApiError::InvalidConfiguration("system clock is before Unix epoch")),
    };
    Ok(
        ProcessBounds {
            task_capacity: 1024,
            active_capacity: 64,
            plan_capacity: 64,
            max_wait_ms: 86_400_000,
            runtime: RuntimeEffectConfig {
                request_capacity: 1024,
                event_capacity: 1024,
                timer_capacity: 1024,
                option_plan_capacity: 64,
            },
            shutdown_step_timeout_ms: DEFAULT_PROCESS_SHUTDOWN_STEP_TIMEOUT_MS,
            now_unix_ms,
        },
    )
}

} // verus!
