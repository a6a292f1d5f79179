use ariax_engine::bittorrent::{settings_input_bytes, AddMagnet, AddTorrent, BitTorrentOptions, SettingRoom};
use ariax_engine::byte_budget::ByteBudget;
use ariax_engine::control::HttpControlError;
use ariax_engine::download_options::{
    options_input_bytes, CredentialPath, DownloadOptions, ParsedDownload, RetryOptions, TransferCredentials,
    TransferOptions,
};
use ariax_engine::json::{Json, JsonField, JsonText};
use ariax_engine::native_api::{
    add_metalink, add_sized_metalink, add_sized_uri, add_uri, added_uri, gid_list, metalink_input_bytes, open_call,
    pause_all, source_input_bytes, sources_input_bytes, take_call, AddMetalink, AddUri, ApproveHostKey, CallParam,
    ControlCall, MetalinkSelection,
};
use ariax_engine::native_calls::{
    add_magnet, add_sized_magnet, add_sized_torrent, add_torrent, change_bittorrent_options, change_global_options,
    change_options, change_position, change_sized_bittorrent_options, change_sized_global_options,
    change_sized_options, changed_position, check_rpc_json, dump_config, import_session, magnet_input_bytes,
    process_config, read_options, replace_sized_sources, replace_sources, shutdown_outcome, sized_magnet,
    sized_torrent, status_list, torrent_input_bytes, ConfigDumpFormat, ConfigDumpMode, ConfigurationUpdate,
    GlobalOptions, PositionOrigin,
};
use ariax_engine::native_error::{native_budget_error, NativeApiError};
use ariax_engine::native_queries::{
    active, call_control, call_sized, check_config, configuration_input_bytes, exported_session, force_remove,
    global_statistics, pause, purge_results, reload_config, resume, session_info, sized_configuration, status, stopped, waiting,
};
use ariax_engine::options::OptionValue;
use ariax_engine::pairs::{PairLimits, TextPair};
use ariax_engine::rpc_budget::{
    RpcAccounts, RpcBudgetError, RpcBudgets, RpcRequestLease, MAX_RPC_CLIENT_REQUEST_BYTES,
};
use ariax_engine::session::{Aria2Status, Gid, HostKeyChallengeId, JournalHash};
use ariax_engine::session_file::{SessionLimits, SessionRules};
use ariax_engine::session_format::SessionFormat;
use ariax_engine::slow_slots::SlowSlotConfig;
use ariax_engine::span::Span;
use ariax_engine::task_status::{admitted_gid, decimal_u64, task_status, text_bool, SshConnectionStatus};

fn accounts() -> RpcAccounts {
    RpcBudgets::new(32, 64 * 1024 * 1024, ByteBudget::new(64 * 1024 * 1024)).client().expect("client")
}

fn pair(name: &str, value: &str) -> TextPair {
    TextPair { name: name.to_owned(), value: value.to_owned() }
}

fn text(value: &str) -> Json {
    let hex = |length: usize| value.len() == length && value.bytes().all(|byte| byte.is_ascii_hexdigit());
    Json::Text(JsonText {
        text: value.to_owned(),
        gid: if hex(16) { u64::from_str_radix(value, 16).ok().map(Gid) } else { None },
        challenge: if hex(32) { u128::from_str_radix(value, 16).ok().map(HostKeyChallengeId) } else { None },
        fingerprint: if hex(64) {
            Some(JournalHash {
                high: u128::from_str_radix(&value[..32], 16).unwrap(),
                low: u128::from_str_radix(&value[32..], 16).unwrap(),
            })
        } else {
            None
        },
        persistable: false,
    })
}

fn object(fields: Vec<(&str, Json)>) -> Json {
    Json::Object(fields.into_iter().map(|(name, value)| JsonField { name: name.to_owned(), value }).collect())
}

fn transfer() -> TransferOptions {
    TransferOptions {
        fault: None,
        persisted: vec![pair("referer", "http://example.invalid/")],
        checksum: None,
        credentials: Some(TransferCredentials { username: "user".to_owned(), password: Some("secret".to_owned()) }),
        sftp_known_hosts: None,
        sftp_private_key: None,
        netrc_path: None,
        sftp_private_key_passphrase: None,
        sftp_use_agent: true,
        sftp_check_host_key: true,
        ftp_pasv_server_address: false,
        retained_bytes: 100,
    }
}

fn options_of(call: &ControlCall, index: usize) -> Vec<(String, String)> {
    let CallParam::Options(options) = &call.params[index] else { panic!("no options") };
    let mut shown: Vec<(String, String)> = options
        .entries
        .iter()
        .map(|entry| {
            let value = match &entry.value {
                OptionValue::Text(value) => value.clone(),
                OptionValue::Number(value) => format!("#{value}"),
                OptionValue::Flag(value) => format!("?{value}"),
            };
            (entry.name.clone(), value)
        })
        .collect();
    shown.sort();
    shown
}

fn owned(pairs: &[(&str, &str)]) -> Vec<(String, String)> {
    pairs.iter().map(|(name, value)| ((*name).to_owned(), (*value).to_owned())).collect()
}

fn settings_of(values: Vec<TextPair>) -> BitTorrentOptions {
    BitTorrentOptions::from_pairs(values, |_: &Vec<TextPair>| None).ok().expect("settings")
}

fn refusal(error: &NativeApiError) -> String {
    error.message("busy")
}

#[test]
fn adding_sources_sends_them_with_their_options() {
    let mut accounts = accounts();
    let before = accounts.request_bytes();
    let request = AddUri {
        uris: vec!["http://a.invalid/f".to_owned()],
        options: DownloadOptions {
            pause: true,
            output: Some("f".to_owned()),
            split: Some(4),
            ..DownloadOptions::default()
        },
    };
    let bytes = source_input_bytes(&request.uris, &request.options.output);
    assert!(bytes >= 65_536 + 18 + 1024 + 1);
    let (call, lease) = add_uri(&mut accounts, request, 64).expect("call");
    assert_eq!(call.method, "aria2.addUri");
    assert!(matches!(&call.params[0], CallParam::Texts(uris) if uris == &vec!["http://a.invalid/f".to_owned()]));
    assert_eq!(options_of(&call, 1), owned(&[("out", "f"), ("pause", "?true"), ("split", "#4")]));
    assert!(accounts.request_bytes() >= before + bytes);
    accounts.release_request(lease);
    assert_eq!(accounts.request_bytes(), before);
}

#[test]
fn refused_sources_charge_nothing() {
    let mut accounts = accounts();
    let error = add_sized_uri(&mut accounts, AddUri { uris: Vec::new(), options: DownloadOptions::default() }, 1, 64)
        .expect_err("none");
    assert_eq!(refusal(&error), "URI count is outside the supported bound");
    let uris = vec!["http://a.invalid/".to_owned(); 3];
    assert!(add_sized_uri(&mut accounts, AddUri { uris, options: DownloadOptions::default() }, 1, 2).is_err());
    let uris = vec!["http://a.invalid/".to_owned()];
    let request = AddUri { uris, options: DownloadOptions::default() };
    let error = add_sized_uri(&mut accounts, request, MAX_RPC_CLIENT_REQUEST_BYTES + 1, 64).expect_err("busy");
    assert!(matches!(error, NativeApiError::Control(HttpControlError::Busy)));
    let options = DownloadOptions { retry: Some(RetryOptions::Refused(7)), ..DownloadOptions::default() };
    let request = AddUri { uris: vec!["http://a.invalid/".to_owned()], options };
    let error = add_sized_uri(&mut accounts, request, 10, 64).expect_err("retry");
    assert!(matches!(error, NativeApiError::Control(HttpControlError::TaskSpec(7))));
    assert_eq!(accounts.outstanding_requests(), 0);
    assert_eq!(accounts.request_bytes(), 0);
}

#[test]
fn transfer_options_join_the_others() {
    let options = DownloadOptions {
        transfer: Some(transfer()),
        mirror_identity: Some("strong".to_owned()),
        retry: Some(RetryOptions::Canonical(vec![pair("max-tries", "3")])),
        ..DownloadOptions::default()
    };
    assert!(options.input_bytes() >= 64 * 1024 + 300);
    let call = ControlCall {
        method: "aria2.addUri",
        params: vec![CallParam::Options(options.into_value(true).expect("options"))],
    };
    let shown = options_of(&call, 0);
    for expected in owned(&[
        ("pause", "?false"),
        ("referer", "http://example.invalid/"),
        ("sftp-use-agent", "?true"),
        ("verify-mirror-identity", "strong"),
        ("max-tries", "3"),
    ]) {
        assert!(shown.contains(&expected), "{expected:?} in {shown:?}");
    }
    assert!(!shown.iter().any(|(name, _)| name == "sftp-check-host-key" || name == "ftp-pasv-address"));

    let unreadable = TransferOptions { netrc_path: Some(CredentialPath::NotUtf8), ..transfer() };
    let options = DownloadOptions { transfer: Some(unreadable), ..DownloadOptions::default() };
    assert!(options.into_value(true).is_err());
    let faulty = TransferOptions { fault: Some(12), ..transfer() };
    let options = DownloadOptions { transfer: Some(faulty), ..DownloadOptions::default() };
    assert!(options.into_value(true).is_err());
}

#[test]
fn changing_options_never_pauses() {
    let mut accounts = accounts();
    let options = DownloadOptions { pause: true, ..DownloadOptions::default() };
    let error = change_sized_options(&mut accounts, Gid(1), options, false, 10).expect_err("pause");
    assert_eq!(refusal(&error), "use pause() to change pause intent");
    assert_eq!(accounts.request_bytes(), 0);
    let options = DownloadOptions { max_download_limit: Some(9), ..DownloadOptions::default() };
    let (call, _) = change_sized_options(&mut accounts, Gid(1), options, true, 10).expect("call");
    assert_eq!(call.method, "aria2.changeOption");
    assert!(matches!(call.params[0], CallParam::Gid(Gid(1))));
    assert_eq!(options_of(&call, 1), owned(&[("max-download-limit", "#9")]));
    assert!(matches!(call.params[2], CallParam::Restart(true)));
}

#[test]
fn metalink_documents_are_sent_encoded() {
    let mut accounts = accounts();
    let request = AddMetalink {
        bytes: b"<metalink/>".to_vec(),
        options: DownloadOptions::default(),
        selection: MetalinkSelection {
            base_uri: Some("http://a.invalid/".to_owned()),
            select_file: None,
            language: Some("en".to_owned()),
            os: None,
            version: None,
            location: None,
            preferred_protocol: Some("https".to_owned()),
            unique_protocol: Some(false),
        },
        position: None,
    };
    let bytes = metalink_input_bytes(11, 11);
    assert_eq!(bytes, 11 + 15 + 256 * 1024);
    let (call, _) = add_sized_metalink(&mut accounts, request, bytes, 1024).expect("call");
    assert_eq!(call.method, "aria2.addMetalink");
    assert!(matches!(&call.params[0], CallParam::Encoded(text) if text == "PG1ldGFsaW5rLz4="));
    assert_eq!(
        options_of(&call, 1),
        owned(&[
            ("metalink-base-uri", "http://a.invalid/"),
            ("metalink-enable-unique-protocol", "?false"),
            ("metalink-language", "en"),
            ("metalink-preferred-protocol", "https"),
            ("pause", "?false"),
        ])
    );
    assert!(matches!(call.params[2], CallParam::Signed(-1)));

    let selection = MetalinkSelection {
        base_uri: None,
        select_file: None,
        language: None,
        os: None,
        version: None,
        location: None,
        preferred_protocol: None,
        unique_protocol: None,
    };
    let request =
        AddMetalink { bytes: vec![0; 5], options: DownloadOptions::default(), selection, position: Some(2) };
    let error = add_sized_metalink(&mut accounts, request, 10, 4).expect_err("too long");
    assert_eq!(refusal(&error), "Metalink exceeds document limit");
}

#[test]
fn torrents_and_magnet_links_are_sent() {
    let mut accounts = accounts();
    let torrent = AddTorrent {
        bytes: vec![0xff, 0x00, 0x10],
        web_seeds: vec!["http://seed.invalid/".to_owned()],
        options: settings_of(vec![pair("bt-max-peers", "32")]),
        position: Some(3),
    };
    assert!(torrent_input_bytes(3, &torrent) >= 3 + 6 + 8192 + 2 * 20);
    let (call, lease) = add_sized_torrent(&mut accounts, torrent, 100).expect("torrent");
    assert_eq!(call.method, "aria2.addTorrent");
    assert!(matches!(&call.params[0], CallParam::Encoded(text) if text == "/wAQ"));
    assert!(matches!(&call.params[1], CallParam::Texts(seeds) if seeds.len() == 1));
    assert!(matches!(&call.params[2], CallParam::Settings(settings) if settings[0].name == "bt-max-peers"));
    assert!(matches!(call.params[3], CallParam::Signed(3)));
    accounts.release_request(lease);

    let crowded = AddTorrent {
        bytes: Vec::new(),
        web_seeds: vec![String::new(); 65],
        options: BitTorrentOptions::default(),
        position: None,
    };
    let error = add_sized_torrent(&mut accounts, crowded, 1).expect_err("seeds");
    assert_eq!(refusal(&error), "torrent admission exceeds its input limit");

    let magnet = AddMagnet {
        uri: "magnet:?xt=urn:btih:00".to_owned(),
        options: BitTorrentOptions::default(),
        position: None,
    };
    assert!(magnet_input_bytes(&magnet) >= 2 * 22 + 8192);
    let (call, _) = add_sized_magnet(&mut accounts, magnet, 10).expect("magnet");
    assert_eq!(call.method, "aria2.addUri");
    assert!(matches!(&call.params[0], CallParam::Texts(uris) if uris[0] == "magnet:?xt=urn:btih:00"));
    let other = AddMagnet {
        uri: "http://a.invalid/".to_owned(),
        options: BitTorrentOptions::default(),
        position: None,
    };
    let error = add_sized_magnet(&mut accounts, other, 10).expect_err("not a magnet link");
    assert_eq!(refusal(&error), "invalid or oversized magnet URI");

    let options = settings_of(vec![pair("seed-ratio", "2")]);
    let (call, _) = change_sized_bittorrent_options(&mut accounts, Gid(5), options, 10).expect("options");
    assert_eq!(call.method, "aria2.changeOption");
    assert!(matches!(&call.params[1], CallParam::Settings(settings) if settings[0].value == "2"));
}

#[test]
fn global_options_join_limits_and_scheduling() {
    let mut accounts = accounts();
    let global = GlobalOptions {
        task_defaults: DownloadOptions { split: Some(2), ..DownloadOptions::default() },
        max_overall_download_limit: Some(1000),
        max_overall_upload_limit: Some(50),
        bittorrent_defaults: Some(settings_of(vec![pair("bt-max-peers", "8")])),
        scheduling: Some(SlowSlotConfig::default()),
    };
    let (call, lease) = change_sized_global_options(&mut accounts, global, 100, 200).expect("call");
    assert_eq!(call.method, "aria2.changeGlobalOption");
    let shown = options_of(&call, 0);
    for expected in owned(&[
        ("split", "#2"),
        ("max-overall-download-limit", "#1000"),
        ("max-overall-upload-limit", "#50"),
        ("bt-max-peers", "8"),
    ]) {
        assert!(shown.contains(&expected), "{expected:?} in {shown:?}");
    }
    assert!(shown.len() > 4);
    accounts.release_request(lease);

    let slow = SlowSlotConfig { grace_period: Span { seconds: u64::MAX, nanos: 0 }, ..SlowSlotConfig::default() };
    let global = GlobalOptions {
        task_defaults: DownloadOptions::default(),
        max_overall_download_limit: None,
        max_overall_upload_limit: None,
        bittorrent_defaults: None,
        scheduling: Some(slow),
    };
    let error = change_sized_global_options(&mut accounts, global, 100, 0).expect_err("scheduling");
    assert!(matches!(error, NativeApiError::Control(HttpControlError::InvalidConfig)));
    assert_eq!(accounts.request_bytes(), 0);
}

#[test]
fn plain_calls_name_their_methods() {
    assert_eq!(pause_all(true).method, "aria2.forcePauseAll");
    assert_eq!(pause_all(false).method, "aria2.pauseAll");
    assert_eq!(pause(Gid(1)).method, "aria2.pause");
    assert_eq!(resume(Gid(1)).method, "aria2.unpause");
    assert_eq!(force_remove(Gid(1)).method, "aria2.forceRemove");
    assert_eq!(purge_results().method, "aria2.purgeDownloadResult");
    assert_eq!(global_statistics().method, "aria2.getGlobalStat");
    assert_eq!(session_info().method, "aria2.getSessionInfo");
    assert!(active().params.is_empty());
    assert!(matches!(status(Gid(9)).params[..], [CallParam::Gid(Gid(9))]));
    assert!(matches!(waiting(-1, 7).params[..], [CallParam::Signed(-1), CallParam::Unsigned(7)]));
    assert_eq!(stopped(0, 1).method, "aria2.tellStopped");
    let moved = change_position(Gid(2), -3, PositionOrigin::End);
    assert!(matches!(moved.params[..], [CallParam::Gid(Gid(2)), CallParam::Signed(-3), CallParam::Word("POS_END")]));
    let dumped = dump_config(ConfigDumpMode::TaskEffective(Gid(4)), ConfigDumpFormat::Toml);
    assert!(matches!(
        dumped.params[..],
        [CallParam::Word("task-effective"), CallParam::Word("toml"), CallParam::Gid(Gid(4))]
    ));
    assert_eq!(dump_config(ConfigDumpMode::UrlRules, ConfigDumpFormat::Flat).params.len(), 2);
}

#[test]
fn a_call_takes_the_place_and_the_room_of_its_answer() {
    let mut accounts = accounts();
    let call = call_sized(&mut accounts, 4096).expect("call");
    assert!(accounts.bytes() >= call.workspace.bytes);
    assert_eq!(accounts.outstanding_requests(), 1);
    let mut held = vec![call];
    while let Ok(call) = call_sized(&mut accounts, 4096) {
        held.push(call);
    }
    let bytes = accounts.request_bytes();
    let requests = accounts.outstanding_requests();
    let error = call_sized(&mut accounts, 4096).expect_err("busy");
    assert!(matches!(error, NativeApiError::Control(HttpControlError::Busy)));
    assert_eq!(accounts.request_bytes(), bytes);
    assert_eq!(accounts.outstanding_requests(), requests);
    assert!(matches!(
        native_budget_error(RpcBudgetError::Busy),
        NativeApiError::Control(HttpControlError::Busy)
    ));
}

#[test]
fn a_call_without_room_for_its_answer_is_given_back() {
    let mut accounts = RpcBudgets::new(32, 600 * 1024, ByteBudget::new(600 * 1024)).client().expect("client");
    let lease = take_call(&mut accounts, 10, Some(100)).expect("admitted");
    let taken = accounts.request_bytes();
    assert!(taken > 0);
    assert!(open_call(&mut accounts, lease).is_err());
    assert_eq!(accounts.request_bytes(), 0);
    assert_eq!(accounts.outstanding_requests(), 0);
}

#[test]
fn host_keys_are_approved_by_challenge_and_fingerprint() {
    let challenge = HostKeyChallengeId(3);
    let fingerprint = JournalHash { high: 1, low: 2 };
    let approval = ApproveHostKey::from_text(Gid(7), Some(challenge), Some(fingerprint)).expect("approval");
    let call = approval.call();
    assert_eq!(call.method, "ariax.approveHostKey");
    assert!(matches!(call.params[1], CallParam::Challenge(HostKeyChallengeId(3))));
    let error = ApproveHostKey::from_text(Gid(7), None, Some(fingerprint)).expect_err("challenge");
    assert_eq!(refusal(&error), "challenge id must be 32 hexadecimal characters");
    let error = ApproveHostKey::from_text(Gid(7), Some(challenge), None).expect_err("fingerprint");
    assert_eq!(refusal(&error), "invalid SHA-256 host-key fingerprint");
}

#[test]
fn sources_are_replaced_within_bounds() {
    let mut accounts = accounts();
    let uris = vec!["http://a.invalid/".to_owned()];
    let (call, _) = replace_sized_sources(&mut accounts, Gid(1), uris, 100, 64).expect("call");
    assert_eq!(call.method, "ariax.replaceSources");
    assert!(replace_sized_sources(&mut accounts, Gid(1), Vec::new(), 100, 64).is_err());
}

#[test]
fn configurations_are_sent_with_their_settings() {
    let mut accounts = accounts();
    let update = || ConfigurationUpdate {
        text: "split=4".to_owned(),
        url_rules: Some("rules".to_owned()),
        expected_generation: Some(11),
        allow_known_unsupported: false,
    };
    assert!(configuration_input_bytes(&update()) >= 7 + 5 + 64 * 1024);
    let (call, lease) = check_config(&mut accounts, update(), 12).expect("call");
    assert_eq!(call.method, "ariax.checkConfig");
    assert_eq!(
        options_of(&call, 1),
        owned(&[("compatibility", "strict"), ("expectedGeneration", "#11"), ("urlRules", "rules")])
    );
    accounts.release_request(lease);
    let error = reload_config(&mut accounts, update(), 11).expect_err("too long");
    assert_eq!(refusal(&error), "configuration input exceeds its byte limit");
    assert_eq!(accounts.request_bytes(), 0);
}

#[test]
fn documents_and_requests_have_limits() {
    assert!(check_rpc_json(10, 10).is_ok());
    assert_eq!(refusal(&check_rpc_json(11, 10).expect_err("long")), "RPC request exceeds its byte limit");
    let call = import_session("{}".to_owned(), "json", 2).expect("call");
    assert_eq!(call.method, "ariax.importSession");
    let error = import_session("{ }".to_owned(), "json", 2).expect_err("long");
    assert_eq!(refusal(&error), "session input exceeds its byte limit");
}

#[test]
fn answers_are_read_or_refused() {
    assert_eq!(added_uri(&text("0000000000000012")).expect("gid"), Gid(0x12));
    assert_eq!(refusal(&added_uri(&text("nope")).expect_err("text")), "addUri returned an invalid GID");
    assert_eq!(refusal(&added_uri(&Json::Null).expect_err("null")), "addUri did not return a GID");
    assert_eq!(admitted_gid(&text("00000000000000ff")).expect("gid"), Gid(255));
    assert_eq!(refusal(&admitted_gid(&Json::Null).expect_err("null")), "invalid admitted torrent GID");
    let list = Json::Array(vec![text("0000000000000001"), text("0000000000000002")]);
    assert_eq!(gid_list(&list, "a", "b").expect("gids"), vec![Gid(1), Gid(2)]);
    assert_eq!(refusal(&gid_list(&Json::Null, "a", "b").expect_err("list")), "a");
    assert_eq!(refusal(&gid_list(&Json::Array(vec![Json::Null]), "a", "b").expect_err("gid")), "b");
    assert_eq!(changed_position(&Json::Unsigned(4)).expect("place"), 4);
    assert_eq!(refusal(&changed_position(&text("4")).expect_err("text")), "invalid queue position");
    let options = object(vec![("split", text("5")), ("nested", Json::Null)]);
    let read = read_options(&options).expect("options");
    assert_eq!(read.len(), 1);
    assert_eq!((read[0].name.as_str(), read[0].value.as_str()), ("split", "5"));
    assert_eq!(refusal(&read_options(&Json::Null).expect_err("null")), "options response is not an object");
    assert_eq!(decimal_u64("18446744073709551615"), Some(u64::MAX));
    assert_eq!(decimal_u64("18446744073709551616"), None);
    assert_eq!(decimal_u64("+7"), Some(7));
    assert_eq!(decimal_u64(""), None);
    assert_eq!(text_bool("true"), Some(true));
    assert_eq!(text_bool("True"), None);
}

#[test]
fn what_a_call_takes_follows_from_the_rooms_of_its_texts() {
    assert_eq!(options_input_bytes(10, Some(100)), 64 * 1024 + 10 + 300);
    assert_eq!(options_input_bytes(0, None), 64 * 1024);
    assert_eq!(options_input_bytes(1, Some(usize::MAX)), usize::MAX);
    assert_eq!(DownloadOptions::default().input_bytes(), 64 * 1024);
    let rooms = vec![SettingRoom { name: 12, value: 3 }, SettingRoom { name: 4, value: 5 }];
    assert_eq!(settings_input_bytes(&rooms), 8192 + 15 + 9 + 2 * 512);
    let string = std::mem::size_of::<String>();
    assert_eq!(sources_input_bytes(2, &vec![30, 40], 7), 64 * 1024 + 2 * string + 70 + 2 * 1024 + 7);
    assert_eq!(sized_torrent(9, 5, 8192, &vec![20, 1]), 9 + 10 + 8192 + 42);
    assert_eq!(sized_magnet(22, 8192), 44 + 8192);
    assert_eq!(sized_magnet(usize::MAX, 1), usize::MAX);
    assert_eq!(sized_configuration(7, 5), 12 + 64 * 1024);
}

fn status_fields() -> Vec<(&'static str, Json)> {
    vec![
        ("gid", text("00000000000000aa")),
        ("status", text("waiting")),
        ("totalLength", text("100")),
        ("completedLength", text("40")),
    ]
}

#[test]
fn statuses_are_read() {
    let read = task_status(&object(status_fields()), None).expect("status");
    assert_eq!(read.gid, Gid(0xaa));
    assert_eq!(read.status, Aria2Status::Waiting);
    assert_eq!((read.total_length, read.completed_length), (100, 40));
    assert!(read.bittorrent.is_none() && read.followed_by.is_empty());

    let mut fields = status_fields();
    fields.push(("followedBy", Json::Array(vec![text("0000000000000001")])));
    fields.push(("infoHash", text("0123456789abcdef0123456789abcdef01234567")));
    for (name, value) in [
        ("seeder", "false"),
        ("connections", "3"),
        ("numSeeders", "1"),
        ("btDownloadedLength", "7"),
        ("uploadLength", "8"),
        ("downloadSpeed", "9"),
        ("uploadSpeed", "10"),
    ] {
        fields.push((name, text(value)));
    }
    fields.push(("btSeedTime", Json::Unsigned(11)));
    fields.push(("btCheckpointDirty", Json::Bool(true)));
    fields.push((
        "hostKeyChallenge",
        object(vec![
            ("id", text("0123456789abcdef0123456789abcdef")),
            ("host", text("example.invalid")),
            ("port", Json::Unsigned(22)),
            ("algorithm", text("ssh-ed25519")),
            ("fingerprintSha256", text(&"1f".repeat(32))),
        ]),
    ));
    fields.push(("sshConnection", Json::Null));
    let ssh = || {
        Some(SshConnectionStatus {
            source: 1,
            kex: "k".to_owned(),
            host_key: "h".to_owned(),
            cipher: "c".to_owned(),
            client_mac: "m".to_owned(),
            server_mac: "m".to_owned(),
            insecure_host_key: false,
            legacy_host_key_digest: false,
        })
    };
    let value = object(fields);
    let read = task_status(&value, ssh()).expect("status");
    assert_eq!(read.followed_by, vec![Gid(1)]);
    let torrent = read.bittorrent.expect("torrent");
    assert_eq!((torrent.peers, torrent.seeders, torrent.downloaded, torrent.uploaded), (3, 1, 7, 8));
    assert!(torrent.checkpoint_dirty && !torrent.seeder);
    let challenge = read.host_key_challenge.expect("challenge");
    assert_eq!((challenge.canonical_host.as_str(), challenge.port), ("example.invalid", 22));
    assert_eq!(refusal(&task_status(&value, None).expect_err("ssh")), "invalid SSH diagnostics");
}

#[test]
fn statuses_that_say_too_little_are_refused() {
    for (name, message) in [
        ("gid", "invalid GID"),
        ("status", "unknown task status"),
        ("totalLength", "totalLength"),
        ("completedLength", "completedLength"),
    ] {
        let fields = status_fields().into_iter().filter(|(field, _)| *field != name).collect();
        assert_eq!(refusal(&task_status(&object(fields), None).expect_err(name)), message);
    }
    let mut fields = status_fields();
    fields.push(("followedBy", Json::Array((0..1001).map(|_| text("0000000000000001")).collect())));
    assert_eq!(refusal(&task_status(&object(fields), None).expect_err("many")), "invalid followedBy");
    let mut fields = status_fields();
    fields.push(("infoHash", text("xyz")));
    assert_eq!(refusal(&task_status(&object(fields), None).expect_err("hash")), "invalid torrent identity");
    let list = Json::Array(vec![object(status_fields()), Json::Null]);
    assert_eq!(refusal(&status_list(&list, Vec::new()).expect_err("second")), "invalid GID");
    let list = Json::Array(vec![object(status_fields()), object(status_fields())]);
    assert_eq!(status_list(&list, Vec::new()).expect("both").len(), 2);
    assert_eq!(refusal(&status_list(&Json::Null, Vec::new()).expect_err("null")), "expected status list");
}

#[test]
fn the_end_of_an_engine_is_told() {
    assert!(shutdown_outcome(true, Ok(true), Ok(())).is_ok());
    let told = |released, report, drained| refusal(&shutdown_outcome(released, report, drained).expect_err("error"));
    assert_eq!(told(false, Ok(true), Ok(())), "engine shutdown failed: control plane is still referenced");
    assert_eq!(told(true, Err("lost".to_owned()), Ok(())), "engine shutdown failed: lost");
    assert_eq!(told(true, Ok(false), Ok(())), "engine shutdown failed: engine did not complete a clean shutdown");
    assert_eq!(told(true, Ok(false), Err(HttpControlError::Busy)), "busy");
}

#[test]
fn a_process_starts_with_known_bounds() {
    let bounds = process_config(Some(5)).expect("bounds");
    assert_eq!((bounds.task_capacity, bounds.active_capacity, bounds.plan_capacity), (1024, 64, 64));
    assert_eq!((bounds.max_wait_ms, bounds.now_unix_ms), (86_400_000, 5));
    assert!(bounds.runtime.validate().is_ok());
    assert_eq!(refusal(&process_config(None).expect_err("clock")), "system clock is before Unix epoch");
}

fn parsed(settings: &Vec<TextPair>) -> Result<ParsedDownload, HttpControlError> {
    assert_eq!(settings.len(), 2);
    Ok(ParsedDownload {
        paused: false,
        split: 9,
        response_body_timeout: Span { seconds: 60, nanos: 0 },
        max_download_limit: 0,
        max_connections_per_server: 1,
        min_split_size: 1,
        piece_length: 1,
        connect_timeout: Span { seconds: 30, nanos: 0 },
        lowest_speed_limit: 0,
        endgame_max_duplicates: 1,
        checksum: None,
        transfer: transfer(),
        mirror_identity: "strong".to_owned(),
        retry: None,
    })
}

#[test]
fn what_was_not_set_is_left_to_the_defaults() {
    let limits = PairLimits { bytes: 1024, entries: 8 };
    let settings = || vec![pair("split", "9"), pair("out", "f")];
    let options = DownloadOptions::from_pairs(settings(), limits, true, parsed).expect("options");
    assert_eq!(options.split, Some(9));
    assert_eq!(options.output.as_deref(), Some("f"));
    assert_eq!(options.timeout_seconds, None);
    assert_eq!(options.mirror_identity, None);
    let refused = |settings, root| {
        let never = |_: &Vec<TextPair>| -> Result<ParsedDownload, HttpControlError> { panic!("parsed") };
        refusal(&DownloadOptions::from_pairs(settings, limits, root, never).err().expect("refused"))
    };
    let unsupported = "duplicate, oversized or unsupported download option";
    assert_eq!(refused(vec![pair("split", "1"), pair("split", "2")], true), unsupported);
    assert_eq!(refused(vec![pair("dir", "/")], true), unsupported);
    assert_eq!(refused(vec![pair("out", &"x".repeat(2000))], true), unsupported);
    assert_eq!(refused(settings(), false), "cannot resolve local output root");
    let refuse = |_: &Vec<TextPair>| Err(HttpControlError::TaskSpec(3));
    let error = DownloadOptions::from_pairs(settings(), limits, true, refuse).err().expect("registry");
    assert!(matches!(error, NativeApiError::Control(HttpControlError::TaskSpec(3))));
}

#[test]
fn calls_are_charged_what_they_take() {
    let mut accounts = accounts();
    let before = accounts.request_bytes();
    let charged = |accounts: &mut RpcAccounts, least: usize, sent: Result<(ControlCall, RpcRequestLease), NativeApiError>| {
        let (call, lease) = sent.expect("call");
        assert!(accounts.request_bytes() >= before + least, "{}", call.method);
        accounts.release_request(lease);
        assert_eq!(accounts.request_bytes(), before);
    };
    let uris = || vec!["http://a.invalid/f".to_owned()];
    let sent = replace_sources(&mut accounts, Gid(1), uris(), 64);
    charged(&mut accounts, 65_536 + 1024 + 18, sent);
    let document = AddMetalink {
        bytes: vec![7; 300],
        options: DownloadOptions::default(),
        selection: MetalinkSelection {
            base_uri: None,
            select_file: None,
            language: None,
            os: None,
            version: None,
            location: None,
            preferred_protocol: None,
            unique_protocol: None,
        },
        position: None,
    };
    let sent = add_metalink(&mut accounts, document, 1024);
    charged(&mut accounts, 300 + 400 + 262_144, sent);
    let settings = || settings_of(vec![pair("bt-max-peers", "8")]);
    let torrent = AddTorrent { bytes: vec![1; 50], web_seeds: uris(), options: settings(), position: None };
    let sent = add_torrent(&mut accounts, torrent);
    charged(&mut accounts, 50 + 100 + 36, sent);
    let magnet = AddMagnet { uri: "magnet:?xt=urn:btih:aa".to_owned(), options: settings(), position: None };
    let sent = add_magnet(&mut accounts, magnet);
    charged(&mut accounts, 44, sent);
    let sent = change_options(&mut accounts, Gid(1), DownloadOptions::default(), false);
    charged(&mut accounts, 65_536, sent);
    let sent = change_bittorrent_options(&mut accounts, Gid(1), settings());
    charged(&mut accounts, 13, sent);
    let global = GlobalOptions {
        task_defaults: DownloadOptions::default(),
        max_overall_download_limit: None,
        max_overall_upload_limit: None,
        bittorrent_defaults: Some(settings()),
        scheduling: None,
    };
    let sent = change_global_options(&mut accounts, global);
    charged(&mut accounts, 65_536 + 13, sent);
    let params = Json::Array(vec![text("0000000000000001"), Json::Unsigned(3)]);
    let open = call_control(&mut accounts, &params).expect("call");
    assert!(accounts.request_bytes() >= before + 3 * 256 + 16);
    assert!(open.response.request.is_some());
}

#[test]
fn sessions_are_exported_while_the_longest_document_fits() {
    let limits =
        SessionLimits { document_bytes: 1000, tasks: 4, sources: 4, safe_uri_bytes: 100, resume_bytes: 64 };
    let rules = SessionRules { task_states: Vec::new(), aria2_options: Vec::new() };
    let document = object(vec![("formatVersion", Json::Unsigned(3)), ("tasks", Json::Array(Vec::new()))]);
    let print = |value: &Json| if value == &Json::Null { "null".to_owned() } else { "{..}".to_owned() };
    let mut accounts = accounts();
    let before = accounts.bytes();
    let exported = |accounts: &mut RpcAccounts, document: &Json, format, limits: &SessionLimits| {
        exported_session(accounts, document, format, print, &rules, limits)
    };
    assert_eq!(exported(&mut accounts, &document, SessionFormat::Json, &limits).expect("json"), "{..}");
    assert_eq!(exported(&mut accounts, &document, SessionFormat::Aria2, &limits).expect("text"), "");
    let error = exported(&mut accounts, &Json::Null, SessionFormat::Aria2, &limits).expect_err("no tasks");
    assert!(matches!(error, NativeApiError::Control(HttpControlError::InvalidParams("invalid export document"))));
    let short = SessionLimits { document_bytes: 3, ..limits };
    let error = exported(&mut accounts, &document, SessionFormat::Json, &short).expect_err("too long");
    assert!(matches!(error, NativeApiError::Control(HttpControlError::ResponseTooLarge)));
    let huge = SessionLimits { document_bytes: usize::MAX, ..limits };
    let error = exported(&mut accounts, &document, SessionFormat::Json, &huge).expect_err("busy");
    assert!(matches!(error, NativeApiError::Control(HttpControlError::Busy)));
    assert_eq!(accounts.bytes(), before);
}
