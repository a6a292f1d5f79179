use ariax_engine::byte_budget::ByteBudget;
use ariax_engine::control::HttpControlError;
use ariax_engine::json::{Json, JsonField, JsonText};
use ariax_engine::rpc_budget::{RpcAccounts, RpcBudgets, RpcRequestLease, MAX_RPC_CLIENT_REQUEST_BYTES};
use ariax_engine::session::{Gid, HostKeyChallengeId, JournalHash};
use ariax_engine::session_aria2::{Aria2Import, Aria2Progress};
use ariax_engine::session_file::{
    find_option, ImportedTask, SessionLimits, SessionRules, TaskFindings, MAX_SESSION_LINE_BYTES,
};
use ariax_engine::session_format::SessionFormat;
use ariax_engine::session_import::{
    check_length, import_document, import_request, read_field, take_json, ImportRequest, JsonFault,
};
use ariax_engine::session_render::{render_aria2, render_json};
use ariax_engine::session_torrent::{check_blob, TorrentFindings};
use serde::de::{DeserializeSeed, Deserializer, Error, MapAccess, SeqAccess, Visitor};
use serde_json::Value;

const SESSION_MAX_IMPORT_TASKS: usize = 128;

fn limits() -> SessionLimits {
    SessionLimits {
        document_bytes: 16 * 1024 * 1024,
        tasks: SESSION_MAX_IMPORT_TASKS,
        sources: 64,
        safe_uri_bytes: 8_192,
        resume_bytes: 64,
    }
}

fn rules() -> SessionRules {
    let names = |list: &[&str]| list.iter().map(|name| (*name).to_owned()).collect::<Vec<_>>();
    SessionRules {
        task_states: names(&["waiting", "paused", "active"]),
        aria2_options: names(&["out", "pause", "split", "piece-length"]),
    }
}

fn findings() -> TaskFindings {
    TaskFindings {
        verification: Err(HttpControlError::InvalidParams("verification document was not read")),
        torrent: None,
    }
}

fn text(value: &str) -> Json {
    let hex = |length: usize| value.len() == length && value.bytes().all(|byte| byte.is_ascii_hexdigit());
    Json::Text(JsonText {
        text: value.to_owned(),
        gid: if hex(16) { u64::from_str_radix(value, 16).ok().map(Gid) } else { None },
        challenge: if hex(32) { u128::from_str_radix(value, 16).ok().map(HostKeyChallengeId) } else { None },
        fingerprint: if hex(64) {
            Some(JournalHash {
                high: u128::from_str_radix(&value[..32], 16).unwrap(),
                low: u128::from_str_radix(&value[32..], 16).unwrap(),
            })
        } else {
            None
        },
        persistable: value.starts_with("http://") && !value.contains('@'),
    })
}

fn json(value: &Value) -> Json {
    match value {
        Value::Null => Json::Null,
        Value::Bool(flag) => Json::Bool(*flag),
        Value::Number(number) => match (number.as_u64(), number.as_i64()) {
            (Some(unsigned), _) => Json::Unsigned(unsigned),
            (None, Some(negative)) => Json::Negative(negative),
            _ => Json::Real(number.to_string()),
        },
        Value::String(value) => text(value),
        Value::Array(values) => Json::Array(values.iter().map(json).collect()),
        Value::Object(fields) => Json::Object(
            fields.iter().map(|(name, value)| JsonField { name: name.clone(), value: json(value) }).collect(),
        ),
    }
}

/// A value in which every field is taken on by the library.
struct Strict;

impl<'de> DeserializeSeed<'de> for Strict {
    type Value = Json;

    fn deserialize<D: Deserializer<'de>>(self, deserializer: D) -> Result<Json, D::Error> {
        deserializer.deserialize_any(self)
    }
}

impl<'de> Visitor<'de> for Strict {
    type Value = Json;

    fn expecting(&self, formatter: &mut std::fmt::Formatter<'_>) -> std::fmt::Result {
        formatter.write_str("a value")
    }

    fn visit_unit<E: Error>(self) -> Result<Json, E> {
        Ok(Json::Null)
    }

    fn visit_bool<E: Error>(self, value: bool) -> Result<Json, E> {
        Ok(Json::Bool(value))
    }

    fn visit_i64<E: Error>(self, value: i64) -> Result<Json, E> {
        Ok(json(&Value::from(value)))
    }

    fn visit_u64<E: Error>(self, value: u64) -> Result<Json, E> {
        Ok(Json::Unsigned(value))
    }

    fn visit_f64<E: Error>(self, value: f64) -> Result<Json, E> {
        Ok(json(&Value::from(value)))
    }

    fn visit_str<E: Error>(self, value: &str) -> Result<Json, E> {
        Ok(text(value))
    }

    fn visit_seq<A: SeqAccess<'de>>(self, mut sequence: A) -> Result<Json, A::Error> {
        let mut items = Vec::new();
        while let Some(item) = sequence.next_element_seed(Strict)? {
            items.push(item);
        }
        Ok(Json::Array(items))
    }

    fn visit_map<A: MapAccess<'de>>(self, mut map: A) -> Result<Json, A::Error> {
        let mut fields = Vec::new();
        while let Some(name) = map.next_key::<String>()? {
            let value = map.next_value_seed(Strict)?;
            fields = read_field(fields, name, value, true).map_err(|_| A::Error::custom("duplicate field"))?;
        }
        Ok(Json::Object(fields))
    }
}

fn parse_text(text: &str) -> Result<Json, JsonFault> {
    let mut deserializer = serde_json::Deserializer::from_str(text);
    let value = Strict.deserialize(&mut deserializer).map_err(|_| JsonFault::Parse)?;
    deserializer.end().map(|()| value).map_err(|_| JsonFault::Parse)
}

fn read(
    request: ImportRequest,
    accounts: &mut RpcAccounts,
    lease: &mut RpcRequestLease,
) -> Result<Vec<ImportedTask>, HttpControlError> {
    match request {
        ImportRequest::Unread(text) => {
            check_length(&text, &limits())?;
            let document = take_json(parse_text(&text), accounts, lease)?;
            import_document(document, &Vec::new(), &rules(), &limits())
        }
        ImportRequest::Document(document) => import_document(document, &Vec::new(), &rules(), &limits()),
        ImportRequest::Aria2(text) => {
            let mut progress = Aria2Import::new(&text, &limits())?.run(accounts, lease, &rules(), &limits())?;
            loop {
                progress = match progress {
                    Aria2Progress::Done(tasks) => return Ok(tasks),
                    Aria2Progress::Asks(import, text) => {
                        import.answer(parse_text(&text), findings(), accounts, lease, &rules(), &limits())?
                    }
                };
            }
        }
    }
}

fn parse(params: Vec<Json>) -> Result<Vec<ImportedTask>, HttpControlError> {
    let budgets = RpcBudgets::new(32, 32 * 1024 * 1024, ByteBudget::new(64 * 1024 * 1024));
    let mut client = budgets.client().expect("client");
    let mut lease = client.try_request(128).expect("request");
    let result = match import_request(Json::Array(params)) {
        Ok(request) => read(request, &mut client, &mut lease),
        Err(error) => Err(error),
    };
    assert!(client.request_bytes() <= MAX_RPC_CLIENT_REQUEST_BYTES);
    client.release_request(lease);
    assert_eq!(client.request_bytes(), 0);
    result
}

fn render(document: &str, format: SessionFormat) -> Result<String, HttpControlError> {
    let value: Value = serde_json::from_str(document).expect("document");
    match format {
        SessionFormat::Json => render_json(value.to_string(), &limits()),
        SessionFormat::Aria2 => {
            let texts: Vec<String> =
                value["tasks"].as_array().expect("tasks").iter().map(|task| task.to_string()).collect();
            render_aria2(&json(&value), &texts, &rules(), &limits())
        }
    }
}

fn option<'a>(task: &'a ImportedTask, name: &str) -> &'a Json {
    find_option(&task.options, name).expect("option")
}

#[test]
fn session_documents_reject_unknown_duplicate_and_malformed_fields() {
    for document in [
        r#"{"formatVersion":3,"tasks":[],"tasks":[]}"#,
        r#"{"formatVersion":3,"tasks":[],"extra":true}"#,
        r#"{"tasks":[],"formatVersion":1}"#,
        r#"{"tasks":[],"formatVersion":2}"#,
        r#"{"tasks":[]}"#,
        r#"{"tasks":[],"formatVersion":4}"#,
        r#"{"formatVersion":3,"tasks":[{"kind":"transfer","uris":["http://example.test/file"],"options":{"pause":"invalid"}}]}"#,
        r#"{"formatVersion":3,"tasks":[{"kind":"transfer","uris":["http://example.test/file"],"options":false}]}"#,
        r#"{"formatVersion":3,"tasks":[{"kind":"transfer","uris":["http://example.test/file"],"state":"unknown"}]}"#,
        r#"{"tasks":[]} trailing"#,
    ] {
        assert!(
            matches!(parse(vec![text(document)]), Err(HttpControlError::InvalidParams(_))),
            "{document}"
        );
    }
    let empty: Value = serde_json::from_str(r#"{"formatVersion":3,"tasks": []}"#).unwrap();
    assert!(parse(vec![json(&empty)]).expect("empty document").is_empty());
    for session in [
        "  split=2\n",
        "http://example.test/file\n  split=2\n  split=3\n",
        "# ariax-task {\"uris\":[\"http://example.test/file\"]}\n",
    ] {
        assert!(parse(vec![text(session), text("aria2")]).is_err());
    }
    let huge_line = format!("http://example.test/{}", "a".repeat(MAX_SESSION_LINE_BYTES));
    assert!(parse(vec![text(&huge_line), text("aria2")]).is_err());
    let too_many = "http://example.test/file\n".repeat(SESSION_MAX_IMPORT_TASKS + 1);
    assert!(parse(vec![text(&too_many), text("aria2")]).is_err());
}

#[test]
fn aria2_migration_comments_preserve_placeholders_and_reject_projection_changes() {
    let one = "01".repeat(32);
    let two = "02".repeat(32);
    let unavailable =
        format!(r#"{{"uriId":"9","uri":null,"fingerprint":"{one}","needsCredentials":true,"priority":"0"}}"#);
    let safe = format!(
        r#"{{"uriId":"11","uri":"http://example.test/file","fingerprint":"{two}","needsCredentials":false,"priority":"1"}}"#
    );
    let document = format!(
        r#"{{"formatVersion":3,"tasks":[{{"kind":"transfer","uris":[],"sources":[{unavailable}],"options":{{"out":"blocked.bin","pause":"true"}}}},{{"kind":"transfer","uris":["http://example.test/file"],"sources":[{unavailable},{safe}],"options":{{"out":"file.bin","pause":"false"}}}}]}}"#
    );
    let session = render(&document, SessionFormat::Aria2).expect("aria2 export");
    let tasks = parse(vec![text(&session), text("aria2")]).expect("aria2 import");
    assert_eq!(tasks.len(), 2);
    assert!(tasks[0].uris.is_empty());
    assert_eq!(tasks[0].sources.as_ref().expect("placeholder")[0].uri_id, 9);
    assert_eq!(tasks[1].sources.as_ref().expect("mixed mirrors").len(), 2);
    assert_eq!(option(&tasks[1], "pause"), &text("false"));
    let changed = session.replace("  pause=false", "  pause=true");
    assert!(parse(vec![text(&changed), text("aria2")]).is_err());
    let exported = render(&document, SessionFormat::Json).expect("JSON export");
    assert_eq!(
        serde_json::from_str::<Value>(&exported).expect("JSON"),
        serde_json::from_str::<Value>(&document).expect("JSON")
    );
    let tasks = parse(vec![text(&exported)]).expect("JSON import");
    assert!(tasks.iter().all(|task| option(task, "pause") == &Json::Bool(true)));
}

#[test]
fn aria2_option_lines_omit_extensions_while_metadata_round_trips_them() {
    let document = r#"{"formatVersion":3,"tasks":[{"kind":"transfer","uris":["http://example.test/file"],"options":{"pause":"true","split":"3","piece-length":"1048576","retry-profile":"standard"}}]}"#;
    let session = render(document, SessionFormat::Aria2).expect("export");
    assert!(session.contains("  split=3\n"));
    assert!(session.contains("  piece-length=1048576\n"));
    assert!(!session.contains("  retry-profile="));
    let tasks = parse(vec![text(&session), text("aria2")]).expect("reimport");
    assert_eq!(option(&tasks[0], "piece-length"), &text("1048576"));
    assert_eq!(option(&tasks[0], "retry-profile"), &text("standard"));
    let extended = format!("{session}  retry-profile=standard\n");
    assert!(parse(vec![text(&extended), text("aria2")]).is_err());
}

#[test]
fn documents_that_need_json_are_not_written_as_text() {
    let torrent = r#"{"formatVersion":3,"tasks":[{"kind":"bittorrent"}]}"#;
    assert_eq!(
        render(torrent, SessionFormat::Aria2),
        Err(HttpControlError::Unsupported("BitTorrentMetadataRequiresJson"))
    );
    let small = SessionLimits { document_bytes: 2, ..limits() };
    assert!(render_json("[1,2]".to_owned(), &small).is_err());
    assert!(matches!(
        import_request(Json::Array(vec![text("x"), text("yaml")])),
        Err(HttpControlError::InvalidParams("session format must be json or aria2"))
    ));
}

#[test]
fn torrents_of_documents_are_read_with_their_files() {
    let document = |torrent: Value| {
        let mut task = serde_json::Map::new();
        task.insert("kind".to_owned(), Value::from("bittorrent"));
        task.insert("bittorrent".to_owned(), torrent);
        let mut document = serde_json::Map::new();
        document.insert("formatVersion".to_owned(), Value::from(3));
        document.insert("tasks".to_owned(), Value::Array(vec![Value::Object(task)]));
        json(&Value::Object(document))
    };
    let torrent = |files: usize, magnet: Value| {
        let mut torrent = serde_json::Map::new();
        torrent.insert("identity".to_owned(), Value::from("id"));
        torrent.insert("metainfo".to_owned(), Value::from("aGVsbG8="));
        torrent.insert("magnet".to_owned(), magnet);
        torrent.insert("files".to_owned(), Value::Array(vec![Value::from("f"); files]));
        torrent.insert("resumeData".to_owned(), Value::from("AAEC"));
        Value::Object(torrent)
    };
    let found = || TorrentFindings {
        info: Some(vec![1]),
        identity: Some(4),
        files: vec![Some(8), Some(9)],
        binding: true,
        resume: true,
    };
    let findings = vec![TaskFindings { torrent: Some(found()), ..findings() }];
    let read = |document: Json| import_document(document, &findings, &rules(), &limits());
    let tasks = read(document(torrent(2, Value::Null))).ok().expect("torrent");
    let imported = tasks[0].bittorrent.as_ref().expect("torrent");
    assert_eq!(imported.metainfo, b"hello");
    assert_eq!(imported.files, vec![8, 9]);
    assert_eq!(imported.resume_data, vec![0, 1, 2]);
    assert!(matches!(find_option(&tasks[0].options, "pause"), Some(Json::Bool(true))));

    let message = |value: Value| match read(document(value)) {
        Err(HttpControlError::InvalidParams(message)) => message,
        _ => "read",
    };
    assert_eq!(message(Value::Null), "invalid BitTorrent session metadata");
    assert_eq!(message(torrent(3, Value::Null)), "invalid BitTorrent file mapping");
    assert_eq!(message(torrent(1, Value::from(5))), "invalid BitTorrent magnet");
    assert!(matches!(
        import_document(document(torrent(1, Value::Null)), &Vec::new(), &rules(), &limits()),
        Err(HttpControlError::Unsupported("BitTorrent feature unavailable"))
    ));
}

#[test]
fn decoded_blobs_are_bounded() {
    assert_eq!(check_blob(Some(vec![1, 2, 3]), 3).ok(), Some(vec![1, 2, 3]));
    let message = |decoded: Option<Vec<u8>>| match check_blob(decoded, 3) {
        Err(HttpControlError::InvalidParams(message)) => message,
        _ => "",
    };
    assert_eq!(message(Some(vec![0; 4])), "BitTorrent session blob exceeds its limit");
    assert_eq!(message(None), "invalid BitTorrent session base64");
}
