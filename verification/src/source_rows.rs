//! Sources as results show them.
use vstd::prelude::*;
use crate::hex::{hex_text, write_hex};
use crate::text::{decimal_digits, decimal_text};

verus! {

/// A source of a task.
#[derive(Debug)]
pub struct SourceSpec {
    pub id: u32,
    /// Where it is read from, unless its credentials are missing.
    pub uri: Option<String>,
    /// The part of it that may be persisted.
    pub persistence_safe_uri: Option<String>,
    pub redacted_fingerprint: Vec<u8>,
    pub needs_credentials: bool,
    pub priority: i64,
}

/// The characters of a text, if there is one.
pub open spec fn chars_in(text: Option<String>) -> Option<Seq<char>> {
    match text {
        Some(text) => Some(text@),
        None => None,
    }
}

/// The address that is shown: where the source is read from, else the part that
/// may be persisted, else nothing.
pub open spec fn shown_uri(source: SourceSpec) -> Seq<char> {
    match (source.uri, source.persistence_safe_uri) {
        (Some(uri), _) => uri@,
        (None, Some(uri)) => uri@,
        (None, None) => Seq::empty(),
    }
}

/// Where a source is read from, or nothing.
pub open spec fn current_uri(source: SourceSpec) -> Seq<char> {
    match source.uri {
        Some(uri) => uri@,
        None => Seq::empty(),
    }
}

/// A source and whether it is in use.
#[derive(Debug)]
pub struct UriRow {
    pub uri: String,
    /// "used" or "waiting".
    pub status: &'static str,
}

/// Whether a row shows a source.
pub open spec fn shows_uri(row: UriRow, source: SourceSpec) -> bool {
    row.uri@ == shown_uri(source) && row.status == (if source.uri is Some {
        "used"
    } else {
        "waiting"
    })
}

/// A server of a file. Its speed is not measured.
#[derive(Debug)]
pub struct ServerRow {
    /// The number of the file, counted from one.
    pub index: String,
    pub uri: String,
    pub current_uri: String,
    pub download_speed: &'static str,
}

/// Whether a row shows the server of a source.
pub open spec fn shows_server(row: ServerRow, source: SourceSpec) -> bool {
    &&& row.index@ == decimal_digits((source.id + 1) as nat)
    &&& row.uri@ == shown_uri(source)
    &&& row.current_uri@ == current_uri(source)
    &&& row.download_speed == "0"
}

/// A source as it is persisted.
#[derive(Debug)]
pub struct PersistedRow {
    pub uri_id: String,
    pub uri: Option<String>,
    pub fingerprint: String,
    pub needs_credentials: bool,
    pub priority: String,
}

/// A signed number in digits.
pub open spec fn signed_digits(n: int) -> Seq<char> {
    if n < 0 {
        seq!['-'] + decimal_digits((-n) as nat)
    } else {
        decimal_digits(n as nat)
    }
}

/// Whether a row shows a source as it is persisted.
pub open spec fn shows_persisted(row: PersistedRow, source: SourceSpec) -> bool {
    &&& row.uri_id@ == decimal_digits(source.id as nat)
    &&& chars_in(row.uri) == chars_in(source.persistence_safe_uri)
    &&& row.fingerprint@ == hex_text(source.redacted_fingerprint@)
    &&& row.needs_credentials == source.needs_credentials
    &&& row.priority@ == signed_digits(source.priority as int)
}

/// A signed number in digits.
pub fn signed_text(n: i64) -> (r: String)
    ensures
        r@ == signed_digits(n as int),
{
    if n < 0 {
        let magnitude: u64 = if n == i64::MIN {
            9_223_372_036_854_775_808
        } else {
            (-n) as u64
        };
        let mut r = String::new();
        r.push('-');
        r.append(decimal_text(magnitude).as_str());
        assert(r@ =~= seq!['-'] + decimal_digits(magnitude as nat));
        r
    } else {
        decimal_text(n as u64)
    }
}

fn text_or_nothing(text: &Option<String>) -> (r: String)
    ensures
        r@ == (match *text {
            Some(text) => text@,
            None => Seq::empty(),
        }),
{
    match text {
        Some(text) => text.clone(),
        None => String::new(),
    }
}

fn show_uri(source: &SourceSpec) -> (r: String)
    ensures
        r@ == shown_uri(*source),
{
    match &source.uri {
        Some(uri) => uri.clone(),
        None => text_or_nothing(&source.persistence_safe_uri),
    }
}

/// The sources, and whether each is in use.
pub fn source_uris(sources: &Vec<SourceSpec>) -> (r: Vec<UriRow>)
    ensures
        r@.len() == sources@.len(),
        forall|i: int| 0 <= i < r@.len() ==> shows_uri(#[trigger] r@[i], sources@[i]),
{
    let mut rows: Vec<UriRow> = Vec::new();
    let mut i: usize = 0;
    while i < sources.len()
        invariant
            i <= sources.len(),
            rows@.len() == i,
            forall|k: int| 0 <= k < i ==> shows_uri(#[trigger] rows@[k], sources@[k]),
        decreases sources.len() - i,
    {
        let status = if sources[i].uri.is_some() {
            "used"
        } else {
            "waiting"
        };
        rows.push(UriRow { uri: show_uri(&sources[i]), status });
        i = i + 1;
    }
    rows
}

/// Where the sources are read from.
pub fn plain_uris(sources: &Vec<SourceSpec>) -> (r: Vec<String>)
    ensures
        r@.len() == sources@.len(),
        forall|i: int| 0 <= i < r@.len() ==> (#[trigger] r@[i])@ == current_uri(sources@[i]),
{
    let mut uris: Vec<String> = Vec::new();
    let mut i: usize = 0;
    while i < sources.len()
        invariant
            i <= sources.len(),
            uris@.len() == i,
            forall|k: int| 0 <= k < i ==> (#[trigger] uris@[k])@ == current_uri(sources@[k]),
        decreases sources.len() - i,
    {
        uris.push(text_or_nothing(&sources[i].uri));
        i = i + 1;
    }
    uris
}

/// The servers of the sources.
pub fn source_servers(sources: &Vec<SourceSpec>) -> (r: Vec<ServerRow>)
    ensures
        r@.len() == sources@.len(),
        forall|i: int| 0 <= i < r@.len() ==> shows_server(#[trigger] r@[i], sources@[i]),
{
    let mut rows: Vec<ServerRow> = Vec::new();
    let mut i: usize = 0;
    while i < sources.len()
        invariant
            i <= sources.len(),
            rows@.len() == i,
            forall|k: int| 0 <= k < i ==> shows_server(#[trigger] rows@[k], sources@[k]),
        decreases sources.len() - i,
    {
        rows.push(
            ServerRow {
                index: decimal_text(sources[i].id as u64 + 1),
                uri: show_uri(&sources[i]),
                current_uri: text_or_nothing(&sources[i].uri),
                download_speed: "0",
            },
        );
        i = i + 1;
    }
    rows
}

/// The addresses that may be persisted, of those of the first `n` sources that
/// have one.
pub open spec fn safe_uris(sources: Seq<SourceSpec>, n: int) -> Seq<Seq<char>>
    decreases n,
{
    if n <= 0 {
        Seq::empty()
    } else {
        match sources[n - 1].persistence_safe_uri {
            Some(uri) => safe_uris(sources, n - 1).push(uri@),
            None => safe_uris(sources, n - 1),
        }
    }
}

/// The characters of texts.
pub open spec fn all_chars(list: Seq<String>) -> Seq<Seq<char>> {
    list.map_values(|s: String| s@)
}

/// The addresses that may be persisted.
pub fn persisted_uris(sources: &Vec<SourceSpec>) -> (r: Vec<String>)
    ensures
        all_chars(r@) == safe_uris(sources@, sources@.len() as int),
{
    let mut uris: Vec<String> = Vec::new();
    assert(all_chars(uris@) =~= Seq::empty());
    let mut i: usize = 0;
    while i < sources.len()
        invariant
            i <= sources.len(),
            all_chars(uris@) == safe_uris(sources@, i as int),
        decreases sources.len() - i,
    {
        let ghost before = uris@;
        if let Some(uri) = &sources[i].persistence_safe_uri {
            uris.push(uri.clone());
            assert(all_chars(uris@) =~= all_chars(before).push(uri@));
        }
        i = i + 1;
    }
    uris
}

/// The sources as they are persisted.
pub fn persisted_sources(sources: &Vec<SourceSpec>) -> (r: Vec<PersistedRow>)
    ensures
        r@.len() == sources@.len(),
        forall|i: int| 0 <= i < r@.len() ==> shows_persisted(#[trigger] r@[i], sources@[i]),
{
    let mut rows: Vec<PersistedRow> = Vec::new();
    let mut i: usize = 0;
    while i < sources.len()
        invariant
            i <= sources.len(),
            rows@.len() == i,
            forall|k: int| 0 <= k < i ==> shows_persisted(#[trigger] rows@[k], sources@[k]),
        decreases sources.len() - i,
    {
        let uri = match &sources[i].persistence_safe_uri {
            Some(uri) => Some(uri.clone()),
            None => None,
        };
        rows.push(
            PersistedRow {
                uri_id: decimal_text(sources[i].id as u64),
                uri,
                fingerprint: write_hex(&sources[i].redacted_fingerprint),
                needs_credentials: sources[i].needs_credentials,
                priority: signed_text(sources[i].priority),
            },
        );
        i = i + 1;
    }
    rows
}

} // verus!
