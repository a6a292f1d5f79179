//! Laws of what is shown and persisted of sources.
use vstd::prelude::*;
use crate::control::HttpControlError;
use crate::hex::{hex_bytes, law_hex_round_trip};
use crate::json::{field_text, json_field, Json};
use crate::session_file::{record_uris, source_of, SessionLimits, SourceView};
use crate::source_rows::{
    safe_uris, shows_persisted, shows_server, shows_uri, signed_digits, PersistedRow, ServerRow, SourceSpec, UriRow,
};
use crate::text::{
    decimal_digits, is_digit, law_decimal_round_trip, lemma_decimal_digits, parsed_signed, parsed_unsigned,
};

verus! {

/// A signed number is read again as it was written.
pub proof fn law_signed_numbers_read_back(n: i64)
    ensures
        parsed_signed(signed_digits(n as int), i64::MIN as int, i64::MAX as int) == Some(n as int),
{
    if n < 0 {
        let digits = decimal_digits((-n) as nat);
        lemma_decimal_digits((-n) as nat);
        let text = seq!['-'] + digits;
        assert(text.drop_first() =~= digits);
        assert(text[0] == '-');
    } else {
        law_decimal_round_trip(n as nat, i64::MAX as int);
        lemma_decimal_digits(n as nat);
        assert(is_digit(decimal_digits(n as nat)[0]));
    }
}

/// What is persisted of a source is imported again as it was: its number, its priority, its
/// address as far as it may be persisted, its fingerprint, and whether its credentials are
/// missing.
pub proof fn law_persisted_sources_import_again(
    row: PersistedRow,
    source: SourceSpec,
    value: Json,
    limits: SessionLimits,
    imported: SourceView,
)
    requires
        shows_persisted(row, source),
        field_text(value, "uriId"@) == Some(row.uri_id@),
        field_text(value, "priority"@) == Some(row.priority@),
        json_field(value, "needsCredentials"@) == Some(Json::Bool(row.needs_credentials)),
        row.uri matches Some(uri) ==> field_text(value, "uri"@) == Some(uri@),
        row.uri is None ==> json_field(value, "uri"@) == Some(Json::Null),
        field_text(value, "fingerprint"@) == Some(row.fingerprint@),
        source_of(value, limits) == Ok::<SourceView, HttpControlError>(imported),
    ensures
        imported.uri_id == source.id,
        imported.priority == source.priority,
        imported.needs_credentials == source.needs_credentials,
        source.persistence_safe_uri matches Some(uri) ==> imported.persistence_safe_uri == Some(uri@),
        source.persistence_safe_uri is None ==> imported.persistence_safe_uri is None,
        hex_bytes(row.fingerprint@) == source.redacted_fingerprint@,
{
    law_decimal_round_trip(source.id as nat, u32::MAX as int);
    law_signed_numbers_read_back(source.priority);
    law_hex_round_trip(source.redacted_fingerprint@);
}

/// The addresses that are persisted are those that are imported again with their sources.
pub proof fn law_persisted_addresses_are_those_of_the_sources(
    sources: Seq<SourceSpec>,
    imported: Seq<SourceView>,
    n: int,
)
    requires
        0 <= n <= sources.len(),
        imported.len() == sources.len(),
        forall|i: int|
            0 <= i < sources.len() ==> (#[trigger] imported[i]).persistence_safe_uri == match sources[i].persistence_safe_uri {
                Some(uri) => Some(uri@),
                None => None,
            },
    ensures
        safe_uris(sources, n) == record_uris(imported, n),
        safe_uris(sources, n).len() <= n,
        (forall|i: int| 0 <= i < n ==> (#[trigger] sources[i]).persistence_safe_uri is Some) ==> safe_uris(sources, n).len()
            == n && forall|i: int|
            0 <= i < n ==> #[trigger] safe_uris(sources, n)[i] == sources[i].persistence_safe_uri->0@,
    decreases n,
{
    if n > 0 {
        law_persisted_addresses_are_those_of_the_sources(sources, imported, n - 1);
        assert(imported[n - 1].persistence_safe_uri == match sources[n - 1].persistence_safe_uri {
            Some(uri) => Some(uri@),
            None => None,
        });
        if forall|i: int| 0 <= i < n ==> (#[trigger] sources[i]).persistence_safe_uri is Some {
            assert(sources[n - 1].persistence_safe_uri is Some);
            let before = safe_uris(sources, n - 1);
            let all = safe_uris(sources, n);
            assert forall|i: int| 0 <= i < n implies #[trigger] all[i] == sources[i].persistence_safe_uri->0@ by {
                if i < n - 1 {
                    assert(all[i] == before[i]);
                }
            }
        }
    }
}

/// A source is shown as used where it can be read, and with the address that it is read from;
/// else as waiting, with what may be shown of its address.
pub proof fn law_sources_are_shown_as_they_are(row: UriRow, source: SourceSpec)
    requires
        shows_uri(row, source),
    ensures
        source.uri matches Some(uri) ==> row.status == "used" && row.uri@ == uri@,
        source.uri is None ==> row.status == "waiting",
        source.uri is None ==> (source.persistence_safe_uri matches Some(uri) ==> row.uri@ == uri@),
        source.uri is None && source.persistence_safe_uri is None ==> row.uri@.len() == 0,
{
}

/// A server is counted from one on, and shows an address that is being read only where one is.
pub proof fn law_servers_are_counted_from_one(row: ServerRow, source: SourceSpec)
    requires
        shows_server(row, source),
    ensures
        parsed_unsigned(row.index@, u64::MAX as int) == Some(source.id + 1),
        source.uri matches Some(uri) ==> row.current_uri@ == uri@ && row.uri@ == uri@,
        source.uri is None ==> row.current_uri@.len() == 0,
{
    law_decimal_round_trip((source.id + 1) as nat, u64::MAX as int);
}

} // verus!
