//! Laws of the options of a download: each is sent under the name of its field.
use vstd::prelude::*;
use crate::download_options::{
    is_internal_name, is_retry_name, options_of, with_persisted, with_retry, CredentialPath, DownloadOptions,
    ParsedDownload, RetryOptions, TransferOptions,
};
use crate::options::{OptionMapView, OptionScalar};
use crate::pairs::{lemma_pair_of, pair_views, PairView};
use crate::text::has_prefix;

verus! {

/// What is sent under a name.
pub open spec fn sent(m: OptionMapView, name: Seq<char>) -> Option<OptionScalar> {
    if m.contains_key(name) {
        Some(m[name])
    } else {
        None
    }
}

/// Whether a number, or nothing, is sent under a name.
pub open spec fn sends_number(m: OptionMapView, name: Seq<char>, number: Option<u64>) -> bool {
    match number {
        Some(number) => sent(m, name) == Some(OptionScalar::Number(number)),
        None => sent(m, name) is None,
    }
}

/// Whether a count, or nothing, is sent under a name.
pub open spec fn sends_count(m: OptionMapView, name: Seq<char>, count: Option<usize>) -> bool {
    match count {
        Some(count) => sent(m, name) == Some(OptionScalar::Number(count as u64)),
        None => sent(m, name) is None,
    }
}

/// Whether a text, or nothing, is sent under a name.
pub open spec fn sends_text(m: OptionMapView, name: Seq<char>, text: Option<String>) -> bool {
    match text {
        Some(text) => sent(m, name) == Some(OptionScalar::Text(text@)),
        None => sent(m, name) is None,
    }
}

/// Whether a path, or nothing, is sent under a name.
pub open spec fn sends_path(m: OptionMapView, name: Seq<char>, path: Option<CredentialPath>) -> bool {
    match path {
        Some(CredentialPath::Utf8(text)) => sent(m, name) == Some(OptionScalar::Text(text@)),
        Some(CredentialPath::NotUtf8) => false,
        None => sent(m, name) is None,
    }
}

/// Whether what a transfer persists binds a name.
pub open spec fn persists(options: DownloadOptions, name: Seq<char>) -> bool {
    options.transfer matches Some(transfer) && persisted_under(pair_views(transfer.persisted@), name)
}

/// Whether entries bind a name that is set by callers.
pub open spec fn persisted_under(entries: Seq<PairView>, name: Seq<char>) -> bool {
    exists|i: int| 0 <= i < entries.len() && (#[trigger] entries[i]).name == name
}

/// No two of the names are the same: their lengths and first characters tell them apart.
proof fn lemma_names()
    ensures
        "pause"@.len() == 5 && "pause"@[0] == 'p',
        "out"@.len() == 3 && "out"@[0] == 'o',
        "split"@.len() == 5 && "split"@[0] == 's',
        "max-connection-per-server"@.len() == 25 && "max-connection-per-server"@[0] == 'm',
        "min-split-size"@.len() == 14 && "min-split-size"@[0] == 'm',
        "piece-length"@.len() == 12 && "piece-length"@[0] == 'p',
        "connect-timeout"@.len() == 15 && "connect-timeout"@[0] == 'c',
        "timeout"@.len() == 7 && "timeout"@[0] == 't',
        "max-download-limit"@.len() == 18 && "max-download-limit"@[0] == 'm',
        "lowest-speed-limit"@.len() == 18 && "lowest-speed-limit"@[0] == 'l',
        "endgame-max-duplicates"@.len() == 22 && "endgame-max-duplicates"@[0] == 'e',
        "checksum"@.len() == 8 && "checksum"@[0] == 'c',
        "ftp-user"@.len() == 8 && "ftp-user"@[0] == 'f',
        "ftp-passwd"@.len() == 10 && "ftp-passwd"@[0] == 'f',
        "sftp-known-hosts"@.len() == 16 && "sftp-known-hosts"@[0] == 's' && "sftp-known-hosts"@[5] == 'k',
        "sftp-private-key"@.len() == 16 && "sftp-private-key"@[0] == 's' && "sftp-private-key"@[5] == 'p',
        "netrc-path"@.len() == 10 && "netrc-path"@[0] == 'n',
        "sftp-private-key-passphrase"@.len() == 27 && "sftp-private-key-passphrase"@[0] == 's',
        "sftp-use-agent"@.len() == 14 && "sftp-use-agent"@[0] == 's',
        "sftp-check-host-key"@.len() == 19 && "sftp-check-host-key"@[0] == 's',
        "ftp-pasv-address"@.len() == 16 && "ftp-pasv-address"@[0] == 'f',
        "verify-mirror-identity"@.len() == 22 && "verify-mirror-identity"@[0] == 'v',
        "max-tries"@.len() == 9 && "max-tries"@[0] == 'm',
        "stale-validator-policy"@.len() == 22 && "stale-validator-policy"@[0] == 's',
        "retry-"@.len() == 6 && "retry-"@[0] == 'r',
        "verification-manifest"@.len() == 21 && "verification-manifest"@[0] == 'v',
        "metalink-expansion"@.len() == 18 && "metalink-expansion"@[0] == 'm' && "metalink-expansion"@[1] == 'e',
        "max-download-limit"@[1] == 'a',
{
    reveal_strlit("pause");
    reveal_strlit("out");
    reveal_strlit("split");
    reveal_strlit("max-connection-per-server");
    reveal_strlit("min-split-size");
    reveal_strlit("piece-length");
    reveal_strlit("connect-timeout");
    reveal_strlit("timeout");
    reveal_strlit("max-download-limit");
    reveal_strlit("lowest-speed-limit");
    reveal_strlit("endgame-max-duplicates");
    reveal_strlit("checksum");
    reveal_strlit("ftp-user");
    reveal_strlit("ftp-passwd");
    reveal_strlit("sftp-known-hosts");
    reveal_strlit("sftp-private-key");
    reveal_strlit("netrc-path");
    reveal_strlit("sftp-private-key-passphrase");
    reveal_strlit("sftp-use-agent");
    reveal_strlit("sftp-check-host-key");
    reveal_strlit("ftp-pasv-address");
    reveal_strlit("verify-mirror-identity");
    reveal_strlit("max-tries");
    reveal_strlit("stale-validator-policy");
    reveal_strlit("retry-");
    reveal_strlit("verification-manifest");
    reveal_strlit("metalink-expansion");
}

/// What the first persisted entries do not bind stays as it is.
proof fn lemma_persisted_keep(options: OptionMapView, entries: Seq<PairView>, n: int, name: Seq<char>)
    requires
        0 <= n <= entries.len(),
        !persisted_under(entries, name),
    ensures
        sent(with_persisted(options, entries, n), name) == sent(options, name),
    decreases n,
{
    if n > 0 {
        lemma_persisted_keep(options, entries, n - 1, name);
        assert(entries[n - 1].name != name);
    }
}

/// A persisted entry is bound unless a later one binds its name.
proof fn lemma_persisted_bound(options: OptionMapView, entries: Seq<PairView>, n: int, at: int)
    requires
        0 <= at < n <= entries.len(),
        !is_internal_name(entries[at].name),
        forall|k: int| at < k < entries.len() ==> (#[trigger] entries[k]).name != entries[at].name,
    ensures
        sent(with_persisted(options, entries, n), entries[at].name) == Some(OptionScalar::Text(entries[at].value)),
    decreases n,
{
    if n > at + 1 {
        lemma_persisted_bound(options, entries, n - 1, at);
        assert(entries[n - 1].name != entries[at].name);
    }
}

/// Options about repeated attempts bind no other.
proof fn lemma_retry_keep(options: OptionMapView, entries: Seq<PairView>, n: int, name: Seq<char>)
    requires
        0 <= n <= entries.len(),
        !is_retry_name(name),
    ensures
        sent(with_retry(options, entries, n), name) == sent(options, name),
    decreases n,
{
    if n > 0 {
        lemma_retry_keep(options, entries, n - 1, name);
    }
}

/// An option about repeated attempts is bound unless a later one binds its name.
proof fn lemma_retry_bound(options: OptionMapView, entries: Seq<PairView>, n: int, at: int)
    requires
        0 <= at < n <= entries.len(),
        is_retry_name(entries[at].name),
        forall|k: int| at < k < entries.len() ==> (#[trigger] entries[k]).name != entries[at].name,
    ensures
        sent(with_retry(options, entries, n), entries[at].name) == Some(OptionScalar::Text(entries[at].value)),
    decreases n,
{
    if n > at + 1 {
        lemma_retry_bound(options, entries, n - 1, at);
        assert(entries[n - 1].name != entries[at].name);
    }
}

/// Whether a name is of those under which a transfer's own fields are sent.
pub open spec fn is_transfer_name(name: Seq<char>) -> bool {
    ||| name == "ftp-user"@
    ||| name == "ftp-passwd"@
    ||| name == "sftp-known-hosts"@
    ||| name == "sftp-private-key"@
    ||| name == "netrc-path"@
    ||| name == "sftp-private-key-passphrase"@
    ||| name == "sftp-use-agent"@
    ||| name == "sftp-check-host-key"@
    ||| name == "ftp-pasv-address"@
}

/// A transfer keeps what was bound before it under any other name.
proof fn lemma_transfer_keep(transfer: TransferOptions, options: OptionMapView, name: Seq<char>)
    requires
        !is_transfer_name(name),
        transfer.option_map(options) is Ok,
    ensures
        ({
            let m = transfer.option_map(options)->Ok_0;
            let entries = pair_views(transfer.persisted@);
            let persisted = with_persisted(options, entries, entries.len() as int);
            &&& name != "checksum"@ || transfer.checksum is None ==> sent(m, name) == sent(persisted, name)
            &&& name == "checksum"@ && transfer.checksum is Some ==> sent(m, name) == Some(
                OptionScalar::Text(transfer.checksum->0@),
            )
        }),
{
}

/// Whether the own fields of a transfer are sent under their names.
pub open spec fn sends_transfer(m: OptionMapView, transfer: TransferOptions) -> bool {
    let entries = pair_views(transfer.persisted@);
    &&& !persisted_under(entries, "ftp-user"@) ==> sends_text(
        m,
        "ftp-user"@,
        match transfer.credentials {
            Some(credentials) => Some(credentials.username),
            None => None,
        },
    )
    &&& !persisted_under(entries, "ftp-passwd"@) ==> sends_text(
        m,
        "ftp-passwd"@,
        match transfer.credentials {
            Some(credentials) => credentials.password,
            None => None,
        },
    )
    &&& !persisted_under(entries, "sftp-known-hosts"@) ==> sends_path(
        m,
        "sftp-known-hosts"@,
        transfer.sftp_known_hosts,
    )
    &&& !persisted_under(entries, "sftp-private-key"@) ==> sends_path(
        m,
        "sftp-private-key"@,
        transfer.sftp_private_key,
    )
    &&& !persisted_under(entries, "netrc-path"@) ==> sends_path(m, "netrc-path"@, transfer.netrc_path)
    &&& !persisted_under(entries, "sftp-private-key-passphrase"@) ==> sends_text(
        m,
        "sftp-private-key-passphrase"@,
        transfer.sftp_private_key_passphrase,
    )
    &&& transfer.sftp_use_agent ==> sent(m, "sftp-use-agent"@) == Some(OptionScalar::Flag(true))
    &&& !persisted_under(entries, "sftp-use-agent"@) && !transfer.sftp_use_agent ==> sent(m, "sftp-use-agent"@) is None
    &&& !transfer.sftp_check_host_key ==> sent(m, "sftp-check-host-key"@) == Some(OptionScalar::Flag(false))
    &&& !persisted_under(entries, "sftp-check-host-key"@) && transfer.sftp_check_host_key ==> sent(
        m,
        "sftp-check-host-key"@,
    ) is None
    &&& transfer.ftp_pasv_server_address ==> sent(m, "ftp-pasv-address"@) == Some(OptionScalar::Text("server"@))
    &&& !persisted_under(entries, "ftp-pasv-address"@) && !transfer.ftp_pasv_server_address ==> sent(
        m,
        "ftp-pasv-address"@,
    ) is None
}

/// A transfer binds its own fields where nothing else did.
proof fn lemma_transfer_bound(transfer: TransferOptions, options: OptionMapView)
    requires
        transfer.option_map(options) is Ok,
        forall|name: Seq<char>| is_transfer_name(name) ==> sent(options, name) is None,
    ensures
        sends_transfer(transfer.option_map(options)->Ok_0, transfer),
{
    lemma_names();
    let entries = pair_views(transfer.persisted@);
    let persisted = with_persisted(options, entries, entries.len() as int);
    assert forall|name: Seq<char>| is_transfer_name(name) && !persisted_under(entries, name) implies sent(
        persisted,
        name,
    ) is None by {
        lemma_persisted_keep(options, entries, entries.len() as int, name);
    }
    assert(is_transfer_name("ftp-user"@));
    assert(is_transfer_name("ftp-passwd"@));
    assert(is_transfer_name("sftp-known-hosts"@));
    assert(is_transfer_name("sftp-private-key"@));
    assert(is_transfer_name("netrc-path"@));
    assert(is_transfer_name("sftp-private-key-passphrase"@));
    assert(is_transfer_name("sftp-use-agent"@));
    assert(is_transfer_name("sftp-check-host-key"@));
    assert(is_transfer_name("ftp-pasv-address"@));
}

/// Plain options bind their own names, each to its field.
proof fn lemma_plain_bound(options: DownloadOptions, admission: bool)
    ensures
        ({
            let m = options.plain_map(admission);
            &&& admission ==> sent(m, "pause"@) == Some(OptionScalar::Flag(options.pause))
            &&& !admission ==> sent(m, "pause"@) is None
            &&& sends_text(m, "out"@, options.output)
            &&& sends_count(m, "split"@, options.split)
            &&& sends_count(m, "max-connection-per-server"@, options.max_connections_per_server)
            &&& sends_number(m, "min-split-size"@, options.min_split_size)
            &&& sends_number(m, "piece-length"@, options.piece_length)
            &&& sends_number(m, "connect-timeout"@, options.connect_timeout_seconds)
            &&& sends_number(m, "timeout"@, options.timeout_seconds)
            &&& sends_number(m, "max-download-limit"@, options.max_download_limit)
            &&& sends_number(m, "lowest-speed-limit"@, options.lowest_speed_limit)
            &&& sends_count(m, "endgame-max-duplicates"@, options.endgame_max_duplicates)
            &&& sends_text(m, "checksum"@, options.checksum)
            &&& sent(m, "verify-mirror-identity"@) is None
            &&& forall|name: Seq<char>| is_transfer_name(name) ==> sent(m, name) is None
        }),
{
    lemma_names();
}

/// Whether a name is of those under which the plain fields are sent.
pub open spec fn is_plain_name(name: Seq<char>) -> bool {
    ||| name == "pause"@
    ||| name == "out"@
    ||| name == "split"@
    ||| name == "max-connection-per-server"@
    ||| name == "min-split-size"@
    ||| name == "piece-length"@
    ||| name == "connect-timeout"@
    ||| name == "timeout"@
    ||| name == "max-download-limit"@
    ||| name == "lowest-speed-limit"@
    ||| name == "endgame-max-duplicates"@
}

/// What stands under a plain name is what the plain options bind to it.
proof fn lemma_plain_kept(options: DownloadOptions, admission: bool)
    requires
        options.option_map(admission) is Ok,
    ensures
        forall|name: Seq<char>|
            #![trigger sent(options.option_map(admission)->Ok_0, name)]
            is_plain_name(name) && !persists(options, name) ==> sent(options.option_map(admission)->Ok_0, name)
                == sent(options.plain_map(admission), name),
{
    let plain = options.plain_map(admission);
    let m = options.option_map(admission)->Ok_0;
    assert forall|name: Seq<char>|
        #![trigger sent(m, name)]
        is_plain_name(name) && !persists(options, name) implies sent(m, name) == sent(plain, name) by {
        lemma_after_plain(options, admission, name);
    }
}

/// What follows the plain options keeps a name that neither it nor what is persisted
/// binds.
proof fn lemma_after_plain(options: DownloadOptions, admission: bool, name: Seq<char>)
    requires
        options.option_map(admission) is Ok,
        is_plain_name(name) && !persists(options, name),
    ensures
        sent(options.option_map(admission)->Ok_0, name) == sent(options.plain_map(admission), name),
{
    lemma_names();
    let plain = options.plain_map(admission);
    assert(!is_transfer_name(name));
    assert(!is_retry_name(name));
    if let Some(transfer) = options.transfer {
        let entries = pair_views(transfer.persisted@);
        lemma_transfer_keep(transfer, plain, name);
        lemma_persisted_keep(plain, entries, entries.len() as int, name);
    }
    let with_transfer = match options.transfer {
        Some(transfer) => transfer.option_map(plain),
        None => Ok(plain),
    };
    let m = with_transfer->Ok_0;
    let named = match options.mirror_identity {
        Some(text) => m.insert("verify-mirror-identity"@, OptionScalar::Text(text@)),
        None => m,
    };
    assert(sent(named, name) == sent(m, name));
    if let Some(RetryOptions::Canonical(entries)) = options.retry {
        lemma_retry_keep(named, pair_views(entries@), entries@.len() as int, name);
    }
}

/// Every field of the options is sent under its own name, as what it holds, and a field
/// that is not set is not sent; what a transfer persists under such a name takes its
/// place.
pub proof fn law_options_are_sent_under_their_names(options: DownloadOptions, admission: bool)
    requires
        options.option_map(admission) is Ok,
    ensures
        ({
            let m = options.option_map(admission)->Ok_0;
            &&& !persists(options, "pause"@) ==> (if admission {
                sent(m, "pause"@) == Some(OptionScalar::Flag(options.pause))
            } else {
                sent(m, "pause"@) is None
            })
            &&& !persists(options, "out"@) ==> sends_text(m, "out"@, options.output)
            &&& !persists(options, "split"@) ==> sends_count(m, "split"@, options.split)
            &&& !persists(options, "max-connection-per-server"@) ==> sends_count(
                m,
                "max-connection-per-server"@,
                options.max_connections_per_server,
            )
            &&& !persists(options, "min-split-size"@) ==> sends_number(m, "min-split-size"@, options.min_split_size)
            &&& !persists(options, "piece-length"@) ==> sends_number(m, "piece-length"@, options.piece_length)
            &&& !persists(options, "connect-timeout"@) ==> sends_number(
                m,
                "connect-timeout"@,
                options.connect_timeout_seconds,
            )
            &&& !persists(options, "timeout"@) ==> sends_number(m, "timeout"@, options.timeout_seconds)
            &&& !persists(options, "max-download-limit"@) ==> sends_number(
                m,
                "max-download-limit"@,
                options.max_download_limit,
            )
            &&& !persists(options, "lowest-speed-limit"@) ==> sends_number(
                m,
                "lowest-speed-limit"@,
                options.lowest_speed_limit,
            )
            &&& !persists(options, "endgame-max-duplicates"@) ==> sends_count(
                m,
                "endgame-max-duplicates"@,
                options.endgame_max_duplicates,
            )
            &&& options.mirror_identity is Some ==> sends_text(m, "verify-mirror-identity"@, options.mirror_identity)
            &&& options.mirror_identity is None && !persists(options, "verify-mirror-identity"@) ==> sent(
                m,
                "verify-mirror-identity"@,
            ) is None
            &&& options.transfer is None ==> sends_text(m, "checksum"@, options.checksum)
        }),
        options.transfer matches Some(transfer) ==> sends_transfer(options.option_map(admission)->Ok_0, transfer) && (
        transfer.checksum is Some ==> options.checksum is None && sends_text(
            options.option_map(admission)->Ok_0,
            "checksum"@,
            transfer.checksum,
        )) && (transfer.checksum is None && !persists(options, "checksum"@) ==> sends_text(
            options.option_map(admission)->Ok_0,
            "checksum"@,
            options.checksum,
        )),
{
    lemma_names();
    let m = options.option_map(admission)->Ok_0;
    let plain = options.plain_map(admission);
    lemma_plain_bound(options, admission);
    lemma_plain_kept(options, admission);
    assert(is_plain_name("pause"@));
    assert(is_plain_name("out"@));
    assert(is_plain_name("split"@));
    assert(is_plain_name("max-connection-per-server"@));
    assert(is_plain_name("min-split-size"@));
    assert(is_plain_name("piece-length"@));
    assert(is_plain_name("connect-timeout"@));
    assert(is_plain_name("timeout"@));
    assert(is_plain_name("max-download-limit"@));
    assert(is_plain_name("lowest-speed-limit"@));
    assert(is_plain_name("endgame-max-duplicates"@));
    lemma_rest_bound(options, admission);
}

/// The options that follow the plain ones.
proof fn lemma_rest_bound(options: DownloadOptions, admission: bool)
    requires
        options.option_map(admission) is Ok,
    ensures
        ({
            let m = options.option_map(admission)->Ok_0;
            &&& options.mirror_identity is Some ==> sends_text(m, "verify-mirror-identity"@, options.mirror_identity)
            &&& options.mirror_identity is None && !persists(options, "verify-mirror-identity"@) ==> sent(
                m,
                "verify-mirror-identity"@,
            ) is None
            &&& options.transfer is None ==> sends_text(m, "checksum"@, options.checksum)
        }),
        options.transfer matches Some(transfer) ==> sends_transfer(options.option_map(admission)->Ok_0, transfer) && (
        transfer.checksum is Some ==> options.checksum is None && sends_text(
            options.option_map(admission)->Ok_0,
            "checksum"@,
            transfer.checksum,
        )) && (transfer.checksum is None && !persists(options, "checksum"@) ==> sends_text(
            options.option_map(admission)->Ok_0,
            "checksum"@,
            options.checksum,
        )),
{
    lemma_names();
    let m = options.option_map(admission)->Ok_0;
    let plain = options.plain_map(admission);
    lemma_plain_bound(options, admission);
    let with_transfer = match options.transfer {
        Some(transfer) => transfer.option_map(plain),
        None => Ok(plain),
    };
    let before = with_transfer->Ok_0;
    let named = match options.mirror_identity {
        Some(text) => before.insert("verify-mirror-identity"@, OptionScalar::Text(text@)),
        None => before,
    };
    let checksum = "checksum"@;
    let identity = "verify-mirror-identity"@;
    assert forall|name: Seq<char>|
        #![trigger sent(m, name)]
        is_transfer_name(name) || name == checksum || name == identity implies sent(m, name) == sent(named, name) by {
        assert(!is_retry_name(name));
        if let Some(RetryOptions::Canonical(entries)) = options.retry {
            lemma_retry_keep(named, pair_views(entries@), entries@.len() as int, name);
        }
    }
    if let Some(transfer) = options.transfer {
        let entries = pair_views(transfer.persisted@);
        lemma_transfer_bound(transfer, plain);
        lemma_transfer_keep(transfer, plain, checksum);
        lemma_transfer_keep(transfer, plain, identity);
        if !persisted_under(entries, checksum) {
            lemma_persisted_keep(plain, entries, entries.len() as int, checksum);
        }
        if !persisted_under(entries, identity) {
            lemma_persisted_keep(plain, entries, entries.len() as int, identity);
        }
        if options.checksum is Some {
            lemma_persisted_stays(plain, entries, entries.len() as int, checksum);
        }
        assert forall|name: Seq<char>|
            #![trigger sent(m, name)]
            is_transfer_name(name) implies sent(m, name) == sent(before, name) by {
        }
    }
}

/// Persisted entries never unbind a name.
proof fn lemma_persisted_stays(options: OptionMapView, entries: Seq<PairView>, n: int, name: Seq<char>)
    requires
        0 <= n <= entries.len(),
        options.contains_key(name),
    ensures
        with_persisted(options, entries, n).contains_key(name),
    decreases n,
{
    if n > 0 {
        lemma_persisted_stays(options, entries, n - 1, name);
    }
}

/// What a transfer persists is sent as it was persisted, the last of each name, unless
/// the options have a field for it; what is only for the engine itself is not sent.
pub proof fn law_persisted_options_are_sent(options: DownloadOptions, admission: bool, at: int)
    requires
        options.option_map(admission) is Ok,
        options.transfer is Some,
        0 <= at < options.transfer->0.persisted@.len(),
        forall|k: int|
            at < k < options.transfer->0.persisted@.len() ==> (#[trigger] options.transfer->0.persisted@[k]).name@
                != options.transfer->0.persisted@[at].name@,
    ensures
        ({
            let m = options.option_map(admission)->Ok_0;
            let name = options.transfer->0.persisted@[at].name@;
            let internal = name == "verification-manifest"@ || name == "metalink-expansion"@;
            &&& internal ==> sent(m, name) is None
            &&& !internal && !is_transfer_name(name) && name != "checksum"@ && name != "verify-mirror-identity"@
                && !is_retry_name(name) ==> sent(m, name) == Some(
                OptionScalar::Text(options.transfer->0.persisted@[at].value@),
            )
        }),
{
    lemma_names();
    let plain = options.plain_map(admission);
    let transfer = options.transfer->0;
    let entries = pair_views(transfer.persisted@);
    let n = entries.len() as int;
    let name = entries[at].name;
    let m = options.option_map(admission)->Ok_0;
    assert(entries[at] == transfer.persisted@[at]@);
    assert forall|k: int| at < k < entries.len() implies (#[trigger] entries[k]).name != name by {
        assert(entries[k] == transfer.persisted@[k]@);
    }
    let before = transfer.option_map(plain)->Ok_0;
    let named = match options.mirror_identity {
        Some(text) => before.insert("verify-mirror-identity"@, OptionScalar::Text(text@)),
        None => before,
    };
    if is_internal_name(name) {
        lemma_internal_unsent(plain, entries, n, name);
        assert(!is_transfer_name(name) && !is_retry_name(name));
        lemma_transfer_keep(transfer, plain, name);
        if let Some(RetryOptions::Canonical(retry)) = options.retry {
            lemma_retry_keep(named, pair_views(retry@), retry@.len() as int, name);
        }
    } else if !is_transfer_name(name) && name != "checksum"@ && name != "verify-mirror-identity"@ && !is_retry_name(
        name,
    ) {
        lemma_persisted_bound(plain, entries, n, at);
        lemma_transfer_keep(transfer, plain, name);
        if let Some(RetryOptions::Canonical(retry)) = options.retry {
            lemma_retry_keep(named, pair_views(retry@), retry@.len() as int, name);
        }
    }
}

/// What is only for the engine itself is not bound by persisted entries.
proof fn lemma_internal_unsent(options: OptionMapView, entries: Seq<PairView>, n: int, name: Seq<char>)
    requires
        0 <= n <= entries.len(),
        is_internal_name(name),
    ensures
        sent(with_persisted(options, entries, n), name) == sent(options, name),
    decreases n,
{
    if n > 0 {
        lemma_internal_unsent(options, entries, n - 1, name);
    }
}

/// How failed attempts are repeated is sent as it was decided, and nothing else of those
/// decisions is.
pub proof fn law_retry_options_are_sent(options: DownloadOptions, admission: bool, entries: Vec<crate::pairs::TextPair>, at: int)
    requires
        options.option_map(admission) is Ok,
        options.retry == Some(RetryOptions::Canonical(entries)),
        0 <= at < entries@.len(),
        forall|k: int| at < k < entries@.len() ==> (#[trigger] entries@[k]).name@ != entries@[at].name@,
    ensures
        has_prefix(entries@[at].name@, "retry-"@) || entries@[at].name@ == "max-tries"@ || entries@[at].name@
            == "stale-validator-policy"@ ==> sent(options.option_map(admission)->Ok_0, entries@[at].name@) == Some(
            OptionScalar::Text(entries@[at].value@),
        ),
{
    let views = pair_views(entries@);
    assert(views[at] == entries@[at]@);
    let plain = options.plain_map(admission);
    let with_transfer = match options.transfer {
        Some(transfer) => transfer.option_map(plain),
        None => Ok(plain),
    };
    let before = with_transfer->Ok_0;
    let named = match options.mirror_identity {
        Some(text) => before.insert("verify-mirror-identity"@, OptionScalar::Text(text@)),
        None => before,
    };
    assert forall|k: int| at < k < views.len() implies (#[trigger] views[k]).name != views[at].name by {
        assert(views[k] == entries@[k]@);
    }
    if is_retry_name(views[at].name) {
        lemma_retry_bound(named, views, views.len() as int, at);
    }
}

/// Settings that were read and are sent again to add a download go out under the names
/// that they came in with, as what the registry made of them, and no plain setting goes
/// out that did not come in.
pub proof fn law_settings_read_are_sent_again(
    settings: Seq<PairView>,
    parsed: ParsedDownload,
    options: DownloadOptions,
)
    requires
        options_of(settings, parsed, options),
        options.option_map(true) is Ok,
    ensures
        ({
            let m = options.option_map(true)->Ok_0;
            let set = |name: Seq<char>| exists|i: int| 0 <= i < settings.len() && (#[trigger] settings[i]).name == name;
            let count = |name: Seq<char>, value: usize| sends_count(
                m,
                name,
                if set(name) {
                    Some(value)
                } else {
                    None
                },
            );
            let number = |name: Seq<char>, value: u64| sends_number(
                m,
                name,
                if set(name) {
                    Some(value)
                } else {
                    None
                },
            );
            &&& !persists(options, "split"@) ==> count("split"@, parsed.split)
            &&& !persists(options, "max-connection-per-server"@) ==> count(
                "max-connection-per-server"@,
                parsed.max_connections_per_server,
            )
            &&& !persists(options, "endgame-max-duplicates"@) ==> count(
                "endgame-max-duplicates"@,
                parsed.endgame_max_duplicates,
            )
            &&& !persists(options, "min-split-size"@) ==> number("min-split-size"@, parsed.min_split_size)
            &&& !persists(options, "piece-length"@) ==> number("piece-length"@, parsed.piece_length)
            &&& !persists(options, "max-download-limit"@) ==> number("max-download-limit"@, parsed.max_download_limit)
            &&& !persists(options, "lowest-speed-limit"@) ==> number("lowest-speed-limit"@, parsed.lowest_speed_limit)
            &&& !persists(options, "timeout"@) ==> number("timeout"@, parsed.response_body_timeout.seconds)
            &&& !persists(options, "connect-timeout"@) ==> number("connect-timeout"@, parsed.connect_timeout.seconds)
            &&& !persists(options, "pause"@) ==> sent(m, "pause"@) == Some(OptionScalar::Flag(parsed.paused))
        }),
        forall|i: int|
            0 <= i < settings.len() && (#[trigger] settings[i]).name == "out"@ && !persists(options, "out"@) && (
            forall|k: int| 0 <= k < i ==> (#[trigger] settings[k]).name != "out"@) ==> sent(
                options.option_map(true)->Ok_0,
                "out"@,
            ) == Some(OptionScalar::Text(settings[i].value)),
{
    law_options_are_sent_under_their_names(options, true);
    lemma_pair_of(settings, "split"@, 0);
    lemma_pair_of(settings, "max-connection-per-server"@, 0);
    lemma_pair_of(settings, "endgame-max-duplicates"@, 0);
    lemma_pair_of(settings, "min-split-size"@, 0);
    lemma_pair_of(settings, "piece-length"@, 0);
    lemma_pair_of(settings, "max-download-limit"@, 0);
    lemma_pair_of(settings, "lowest-speed-limit"@, 0);
    lemma_pair_of(settings, "timeout"@, 0);
    lemma_pair_of(settings, "connect-timeout"@, 0);
    lemma_pair_of(settings, "out"@, 0);
}

} // verus!
