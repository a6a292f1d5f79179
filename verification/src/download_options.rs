//! Options of a download as an embedding program sets them.
use vstd::prelude::*;
use crate::control::HttpControlError;
use crate::json::{capped, text_capacity};
use crate::native_error::NativeApiError;
use crate::options::{with_option, OptionMapView, OptionObject, OptionScalar, OptionValue};
use crate::pairs::{
    accept_pairs, acceptable_pairs, find_pair, pair_of, pair_views, value_under, PairLimits, PairView, TextPair,
};
use crate::span::Span;
use crate::text::{byte_len, has_prefix, same_text, starts_with};

verus! {

/// Credentials of a transfer.
pub struct TransferCredentials {
    pub username: String,
    pub password: Option<String>,
}

/// Where a credential lies.
#[derive(Debug)]
pub enum CredentialPath {
    Utf8(String),
    NotUtf8,
}

/// Options that hold for every protocol.
pub struct TransferOptions {
    /// Why they are refused, by the number of the reason.
    pub fault: Option<u16>,
    /// What of them is persisted.
    pub persisted: Vec<TextPair>,
    pub checksum: Option<String>,
    pub credentials: Option<TransferCredentials>,
    pub sftp_known_hosts: Option<CredentialPath>,
    pub sftp_private_key: Option<CredentialPath>,
    pub netrc_path: Option<CredentialPath>,
    pub sftp_private_key_passphrase: Option<String>,
    pub sftp_use_agent: bool,
    pub sftp_check_host_key: bool,
    pub ftp_pasv_server_address: bool,
    pub retained_bytes: usize,
}

/// How failed attempts are repeated: the canonical options, or why there are
/// none, by the number of the reason.
#[derive(Debug)]
pub enum RetryOptions {
    Canonical(Vec<TextPair>),
    Refused(u16),
}

pub struct DownloadOptions {
    pub pause: bool,
    pub output: Option<String>,
    pub split: Option<usize>,
    pub timeout_seconds: Option<u64>,
    pub max_download_limit: Option<u64>,
    pub max_connections_per_server: Option<usize>,
    pub min_split_size: Option<u64>,
    pub piece_length: Option<u64>,
    pub connect_timeout_seconds: Option<u64>,
    pub lowest_speed_limit: Option<u64>,
    pub endgame_max_duplicates: Option<usize>,
    /// A digest in its canonical form.
    pub checksum: Option<String>,
    pub transfer: Option<TransferOptions>,
    /// The code of the policy.
    pub mirror_identity: Option<String>,
    pub retry: Option<RetryOptions>,
}

impl Default for DownloadOptions {
    fn default() -> (r: Self)
        ensures
            r == (DownloadOptions {
                pause: false,
                output: None,
                split: None,
                timeout_seconds: None,
                max_download_limit: None,
                max_connections_per_server: None,
                min_split_size: None,
                piece_length: None,
                connect_timeout_seconds: None,
                lowest_speed_limit: None,
                endgame_max_duplicates: None,
                checksum: None,
                transfer: None,
                mirror_identity: None,
                retry: None,
            }),
    {
        DownloadOptions {
            pause: false,
            output: None,
            split: None,
            timeout_seconds: None,
            max_download_limit: None,
            max_connections_per_server: None,
            min_split_size: None,
            piece_length: None,
            connect_timeout_seconds: None,
            lowest_speed_limit: None,
            endgame_max_duplicates: None,
            checksum: None,
            transfer: None,
            mirror_identity: None,
            retry: None,
        }
    }
}

/// What the admission registry makes of settings.
pub struct ParsedDownload {
    pub paused: bool,
    pub split: usize,
    pub response_body_timeout: Span,
    pub max_download_limit: u64,
    pub max_connections_per_server: usize,
    pub min_split_size: u64,
    pub piece_length: u64,
    pub connect_timeout: Span,
    pub lowest_speed_limit: u64,
    pub endgame_max_duplicates: usize,
    pub checksum: Option<String>,
    pub transfer: TransferOptions,
    pub mirror_identity: String,
    pub retry: Option<RetryOptions>,
}

/// A parsed value, where its setting was given.
pub open spec fn given<T>(settings: Seq<PairView>, name: Seq<char>, value: T) -> Option<T> {
    if pair_of(settings, name, 0) is Some {
        Some(value)
    } else {
        None
    }
}

/// Whether options are what was parsed of settings: what was not set is left to
/// the defaults.
pub open spec fn options_of(settings: Seq<PairView>, parsed: ParsedDownload, options: DownloadOptions) -> bool {
    &&& options.pause == parsed.paused
    &&& (match options.output {
        Some(output) => Some(output@),
        None => None,
    }) == value_under(settings, "out"@)
    &&& options.split == given(settings, "split"@, parsed.split)
    &&& options.timeout_seconds == given(settings, "timeout"@, parsed.response_body_timeout.seconds)
    &&& options.max_download_limit == given(settings, "max-download-limit"@, parsed.max_download_limit)
    &&& options.max_connections_per_server == given(
        settings,
        "max-connection-per-server"@,
        parsed.max_connections_per_server,
    )
    &&& options.min_split_size == given(settings, "min-split-size"@, parsed.min_split_size)
    &&& options.piece_length == given(settings, "piece-length"@, parsed.piece_length)
    &&& options.connect_timeout_seconds == given(settings, "connect-timeout"@, parsed.connect_timeout.seconds)
    &&& options.lowest_speed_limit == given(settings, "lowest-speed-limit"@, parsed.lowest_speed_limit)
    &&& options.endgame_max_duplicates == given(settings, "endgame-max-duplicates"@, parsed.endgame_max_duplicates)
    &&& options.checksum == parsed.checksum
    &&& options.transfer == Some(parsed.transfer)
    &&& options.mirror_identity == given(settings, "verify-mirror-identity"@, parsed.mirror_identity)
    &&& options.retry == parsed.retry
}

fn where_given<T>(settings: &Vec<TextPair>, name: &str, value: T) -> (r: Option<T>)
    ensures
        r == given(pair_views(settings@), name@, value),
{
    if find_pair(settings, name).is_some() {
        Some(value)
    } else {
        None
    }
}

/// Why settings are refused before they are parsed.
pub open spec fn settings_fault(settings: Seq<PairView>, limits: PairLimits, root_known: bool) -> Option<
    NativeApiError,
> {
    if !acceptable_pairs(settings, limits) {
        Some(NativeApiError::InvalidConfiguration("duplicate, oversized or unsupported download option"))
    } else if !root_known {
        Some(NativeApiError::InvalidConfiguration("cannot resolve local output root"))
    } else {
        None
    }
}

/// An option with a text.
pub open spec fn text_option(value: Option<String>) -> Option<OptionScalar> {
    match value {
        Some(text) => Some(OptionScalar::Text(text@)),
        None => None,
    }
}

/// An option with a number.
pub open spec fn number_option(value: Option<u64>) -> Option<OptionScalar> {
    match value {
        Some(number) => Some(OptionScalar::Number(number)),
        None => None,
    }
}

/// An option with a count.
pub open spec fn count_option(value: Option<usize>) -> Option<OptionScalar> {
    match value {
        Some(number) => Some(OptionScalar::Number(number as u64)),
        None => None,
    }
}

/// A flag that is told only where it is up.
pub open spec fn flag_option(up: bool, value: bool) -> Option<OptionScalar> {
    if up {
        Some(OptionScalar::Flag(value))
    } else {
        None
    }
}

impl DownloadOptions {
    /// The options that are plain numbers, and the names before them.
    pub open spec fn plain_map(self, admission: bool) -> OptionMapView {
        let m = with_option(OptionMapView::empty(), "pause"@, flag_option(admission, self.pause));
        let m = with_option(m, "out"@, text_option(self.output));
        let m = with_option(m, "split"@, count_option(self.split));
        let m = with_option(m, "max-connection-per-server"@, count_option(self.max_connections_per_server));
        let m = with_option(m, "min-split-size"@, number_option(self.min_split_size));
        let m = with_option(m, "piece-length"@, number_option(self.piece_length));
        let m = with_option(m, "connect-timeout"@, number_option(self.connect_timeout_seconds));
        let m = with_option(m, "timeout"@, number_option(self.timeout_seconds));
        let m = with_option(m, "max-download-limit"@, number_option(self.max_download_limit));
        let m = with_option(m, "lowest-speed-limit"@, number_option(self.lowest_speed_limit));
        let m = with_option(m, "endgame-max-duplicates"@, count_option(self.endgame_max_duplicates));
        with_option(m, "checksum"@, text_option(self.checksum))
    }

    /// The options as they are sent, or why they cannot be.
    pub open spec fn option_map(self, admission: bool) -> Result<OptionMapView, NativeApiError> {
        if !admission && self.pause {
            Err(NativeApiError::InvalidConfiguration("use pause() to change pause intent"))
        } else {
            let plain = self.plain_map(admission);
            let with_transfer = match self.transfer {
                Some(transfer) => transfer.option_map(plain),
                None => Ok(plain),
            };
            match with_transfer {
                Err(error) => Err(error),
                Ok(m) => {
                    let m = with_option(m, "verify-mirror-identity"@, text_option(self.mirror_identity));
                    match self.retry {
                        None => Ok(m),
                        Some(RetryOptions::Refused(reason)) => Err(
                            NativeApiError::Control(HttpControlError::TaskSpec(reason)),
                        ),
                        Some(RetryOptions::Canonical(entries)) => Ok(
                            with_retry(m, pair_views(entries@), entries@.len() as int),
                        ),
                    }
                },
            }
        }
    }
}

/// Whether an option is about how failed attempts are repeated.
pub open spec fn is_retry_name(name: Seq<char>) -> bool {
    has_prefix(name, "retry-"@) || name == "max-tries"@ || name == "stale-validator-policy"@
}

/// Options with the first `n` of those about repeated attempts.
pub open spec fn with_retry(options: OptionMapView, entries: Seq<PairView>, n: int) -> OptionMapView
    decreases n,
{
    if n <= 0 {
        options
    } else {
        let before = with_retry(options, entries, n - 1);
        if is_retry_name(entries[n - 1].name) {
            before.insert(entries[n - 1].name, OptionScalar::Text(entries[n - 1].value))
        } else {
            before
        }
    }
}

/// Whether an option is persisted but not set by callers.
pub open spec fn is_internal_name(name: Seq<char>) -> bool {
    name == "verification-manifest"@ || name == "metalink-expansion"@
}

/// Options with the first `n` persisted ones.
pub open spec fn with_persisted(options: OptionMapView, entries: Seq<PairView>, n: int) -> OptionMapView
    decreases n,
{
    if n <= 0 {
        options
    } else {
        let before = with_persisted(options, entries, n - 1);
        if is_internal_name(entries[n - 1].name) {
            before
        } else {
            before.insert(entries[n - 1].name, OptionScalar::Text(entries[n - 1].value))
        }
    }
}

/// Whether a path cannot be written as an option.
pub open spec fn unwritable(path: Option<CredentialPath>) -> bool {
    path matches Some(CredentialPath::NotUtf8)
}

/// An option with a path.
pub open spec fn path_option(path: Option<CredentialPath>) -> Option<OptionScalar> {
    match path {
        Some(CredentialPath::Utf8(text)) => Some(OptionScalar::Text(text@)),
        _ => None,
    }
}

/// The user of a transfer.
pub open spec fn user_option(credentials: Option<TransferCredentials>) -> Option<OptionScalar> {
    match credentials {
        Some(credentials) => Some(OptionScalar::Text(credentials.username@)),
        None => None,
    }
}

/// The password of a transfer.
pub open spec fn password_option(credentials: Option<TransferCredentials>) -> Option<OptionScalar> {
    match credentials {
        Some(credentials) => text_option(credentials.password),
        None => None,
    }
}

impl TransferOptions {
    /// Options with those of a transfer. A checksum may be given once; paths have
    /// to be UTF-8.
    pub open spec fn option_map(self, options: OptionMapView) -> Result<OptionMapView, NativeApiError> {
        let entries = pair_views(self.persisted@);
        let persisted = with_persisted(options, entries, entries.len() as int);
        if self.fault is Some {
            Err(NativeApiError::Control(HttpControlError::TaskSpec(self.fault->0)))
        } else if self.checksum is Some && persisted.contains_key("checksum"@) {
            Err(NativeApiError::InvalidConfiguration("only one user checksum may be supplied"))
        } else if unwritable(self.sftp_known_hosts) || unwritable(self.sftp_private_key) || unwritable(
            self.netrc_path,
        ) {
            Err(NativeApiError::InvalidConfiguration("credential paths must be UTF-8"))
        } else {
            let m = with_option(persisted, "checksum"@, text_option(self.checksum));
            let m = with_option(m, "ftp-user"@, user_option(self.credentials));
            let m = with_option(m, "ftp-passwd"@, password_option(self.credentials));
            let m = with_option(m, "sftp-known-hosts"@, path_option(self.sftp_known_hosts));
            let m = with_option(m, "sftp-private-key"@, path_option(self.sftp_private_key));
            let m = with_option(m, "netrc-path"@, path_option(self.netrc_path));
            let m = with_option(
                m,
                "sftp-private-key-passphrase"@,
                text_option(self.sftp_private_key_passphrase),
            );
            let m = with_option(m, "sftp-use-agent"@, flag_option(self.sftp_use_agent, true));
            let m = with_option(m, "sftp-check-host-key"@, flag_option(!self.sftp_check_host_key, false));
            Ok(
                with_option(
                    m,
                    "ftp-pasv-address"@,
                    if self.ftp_pasv_server_address {
                        Some(OptionScalar::Text("server"@))
                    } else {
                        None
                    },
                ),
            )
        }
    }
}

fn put_text(options: &mut OptionObject, name: &str, value: &Option<String>)
    requires
        old(options).valid(),
    ensures
        final(options).valid(),
        final(options)@ == with_option(old(options)@, name@, text_option(*value)),
{
    if let Some(text) = value {
        options.insert(name.to_owned(), OptionValue::Text(text.clone()));
    }
}

fn put_number(options: &mut OptionObject, name: &str, value: Option<u64>)
    requires
        old(options).valid(),
    ensures
        final(options).valid(),
        final(options)@ == with_option(old(options)@, name@, number_option(value)),
{
    if let Some(number) = value {
        options.insert(name.to_owned(), OptionValue::Number(number));
    }
}

fn put_count(options: &mut OptionObject, name: &str, value: Option<usize>)
    requires
        old(options).valid(),
    ensures
        final(options).valid(),
        final(options)@ == with_option(old(options)@, name@, count_option(value)),
{
    if let Some(number) = value {
        options.insert(name.to_owned(), OptionValue::Number(number as u64));
    }
}

fn put_flag(options: &mut OptionObject, name: &str, up: bool, value: bool)
    requires
        old(options).valid(),
    ensures
        final(options).valid(),
        final(options)@ == with_option(old(options)@, name@, flag_option(up, value)),
{
    if up {
        options.insert(name.to_owned(), OptionValue::Flag(value));
    }
}

fn put_path(options: &mut OptionObject, name: &str, path: &Option<CredentialPath>) -> (r: bool)
    requires
        old(options).valid(),
    ensures
        final(options).valid(),
        final(options)@ == with_option(old(options)@, name@, path_option(*path)),
        r == !unwritable(*path),
{
    match path {
        Some(CredentialPath::Utf8(text)) => {
            options.insert(name.to_owned(), OptionValue::Text(text.clone()));
            true
        },
        Some(CredentialPath::NotUtf8) => false,
        None => true,
    }
}

fn put_persisted(options: &mut OptionObject, entries: &Vec<TextPair>)
    requires
        old(options).valid(),
    ensures
        final(options).valid(),
        final(options)@ == with_persisted(old(options)@, pair_views(entries@), entries@.len() as int),
{
    let ghost views = pair_views(entries@);
    let mut i: usize = 0;
    while i < entries.len()
        invariant
            i <= entries.len(),
            views == pair_views(entries@),
            options.valid(),
            options@ == with_persisted(old(options)@, views, i as int),
        decreases entries.len() - i,
    {
        assert(views[i as int] == entries@[i as int]@);
        let name = entries[i].name.as_str();
        if !same_text(name, "verification-manifest") && !same_text(name, "metalink-expansion") {
            options.insert(entries[i].name.clone(), OptionValue::Text(entries[i].value.clone()));
        }
        i = i + 1;
    }
}

fn put_retry(options: &mut OptionObject, entries: &Vec<TextPair>)
    requires
        old(options).valid(),
    ensures
        final(options).valid(),
        final(options)@ == with_retry(old(options)@, pair_views(entries@), entries@.len() as int),
{
    let ghost views = pair_views(entries@);
    let mut i: usize = 0;
    while i < entries.len()
        invariant
            i <= entries.len(),
            views == pair_views(entries@),
            options.valid(),
            options@ == with_retry(old(options)@, views, i as int),
        decreases entries.len() - i,
    {
        assert(views[i as int] == entries@[i as int]@);
        let name = entries[i].name.as_str();
        if starts_with(name, "retry-") || same_text(name, "max-tries") || same_text(name, "stale-validator-policy") {
            options.insert(entries[i].name.clone(), OptionValue::Text(entries[i].value.clone()));
        }
        i = i + 1;
    }
}

impl TransferOptions {
    fn put_into(&self, options: &mut OptionObject) -> (r: Result<(), NativeApiError>)
        requires
            old(options).valid(),
        ensures
            match self.option_map(old(options)@) {
                Ok(m) => r is Ok && final(options).valid() && final(options)@ == m,
                Err(error) => r == Err::<(), NativeApiError>(error),
            },
    {
        if let Some(reason) = self.fault {
            return Err(NativeApiError::Control(HttpControlError::TaskSpec(reason)));
        }
        put_persisted(options, &self.persisted);
        if self.checksum.is_some() && options.contains("checksum") {
            return Err(NativeApiError::InvalidConfiguration("only one user checksum may be supplied"));
        }
        put_text(options, "checksum", &self.checksum);
        match &self.credentials {
            Some(credentials) => {
                options.insert("ftp-user".to_owned(), OptionValue::Text(credentials.username.clone()));
                put_text(options, "ftp-passwd", &credentials.password);
            },
            None => {},
        }
        if !put_path(options, "sftp-known-hosts", &self.sftp_known_hosts) {
            return Err(NativeApiError::InvalidConfiguration("credential paths must be UTF-8"));
        }
        if !put_path(options, "sftp-private-key", &self.sftp_private_key) {
            return Err(NativeApiError::InvalidConfiguration("credential paths must be UTF-8"));
        }
        if !put_path(options, "netrc-path", &self.netrc_path) {
            return Err(NativeApiError::InvalidConfiguration("credential paths must be UTF-8"));
        }
        put_text(options, "sftp-private-key-passphrase", &self.sftp_private_key_passphrase);
        put_flag(options, "sftp-use-agent", self.sftp_use_agent, true);
        put_flag(options, "sftp-check-host-key", !self.sftp_check_host_key, false);
        if self.ftp_pasv_server_address {
            options.insert("ftp-pasv-address".to_owned(), OptionValue::Text("server".to_owned()));
        }
        Ok(())
    }
}

/// What options take when they are sent, by the room of the output's name and by
/// what the transfer retains.
pub open spec fn options_bytes(output_room: usize, retained: Option<usize>) -> int {
    capped(
        64 * 1024 + output_room + (match retained {
            Some(bytes) => capped(3 * bytes),
            None => 0,
        }),
    )
}

/// What options take when they are sent.
pub fn options_input_bytes(output_room: usize, retained: Option<usize>) -> (r: usize)
    ensures
        r == options_bytes(output_room, retained),
{
    let tripled: usize = match retained {
        Some(bytes) => match bytes.checked_mul(3) {
            Some(product) => product,
            None => usize::MAX,
        },
        None => 0,
    };
    let base: usize = 64 * 1024;
    base.saturating_add(output_room).saturating_add(tripled)
}

impl DownloadOptions {
    /// The options that settings parsed to: what was not set is left to the
    /// defaults.
    pub fn from_parsed(settings: &Vec<TextPair>, parsed: ParsedDownload) -> (r: Self)
        ensures
            options_of(pair_views(settings@), parsed, r),
    {
        let output = match find_pair(settings, "out") {
            Some(i) => {
                assert(pair_views(settings@)[i as int] == settings@[i as int]@);
                Some(settings[i].value.clone())
            },
            None => None,
        };
        DownloadOptions {
            pause: parsed.paused,
            output,
            split: where_given(settings, "split", parsed.split),
            timeout_seconds: where_given(settings, "timeout", parsed.response_body_timeout.seconds),
            max_download_limit: where_given(settings, "max-download-limit", parsed.max_download_limit),
            max_connections_per_server: where_given(
                settings,
                "max-connection-per-server",
                parsed.max_connections_per_server,
            ),
            min_split_size: where_given(settings, "min-split-size", parsed.min_split_size),
            piece_length: where_given(settings, "piece-length", parsed.piece_length),
            connect_timeout_seconds: where_given(settings, "connect-timeout", parsed.connect_timeout.seconds),
            lowest_speed_limit: where_given(settings, "lowest-speed-limit", parsed.lowest_speed_limit),
            endgame_max_duplicates: where_given(settings, "endgame-max-duplicates", parsed.endgame_max_duplicates),
            checksum: parsed.checksum,
            transfer: Some(parsed.transfer),
            mirror_identity: where_given(settings, "verify-mirror-identity", parsed.mirror_identity),
            retry: parsed.retry,
        }
    }

    /// Parses settings through the admission registry, which `parse` is, where
    /// they are acceptable at all and there is a directory to put the output in.
    pub fn from_pairs<P: FnOnce(&Vec<TextPair>) -> Result<ParsedDownload, HttpControlError>>(
        settings: Vec<TextPair>,
        limits: PairLimits,
        root_known: bool,
        parse: P,
    ) -> (r: Result<Self, NativeApiError>)
        requires
            parse.requires((&settings,)),
        ensures
            match settings_fault(pair_views(settings@), limits, root_known) {
                Some(error) => r == Err::<Self, NativeApiError>(error),
                None => exists|parsed: Result<ParsedDownload, HttpControlError>| #[trigger]
                    parse.ensures((&settings,), parsed) && match parsed {
                        Err(error) => r == Err::<Self, NativeApiError>(NativeApiError::Control(error)),
                        Ok(parsed) => r is Ok && options_of(pair_views(settings@), parsed, r->Ok_0),
                    },
            },
    {
        if !accept_pairs(&settings, limits) {
            return Err(NativeApiError::InvalidConfiguration("duplicate, oversized or unsupported download option"));
        }
        if !root_known {
            return Err(NativeApiError::InvalidConfiguration("cannot resolve local output root"));
        }
        match parse(&settings) {
            Err(error) => Err(NativeApiError::Control(error)),
            Ok(parsed) => Ok(Self::from_parsed(&settings, parsed)),
        }
    }

    /// What the transfer of the options retains.
    pub open spec fn retained(self) -> Option<usize> {
        match self.transfer {
            Some(transfer) => Some(transfer.retained_bytes),
            None => None,
        }
    }

    /// Whether the options take so many bytes for some room that holds the name of
    /// the output.
    pub open spec fn costs(self, bytes: usize) -> bool {
        match self.output {
            None => bytes == options_bytes(0, self.retained()),
            Some(output) => exists|room: usize|
                room >= byte_len(output@) && bytes == #[trigger] options_bytes(room, self.retained()),
        }
    }

    /// What the options take when they are sent. The name of the output counts
    /// with the room that it has, which is at least its bytes.
    pub fn input_bytes(&self) -> (r: usize)
        ensures
            self.costs(r),
    {
        let retained: Option<usize> = match &self.transfer {
            Some(transfer) => Some(transfer.retained_bytes),
            None => None,
        };
        match &self.output {
            Some(output) => {
                let room = text_capacity(output);
                let r = options_input_bytes(room, retained);
                assert(r == options_bytes(room, self.retained()));
                r
            },
            None => options_input_bytes(0, retained),
        }
    }

    /// The options as they are sent: to add a task, or to change one. Whether a
    /// task is paused is not changed this way.
    pub fn into_value(self, admission: bool) -> (r: Result<OptionObject, NativeApiError>)
        ensures
            match self.option_map(admission) {
                Ok(m) => r matches Ok(options) && options.valid() && options@ == m,
                Err(error) => r == Err::<OptionObject, NativeApiError>(error),
            },
    {
        if !admission && self.pause {
            return Err(NativeApiError::InvalidConfiguration("use pause() to change pause intent"));
        }
        let mut options = OptionObject::new();
        put_flag(&mut options, "pause", admission, self.pause);
        put_text(&mut options, "out", &self.output);
        put_count(&mut options, "split", self.split);
        put_count(&mut options, "max-connection-per-server", self.max_connections_per_server);
        put_number(&mut options, "min-split-size", self.min_split_size);
        put_number(&mut options, "piece-length", self.piece_length);
        put_number(&mut options, "connect-timeout", self.connect_timeout_seconds);
        put_number(&mut options, "timeout", self.timeout_seconds);
        put_number(&mut options, "max-download-limit", self.max_download_limit);
        put_number(&mut options, "lowest-speed-limit", self.lowest_speed_limit);
        put_count(&mut options, "endgame-max-duplicates", self.endgame_max_duplicates);
        put_text(&mut options, "checksum", &self.checksum);
        assert(options@ == self.plain_map(admission));
        match &self.transfer {
            Some(transfer) => match transfer.put_into(&mut options) {
                Ok(_) => {},
                Err(error) => return Err(error),
            },
            None => {},
        }
        put_text(&mut options, "verify-mirror-identity", &self.mirror_identity);
        match &self.retry {
            Some(RetryOptions::Canonical(entries)) => put_retry(&mut options, entries),
            Some(RetryOptions::Refused(reason)) => {
                return Err(NativeApiError::Control(HttpControlError::TaskSpec(*reason)));
            },
            None => {},
        }
        Ok(options)
    }
}

/// Whether some of the persisted options of a transfer say whether it is paused.
pub open spec fn persists_pause(transfer: TransferOptions) -> bool {
    exists|i: int| 0 <= i < transfer.persisted@.len() && (#[trigger] transfer.persisted@[i]).name@ == "pause"@
}

proof fn lemma_retry_never_pauses(options: OptionMapView, entries: Seq<PairView>, n: int)
    requires
        !options.contains_key("pause"@),
        n <= entries.len(),
    ensures
        !with_retry(options, entries, n).contains_key("pause"@),
    decreases n,
{
    if n > 0 {
        lemma_retry_never_pauses(options, entries, n - 1);
        reveal_strlit("pause");
        reveal_strlit("retry-");
        reveal_strlit("max-tries");
        reveal_strlit("stale-validator-policy");
        let name = entries[n - 1].name;
        if is_retry_name(name) && name == "pause"@ {
            assert("pause"@[0] == 'p');
            assert("max-tries"@[0] == 'm');
            assert("stale-validator-policy"@[0] == 's');
            assert(has_prefix(name, "retry-"@));
            assert("pause"@.len() == 5 && "retry-"@.len() == 6);
            assert(false);
        }
    }
}

proof fn lemma_persisted_never_pause(options: OptionMapView, entries: Seq<PairView>, n: int)
    requires
        !options.contains_key("pause"@),
        n <= entries.len(),
        forall|i: int| 0 <= i < entries.len() ==> (#[trigger] entries[i]).name != "pause"@,
    ensures
        !with_persisted(options, entries, n).contains_key("pause"@),
    decreases n,
{
    if n > 0 {
        lemma_persisted_never_pause(options, entries, n - 1);
    }
}

proof fn lemma_plain_never_pauses(options: DownloadOptions)
    ensures
        !options.plain_map(false).contains_key("pause"@),
{
    let pause = "pause"@;
    reveal_strlit("pause");
    reveal_strlit("out");
    reveal_strlit("split");
    reveal_strlit("max-connection-per-server");
    reveal_strlit("min-split-size");
    reveal_strlit("piece-length");
    reveal_strlit("connect-timeout");
    reveal_strlit("timeout");
    reveal_strlit("max-download-limit");
    reveal_strlit("lowest-speed-limit");
    reveal_strlit("endgame-max-duplicates");
    reveal_strlit("checksum");
    assert("out"@.len() == 3 && pause.len() == 5);
    assert("split"@[0] == 's' && pause[0] == 'p');
    assert("max-connection-per-server"@[0] == 'm');
    assert("min-split-size"@[0] == 'm');
    assert("piece-length"@.len() == 12);
    assert("connect-timeout"@[0] == 'c');
    assert("timeout"@[0] == 't');
    assert("max-download-limit"@[0] == 'm');
    assert("lowest-speed-limit"@[0] == 'l');
    assert("endgame-max-duplicates"@[0] == 'e');
    assert("checksum"@[0] == 'c');
}

proof fn lemma_transfer_never_pauses(transfer: TransferOptions, options: OptionMapView)
    requires
        !options.contains_key("pause"@),
        !persists_pause(transfer),
    ensures
        transfer.option_map(options) matches Ok(m) ==> !m.contains_key("pause"@),
{
    let pause = "pause"@;
    let entries = pair_views(transfer.persisted@);
    assert forall|i: int| 0 <= i < entries.len() implies (#[trigger] entries[i]).name != pause by {
        assert(transfer.persisted@[i].name@ != pause);
    }
    lemma_persisted_never_pause(options, entries, entries.len() as int);
    reveal_strlit("pause");
    reveal_strlit("checksum");
    reveal_strlit("ftp-user");
    reveal_strlit("ftp-passwd");
    reveal_strlit("sftp-known-hosts");
    reveal_strlit("sftp-private-key");
    reveal_strlit("netrc-path");
    reveal_strlit("sftp-private-key-passphrase");
    reveal_strlit("sftp-use-agent");
    reveal_strlit("sftp-check-host-key");
    reveal_strlit("ftp-pasv-address");
    assert(pause[0] == 'p');
    assert("checksum"@[0] == 'c');
    assert("ftp-user"@[0] == 'f');
    assert("ftp-passwd"@[0] == 'f');
    assert("sftp-known-hosts"@[0] == 's');
    assert("sftp-private-key"@[0] == 's');
    assert("netrc-path"@[0] == 'n');
    assert("sftp-private-key-passphrase"@[0] == 's');
    assert("sftp-use-agent"@[0] == 's');
    assert("sftp-check-host-key"@[0] == 's');
    assert("ftp-pasv-address"@[0] == 'f');
}

/// Options that change a task never say whether it is paused, unless what the
/// transfer persists does.
pub proof fn law_changed_options_never_pause(options: DownloadOptions)
    requires
        options.transfer matches Some(transfer) ==> !persists_pause(transfer),
    ensures
        options.option_map(false) matches Ok(m) ==> !m.contains_key("pause"@),
{
    let plain = options.plain_map(false);
    lemma_plain_never_pauses(options);
    let with_transfer = match options.transfer {
        Some(transfer) => transfer.option_map(plain),
        None => Ok(plain),
    };
    if let Some(transfer) = options.transfer {
        lemma_transfer_never_pauses(transfer, plain);
    }
    if let Ok(m) = with_transfer {
        reveal_strlit("pause");
        reveal_strlit("verify-mirror-identity");
        assert("pause"@[0] == 'p' && "verify-mirror-identity"@[0] == 'v');
        let named = with_option(m, "verify-mirror-identity"@, text_option(options.mirror_identity));
        assert(!named.contains_key("pause"@));
        if let Some(RetryOptions::Canonical(entries)) = options.retry {
            lemma_retry_never_pauses(named, pair_views(entries@), entries@.len() as int);
        }
    }
}

} // verus!
