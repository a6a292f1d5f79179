//! BitTorrent settings: of the process when it starts, and of tasks.
use vstd::prelude::*;
use crate::control::HttpControlError;
use crate::json::{capped, text_capacity};
use crate::native_error::NativeApiError;
use crate::pairs::{
    accept_pairs, acceptable_pairs, distinct_names, find_pair, lemma_pair_of, pair_of, pair_views, value_under,
    PairLimits, PairView, TextPair,
};
use crate::span::Span;
use crate::text::{byte_len, decimal_digits, decimal_text, same_text};

verus! {

#[derive(Clone, Copy, Debug, PartialEq, Eq, Structural)]
pub enum BitTorrentEncryption {
    Required,
    Preferred,
    Disabled,
}

impl Default for BitTorrentEncryption {
    fn default() -> (r: Self)
        ensures
            r == BitTorrentEncryption::Preferred,
    {
        BitTorrentEncryption::Preferred
    }
}

/// What a process grants BitTorrent. Tasks cannot relax it.
#[derive(Clone, Debug)]
pub struct BitTorrentConfig {
    /// A numeric socket address.
    pub listen: String,
    pub allow_private_destinations: bool,
    pub dht: bool,
    pub peer_exchange: bool,
    pub encryption: BitTorrentEncryption,
    pub max_tasks: u32,
    pub max_peers: u32,
    pub max_open_files: u32,
    pub disk_threads: u32,
}

/// What a configuration says.
#[verifier::ext_equal]
pub struct BitTorrentConfigView {
    pub listen: Seq<char>,
    pub allow_private_destinations: bool,
    pub dht: bool,
    pub peer_exchange: bool,
    pub encryption: BitTorrentEncryption,
    pub max_tasks: u32,
    pub max_peers: u32,
    pub max_open_files: u32,
    pub disk_threads: u32,
}

impl View for BitTorrentConfig {
    type V = BitTorrentConfigView;

    open spec fn view(&self) -> BitTorrentConfigView {
        BitTorrentConfigView {
            listen: self.listen@,
            allow_private_destinations: self.allow_private_destinations,
            dht: self.dht,
            peer_exchange: self.peer_exchange,
            encryption: self.encryption,
            max_tasks: self.max_tasks,
            max_peers: self.max_peers,
            max_open_files: self.max_open_files,
            disk_threads: self.disk_threads,
        }
    }
}

/// The configuration unless set otherwise: on this machine only.
pub open spec fn default_bittorrent() -> BitTorrentConfigView {
    BitTorrentConfigView {
        listen: "127.0.0.1:0"@,
        allow_private_destinations: false,
        dht: true,
        peer_exchange: true,
        encryption: BitTorrentEncryption::Preferred,
        max_tasks: 32,
        max_peers: 256,
        max_open_files: 64,
        disk_threads: 1,
    }
}

impl Default for BitTorrentConfig {
    fn default() -> (r: Self)
        ensures
            r@ == default_bittorrent(),
    {
        BitTorrentConfig {
            listen: "127.0.0.1:0".to_owned(),
            allow_private_destinations: false,
            dht: true,
            peer_exchange: true,
            encryption: BitTorrentEncryption::Preferred,
            max_tasks: 32,
            max_peers: 256,
            max_open_files: 64,
            disk_threads: 1,
        }
    }
}

/// What the option registry makes of a setting.
#[derive(Debug)]
pub enum RegisteredValue {
    /// The registry does not know the name.
    Unknown,
    /// The registry refuses the value.
    Invalid,
    /// A text, and the numeric socket address that it spells, if it does.
    Text { socket: Option<String> },
    Flag(bool),
    Choice(String),
    Other,
}

/// A setting, and what the registry makes of it.
#[derive(Debug)]
pub struct StartupSetting {
    pub name: String,
    pub value: String,
    pub parsed: RegisteredValue,
}

/// The encryption policy of a code.
pub open spec fn encryption_of(code: Seq<char>) -> Option<BitTorrentEncryption> {
    if code == "required"@ {
        Some(BitTorrentEncryption::Required)
    } else if code == "preferred"@ {
        Some(BitTorrentEncryption::Preferred)
    } else if code == "disabled"@ {
        Some(BitTorrentEncryption::Disabled)
    } else {
        None
    }
}

fn parse_encryption(code: &str) -> (r: Option<BitTorrentEncryption>)
    ensures
        r == encryption_of(code@),
{
    if same_text(code, "required") {
        Some(BitTorrentEncryption::Required)
    } else if same_text(code, "preferred") {
        Some(BitTorrentEncryption::Preferred)
    } else if same_text(code, "disabled") {
        Some(BitTorrentEncryption::Disabled)
    } else {
        None
    }
}

/// Whether one of the first `n` settings has a name.
pub open spec fn set_before(settings: Seq<StartupSetting>, name: Seq<char>, n: int) -> bool
    decreases n,
{
    n > 0 && (settings[n - 1].name@ == name || set_before(settings, name, n - 1))
}

/// A configuration with one setting.
pub open spec fn configured(config: BitTorrentConfigView, setting: StartupSetting) -> Result<
    BitTorrentConfigView,
    NativeApiError,
> {
    let name = setting.name@;
    match setting.parsed {
        RegisteredValue::Unknown => Err(
            NativeApiError::InvalidConfiguration("unsupported BitTorrent startup option"),
        ),
        RegisteredValue::Invalid => Err(NativeApiError::InvalidConfiguration("invalid BitTorrent startup value")),
        RegisteredValue::Text { socket } => if name != "bt-listen-address"@ {
            Err(NativeApiError::InvalidConfiguration("unsupported BitTorrent startup option"))
        } else {
            match socket {
                Some(address) => Ok(BitTorrentConfigView { listen: address@, ..config }),
                None => Err(
                    NativeApiError::InvalidConfiguration(
                        "BitTorrent listener must be a numeric socket address",
                    ),
                ),
            }
        },
        RegisteredValue::Flag(value) => if name == "bt-allow-private-destinations"@ {
            Ok(BitTorrentConfigView { allow_private_destinations: value, ..config })
        } else if name == "enable-dht"@ {
            Ok(BitTorrentConfigView { dht: value, ..config })
        } else if name == "enable-peer-exchange"@ {
            Ok(BitTorrentConfigView { peer_exchange: value, ..config })
        } else {
            Err(NativeApiError::InvalidConfiguration("unsupported BitTorrent startup option"))
        },
        RegisteredValue::Choice(code) => if name != "bt-encryption"@ {
            Err(NativeApiError::InvalidConfiguration("unsupported BitTorrent startup option"))
        } else {
            match encryption_of(code@) {
                Some(encryption) => Ok(BitTorrentConfigView { encryption, ..config }),
                None => Err(NativeApiError::InvalidConfiguration("invalid BitTorrent encryption policy")),
            }
        },
        RegisteredValue::Other => Err(
            NativeApiError::InvalidConfiguration("unsupported BitTorrent startup option"),
        ),
    }
}

/// The configuration that the first `n` settings make.
pub open spec fn startup_config(settings: Seq<StartupSetting>, n: int) -> Result<
    BitTorrentConfigView,
    NativeApiError,
>
    decreases n,
{
    if n <= 0 {
        Ok(default_bittorrent())
    } else {
        let setting = settings[n - 1];
        match startup_config(settings, n - 1) {
            Err(error) => Err(error),
            Ok(config) => if set_before(settings, setting.name@, n - 1) || byte_len(setting.value@) > 128 {
                Err(
                    NativeApiError::InvalidConfiguration(
                        "duplicate or oversized BitTorrent startup option",
                    ),
                )
            } else {
                configured(config, setting)
            },
        }
    }
}

proof fn lemma_startup_fault_stays(settings: Seq<StartupSetting>, a: int, b: int)
    requires
        a <= b,
        startup_config(settings, a) is Err,
    ensures
        startup_config(settings, b) == startup_config(settings, a),
    decreases b - a,
{
    if a < b {
        lemma_startup_fault_stays(settings, a, b - 1);
    }
}

/// What the BitTorrent engine is configured with.
#[derive(Debug)]
pub struct BtAdapterConfig {
    pub listen: String,
    pub max_torrents: u32,
    pub peers: u32,
    pub files: u32,
    pub disk_threads: u32,
    pub allow_private: bool,
    pub dht: bool,
    pub pex: bool,
    pub encryption: u8,
}

/// The error of a process that was built without BitTorrent.
pub open spec fn feature_unavailable() -> NativeApiError {
    NativeApiError::Control(HttpControlError::Unsupported("BitTorrent feature unavailable"))
}

impl BitTorrentConfigView {
    /// No limit is out of range.
    pub open spec fn in_range(self) -> bool {
        &&& 1 <= self.max_tasks <= 4096
        &&& 2 <= self.max_peers <= 16384
        &&& 2 <= self.max_open_files <= 16384
        &&& 1 <= self.disk_threads <= 16
    }
}

fn set_earlier(settings: &Vec<StartupSetting>, i: usize) -> (r: bool)
    requires
        i < settings.len(),
    ensures
        r == set_before(settings@, settings@[i as int].name@, i as int),
{
    let mut k: usize = 0;
    let mut found = false;
    while k < i
        invariant
            k <= i < settings.len(),
            found == set_before(settings@, settings@[i as int].name@, k as int),
        decreases i - k,
    {
        if same_text(settings[k].name.as_str(), settings[i].name.as_str()) {
            found = true;
        }
        k = k + 1;
    }
    found
}

impl BitTorrentConfig {
    fn set(&mut self, setting: &StartupSetting) -> (r: Result<(), NativeApiError>)
        ensures
            match configured(old(self)@, *setting) {
                Ok(config) => r is Ok && final(self)@ == config,
                Err(error) => r == Err::<(), NativeApiError>(error),
            },
    {
        let name = setting.name.as_str();
        match &setting.parsed {
            RegisteredValue::Unknown => {
                return Err(NativeApiError::InvalidConfiguration("unsupported BitTorrent startup option"));
            },
            RegisteredValue::Invalid => {
                return Err(NativeApiError::InvalidConfiguration("invalid BitTorrent startup value"));
            },
            RegisteredValue::Text { socket } => {
                if !same_text(name, "bt-listen-address") {
                    return Err(NativeApiError::InvalidConfiguration("unsupported BitTorrent startup option"));
                }
                match socket {
                    Some(address) => {
                        self.listen = address.clone();
                    },
                    None => {
                        return Err(
                            NativeApiError::InvalidConfiguration(
                                "BitTorrent listener must be a numeric socket address",
                            ),
                        );
                    },
                }
            },
            RegisteredValue::Flag(value) => {
                if same_text(name, "bt-allow-private-destinations") {
                    self.allow_private_destinations = *value;
                } else if same_text(name, "enable-dht") {
                    self.dht = *value;
                } else if same_text(name, "enable-peer-exchange") {
                    self.peer_exchange = *value;
                } else {
                    return Err(NativeApiError::InvalidConfiguration("unsupported BitTorrent startup option"));
                }
            },
            RegisteredValue::Choice(code) => {
                if !same_text(name, "bt-encryption") {
                    return Err(NativeApiError::InvalidConfiguration("unsupported BitTorrent startup option"));
                }
                match parse_encryption(code.as_str()) {
                    Some(encryption) => {
                        self.encryption = encryption;
                    },
                    None => {
                        return Err(NativeApiError::InvalidConfiguration("invalid BitTorrent encryption policy"));
                    },
                }
            },
            RegisteredValue::Other => {
                return Err(NativeApiError::InvalidConfiguration("unsupported BitTorrent startup option"));
            },
        }
        Ok(())
    }

    /// The configuration that settings make, where the process has BitTorrent.
    pub fn from_pairs(settings: &Vec<StartupSetting>, feature: bool) -> (r: Result<Self, NativeApiError>)
        ensures
            !feature ==> r == Err::<Self, NativeApiError>(feature_unavailable()),
            feature ==> match startup_config(settings@, settings@.len() as int) {
                Ok(config) => r is Ok && r->Ok_0@ == config,
                Err(error) => r == Err::<Self, NativeApiError>(error),
            },
    {
        if !feature {
            return Err(NativeApiError::Control(HttpControlError::Unsupported("BitTorrent feature unavailable")));
        }
        let mut result = Self::default();
        let mut i: usize = 0;
        while i < settings.len()
            invariant
                i <= settings.len(),
                feature,
                startup_config(settings@, i as int) == Ok::<BitTorrentConfigView, NativeApiError>(result@),
            decreases settings.len() - i,
        {
            let ghost next = startup_config(settings@, i as int + 1);
            proof {
                if next is Err {
                    lemma_startup_fault_stays(settings@, i as int + 1, settings@.len() as int);
                }
            }
            if set_earlier(settings, i) || settings[i].value.as_str().len() > 128 {
                return Err(
                    NativeApiError::InvalidConfiguration("duplicate or oversized BitTorrent startup option"),
                );
            }
            match result.set(&settings[i]) {
                Ok(_) => {},
                Err(error) => return Err(error),
            }
            i = i + 1;
        }
        Ok(result)
    }

    /// What the BitTorrent engine is configured with, where the process has one
    /// and no limit is out of range.
    pub fn apply(self, feature: bool) -> (r: Result<BtAdapterConfig, NativeApiError>)
        ensures
            !feature ==> r == Err::<BtAdapterConfig, NativeApiError>(feature_unavailable()),
            feature && !self@.in_range() ==> r == Err::<BtAdapterConfig, NativeApiError>(
                NativeApiError::InvalidConfiguration("BitTorrent resource limit is out of range"),
            ),
            feature && self@.in_range() ==> r == Ok::<BtAdapterConfig, NativeApiError>(
                BtAdapterConfig {
                    listen: self.listen,
                    max_torrents: self.max_tasks,
                    peers: self.max_peers,
                    files: self.max_open_files,
                    disk_threads: self.disk_threads,
                    allow_private: self.allow_private_destinations,
                    dht: self.dht,
                    pex: self.peer_exchange,
                    encryption: match self.encryption {
                        BitTorrentEncryption::Required => 0,
                        BitTorrentEncryption::Preferred => 1,
                        BitTorrentEncryption::Disabled => 2,
                    },
                },
            ),
    {
        if !feature {
            return Err(NativeApiError::Control(HttpControlError::Unsupported("BitTorrent feature unavailable")));
        }
        if self.max_tasks < 1 || self.max_tasks > 4096 || self.max_peers < 2 || self.max_peers > 16384
            || self.max_open_files < 2 || self.max_open_files > 16384 || self.disk_threads < 1
            || self.disk_threads > 16 {
            return Err(NativeApiError::InvalidConfiguration("BitTorrent resource limit is out of range"));
        }
        Ok(
            BtAdapterConfig {
                listen: self.listen,
                max_torrents: self.max_tasks,
                peers: self.max_peers,
                files: self.max_open_files,
                disk_threads: self.disk_threads,
                allow_private: self.allow_private_destinations,
                dht: self.dht,
                pex: self.peer_exchange,
                encryption: match self.encryption {
                    BitTorrentEncryption::Required => 0,
                    BitTorrentEncryption::Preferred => 1,
                    BitTorrentEncryption::Disabled => 2,
                },
            },
        )
    }
}

/// Settings of a task that the control plane accepts.
pub struct BitTorrentOptions {
    values: Vec<TextPair>,
}

impl View for BitTorrentOptions {
    type V = Seq<PairView>;

    closed spec fn view(&self) -> Seq<PairView> {
        pair_views(self.values@)
    }
}

impl Default for BitTorrentOptions {
    fn default() -> (r: Self)
        ensures
            r@ == Seq::<PairView>::empty(),
    {
        let r = BitTorrentOptions { values: Vec::new() };
        assert(r@ =~= Seq::empty());
        r
    }
}

/// How much a task may set.
pub open spec fn task_limits() -> PairLimits {
    PairLimits { bytes: 262_144, entries: 64 }
}

/// Whether settings were judged: refused where they are not acceptable at all,
/// and otherwise as `validate` says of them.
pub open spec fn judged<V: Fn(&Vec<TextPair>) -> Option<HttpControlError>>(
    validate: V,
    settings: Seq<PairView>,
    r: Result<BitTorrentOptions, NativeApiError>,
) -> bool {
    if !acceptable_pairs(settings, task_limits()) {
        r == Err::<BitTorrentOptions, NativeApiError>(
            NativeApiError::InvalidConfiguration("duplicate, oversized or unsupported BitTorrent option"),
        )
    } else {
        exists|list: Vec<TextPair>, verdict: Option<HttpControlError>| #[trigger]
            validate.ensures((&list,), verdict) && pair_views(list@) == settings && match verdict {
                Some(error) => r == Err::<BitTorrentOptions, NativeApiError>(NativeApiError::Control(error)),
                None => r is Ok && r->Ok_0@ == settings,
            }
    }
}

/// Settings with one more, over what its name was set to.
pub open spec fn set_pair(settings: Seq<PairView>, pair: PairView) -> Seq<PairView> {
    match pair_of(settings, pair.name, 0) {
        Some(i) => settings.update(i, pair),
        None => settings.push(pair),
    }
}

/// Settings with one more.
pub open spec fn with_one(settings: Seq<PairView>, name: Seq<char>, value: Seq<char>) -> Seq<PairView> {
    set_pair(settings, PairView { name, value })
}

fn put_pair(values: Vec<TextPair>, pair: TextPair) -> (r: Vec<TextPair>)
    ensures
        pair_views(r@) == set_pair(pair_views(values@), pair@),
{
    let mut after = values;
    match find_pair(&after, pair.name.as_str()) {
        Some(i) => {
            after.set(i, pair);
            assert(pair_views(after@) =~= pair_views(values@).update(i as int, pair@));
        },
        None => {
            after.push(pair);
            assert(pair_views(after@) =~= pair_views(values@).push(pair@));
        },
    }
    after
}

/// A flag as it is set.
pub open spec fn flag_text(value: bool) -> Seq<char> {
    if value {
        "true"@
    } else {
        "false"@
    }
}

fn text_of_flag(value: bool) -> (r: String)
    ensures
        r@ == flag_text(value),
{
    if value {
        "true".to_owned()
    } else {
        "false".to_owned()
    }
}

/// Texts one after the other, with a separator between them.
pub open spec fn join(texts: Seq<Seq<char>>, separator: Seq<char>) -> Seq<char>
    decreases texts.len(),
{
    if texts.len() == 0 {
        Seq::empty()
    } else if texts.len() == 1 {
        texts[0]
    } else {
        join(texts.drop_last(), separator) + separator + texts.last()
    }
}

/// The digits of numbers.
pub open spec fn number_texts(numbers: Seq<u32>) -> Seq<Seq<char>> {
    numbers.map_values(|n: u32| decimal_digits(n as nat))
}

fn join_numbers(numbers: &[u32]) -> (r: String)
    ensures
        r@ == join(number_texts(numbers@), ","@),
{
    let ghost texts = number_texts(numbers@);
    let mut r = String::new();
    let mut i: usize = 0;
    while i < numbers.len()
        invariant
            i <= numbers.len(),
            texts == number_texts(numbers@),
            r@ == join(texts.take(i as int), ","@),
        decreases numbers.len() - i,
    {
        let ghost before = r@;
        assert(texts.take(i as int + 1).drop_last() =~= texts.take(i as int));
        if i > 0 {
            r.append(",");
        }
        r.append(decimal_text(numbers[i] as u64).as_str());
        assert(i == 0 ==> r@ =~= texts[0]);
        i = i + 1;
    }
    assert(texts.take(i as int) =~= texts);
    r
}

/// The characters of texts.
pub open spec fn texts_of(list: Seq<String>) -> Seq<Seq<char>> {
    list.map_values(|s: String| s@)
}

fn join_texts(list: &Vec<String>) -> (r: String)
    ensures
        r@ == join(texts_of(list@), ","@),
{
    let ghost texts = texts_of(list@);
    let mut r = String::new();
    let mut i: usize = 0;
    while i < list.len()
        invariant
            i <= list.len(),
            texts == texts_of(list@),
            r@ == join(texts.take(i as int), ","@),
        decreases list.len() - i,
    {
        assert(texts.take(i as int + 1).drop_last() =~= texts.take(i as int));
        assert(texts[i as int] == list@[i as int]@);
        if i > 0 {
            r.append(",");
        }
        r.append(list[i].as_str());
        assert(i == 0 ==> r@ =~= texts[0]);
        i = i + 1;
    }
    assert(texts.take(i as int) =~= texts);
    r
}

/// A ratio in thousandths as it is set: with three digits after the point.
pub open spec fn ratio_text(ratio_milli: u32) -> Seq<char> {
    let fraction = decimal_digits((ratio_milli % 1000) as nat);
    decimal_digits((ratio_milli / 1000) as nat) + "."@ + (if ratio_milli % 1000 < 10 {
        "00"@
    } else if ratio_milli % 1000 < 100 {
        "0"@
    } else {
        ""@
    }) + fraction
}

fn text_of_ratio(ratio_milli: u32) -> (r: String)
    ensures
        r@ == ratio_text(ratio_milli),
{
    let mut r = decimal_text((ratio_milli / 1000) as u64);
    r.append(".");
    if ratio_milli % 1000 < 10 {
        r.append("00");
    } else if ratio_milli % 1000 < 100 {
        r.append("0");
    } else {
        r.append("");
    }
    r.append(decimal_text((ratio_milli % 1000) as u64).as_str());
    r
}

/// The name under which a file is stored, by its number.
#[derive(Debug)]
pub struct FileName {
    pub index: u32,
    pub name: String,
}

/// File names as they are set.
pub open spec fn name_texts(names: Seq<FileName>) -> Seq<Seq<char>> {
    names.map_values(|file: FileName| decimal_digits(file.index as nat) + "="@ + file.name@)
}

/// What file names are counted as.
pub open spec fn name_bytes(names: Seq<FileName>) -> int
    decreases names.len(),
{
    if names.len() == 0 {
        0
    } else {
        capped(name_bytes(names.drop_last()) + byte_len(names.last().name@) + 16)
    }
}

/// Files by ascending number, each once.
pub open spec fn ascending_files(names: Seq<FileName>) -> bool {
    forall|i: int, j: int| 0 <= i < j < names.len() ==> (#[trigger] names[i]).index < (#[trigger] names[j]).index
}

fn count_names(names: &Vec<FileName>) -> (r: usize)
    ensures
        r == name_bytes(names@),
{
    let mut bytes: usize = 0;
    let mut i: usize = 0;
    while i < names.len()
        invariant
            i <= names.len(),
            bytes == name_bytes(names@.take(i as int)),
        decreases names.len() - i,
    {
        assert(names@.take(i as int + 1).drop_last() =~= names@.take(i as int));
        bytes = bytes.saturating_add(names[i].name.as_str().len()).saturating_add(16);
        i = i + 1;
    }
    assert(names@.take(i as int) =~= names@);
    bytes
}

fn join_names(names: &Vec<FileName>) -> (r: String)
    ensures
        r@ == join(name_texts(names@), "\n"@),
{
    let ghost texts = name_texts(names@);
    let mut r = String::new();
    let mut i: usize = 0;
    while i < names.len()
        invariant
            i <= names.len(),
            texts == name_texts(names@),
            r@ == join(texts.take(i as int), "\n"@),
        decreases names.len() - i,
    {
        let ghost before = r@;
        assert(texts.take(i as int + 1).drop_last() =~= texts.take(i as int));
        if i > 0 {
            r.append("\n");
        }
        let ghost separated = r@;
        r.append(decimal_text(names[i].index as u64).as_str());
        r.append("=");
        r.append(names[i].name.as_str());
        assert(r@ =~= separated + texts[i as int]);
        assert(i == 0 ==> r@ =~= texts[0]);
        i = i + 1;
    }
    assert(texts.take(i as int) =~= texts);
    r
}

/// Whether a list of trackers is too long, or one of them is.
pub open spec fn trackers_fit(list: Seq<String>) -> bool {
    list.len() <= 64 && forall|i: int| 0 <= i < list.len() ==> byte_len((#[trigger] list[i])@) <= 8192
}

fn check_trackers(list: &Vec<String>) -> (r: bool)
    ensures
        r == trackers_fit(list@),
{
    if list.len() > 64 {
        return false;
    }
    let mut i: usize = 0;
    while i < list.len()
        invariant
            i <= list.len(),
            forall|k: int| 0 <= k < i ==> byte_len((#[trigger] list@[k])@) <= 8192,
        decreases list.len() - i,
    {
        if list[i].as_str().len() > 8192 {
            assert(byte_len(list@[i as int]@) > 8192);
            return false;
        }
        i = i + 1;
    }
    true
}

/// Settings with trackers to add and to leave out, where there are any.
pub open spec fn with_trackers(settings: Seq<PairView>, added: Seq<String>, left_out: Seq<String>) -> Seq<PairView> {
    let first = if added.len() == 0 {
        settings
    } else {
        with_one(settings, "bt-tracker"@, join(texts_of(added), ","@))
    };
    if left_out.len() == 0 {
        first
    } else {
        with_one(first, "bt-exclude-tracker"@, join(texts_of(left_out), ","@))
    }
}

impl BitTorrentOptions {
    /// Settings as callers give them, where they are acceptable and `validate`
    /// has nothing against them.
    pub fn from_pairs<V: Fn(&Vec<TextPair>) -> Option<HttpControlError>>(values: Vec<TextPair>, validate: V) -> (r:
        Result<Self, NativeApiError>)
        requires
            forall|list: &Vec<TextPair>| #[trigger] validate.requires((list,)),
        ensures
            judged(validate, pair_views(values@), r),
    {
        if !accept_pairs(&values, PairLimits { bytes: 262_144, entries: 64 }) {
            return Err(
                NativeApiError::InvalidConfiguration("duplicate, oversized or unsupported BitTorrent option"),
            );
        }
        match validate(&values) {
            Some(error) => Err(NativeApiError::Control(error)),
            None => Ok(BitTorrentOptions { values }),
        }
    }

    fn with<V: Fn(&Vec<TextPair>) -> Option<HttpControlError>>(self, name: &str, value: String, validate: V) -> (r:
        Result<Self, NativeApiError>)
        requires
            forall|list: &Vec<TextPair>| #[trigger] validate.requires((list,)),
        ensures
            judged(validate, with_one(self@, name@, value@), r),
    {
        let pair = TextPair { name: name.to_owned(), value };
        assert(pair@ =~= (PairView { name: name@, value: value@ }));
        Self::from_pairs(put_pair(self.values, pair), validate)
    }

    fn with_two<V: Fn(&Vec<TextPair>) -> Option<HttpControlError>>(
        self,
        first: (&str, String),
        second: (&str, String),
        validate: V,
    ) -> (r: Result<Self, NativeApiError>)
        requires
            forall|list: &Vec<TextPair>| #[trigger] validate.requires((list,)),
        ensures
            judged(validate, with_one(with_one(self@, first.0@, first.1@), second.0@, second.1@), r),
    {
        let one = TextPair { name: first.0.to_owned(), value: first.1 };
        let two = TextPair { name: second.0.to_owned(), value: second.1 };
        assert(one@ =~= (PairView { name: first.0@, value: first.1@ }));
        assert(two@ =~= (PairView { name: second.0@, value: second.1@ }));
        Self::from_pairs(put_pair(put_pair(self.values, one), two), validate)
    }

    pub fn paused<V: Fn(&Vec<TextPair>) -> Option<HttpControlError>>(self, paused: bool, validate: V) -> (r: Result<
        Self,
        NativeApiError,
    >)
        requires
            forall|list: &Vec<TextPair>| #[trigger] validate.requires((list,)),
        ensures
            judged(validate, with_one(self@, "pause"@, flag_text(paused)), r),
    {
        self.with("pause", text_of_flag(paused), validate)
    }

    pub fn output<V: Fn(&Vec<TextPair>) -> Option<HttpControlError>>(self, name: String, validate: V) -> (r: Result<
        Self,
        NativeApiError,
    >)
        requires
            forall|list: &Vec<TextPair>| #[trigger] validate.requires((list,)),
        ensures
            judged(validate, with_one(self@, "out"@, name@), r),
    {
        self.with("out", name, validate)
    }

    pub fn rates<V: Fn(&Vec<TextPair>) -> Option<HttpControlError>>(
        self,
        download_bytes_per_second: u64,
        upload_bytes_per_second: u64,
        validate: V,
    ) -> (r: Result<Self, NativeApiError>)
        requires
            forall|list: &Vec<TextPair>| #[trigger] validate.requires((list,)),
        ensures
            judged(
                validate,
                with_one(
                    with_one(self@, "max-download-limit"@, decimal_digits(download_bytes_per_second as nat)),
                    "max-upload-limit"@,
                    decimal_digits(upload_bytes_per_second as nat),
                ),
                r,
            ),
    {
        self.with_two(
            ("max-download-limit", decimal_text(download_bytes_per_second)),
            ("max-upload-limit", decimal_text(upload_bytes_per_second)),
            validate,
        )
    }

    pub fn peer_limit<V: Fn(&Vec<TextPair>) -> Option<HttpControlError>>(self, peers: u32, validate: V) -> (r: Result<
        Self,
        NativeApiError,
    >)
        requires
            forall|list: &Vec<TextPair>| #[trigger] validate.requires((list,)),
        ensures
            judged(validate, with_one(self@, "bt-max-peers"@, decimal_digits(peers as nat)), r),
    {
        self.with("bt-max-peers", decimal_text(peers as u64), validate)
    }

    pub fn discovery<V: Fn(&Vec<TextPair>) -> Option<HttpControlError>>(
        self,
        dht: bool,
        peer_exchange: bool,
        validate: V,
    ) -> (r: Result<Self, NativeApiError>)
        requires
            forall|list: &Vec<TextPair>| #[trigger] validate.requires((list,)),
        ensures
            judged(
                validate,
                with_one(
                    with_one(self@, "enable-dht"@, flag_text(dht)),
                    "enable-peer-exchange"@,
                    flag_text(peer_exchange),
                ),
                r,
            ),
    {
        self.with_two(
            ("enable-dht", text_of_flag(dht)),
            ("enable-peer-exchange", text_of_flag(peer_exchange)),
            validate,
        )
    }

    pub fn metadata<V: Fn(&Vec<TextPair>) -> Option<HttpControlError>>(
        self,
        only: bool,
        save: bool,
        validate: V,
    ) -> (r: Result<Self, NativeApiError>)
        requires
            forall|list: &Vec<TextPair>| #[trigger] validate.requires((list,)),
        ensures
            judged(
                validate,
                with_one(
                    with_one(self@, "bt-metadata-only"@, flag_text(only)),
                    "bt-save-metadata"@,
                    flag_text(save),
                ),
                r,
            ),
    {
        self.with_two(
            ("bt-metadata-only", text_of_flag(only)),
            ("bt-save-metadata", text_of_flag(save)),
            validate,
        )
    }

    /// A ratio of 1,000 means one uploaded byte per downloaded byte. How long to
    /// seed is given in minutes, as they are written.
    pub fn seeding<V: Fn(&Vec<TextPair>) -> Option<HttpControlError>>(
        self,
        ratio_milli: u32,
        minutes: Option<String>,
        validate: V,
    ) -> (r: Result<Self, NativeApiError>)
        requires
            forall|list: &Vec<TextPair>| #[trigger] validate.requires((list,)),
        ensures
            judged(
                validate,
                match minutes {
                    None => with_one(self@, "seed-ratio"@, ratio_text(ratio_milli)),
                    Some(minutes) => with_one(
                        with_one(self@, "seed-ratio"@, ratio_text(ratio_milli)),
                        "seed-time"@,
                        minutes@,
                    ),
                },
                r,
            ),
    {
        match minutes {
            None => self.with("seed-ratio", text_of_ratio(ratio_milli), validate),
            Some(minutes) => {
                self.with_two(("seed-ratio", text_of_ratio(ratio_milli)), ("seed-time", minutes), validate)
            },
        }
    }

    pub fn selected_files<V: Fn(&Vec<TextPair>) -> Option<HttpControlError>>(self, indices: &[u32], validate: V) -> (r:
        Result<Self, NativeApiError>)
        requires
            forall|list: &Vec<TextPair>| #[trigger] validate.requires((list,)),
        ensures
            if indices@.len() > 10_000 {
                r == Err::<Self, NativeApiError>(NativeApiError::InvalidConfiguration("too many selected files"))
            } else {
                judged(validate, with_one(self@, "select-file"@, join(number_texts(indices@), ","@)), r)
            },
    {
        if indices.len() > 10_000 {
            return Err(NativeApiError::InvalidConfiguration("too many selected files"));
        }
        self.with("select-file", join_numbers(indices), validate)
    }

    /// Names for files, by ascending number.
    pub fn file_names<V: Fn(&Vec<TextPair>) -> Option<HttpControlError>>(self, names: &Vec<FileName>, validate: V) -> (r:
        Result<Self, NativeApiError>)
        requires
            ascending_files(names@),
            forall|list: &Vec<TextPair>| #[trigger] validate.requires((list,)),
        ensures
            if name_bytes(names@) > 65536 || names@.len() > 10_000 {
                r == Err::<Self, NativeApiError>(NativeApiError::InvalidConfiguration("file mapping is too large"))
            } else {
                judged(validate, with_one(self@, "index-out"@, join(name_texts(names@), "\n"@)), r)
            },
    {
        if count_names(names) > 65536 || names.len() > 10_000 {
            return Err(NativeApiError::InvalidConfiguration("file mapping is too large"));
        }
        self.with("index-out", join_names(names), validate)
    }

    pub fn trackers<V: Fn(&Vec<TextPair>) -> Option<HttpControlError>>(
        self,
        add: &Vec<String>,
        exclude: &Vec<String>,
        validate: V,
    ) -> (r: Result<Self, NativeApiError>)
        requires
            forall|list: &Vec<TextPair>| #[trigger] validate.requires((list,)),
        ensures
            if !trackers_fit(add@) || !trackers_fit(exclude@) {
                r == Err::<Self, NativeApiError>(NativeApiError::InvalidConfiguration("tracker list is too large"))
            } else {
                judged(validate, with_trackers(self@, add@, exclude@), r)
            },
    {
        if !check_trackers(add) || !check_trackers(exclude) {
            return Err(NativeApiError::InvalidConfiguration("tracker list is too large"));
        }
        let mut values = self.values;
        if add.len() > 0 {
            let pair = TextPair { name: "bt-tracker".to_owned(), value: join_texts(add) };
            assert(pair@ =~= (PairView { name: "bt-tracker"@, value: join(texts_of(add@), ","@) }));
            values = put_pair(values, pair);
        }
        if exclude.len() > 0 {
            let pair = TextPair { name: "bt-exclude-tracker".to_owned(), value: join_texts(exclude) };
            assert(pair@ =~= (PairView { name: "bt-exclude-tracker"@, value: join(texts_of(exclude@), ","@) }));
            values = put_pair(values, pair);
        }
        Self::from_pairs(values, validate)
    }

    pub fn checkpoint<V: Fn(&Vec<TextPair>) -> Option<HttpControlError>>(
        self,
        bytes: usize,
        timeout: Span,
        validate: V,
    ) -> (r: Result<Self, NativeApiError>)
        requires
            forall|list: &Vec<TextPair>| #[trigger] validate.requires((list,)),
        ensures
            if timeout.nanos != 0 {
                r == Err::<Self, NativeApiError>(
                    NativeApiError::InvalidConfiguration("checkpoint timeout must be whole seconds"),
                )
            } else {
                judged(
                    validate,
                    with_one(
                        with_one(self@, "bt-resume-data-limit"@, decimal_digits(bytes as nat)),
                        "bt-resume-timeout"@,
                        decimal_digits(timeout.seconds as nat),
                    ),
                    r,
                )
            },
    {
        if timeout.nanos != 0 {
            return Err(NativeApiError::InvalidConfiguration("checkpoint timeout must be whole seconds"));
        }
        self.with_two(
            ("bt-resume-data-limit", decimal_text(bytes as u64)),
            ("bt-resume-timeout", decimal_text(timeout.seconds)),
            validate,
        )
    }

    /// What the settings take when they are sent. Texts are counted with the room
    /// that they have, which is at least their bytes.
    pub fn input_bytes(&self) -> (r: usize)
        ensures
            exists|rooms: Seq<SettingRoom>| #[trigger] rooms_hold(rooms, self@) && r == settings_bytes(rooms),
    {
        let mut rooms: Vec<SettingRoom> = Vec::new();
        let mut i: usize = 0;
        while i < self.values.len()
            invariant
                i <= self.values.len(),
                rooms_hold(rooms@, self@.take(i as int)),
            decreases self.values.len() - i,
        {
            let room = SettingRoom {
                name: text_capacity(&self.values[i].name),
                value: text_capacity(&self.values[i].value),
            };
            let ghost before = rooms@;
            rooms.push(room);
            assert(self@[i as int] == self.values@[i as int]@);
            assert(rooms_hold(rooms@, self@.take(i as int + 1))) by {
                assert forall|k: int| 0 <= k < rooms@.len() implies (#[trigger] rooms@[k]).holds(
                    self@.take(i as int + 1)[k],
                ) by {
                    if k < i {
                        assert(before[k].holds(self@.take(i as int)[k]));
                    }
                }
            }
            i = i + 1;
        }
        assert(self@.take(i as int) =~= self@);
        settings_input_bytes(&rooms)
    }

    /// The settings, to be sent.
    pub fn into_value(self) -> (r: Vec<TextPair>)
        ensures
            pair_views(r@) == self@,
    {
        self.values
    }

    /// The settings as they are sent.
    pub fn value(&self) -> (r: &Vec<TextPair>)
        ensures
            pair_views(r@) == self@,
    {
        &self.values
    }
}

/// The room that a setting has for its name and its value.
#[derive(Clone, Copy, Debug, PartialEq, Eq, Structural)]
pub struct SettingRoom {
    pub name: usize,
    pub value: usize,
}

impl SettingRoom {
    /// A text never has less room than it needs.
    pub open spec fn holds(self, setting: PairView) -> bool {
        self.name >= byte_len(setting.name) && self.value >= byte_len(setting.value)
    }
}

/// Whether every setting has its room.
pub open spec fn rooms_hold(rooms: Seq<SettingRoom>, settings: Seq<PairView>) -> bool {
    rooms.len() == settings.len() && forall|i: int|
        0 <= i < rooms.len() ==> (#[trigger] rooms[i]).holds(settings[i])
}

/// What rooms come to, with something on top of each.
pub open spec fn rooms_bytes(rooms: Seq<SettingRoom>) -> int
    decreases rooms.len(),
{
    if rooms.len() == 0 {
        0
    } else {
        rooms_bytes(rooms.drop_last()) + rooms.last().name + rooms.last().value + 512
    }
}

/// What settings with such rooms take when they are sent.
pub open spec fn settings_bytes(rooms: Seq<SettingRoom>) -> int {
    capped(8192 + rooms_bytes(rooms))
}

/// What settings with such rooms take when they are sent.
pub fn settings_input_bytes(rooms: &Vec<SettingRoom>) -> (r: usize)
    ensures
        r == settings_bytes(rooms@),
{
    let mut bytes: usize = 8192;
    let mut i: usize = 0;
    while i < rooms.len()
        invariant
            i <= rooms.len(),
            bytes == capped(8192 + rooms_bytes(rooms@.take(i as int))),
            rooms_bytes(rooms@.take(i as int)) >= 0,
        decreases rooms.len() - i,
    {
        assert(rooms@.take(i as int + 1).drop_last() =~= rooms@.take(i as int));
        bytes = bytes.saturating_add(rooms[i].name).saturating_add(rooms[i].value).saturating_add(512);
        i = i + 1;
    }
    assert(rooms@.take(i as int) =~= rooms@);
    bytes
}

/// A setting made twice holds as it was made last, and leaves the others alone.
pub proof fn law_last_setting_holds(settings: Seq<PairView>, name: Seq<char>, first: Seq<char>, last: Seq<char>)
    ensures
        with_one(with_one(settings, name, first), name, last) == with_one(settings, name, last),
{
    let one = with_one(settings, name, first);
    lemma_pair_of(settings, name, 0);
    lemma_pair_of(one, name, 0);
    match pair_of(settings, name, 0) {
        Some(i) => {
            assert(one[i].name == name);
            lemma_pair_of(one, name, 0);
            assert(pair_of(one, name, 0) == Some(i)) by {
                let k = pair_of(one, name, 0)->0;
                assert(k <= i);
                if k < i {
                    assert(one[k] == settings[k]);
                }
            }
            assert(one.update(i, PairView { name, value: last }) =~= settings.update(
                i,
                PairView { name, value: last },
            ));
        },
        None => {
            let n = settings.len() as int;
            assert(one[n].name == name);
            assert(pair_of(one, name, 0) == Some(n)) by {
                let k = pair_of(one, name, 0)->0;
                if k < n {
                    assert(one[k] == settings[k]);
                }
            }
            assert(one.update(n, PairView { name, value: last }) =~= settings.push(
                PairView { name, value: last },
            ));
        },
    }
}

/// Settings that were accepted stay within what a task may set.
pub proof fn law_accepted_settings_are_bounded(settings: Seq<PairView>)
    requires
        acceptable_pairs(settings, task_limits()),
    ensures
        settings.len() <= 64,
        distinct_names(settings),
        value_under(settings, "dir"@) is None,
{
    lemma_pair_of(settings, "dir"@, 0);
}

/// A torrent to download.
pub struct AddTorrent {
    pub bytes: Vec<u8>,
    pub web_seeds: Vec<String>,
    pub options: BitTorrentOptions,
    pub position: Option<i64>,
}

/// A magnet link to download.
pub struct AddMagnet {
    pub uri: String,
    pub options: BitTorrentOptions,
    pub position: Option<i64>,
}

} // verus!
