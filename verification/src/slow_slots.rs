//! Bounded process policy shared by HTTP workers and the scheduler adapter.
use vstd::prelude::*;
use crate::control::HttpControlError;
use crate::options::{OptionMapView, OptionObject, OptionScalar, OptionValue};
use crate::session::{Generation, MonotonicInstant};
use crate::span::Span;
use crate::text::{
    chars_of, decimal_digits, decimal_text, law_decimal_round_trip, parse_unsigned, parsed_unsigned, same_text,
};

verus! {

#[derive(Clone, Copy, Debug, PartialEq, Eq, Structural)]
pub enum SlowSlotPolicy {
    Off,
    Demote,
    Pause,
}

impl Default for SlowSlotPolicy {
    fn default() -> (r: Self)
        ensures
            r == SlowSlotPolicy::Off,
    {
        SlowSlotPolicy::Off
    }
}

#[derive(Clone, Copy, Debug, PartialEq, Eq, Structural)]
pub enum RetryWaitSlotPolicy {
    Retain,
    Release,
    Auto,
}

impl Default for RetryWaitSlotPolicy {
    fn default() -> (r: Self)
        ensures
            r == RetryWaitSlotPolicy::Retain,
    {
        RetryWaitSlotPolicy::Retain
    }
}

/// Where a slow task goes back into its queue.
#[derive(Clone, Copy, Debug, PartialEq, Eq, Structural)]
pub enum SlowReadmissionPolicy {
    Front,
    OriginalPosition,
    Back,
}

#[derive(Clone, Copy, Debug, PartialEq, Eq, Structural)]
pub struct SlowSlotConfig {
    pub policy: SlowSlotPolicy,
    pub speed_limit: u64,
    pub grace_period: Span,
    pub min_active_time: Span,
    pub max_demotions: u32,
    pub readmit_after: Span,
    pub readmit_policy: SlowReadmissionPolicy,
    pub retry_wait: RetryWaitSlotPolicy,
}

impl Default for SlowSlotConfig {
    fn default() -> (r: Self)
        ensures
            r == default_config(),
    {
        SlowSlotConfig {
            policy: SlowSlotPolicy::Off,
            speed_limit: 0,
            grace_period: Span { seconds: 60, nanos: 0 },
            min_active_time: Span { seconds: 30, nanos: 0 },
            max_demotions: 3,
            readmit_after: Span { seconds: 60, nanos: 0 },
            readmit_policy: SlowReadmissionPolicy::OriginalPosition,
            retry_wait: RetryWaitSlotPolicy::Retain,
        }
    }
}

/// The policy of a process that was given none.
pub open spec fn default_config() -> SlowSlotConfig {
    SlowSlotConfig {
        policy: SlowSlotPolicy::Off,
        speed_limit: 0,
        grace_period: Span { seconds: 60, nanos: 0 },
        min_active_time: Span { seconds: 30, nanos: 0 },
        max_demotions: 3,
        readmit_after: Span { seconds: 60, nanos: 0 },
        readmit_policy: SlowReadmissionPolicy::OriginalPosition,
        retry_wait: RetryWaitSlotPolicy::Retain,
    }
}

pub open spec fn policy_code(policy: SlowSlotPolicy) -> Seq<char> {
    match policy {
        SlowSlotPolicy::Off => "off"@,
        SlowSlotPolicy::Demote => "demote"@,
        SlowSlotPolicy::Pause => "pause"@,
    }
}

pub open spec fn readmission_code(policy: SlowReadmissionPolicy) -> Seq<char> {
    match policy {
        SlowReadmissionPolicy::Front => "front"@,
        SlowReadmissionPolicy::OriginalPosition => "original-position"@,
        SlowReadmissionPolicy::Back => "back"@,
    }
}

pub open spec fn retry_wait_code(policy: RetryWaitSlotPolicy) -> Seq<char> {
    match policy {
        RetryWaitSlotPolicy::Retain => "true"@,
        RetryWaitSlotPolicy::Release => "false"@,
        RetryWaitSlotPolicy::Auto => "auto"@,
    }
}

/// A configuration as options.
pub open spec fn config_options(config: SlowSlotConfig) -> OptionMapView {
    OptionMapView::empty().insert("slow-slot-policy"@, OptionScalar::Text(policy_code(config.policy))).insert(
        "slow-slot-speed-limit"@,
        OptionScalar::Text(decimal_digits(config.speed_limit as nat)),
    ).insert(
        "slow-slot-grace-period"@,
        OptionScalar::Text(decimal_digits(config.grace_period.seconds as nat)),
    ).insert(
        "slow-slot-min-active-time"@,
        OptionScalar::Text(decimal_digits(config.min_active_time.seconds as nat)),
    ).insert(
        "slow-slot-max-demotions"@,
        OptionScalar::Text(decimal_digits(config.max_demotions as nat)),
    ).insert(
        "slow-slot-readmit-after"@,
        OptionScalar::Text(decimal_digits(config.readmit_after.seconds as nat)),
    ).insert(
        "slow-slot-readmit-policy"@,
        OptionScalar::Text(readmission_code(config.readmit_policy)),
    ).insert("retry-wait-consumes-slot"@, OptionScalar::Text(retry_wait_code(config.retry_wait)))
}

/// Whether a span is whole seconds and at most a day.
pub open spec fn whole_day(span: Span) -> bool {
    span.nanos == 0 && span.seconds <= 86400
}

/// Whether a configuration is within its bounds and loses nothing as options.
pub open spec fn config_fits(config: SlowSlotConfig) -> bool {
    &&& whole_day(config.grace_period) && config.grace_period.seconds > 0
    &&& whole_day(config.min_active_time)
    &&& whole_day(config.readmit_after) && config.readmit_after.seconds > 0
    &&& 1 <= config.max_demotions <= 1024
}

/// The text that an option is bound to.
pub open spec fn option_text(options: OptionMapView, name: Seq<char>) -> Option<Seq<char>> {
    if options.contains_key(name) {
        match options[name] {
            OptionScalar::Text(text) => Some(text),
            _ => None,
        }
    } else {
        None
    }
}

/// The number that an option gives, or a default; `None` where it gives none.
pub open spec fn option_number(options: OptionMapView, name: Seq<char>, default: int) -> Option<int> {
    match option_text(options, name) {
        Some(text) => parsed_unsigned(text, u64::MAX as int),
        None => Some(default),
    }
}

pub open spec fn policy_named(name: Option<Seq<char>>) -> Option<SlowSlotPolicy> {
    match name {
        None => Some(SlowSlotPolicy::Off),
        Some(name) => if name == "off"@ {
            Some(SlowSlotPolicy::Off)
        } else if name == "demote"@ {
            Some(SlowSlotPolicy::Demote)
        } else if name == "pause"@ {
            Some(SlowSlotPolicy::Pause)
        } else {
            None
        },
    }
}

pub open spec fn readmission_named(name: Option<Seq<char>>) -> Option<SlowReadmissionPolicy> {
    match name {
        None => Some(SlowReadmissionPolicy::OriginalPosition),
        Some(name) => if name == "front"@ {
            Some(SlowReadmissionPolicy::Front)
        } else if name == "original-position"@ {
            Some(SlowReadmissionPolicy::OriginalPosition)
        } else if name == "back"@ {
            Some(SlowReadmissionPolicy::Back)
        } else {
            None
        },
    }
}

pub open spec fn retry_wait_named(name: Option<Seq<char>>) -> Option<RetryWaitSlotPolicy> {
    match name {
        None => Some(RetryWaitSlotPolicy::Retain),
        Some(name) => if name == "true"@ {
            Some(RetryWaitSlotPolicy::Retain)
        } else if name == "false"@ {
            Some(RetryWaitSlotPolicy::Release)
        } else if name == "auto"@ {
            Some(RetryWaitSlotPolicy::Auto)
        } else {
            None
        },
    }
}

/// The configuration that options spell, if they spell one within its bounds.
pub open spec fn spelled_config(options: OptionMapView) -> Option<SlowSlotConfig> {
    match (
        policy_named(option_text(options, "slow-slot-policy"@)),
        readmission_named(option_text(options, "slow-slot-readmit-policy"@)),
        retry_wait_named(option_text(options, "retry-wait-consumes-slot"@)),
        option_number(options, "slow-slot-speed-limit"@, 0),
        option_number(options, "slow-slot-grace-period"@, 60),
        option_number(options, "slow-slot-min-active-time"@, 30),
        option_number(options, "slow-slot-max-demotions"@, 3),
        option_number(options, "slow-slot-readmit-after"@, 60),
    ) {
        (
            Some(policy),
            Some(readmit_policy),
            Some(retry_wait),
            Some(speed_limit),
            Some(grace),
            Some(active),
            Some(demotions),
            Some(readmit),
        ) => {
            let config = SlowSlotConfig {
                policy,
                speed_limit: speed_limit as u64,
                grace_period: Span { seconds: grace as u64, nanos: 0 },
                min_active_time: Span { seconds: active as u64, nanos: 0 },
                max_demotions: demotions as u32,
                readmit_after: Span { seconds: readmit as u64, nanos: 0 },
                readmit_policy,
                retry_wait,
            };
            if demotions <= u32::MAX && config_fits(config) {
                Some(config)
            } else {
                None
            }
        },
        _ => None,
    }
}

fn find_text<'a>(options: &'a OptionObject, name: &str) -> (r: Option<&'a str>)
    ensures
        (match r {
            Some(text) => Some(text@),
            None => None,
        }) == option_text(options@, name@),
{
    match options.get(name) {
        Some(OptionValue::Text(text)) => Some(text.as_str()),
        _ => None,
    }
}

fn find_number(options: &OptionObject, name: &str, default: u64) -> (r: Option<u64>)
    ensures
        (match r {
            Some(v) => Some(v as int),
            None => None,
        }) == option_number(options@, name@, default as int),
{
    match find_text(options, name) {
        Some(text) => parse_unsigned(&chars_of(text), u64::MAX),
        None => Some(default),
    }
}

impl SlowSlotConfig {
    /// The configuration as options.
    pub fn options(self) -> (r: OptionObject)
        ensures
            r@ == config_options(self),
            r.valid(),
    {
        let mut options = OptionObject::new();
        let policy = match self.policy {
            SlowSlotPolicy::Off => "off",
            SlowSlotPolicy::Demote => "demote",
            SlowSlotPolicy::Pause => "pause",
        };
        options.insert("slow-slot-policy".to_owned(), OptionValue::Text(policy.to_owned()));
        options.insert("slow-slot-speed-limit".to_owned(), OptionValue::Text(decimal_text(self.speed_limit)));
        options.insert(
            "slow-slot-grace-period".to_owned(),
            OptionValue::Text(decimal_text(self.grace_period.seconds)),
        );
        options.insert(
            "slow-slot-min-active-time".to_owned(),
            OptionValue::Text(decimal_text(self.min_active_time.seconds)),
        );
        options.insert(
            "slow-slot-max-demotions".to_owned(),
            OptionValue::Text(decimal_text(self.max_demotions as u64)),
        );
        options.insert(
            "slow-slot-readmit-after".to_owned(),
            OptionValue::Text(decimal_text(self.readmit_after.seconds)),
        );
        let readmission = match self.readmit_policy {
            SlowReadmissionPolicy::Front => "front",
            SlowReadmissionPolicy::OriginalPosition => "original-position",
            SlowReadmissionPolicy::Back => "back",
        };
        options.insert("slow-slot-readmit-policy".to_owned(), OptionValue::Text(readmission.to_owned()));
        let retry_wait = match self.retry_wait {
            RetryWaitSlotPolicy::Retain => "true",
            RetryWaitSlotPolicy::Release => "false",
            RetryWaitSlotPolicy::Auto => "auto",
        };
        options.insert("retry-wait-consumes-slot".to_owned(), OptionValue::Text(retry_wait.to_owned()));
        options
    }

    pub fn validate(self) -> (r: Result<Self, HttpControlError>)
        ensures
            r == (if config_fits(self) {
                Ok::<Self, HttpControlError>(self)
            } else {
                Err::<Self, HttpControlError>(HttpControlError::InvalidConfig)
            }),
    {
        if self.grace_period.seconds == 0 || self.grace_period.nanos != 0 || self.grace_period.seconds > 86400
            || self.min_active_time.nanos != 0 || self.min_active_time.seconds > 86400
            || self.readmit_after.seconds == 0 || self.readmit_after.nanos != 0 || self.readmit_after.seconds
            > 86400 || self.max_demotions == 0 || self.max_demotions > 1024 {
            return Err(HttpControlError::InvalidConfig);
        }
        Ok(self)
    }

    /// The configuration that options spell, with defaults for those that are absent.
    pub fn from_options(values: &OptionObject) -> (r: Result<Self, HttpControlError>)
        ensures
            r == (match spelled_config(values@) {
                Some(config) => Ok::<Self, HttpControlError>(config),
                None => Err::<Self, HttpControlError>(HttpControlError::InvalidConfig),
            }),
    {
        let policy = match find_text(values, "slow-slot-policy") {
            None => SlowSlotPolicy::Off,
            Some(name) => if same_text(name, "off") {
                SlowSlotPolicy::Off
            } else if same_text(name, "demote") {
                SlowSlotPolicy::Demote
            } else if same_text(name, "pause") {
                SlowSlotPolicy::Pause
            } else {
                return Err(HttpControlError::InvalidConfig);
            },
        };
        let readmit_policy = match find_text(values, "slow-slot-readmit-policy") {
            None => SlowReadmissionPolicy::OriginalPosition,
            Some(name) => if same_text(name, "front") {
                SlowReadmissionPolicy::Front
            } else if same_text(name, "original-position") {
                SlowReadmissionPolicy::OriginalPosition
            } else if same_text(name, "back") {
                SlowReadmissionPolicy::Back
            } else {
                return Err(HttpControlError::InvalidConfig);
            },
        };
        let retry_wait = match find_text(values, "retry-wait-consumes-slot") {
            None => RetryWaitSlotPolicy::Retain,
            Some(name) => if same_text(name, "true") {
                RetryWaitSlotPolicy::Retain
            } else if same_text(name, "false") {
                RetryWaitSlotPolicy::Release
            } else if same_text(name, "auto") {
                RetryWaitSlotPolicy::Auto
            } else {
                return Err(HttpControlError::InvalidConfig);
            },
        };
        match (
            find_number(values, "slow-slot-speed-limit", 0),
            find_number(values, "slow-slot-grace-period", 60),
            find_number(values, "slow-slot-min-active-time", 30),
            find_number(values, "slow-slot-max-demotions", 3),
            find_number(values, "slow-slot-readmit-after", 60),
        ) {
            (Some(speed_limit), Some(grace), Some(active), Some(demotions), Some(readmit)) => {
                if demotions > u32::MAX as u64 {
                    return Err(HttpControlError::InvalidConfig);
                }
                (SlowSlotConfig {
                    policy,
                    speed_limit,
                    grace_period: Span { seconds: grace, nanos: 0 },
                    min_active_time: Span { seconds: active, nanos: 0 },
                    max_demotions: demotions as u32,
                    readmit_after: Span { seconds: readmit, nanos: 0 },
                    readmit_policy,
                    retry_wait,
                }).validate()
            },
            _ => Err(HttpControlError::InvalidConfig),
        }
    }
}

/// A configuration within its bounds comes back from its options as it was.
pub proof fn law_scheduling_options_round_trip(config: SlowSlotConfig)
    requires
        config_fits(config),
    ensures
        spelled_config(config_options(config)) == Some(config),
{
    reveal_strlit("slow-slot-policy");
    reveal_strlit("slow-slot-speed-limit");
    reveal_strlit("slow-slot-grace-period");
    reveal_strlit("slow-slot-min-active-time");
    reveal_strlit("slow-slot-max-demotions");
    reveal_strlit("slow-slot-readmit-after");
    reveal_strlit("slow-slot-readmit-policy");
    reveal_strlit("retry-wait-consumes-slot");
    reveal_strlit("off");
    reveal_strlit("demote");
    reveal_strlit("pause");
    reveal_strlit("front");
    reveal_strlit("original-position");
    reveal_strlit("back");
    reveal_strlit("true");
    reveal_strlit("false");
    reveal_strlit("auto");
    assert("slow-slot-policy"@.len() == 16);
    assert("slow-slot-speed-limit"@.len() == 21);
    assert("slow-slot-grace-period"@.len() == 22);
    assert("slow-slot-min-active-time"@.len() == 25);
    assert("slow-slot-max-demotions"@.len() == 23);
    assert("slow-slot-readmit-after"@.len() == 23);
    assert("slow-slot-readmit-policy"@.len() == 24);
    assert("retry-wait-consumes-slot"@.len() == 24);
    assert("slow-slot-max-demotions"@[10] != "slow-slot-readmit-after"@[10]);
    assert("slow-slot-readmit-policy"@[0] != "retry-wait-consumes-slot"@[0]);
    assert("off"@.len() == 3);
    assert("demote"@.len() == 6);
    assert("pause"@.len() == 5);
    assert("front"@.len() == 5);
    assert("original-position"@.len() == 17);
    assert("back"@.len() == 4);
    assert("true"@.len() == 4);
    assert("false"@.len() == 5);
    assert("auto"@.len() == 4);
    assert("true"@[0] != "auto"@[0]);
    let options = config_options(config);
    assert(option_text(options, "slow-slot-policy"@) == Some(policy_code(config.policy)));
    assert(option_text(options, "slow-slot-readmit-policy"@) == Some(readmission_code(config.readmit_policy)));
    assert(option_text(options, "retry-wait-consumes-slot"@) == Some(retry_wait_code(config.retry_wait)));
    assert(policy_named(Some(policy_code(config.policy))) == Some(config.policy));
    assert(readmission_named(Some(readmission_code(config.readmit_policy))) == Some(config.readmit_policy));
    assert(retry_wait_named(Some(retry_wait_code(config.retry_wait))) == Some(config.retry_wait));
    let max = u64::MAX as int;
    law_decimal_round_trip(config.speed_limit as nat, max);
    law_decimal_round_trip(config.grace_period.seconds as nat, max);
    law_decimal_round_trip(config.min_active_time.seconds as nat, max);
    law_decimal_round_trip(config.max_demotions as nat, max);
    law_decimal_round_trip(config.readmit_after.seconds as nat, max);
    assert(option_number(options, "slow-slot-speed-limit"@, 0) == Some(config.speed_limit as int));
    assert(option_number(options, "slow-slot-grace-period"@, 60) == Some(config.grace_period.seconds as int));
    assert(option_number(options, "slow-slot-min-active-time"@, 30) == Some(
        config.min_active_time.seconds as int,
    ));
    assert(option_number(options, "slow-slot-max-demotions"@, 3) == Some(config.max_demotions as int));
    assert(option_number(options, "slow-slot-readmit-after"@, 60) == Some(config.readmit_after.seconds as int));
}

/// The scheduling policy in force.
#[derive(Clone, Copy, Debug, PartialEq, Eq, Structural)]
pub struct HttpSchedulingPolicy {
    pub config: SlowSlotConfig,
    pub all_active_idle: bool,
}

impl Default for HttpSchedulingPolicy {
    fn default() -> (r: Self)
        ensures
            r.config == default_config(),
            !r.all_active_idle,
    {
        HttpSchedulingPolicy { config: SlowSlotConfig::default(), all_active_idle: false }
    }
}

impl HttpSchedulingPolicy {
    pub fn config(&self) -> (r: SlowSlotConfig)
        ensures
            r == self.config,
    {
        self.config
    }

    pub fn replace(&mut self, config: SlowSlotConfig)
        ensures
            *final(self) == (HttpSchedulingPolicy { config, ..*old(self) }),
    {
        self.config = config;
    }

    pub fn set_all_active_idle(&mut self, idle: bool)
        ensures
            *final(self) == (HttpSchedulingPolicy { all_active_idle: idle, ..*old(self) }),
    {
        self.all_active_idle = idle;
    }

    /// Whether a retry that has to wait gives up its slot.
    pub fn release_retry_wait(&self, wait: Span) -> (r: bool)
        requires
            wait.valid(),
            self.config.readmit_after.valid(),
        ensures
            r == (match self.config.retry_wait {
                RetryWaitSlotPolicy::Retain => false,
                RetryWaitSlotPolicy::Release => true,
                RetryWaitSlotPolicy::Auto => wait.spec_nanos() >= self.config.readmit_after.spec_nanos()
                    || self.all_active_idle,
            }),
    {
        match self.config.retry_wait {
            RetryWaitSlotPolicy::Retain => false,
            RetryWaitSlotPolicy::Release => true,
            RetryWaitSlotPolicy::Auto => !self.config.readmit_after.longer_than(wait) || self.all_active_idle,
        }
    }
}

/// How often the speed of a transfer is looked at, in milliseconds.
pub const SLOW_SAMPLE_INTERVAL_MS: u64 = 100;

/// What was seen of the speed of a transfer.
#[derive(Clone, Copy, Debug, PartialEq, Eq, Structural)]
pub struct SlowObservation {
    pub generation: Generation,
    pub active_since: MonotonicInstant,
    pub slow_since: Option<MonotonicInstant>,
}

} // verus!
