use ariax_engine::slow_slots::{HttpSchedulingPolicy, RetryWaitSlotPolicy, SlowSlotConfig, SlowSlotPolicy};
use ariax_engine::span::Span;

#[test]
fn scheduling_options_round_trip_and_reject_lossy_or_unbounded_values() {
    for policy in [SlowSlotPolicy::Off, SlowSlotPolicy::Demote, SlowSlotPolicy::Pause] {
        for retry_wait in
            [RetryWaitSlotPolicy::Retain, RetryWaitSlotPolicy::Release, RetryWaitSlotPolicy::Auto]
        {
            let config = SlowSlotConfig { policy, retry_wait, ..SlowSlotConfig::default() };
            assert_eq!(SlowSlotConfig::from_options(&config.options()).unwrap(), config);
        }
    }
    for config in [
        SlowSlotConfig { grace_period: Span::from_secs(0), ..SlowSlotConfig::default() },
        SlowSlotConfig { grace_period: Span::from_millis(1500), ..SlowSlotConfig::default() },
        SlowSlotConfig { min_active_time: Span::from_millis(1), ..SlowSlotConfig::default() },
        SlowSlotConfig { readmit_after: Span::from_millis(1500), ..SlowSlotConfig::default() },
        SlowSlotConfig { max_demotions: 0, ..SlowSlotConfig::default() },
        SlowSlotConfig { readmit_after: Span::from_secs(86401), ..SlowSlotConfig::default() },
    ] {
        assert!(config.validate().is_err());
    }
    let mut shared = HttpSchedulingPolicy::default();
    assert!(!shared.release_retry_wait(Span::from_secs(86400)));
    shared.replace(SlowSlotConfig { retry_wait: RetryWaitSlotPolicy::Auto, ..SlowSlotConfig::default() });
    assert!(!shared.release_retry_wait(Span::from_secs(1)));
    assert!(shared.release_retry_wait(Span::from_secs(60)));
    shared.set_all_active_idle(true);
    assert!(shared.release_retry_wait(Span::from_secs(1)));
}
