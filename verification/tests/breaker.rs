use zeroclaw::breaker::{BreakerConfig, BreakerRegistry, BreakerState};

const NANOS: u128 = 1_000_000_000;

#[test]
fn fresh_registry_has_no_state_and_is_closed() {
    let mut reg = BreakerRegistry::new(5, 30);
    assert!(reg.get_state("openai").is_none());
    assert!(!reg.is_open("openai"));
    assert!(reg.try_acquire("openai"));
    assert!(reg.get_state("openai").is_none());
    assert!(reg.get_all_states().is_empty());
    let cfg = reg.get_config();
    assert_eq!(cfg, BreakerConfig { failure_threshold: 5, cooldown_secs: 30 });
}

#[test]
fn repeated_failures_open_at_threshold() {
    let mut reg = BreakerRegistry::new(3, 30);
    reg.record_failure("p");
    reg.record_failure("p");
    assert!(!reg.is_open("p"));
    assert_eq!(reg.get_state("p").unwrap().failures, 2);
    reg.record_failure("p");
    assert!(reg.is_open("p"));
    assert!(!reg.try_acquire("p"));
    let st = reg.get_state("p").unwrap();
    assert_eq!(st.failures, 3);
    assert_eq!(st.total_trips, 1);
    assert_eq!(st.total_rejections, 2);
}

#[test]
fn failure_times_are_recorded() {
    let mut reg = BreakerRegistry::new(3, 30);
    reg.increment_failure_at("p", 100);
    reg.increment_failure_at("p", 250);
    let st = reg.get_state("p").unwrap();
    assert_eq!(st.failures, 2);
    assert_eq!(st.first_failure, Some(100));
    assert_eq!(st.last_failure, Some(250));
    assert_eq!(st.cooldown_until, None);
}

#[test]
fn cooldown_window_counts_one_trip() {
    let mut reg = BreakerRegistry::new(1, 30);
    reg.increment_failure_at("p", 0);
    assert!(reg.is_open_at("p", 1_000));
    let st = reg.get_state("p").unwrap();
    assert_eq!(st.total_trips, 1);
    assert_eq!(st.cooldown_until, Some(1_000 + 30 * NANOS));
    // Inside the cooldown: rejected, no new trip, deadline kept.
    assert!(reg.is_open_at("p", 5_000_000_000));
    let st = reg.get_state("p").unwrap();
    assert_eq!(st.total_trips, 1);
    assert_eq!(st.total_rejections, 2);
    assert_eq!(st.cooldown_until, Some(1_000 + 30 * NANOS));
    // After the cooldown: one recovery probe goes through, nothing counted.
    let later: u64 = 31_000_000_000;
    assert!(!reg.is_open_at("p", later));
    let st = reg.get_state("p").unwrap();
    assert_eq!(st.total_trips, 1);
    assert_eq!(st.total_rejections, 2);
    assert_eq!(st.cooldown_until, None);
    // Without a success, the next check trips the breaker again.
    assert!(reg.is_open_at("p", later + 1));
    let st = reg.get_state("p").unwrap();
    assert_eq!(st.total_trips, 2);
    assert_eq!(st.total_rejections, 3);
    assert_eq!(st.cooldown_until, Some(later as u128 + 1 + 30 * NANOS));
}

#[test]
fn recovery_probe_success_restores_traffic() {
    let mut reg = BreakerRegistry::new(2, 1);
    reg.increment_failure_at("p", 0);
    reg.increment_failure_at("p", 10);
    assert!(reg.is_open_at("p", 100));
    assert!(reg.is_open_at("p", 100 + 999_999_999));
    // The cooldown has run out exactly at its deadline: the probe passes.
    assert!(!reg.is_open_at("p", 100 + 1_000_000_000));
    reg.record_success("p");
    assert!(!reg.is_open_at("p", 2_000_000_000));
    assert!(reg.try_acquire("p"));
    let st = reg.get_state("p").unwrap();
    assert_eq!(st.failures, 0);
    assert_eq!(st.total_trips, 1);
}

#[test]
fn failed_probe_retrips() {
    let mut reg = BreakerRegistry::new(1, 1);
    reg.increment_failure_at("p", 0);
    assert!(reg.is_open_at("p", 0));
    assert!(!reg.is_open_at("p", 5_000_000_000));
    reg.increment_failure_at("p", 5_000_000_001);
    assert!(reg.is_open_at("p", 5_000_000_002));
    let st = reg.get_state("p").unwrap();
    assert_eq!(st.failures, 2);
    assert_eq!(st.total_trips, 2);
    assert_eq!(st.cooldown_until, Some(5_000_000_002u128 + 1_000_000_000));
}

#[test]
fn success_closes_breaker() {
    let mut reg = BreakerRegistry::new(2, 30);
    reg.record_failure("p");
    reg.record_failure("p");
    assert!(reg.is_open("p"));
    reg.record_success("p");
    let st = reg.get_state("p").unwrap();
    assert_eq!(st.failures, 0);
    assert_eq!(st.cooldown_until, None);
    assert_eq!(st.total_trips, 1);
    assert!(!reg.is_open("p"));
    assert!(reg.try_acquire("p"));
}

#[test]
fn success_of_unknown_provider_creates_nothing() {
    let mut reg = BreakerRegistry::new(2, 30);
    reg.record_success("ghost");
    assert!(reg.get_state("ghost").is_none());
}

#[test]
fn zero_threshold_opens_any_known_provider() {
    let mut reg = BreakerRegistry::new(0, 1);
    assert!(!reg.is_open("p"));
    reg.record_failure("p");
    reg.record_success("p");
    assert!(reg.is_open("p"));
}

#[test]
fn reset_forgets_one_provider() {
    let mut reg = BreakerRegistry::new(1, 30);
    reg.record_failure("a");
    reg.record_failure("b");
    assert!(reg.is_open("a"));
    reg.reset("a");
    assert!(reg.get_state("a").is_none());
    assert!(!reg.is_open("a"));
    assert!(reg.get_state("b").is_some());
    assert_eq!(reg.get_all_states().len(), 1);
}

#[test]
fn reset_all_forgets_everything() {
    let mut reg = BreakerRegistry::new(1, 30);
    reg.record_failure("a");
    reg.record_failure("b");
    reg.reset_all();
    assert!(reg.get_all_states().is_empty());
    assert!(!reg.is_open("a"));
    assert!(!reg.is_open("b"));
}

#[test]
fn providers_are_independent() {
    let mut reg = BreakerRegistry::new(2, 30);
    reg.record_failure("a");
    reg.record_failure("a");
    reg.record_failure("b");
    assert!(reg.is_open("a"));
    assert!(!reg.is_open("b"));
    let all = reg.get_all_states();
    assert_eq!(all.len(), 2);
    let a = all.iter().find(|(k, _)| k == "a").unwrap();
    assert_eq!(a.1.failures, 2);
    let b = all.iter().find(|(k, _)| k == "b").unwrap();
    assert_eq!(b.1.failures, 1);
    assert_eq!(b.1.total_rejections, 0);
}

#[test]
fn config_setters_change_only_config() {
    let mut reg = BreakerRegistry::with_config(BreakerConfig { failure_threshold: 4, cooldown_secs: 10 });
    reg.record_failure("p");
    reg.set_threshold(1);
    assert_eq!(reg.get_config(), BreakerConfig { failure_threshold: 1, cooldown_secs: 10 });
    reg.set_cooldown(99);
    assert_eq!(reg.get_config(), BreakerConfig { failure_threshold: 1, cooldown_secs: 99 });
    assert_eq!(reg.get_state("p").unwrap().failures, 1);
    assert!(reg.is_open("p"));
}

#[test]
fn defaults_are_zero() {
    let cfg = BreakerConfig::default();
    assert_eq!(cfg.failure_threshold, 0);
    assert_eq!(cfg.cooldown_secs, 0);
    let st = BreakerState::default();
    assert_eq!(st.failures, 0);
    assert_eq!(st.first_failure, None);
    assert_eq!(st.last_failure, None);
    assert_eq!(st.cooldown_until, None);
    assert_eq!(st.total_trips, 0);
    assert_eq!(st.total_rejections, 0);
    let reg = BreakerRegistry::default();
    assert_eq!(reg.get_config(), BreakerConfig { failure_threshold: 0, cooldown_secs: 0 });
    assert!(reg.get_all_states().is_empty());
}

#[test]
fn room_check_covers_only_counted_branches() {
    let mut reg = BreakerRegistry::new(1, 1);
    assert!(reg.check_has_room("p"));
    reg.increment_failure_at("p", 0);
    assert!(reg.check_has_room("p"));
    assert!(reg.is_open_at("p", 0));
    assert!(reg.check_has_room("p"));
    reg.record_success("p");
    assert!(reg.check_has_room("p"));
}
