use std::sync::atomic::{AtomicBool, Ordering};
use std::sync::Arc;
use std::time::{Duration, UNIX_EPOCH};

use chute::alert::fire_timer_alert;
use chute::clock::{epoch_ms, epoch_ms_from_elapsed, MAX_CLOCK_MS};
use chute::timers::{
    active_timers_at, cancel_chute_timer, clamp_timer_seconds, list_chute_timers, next_timer_step,
    register_timer, seconds_until, start_chute_timer, TimerRegistry, TimerStep, MAX_TIMER_SECONDS,
};

fn flag() -> Arc<AtomicBool> {
    Arc::new(AtomicBool::new(false))
}

#[test]
fn timer_seconds_are_clamped_to_a_day() {
    assert_eq!(clamp_timer_seconds(0), 1);
    assert_eq!(clamp_timer_seconds(1), 1);
    assert_eq!(clamp_timer_seconds(1500), 1500);
    assert_eq!(clamp_timer_seconds(86400), 86400);
    assert_eq!(clamp_timer_seconds(86401), MAX_TIMER_SECONDS);
    assert_eq!(clamp_timer_seconds(u64::MAX), 86400);
}

#[test]
fn registered_timer_gets_its_id_and_is_listed_with_its_full_length() {
    let mut timers = TimerRegistry::new();
    let id = register_timer(&mut timers, 1_700_000_000_000, 1_700_000_000_005, 1500, "Focus".to_string(), flag());
    assert_eq!(id, "t1700000000000");
    assert!(timers.contains(&id));
    let listed = active_timers_at(&timers, 1_700_000_000_005);
    assert_eq!(listed.len(), 1);
    assert_eq!(listed[0].id, "t1700000000000");
    assert_eq!(listed[0].label, "Focus");
    assert_eq!(listed[0].remaining_seconds, 1500);
}

#[test]
fn zero_and_huge_lengths_are_clamped_when_registered() {
    let mut timers = TimerRegistry::new();
    register_timer(&mut timers, 1, 10_000, 0, "short".to_string(), flag());
    register_timer(&mut timers, 2, 10_000, 10_000_000, "long".to_string(), flag());
    let listed = active_timers_at(&timers, 10_000);
    assert_eq!(listed.len(), 2);
    assert_eq!((listed[0].label.as_str(), listed[0].remaining_seconds), ("short", 1));
    assert_eq!((listed[1].label.as_str(), listed[1].remaining_seconds), ("long", 86400));
}

#[test]
fn listing_is_soonest_first_and_rounds_toward_zero() {
    let mut timers = TimerRegistry::new();
    register_timer(&mut timers, 3, 0, 300, "c".to_string(), flag());
    register_timer(&mut timers, 1, 0, 100, "a".to_string(), flag());
    register_timer(&mut timers, 2, 0, 200, "b".to_string(), flag());
    let listed = active_timers_at(&timers, 50_500);
    let order: Vec<(&str, i64)> = listed.iter().map(|t| (t.label.as_str(), t.remaining_seconds)).collect();
    assert_eq!(order, vec![("a", 49), ("b", 149), ("c", 249)]);
    let late = active_timers_at(&timers, 101_500);
    assert_eq!(late[0].label, "a");
    assert_eq!(late[0].remaining_seconds, -1);
}

#[test]
fn seconds_until_truncates_toward_zero() {
    assert_eq!(seconds_until(1_999, 0), 1);
    assert_eq!(seconds_until(2_000, 0), 2);
    assert_eq!(seconds_until(1_000, 2_500), -1);
    assert_eq!(seconds_until(1_000, 1_999), 0);
    assert_eq!(seconds_until(0, MAX_CLOCK_MS), -18_446_744_073_709_551_615i128 as i64);
}

#[test]
fn same_id_replaces_the_timer_kept_under_it() {
    let mut timers = TimerRegistry::new();
    let first = flag();
    register_timer(&mut timers, 7, 0, 60, "first".to_string(), first.clone());
    register_timer(&mut timers, 7, 1000, 120, "second".to_string(), flag());
    let listed = active_timers_at(&timers, 1000);
    assert_eq!(listed.len(), 1);
    assert_eq!(listed[0].id, "t7");
    assert_eq!(listed[0].label, "second");
    assert_eq!(listed[0].remaining_seconds, 120);
    assert!(!first.load(Ordering::Relaxed));
}

#[test]
fn cancel_drops_the_timer_and_raises_its_flag() {
    let mut timers = TimerRegistry::new();
    let cancel = flag();
    let id = register_timer(&mut timers, 42, 0, 60, "tea".to_string(), cancel.clone());
    register_timer(&mut timers, 43, 0, 90, "other".to_string(), flag());
    assert_eq!(cancel_chute_timer(&mut timers, id.clone()), Ok(()));
    assert!(cancel.load(Ordering::Relaxed));
    assert!(!timers.contains(&id));
    let listed = active_timers_at(&timers, 0);
    assert_eq!(listed.len(), 1);
    assert_eq!(listed[0].id, "t43");
}

#[test]
fn the_flag_given_at_registration_is_the_one_handed_back() {
    let mut timers = TimerRegistry::new();
    let cancel = flag();
    let id = register_timer(&mut timers, 11, 0, 30, "kept".to_string(), cancel.clone());
    let entry = timers.remove(&id).expect("the timer is kept");
    assert!(Arc::ptr_eq(&entry.cancel, &cancel));
}

#[test]
fn cancel_of_an_unknown_id_changes_nothing() {
    let mut timers = TimerRegistry::new();
    register_timer(&mut timers, 5, 0, 60, "x".to_string(), flag());
    assert_eq!(cancel_chute_timer(&mut timers, "t999".to_string()), Ok(()));
    assert_eq!(active_timers_at(&timers, 0).len(), 1);
}

#[test]
fn removing_a_fired_timer_hands_it_back() {
    let mut timers = TimerRegistry::new();
    let id = register_timer(&mut timers, 9, 0, 5, "done".to_string(), flag());
    let entry = timers.remove(&id).expect("the timer is kept");
    assert_eq!(entry.label, "done");
    assert_eq!(entry.fire_at_ms, 5_000);
    assert!(timers.remove(&id).is_none());
}

#[test]
fn started_timer_is_listed_now() {
    let mut timers = TimerRegistry::new();
    let id = start_chute_timer(&mut timers, 600, "pomodoro".to_string(), flag()).expect("always Ok");
    assert!(id.starts_with('t'));
    assert!(id[1..].parse::<u128>().is_ok());
    let listed = list_chute_timers(&timers);
    assert_eq!(listed.len(), 1);
    assert_eq!(listed[0].id, id);
    assert_eq!(listed[0].label, "pomodoro");
    assert!(listed[0].remaining_seconds >= 598 && listed[0].remaining_seconds <= 600);
}

#[test]
fn the_clock_reads_after_the_epoch() {
    let ms = epoch_ms();
    assert!(ms > 1_600_000_000_000);
    assert!(ms <= MAX_CLOCK_MS);
}

#[test]
fn clock_readings_before_the_epoch_count_as_zero() {
    let earlier = UNIX_EPOCH.duration_since(UNIX_EPOCH + Duration::from_secs(1));
    assert!(earlier.is_err());
    assert_eq!(epoch_ms_from_elapsed(earlier), 0);
    assert_eq!(epoch_ms_from_elapsed(Ok(Duration::from_micros(1_234_999))), 1_234);
}

#[test]
fn waiting_timer_steps() {
    assert_eq!(next_timer_step(true, 0, 10), TimerStep::Stop);
    assert_eq!(next_timer_step(true, 50_000, 10), TimerStep::Stop);
    assert_eq!(next_timer_step(false, 9_999, 10), TimerStep::Wait);
    assert_eq!(next_timer_step(false, 10_000, 10), TimerStep::Fire);
    assert_eq!(next_timer_step(false, 20_000, 10), TimerStep::Fire);
}

#[test]
fn alert_script_neutralises_quotes_and_backslashes() {
    let args = fire_timer_alert("Deep \"work\" \\ now");
    assert_eq!(args.len(), 2);
    assert_eq!(args[0], "-e");
    assert_eq!(
        args[1],
        "display notification \"Time's up\" with title \"Chute \u{2014} Deep 'work'   now\" sound name \"Glass\""
    );
}

#[test]
fn alert_script_for_a_plain_label() {
    let args = fire_timer_alert("Tea");
    assert_eq!(args[1], "display notification \"Time's up\" with title \"Chute — Tea\" sound name \"Glass\"");
}
