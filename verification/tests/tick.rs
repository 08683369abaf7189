use kitu::error::KituError;
use kitu::tick::{Tick, Timestamp};
use std::time::Duration;

#[test]
fn tick_advances_monotonically() {
    let start = Tick::start();
    let next = start.next();
    assert_eq!(start.get(), 0);
    assert_eq!(next.get(), 1);
    assert!(next > start);
}

#[test]
fn timestamp_reports_elapsed_duration() {
    let frame_time = Duration::from_millis(16);
    let ts = Timestamp::new(Tick::start().advance_by(3), frame_time);
    assert_eq!(ts.elapsed(), frame_time * 3);
    assert_eq!(ts.tick(), Tick::start().advance_by(3));
}

#[test]
fn errors_display_meaningful_messages() {
    let not_impl = KituError::NotImplemented("feature".into()).to_string();
    let invalid = KituError::InvalidInput("bad").to_string();
    assert!(not_impl.contains("feature"));
    assert!(invalid.contains("bad"));
}

#[test]
fn two_steps_from_the_start_are_an_advance_by_two() {
    assert_eq!(Tick::start().next().next(), Tick::start().advance_by(2));
    assert_eq!(Tick::start().next().next().get(), 2);
}

#[test]
fn ticks_are_ordered_by_their_counter() {
    let early = Tick::start().advance_by(3);
    let late = Tick::start().advance_by(4);
    assert!(early < late);
    assert!(late >= early);
    assert_eq!(early.next(), late);
    assert_ne!(early, late);
    assert_eq!(early.advance_by(0), early);
}

#[test]
fn ticks_reach_the_largest_counter() {
    let last = Tick::start().advance_by(u64::MAX - 1).next();
    assert_eq!(last.get(), u64::MAX);
    assert_eq!(Tick::start().advance_by(u64::MAX), last);
}

#[test]
fn elapsed_is_frame_time_times_counter() {
    let frame_time = Duration::new(2, 500_000_000);
    let ts = Timestamp::new(Tick::start().advance_by(5), frame_time);
    assert_eq!(ts.elapsed(), Duration::new(12, 500_000_000));
    let at_start = Timestamp::new(Tick::start(), frame_time);
    assert_eq!(at_start.elapsed(), Duration::ZERO);
    let still = Timestamp::new(Tick::start().advance_by(9), Duration::ZERO);
    assert_eq!(still.elapsed(), Duration::ZERO);
}

#[test]
fn elapsed_counts_ticks_beyond_thirty_two_bits() {
    let ticks = 1u64 << 32;
    let ts = Timestamp::new(Tick::start().advance_by(ticks), Duration::from_nanos(1));
    assert_eq!(ts.elapsed(), Duration::new(4, 294_967_296));
    let more = Timestamp::new(Tick::start().advance_by(ticks + 1), Duration::from_secs(1));
    assert_eq!(more.elapsed(), Duration::from_secs(ticks + 1));
}

#[test]
fn elapsed_saturates_at_the_longest_duration() {
    let ts = Timestamp::new(Tick::start().advance_by(2), Duration::MAX);
    assert_eq!(ts.elapsed(), Duration::MAX);
    let once = Timestamp::new(Tick::start().advance_by(1), Duration::MAX);
    assert_eq!(once.elapsed(), Duration::MAX);
    let far = Timestamp::new(Tick::start().advance_by(u64::MAX), Duration::from_secs(2));
    assert_eq!(far.elapsed(), Duration::MAX);
    let near = Timestamp::new(Tick::start().advance_by(u64::MAX), Duration::from_secs(1));
    assert_eq!(near.elapsed(), Duration::from_secs(u64::MAX));
    let huge = Timestamp::new(Tick::start().advance_by(u64::MAX), Duration::MAX);
    assert_eq!(huge.elapsed(), Duration::MAX);
}

#[test]
fn error_messages_name_the_kind_and_the_detail() {
    assert_eq!(
        KituError::NotImplemented("feature".into()).to_string(),
        "not implemented: feature"
    );
    assert_eq!(KituError::InvalidInput("bad").to_string(), "invalid input: bad");
    assert_eq!(KituError::InvalidInput("").to_string(), "invalid input: ");
}
