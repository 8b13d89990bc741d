use txcv::rate_limit::{Acquire, Builder, LeakyBucket, NANOS_PER_SEC};

const MS: u64 = 1_000_000;

fn batch_bucket() -> LeakyBucket {
    LeakyBucket::builder().max(5).refill_interval(100 * MS).tokens(5).build()
}

#[test]
fn builder_defaults() {
    let b = Builder::new().build();
    assert_eq!(b.max(), 120);
    assert_eq!(b.tokens(), 0);
    assert_eq!(b.refill_interval(), NANOS_PER_SEC);
    assert_eq!(b.last_refill(), 0);
}

#[test]
fn builder_saturates_tokens_to_max() {
    let b = Builder::new().max(3).tokens(10).build();
    assert_eq!(b.max(), 3);
    assert_eq!(b.tokens(), 3);
}

#[test]
fn full_bucket_grants_capacity_then_waits_one_interval() {
    let mut b = batch_bucket();
    assert_eq!(b.try_acquire(5, 0), Acquire::Granted);
    assert_eq!(b.tokens(), 0);
    assert_eq!(b.try_acquire(1, 0), Acquire::WaitUntil(100 * MS));
    assert_eq!(b.tokens(), 0);
}

#[test]
fn refill_keeps_partial_interval() {
    let mut b = LeakyBucket::builder().max(5).refill_interval(100 * MS).tokens(0).build();
    assert_eq!(b.update_tokens(250 * MS), 2);
    assert_eq!(b.last_refill(), 200 * MS);
    // 50 ms carried over: one more whole interval at 300 ms.
    assert_eq!(b.update_tokens(299 * MS), 2);
    assert_eq!(b.update_tokens(300 * MS), 3);
    assert_eq!(b.last_refill(), 300 * MS);
}

#[test]
fn refill_caps_at_max() {
    let mut b = LeakyBucket::builder().max(5).refill_interval(100 * MS).tokens(1).build();
    assert_eq!(b.update_tokens(10 * NANOS_PER_SEC), 5);
    assert_eq!(b.last_refill(), 10 * NANOS_PER_SEC);
}

#[test]
fn waiting_acquire_succeeds_after_target() {
    let mut b = LeakyBucket::builder().max(5).refill_interval(100 * MS).tokens(0).build();
    assert_eq!(b.try_acquire(3, 30 * MS), Acquire::WaitUntil(300 * MS));
    assert_eq!(b.try_acquire(3, 300 * MS), Acquire::Granted);
    assert_eq!(b.tokens(), 0);
}

#[test]
fn tokens_stay_within_capacity_over_a_sequence() {
    let mut b = batch_bucket();
    let steps: [(u32, u64); 8] = [
        (2, 0),
        (3, 10 * MS),
        (1, 20 * MS),
        (1, 120 * MS),
        (5, 130 * MS),
        (0, 10 * NANOS_PER_SEC),
        (4, 10 * NANOS_PER_SEC),
        (5, 10 * NANOS_PER_SEC + MS),
    ];
    for (amount, now) in steps {
        b.try_acquire(amount, now);
        assert!(b.tokens() <= b.max());
    }
}

#[test]
fn two_debits_never_overdraw() {
    let mut b = LeakyBucket::builder().max(5).refill_interval(100 * MS).tokens(3).build();
    assert_eq!(b.try_acquire(2, 0), Acquire::Granted);
    // Only one token is left: the second debit of two must wait.
    assert_eq!(b.try_acquire(2, 50 * MS), Acquire::WaitUntil(100 * MS));
    assert_eq!(b.tokens(), 1);
}

#[test]
fn acquire_one_debits_one() {
    let mut b = batch_bucket();
    assert_eq!(b.try_acquire_one(0), Acquire::Granted);
    assert_eq!(b.tokens(), 4);
}

#[test]
fn builder_default_matches_new() {
    let b = Builder::default().build();
    assert_eq!(b.max(), 120);
    assert_eq!(b.tokens(), 0);
    assert_eq!(b.refill_interval(), NANOS_PER_SEC);
}

#[test]
fn wait_rounds_shortfall_up_to_whole_intervals() {
    let mut b = LeakyBucket::builder().max(5).refill_interval(100 * MS).tokens(1).build();
    // 4 short at 1 per interval: four intervals from the last refill.
    assert_eq!(b.try_acquire(5, 50 * MS), Acquire::WaitUntil(400 * MS));
    assert_eq!(b.try_acquire(5, 399 * MS), Acquire::WaitUntil(400 * MS));
    assert_eq!(b.try_acquire(5, 400 * MS), Acquire::Granted);
    assert_eq!(b.tokens(), 0);
    assert_eq!(b.last_refill(), 400 * MS);
}

#[test]
fn batch_bucket_starts_full() {
    let mut b = txcv::rate_limit::batch_bucket();
    assert_eq!(b.max(), 5);
    assert_eq!(b.tokens(), 5);
    assert_eq!(b.refill_interval(), 100 * MS);
    assert_eq!(b.try_acquire(5, 0), Acquire::Granted);
    assert_eq!(b.try_acquire(1, 0), Acquire::WaitUntil(100 * MS));
}
