use sikapa_execution::clock::{elapsed_ns, now_ms, now_ns, reduce_nanos, Clock};
use sikapa_execution::throttle::{TokenBucket, WINDOW_NS};
use std::time::{SystemTime, UNIX_EPOCH};

fn wall_ns() -> u64 {
    SystemTime::now().duration_since(UNIX_EPOCH).unwrap().as_nanos() as u64
}

#[test]
fn window_lets_the_limit_through() {
    let mut bucket = TokenBucket::new_at(3, 1_000);
    assert!(bucket.allow_at(1_000));
    assert!(bucket.allow_at(1_500));
    assert!(bucket.allow_at(2_000));
    assert!(!bucket.allow_at(2_500));
    assert!(!bucket.allow_at(1_000 + WINDOW_NS - 1));
    assert!(bucket.allow_at(1_000 + WINDOW_NS));
    assert_eq!(bucket.window_ns, 1_000 + WINDOW_NS);
    assert_eq!(bucket.tokens, 2);
}

#[test]
fn empty_limit_lets_nothing_through() {
    let mut bucket = TokenBucket::new_at(0, 0);
    assert!(!bucket.allow_at(0));
    assert!(!bucket.allow_at(5 * WINDOW_NS));
    assert_eq!(bucket.window_ns, 5 * WINDOW_NS);
}

#[test]
fn clock_set_back_starts_a_window() {
    let mut bucket = TokenBucket::new_at(1, 5 * WINDOW_NS);
    assert!(bucket.allow_at(5 * WINDOW_NS));
    assert!(!bucket.allow_at(5 * WINDOW_NS));
    assert!(bucket.allow_at(4 * WINDOW_NS));
    assert_eq!(bucket.window_ns, 4 * WINDOW_NS);
}

#[test]
fn bucket_on_the_wall_clock() {
    let before = wall_ns();
    let mut clock = Clock::new();
    let mut bucket = TokenBucket::new(2, &mut clock);
    assert_eq!(bucket.tokens, 2);
    assert_eq!(bucket.max_per_sec, 2);
    assert!(before <= bucket.window_ns && bucket.window_ns <= wall_ns());
    assert!(bucket.allow(&mut clock));
    bucket.tokens = 0;
    bucket.window_ns = before - 2 * WINDOW_NS;
    assert!(bucket.allow(&mut clock));
    assert!(before <= bucket.window_ns && bucket.window_ns <= wall_ns());
}

#[test]
fn rate_over_several_windows() {
    let mut bucket = TokenBucket::new_at(5, 0);
    let mut granted = 0;
    for step in 0..400u64 {
        if bucket.allow_at(step * WINDOW_NS / 100) {
            granted += 1;
        }
    }
    assert_eq!(granted, 20);
}

#[test]
fn spans() {
    assert_eq!(elapsed_ns(10, 25), 15);
    assert_eq!(elapsed_ns(25, 10), u64::MAX - 14);
    assert_eq!(reduce_nanos(None), 0);
    assert_eq!(reduce_nanos(Some(7)), 7);
    assert_eq!(reduce_nanos(Some((1u128 << 64) + 9)), 9);
}

#[test]
fn wall_clock() {
    let mut clock = Clock::new();
    let before = wall_ns();
    let ns = now_ns(&mut clock);
    assert_eq!(clock.last, ns);
    let ms = now_ms(&mut clock);
    assert_eq!(clock.last / 1_000_000, ms);
    let after = wall_ns();
    assert!(before <= ns && ns <= after);
    assert!(before / 1_000_000 <= ms && ms <= after / 1_000_000);
}

#[test]
fn clock_never_goes_back() {
    let mut clock = Clock::new();
    assert_eq!(clock.last, 0);
    assert_eq!(clock.advance(Some(50)), 50);
    assert_eq!(clock.advance(Some(20)), 50);
    assert_eq!(clock.advance(None), 50);
    assert_eq!(clock.advance(Some(51)), 51);
    let mut last = 0;
    for _ in 0..1000 {
        let now = now_ns(&mut clock);
        assert!(last <= now);
        last = now;
    }
    let mut ahead = Clock { last: u64::MAX };
    assert_eq!(now_ns(&mut ahead), u64::MAX);
    assert_eq!(now_ms(&mut ahead), u64::MAX / 1_000_000);
}
