use hotline::limiter::{RateLimiter, SendVerdict};

#[test]
fn burst_first_ten_accepted_then_throttled() {
    let mut lim = RateLimiter::new();
    for t in 0..10u64 {
        assert_eq!(lim.on_attempt(t), SendVerdict::Accepted);
    }
    assert_eq!(lim.on_attempt(10), SendVerdict::Throttled);
    assert_eq!(lim.cooldown_deadline(), Some(10 + 10_000));
}

#[test]
fn attempts_during_cooldown_do_not_move_the_deadline() {
    let mut lim = RateLimiter::new();
    for t in 0..10u64 {
        assert_eq!(lim.on_attempt(t), SendVerdict::Accepted);
    }
    assert_eq!(lim.on_attempt(10), SendVerdict::Throttled);
    let recorded = lim.window_times().len();
    for t in [11u64, 500, 5_000, 10_009] {
        assert_eq!(lim.on_attempt(t), SendVerdict::CoolingDown { remaining_ms: 10_010 - t });
        assert_eq!(lim.cooldown_deadline(), Some(10_010));
        assert_eq!(lim.window_times().len(), recorded);
    }
}

#[test]
fn send_after_cooldown_starts_a_fresh_window() {
    let mut lim = RateLimiter::new();
    for t in 0..10u64 {
        assert_eq!(lim.on_attempt(t), SendVerdict::Accepted);
    }
    assert_eq!(lim.on_attempt(10), SendVerdict::Throttled);
    assert_eq!(lim.on_attempt(10_009), SendVerdict::CoolingDown { remaining_ms: 1 });
    assert_eq!(lim.on_attempt(10_011), SendVerdict::Accepted);
    assert_eq!(lim.window_times().as_slice(), &[10_011]);
    assert_eq!(lim.cooldown_deadline(), None);
}

#[test]
fn slow_sends_never_trip_the_limiter() {
    let mut lim = RateLimiter::new();
    for k in 0..30u64 {
        assert_eq!(lim.on_attempt(k * 6_000), SendVerdict::Accepted);
        assert_eq!(lim.window_times().len(), 1);
    }
}

#[test]
fn window_slides_out_old_attempts() {
    let mut lim = RateLimiter::new();
    for t in 0..10u64 {
        assert_eq!(lim.on_attempt(t), SendVerdict::Accepted);
    }
    // All ten early attempts are older than the window by now.
    assert_eq!(lim.on_attempt(6_000), SendVerdict::Accepted);
    assert_eq!(lim.window_times().as_slice(), &[6_000]);
}

#[test]
fn eleventh_in_window_throttles_even_when_spread() {
    let mut lim = RateLimiter::new();
    for t in 0..10u64 {
        assert_eq!(lim.on_attempt(t * 400), SendVerdict::Accepted);
    }
    assert_eq!(lim.on_attempt(4_000), SendVerdict::Throttled);
}
