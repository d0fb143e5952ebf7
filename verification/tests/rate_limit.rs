use tempdrop::rate_limit::RateLimiter;

#[test]
fn fixed_window_limits_per_minute() {
    let mut l = RateLimiter::new(3);
    let ip: u128 = 0xffff_7f00_0001;
    assert!(l.check(ip, 100));
    assert!(l.check(ip, 100));
    assert!(l.check(ip, 100));
    assert!(!l.check(ip, 100));
    assert!(l.check(ip, 160)); // new window
    assert!(l.check(ip, 161));
    l.prune(400);
    assert_eq!(l.len(), 0);
}

#[test]
fn clients_have_separate_windows() {
    let mut l = RateLimiter::new(1);
    assert!(l.check(1, 0));
    assert!(!l.check(1, 59));
    assert!(l.check(2, 59));
    assert_eq!(l.len(), 2);
    l.prune(120);
    assert_eq!(l.len(), 1); // the window that began at 0 is gone, the one at 59 stays
}

#[test]
fn zero_allowance_refuses_everything() {
    let mut l = RateLimiter::new(0);
    assert!(!l.check(9, 0));
    assert!(!l.check(9, 1000));
}

#[test]
fn other_clients_never_change_an_outcome() {
    let mut alone = RateLimiter::new(2);
    let mut busy = RateLimiter::new(2);
    let ip: u128 = 7;
    for now in [0i64, 10, 20, 70, 71, 72] {
        for other in 100u128..105 {
            let _ = busy.check(other, now);
        }
        assert_eq!(alone.check(ip, now), busy.check(ip, now), "at {now}");
    }
}

#[test]
fn refused_requests_do_not_extend_the_window() {
    let mut l = RateLimiter::new(1);
    assert!(l.check(5, 0));
    assert!(!l.check(5, 30));
    assert!(!l.check(5, 59));
    assert!(l.check(5, 60));
}

#[test]
fn interleaved_clients_get_what_their_own_calls_give() {
    let calls: [(u128, i64); 8] = [(1, 0), (2, 0), (1, 5), (2, 6), (1, 7), (3, 8), (1, 61), (2, 62)];
    let mut all = RateLimiter::new(2);
    let outcomes: Vec<bool> = calls.iter().map(|&(ip, t)| all.check(ip, t)).collect();
    for ip in [1u128, 2, 3] {
        let mut own = RateLimiter::new(2);
        for (k, &(c, t)) in calls.iter().enumerate() {
            if c == ip {
                assert_eq!(own.check(c, t), outcomes[k], "client {ip} at {t}");
            }
        }
    }
    assert_eq!(outcomes, vec![true, true, true, true, false, true, true, true]);
}
