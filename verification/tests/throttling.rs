use authenticator::utils::settings::{Authenticator, Blockchain};
use authenticator::utils::throttling::{clean, permission, AccessStatistics, Timestamp};

fn limits(amount: i64, window: i64) -> Blockchain {
    Blockchain {
        host: "http://localhost".to_string(),
        fetch_limit: 10,
        fetch_timeout: 1000,
        request_amount_limit: amount,
        request_total_amount_limit: 100,
        request_time_limit: window,
    }
}

fn at(secs: i64) -> Timestamp {
    Timestamp { secs, nanos: 0 }
}

#[test]
fn requests_beyond_the_limit_are_refused() {
    let mut stats = AccessStatistics::new();
    let name = "seedsuseraaa".to_string();
    let ip = "127.0.0.1".to_string();
    let l = limits(3, 60);
    let mut answers = Vec::new();
    for _ in 0..8 {
        answers.push(stats.permission_at(&name, &ip, at(1000), &l));
    }
    assert_eq!(answers, vec![true, true, true, false, false, false, false, false]);
    assert_eq!(stats.recorded(&"seedsuseraaa-127.0.0.1".to_string()), 8);
}

#[test]
fn old_requests_stop_counting() {
    let mut stats = AccessStatistics::new();
    let name = "alice".to_string();
    let ip = "10.0.0.1".to_string();
    let l = limits(1, 60);
    assert!(stats.permission_at(&name, &ip, at(0), &l));
    assert!(!stats.permission_at(&name, &ip, at(59), &l));
    // 61 s after the first and 2 s after the second: only the second still counts.
    assert!(!stats.permission_at(&name, &ip, at(61), &l));
    assert!(stats.permission_at(&name, &ip, at(200), &l));
}

#[test]
fn age_is_rounded_toward_zero() {
    let mut stats = AccessStatistics::new();
    let name = "bob".to_string();
    let ip = "::1".to_string();
    let l = limits(1, 1);
    assert!(stats.permission_at(&name, &ip, Timestamp { secs: 10, nanos: 0 }, &l));
    // 0.999999999 s later the first access is 0 whole seconds old: it counts.
    assert!(!stats.permission_at(&name, &ip, Timestamp { secs: 10, nanos: 999_999_999 }, &l));
    // A clock that went backwards gives negative ages, which count too.
    assert!(!stats.permission_at(&name, &ip, Timestamp { secs: 5, nanos: 0 }, &l));
}

#[test]
fn accounts_and_addresses_are_throttled_apart() {
    let mut stats = AccessStatistics::new();
    let l = limits(1, 60);
    assert!(stats.permission_at(&"alice".to_string(), &"1.1.1.1".to_string(), at(0), &l));
    assert!(stats.permission_at(&"alice".to_string(), &"2.2.2.2".to_string(), at(0), &l));
    assert!(stats.permission_at(&"carol".to_string(), &"1.1.1.1".to_string(), at(0), &l));
    assert!(!stats.permission_at(&"alice".to_string(), &"1.1.1.1".to_string(), at(0), &l));
}

#[test]
fn negative_limits_refuse_everything() {
    let mut stats = AccessStatistics::new();
    assert!(!stats.permission_at(&"a".to_string(), &"x".to_string(), at(0), &limits(-1, 60)));
    assert!(!stats.permission_at(&"a".to_string(), &"x".to_string(), at(0), &limits(0, 60)));
}

#[test]
fn cleaning_drops_only_old_accesses() {
    let mut stats = AccessStatistics::new();
    let l = limits(100, 60);
    let name = "alice".to_string();
    let ip = "1.1.1.1".to_string();
    stats.permission_at(&name, &ip, at(0), &l);
    stats.permission_at(&name, &ip, at(50), &l);
    stats.permission_at(&name, &ip, at(100), &l);
    stats.clean_at(at(105), 60);
    assert_eq!(stats.recorded(&"alice-1.1.1.1".to_string()), 2);
    stats.clean_at(at(1000), 60);
    assert_eq!(stats.recorded(&"alice-1.1.1.1".to_string()), 0);
}

#[test]
fn cleaning_with_a_longer_limit_keeps_decisions() {
    let l = limits(2, 60);
    let name = "alice".to_string();
    let ip = "1.1.1.1".to_string();
    let mut cleaned = AccessStatistics::new();
    let mut kept = AccessStatistics::new();
    for t in [0, 30, 70, 90] {
        cleaned.permission_at(&name, &ip, at(t), &l);
        kept.permission_at(&name, &ip, at(t), &l);
    }
    cleaned.clean_at(at(100), 120);
    assert_eq!(
        cleaned.permission_at(&name, &ip, at(100), &l),
        kept.permission_at(&name, &ip, at(100), &l)
    );
}

#[test]
fn permission_and_clean_read_the_clock() {
    let mut stats = AccessStatistics::new();
    let l = limits(1, 3600);
    let name = "alice".to_string();
    let ip = "1.1.1.1".to_string();
    assert!(permission(&mut stats, &name, &ip, &l));
    assert!(!permission(&mut stats, &name, &ip, &l));
    let settings = Authenticator {
        host: "127.0.0.1:8080".to_string(),
        throttling_repeater_time: 1000,
        throttling_old_entry: 3600,
    };
    clean(&mut stats, &settings);
    assert_eq!(stats.recorded(&"alice-1.1.1.1".to_string()), 2);
    let drop_all = Authenticator { throttling_old_entry: 0, ..settings };
    clean(&mut stats, &drop_all);
    assert_eq!(stats.recorded(&"alice-1.1.1.1".to_string()), 0);
}

#[test]
fn the_ith_request_of_a_window_is_allowed_iff_within_the_limit() {
    let mut stats = AccessStatistics::new();
    let name = "alice".to_string();
    let ip = "1.1.1.1".to_string();
    let l = limits(4, 60);
    let answers: Vec<bool> = (0..9).map(|i| stats.permission_at(&name, &ip, at(1000 + 5 * i), &l)).collect();
    assert_eq!(answers, vec![true, true, true, true, false, false, false, false, false]);
}
