use oxidized_wall::config::{
    BanConfig, Config, LimitConfig, NetworkConfig, RawConfig, TimeoutConfig,
};
use oxidized_wall::net::IpAddr;
use oxidized_wall::ratelimit::RateLimiter;

const S: u64 = 1_000_000_000;

fn with_limit(max_rps: u32) -> Config {
    Config::from_raw(RawConfig {
        network: NetworkConfig {
            http_addrs: Vec::new(),
            https_addrs: Vec::new(),
            max_connections: 10,
        },
        timeout: TimeoutConfig {
            c_tls_handshake: 1,
            c_header_read: 2,
            c_keep_alive_idle: 3,
            c_keep_alive_timeout: 4,
            c_body_timeout: 5,
            s_connect: 6,
            s_response: 7,
            s_websocket_idle: 8,
        },
        limit: LimitConfig {
            max_uri_size: 100,
            max_header_size: 1000,
            max_header_count: 10,
            max_body_size: 1000,
            c_h2_max_streams: 5,
            max_rps,
            max_bandwidth: 0,
        },
        ban: BanConfig { ban_timeout: 0, ban_protocol: 0, ban_waf: 0, ban_rate_limit: 0 },
        vhosts: Vec::new(),
    })
}

#[test]
fn quota_is_granted_and_then_refused() {
    let config = with_limit(3);
    let mut limiter = RateLimiter::new();
    let ip = IpAddr::V4(1);
    assert!(limiter.check(ip, &config, 10));
    assert!(limiter.check(ip, &config, 11));
    assert!(limiter.check(ip, &config, 12));
    assert!(!limiter.check(ip, &config, 13));
    assert!(!limiter.check(ip, &config, 9 + S));
    assert!(limiter.check(ip, &config, 10 + S));
}

#[test]
fn zero_limit_accepts_everything() {
    let config = with_limit(0);
    let mut limiter = RateLimiter::new();
    for now in 0..1000 {
        assert!(limiter.check(IpAddr::V4(1), &config, now));
    }
}

#[test]
fn clients_have_their_own_quota() {
    let config = with_limit(1);
    let mut limiter = RateLimiter::new();
    assert!(limiter.check(IpAddr::V4(1), &config, 0));
    assert!(!limiter.check(IpAddr::V4(1), &config, 1));
    assert!(limiter.check(IpAddr::V4(2), &config, 1));
    assert!(limiter.check(IpAddr::V6(1), &config, 1));
}

#[test]
fn burst_over_two_windows_is_at_most_twice_the_limit() {
    let config = with_limit(2);
    let mut limiter = RateLimiter::new();
    let ip = IpAddr::V4(1);
    assert!(limiter.check(ip, &config, 0));
    let mut accepted = 0;
    for now in [S - 5, S - 4, S - 3, S, S + 1, S + 2, S + 3] {
        if limiter.check(ip, &config, now) {
            accepted += 1;
        }
    }
    assert_eq!(accepted, 3);
}

#[test]
fn earlier_moment_does_not_reset() {
    let config = with_limit(1);
    let mut limiter = RateLimiter::new();
    let ip = IpAddr::V4(1);
    assert!(limiter.check(ip, &config, 5 * S));
    assert!(!limiter.check(ip, &config, 0));
}

#[test]
fn cleanup_drops_inactive_clients_only() {
    let config = with_limit(1);
    let mut limiter = RateLimiter::new();
    assert!(limiter.check(IpAddr::V4(1), &config, 0));
    assert!(limiter.check(IpAddr::V4(2), &config, 10 * S - 5));
    limiter.remove_inactive(10 * S);
    // The first record is gone: an earlier moment finds a new one.
    assert!(limiter.check(IpAddr::V4(1), &config, 1));
    assert!(!limiter.check(IpAddr::V4(2), &config, 10 * S));
}

#[test]
fn cleanup_counts_from_the_last_request() {
    let config = with_limit(2);
    let ip = IpAddr::V4(1);
    let tenth = S / 10;
    let requests = |limiter: &mut RateLimiter| {
        assert!(limiter.check(ip, &config, 0));
        assert!(limiter.check(ip, &config, 8 * tenth));
        assert!(!limiter.check(ip, &config, 8 * tenth));
    };
    // Seen 9.5 s ago: the record stays, and an earlier moment is still refused.
    let mut limiter = RateLimiter::new();
    requests(&mut limiter);
    limiter.remove_inactive(103 * tenth);
    assert!(!limiter.check(ip, &config, 9 * tenth));
    // Not seen for 10 s: the record is gone.
    let mut limiter = RateLimiter::new();
    requests(&mut limiter);
    limiter.remove_inactive(108 * tenth);
    assert!(limiter.check(ip, &config, 9 * tenth));
}
