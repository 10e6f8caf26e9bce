use oxidized_wall::ban::{BanManager, Violation, NANOS_PER_SECOND};
use oxidized_wall::config::{
    BanConfig, Config, LimitConfig, NetworkConfig, RawConfig, TimeoutConfig,
};
use oxidized_wall::net::IpAddr;

fn config() -> Config {
    Config::from_raw(RawConfig {
        network: NetworkConfig {
            http_addrs: Vec::new(),
            https_addrs: Vec::new(),
            max_connections: 10,
        },
        timeout: TimeoutConfig {
            c_tls_handshake: 1,
            c_header_read: 2,
            c_keep_alive_idle: 3,
            c_keep_alive_timeout: 4,
            c_body_timeout: 5,
            s_connect: 6,
            s_response: 7,
            s_websocket_idle: 8,
        },
        limit: LimitConfig {
            max_uri_size: 100,
            max_header_size: 1000,
            max_header_count: 10,
            max_body_size: 1000,
            c_h2_max_streams: 5,
            max_rps: 3,
            max_bandwidth: 0,
        },
        ban: BanConfig { ban_timeout: 0, ban_protocol: 10, ban_waf: 20, ban_rate_limit: 30 },
        vhosts: Vec::new(),
    })
}

const S: u64 = NANOS_PER_SECOND;

#[test]
fn new_manager_bans_nobody() {
    let mut bans = BanManager::new();
    assert!(!bans.check(IpAddr::V4(1), 0));
    assert!(!bans.check(IpAddr::V6(1), u64::MAX));
}

#[test]
fn ban_lasts_to_its_end_inclusive() {
    let mut bans = BanManager::new();
    let ip = IpAddr::V4(0x7f000001);
    bans.ban(ip, 5 * u128::from(S), 7);
    assert!(bans.check(ip, 7));
    assert!(bans.check(ip, 7 + 5 * S));
    assert!(!bans.check(ip, 8 + 5 * S));
    assert!(!bans.check(ip, 7));
}

#[test]
fn each_violation_has_its_duration() {
    let config = config();
    let cases = [
        (Violation::Protocol, 10u64),
        (Violation::Waf, 20),
        (Violation::RateLimit, 30),
    ];
    for (violation, seconds) in cases {
        let mut bans = BanManager::new();
        let ip = IpAddr::V6(9);
        bans.punish(ip, violation, &config, 100);
        assert!(bans.check(ip, 100 + seconds * S));
        assert!(!bans.check(ip, 101 + seconds * S));
    }
}

#[test]
fn zero_duration_does_not_ban() {
    let mut bans = BanManager::new();
    bans.punish(IpAddr::V4(1), Violation::Timeout, &config(), 0);
    assert!(!bans.check(IpAddr::V4(1), 0));
}

#[test]
fn families_are_told_apart() {
    let mut bans = BanManager::new();
    bans.ban(IpAddr::V4(5), 10 * u128::from(S), 0);
    assert!(!bans.check(IpAddr::V6(5), 1));
    assert!(bans.check(IpAddr::V4(5), 1));
}

#[test]
fn longest_ban_does_not_overflow() {
    let mut bans = BanManager::new();
    bans.ban(IpAddr::V4(5), u128::from(u64::MAX) * u128::from(S), u64::MAX);
    assert!(bans.check(IpAddr::V4(5), u64::MAX));
}

#[test]
fn cleanup_keeps_what_is_left() {
    let mut bans = BanManager::new();
    bans.ban(IpAddr::V4(1), 1 * u128::from(S), 0);
    bans.ban(IpAddr::V4(2), 3 * u128::from(S), 0);
    bans.ban(IpAddr::V6(1), 1 * u128::from(S), 0);
    bans.ban(IpAddr::V6(2), 3 * u128::from(S), 0);
    bans.remove_expired(2 * S);
    assert!(!bans.check(IpAddr::V4(1), 0));
    assert!(bans.check(IpAddr::V4(2), 3 * S));
    assert!(!bans.check(IpAddr::V6(1), 0));
    assert!(bans.check(IpAddr::V6(2), 3 * S));
}

#[test]
fn cleanup_drops_a_ban_at_its_last_moment() {
    let mut bans = BanManager::new();
    bans.ban(IpAddr::V4(1), 1 * u128::from(S), 0);
    bans.remove_expired(S);
    assert!(!bans.check(IpAddr::V4(1), S));
}

#[test]
fn durations_count_in_nanoseconds() {
    let mut bans = BanManager::new();
    bans.ban(IpAddr::V4(1), 5, 7);
    assert!(bans.check(IpAddr::V4(1), 12));
    assert!(!bans.check(IpAddr::V4(1), 13));
}
