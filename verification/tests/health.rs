use oxidized_wall::config::{
    BanConfig, Config, LimitConfig, NetworkConfig, RawConfig, RawVHost, TimeoutConfig,
};
use oxidized_wall::health::{unique_upstreams, HealthManager};

fn addrs(list: &[&str]) -> Vec<String> {
    list.iter().map(|s| s.to_string()).collect()
}

fn vhost(domain: &str, routes: &[(&str, &[&str])]) -> RawVHost {
    RawVHost {
        domain: domain.to_string(),
        cert_path: "c".to_string(),
        key_path: "k".to_string(),
        routers: routes.iter().map(|(p, a)| (p.to_string(), addrs(a))).collect(),
    }
}

#[test]
fn unprobed_upstream_is_healthy() {
    let health = HealthManager::new();
    assert!(health.is_healthy("10.0.0.1:80"));
}

#[test]
fn last_probe_counts() {
    let mut health = HealthManager::new();
    let a = "10.0.0.1:80".to_string();
    assert!(health.record_probe(&a, false));
    assert!(!health.is_healthy("10.0.0.1:80"));
    assert!(health.is_healthy("10.0.0.2:80"));
    assert!(!health.record_probe(&a, false));
    assert!(health.record_probe(&a, true));
    assert!(health.is_healthy("10.0.0.1:80"));
}

#[test]
fn first_healthy_probe_is_a_change() {
    let mut health = HealthManager::new();
    assert!(health.record_probe(&"a:1".to_string(), true));
}

#[test]
fn upstreams_are_listed_once() {
    let config = Config::from_raw(RawConfig {
        network: NetworkConfig {
            http_addrs: Vec::new(),
            https_addrs: Vec::new(),
            max_connections: 10,
        },
        timeout: TimeoutConfig {
            c_tls_handshake: 1,
            c_header_read: 2,
            c_keep_alive_idle: 3,
            c_keep_alive_timeout: 4,
            c_body_timeout: 5,
            s_connect: 6,
            s_response: 7,
            s_websocket_idle: 8,
        },
        limit: LimitConfig {
            max_uri_size: 100,
            max_header_size: 1000,
            max_header_count: 10,
            max_body_size: 1000,
            c_h2_max_streams: 5,
            max_rps: 0,
            max_bandwidth: 0,
        },
        ban: BanConfig { ban_timeout: 0, ban_protocol: 0, ban_waf: 0, ban_rate_limit: 0 },
        vhosts: vec![
            vhost("a", &[("/", &["x:1", "y:1"]), ("/api", &["y:1", "z:1"])]),
            vhost("b", &[("/", &["x:1", "w:1", "w:1"])]),
        ],
    });
    assert_eq!(unique_upstreams(&config), addrs(&["y:1", "z:1", "x:1", "w:1"]));
}
