use oxidized_wall::config::{
    BanConfig, Config, LimitConfig, NetworkConfig, RawConfig, RawVHost, TimeoutConfig, VHostConfig,
};

fn route(path: &str, addrs: &[&str]) -> (String, Vec<String>) {
    (path.to_string(), addrs.iter().map(|a| a.to_string()).collect())
}

fn entry(domain: &str, cert: &str, routers: Vec<(String, Vec<String>)>) -> RawVHost {
    RawVHost {
        domain: domain.to_string(),
        cert_path: cert.to_string(),
        key_path: "key".to_string(),
        routers,
    }
}

fn raw(vhosts: Vec<RawVHost>) -> RawConfig {
    RawConfig {
        network: NetworkConfig {
            http_addrs: vec!["0.0.0.0:80".to_string()],
            https_addrs: vec!["0.0.0.0:443".to_string()],
            max_connections: 77,
        },
        timeout: TimeoutConfig {
            c_tls_handshake: 1,
            c_header_read: 2,
            c_keep_alive_idle: 3,
            c_keep_alive_timeout: 4,
            c_body_timeout: 5,
            s_connect: 6,
            s_response: 7,
            s_websocket_idle: 8,
        },
        limit: LimitConfig {
            max_uri_size: 9,
            max_header_size: 10,
            max_header_count: 11,
            max_body_size: 12,
            c_h2_max_streams: 13,
            max_rps: 14,
            max_bandwidth: 15,
        },
        ban: BanConfig { ban_timeout: 16, ban_protocol: 17, ban_waf: 18, ban_rate_limit: 19 },
        vhosts,
    }
}

#[test]
fn sections_are_kept() {
    let config = Config::from_raw(raw(Vec::new()));
    assert_eq!(config.network.max_connections, 77);
    assert_eq!(config.network.http_addrs, ["0.0.0.0:80"]);
    assert_eq!(config.timeout.s_websocket_idle, 8);
    assert_eq!(config.limit.max_bandwidth, 15);
    assert_eq!(config.ban.ban_rate_limit, 19);
    assert!(config.vhost("a").is_none());
}

#[test]
fn routes_are_sorted_longest_first() {
    let vhost = VHostConfig::new(
        "c".to_string(),
        "k".to_string(),
        vec![
            route("/", &["a"]),
            route("/api", &["b"]),
            route("/api/v1", &["c"]),
            route("/app", &["d"]),
            route("/\u{e4}\u{e4}", &["e"]),
        ],
    );
    let paths: Vec<&str> = vhost.routers.iter().map(|r| r.0.as_str()).collect();
    assert_eq!(paths, ["/api/v1", "/\u{e4}\u{e4}", "/api", "/app", "/"]);
    assert_eq!(vhost.routers_state, [0; 5]);
    assert_eq!(vhost.cert_path, "c");
    assert_eq!(vhost.key_path, "k");
}

#[test]
fn longest_prefix_serves_a_path() {
    let vhost = VHostConfig::new(
        "c".to_string(),
        "k".to_string(),
        vec![route("/api", &["b"]), route("/api/v1", &["c"]), route("/x", &["d"])],
    );
    assert_eq!(vhost.find_route("/api/v1/z"), Some(0));
    assert_eq!(vhost.find_route("/api/v2"), Some(1));
    assert_eq!(vhost.find_route("/apix"), Some(1));
    assert_eq!(vhost.find_route("/x"), Some(2));
    assert_eq!(vhost.find_route("/"), None);
}

#[test]
fn listing_order_does_not_matter() {
    let routes = [route("/a", &["1"]), route("/ab", &["2"]), route("/b", &["3"])];
    let one = VHostConfig::new("c".into(), "k".into(), routes.to_vec());
    let mut reversed = routes.to_vec();
    reversed.reverse();
    let two = VHostConfig::new("c".into(), "k".into(), reversed);
    for path in ["/a", "/abc", "/b/c", "/c"] {
        let first = one.find_route(path).map(|i| one.routers[i].clone());
        let second = two.find_route(path).map(|i| two.routers[i].clone());
        assert_eq!(first, second);
    }
}

#[test]
fn last_entry_of_a_domain_counts() {
    let config = Config::from_raw(raw(vec![
        entry("a.org", "one", vec![route("/", &["x"])]),
        entry("b.org", "two", vec![]),
        entry("a.org", "three", vec![route("/y", &["y"])]),
    ]));
    assert_eq!(config.vhosts.len(), 2);
    assert_eq!(config.vhost("a.org").unwrap().cert_path, "three");
    assert_eq!(config.vhost("b.org").unwrap().cert_path, "two");
    assert!(config.vhost("A.org").is_none());
    assert_eq!(config.vhost_position("b.org"), Some(1));
    assert_eq!(config.vhost("a.org").unwrap().routers_state, [0]);
}
