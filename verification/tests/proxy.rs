use hyper::header::HeaderValue;
use hyper::HeaderMap;
use oxidized_wall::ban::BanManager;
use oxidized_wall::config::{
    BanConfig, Config, LimitConfig, NetworkConfig, RawConfig, RawVHost, TimeoutConfig,
};
use oxidized_wall::headers::{header_text, to_str};
use oxidized_wall::health::HealthManager;
use oxidized_wall::http::{Method, Reply, RequestHead, RequestUri, Version};
use oxidized_wall::net::IpAddr;
use oxidized_wall::proxy::balance::{select_from, select_upstream};
use oxidized_wall::proxy::reply::{
    error_response, sanitize_response_headers, MAX_HEADER_NAMES,
};
use oxidized_wall::proxy::request::{
    forwarded_ip, get_host, get_real_ip, is_websocket, refuse, screen_head, verify_request,
};
use oxidized_wall::proxy::upstream::{
    handle_http, handle_websocket, pump, rewrite_request, rewrite_to, PumpAction, PumpEvent,
    PumpState, UpstreamAction, UpstreamEvent, WebSocketAction,
};
use oxidized_wall::proxy::{
    dispatch, dispatch_to, http_proxy, https_proxy, redirect, HttpsAction, HttpsEvent, HttpsStage,
};
use oxidized_wall::ratelimit::RateLimiter;
use oxidized_wall::waf::Rules;

const CLIENT: IpAddr = IpAddr::V4(0x0a000001);

fn addrs(list: &[&str]) -> Vec<String> {
    list.iter().map(|s| s.to_string()).collect()
}

fn config() -> Config {
    Config::from_raw(RawConfig {
        network: NetworkConfig {
            http_addrs: Vec::new(),
            https_addrs: Vec::new(),
            max_connections: 10,
        },
        timeout: TimeoutConfig {
            c_tls_handshake: 1,
            c_header_read: 2,
            c_keep_alive_idle: 3,
            c_keep_alive_timeout: 4,
            c_body_timeout: 5,
            s_connect: 6,
            s_response: 7,
            s_websocket_idle: 8,
        },
        limit: LimitConfig {
            max_uri_size: 30,
            max_header_size: 1000,
            max_header_count: 4,
            max_body_size: 1000,
            c_h2_max_streams: 5,
            max_rps: 2,
            max_bandwidth: 0,
        },
        ban: BanConfig { ban_timeout: 10, ban_protocol: 20, ban_waf: 30, ban_rate_limit: 40 },
        vhosts: vec![RawVHost {
            domain: "site.org".to_string(),
            cert_path: "c".to_string(),
            key_path: "k".to_string(),
            routers: vec![
                ("/".to_string(), addrs(&["a:1", "b:1"])),
                ("/api".to_string(), addrs(&["c:1"])),
            ],
        }],
    })
}

fn head(method: Method, target: &str, list: &[(&'static str, &'static str)]) -> RequestHead {
    let mut headers = HeaderMap::new();
    for (name, value) in list {
        headers.append(*name, HeaderValue::from_static(value));
    }
    RequestHead {
        method,
        uri: RequestUri { path_and_query: Some(target.to_string()), host: None },
        version: Version::Http11,
        headers,
    }
}

struct World {
    config: Config,
    rules: Rules,
    bans: BanManager,
    limiter: RateLimiter,
    health: HealthManager,
}

fn world() -> World {
    World {
        config: config(),
        rules: Rules::compile().unwrap(),
        bans: BanManager::new(),
        limiter: RateLimiter::new(),
        health: HealthManager::new(),
    }
}

fn verify(w: &mut World, head: &RequestHead) -> Option<u16> {
    let r = verify_request(head, CLIENT, &w.config, &w.rules, &mut w.bans, &mut w.limiter, 0);
    r.err().map(|reply| reply.status)
}

fn https(w: &mut World, stage: HttpsStage, event: HttpsEvent, head: &RequestHead) -> (HttpsStage, HttpsAction) {
    https_proxy(
        stage,
        event,
        head,
        None,
        CLIENT,
        &mut w.config,
        &w.rules,
        &mut w.bans,
        &mut w.limiter,
        &w.health,
        0,
    )
}

fn status(action: &HttpsAction) -> u16 {
    match action {
        HttpsAction::Respond(reply) => reply.status,
        _ => 0,
    }
}

fn banned_for(w: &mut World, seconds: u64) -> bool {
    let s = 1_000_000_000;
    w.bans.check(CLIENT, seconds * s) && !w.bans.check(CLIENT, seconds * s + 1)
}

#[test]
fn real_address_is_found() {
    let h = head(Method::Get, "/", &[("CF-Connecting-IP", "1.2.3.4")]);
    assert_eq!(forwarded_ip(&h.headers), Some("1.2.3.4".to_string()));
    let h = head(Method::Get, "/", &[]);
    assert_eq!(forwarded_ip(&h.headers), None);
    let mut map = HeaderMap::new();
    map.insert("cf-connecting-ip", HeaderValue::from_bytes(b"1\xff").unwrap());
    assert_eq!(forwarded_ip(&map), None);
    assert_eq!(get_real_ip(Some(IpAddr::V6(3)), CLIENT), IpAddr::V6(3));
    assert_eq!(get_real_ip(None, CLIENT), CLIENT);
}

#[test]
fn header_text_is_visible_ascii() {
    assert_eq!(to_str(b"ab\tc ~"), Some(vec!['a', 'b', '\t', 'c', ' ', '~']));
    assert_eq!(to_str(b"a\x7f"), None);
    assert_eq!(to_str(b"a\x1f"), None);
    assert_eq!(to_str(b"\xc3\xa4"), None);
    let h = head(Method::Get, "/", &[("Host", "a"), ("Host", "b")]);
    assert_eq!(header_text(&h.headers, "host"), Some(vec!['a']));
    assert_eq!(header_text(&h.headers, "upgrade"), None);
}

#[test]
fn host_is_found() {
    let mut h = head(Method::Get, "/", &[("Host", "site.org:8443")]);
    assert_eq!(get_host(&h), "site.org");
    h.uri.host = Some("other.org".to_string());
    assert_eq!(get_host(&h), "other.org");
    assert_eq!(get_host(&head(Method::Get, "/", &[])), "localhost");
    assert_eq!(get_host(&head(Method::Get, "/", &[("Host", ":80")])), "");
}

#[test]
fn websockets_are_recognised() {
    assert!(is_websocket(&head(Method::Get, "/", &[("Upgrade", "WebSocket")])));
    assert!(is_websocket(&head(Method::Get, "/", &[("Upgrade", "h2c, websocket")])));
    assert!(!is_websocket(&head(Method::Get, "/", &[("Upgrade", "h2c")])));
    assert!(!is_websocket(&head(Method::Get, "/", &[])));
}

#[test]
fn clean_requests_pass() {
    let mut w = world();
    assert_eq!(verify(&mut w, &head(Method::Get, "/a?b=c", &[("Host", "site.org")])), None);
    assert!(!w.bans.check(CLIENT, 0));
}

#[test]
fn rate_limit_is_refused_first() {
    let mut w = world();
    let good = head(Method::Get, "/", &[("Host", "site.org")]);
    assert_eq!(verify(&mut w, &good), None);
    assert_eq!(verify(&mut w, &good), None);
    let bad = head(Method::Connect, "/../etc/passwd", &[]);
    assert_eq!(verify(&mut w, &bad), Some(429));
    assert!(banned_for(&mut w, 40));
}

#[test]
fn each_check_has_its_answer() {
    let host = ("Host", "site.org");
    let cases = [
        (head(Method::Get, "/a\tb", &[host]), 400, 20),
        (head(Method::Get, "/", &[]), 400, 20),
        (head(Method::Get, "/", &[host, host]), 400, 20),
        (
            head(
                Method::Get,
                "/",
                &[host, ("Content-Length", "1"), ("Transfer-Encoding", "chunked")],
            ),
            400,
            20,
        ),
        (
            head(Method::Get, "/", &[host, ("A", "1"), ("B", "1"), ("B", "2"), ("C", "1")]),
            400,
            20,
        ),
        (head(Method::Get, "/0123456789?0123456789=0123456", &[host]), 0, 0),
        (head(Method::Get, "/0123456789?0123456789=01234567", &[host]), 414, 20),
        (head(Method::Other, "/", &[host]), 405, 20),
        (head(Method::Connect, "/", &[host]), 405, 20),
        (head(Method::Get, "/a/../b", &[host]), 403, 30),
        (head(Method::Get, "/a?x=<script>", &[host]), 403, 30),
        (head(Method::Get, "/a?x=1&x=2", &[host]), 403, 30),
        (head(Method::Get, "/", &[host, ("User-Agent", "nikto")]), 403, 30),
        (head(Method::Get, "/", &[host, ("A", "1"), ("B", "1"), ("B", "2")]), 0, 0),
    ];
    for (h, expected, seconds) in cases {
        let mut w = world();
        let got = verify(&mut w, &h).unwrap_or(0);
        assert_eq!(got, expected);
        if expected == 0 {
            assert!(!w.bans.check(CLIENT, 0));
        } else {
            assert!(banned_for(&mut w, seconds));
        }
    }
}

#[test]
fn served_methods_pass_the_screen() {
    let limits = config().limit;
    let methods = [
        Method::Get,
        Method::Post,
        Method::Put,
        Method::Delete,
        Method::Patch,
        Method::Head,
        Method::Options,
    ];
    for method in methods {
        assert_eq!(screen_head(&head(method, "/", &[("Host", "a")]), &limits), None);
    }
}

#[test]
fn error_responses_carry_security_headers() {
    let reply = error_response(403);
    assert_eq!(reply.status, 403);
    assert_eq!(reply.headers.len(), 6);
    let expected = [
        ("Strict-Transport-Security", "max-age=31536000; includeSubDomains; preload"),
        ("X-Frame-Options", "DENY"),
        ("X-Content-Type-Options", "nosniff"),
        ("X-XSS-Protection", "1; mode=block"),
        ("Referrer-Policy", "strict-origin-when-cross-origin"),
        ("Permissions-Policy", "geolocation=(), microphone=(), camera=()"),
    ];
    for (name, value) in expected {
        assert_eq!(reply.headers.get(name).unwrap(), value);
    }
}

#[test]
fn backend_headers_are_stripped_and_others_kept() {
    let mut headers = head(
        Method::Get,
        "/",
        &[
            ("Server", "nginx"),
            ("X-Powered-By", "PHP"),
            ("X-AspNet-Version", "4"),
            ("X-Runtime", "1"),
            ("Content-Length", "3"),
            ("Transfer-Encoding", "chunked"),
            ("X-Frame-Options", "ALLOW"),
            ("X-Frame-Options", "ALLOW"),
            ("Set-Cookie", "a"),
            ("Set-Cookie", "b"),
        ],
    )
    .headers;
    assert!(sanitize_response_headers(&mut headers));
    for name in
        ["Server", "X-Powered-By", "X-AspNet-Version", "X-Runtime", "Content-Length", "Transfer-Encoding"]
    {
        assert!(!headers.contains_key(name));
    }
    assert_eq!(headers.get_all("X-Frame-Options").iter().count(), 1);
    assert_eq!(headers.get("X-Frame-Options").unwrap(), "DENY");
    assert_eq!(headers.get_all("Set-Cookie").iter().count(), 2);
    assert_eq!(headers.len(), 8);
    let once = headers.clone();
    assert!(sanitize_response_headers(&mut headers));
    assert_eq!(headers, once);
}

#[test]
fn refusal_punishes_and_answers() {
    let mut bans = BanManager::new();
    let reply = refuse(414, oxidized_wall::ban::Violation::Waf, CLIENT, &config(), &mut bans, 0);
    assert_eq!(reply.status, 414);
    assert!(bans.check(CLIENT, 30_000_000_000));
    assert!(!bans.check(CLIENT, 30_000_000_001));
}

#[test]
fn plain_requests_are_redirected() {
    let mut w = world();
    let h = head(Method::Get, "/a?b=c", &[("Host", "site.org:80")]);
    let reply = http_proxy(
        &h,
        None,
        CLIENT,
        &w.config,
        &w.rules,
        &mut w.bans,
        &mut w.limiter,
        0,
    );
    assert_eq!(reply.status, 308);
    assert_eq!(reply.headers.len(), 1);
    assert_eq!(reply.headers.get("Location").unwrap(), "https://site.org:80/a?b=c");
    let refused = http_proxy(
        &head(Method::Get, "/", &[]),
        Some(IpAddr::V6(5)),
        CLIENT,
        &w.config,
        &w.rules,
        &mut w.bans,
        &mut w.limiter,
        0,
    );
    assert_eq!(refused.status, 400);
    assert!(w.bans.check(IpAddr::V6(5), 1));
    assert!(!w.bans.check(CLIENT, 1));
}

#[test]
fn redirect_without_host_goes_to_localhost() {
    let mut h = head(Method::Get, "/", &[]);
    h.uri.path_and_query = None;
    let reply = redirect(&h);
    assert_eq!(reply.headers.get("Location").unwrap(), "https://localhost/");
    h.uri.path_and_query = Some("/\u{e4}".to_string());
    let reply = redirect(&h);
    assert_eq!(reply.headers.get("Location").unwrap().as_bytes(), "https://localhost/\u{e4}".as_bytes());
    h.uri.path_and_query = Some("/\n".to_string());
    assert_eq!(redirect(&h).status, 500);
}

#[test]
fn upstreams_take_turns() {
    let list = addrs(&["a", "b", "c"]);
    let mut health = HealthManager::new();
    for turn in 0..7usize {
        assert_eq!(select_from(&list, turn, &health), Some(list[turn % 3].clone()));
    }
    health.record_probe(&"b".to_string(), false);
    assert_eq!(select_from(&list, 1, &health), Some("c".to_string()));
    health.record_probe(&"c".to_string(), false);
    assert_eq!(select_from(&list, 1, &health), Some("a".to_string()));
    health.record_probe(&"a".to_string(), false);
    assert_eq!(select_from(&list, 1, &health), None);
    assert_eq!(select_from(&Vec::new(), 1, &health), None);
}

#[test]
fn turns_wrap_around() {
    let list = addrs(&["a", "b", "c"]);
    let health = HealthManager::new();
    assert_eq!(
        select_from(&list, usize::MAX, &health),
        Some(list[usize::MAX % 3].clone())
    );
}

#[test]
fn counter_moves_on() {
    let list = addrs(&["a", "b"]);
    let mut counter = 0usize;
    let health = HealthManager::new();
    let picks: Vec<_> =
        (0..4).map(|_| select_upstream(&list, &mut counter, &health).unwrap()).collect();
    assert_eq!(picks, ["a", "b", "a", "b"]);
    assert_eq!(counter, 4);
    counter = usize::MAX;
    let _ = select_upstream(&list, &mut counter, &health);
    assert_eq!(counter, 0);
    assert_eq!(select_upstream(&Vec::new(), &mut counter, &health), None);
    assert_eq!(counter, 1);
}

#[test]
fn requests_are_routed() {
    let mut w = world();
    let host = ("Host", "site.org");
    match dispatch(&head(Method::Get, "/api/x", &[host]), &mut w.config, &w.health) {
        HttpsAction::Request { addr, deadline, response } => {
            assert_eq!((addr.as_str(), deadline, response), ("c:1", 5, 7));
        }
        _ => panic!("not sent"),
    }
    match dispatch(&head(Method::Get, "/x", &[host, ("Upgrade", "websocket")]), &mut w.config, &w.health) {
        HttpsAction::WebSocket { addr, deadline, connect, response, idle } => {
            assert_eq!((addr.as_str(), deadline, connect, response, idle), ("a:1", 5, 6, 7, 8));
        }
        _ => panic!("not sent"),
    }
    match dispatch(&head(Method::Get, "/x", &[host]), &mut w.config, &w.health) {
        HttpsAction::Request { addr, .. } => assert_eq!(addr, "b:1"),
        _ => panic!("not sent"),
    }
    assert_eq!(status(&dispatch(&head(Method::Get, "/", &[("Host", "x")]), &mut w.config, &w.health)), 502);
    assert_eq!(status(&dispatch(&head(Method::Get, "x", &[host]), &mut w.config, &w.health)), 502);
    assert_eq!(status(&dispatch_to(None, false, &w.config.timeout)), 502);
    let vhost = w.config.vhost("site.org").unwrap();
    assert_eq!(vhost.routers[0].0, "/api");
    assert_eq!(vhost.routers_state, [1, 2]);
}

#[test]
fn only_dispatched_requests_take_a_turn() {
    let mut w = world();
    let host = ("Host", "site.org");
    let refused = head(Method::Get, "/api/../x", &[host]);
    https(&mut w, HttpsStage::Start, HttpsEvent::Begin, &refused);
    let posted = head(Method::Post, "/api", &[host]);
    https(&mut w, HttpsStage::Start, HttpsEvent::Begin, &posted);
    assert_eq!(w.config.vhost("site.org").unwrap().routers_state, [0, 0]);
    https(&mut w, HttpsStage::Buffering, HttpsEvent::BodyRead(b"a=b1234".to_vec()), &posted);
    assert_eq!(w.config.vhost("site.org").unwrap().routers_state, [1, 0]);
    w.health.record_probe(&"c:1".to_string(), false);
    https(&mut w, HttpsStage::Buffering, HttpsEvent::BodyRead(b"a=b1234".to_vec()), &posted);
    assert_eq!(w.config.vhost("site.org").unwrap().routers_state, [2, 0]);
}

#[test]
fn targets_have_a_path_and_a_query() {
    let target = |text: Option<&str>| RequestUri {
        path_and_query: text.map(|t| t.to_string()),
        host: None,
    };
    for text in ["/a?b=c", "/a", "/a?", "/a?b?c", "*", "/", "/?x"] {
        let outside: hyper::Uri = text.parse().unwrap();
        let uri = target(Some(text));
        assert_eq!(uri.path_text(), outside.path());
        assert_eq!(uri.query_text().as_deref(), outside.query());
        assert_eq!(uri.target_text(), outside.path_and_query().unwrap().as_str());
    }
    let absolute: hyper::Uri = "http://a.org?x".parse().unwrap();
    let uri = target(absolute.path_and_query().map(|pq| pq.as_str()));
    assert_eq!(uri.path_text(), absolute.path());
    assert_eq!(uri.query_text().as_deref(), absolute.query());
    let authority: hyper::Uri = "a.org:80".parse().unwrap();
    assert!(authority.path_and_query().is_none());
    let uri = target(None);
    assert_eq!(uri.path_text(), authority.path());
    assert_eq!(uri.query_text().as_deref(), authority.query());
    assert_eq!(uri.target_text(), "/");
}

#[test]
fn unhealthy_upstreams_are_a_bad_gateway() {
    let mut w = world();
    w.health.record_probe(&"c:1".to_string(), false);
    let h = head(Method::Get, "/api", &[("Host", "site.org")]);
    let (stage, action) = https(&mut w, HttpsStage::Start, HttpsEvent::Begin, &h);
    assert_eq!(stage, HttpsStage::Answered);
    assert_eq!(status(&action), 502);
    assert!(!w.bans.check(CLIENT, 0));
}

#[test]
fn bodies_are_read_before_dispatch() {
    let host = ("Host", "site.org");
    for method in [Method::Post, Method::Put, Method::Patch] {
        let mut w = world();
        let h = head(method, "/api", &[host]);
        let (stage, action) = https(&mut w, HttpsStage::Start, HttpsEvent::Begin, &h);
        assert_eq!(stage, HttpsStage::Buffering);
        assert!(matches!(action, HttpsAction::BufferBody(1000)));
        let (stage, action) =
            https(&mut w, stage, HttpsEvent::BodyRead(b"name=John".to_vec()), &h);
        assert_eq!(stage, HttpsStage::Dispatched);
        assert!(matches!(action, HttpsAction::Request { addr, .. } if addr == "c:1"));
    }
    for method in [Method::Get, Method::Delete, Method::Head, Method::Options] {
        let mut w = world();
        let (stage, action) =
            https(&mut w, HttpsStage::Start, HttpsEvent::Begin, &head(method, "/api", &[host]));
        assert_eq!(stage, HttpsStage::Dispatched);
        assert!(matches!(action, HttpsAction::Request { .. }));
    }
}

#[test]
fn bad_bodies_are_refused() {
    let h = head(Method::Post, "/api", &[("Host", "site.org")]);
    let mut w = world();
    let (stage, action) =
        https(&mut w, HttpsStage::Buffering, HttpsEvent::BodyRead(b"a || b and more".to_vec()), &h);
    assert_eq!((stage, status(&action)), (HttpsStage::Answered, 403));
    assert!(banned_for(&mut w, 30));
    let mut w = world();
    let (_, action) = https(&mut w, HttpsStage::Buffering, HttpsEvent::BodyFailed, &h);
    assert_eq!(status(&action), 413);
    assert!(banned_for(&mut w, 20));
}

#[test]
fn failures_behind_the_proxy_are_answered() {
    let h = head(Method::Get, "/api", &[("Host", "site.org")]);
    let mut w = world();
    let (_, action) = https(&mut w, HttpsStage::Dispatched, HttpsEvent::ConnectFailed, &h);
    assert_eq!(status(&action), 502);
    assert!(!w.bans.check(CLIENT, 0));
    let (_, action) = https(&mut w, HttpsStage::Dispatched, HttpsEvent::DeadlinePassed, &h);
    assert_eq!(status(&action), 504);
    assert!(banned_for(&mut w, 10));
}

#[test]
fn secure_requests_are_verified() {
    let mut w = world();
    let (stage, action) =
        https(&mut w, HttpsStage::Start, HttpsEvent::Begin, &head(Method::Post, "/api", &[]));
    assert_eq!((stage, status(&action)), (HttpsStage::Answered, 400));
    assert!(banned_for(&mut w, 20));
}

#[test]
fn requests_are_rewritten() {
    let mut h = head(Method::Get, "/a?b", &[]);
    h.version = Version::Http2;
    let rewrite = rewrite_request(&h, "10.0.0.1:80");
    assert_eq!(rewrite.version, Version::Http11);
    assert_eq!(rewrite.uri.as_deref(), Some("http://10.0.0.1:80/a?b"));
    h.version = Version::Http10;
    let rewrite = rewrite_request(&h, "not an address");
    assert_eq!(rewrite.version, Version::Http10);
    assert_eq!(rewrite.uri, None);
    assert_eq!(rewrite_to(Version::Http3, "x".to_string(), false).uri, None);
    assert_eq!(rewrite_to(Version::Http2, "x".to_string(), true).uri.as_deref(), Some("x"));
}

fn answer(status: u16) -> Reply {
    let mut headers = HeaderMap::new();
    headers.insert("Server", HeaderValue::from_static("nginx"));
    headers.insert("A", HeaderValue::from_static("b"));
    Reply { status, headers }
}

#[test]
fn answers_are_sanitised() {
    match handle_http(UpstreamEvent::Answered(answer(201))) {
        UpstreamAction::Relay(reply) => {
            assert_eq!(reply.status, 201);
            assert!(!reply.headers.contains_key("server"));
            assert_eq!(reply.headers.get("a").unwrap(), "b");
            assert_eq!(reply.headers.get("x-frame-options").unwrap(), "DENY");
        }
        _ => panic!("not relayed"),
    }
    match handle_http(UpstreamEvent::Failed) {
        UpstreamAction::Respond(reply) => assert_eq!(reply.status, 504),
        _ => panic!("relayed"),
    }
}

#[test]
fn websocket_answers_are_told_apart() {
    match handle_websocket(UpstreamEvent::Answered(answer(101))) {
        WebSocketAction::Upgrade(reply) => {
            assert_eq!(reply.status, 101);
            assert!(!reply.headers.contains_key("server"));
            assert!(reply.headers.contains_key("referrer-policy"));
        }
        _ => panic!("not upgraded"),
    }
    match handle_websocket(UpstreamEvent::Answered(answer(200))) {
        WebSocketAction::Relay(reply) => {
            assert_eq!(reply.status, 200);
            assert!(reply.headers.contains_key("server"));
            assert_eq!(reply.headers.len(), 2);
        }
        _ => panic!("not relayed"),
    }
    match handle_websocket(UpstreamEvent::Failed) {
        WebSocketAction::Respond(reply) => assert_eq!(reply.status, 504),
        _ => panic!("relayed"),
    }
}

fn shown(step: (PumpState, PumpAction)) -> String {
    format!("{:?} {:?}", step.0, step.1)
}

#[test]
fn pumps_wait_for_their_quota() {
    let bytes = || vec![7u8, 8];
    let waiting = || PumpState::Waiting(bytes());
    let reading = PumpState::Reading;
    assert_eq!(shown(pump(reading, 9, PumpEvent::Read(bytes()))), "Waiting([7, 8]) TryConsume(2)");
    assert_eq!(shown(pump(waiting(), 9, PumpEvent::Quota(false))), "Waiting([7, 8]) Sleep(5)");
    assert_eq!(shown(pump(waiting(), 9, PumpEvent::Waited)), "Waiting([7, 8]) TryConsume(2)");
    assert_eq!(shown(pump(waiting(), 9, PumpEvent::Quota(true))), "Writing Write([7, 8])");
    assert_eq!(shown(pump(PumpState::Writing, 9, PumpEvent::Written(true))), "Reading Read");
    assert_eq!(shown(pump(PumpState::Writing, 9, PumpEvent::Written(false))), "Closed Close");
    assert_eq!(shown(pump(PumpState::Reading, 9, PumpEvent::Read(vec![]))), "Closed Close");
    assert_eq!(shown(pump(PumpState::Reading, 9, PumpEvent::ReadFailed)), "Closed Close");
    let free = pump(PumpState::Reading, 0, PumpEvent::Read(bytes()));
    assert_eq!(shown(free), "Writing Write([7, 8])");
}

#[test]
fn large_header_maps_are_sanitised_up_to_their_limit() {
    let filled = |count: u32| {
        let mut headers = HeaderMap::new();
        for n in 0..count {
            let name = format!("x-{}", n);
            let name = hyper::header::HeaderName::from_bytes(name.as_bytes()).unwrap();
            headers.try_insert(name, HeaderValue::from_static("v")).unwrap();
        }
        headers
    };
    let mut headers = filled(MAX_HEADER_NAMES as u32);
    assert!(sanitize_response_headers(&mut headers));
    assert_eq!(headers.len(), MAX_HEADER_NAMES + 6);
    let mut headers = filled(24576);
    assert!(!sanitize_response_headers(&mut headers));
    let reply = Reply { status: 200, headers: filled(24576) };
    assert!(matches!(handle_http(UpstreamEvent::Answered(reply)), UpstreamAction::Overflow));
    let reply = Reply { status: 101, headers: filled(24576) };
    let action = handle_websocket(UpstreamEvent::Answered(reply));
    assert!(matches!(action, WebSocketAction::Overflow));
    let reply = Reply { status: 200, headers: filled(24576) };
    let action = handle_websocket(UpstreamEvent::Answered(reply));
    assert!(matches!(action, WebSocketAction::Relay(_)));
}

#[test]
fn pumps_forward_what_they_read() {
    let mut state = PumpState::Reading;
    let mut action = PumpAction::Read;
    let reads = [vec![1u8, 2, 3], vec![4], vec![5; 100], vec![6, 7], vec![]];
    let (mut next, mut tries) = (0usize, 0u32);
    let (mut sent, mut granted) = (Vec::new(), 0u64);
    loop {
        let event = match action {
            PumpAction::Read => {
                next += 1;
                PumpEvent::Read(reads[next - 1].clone())
            }
            PumpAction::TryConsume(n) => {
                tries += 1;
                if tries % 2 == 0 {
                    granted += n;
                }
                PumpEvent::Quota(tries % 2 == 0)
            }
            PumpAction::Sleep(_) => PumpEvent::Waited,
            PumpAction::Write(bytes) => {
                sent.extend(bytes);
                PumpEvent::Written(true)
            }
            PumpAction::Close => break,
        };
        (state, action) = pump(state, 1000, event);
    }
    assert!(matches!(state, PumpState::Closed));
    assert_eq!(sent, reads.concat());
    assert_eq!(granted, sent.len() as u64);
}
