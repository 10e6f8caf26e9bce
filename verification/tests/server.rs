use oxidized_wall::ban::BanManager;
use oxidized_wall::config::{
    BanConfig, Config, LimitConfig, NetworkConfig, RawConfig, TimeoutConfig,
};
use oxidized_wall::net::IpAddr;
use oxidized_wall::server::{
    configure_builder, http_server, https_server, serve_connection, ConnectionAction,
    ConnectionEvent, ConnectionSettings, ConnectionState, HandshakeOutcome, ListenerAction,
    ListenerEvent, ListenerStage, ListenerState,
};

fn config(max_header_size: usize) -> Config {
    Config::from_raw(RawConfig {
        network: NetworkConfig {
            http_addrs: Vec::new(),
            https_addrs: Vec::new(),
            max_connections: 10,
        },
        timeout: TimeoutConfig {
            c_tls_handshake: 21,
            c_header_read: 22,
            c_keep_alive_idle: 23,
            c_keep_alive_timeout: 24,
            c_body_timeout: 25,
            s_connect: 26,
            s_response: 27,
            s_websocket_idle: 28,
        },
        limit: LimitConfig {
            max_uri_size: 100,
            max_header_size,
            max_header_count: 31,
            max_body_size: 1000,
            c_h2_max_streams: 32,
            max_rps: 3,
            max_bandwidth: 0,
        },
        ban: BanConfig { ban_timeout: 0, ban_protocol: 0, ban_waf: 0, ban_rate_limit: 0 },
        vhosts: Vec::new(),
    })
}

fn state(stage: ListenerStage, open: usize) -> ListenerState {
    ListenerState { stage, open }
}

#[test]
fn listener_serves_what_has_a_permit() {
    let mut bans = BanManager::new();
    let ip = IpAddr::V4(1);
    let accepting = ListenerState::new();
    let acquiring = state(ListenerStage::Acquiring, 0);
    assert_eq!(accepting, state(ListenerStage::Accepting, 0));
    assert_eq!(
        http_server(accepting, ListenerEvent::Accepted(ip), &mut bans, 0),
        (acquiring, ListenerAction::AcquirePermit)
    );
    assert_eq!(
        http_server(acquiring, ListenerEvent::Permit(true), &mut bans, 0),
        (state(ListenerStage::Accepting, 1), ListenerAction::Serve)
    );
    assert_eq!(
        https_server(acquiring, ListenerEvent::Permit(true), &config(1), &mut bans, 0),
        (state(ListenerStage::Accepting, 1), ListenerAction::Handshake(21))
    );
    assert_eq!(
        http_server(acquiring, ListenerEvent::Permit(false), &mut bans, 0),
        (state(ListenerStage::Finished, 0), ListenerAction::Return)
    );
    assert_eq!(
        http_server(state(ListenerStage::Acquiring, 2), ListenerEvent::Permit(false), &mut bans, 0),
        (state(ListenerStage::Draining, 2), ListenerAction::Drain)
    );
}

#[test]
fn banned_addresses_are_dropped() {
    let mut bans = BanManager::new();
    let ip = IpAddr::V4(1);
    bans.ban(ip, 1_000_000_000, 0);
    let accepting = ListenerState::new();
    let event = ListenerEvent::Accepted(ip);
    assert_eq!(
        http_server(accepting, event, &mut bans, 1_000_000_000),
        (accepting, ListenerAction::Accept)
    );
    assert_eq!(
        https_server(accepting, event, &config(1), &mut bans, 1_000_000_000),
        (accepting, ListenerAction::Accept)
    );
    assert_eq!(
        https_server(accepting, event, &config(1), &mut bans, 1_000_000_001),
        (state(ListenerStage::Acquiring, 0), ListenerAction::AcquirePermit)
    );
}

#[test]
fn listener_goes_on_after_failures_and_stops_when_cancelled() {
    let mut bans = BanManager::new();
    let accepting = state(ListenerStage::Accepting, 1);
    assert_eq!(
        http_server(accepting, ListenerEvent::AcceptFailed, &mut bans, 0),
        (accepting, ListenerAction::Accept)
    );
    assert_eq!(
        http_server(accepting, ListenerEvent::ConnectionEnded, &mut bans, 0),
        (state(ListenerStage::Accepting, 0), ListenerAction::Accept)
    );
    assert_eq!(
        https_server(ListenerState::new(), ListenerEvent::Cancelled, &config(1), &mut bans, 0),
        (state(ListenerStage::Finished, 0), ListenerAction::Return)
    );
}

#[test]
fn listener_returns_when_its_last_connection_has_ended() {
    let mut bans = BanManager::new();
    let mut listener = ListenerState::new();
    for n in 0..3u32 {
        listener = http_server(listener, ListenerEvent::Accepted(IpAddr::V4(n)), &mut bans, 0).0;
        listener = http_server(listener, ListenerEvent::Permit(true), &mut bans, 0).0;
    }
    listener = http_server(listener, ListenerEvent::ConnectionEnded, &mut bans, 0).0;
    assert_eq!(listener, state(ListenerStage::Accepting, 2));
    let (listener, action) = http_server(listener, ListenerEvent::Cancelled, &mut bans, 0);
    assert_eq!((listener, action), (state(ListenerStage::Draining, 2), ListenerAction::Drain));
    let (listener, action) = http_server(listener, ListenerEvent::ConnectionEnded, &mut bans, 0);
    assert_eq!((listener, action), (state(ListenerStage::Draining, 1), ListenerAction::Drain));
    let (listener, action) = http_server(listener, ListenerEvent::ConnectionEnded, &mut bans, 0);
    assert_eq!((listener, action), (state(ListenerStage::Finished, 0), ListenerAction::Return));
}

#[test]
fn connections_are_shut_down_gracefully() {
    let serving = ConnectionState::Serving;
    let (told, action) = serve_connection(serving, ConnectionEvent::Cancelled);
    assert_eq!((told, action), (ConnectionState::ShuttingDown, ConnectionAction::ShutDown));
    for state in [serving, told] {
        assert_eq!(
            serve_connection(state, ConnectionEvent::Finished),
            (ConnectionState::Ended, ConnectionAction::End)
        );
    }
}

#[test]
fn settings_come_from_the_configuration() {
    assert_eq!(
        configure_builder(&config(4096)),
        ConnectionSettings {
            header_read_timeout: 22,
            max_headers: 31,
            keep_alive_interval: 23,
            keep_alive_timeout: 24,
            max_concurrent_streams: 32,
            max_header_list_size: 4096,
        }
    );
    let huge = (1u64 << 32) + 5;
    if let Ok(size) = usize::try_from(huge) {
        assert_eq!(configure_builder(&config(size)).max_header_list_size, 5);
    }
}

#[test]
fn only_finished_handshakes_are_served() {
    let outcome = |o| serve_connection(ConnectionState::Handshaking, ConnectionEvent::Handshake(o));
    let ended = (ConnectionState::Ended, ConnectionAction::End);
    assert_eq!(
        outcome(HandshakeOutcome::Done),
        (ConnectionState::Serving, ConnectionAction::Serve)
    );
    assert_eq!(outcome(HandshakeOutcome::Failed), ended);
    assert_eq!(outcome(HandshakeOutcome::TimedOut), ended);
}

#[test]
fn run_serves_permitted_connections_within_its_limit() {
    let mut bans = BanManager::new();
    bans.ban(IpAddr::V4(3), 1_000_000_000, 0);
    let (limit, mut served) = (2, Vec::new());
    let mut listener = ListenerState::new();
    for n in 0..10u32 {
        if listener.open == limit {
            // A permit comes only when a connection has ended.
            listener = http_server(listener, ListenerEvent::ConnectionEnded, &mut bans, 5).0;
        }
        let event = ListenerEvent::Accepted(IpAddr::V4(n));
        let (next, action) = http_server(listener, event, &mut bans, 5);
        listener = next;
        if action == ListenerAction::AcquirePermit {
            let (next, action) = http_server(listener, ListenerEvent::Permit(true), &mut bans, 5);
            listener = next;
            assert_eq!(action, ListenerAction::Serve);
            served.push(n);
        }
        assert!(listener.open <= limit);
    }
    assert_eq!(served, [0, 1, 2, 4, 5, 6, 7, 8, 9]);
}
