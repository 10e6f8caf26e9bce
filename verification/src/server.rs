//! The accept loops of the listeners and the settings of their connections.
use crate::ban::BanManager;
use crate::config::Config;
use crate::net::IpAddr;
use vstd::prelude::*;

verus! {

/// What a listener waits for.
#[derive(Debug, Clone, Copy, PartialEq, Eq, Structural)]
pub enum ListenerStage {
    /// A connection, the end of one, or the end of the server.
    Accepting,
    /// A permit for the connection that was accepted.
    Acquiring,
    /// The end of its connections: it accepts no more.
    Draining,
    /// Nothing: it has returned.
    Finished,
}

/// A listener: what it waits for, and how many connections it has begun whose end it
/// has not seen.
#[derive(Debug, Clone, Copy, PartialEq, Eq, Structural)]
pub struct ListenerState {
    pub stage: ListenerStage,
    pub open: usize,
}

/// What happens to a listener.
#[derive(Debug, Clone, Copy, PartialEq, Eq, Structural)]
pub enum ListenerEvent {
    /// The server shuts down.
    Cancelled,
    /// A connection came from an address.
    Accepted(IpAddr),
    /// A connection could not be accepted.
    AcceptFailed,
    /// A connection that was served has ended.
    ConnectionEnded,
    /// A permit was granted; or there are none any more.
    Permit(bool),
}

/// What a listener does next.
#[derive(Debug, Clone, Copy, PartialEq, Eq, Structural)]
pub enum ListenerAction {
    /// Wait for the next connection; one that was accepted is dropped.
    Accept,
    /// Wait for a permit for the connection that was accepted.
    AcquirePermit,
    /// Serve the connection at once, and accept the next.
    Serve,
    /// Serve the connection after a TLS handshake of at most so many seconds, and
    /// accept the next.
    Handshake(u64),
    /// Accept no more, and wait for a connection to end.
    Drain,
    /// Return: every connection has ended.
    Return,
}

/// A listener that has just begun.
pub open spec fn listening() -> ListenerState {
    ListenerState { stage: ListenerStage::Accepting, open: 0 }
}

/// Whether an event can come in a state. The end of a connection can come while one
/// is open, and one more than `usize` counts cannot be begun.
pub open spec fn listener_expects(state: ListenerState, event: ListenerEvent) -> bool {
    match event {
        ListenerEvent::Permit(granted) => state.stage is Acquiring && (granted ==> state.open
            < usize::MAX),
        ListenerEvent::ConnectionEnded => (state.stage is Accepting || state.stage is Draining)
            && state.open > 0,
        _ => state.stage is Accepting,
    }
}

/// What a listener that accepts no more does while so many connections are open.
pub open spec fn drained(open: int) -> ListenerAction {
    if open == 0 {
        ListenerAction::Return
    } else {
        ListenerAction::Drain
    }
}

/// What a listener does next, where `serve` is how it serves a connection. The
/// connection of a banned address is dropped; every other one is served once it
/// has a permit. A listener that stops waits for its connections to end.
pub open spec fn listened(
    state: ListenerState,
    event: ListenerEvent,
    bans: Map<IpAddr, u128>,
    serve: ListenerAction,
    now: u64,
) -> ListenerAction {
    match event {
        ListenerEvent::Cancelled => drained(state.open as int),
        ListenerEvent::Accepted(ip) => if crate::ban::is_banned(bans, ip, now) {
            ListenerAction::Accept
        } else {
            ListenerAction::AcquirePermit
        },
        ListenerEvent::AcceptFailed => ListenerAction::Accept,
        ListenerEvent::ConnectionEnded => if state.stage is Draining {
            drained(state.open - 1)
        } else {
            ListenerAction::Accept
        },
        ListenerEvent::Permit(granted) => if granted {
            serve
        } else {
            drained(state.open as int)
        },
    }
}

/// Whether an action serves a connection, at once or after a handshake.
pub open spec fn is_serving(action: ListenerAction) -> bool {
    action is Serve || action is Handshake
}

/// The stage that an action begins.
pub open spec fn stage_of(action: ListenerAction) -> ListenerStage {
    match action {
        ListenerAction::AcquirePermit => ListenerStage::Acquiring,
        ListenerAction::Drain => ListenerStage::Draining,
        ListenerAction::Return => ListenerStage::Finished,
        _ => ListenerStage::Accepting,
    }
}

/// The state that an action begins after an event: a connection that is served is
/// open until it has ended.
pub open spec fn entered(
    state: ListenerState,
    event: ListenerEvent,
    action: ListenerAction,
) -> ListenerState {
    ListenerState {
        stage: stage_of(action),
        open: if is_serving(action) {
            (state.open + 1) as usize
        } else if event is ConnectionEnded {
            (state.open - 1) as usize
        } else {
            state.open
        },
    }
}

/// The bans after an event: a check of the address that connects.
pub open spec fn bans_after(event: ListenerEvent, bans: Map<IpAddr, u128>, now: u64) -> Map<
    IpAddr,
    u128,
> {
    match event {
        ListenerEvent::Accepted(ip) => crate::ban::after_check(bans, ip, now),
        _ => bans,
    }
}

impl ListenerState {
    /// A listener that has just begun.
    pub fn new() -> (r: Self)
        ensures
            r == listening(),
    {
        ListenerState { stage: ListenerStage::Accepting, open: 0 }
    }

    /// Accepts no more connections: waits for those that are open, or returns.
    fn drain(open: usize) -> (r: (Self, ListenerAction))
        ensures
            r.1 == drained(open as int),
            r.0 == (ListenerState { stage: stage_of(r.1), open }),
    {
        if open == 0 {
            (ListenerState { stage: ListenerStage::Finished, open }, ListenerAction::Return)
        } else {
            (ListenerState { stage: ListenerStage::Draining, open }, ListenerAction::Drain)
        }
    }
}

/// One turn of an accept loop.
fn listen(
    state: ListenerState,
    event: ListenerEvent,
    bans: &mut BanManager,
    serve: ListenerAction,
    now: u64,
) -> (r: (ListenerState, ListenerAction))
    requires
        listener_expects(state, event),
        is_serving(serve),
    ensures
        r.1 == listened(state, event, old(bans)@, serve, now),
        r.0 == entered(state, event, r.1),
        final(bans)@ == bans_after(event, old(bans)@, now),
{
    let open: usize = state.open;
    let accepting = ListenerState { stage: ListenerStage::Accepting, open };
    let acquiring = ListenerState { stage: ListenerStage::Acquiring, open };
    match event {
        ListenerEvent::Cancelled => ListenerState::drain(open),
        // Quick IP ban check before accepting the connection
        ListenerEvent::Accepted(ip) => if bans.check(ip, now) {
            (accepting, ListenerAction::Accept)
        } else {
            (acquiring, ListenerAction::AcquirePermit)
        },
        ListenerEvent::AcceptFailed => (accepting, ListenerAction::Accept),
        ListenerEvent::ConnectionEnded => match state.stage {
            ListenerStage::Draining => ListenerState::drain(open - 1),
            _ => (
                ListenerState { stage: ListenerStage::Accepting, open: open - 1 },
                ListenerAction::Accept,
            ),
        },
        ListenerEvent::Permit(granted) => if granted {
            (ListenerState { stage: ListenerStage::Accepting, open: open + 1 }, serve)
        } else {
            ListenerState::drain(open)
        },
    }
}

/// Loop for accepting plain HTTP connections: what follows an event.
pub fn http_server(state: ListenerState, event: ListenerEvent, bans: &mut BanManager, now: u64) -> (r:
    (ListenerState, ListenerAction))
    requires
        listener_expects(state, event),
    ensures
        r.1 == listened(state, event, old(bans)@, ListenerAction::Serve, now),
        r.0 == entered(state, event, r.1),
        final(bans)@ == bans_after(event, old(bans)@, now),
{
    listen(state, event, bans, ListenerAction::Serve, now)
}

/// Loop for accepting secure HTTPS connections with TLS termination: what follows
/// an event.
pub fn https_server(
    state: ListenerState,
    event: ListenerEvent,
    config: &Config,
    bans: &mut BanManager,
    now: u64,
) -> (r: (ListenerState, ListenerAction))
    requires
        listener_expects(state, event),
    ensures
        r.1 == listened(
            state,
            event,
            old(bans)@,
            ListenerAction::Handshake(config.timeout.c_tls_handshake),
            now,
        ),
        r.0 == entered(state, event, r.1),
        final(bans)@ == bans_after(event, old(bans)@, now),
{
    listen(state, event, bans, ListenerAction::Handshake(config.timeout.c_tls_handshake), now)
}

/// What became of a TLS handshake.
#[derive(Debug, Clone, Copy, PartialEq, Eq, Structural)]
pub enum HandshakeOutcome {
    /// It succeeded in time.
    Done,
    /// It failed.
    Failed,
    /// Its time is over.
    TimedOut,
}

/// What a connection does.
#[derive(Debug, Clone, Copy, PartialEq, Eq, Structural)]
pub enum ConnectionState {
    /// It is in its TLS handshake.
    Handshaking,
    /// It is served.
    Serving,
    /// It was told to shut down, and finishes what it has begun.
    ShuttingDown,
    /// It has ended.
    Ended,
}

/// What happens to a connection.
#[derive(Debug, Clone, Copy, PartialEq, Eq, Structural)]
pub enum ConnectionEvent {
    /// Its handshake is over.
    Handshake(HandshakeOutcome),
    /// The server shuts down.
    Cancelled,
    /// It was served to its end.
    Finished,
}

/// What is done with a connection next.
#[derive(Debug, Clone, Copy, PartialEq, Eq, Structural)]
pub enum ConnectionAction {
    /// Serve it.
    Serve,
    /// Tell it to shut down gracefully, and wait for its end.
    ShutDown,
    /// Close it, and give its permit back.
    End,
}

/// How a connection begins that a listener's action serves.
pub open spec fn begun(serve: ListenerAction) -> ConnectionState {
    if serve is Handshake {
        ConnectionState::Handshaking
    } else {
        ConnectionState::Serving
    }
}

/// Whether an event can come in a state. A connection hears of the end of the server
/// while it is served, and once.
pub open spec fn connection_expects(state: ConnectionState, event: ConnectionEvent) -> bool {
    match event {
        ConnectionEvent::Handshake(_) => state is Handshaking,
        ConnectionEvent::Cancelled => state is Serving,
        ConnectionEvent::Finished => state is Serving || state is ShuttingDown,
    }
}

/// What is done with a connection after an event: it is served if its handshake
/// succeeded in time, and told to shut down when the server does.
pub open spec fn connection_action(event: ConnectionEvent) -> ConnectionAction {
    match event {
        ConnectionEvent::Handshake(outcome) => if outcome == HandshakeOutcome::Done {
            ConnectionAction::Serve
        } else {
            ConnectionAction::End
        },
        ConnectionEvent::Cancelled => ConnectionAction::ShutDown,
        ConnectionEvent::Finished => ConnectionAction::End,
    }
}

/// The state of a connection that an event brings about.
pub open spec fn connection_after(event: ConnectionEvent) -> ConnectionState {
    match connection_action(event) {
        ConnectionAction::Serve => ConnectionState::Serving,
        ConnectionAction::ShutDown => ConnectionState::ShuttingDown,
        ConnectionAction::End => ConnectionState::Ended,
    }
}

/// Serves an individual connection until it has ended: what follows an event.
pub fn serve_connection(_state: ConnectionState, event: ConnectionEvent) -> (r: (
    ConnectionState,
    ConnectionAction,
))
    requires
        connection_expects(_state, event),
    ensures
        r.0 == connection_after(event),
        r.1 == connection_action(event),
{
    match event {
        ConnectionEvent::Handshake(outcome) => match outcome {
            HandshakeOutcome::Done => (ConnectionState::Serving, ConnectionAction::Serve),
            _ => (ConnectionState::Ended, ConnectionAction::End),
        },
        ConnectionEvent::Cancelled => (ConnectionState::ShuttingDown, ConnectionAction::ShutDown),
        ConnectionEvent::Finished => (ConnectionState::Ended, ConnectionAction::End),
    }
}

/// HTTP/1.1 and HTTP/2 settings of a connection. Times are in seconds.
#[derive(Debug, Clone, Copy, PartialEq, Eq, Structural)]
pub struct ConnectionSettings {
    pub header_read_timeout: u64,
    pub max_headers: usize,
    pub keep_alive_interval: u64,
    pub keep_alive_timeout: u64,
    pub max_concurrent_streams: u32,
    pub max_header_list_size: u32,
}

/// The low 32 bits of a size.
fn low_bits(n: usize) -> (r: u32)
    ensures
        r == n as int % 0x1_0000_0000,
{
    let wide: u64 = n as u64;
    assert((wide as u32) == wide % 0x1_0000_0000) by (bit_vector);
    #[verifier::truncate]
    (wide as u32)
}

/// The HTTP/1.1 and HTTP/2 specific settings from configuration.
pub fn configure_builder(config: &Config) -> (r: ConnectionSettings)
    ensures
        r.header_read_timeout == config.timeout.c_header_read,
        r.max_headers == config.limit.max_header_count,
        r.keep_alive_interval == config.timeout.c_keep_alive_idle,
        r.keep_alive_timeout == config.timeout.c_keep_alive_timeout,
        r.max_concurrent_streams == config.limit.c_h2_max_streams,
        r.max_header_list_size == config.limit.max_header_size as int % 0x1_0000_0000,
{
    ConnectionSettings {
        header_read_timeout: config.timeout.c_header_read,
        max_headers: config.limit.max_header_count,
        keep_alive_interval: config.timeout.c_keep_alive_idle,
        keep_alive_timeout: config.timeout.c_keep_alive_timeout,
        max_concurrent_streams: config.limit.c_h2_max_streams,
        max_header_list_size: low_bits(config.limit.max_header_size),
    }
}

/// One turn of an accept loop: an event, and what was banned at what moment.
pub struct Turn {
    pub event: ListenerEvent,
    pub bans: Map<IpAddr, u128>,
    pub now: u64,
}

/// The state of a listener after a run.
pub open spec fn state_after(run: Seq<Turn>, serve: ListenerAction) -> ListenerState
    decreases run.len(),
{
    if run.len() == 0 {
        listening()
    } else {
        let before = state_after(run.drop_last(), serve);
        let turn = run.last();
        entered(before, turn.event, listened(before, turn.event, turn.bans, serve, turn.now))
    }
}

/// What a listener does in the last turn of a run.
pub open spec fn last_action(run: Seq<Turn>, serve: ListenerAction) -> ListenerAction {
    if run.len() == 0 {
        ListenerAction::Accept
    } else {
        listened(
            state_after(run.drop_last(), serve),
            run.last().event,
            run.last().bans,
            serve,
            run.last().now,
        )
    }
}

/// Whether each event of a run can come when it comes.
pub open spec fn may_listen(run: Seq<Turn>, serve: ListenerAction) -> bool
    decreases run.len(),
{
    run.len() == 0 || (may_listen(run.drop_last(), serve) && listener_expects(
        state_after(run.drop_last(), serve),
        run.last().event,
    ))
}

/// How many connections are open after a run: those that were begun, less those whose
/// end the listener has seen.
pub open spec fn open_connections(run: Seq<Turn>, serve: ListenerAction) -> int
    decreases run.len(),
{
    if run.len() == 0 {
        0
    } else {
        open_connections(run.drop_last(), serve) + if is_serving(last_action(run, serve)) {
            1int
        } else if run.last().event is ConnectionEnded {
            -1
        } else {
            0
        }
    }
}

/// Whether an event stops a listener: the server shuts down, or there are no permits
/// any more.
pub open spec fn stops(event: ListenerEvent) -> bool {
    event == ListenerEvent::Cancelled || event == ListenerEvent::Permit(false)
}

/// Whether a listener was stopped in a run.
pub open spec fn was_stopped(run: Seq<Turn>) -> bool {
    exists|i: int| 0 <= i < run.len() && stops((#[trigger] run[i]).event)
}

/// A connection is served, or its handshake begun, only when a permit was granted
/// for it, and only if its address was not banned when it came.
pub proof fn only_permitted_connections_are_served(run: Seq<Turn>, serve: ListenerAction)
    requires
        may_listen(run, serve),
        is_serving(serve),
        is_serving(last_action(run, serve)),
    ensures
        run.len() >= 2,
        run.last().event == ListenerEvent::Permit(true),
        last_action(run, serve) == serve,
        run[run.len() - 2].event matches ListenerEvent::Accepted(ip) && !crate::ban::is_banned(
            run[run.len() - 2].bans,
            ip,
            run[run.len() - 2].now,
        ),
{
    let before = run.drop_last();
    assert(before.last() == run[run.len() - 2]);
}

/// Stopping, one turn at a time: a run was stopped if it was before its last turn or
/// is in it.
proof fn stopped_in_the_last_turn(run: Seq<Turn>)
    requires
        run.len() > 0,
    ensures
        was_stopped(run) <==> was_stopped(run.drop_last()) || stops(run.last().event),
{
    let before = run.drop_last();
    if was_stopped(run) {
        let i = choose|i: int| 0 <= i < run.len() && stops((#[trigger] run[i]).event);
        if i < before.len() {
            assert(stops(before[i].event));
        }
    }
    if was_stopped(before) {
        let i = choose|i: int| 0 <= i < before.len() && stops((#[trigger] before[i]).event);
        assert(stops(run[i].event));
    }
    if stops(run.last().event) {
        assert(stops(run[run.len() - 1].event));
    }
}

/// A listener stops only when the server shuts down or there are no permits any
/// more; whatever else happens, a failure to accept too, it goes on. Once it has
/// stopped it accepts nothing: all that follows is the end of connections.
pub proof fn listeners_stop_for_a_reason(run: Seq<Turn>, serve: ListenerAction)
    requires
        may_listen(run, serve),
        is_serving(serve),
    ensures
        (state_after(run, serve).stage is Draining || state_after(run, serve).stage is Finished)
            <==> was_stopped(run),
        forall|i: int, j: int|
            0 <= i < j < run.len() && stops((#[trigger] run[i]).event) ==> (
            #[trigger] run[j]).event is ConnectionEnded,
    decreases run.len(),
{
    if run.len() > 0 {
        let before = run.drop_last();
        listeners_stop_for_a_reason(before, serve);
        stopped_in_the_last_turn(run);
        assert forall|i: int, j: int|
            0 <= i < j < run.len() && stops((#[trigger] run[i]).event) implies (
        #[trigger] run[j]).event is ConnectionEnded by {
            assert(before[i] == run[i]);
            if j < before.len() {
                assert(before[j] == run[j]);
            }
        }
    }
}

/// A listener that was stopped has returned exactly when none of its connections is
/// open; until then it waits. Nothing happens to it after it has returned.
pub proof fn listeners_return_when_no_connection_is_open(
    run: Seq<Turn>,
    serve: ListenerAction,
    next: Turn,
)
    requires
        may_listen(run, serve),
        is_serving(serve),
    ensures
        state_after(run, serve).open == open_connections(run, serve),
        last_action(run, serve) is Return <==> was_stopped(run) && open_connections(run, serve)
            == 0,
        last_action(run, serve) is Drain <==> was_stopped(run) && open_connections(run, serve) > 0,
        last_action(run, serve) is Return ==> !may_listen(run.push(next), serve),
    decreases run.len(),
{
    listeners_stop_for_a_reason(run, serve);
    assert(run.push(next).drop_last() == run);
    if run.len() > 0 {
        listeners_return_when_no_connection_is_open(run.drop_last(), serve, next);
    }
}

/// What happens at a listener or at one of its connections, which are numbered as they
/// began.
pub enum Moment {
    /// The server begins to shut down.
    ShutDown,
    /// A turn of the accept loop.
    Listener(Turn),
    /// An event of a connection.
    Connection(int, ConnectionEvent),
}

/// A listener with all the connections that it ever began.
pub struct Server {
    pub listener: ListenerState,
    pub connections: Seq<ConnectionState>,
    pub cancelled: bool,
}

/// How many connections have ended.
pub open spec fn ended(connections: Seq<ConnectionState>) -> nat
    decreases connections.len(),
{
    if connections.len() == 0 {
        0
    } else {
        ended(connections.drop_last()) + if connections.last() is Ended {
            1nat
        } else {
            0
        }
    }
}

/// The connections once those that are served have heard whether the server shuts
/// down.
pub open spec fn notified(connections: Seq<ConnectionState>, cancelled: bool) -> Seq<
    ConnectionState,
> {
    connections.map_values(
        |c: ConnectionState|
            if cancelled && connection_expects(c, ConnectionEvent::Cancelled) {
                connection_after(ConnectionEvent::Cancelled)
            } else {
                c
            },
    )
}

/// Whether a moment can come. The listener hears of the end of the server when that
/// has begun, and of as many ends of connections as there were.
pub open spec fn may_come(server: Server, moment: Moment) -> bool {
    match moment {
        Moment::ShutDown => true,
        Moment::Listener(turn) => {
            &&& listener_expects(server.listener, turn.event)
            &&& turn.event is Cancelled ==> server.cancelled
            &&& turn.event is ConnectionEnded ==> server.connections.len() - server.listener.open
                < ended(server.connections)
        },
        Moment::Connection(i, event) => {
            &&& 0 <= i < server.connections.len()
            &&& connection_expects(server.connections[i], event)
            &&& event is Cancelled ==> server.cancelled
        },
    }
}

/// The server after a moment. Every connection that is served hears at once that the
/// server shuts down.
pub open spec fn moved(server: Server, moment: Moment, serve: ListenerAction) -> Server {
    let cancelled = server.cancelled || moment is ShutDown;
    match moment {
        Moment::ShutDown => Server {
            connections: notified(server.connections, cancelled),
            cancelled,
            ..server
        },
        Moment::Listener(turn) => {
            let action = listened(server.listener, turn.event, turn.bans, serve, turn.now);
            let connections = if is_serving(action) {
                server.connections.push(begun(action))
            } else {
                server.connections
            };
            Server {
                listener: entered(server.listener, turn.event, action),
                connections: notified(connections, cancelled),
                cancelled,
            }
        },
        Moment::Connection(i, event) => Server {
            connections: notified(
                server.connections.update(i, connection_after(event)),
                cancelled,
            ),
            ..server
        },
    }
}

/// The server after a history.
pub open spec fn server_after(history: Seq<Moment>, serve: ListenerAction) -> Server
    decreases history.len(),
{
    if history.len() == 0 {
        Server { listener: listening(), connections: Seq::empty(), cancelled: false }
    } else {
        moved(server_after(history.drop_last(), serve), history.last(), serve)
    }
}

/// Whether each moment of a history can come when it comes.
pub open spec fn may_unfold(history: Seq<Moment>, serve: ListenerAction) -> bool
    decreases history.len(),
{
    history.len() == 0 || (may_unfold(history.drop_last(), serve) && may_come(
        server_after(history.drop_last(), serve),
        history.last(),
    ))
}

/// How many connections hold a permit: those that have not ended.
pub open spec fn permits_held(server: Server) -> int {
    server.connections.len() - ended(server.connections)
}

/// Whether permits are granted only while fewer than `limit` are held.
pub open spec fn grants_within(history: Seq<Moment>, serve: ListenerAction, limit: int) -> bool
    decreases history.len(),
{
    history.len() == 0 || (grants_within(history.drop_last(), serve, limit) && (
    history.last() matches Moment::Listener(turn) && turn.event == ListenerEvent::Permit(true)
        ==> permits_held(server_after(history.drop_last(), serve)) < limit))
}

/// A changed connection changes the number of those that have ended by itself alone.
proof fn ended_after_update(connections: Seq<ConnectionState>, i: int, state: ConnectionState)
    requires
        0 <= i < connections.len(),
    ensures
        ended(connections.update(i, state)) == ended(connections) - (if connections[i] is Ended {
            1int
        } else {
            0
        }) + (if state is Ended {
            1int
        } else {
            0
        }),
    decreases connections.len(),
{
    let changed = connections.update(i, state);
    if i == connections.len() - 1 {
        assert(changed.drop_last() == connections.drop_last());
    } else {
        assert(changed.drop_last() == connections.drop_last().update(i, state));
        ended_after_update(connections.drop_last(), i, state);
    }
}

/// Hearing that the server shuts down ends no connection.
proof fn ended_after_notice(connections: Seq<ConnectionState>, cancelled: bool)
    ensures
        ended(notified(connections, cancelled)) == ended(connections),
    decreases connections.len(),
{
    if connections.len() > 0 {
        let heard = notified(connections, cancelled);
        assert(heard.drop_last() == notified(connections.drop_last(), cancelled));
        ended_after_notice(connections.drop_last(), cancelled);
    }
}

/// Where as many connections have ended as there are, each has.
proof fn all_ended(connections: Seq<ConnectionState>)
    ensures
        ended(connections) <= connections.len(),
        ended(connections) == connections.len() ==> forall|i: int|
            0 <= i < connections.len() ==> #[trigger] connections[i] is Ended,
    decreases connections.len(),
{
    if connections.len() > 0 {
        let before = connections.drop_last();
        all_ended(before);
        assert forall|i: int|
            ended(connections) == connections.len() && 0 <= i
                < connections.len() implies #[trigger] connections[i] is Ended by {
            if i < before.len() {
                assert(before[i] == connections[i]);
            }
        }
    }
}

/// How a moment changes the number of connections and of those that have ended.
proof fn counts_after_moment(server: Server, moment: Moment, serve: ListenerAction)
    requires
        may_come(server, moment),
        is_serving(serve),
    ensures
        ({
            let next = moved(server, moment, serve);
            let begins = moment matches Moment::Listener(turn) && turn.event
                == ListenerEvent::Permit(true);
            let ends = moment matches Moment::Connection(_, event) && connection_action(
                event,
            ) is End;
            &&& next.connections.len() == server.connections.len() + if begins {
                1int
            } else {
                0
            }
            &&& ended(next.connections) == ended(server.connections) + if ends {
                1int
            } else {
                0
            }
        }),
{
    let cancelled = server.cancelled || moment is ShutDown;
    match moment {
        Moment::ShutDown => {
            ended_after_notice(server.connections, cancelled);
        },
        Moment::Listener(turn) => {
            let action = listened(server.listener, turn.event, turn.bans, serve, turn.now);
            if is_serving(action) {
                let connections = server.connections.push(begun(action));
                assert(connections.drop_last() == server.connections);
                ended_after_notice(connections, cancelled);
            } else {
                ended_after_notice(server.connections, cancelled);
            }
        },
        Moment::Connection(i, event) => {
            ended_after_update(server.connections, i, connection_after(event));
            ended_after_notice(server.connections.update(i, connection_after(event)), cancelled);
        },
    }
}

/// The turns of the accept loop in a history.
pub open spec fn turns(history: Seq<Moment>) -> Seq<Turn>
    decreases history.len(),
{
    if history.len() == 0 {
        Seq::empty()
    } else {
        match history.last() {
            Moment::Listener(turn) => turns(history.drop_last()).push(turn),
            _ => turns(history.drop_last()),
        }
    }
}

/// What happens to the listener in a history is a run of the listener, and leaves it in
/// the state that the run leaves it in.
pub proof fn histories_hold_runs(history: Seq<Moment>, serve: ListenerAction)
    requires
        may_unfold(history, serve),
    ensures
        may_listen(turns(history), serve),
        server_after(history, serve).listener == state_after(turns(history), serve),
    decreases history.len(),
{
    if history.len() > 0 {
        histories_hold_runs(history.drop_last(), serve);
        if let Moment::Listener(turn) = history.last() {
            assert(turns(history).drop_last() == turns(history.drop_last()));
        }
    }
}

/// Whether a listener was refused a permit in a run, because there are none any more.
pub open spec fn was_refused(run: Seq<Turn>) -> bool {
    exists|i: int| 0 <= i < run.len() && (#[trigger] run[i]).event == ListenerEvent::Permit(false)
}

/// A listener stops only after the server has begun to shut down, or when there are no
/// permits any more.
pub proof fn listeners_stop_after_the_shutdown(history: Seq<Moment>, serve: ListenerAction)
    requires
        may_unfold(history, serve),
        is_serving(serve),
    ensures
        was_stopped(turns(history)) ==> server_after(history, serve).cancelled || was_refused(
            turns(history),
        ),
    decreases history.len(),
{
    if history.len() > 0 {
        let before = turns(history.drop_last());
        listeners_stop_after_the_shutdown(history.drop_last(), serve);
        if let Moment::Listener(turn) = history.last() {
            let run = turns(history);
            assert(run.drop_last() == before);
            stopped_in_the_last_turn(run);
            if was_refused(before) {
                let i = choose|i: int|
                    0 <= i < before.len() && (#[trigger] before[i]).event
                        == ListenerEvent::Permit(false);
                assert(run[i].event == ListenerEvent::Permit(false));
            }
            assert(run[run.len() - 1] == turn);
        }
    }
}

/// No end of a connection is counted that has not come: of the connections that a
/// listener counts as open, at least those are that have not ended.
proof fn open_connections_are_counted(history: Seq<Moment>, serve: ListenerAction)
    requires
        may_unfold(history, serve),
        is_serving(serve),
    ensures
        permits_held(server_after(history, serve)) <= server_after(history, serve).listener.open
            <= server_after(history, serve).connections.len(),
    decreases history.len(),
{
    if history.len() > 0 {
        let before = server_after(history.drop_last(), serve);
        open_connections_are_counted(history.drop_last(), serve);
        all_ended(before.connections);
        counts_after_moment(before, history.last(), serve);
    }
}

/// A listener returns once it was stopped and every connection that it ever began has
/// ended: it has returned exactly when it was stopped and has seen the end of each, and
/// then each has ended.
pub proof fn listeners_return_after_their_connections(
    history: Seq<Moment>,
    serve: ListenerAction,
)
    requires
        may_unfold(history, serve),
        is_serving(serve),
    ensures
        ({
            let server = server_after(history, serve);
            &&& server.listener.stage is Finished <==> was_stopped(turns(history))
                && open_connections(turns(history), serve) == 0
            &&& server.listener.stage is Finished ==> forall|i: int|
                0 <= i < server.connections.len() ==> #[trigger] server.connections[i] is Ended
        }),
{
    let server = server_after(history, serve);
    let run = turns(history);
    histories_hold_runs(history, serve);
    if run.len() > 0 {
        listeners_return_when_no_connection_is_open(run, serve, run.last());
    }
    open_connections_are_counted(history, serve);
    all_ended(server.connections);
}

/// Once the server shuts down, every connection that is still open has been told to
/// shut down gracefully, or is in its handshake and is told when that is done. None is
/// told before.
pub proof fn shutdown_reaches_every_connection(
    history: Seq<Moment>,
    serve: ListenerAction,
    i: int,
)
    requires
        may_unfold(history, serve),
        is_serving(serve),
        0 <= i < server_after(history, serve).connections.len(),
    ensures
        ({
            let server = server_after(history, serve);
            let connection = server.connections[i];
            &&& server.cancelled ==> connection is ShuttingDown || connection is Handshaking
                || connection is Ended
            &&& !server.cancelled ==> !(connection is ShuttingDown)
        }),
    decreases history.len(),
{
    if history.len() > 0 {
        let before = server_after(history.drop_last(), serve);
        if i < before.connections.len() {
            shutdown_reaches_every_connection(history.drop_last(), serve, i);
        }
    }
}

/// A connection ends when it was served to its end or its handshake did not succeed,
/// and for no other reason: one that was told to shut down is waited for.
pub proof fn connections_end_by_themselves(
    history: Seq<Moment>,
    serve: ListenerAction,
    i: int,
    moment: Moment,
)
    requires
        may_unfold(history, serve),
        may_come(server_after(history, serve), moment),
        is_serving(serve),
        0 <= i < server_after(history, serve).connections.len(),
        !(server_after(history, serve).connections[i] is Ended),
    ensures
        moved(server_after(history, serve), moment, serve).connections[i] is Ended <==> (
        moment == Moment::Connection(i, ConnectionEvent::Finished) || moment == Moment::Connection(
            i,
            ConnectionEvent::Handshake(HandshakeOutcome::Failed),
        ) || moment == Moment::Connection(
            i,
            ConnectionEvent::Handshake(HandshakeOutcome::TimedOut),
        )),
{
}

/// While permits are granted only below a limit, no more connections than that are
/// ever in handshake or served.
pub proof fn connections_stay_within_the_limit(
    history: Seq<Moment>,
    serve: ListenerAction,
    limit: int,
)
    requires
        limit >= 0,
        may_unfold(history, serve),
        is_serving(serve),
        grants_within(history, serve, limit),
    ensures
        permits_held(server_after(history, serve)) <= limit,
    decreases history.len(),
{
    if history.len() > 0 {
        let before = server_after(history.drop_last(), serve);
        connections_stay_within_the_limit(history.drop_last(), serve, limit);
        counts_after_moment(before, history.last(), serve);
    }
}

/// A client that was punished is turned away for exactly the configured time: a
/// connection from its address is dropped up to the end of the ban and waits for a
/// permit after it, and no other address is treated differently.
pub proof fn punished_clients_are_turned_away(
    bans: Map<IpAddr, u128>,
    ip: IpAddr,
    violation: crate::ban::Violation,
    config: crate::config::BanConfig,
    now: u64,
    other: IpAddr,
    later: u64,
    state: ListenerState,
    serve: ListenerAction,
)
    requires
        crate::ban::ban_seconds(violation, config) > 0,
        now <= later,
    ensures
        ({
            let after = crate::ban::punished(bans, ip, violation, config, now);
            &&& listened(state, ListenerEvent::Accepted(ip), after, serve, later) == if later - now
                <= crate::ban::ban_seconds(violation, config) * crate::ban::NANOS_PER_SECOND {
                ListenerAction::Accept
            } else {
                ListenerAction::AcquirePermit
            }
            &&& other != ip ==> listened(state, ListenerEvent::Accepted(other), after, serve, later)
                == listened(state, ListenerEvent::Accepted(other), bans, serve, later)
        }),
{
    crate::ban::punishment_lasts_as_configured(bans, ip, violation, config, now, later, other);
}

/// A connection of an address that is not banned waits for a permit, and one of a banned
/// address is dropped; a permit lets it be served; and a failure to accept lets the
/// listener accept the next.
pub proof fn listeners_go_on(
    state: ListenerState,
    bans: Map<IpAddr, u128>,
    serve: ListenerAction,
    ip: IpAddr,
    now: u64,
)
    ensures
        !bans.contains_key(ip) || now > bans[ip] ==> listened(
            state,
            ListenerEvent::Accepted(ip),
            bans,
            serve,
            now,
        ) == ListenerAction::AcquirePermit,
        bans.contains_key(ip) && now <= bans[ip] ==> listened(
            state,
            ListenerEvent::Accepted(ip),
            bans,
            serve,
            now,
        ) == ListenerAction::Accept,
        listened(state, ListenerEvent::Permit(true), bans, serve, now) == serve,
        listened(state, ListenerEvent::AcceptFailed, bans, serve, now) == ListenerAction::Accept,
        state.stage is Accepting ==> listened(
            state,
            ListenerEvent::ConnectionEnded,
            bans,
            serve,
            now,
        ) == ListenerAction::Accept,
        stage_of(ListenerAction::AcquirePermit) is Acquiring,
        stage_of(ListenerAction::Accept) is Accepting,
        is_serving(serve) ==> stage_of(serve) is Accepting,
{
}

/// A listener's check of an address drops no ban that is still running.
pub proof fn listeners_keep_running_bans(
    event: ListenerEvent,
    bans: Map<IpAddr, u128>,
    now: u64,
    ip: IpAddr,
    later: u64,
)
    requires
        now <= later,
    ensures
        crate::ban::is_banned(bans_after(event, bans, now), ip, later) == crate::ban::is_banned(
            bans,
            ip,
            later,
        ),
        !(event is Accepted) ==> bans_after(event, bans, now) == bans,
{
}

/// A connection is served after a handshake that succeeds, and one whose handshake fails or
/// takes too long is closed; one that is served is told to shut down when the server does,
/// and is over when it was served to its end.
pub proof fn connections_go_on(serve: ListenerAction)
    ensures
        connection_action(ConnectionEvent::Handshake(HandshakeOutcome::Done))
            == ConnectionAction::Serve,
        connection_after(ConnectionEvent::Handshake(HandshakeOutcome::Done))
            == ConnectionState::Serving,
        connection_action(ConnectionEvent::Handshake(HandshakeOutcome::Failed))
            == ConnectionAction::End,
        connection_action(ConnectionEvent::Handshake(HandshakeOutcome::TimedOut))
            == ConnectionAction::End,
        connection_action(ConnectionEvent::Cancelled) == ConnectionAction::ShutDown,
        connection_after(ConnectionEvent::Cancelled) == ConnectionState::ShuttingDown,
        connection_action(ConnectionEvent::Finished) == ConnectionAction::End,
        connection_after(ConnectionEvent::Finished) == ConnectionState::Ended,
        serve is Handshake ==> begun(serve) is Handshaking,
        serve is Serve ==> begun(serve) is Serving,
{
}

/// The settings of a connection are those of the configuration, the size of its headers as
/// far as 32 bits hold it.
pub proof fn connections_have_the_configured_settings(config: Config, r: ConnectionSettings)
    requires
        call_ensures(configure_builder, (&config,), r),
    ensures
        r.header_read_timeout == config.timeout.c_header_read,
        r.max_headers == config.limit.max_header_count,
        r.keep_alive_interval == config.timeout.c_keep_alive_idle,
        r.keep_alive_timeout == config.timeout.c_keep_alive_timeout,
        r.max_concurrent_streams == config.limit.c_h2_max_streams,
        config.limit.max_header_size < 0x1_0000_0000 ==> r.max_header_list_size
            == config.limit.max_header_size,
{
}

/// A plain listener serves a connection with a permit at once, a secure one after a
/// handshake of at most the configured time; both drop the connections of banned addresses
/// and return when they were stopped and no connection is open.
pub proof fn listeners_serve_in_their_way(
    state: ListenerState,
    config: Config,
    plain_bans: &mut BanManager,
    secure_bans: &mut BanManager,
    event: ListenerEvent,
    now: u64,
    plain: (ListenerState, ListenerAction),
    secure: (ListenerState, ListenerAction),
)
    requires
        listener_expects(state, event),
        call_ensures(http_server, (state, event, plain_bans, now), plain),
        call_ensures(https_server, (state, event, &config, secure_bans, now), secure),
    ensures
        event == ListenerEvent::Permit(true) ==> plain.1 == ListenerAction::Serve && secure.1
            == ListenerAction::Handshake(config.timeout.c_tls_handshake) && plain.0.open
            == state.open + 1 && secure.0.open == state.open + 1,
        event matches ListenerEvent::Accepted(ip) ==> {
            &&& plain.1 == if old(plain_bans)@.contains_key(ip) && now <= old(plain_bans)@[ip] {
                ListenerAction::Accept
            } else {
                ListenerAction::AcquirePermit
            }
            &&& secure.1 == if old(secure_bans)@.contains_key(ip) && now <= old(secure_bans)@[ip] {
                ListenerAction::Accept
            } else {
                ListenerAction::AcquirePermit
            }
        },
        event == ListenerEvent::Cancelled || event == ListenerEvent::Permit(false) ==> {
            &&& state.open == 0 ==> plain.1 is Return && secure.1 is Return
            &&& state.open > 0 ==> plain.1 is Drain && secure.1 is Drain
        },
        event == ListenerEvent::ConnectionEnded ==> {
            &&& plain.0.open == state.open - 1 && secure.0.open == state.open - 1
            &&& state.stage is Draining && state.open == 1 ==> plain.1 is Return && secure.1 is Return
            &&& state.stage is Draining && state.open > 1 ==> plain.1 is Drain && secure.1 is Drain
            &&& state.stage is Accepting ==> plain.1 is Accept && secure.1 is Accept
        },
        event == ListenerEvent::AcceptFailed ==> plain.1 is Accept && secure.1 is Accept,
{
}

/// Every step of a connection and of a listener is one of the moments of which the laws
/// speak.
pub proof fn connections_run_step_by_step(
    state: ConnectionState,
    event: ConnectionEvent,
    r: (ConnectionState, ConnectionAction),
)
    requires
        connection_expects(state, event),
        call_ensures(serve_connection, (state, event), r),
    ensures
        r.0 == connection_after(event),
        r.1 == connection_action(event),
        r.1 is End <==> r.0 is Ended,
        r.1 is ShutDown <==> event is Cancelled,
{
}

/// A listener runs step by step: where it stands after a run, a further event takes it to
/// where it stands after the longer run.
pub proof fn listeners_run_step_by_step(
    run: Seq<Turn>,
    bans: &mut BanManager,
    event: ListenerEvent,
    now: u64,
    r: (ListenerState, ListenerAction),
)
    requires
        listener_expects(state_after(run, ListenerAction::Serve), event),
        call_ensures(
            http_server,
            (state_after(run, ListenerAction::Serve), event, bans, now),
            r,
        ),
    ensures
        ({
            let longer = run.push((Turn { event, bans: old(bans)@, now }));
            &&& r.0 == state_after(longer, ListenerAction::Serve)
            &&& r.1 == last_action(longer, ListenerAction::Serve)
        }),
        final(bans)@ == bans_after(event, old(bans)@, now),
{
    let longer = run.push((Turn { event, bans: old(bans)@, now }));
    assert(longer.drop_last() == run);
}

/// The same for a secure listener.
pub proof fn secure_listeners_run_step_by_step(
    run: Seq<Turn>,
    config: Config,
    bans: &mut BanManager,
    event: ListenerEvent,
    now: u64,
    r: (ListenerState, ListenerAction),
)
    requires
        listener_expects(
            state_after(run, ListenerAction::Handshake(config.timeout.c_tls_handshake)),
            event,
        ),
        call_ensures(
            https_server,
            (
                state_after(run, ListenerAction::Handshake(config.timeout.c_tls_handshake)),
                event,
                &config,
                bans,
                now,
            ),
            r,
        ),
    ensures
        ({
            let serve = ListenerAction::Handshake(config.timeout.c_tls_handshake);
            let longer = run.push((Turn { event, bans: old(bans)@, now }));
            &&& r.0 == state_after(longer, serve)
            &&& r.1 == last_action(longer, serve)
        }),
        final(bans)@ == bans_after(event, old(bans)@, now),
{
    let longer = run.push((Turn { event, bans: old(bans)@, now }));
    assert(longer.drop_last() == run);
}

} // verus!
