//! The decisions of the proxy on each request and response.
use crate::ban::{BanManager, Violation};
use crate::config::{Config, TimeoutConfig};
use crate::headers::{header_text, insert, new_headers, HOST, LOCATION};
use crate::health::HealthManager;
use crate::http::{
    Method, Reply, RequestHead, RequestUri, BAD_GATEWAY, FORBIDDEN, GATEWAY_TIMEOUT,
    INTERNAL_SERVER_ERROR, PAYLOAD_TOO_LARGE, PERMANENT_REDIRECT,
};
use crate::net::IpAddr;
use crate::proxy::balance::select_upstream;
use crate::proxy::reply::error_response;
use crate::proxy::request::{get_host, get_real_ip, is_websocket, refuse, verify_request};
use crate::ratelimit::RateLimiter;
use crate::text::{append, string_of};
use crate::waf::Rules;
use vstd::prelude::*;

pub mod balance;
pub mod reply;
pub mod request;
pub mod upstream;

verus! {

broadcast use vstd::string::group_string_axioms;

/// Where a plain request is redirected to: the same host and target over HTTPS.
pub open spec fn redirect_location(
    uri: RequestUri,
    entries: Map<Seq<char>, Seq<Seq<u8>>>,
) -> Seq<char> {
    "https://"@ + (match crate::headers::text_of(entries, HOST@) {
        Some(host) => host,
        None => "localhost"@,
    }) + uri.target()
}

/// Whether a response redirects to a location. A location that cannot stand in a
/// header is an internal error.
pub open spec fn redirects_to(reply: Reply, location: Seq<char>) -> bool {
    if crate::headers::valid_value(location) {
        &&& reply.status == PERMANENT_REDIRECT
        &&& crate::headers::header_entries(reply.headers) == Map::<
            Seq<char>,
            Seq<Seq<u8>>,
        >::empty().insert(LOCATION@, reply::value(location))
    } else {
        reply::error_reply(reply, INTERNAL_SERVER_ERROR)
    }
}

/// Redirects a request to HTTPS.
pub fn redirect(head: &RequestHead) -> (r: Reply)
    ensures
        redirects_to(
            r,
            redirect_location(head.uri, crate::headers::header_entries(head.headers)),
        ),
{
    proof {
        crate::headers::names_are_lower();
    }
    let host = match header_text(&head.headers, HOST) {
        Some(chars) => string_of(chars.as_slice()),
        None => "localhost".to_owned(),
    };
    let mut location = String::new();
    append(&mut location, "https://");
    append(&mut location, host.as_str());
    append(&mut location, head.uri.target_text());
    assert(location@ == redirect_location(
        head.uri,
        crate::headers::header_entries(head.headers),
    ));
    let mut headers = new_headers();
    assert(crate::headers::header_entries(headers) == Map::<Seq<char>, Seq<Seq<u8>>>::empty());
    if insert(&mut headers, LOCATION, location.as_str()).is_ok() {
        Reply { status: PERMANENT_REDIRECT, headers }
    } else {
        error_response(INTERNAL_SERVER_ERROR)
    }
}

/// Handler for plain HTTP requests. Automatically redirects everything to HTTPS.
pub fn http_proxy(
    head: &RequestHead,
    forwarded: Option<IpAddr>,
    remote: IpAddr,
    config: &Config,
    rules: &Rules,
    bans: &mut BanManager,
    limiter: &mut RateLimiter,
    now: u64,
) -> (r: Reply)
    ensures
        ({
            let ip = request::client_ip(forwarded, remote);
            let rated = crate::ratelimit::checked(old(limiter)@, ip, config.limit.max_rps, now);
            &&& final(limiter)@ == rated.0
            &&& match request::request_fault(*head, config.limit, rated.1) {
                Some((status, violation)) => {
                    &&& reply::error_reply(r, status)
                    &&& final(bans)@ == crate::ban::punished(
                        old(bans)@,
                        ip,
                        violation,
                        config.ban,
                        now,
                    )
                },
                None => {
                    &&& redirects_to(
                        r,
                        redirect_location(head.uri, crate::headers::header_entries(head.headers)),
                    )
                    &&& final(bans)@ == old(bans)@
                },
            }
        }),
{
    let ip = get_real_ip(forwarded, remote);
    // [1] Verify security even for redirects
    match verify_request(head, ip, config, rules, bans, limiter, now) {
        Err(reply) => reply,
        // [2] Build and return HTTPS redirect response
        Ok(()) => redirect(head),
    }
}

/// How far the handling of a secure request has come.
#[derive(Debug, Clone, Copy, PartialEq, Eq, Structural)]
pub enum HttpsStage {
    /// Nothing is decided.
    Start,
    /// Its body is being read.
    Buffering,
    /// It is being sent on.
    Dispatched,
    /// It is answered.
    Answered,
}

/// What happens to a secure request.
#[derive(Debug)]
pub enum HttpsEvent {
    /// Its head has arrived.
    Begin,
    /// Its body was read.
    BodyRead(Vec<u8>),
    /// Its body is too large or broke off.
    BodyFailed,
    /// The upstream server could not be reached.
    ConnectFailed,
    /// The time for sending it on is over.
    DeadlinePassed,
}

/// What to do next with a secure request. Times are in seconds.
#[derive(Debug)]
pub enum HttpsAction {
    /// Answer it.
    Respond(Reply),
    /// Read its body, up to a size.
    BufferBody(usize),
    /// Send it on to an upstream server.
    Request { addr: String, deadline: u64, response: u64 },
    /// Connect it to an upstream server as a WebSocket.
    WebSocket { addr: String, deadline: u64, connect: u64, response: u64, idle: u64 },
}

/// Whether an event can come in a stage.
pub open spec fn https_expects(stage: HttpsStage, event: HttpsEvent) -> bool {
    match event {
        HttpsEvent::Begin => stage is Start,
        HttpsEvent::BodyRead(_) | HttpsEvent::BodyFailed => stage is Buffering,
        HttpsEvent::ConnectFailed | HttpsEvent::DeadlinePassed => stage is Dispatched,
    }
}

/// The stage that an action begins.
pub open spec fn stage_of(action: HttpsAction) -> HttpsStage {
    match action {
        HttpsAction::Respond(_) => HttpsStage::Answered,
        HttpsAction::BufferBody(_) => HttpsStage::Buffering,
        _ => HttpsStage::Dispatched,
    }
}

/// Whether a request is sent on.
pub open spec fn sends_on(action: HttpsAction) -> bool {
    action is Request || action is WebSocket
}

/// Whether the body of a request is read before it is sent on.
pub open spec fn buffered(method: Method) -> bool {
    method == Method::Post || method == Method::Put || method == Method::Patch
}

/// The places of the virtual host and the route that serve a request.
pub open spec fn route_place(config: Config, head: RequestHead) -> Option<(int, int)> {
    let host = request::host_of(head.uri, crate::headers::header_entries(head.headers));
    match crate::config::vhost_index(config.vhosts@, host) {
        Some(v) => match crate::config::first_prefix(
            config.vhosts@[v].1.routers@,
            head.uri.path(),
        ) {
            Some(i) => Some((v, i)),
            None => None,
        },
        None => None,
    }
}

/// Whether an action sends a request to the chosen upstream server, or answers
/// that there is none.
pub open spec fn dispatches(
    action: HttpsAction,
    choice: Option<Seq<char>>,
    websocket: bool,
    timeouts: TimeoutConfig,
) -> bool {
    match choice {
        Some(target) => if websocket {
            action matches HttpsAction::WebSocket { addr, deadline, connect, response, idle }
                && addr@ == target && deadline == timeouts.c_body_timeout && connect
                == timeouts.s_connect && response == timeouts.s_response && idle
                == timeouts.s_websocket_idle
        } else {
            action matches HttpsAction::Request { addr, deadline, response } && addr@ == target
                && deadline == timeouts.c_body_timeout && response == timeouts.s_response
        },
        None => action matches HttpsAction::Respond(reply) && reply::error_reply(
            reply,
            BAD_GATEWAY,
        ),
    }
}

/// The upstream server that a request is sent to: of its route, the one whose turn
/// it is by the route's counter.
pub open spec fn chosen_upstream(
    head: RequestHead,
    config: Config,
    statuses: Map<Seq<char>, bool>,
) -> Option<Seq<char>> {
    match route_place(config, head) {
        Some((v, i)) => balance::picked(
            config.vhosts@[v].1.routers@[i].1@,
            statuses,
            config.vhosts@[v].1.routers_state@[i],
            0,
        ),
        None => None,
    }
}

/// Whether an action is the dispatch of a request.
pub open spec fn dispatched(
    action: HttpsAction,
    head: RequestHead,
    config: Config,
    statuses: Map<Seq<char>, bool>,
) -> bool {
    dispatches(
        action,
        chosen_upstream(head, config, statuses),
        request::asks_websocket(crate::headers::header_entries(head.headers)),
        config.timeout,
    )
}

/// Whether a request comes to its dispatch when an event happens to it.
pub open spec fn comes_to_dispatch(
    event: HttpsEvent,
    head: RequestHead,
    config: Config,
    within_rate: bool,
) -> bool {
    match event {
        HttpsEvent::Begin => request::request_fault(head, config.limit, within_rate) is None
            && !buffered(head.method),
        HttpsEvent::BodyRead(bytes) => crate::waf::body_fault(
            crate::headers::header_entries(head.headers),
            bytes@,
        ) is None,
        _ => false,
    }
}

/// Whether a configuration is another one after a dispatch, if there was one: only
/// the counter of the route that serves the request has moved on.
pub open spec fn turned(
    after: Config,
    before: Config,
    head: RequestHead,
    dispatching: bool,
) -> bool {
    &&& crate::config::same_settings(after, before)
    &&& crate::config::counters(after) == crate::config::advanced(
        crate::config::counters(before),
        if dispatching {
            route_place(before, head)
        } else {
            None
        },
    )
}

/// What a client is punished for when an event happens to its request.
pub open spec fn https_violation(
    event: HttpsEvent,
    head: RequestHead,
    config: Config,
    within_rate: bool,
) -> Option<Violation> {
    match event {
        HttpsEvent::Begin => match request::request_fault(head, config.limit, within_rate) {
            Some((_, violation)) => Some(violation),
            None => None,
        },
        HttpsEvent::BodyRead(bytes) => if crate::waf::body_fault(
            crate::headers::header_entries(head.headers),
            bytes@,
        ) is Some {
            Some(Violation::Waf)
        } else {
            None
        },
        HttpsEvent::BodyFailed => Some(Violation::Protocol),
        HttpsEvent::ConnectFailed => None,
        HttpsEvent::DeadlinePassed => Some(Violation::Timeout),
    }
}

/// Whether an action is right when an event happens to a request.
pub open spec fn https_follows(
    event: HttpsEvent,
    head: RequestHead,
    config: Config,
    statuses: Map<Seq<char>, bool>,
    within_rate: bool,
    action: HttpsAction,
) -> bool {
    match event {
        HttpsEvent::Begin => match request::request_fault(head, config.limit, within_rate) {
            Some((status, _)) => action matches HttpsAction::Respond(reply) && reply::error_reply(
                reply,
                status,
            ),
            None => if buffered(head.method) {
                action == HttpsAction::BufferBody(config.limit.max_body_size)
            } else {
                dispatched(action, head, config, statuses)
            },
        },
        HttpsEvent::BodyRead(bytes) => if crate::waf::body_fault(
            crate::headers::header_entries(head.headers),
            bytes@,
        ) is Some {
            action matches HttpsAction::Respond(reply) && reply::error_reply(reply, FORBIDDEN)
        } else {
            dispatched(action, head, config, statuses)
        },
        HttpsEvent::BodyFailed => action matches HttpsAction::Respond(reply)
            && reply::error_reply(reply, PAYLOAD_TOO_LARGE),
        HttpsEvent::ConnectFailed => action matches HttpsAction::Respond(reply)
            && reply::error_reply(reply, BAD_GATEWAY),
        HttpsEvent::DeadlinePassed => action matches HttpsAction::Respond(reply)
            && reply::error_reply(reply, GATEWAY_TIMEOUT),
    }
}

/// Sends a request to the chosen upstream server, or answers that there is none.
pub fn dispatch_to(choice: Option<String>, websocket: bool, timeouts: &TimeoutConfig) -> (r:
    HttpsAction)
    ensures
        dispatches(
            r,
            match choice {
                Some(addr) => Some(addr@),
                None => None,
            },
            websocket,
            *timeouts,
        ),
{
    match choice {
        // WebSockets need direct TCP streaming
        Some(addr) => if websocket {
            HttpsAction::WebSocket {
                addr,
                deadline: timeouts.c_body_timeout,
                connect: timeouts.s_connect,
                response: timeouts.s_response,
                idle: timeouts.s_websocket_idle,
            }
        } else {
            HttpsAction::Request {
                addr,
                deadline: timeouts.c_body_timeout,
                response: timeouts.s_response,
            }
        },
        None => HttpsAction::Respond(error_response(BAD_GATEWAY)),
    }
}

/// Routing and Dispatch: finds the virtual host and the route of a request, and
/// the upstream server whose turn it is.
pub fn dispatch(head: &RequestHead, config: &mut Config, health: &HealthManager) -> (r: HttpsAction)
    requires
        old(config).wf(),
    ensures
        dispatched(r, *head, *old(config), health@),
        turned(*final(config), *old(config), *head, true),
        final(config).wf(),
{
    let ghost before = *config;
    let websocket = is_websocket(head);
    let domain = get_host(head);
    let path = head.uri.path_text();
    let mut choice: Option<String> = None;
    proof {
        crate::config::vhost_index_bounds(config.vhosts@, domain@);
    }
    if let Some(v) = config.vhost_position(domain.as_str()) {
        proof {
            crate::config::first_prefix_bounds(config.vhosts@[v as int].1.routers@, path@);
        }
        if let Some(i) = config.vhosts[v].1.find_route(path.as_str()) {
            let vhost = &mut config.vhosts[v].1;
            choice = select_upstream(&vhost.routers[i].1, &mut vhost.routers_state[i], health);
        }
    }
    assert(crate::config::counters(*config) == crate::config::advanced(
        crate::config::counters(before),
        route_place(before, *head),
    ));
    dispatch_to(choice, websocket, &config.timeout)
}

/// Handler for secure HTTPS requests. Main entry for routing and WAF body
/// inspection: decides what follows an event.
pub fn https_proxy(
    _stage: HttpsStage,
    event: HttpsEvent,
    head: &RequestHead,
    forwarded: Option<IpAddr>,
    remote: IpAddr,
    config: &mut Config,
    rules: &Rules,
    bans: &mut BanManager,
    limiter: &mut RateLimiter,
    health: &HealthManager,
    now: u64,
) -> (r: (HttpsStage, HttpsAction))
    requires
        old(config).wf(),
        https_expects(_stage, event),
    ensures
        ({
            let ip = request::client_ip(forwarded, remote);
            let limit = old(config).limit;
            let rated = crate::ratelimit::checked(old(limiter)@, ip, limit.max_rps, now);
            &&& r.0 == stage_of(r.1)
            &&& https_follows(event, *head, *old(config), health@, rated.1, r.1)
            &&& final(config).wf()
            &&& turned(
                *final(config),
                *old(config),
                *head,
                comes_to_dispatch(event, *head, *old(config), rated.1),
            )
            &&& final(limiter)@ == if event is Begin {
                rated.0
            } else {
                old(limiter)@
            }
            &&& final(bans)@ == match https_violation(event, *head, *old(config), rated.1) {
                Some(violation) => crate::ban::punished(
                    old(bans)@,
                    ip,
                    violation,
                    old(config).ban,
                    now,
                ),
                None => old(bans)@,
            }
        }),
{
    let ip = get_real_ip(forwarded, remote);
    let action = match event {
        HttpsEvent::Begin => match verify_request(head, ip, config, rules, bans, limiter, now) {
            // [1] Initial Security verification
            Err(reply) => HttpsAction::Respond(reply),
            // [2] Conditional Body Buffering: Only buffer for payload-heavy methods
            Ok(()) => match head.method {
                Method::Post | Method::Put | Method::Patch => HttpsAction::BufferBody(
                    config.limit.max_body_size,
                ),
                _ => dispatch(head, config, health),
            },
        },
        HttpsEvent::BodyRead(bytes) => {
            // Task: WAF Body Check (Deep inspection of payload)
            if crate::waf::body(rules, &head.headers, bytes.as_slice()).is_err() {
                HttpsAction::Respond(refuse(FORBIDDEN, Violation::Waf, ip, config, bans, now))
            } else {
                dispatch(head, config, health)
            }
        },
        HttpsEvent::BodyFailed => HttpsAction::Respond(
            refuse(PAYLOAD_TOO_LARGE, Violation::Protocol, ip, config, bans, now),
        ),
        HttpsEvent::ConnectFailed => HttpsAction::Respond(error_response(BAD_GATEWAY)),
        HttpsEvent::DeadlinePassed => HttpsAction::Respond(
            refuse(GATEWAY_TIMEOUT, Violation::Timeout, ip, config, bans, now),
        ),
    };
    let next = match &action {
        HttpsAction::Respond(_) => HttpsStage::Answered,
        HttpsAction::BufferBody(_) => HttpsStage::Buffering,
        _ => HttpsStage::Dispatched,
    };
    (next, action)
}

/// The address that a request is sent on to.
pub open spec fn sent_to(action: HttpsAction) -> Option<Seq<char>> {
    match action {
        HttpsAction::Request { addr, .. } => Some(addr@),
        HttpsAction::WebSocket { addr, .. } => Some(addr@),
        _ => None,
    }
}

/// Visible bytes are characters that can stand in a header value.
proof fn visible_text_is_valid(bytes: Seq<u8>)
    requires
        crate::headers::all_visible(bytes),
    ensures
        crate::headers::valid_value(crate::text::latin1(bytes)),
{
    let chars = crate::text::latin1(bytes);
    assert forall|i: int| 0 <= i < chars.len() implies crate::headers::value_char(
        #[trigger] chars[i],
    ) by {
        assert(crate::headers::visible(bytes[i]));
    }
}

/// A plain request that passes verification is always redirected, to the same host
/// and target: its location can stand in a header.
pub proof fn accepted_requests_are_redirected(
    head: RequestHead,
    config: Config,
    within_rate: bool,
    reply: Reply,
)
    requires
        request::request_fault(head, config.limit, within_rate) is None,
        redirects_to(
            reply,
            redirect_location(head.uri, crate::headers::header_entries(head.headers)),
        ),
    ensures
        reply.status == PERMANENT_REDIRECT,
        crate::headers::header_entries(reply.headers)[LOCATION@] == reply::value(
            redirect_location(head.uri, crate::headers::header_entries(head.headers)),
        ),
{
    let entries = crate::headers::header_entries(head.headers);
    let location = redirect_location(head.uri, entries);
    let target = head.uri.target();
    crate::protocol::accepted_targets_have_no_controls(target);
    reveal_strlit("https://");
    reveal_strlit("localhost");
    let host = match crate::headers::text_of(entries, HOST@) {
        Some(text) => {
            visible_text_is_valid(entries[HOST@][0]);
            text
        },
        None => "localhost"@,
    };
    assert(crate::headers::valid_value(host));
    assert forall|i: int| 0 <= i < location.len() implies crate::headers::value_char(
        #[trigger] location[i],
    ) by {
        if i < 8 {
            assert(location[i] == "https://"@[i]);
        } else if i < 8 + host.len() {
            assert(location[i] == host[i - 8]);
        } else {
            let k = i - 8 - host.len();
            assert(location[i] == target[k]);
            assert(!crate::protocol::control(target[k]));
        }
    }
}

/// Only a request that passed every check is sent on: its head the whole pipeline,
/// and its body, where it is read, the payload inspection.
pub proof fn forwarded_requests_passed_all_checks(
    head: RequestHead,
    config: Config,
    statuses: Map<Seq<char>, bool>,
    within_rate: bool,
    first: HttpsAction,
    bytes: Vec<u8>,
    second: HttpsAction,
)
    requires
        https_follows(HttpsEvent::Begin, head, config, statuses, within_rate, first),
        first is BufferBody ==> https_follows(
            HttpsEvent::BodyRead(bytes),
            head,
            config,
            statuses,
            within_rate,
            second,
        ),
    ensures
        sends_on(first) ==> request::request_fault(head, config.limit, within_rate) is None
            && !buffered(head.method),
        first is BufferBody && sends_on(second) ==> request::request_fault(
            head,
            config.limit,
            within_rate,
        ) is None && crate::waf::body_fault(
            crate::headers::header_entries(head.headers),
            bytes@,
        ) is None,
{
}

/// A request is sent on only to a healthy upstream server of a route of its domain
/// whose path begins its own, and no route of that domain with a longer path does.
pub proof fn requests_go_to_healthy_upstreams(
    action: HttpsAction,
    head: RequestHead,
    config: Config,
    statuses: Map<Seq<char>, bool>,
) -> (r: (int, int))
    requires
        config.wf(),
        dispatched(action, head, config, statuses),
        sends_on(action),
    ensures
        0 <= r.0 < config.vhosts@.len(),
        config.vhosts@[r.0].0@ == request::host_of(
            head.uri,
            crate::headers::header_entries(head.headers),
        ),
        ({
            let routes = config.vhosts@[r.0].1.routers@;
            &&& 0 <= r.1 < routes.len()
            &&& crate::text::begins_with(head.uri.path(), routes[r.1].0@)
            &&& forall|j: int|
                0 <= j < routes.len() && crate::text::begins_with(
                    head.uri.path(),
                    #[trigger] routes[j].0@,
                ) ==> crate::config::route_len(routes[j]) <= crate::config::route_len(routes[r.1])
            &&& sent_to(action) matches Some(addr) && crate::health::healthy(statuses, addr)
                && crate::health::addr_texts(routes[r.1].1@).contains(addr)
        }),
{
    let entries = crate::headers::header_entries(head.headers);
    let host = request::host_of(head.uri, entries);
    let (v, i) = route_place(config, head)->0;
    let vhost = config.vhosts@[v].1;
    crate::config::vhost_index_bounds(config.vhosts@, host);
    crate::config::routing_is_longest_prefix(vhost.routers@, head.uri.path());
    balance::choice_is_healthy(vhost.routers@[i].1@, statuses, vhost.routers_state@[i], 0);
    (v, i)
}

/// A plain request is sent to the same target at the host of its header over HTTPS, and
/// to `localhost` where the header is missing or no text.
pub proof fn redirects_keep_host_and_target(
    uri: RequestUri,
    entries: Map<Seq<char>, Seq<Seq<u8>>>,
    host: Seq<char>,
)
    ensures
        crate::headers::text_of(entries, "host"@) == Some(host) ==> redirect_location(uri, entries)
            == "https://"@ + host + uri.target(),
        crate::headers::text_of(entries, "host"@) is None ==> redirect_location(uri, entries)
            == "https://"@ + "localhost"@ + uri.target(),
{
}

/// A redirect is permanent and carries the location and nothing else; where the location
/// cannot stand in a header, the answer is an internal error.
pub proof fn redirects_carry_their_location(reply: Reply, location: Seq<char>, name: Seq<char>)
    requires
        redirects_to(reply, location),
        name != "location"@,
    ensures
        crate::headers::valid_value(location) ==> reply.status == 308 && reply::carries(
            crate::headers::header_entries(reply.headers),
            "location"@,
            location,
        ) && !crate::headers::header_entries(reply.headers).contains_key(name),
        !crate::headers::valid_value(location) ==> reply.status == 500,
{
}

/// The bodies of POST, PUT and PATCH requests are read before they are sent on, and no
/// others.
pub proof fn bodies_of_three_methods_are_read(method: Method)
    ensures
        buffered(method) <==> (method == Method::Post || method == Method::Put || method
            == Method::Patch),
{
}

/// Whether an action answers with a status.
pub open spec fn answers(action: HttpsAction, status: u16) -> bool {
    action matches HttpsAction::Respond(reply) && reply.status == status
}

/// A request that fails on its way is answered with the status of what went wrong, and its
/// client is punished for a body that breaks off and for running out of time, but not for
/// an upstream server that cannot be reached.
pub proof fn failures_have_their_status(
    head: RequestHead,
    config: Config,
    statuses: Map<Seq<char>, bool>,
    within_rate: bool,
    action: HttpsAction,
)
    ensures
        https_follows(HttpsEvent::BodyFailed, head, config, statuses, within_rate, action)
            ==> answers(action, 413),
        https_follows(HttpsEvent::ConnectFailed, head, config, statuses, within_rate, action)
            ==> answers(action, 502),
        https_follows(HttpsEvent::DeadlinePassed, head, config, statuses, within_rate, action)
            ==> answers(action, 504),
        https_violation(HttpsEvent::BodyFailed, head, config, within_rate) == Some(
            Violation::Protocol,
        ),
        https_violation(HttpsEvent::ConnectFailed, head, config, within_rate) is None,
        https_violation(HttpsEvent::DeadlinePassed, head, config, within_rate) == Some(
            Violation::Timeout,
        ),
{
}

/// A request that passes verification has its body read, up to the configured size, where
/// its method brings one; else it is sent on, or answered that no upstream server is
/// there. One that does not pass is answered with the status of its fault.
pub proof fn verified_requests_go_on(
    head: RequestHead,
    config: Config,
    statuses: Map<Seq<char>, bool>,
    within_rate: bool,
    action: HttpsAction,
)
    requires
        https_follows(HttpsEvent::Begin, head, config, statuses, within_rate, action),
    ensures
        match request::request_fault(head, config.limit, within_rate) {
            Some((status, violation)) => answers(action, status) && https_violation(
                HttpsEvent::Begin,
                head,
                config,
                within_rate,
            ) == Some(violation),
            None => {
                &&& head.method == Method::Post || head.method == Method::Put || head.method
                    == Method::Patch ==> action == HttpsAction::BufferBody(
                    config.limit.max_body_size,
                )
                &&& head.method == Method::Get || head.method == Method::Head || head.method
                    == Method::Delete || head.method == Method::Options ==> sends_on(action)
                    || answers(action, 502)
                &&& https_violation(HttpsEvent::Begin, head, config, within_rate) is None
            },
        },
{
}

/// A body that is refused is answered as forbidden and punished; one that passes lets its
/// request be sent on, or answered that no upstream server is there.
pub proof fn inspected_bodies_go_on(
    head: RequestHead,
    config: Config,
    statuses: Map<Seq<char>, bool>,
    within_rate: bool,
    bytes: Vec<u8>,
    action: HttpsAction,
)
    requires
        https_follows(HttpsEvent::BodyRead(bytes), head, config, statuses, within_rate, action),
    ensures
        ({
            let fault = crate::waf::body_fault(
                crate::headers::header_entries(head.headers),
                bytes@,
            );
            let violation = https_violation(
                HttpsEvent::BodyRead(bytes),
                head,
                config,
                within_rate,
            );
            &&& fault is Some ==> answers(action, 403) && violation == Some(Violation::Waf)
            &&& fault is None ==> (sends_on(action) || answers(action, 502)) && violation is None
        }),
{
}

/// A request for a known domain and route is sent on whenever one of the route's upstream
/// servers is healthy, as a WebSocket if it asks for one, with the configured times; and
/// answered that there is none only where no route serves it or none of them is healthy.
pub proof fn routed_requests_are_sent_on(
    action: HttpsAction,
    head: RequestHead,
    config: Config,
    statuses: Map<Seq<char>, bool>,
    v: int,
    i: int,
    k: int,
)
    requires
        config.wf(),
        dispatched(action, head, config, statuses),
        route_place(config, head) == Some((v, i)),
        0 <= k < config.vhosts@[v].1.routers@[i].1@.len(),
        crate::health::healthy(statuses, config.vhosts@[v].1.routers@[i].1@[k]@),
        config.vhosts@[v].1.routers_state@[i] + config.vhosts@[v].1.routers@[i].1@.len()
            <= usize::MAX,
    ensures
        sends_on(action),
        action matches HttpsAction::WebSocket { deadline, connect, response, idle, .. }
            ==> request::asks_websocket(crate::headers::header_entries(head.headers)) && deadline
            == config.timeout.c_body_timeout && connect == config.timeout.s_connect && response
            == config.timeout.s_response && idle == config.timeout.s_websocket_idle,
        action matches HttpsAction::Request { deadline, response, .. } ==> !request::asks_websocket(
            crate::headers::header_entries(head.headers),
        ) && deadline == config.timeout.c_body_timeout && response == config.timeout.s_response,
{
    let upstreams = config.vhosts@[v].1.routers@[i].1@;
    let turn = config.vhosts@[v].1.routers_state@[i];
    balance::healthy_upstream_is_found(upstreams, statuses, turn);
    assert(crate::health::healthy(statuses, upstreams[k]@));
}

/// A request whose domain or path is not served is answered that no upstream server is
/// there.
pub proof fn unrouted_requests_are_answered(
    action: HttpsAction,
    head: RequestHead,
    config: Config,
    statuses: Map<Seq<char>, bool>,
)
    requires
        dispatched(action, head, config, statuses),
        route_place(config, head) is None,
    ensures
        answers(action, 502),
{
}

/// A request is routed by the virtual host whose name is its domain and the first of that
/// host's routes whose path begins its own; it has no route only where there is no such
/// host or no such route.
pub proof fn routes_belong_to_domains(head: RequestHead, config: Config)
    requires
        config.wf(),
    ensures
        ({
            let host = request::host_of(head.uri, crate::headers::header_entries(head.headers));
            match route_place(config, head) {
                Some((v, i)) => {
                    &&& 0 <= v < config.vhosts@.len() && config.vhosts@[v].0@ == host
                    &&& 0 <= i < config.vhosts@[v].1.routers@.len()
                    &&& crate::text::begins_with(
                        head.uri.path(),
                        config.vhosts@[v].1.routers@[i].0@,
                    )
                    &&& forall|j: int|
                        0 <= j < i ==> !crate::text::begins_with(
                            head.uri.path(),
                            (#[trigger] config.vhosts@[v].1.routers@[j]).0@,
                        )
                },
                None => forall|v: int, j: int|
                    0 <= v < config.vhosts@.len() && config.vhosts@[v].0@ == host && 0 <= j
                        < config.vhosts@[v].1.routers@.len() ==> !crate::text::begins_with(
                        head.uri.path(),
                        (#[trigger] config.vhosts@[v].1.routers@[j]).0@,
                    ),
            }
        }),
{
    let host = request::host_of(head.uri, crate::headers::header_entries(head.headers));
    crate::config::vhost_index_bounds(config.vhosts@, host);
    if let Some(v) = crate::config::vhost_index(config.vhosts@, host) {
        crate::config::first_matching_route_serves(config.vhosts@[v].1.routers@, head.uri.path());
        assert forall|w: int| 0 <= w < config.vhosts@.len() && config.vhosts@[w].0@ == host implies w
            == v by {
            if w < v {
                assert(config.vhosts@[w].0@ != config.vhosts@[v].0@);
            } else if v < w {
                assert(config.vhosts@[v].0@ != config.vhosts@[w].0@);
            }
        }
    }
}

/// A dispatch moves the counter of the route that serves the request on by one, and no
/// other; nothing else of the configuration changes, and nothing at all where nothing is
/// dispatched.
pub proof fn turns_belong_to_routes(
    after: Config,
    before: Config,
    head: RequestHead,
    dispatching: bool,
    v: int,
    i: int,
)
    requires
        turned(after, before, head, dispatching),
        before.wf(),
        0 <= v < before.vhosts@.len(),
        0 <= i < before.vhosts@[v].1.routers_state@.len(),
    ensures
        after.vhosts@.len() == before.vhosts@.len(),
        after.vhosts@[v].1.routers_state@.len() == before.vhosts@[v].1.routers_state@.len(),
        after.vhosts@[v].1.routers == before.vhosts@[v].1.routers,
        dispatching && route_place(before, head) == Some((v, i))
            && before.vhosts@[v].1.routers_state@[i] < usize::MAX
            ==> after.vhosts@[v].1.routers_state@[i] == before.vhosts@[v].1.routers_state@[i] + 1,
        !(dispatching && route_place(before, head) == Some((v, i)))
            ==> after.vhosts@[v].1.routers_state@[i] == before.vhosts@[v].1.routers_state@[i],
{
    routes_belong_to_domains(head, before);
    assert(crate::config::same_vhost(after.vhosts@[v], before.vhosts@[v]));
    assert(crate::config::counters(after)[v] == after.vhosts@[v].1.routers_state@);
    assert(crate::config::counters(before)[v] == before.vhosts@[v].1.routers_state@);
    assert(crate::config::counters(before).len() == before.vhosts@.len());
}

/// A plain request is redirected if and only if it passes verification; else it is answered
/// with the status of its fault, and its client is punished.
pub proof fn plain_requests_are_redirected(
    head: RequestHead,
    forwarded: Option<IpAddr>,
    remote: IpAddr,
    config: Config,
    rules: Rules,
    bans: &mut BanManager,
    limiter: &mut RateLimiter,
    now: u64,
    r: Reply,
)
    requires
        call_ensures(
            http_proxy,
            (&head, forwarded, remote, &config, &rules, bans, limiter, now),
            r,
        ),
    ensures
        ({
            let ip = match forwarded {
                Some(ip) => ip,
                None => remote,
            };
            let rated = crate::ratelimit::checked(old(limiter)@, ip, config.limit.max_rps, now);
            match request::request_fault(head, config.limit, rated.1) {
                Some((status, violation)) => r.status == status && final(bans)@
                    == crate::ban::punished(old(bans)@, ip, violation, config.ban, now),
                None => r.status == 308 && final(bans)@ == old(bans)@ && reply::carries(
                    crate::headers::header_entries(r.headers),
                    "location"@,
                    redirect_location(head.uri, crate::headers::header_entries(head.headers)),
                ),
            }
        }),
        final(limiter)@ == crate::ratelimit::checked(
            old(limiter)@,
            match forwarded {
                Some(ip) => ip,
                None => remote,
            },
            config.limit.max_rps,
            now,
        ).0,
{
    let ip = request::client_ip(forwarded, remote);
    let rated = crate::ratelimit::checked(old(limiter)@, ip, config.limit.max_rps, now);
    if request::request_fault(head, config.limit, rated.1) is None {
        accepted_requests_are_redirected(head, config, rated.1, r);
    }
}

/// A secure request is handled step by step: what follows an event is right for it, the
/// client that is punished is the one that the content network names or else the one that
/// is connected, and only the first step counts for its rate.
pub proof fn secure_requests_are_handled(
    stage: HttpsStage,
    event: HttpsEvent,
    head: RequestHead,
    forwarded: Option<IpAddr>,
    remote: IpAddr,
    config: &mut Config,
    rules: Rules,
    bans: &mut BanManager,
    limiter: &mut RateLimiter,
    health: HealthManager,
    now: u64,
    r: (HttpsStage, HttpsAction),
)
    requires
        old(config).wf(),
        https_expects(stage, event),
        call_ensures(
            https_proxy,
            (
                stage,
                event,
                &head,
                forwarded,
                remote,
                config,
                &rules,
                bans,
                limiter,
                &health,
                now,
            ),
            r,
        ),
    ensures
        ({
            let ip = match forwarded {
                Some(ip) => ip,
                None => remote,
            };
            let rated = crate::ratelimit::checked(
                old(limiter)@,
                ip,
                old(config).limit.max_rps,
                now,
            );
            &&& https_follows(event, head, *old(config), health@, rated.1, r.1)
            &&& r.1 is Respond <==> r.0 is Answered
            &&& r.1 is BufferBody <==> r.0 is Buffering
            &&& sends_on(r.1) <==> r.0 is Dispatched
            &&& event is Begin ==> final(limiter)@ == rated.0
            &&& !(event is Begin) ==> final(limiter)@ == old(limiter)@
            &&& match https_violation(event, head, *old(config), rated.1) {
                Some(violation) => final(bans)@ == crate::ban::punished(
                    old(bans)@,
                    ip,
                    violation,
                    old(config).ban,
                    now,
                ),
                None => final(bans)@ == old(bans)@,
            }
            &&& turned(
                *final(config),
                *old(config),
                head,
                comes_to_dispatch(event, head, *old(config), rated.1),
            )
            &&& sends_on(r.1) ==> comes_to_dispatch(event, head, *old(config), rated.1)
        }),
{
}

/// A request that is refused comes to no dispatch, and so does not one whose body is still
/// to be read.
pub proof fn refused_requests_take_no_turn(
    head: RequestHead,
    config: Config,
    within_rate: bool,
    bytes: Vec<u8>,
)
    ensures
        comes_to_dispatch(HttpsEvent::Begin, head, config, within_rate) <==> request::request_fault(
            head,
            config.limit,
            within_rate,
        ) is None && head.method != Method::Post && head.method != Method::Put && head.method
            != Method::Patch,
        comes_to_dispatch(HttpsEvent::BodyRead(bytes), head, config, within_rate)
            <==> crate::waf::body_fault(
            crate::headers::header_entries(head.headers),
            bytes@,
        ) is None,
        !comes_to_dispatch(HttpsEvent::BodyFailed, head, config, within_rate),
        !comes_to_dispatch(HttpsEvent::ConnectFailed, head, config, within_rate),
        !comes_to_dispatch(HttpsEvent::DeadlinePassed, head, config, within_rate),
{
}

/// Requests of a route take turns: one is sent to the upstream server that the route's
/// counter points to, if that is healthy, and the next one, where nothing else came, to the
/// server behind it, if that is.
pub proof fn requests_take_turns(
    first: HttpsAction,
    second: HttpsAction,
    head: RequestHead,
    before: Config,
    after: Config,
    statuses: Map<Seq<char>, bool>,
    v: int,
    i: int,
)
    requires
        before.wf(),
        after.wf(),
        route_place(before, head) == Some((v, i)),
        dispatched(first, head, before, statuses),
        turned(after, before, head, true),
        route_place(after, head) == Some((v, i)),
        dispatched(second, head, after, statuses),
        before.vhosts@[v].1.routers@[i].1@.len() > 0,
        before.vhosts@[v].1.routers_state@[i] + before.vhosts@[v].1.routers@[i].1@.len()
            < usize::MAX,
    ensures
        ({
            let upstreams = before.vhosts@[v].1.routers@[i].1@;
            let turn = before.vhosts@[v].1.routers_state@[i] as int;
            let here = upstreams[turn % upstreams.len() as int]@;
            let next = upstreams[(turn + 1) % upstreams.len() as int]@;
            &&& crate::health::healthy(statuses, here) ==> sent_to(first) == Some(here)
            &&& crate::health::healthy(statuses, next) ==> sent_to(second) == Some(next)
        }),
{
    routes_belong_to_domains(head, before);
    turns_belong_to_routes(after, before, head, true, v, i);
    let upstreams = before.vhosts@[v].1.routers@[i].1@;
    let turn = before.vhosts@[v].1.routers_state@[i];
    balance::tries_go_round(turn, 0, upstreams.len() as int);
    balance::tries_go_round((turn + 1) as usize, 0, upstreams.len() as int);
}

} // verus!
