//! The security pipeline that every request passes.
use crate::ban::{BanManager, Violation};
use crate::config::{Config, LimitConfig};
use crate::headers::{header_text, len, CONNECTING_IP, HOST, UPGRADE};
use crate::http::{
    Method, Reply, RequestHead, RequestUri, BAD_REQUEST, FORBIDDEN, METHOD_NOT_ALLOWED,
    TOO_MANY_REQUESTS, URI_TOO_LONG,
};
use crate::net::IpAddr;
use crate::protocol::{validate_host, validate_smuggling, validate_uri};
use crate::proxy::reply::error_response;
use crate::ratelimit::RateLimiter;
use crate::text::{contains, first_piece, string_of, to_ascii_lower};
use crate::waf::Rules;
use hyper::HeaderMap;
use vstd::prelude::*;

verus! {

broadcast use vstd::string::group_string_axioms;

/// The text in which the content network names the client.
pub fn forwarded_ip(headers: &HeaderMap) -> (r: Option<String>)
    ensures
        match crate::headers::text_of(
            crate::headers::header_entries(*headers),
            CONNECTING_IP@,
        ) {
            Some(text) => r matches Some(s) && s@ == text,
            None => r is None,
        },
{
    proof {
        crate::headers::names_are_lower();
    }
    match header_text(headers, CONNECTING_IP) {
        Some(chars) => Some(string_of(chars.as_slice())),
        None => None,
    }
}

/// The address of the client: the one that the content network names, where it
/// names one, and otherwise that of the connection.
pub open spec fn client_ip(forwarded: Option<IpAddr>, remote: IpAddr) -> IpAddr {
    match forwarded {
        Some(ip) => ip,
        None => remote,
    }
}

/// Extract the real client IP: the forwarded address, or that of the connection.
pub fn get_real_ip(forwarded: Option<IpAddr>, remote: IpAddr) -> (r: IpAddr)
    ensures
        r == client_ip(forwarded, remote),
{
    match forwarded {
        Some(ip) => ip,
        None => remote,
    }
}

/// The domain that a request is for.
pub open spec fn host_of(uri: RequestUri, entries: Map<Seq<char>, Seq<Seq<u8>>>) -> Seq<char> {
    match uri.host {
        Some(host) => host@,
        None => match crate::headers::text_of(entries, HOST@) {
            Some(text) => crate::text::split(text, ':')[0],
            None => "localhost"@,
        },
    }
}

/// Extracts domain name from Host header or URI.
pub fn get_host(head: &RequestHead) -> (r: String)
    ensures
        r@ == host_of(head.uri, crate::headers::header_entries(head.headers)),
{
    proof {
        crate::headers::names_are_lower();
    }
    match &head.uri.host {
        Some(host) => host.clone(),
        None => match header_text(&head.headers, HOST) {
            Some(text) => string_of(first_piece(text.as_slice(), ':').as_slice()),
            None => "localhost".to_owned(),
        },
    }
}

/// Whether a request asks to become a WebSocket.
pub open spec fn asks_websocket(entries: Map<Seq<char>, Seq<Seq<u8>>>) -> bool {
    crate::headers::text_of(entries, UPGRADE@) matches Some(text) && crate::text::occurs(
        crate::text::ascii_lower(text),
        "websocket"@,
    )
}

/// Checks if the request is a WebSocket upgrade attempt.
pub fn is_websocket(head: &RequestHead) -> (r: bool)
    ensures
        r == asks_websocket(crate::headers::header_entries(head.headers)),
{
    proof {
        crate::headers::names_are_lower();
    }
    match header_text(&head.headers, UPGRADE) {
        Some(text) => contains(to_ascii_lower(text.as_slice()).as_slice(), "websocket"),
        None => false,
    }
}

/// The length of path and query in bytes, with the question mark between them.
pub open spec fn uri_size(uri: RequestUri) -> nat {
    vstd::utf8::encode_utf8(uri.path()).len() + match uri.query() {
        Some(query) => vstd::utf8::encode_utf8(query).len() + 1,
        None => 0nat,
    }
}

/// The methods that are served.
pub open spec fn method_served(method: Method) -> bool {
    method != Method::Connect && method != Method::Other
}

/// Whether a request breaks the protocol.
pub open spec fn breaks_protocol(
    method: Method,
    uri: RequestUri,
    entries: Map<Seq<char>, Seq<Seq<u8>>>,
) -> bool {
    ||| crate::protocol::uri_fault(uri) is Some
    ||| crate::protocol::host_fault(entries, method, uri) is Some
    ||| crate::protocol::smuggles(entries)
}

/// The answer to a request head that is refused before its content is looked at,
/// and what the client is punished for.
pub open spec fn head_fault(
    method: Method,
    uri: RequestUri,
    entries: Map<Seq<char>, Seq<Seq<u8>>>,
    limits: LimitConfig,
) -> Option<(u16, Violation)> {
    if breaks_protocol(method, uri, entries) {
        Some((BAD_REQUEST, Violation::Protocol))
    } else if crate::headers::value_count(entries) > limits.max_header_count {
        Some((BAD_REQUEST, Violation::Protocol))
    } else if uri_size(uri) > limits.max_uri_size {
        Some((URI_TOO_LONG, Violation::Protocol))
    } else if !method_served(method) {
        Some((METHOD_NOT_ALLOWED, Violation::Protocol))
    } else {
        None
    }
}

/// The answer to a refused request and what the client is punished for: first the
/// rate limit, then the protocol and the resource thresholds, then the content.
pub open spec fn request_fault(
    head: RequestHead,
    limits: LimitConfig,
    within_rate: bool,
) -> Option<(u16, Violation)> {
    let entries = crate::headers::header_entries(head.headers);
    if !within_rate {
        Some((TOO_MANY_REQUESTS, Violation::RateLimit))
    } else if head_fault(head.method, head.uri, entries, limits) is Some {
        head_fault(head.method, head.uri, entries, limits)
    } else if crate::waf::header_fault(head.uri, entries) is Some {
        Some((FORBIDDEN, Violation::Waf))
    } else {
        None
    }
}

/// Whether the length of path and query exceeds a limit.
fn uri_exceeds(uri: &RequestUri, max: usize) -> (r: bool)
    ensures
        r == (uri_size(*uri) > max),
{
    let path = uri.path_text();
    let path_len: usize = path.as_str().as_bytes().len();
    let query_len: u128 = match uri.query_text() {
        Some(query) => query.as_str().as_bytes().len() as u128 + 1,
        None => 0,
    };
    path_len as u128 + query_len > max as u128
}

/// Checks a request head for protocol integrity and resource thresholds: URI
/// control characters, Host uniqueness, smuggling, header count, URI length and
/// method.
pub fn screen_head(head: &RequestHead, limits: &LimitConfig) -> (r: Option<(u16, Violation)>)
    ensures
        r == head_fault(
            head.method,
            head.uri,
            crate::headers::header_entries(head.headers),
            *limits,
        ),
{
    if validate_uri(&head.uri).is_err() || validate_host(
        &head.headers,
        &head.method,
        &head.uri,
    ).is_err() || validate_smuggling(&head.headers).is_err() {
        return Some((BAD_REQUEST, Violation::Protocol));
    }
    if len(&head.headers) > limits.max_header_count {
        return Some((BAD_REQUEST, Violation::Protocol));
    }
    if uri_exceeds(&head.uri, limits.max_uri_size) {
        return Some((URI_TOO_LONG, Violation::Protocol));
    }
    match head.method {
        Method::Get
        | Method::Post
        | Method::Put
        | Method::Delete
        | Method::Patch
        | Method::Head
        | Method::Options => None,
        _ => Some((METHOD_NOT_ALLOWED, Violation::Protocol)),
    }
}

/// Punishes a client and answers its request with an error.
pub fn refuse(
    status: u16,
    violation: Violation,
    ip: IpAddr,
    config: &Config,
    bans: &mut BanManager,
    now: u64,
) -> (r: Reply)
    ensures
        crate::proxy::reply::error_reply(r, status),
        final(bans)@ == crate::ban::punished(old(bans)@, ip, violation, config.ban, now),
{
    bans.punish(ip, violation, config, now);
    error_response(status)
}

/// [Integrated Security Pipeline]
/// Executes a sequence of checks: Rate Limiting, Protocol Integrity, URI/Header
/// size, and WAF signatures. A refused request is answered with an error, and its
/// client is punished.
pub fn verify_request(
    head: &RequestHead,
    ip: IpAddr,
    config: &Config,
    rules: &Rules,
    bans: &mut BanManager,
    limiter: &mut RateLimiter,
    now: u64,
) -> (r: Result<(), Reply>)
    ensures
        final(limiter)@ == crate::ratelimit::checked(
            old(limiter)@,
            ip,
            config.limit.max_rps,
            now,
        ).0,
        match request_fault(
            *head,
            config.limit,
            crate::ratelimit::checked(old(limiter)@, ip, config.limit.max_rps, now).1,
        ) {
            Some((status, violation)) => {
                &&& r matches Err(reply) && crate::proxy::reply::error_reply(reply, status)
                &&& final(bans)@ == crate::ban::punished(
                    old(bans)@,
                    ip,
                    violation,
                    config.ban,
                    now,
                )
            },
            None => r is Ok && final(bans)@ == old(bans)@,
        },
{
    // Task 1: Rate Limiting (Check RPS quota per IP)
    if !limiter.check(ip, config, now) {
        return Err(refuse(TOO_MANY_REQUESTS, Violation::RateLimit, ip, config, bans, now));
    }
    // Task 2: Protocol Integrity, Task 3: Resource Thresholds
    if let Some((status, violation)) = screen_head(head, &config.limit) {
        return Err(refuse(status, violation, ip, config, bans, now));
    }
    // Task 4: WAF Header Inspection (Quick signature matching on headers)
    if crate::waf::header(rules, &head.uri, &head.method, &head.headers).is_err() {
        return Err(refuse(FORBIDDEN, Violation::Waf, ip, config, bans, now));
    }
    Ok(())
}

/// A request that passes the pipeline is within its rate, names its host, has no
/// control codes in its target, is framed in one way, stays within the limits,
/// uses a served method, and shows no sign of traversal, injection, parameter
/// pollution or attack tools.
pub proof fn accepted_requests_are_clean(head: RequestHead, limits: LimitConfig, within_rate: bool)
    requires
        request_fault(head, limits, within_rate) is None,
    ensures
        ({
            let entries = crate::headers::header_entries(head.headers);
            let target = head.uri.target();
            let normal = crate::waf::path::normalized(target);
            &&& within_rate
            &&& forall|i: int|
                0 <= i < target.len() ==> !crate::protocol::control(#[trigger] target[i])
            &&& crate::headers::values_of(entries, HOST@).len() <= 1
            &&& crate::headers::values_of(entries, HOST@).len() == 1 || head.uri.host is Some
            &&& !crate::protocol::smuggles(entries)
            &&& crate::headers::value_count(entries) <= limits.max_header_count
            &&& uri_size(head.uri) <= limits.max_uri_size
            &&& method_served(head.method)
            &&& !crate::waf::path::carries_traversal(normal)
            &&& !crate::waf::injection::carries_attack(vstd::utf8::encode_utf8(normal))
            &&& !crate::waf::query_polluted(head.uri)
            &&& !crate::waf::sent_by_bot(entries)
        }),
{
    crate::protocol::accepted_targets_have_no_controls(head.uri.target());
}

/// A client beyond its rate is refused for that, whatever it sends.
pub proof fn rate_limit_comes_first(head: RequestHead, limits: LimitConfig)
    ensures
        request_fault(head, limits, false) == Some((TOO_MANY_REQUESTS, Violation::RateLimit)),
{
}

/// A client is who the content network says it is, and else who is connected.
pub proof fn clients_are_named_by_the_network(named: IpAddr, remote: IpAddr)
    ensures
        client_ip(Some(named), remote) == named,
        client_ip(None, remote) == remote,
{
}

/// The domain of a request is that of its target; else what stands before the colon of
/// its `host` header, or the whole header; else `localhost`.
pub proof fn domains_come_without_ports(
    uri: RequestUri,
    entries: Map<Seq<char>, Seq<Seq<u8>>>,
    name: Seq<char>,
    port: Seq<char>,
)
    requires
        !name.contains(':'),
    ensures
        uri.host matches Some(host) ==> host_of(uri, entries) == host@,
        uri.host is None && crate::headers::text_of(entries, "host"@) == Some(
            name + seq![':'] + port,
        ) ==> host_of(uri, entries) == name,
        uri.host is None && crate::headers::text_of(entries, "host"@) == Some(name) ==> host_of(
            uri,
            entries,
        ) == name,
        uri.host is None && crate::headers::text_of(entries, "host"@) is None ==> host_of(
            uri,
            entries,
        ) == "localhost"@,
{
    let text = name + seq![':'] + port;
    let n = name.len() as int;
    assert(text[n] == ':');
    assert(text.take(n) == name);
    crate::text::split_first_piece(text, ':', n);
    crate::text::split_without_separator(name, ':');
}

/// A request asks for a WebSocket if and only if that word stands in its `upgrade`
/// header, in whatever case.
pub proof fn upgrades_name_websockets(
    entries: Map<Seq<char>, Seq<Seq<u8>>>,
    before: Seq<char>,
    word: Seq<char>,
    after: Seq<char>,
)
    ensures
        crate::text::ascii_lower(word) == "websocket"@ && crate::headers::text_of(
            entries,
            "upgrade"@,
        ) == Some(before + word + after) ==> asks_websocket(entries),
        asks_websocket(entries) ==> (crate::headers::text_of(entries, "upgrade"@) matches Some(text)
            && crate::text::occurs(crate::text::ascii_lower(text), "websocket"@)),
{
    if crate::text::ascii_lower(word) == "websocket"@ {
        crate::text::text_is_found(
            crate::text::ascii_lower(before),
            "websocket"@,
            crate::text::ascii_lower(after),
        );
        assert(crate::text::ascii_lower(before + word + after) == crate::text::ascii_lower(before)
            + "websocket"@ + crate::text::ascii_lower(after));
    }
}

/// The size of a target is that of its path and its query in bytes, and one more for the
/// question mark where there is a query.
pub proof fn targets_are_measured_in_bytes(uri: RequestUri, path: Seq<char>, query: Seq<char>)
    requires
        path.len() > 0,
        !path.contains('?'),
        uri.path_and_query matches Some(text) && (text@ == path + seq!['?'] + query || text@
            == path),
    ensures
        uri.path_and_query->0@ == path ==> uri_size(uri) == vstd::utf8::encode_utf8(path).len(),
        uri.path_and_query->0@ == path + seq!['?'] + query ==> uri_size(uri)
            == vstd::utf8::encode_utf8(path).len() + 1 + vstd::utf8::encode_utf8(query).len(),
{
    crate::http::targets_are_paths_and_queries(uri, path, query);
}

/// The common methods are served; CONNECT and unknown ones are not.
pub proof fn common_methods_are_served(method: Method)
    ensures
        method_served(method) <==> (method == Method::Get || method == Method::Post || method
            == Method::Put || method == Method::Delete || method == Method::Patch || method
            == Method::Head || method == Method::Options),
{
}

/// A request head is refused as malformed where its target holds a control code, its host
/// is not named once, it is framed in two ways or it has too many headers; then for a
/// target that is too long; then for its method; each with its status, as a violation of
/// the protocol.
pub proof fn heads_are_refused_with_their_status(
    method: Method,
    uri: RequestUri,
    entries: Map<Seq<char>, Seq<Seq<u8>>>,
    limits: LimitConfig,
)
    ensures
        ({
            let fault = head_fault(method, uri, entries, limits);
            let malformed = crate::protocol::uri_fault(uri) is Some || crate::protocol::host_fault(
                entries,
                method,
                uri,
            ) is Some || crate::protocol::smuggles(entries) || crate::headers::value_count(entries)
                > limits.max_header_count;
            let too_long = uri_size(uri) > limits.max_uri_size;
            &&& malformed ==> fault == Some((400u16, Violation::Protocol))
            &&& !malformed && too_long ==> fault == Some((414u16, Violation::Protocol))
            &&& !malformed && !too_long && (method == Method::Connect || method == Method::Other)
                ==> fault == Some((405u16, Violation::Protocol))
            &&& fault is None <==> !malformed && !too_long && method != Method::Connect && method
                != Method::Other
        }),
{
}

/// A request is refused for its rate, then for its head, then for its content, each with
/// its status and its kind of violation; and one with none of these faults is accepted.
pub proof fn requests_are_refused_with_their_status(
    head: RequestHead,
    limits: LimitConfig,
    within_rate: bool,
)
    ensures
        ({
            let entries = crate::headers::header_entries(head.headers);
            let fault = request_fault(head, limits, within_rate);
            let of_head = head_fault(head.method, head.uri, entries, limits);
            let of_content = crate::waf::header_fault(head.uri, entries);
            &&& !within_rate ==> fault == Some((429u16, Violation::RateLimit))
            &&& within_rate && of_head is Some ==> fault == of_head
            &&& within_rate && of_head is None && of_content is Some ==> fault == Some(
                (403u16, Violation::Waf),
            )
            &&& fault is None <==> within_rate && of_head is None && of_content is None
        }),
{
}

/// A request is verified: it passes if and only if its address is within its rate, its
/// head is in order and its content is clean. One that does not pass is answered with the
/// status of its fault, and its client, and nobody else, is punished for it.
pub proof fn requests_are_verified(
    head: RequestHead,
    ip: IpAddr,
    config: Config,
    rules: Rules,
    bans: &mut BanManager,
    limiter: &mut RateLimiter,
    now: u64,
    r: Result<(), Reply>,
    other: IpAddr,
)
    requires
        call_ensures(verify_request, (&head, ip, &config, &rules, bans, limiter, now), r),
        other != ip,
    ensures
        ({
            let entries = crate::headers::header_entries(head.headers);
            let within_rate = crate::ratelimit::checked(
                old(limiter)@,
                ip,
                config.limit.max_rps,
                now,
            ).1;
            let of_head = head_fault(head.method, head.uri, entries, config.limit);
            let of_content = crate::waf::header_fault(head.uri, entries);
            &&& r is Ok <==> within_rate && of_head is None && of_content is None
            &&& r is Ok ==> final(bans)@ == old(bans)@
            &&& !within_rate ==> (r matches Err(reply) && reply.status == 429) && final(bans)@
                == crate::ban::punished(old(bans)@, ip, Violation::RateLimit, config.ban, now)
            &&& within_rate && of_head is Some ==> (r matches Err(reply) && of_head == Some(
                (reply.status, Violation::Protocol),
            )) && final(bans)@ == crate::ban::punished(
                old(bans)@,
                ip,
                Violation::Protocol,
                config.ban,
                now,
            )
            &&& within_rate && of_head is None && of_content is Some ==> (r matches Err(reply)
                && reply.status == 403) && final(bans)@ == crate::ban::punished(
                old(bans)@,
                ip,
                Violation::Waf,
                config.ban,
                now,
            )
            &&& crate::ban::is_banned(final(bans)@, other, now) == crate::ban::is_banned(
                old(bans)@,
                other,
                now,
            )
            &&& final(limiter)@ == crate::ratelimit::checked(
                old(limiter)@,
                ip,
                config.limit.max_rps,
                now,
            ).0
        }),
{
}

/// The domain, the client and the wish for a WebSocket are read from the head of a request.
pub proof fn heads_are_read(
    head: RequestHead,
    host: String,
    websocket: bool,
    network: Option<String>,
    forwarded: Option<IpAddr>,
    remote: IpAddr,
    client: IpAddr,
)
    requires
        call_ensures(get_host, (&head,), host),
        call_ensures(is_websocket, (&head,), websocket),
        call_ensures(forwarded_ip, (&head.headers,), network),
        call_ensures(get_real_ip, (forwarded, remote), client),
    ensures
        ({
            let entries = crate::headers::header_entries(head.headers);
            &&& host@ == host_of(head.uri, entries)
            &&& head.uri.host matches Some(named) ==> host@ == named@
            &&& websocket == asks_websocket(entries)
            &&& match crate::headers::text_of(entries, "cf-connecting-ip"@) {
                Some(text) => network matches Some(found) && found@ == text,
                None => network is None,
            }
            &&& client == match forwarded {
                Some(ip) => ip,
                None => remote,
            }
        }),
{
}

} // verus!
