//! The exchange with an upstream server: plain requests, WebSocket handshakes and
//! the streams behind them.
use crate::http::{Reply, RequestHead, Version, GATEWAY_TIMEOUT, SWITCHING_PROTOCOLS};
use crate::proxy::reply::{error_response, sanitize_response_headers};
use crate::text::append;
use vstd::prelude::*;

verus! {

broadcast use vstd::string::group_string_axioms;

/// Whether a text parses as a `hyper::Uri`.
pub uninterp spec fn uri_parses(text: Seq<char>) -> bool;

/// `Uri::from_str` parses a URI. Which texts it accepts is given a name.
#[verifier::external_body]
fn parses_as_uri(text: &str) -> (r: bool)
    ensures
        r == uri_parses(text@),
{
    text.parse::<hyper::Uri>().is_ok()
}

/// The version in which a request is sent on: HTTP/2 becomes HTTP/1.1.
pub open spec fn forwarded_version(version: Version) -> Version {
    if version == Version::Http2 {
        Version::Http11
    } else {
        version
    }
}

/// The URI of a request at an upstream server.
pub open spec fn upstream_uri(addr: Seq<char>, target: Seq<char>) -> Seq<char> {
    "http://"@ + addr + target
}

/// What is changed in a request before it is sent on: its version and, where there
/// is one, its URI.
#[derive(Debug)]
pub struct Rewrite {
    pub version: Version,
    pub uri: Option<String>,
}

/// Rewrites a request, given the new URI and whether that parses. One that does
/// not parse is not used.
pub fn rewrite_to(version: Version, uri: String, parses: bool) -> (r: Rewrite)
    ensures
        r.version == forwarded_version(version),
        r.uri == if parses {
            Some(uri)
        } else {
            None
        },
{
    // Auto protocol
    let version = if version == Version::Http2 {
        Version::Http11
    } else {
        version
    };
    let uri = if parses {
        Some(uri)
    } else {
        None
    };
    Rewrite { version, uri }
}

/// Rewrites a request to point to the backend upstream.
pub fn rewrite_request(head: &RequestHead, upstream_addr: &str) -> (r: Rewrite)
    ensures
        r.version == forwarded_version(head.version),
        if uri_parses(upstream_uri(upstream_addr@, head.uri.target())) {
            r.uri matches Some(uri) && uri@ == upstream_uri(upstream_addr@, head.uri.target())
        } else {
            r.uri is None
        },
{
    let mut uri = String::new();
    append(&mut uri, "http://");
    append(&mut uri, upstream_addr);
    append(&mut uri, head.uri.target_text());
    assert(uri@ == upstream_uri(upstream_addr@, head.uri.target()));
    let parses = parses_as_uri(uri.as_str());
    rewrite_to(head.version, uri, parses)
}

/// What became of a request at an upstream server.
#[derive(Debug)]
pub enum UpstreamEvent {
    /// The server answered.
    Answered(Reply),
    /// The server did not answer in time, or the connection broke.
    Failed,
}

/// What to answer a client whose request was sent on.
#[derive(Debug)]
pub enum UpstreamAction {
    /// Relay the response of the server, with these headers, its body masked and
    /// throttled.
    Relay(Reply),
    /// Answer in place of the server.
    Respond(Reply),
    /// The headers of the server are at their size limit: break off.
    Overflow,
}

/// Logic for proxying standard HTTP requests: a response is relayed sanitised, a
/// missing one is a gateway timeout.
pub fn handle_http(event: UpstreamEvent) -> (r: UpstreamAction)
    ensures
        match event {
            UpstreamEvent::Answered(reply) => {
                let entries = crate::headers::header_entries(reply.headers);
                ||| r matches UpstreamAction::Relay(out) && out.status == reply.status
                    && crate::headers::header_entries(out.headers)
                    == crate::proxy::reply::sanitized(entries)
                ||| r is Overflow && !crate::proxy::reply::roomy(entries)
            },
            UpstreamEvent::Failed => r matches UpstreamAction::Respond(out)
                && crate::proxy::reply::error_reply(out, GATEWAY_TIMEOUT),
        },
{
    match event {
        UpstreamEvent::Answered(reply) => {
            let mut headers = reply.headers;
            // Response Sanitization
            if sanitize_response_headers(&mut headers) {
                UpstreamAction::Relay(Reply { status: reply.status, headers })
            } else {
                UpstreamAction::Overflow
            }
        },
        UpstreamEvent::Failed => UpstreamAction::Respond(error_response(GATEWAY_TIMEOUT)),
    }
}

/// What to answer a client that asked for a WebSocket.
#[derive(Debug)]
pub enum WebSocketAction {
    /// Switch protocols with this response, and pump bytes both ways.
    Upgrade(Reply),
    /// Relay the response as it is, its body throttled.
    Relay(Reply),
    /// Answer in place of the server.
    Respond(Reply),
    /// The headers of the server are at their size limit: break off.
    Overflow,
}

/// Logic for proxying WebSockets: if the server switches protocols, so does the
/// proxy, with sanitised headers; any other answer is relayed; a missing one is a
/// gateway timeout.
pub fn handle_websocket(event: UpstreamEvent) -> (r: WebSocketAction)
    ensures
        match event {
            UpstreamEvent::Answered(reply) => if reply.status == SWITCHING_PROTOCOLS {
                let entries = crate::headers::header_entries(reply.headers);
                ||| r matches WebSocketAction::Upgrade(out) && out.status == SWITCHING_PROTOCOLS
                    && crate::headers::header_entries(out.headers)
                    == crate::proxy::reply::sanitized(entries)
                ||| r is Overflow && !crate::proxy::reply::roomy(entries)
            } else {
                r == WebSocketAction::Relay(reply)
            },
            UpstreamEvent::Failed => r matches WebSocketAction::Respond(out)
                && crate::proxy::reply::error_reply(out, GATEWAY_TIMEOUT),
        },
{
    match event {
        UpstreamEvent::Answered(reply) => if reply.status == SWITCHING_PROTOCOLS {
            // If handshake is successful, perform protocol upgrade
            let mut headers = reply.headers;
            if sanitize_response_headers(&mut headers) {
                WebSocketAction::Upgrade(Reply { status: SWITCHING_PROTOCOLS, headers })
            } else {
                WebSocketAction::Overflow
            }
        } else {
            // Fallback for failed upgrades
            WebSocketAction::Relay(reply)
        },
        UpstreamEvent::Failed => WebSocketAction::Respond(error_response(GATEWAY_TIMEOUT)),
    }
}

/// Bytes that a WebSocket pump reads at once.
pub const PUMP_BUFFER: usize = 8192;

/// Milliseconds that a pump waits before it asks for a quota again.
pub const PUMP_WAIT_MILLIS: u64 = 5;

/// One direction of a WebSocket.
#[derive(Debug)]
pub enum PumpState {
    /// It reads from its source.
    Reading,
    /// Bytes were read and wait for their quota.
    Waiting(Vec<u8>),
    /// Bytes are being written.
    Writing,
    /// It has ended.
    Closed,
}

/// What happens to one direction of a WebSocket.
#[derive(Debug)]
pub enum PumpEvent {
    /// These bytes were read; none at the end of the source.
    Read(Vec<u8>),
    /// Nothing was read in time, or reading failed.
    ReadFailed,
    /// The quota that was asked for was granted or not.
    Quota(bool),
    /// The wait is over.
    Waited,
    /// All bytes were written, or writing failed.
    Written(bool),
}

/// What to do next with one direction of a WebSocket.
#[derive(Debug)]
pub enum PumpAction {
    /// Read, for as long as the idle timeout.
    Read,
    /// Ask for a quota of so many bytes.
    TryConsume(u64),
    /// Wait so many milliseconds.
    Sleep(u64),
    /// Write these bytes.
    Write(Vec<u8>),
    /// End this direction.
    Close,
}

/// Whether an event can come in a state.
pub open spec fn pump_expects(state: PumpState, event: PumpEvent) -> bool {
    match event {
        PumpEvent::Read(_) | PumpEvent::ReadFailed => state is Reading,
        PumpEvent::Quota(_) | PumpEvent::Waited => state is Waiting,
        PumpEvent::Written(_) => state is Writing,
    }
}

/// The next state of one direction and what to do. What was read is written once
/// its quota is granted; a bandwidth of zero needs none. The end of the source and
/// every failure end the direction.
pub open spec fn pumped(state: PumpState, max_bw: u64, event: PumpEvent) -> (PumpState, PumpAction) {
    match (state, event) {
        (PumpState::Reading, PumpEvent::Read(bytes)) => if bytes@.len() == 0 {
            (PumpState::Closed, PumpAction::Close)
        } else if max_bw > 0 {
            (PumpState::Waiting(bytes), PumpAction::TryConsume(bytes@.len() as u64))
        } else {
            (PumpState::Writing, PumpAction::Write(bytes))
        },
        (PumpState::Waiting(bytes), PumpEvent::Quota(granted)) => if granted {
            (PumpState::Writing, PumpAction::Write(bytes))
        } else {
            (PumpState::Waiting(bytes), PumpAction::Sleep(PUMP_WAIT_MILLIS))
        },
        (PumpState::Waiting(bytes), PumpEvent::Waited) => (
            PumpState::Waiting(bytes),
            PumpAction::TryConsume(bytes@.len() as u64),
        ),
        (PumpState::Writing, PumpEvent::Written(true)) => (PumpState::Reading, PumpAction::Read),
        _ => (PumpState::Closed, PumpAction::Close),
    }
}

/// Drives one direction of a WebSocket, with rate control before writing.
pub fn pump(state: PumpState, max_bw: u64, event: PumpEvent) -> (r: (PumpState, PumpAction))
    requires
        pump_expects(state, event),
    ensures
        r == pumped(state, max_bw, event),
{
    match (state, event) {
        (PumpState::Reading, PumpEvent::Read(bytes)) => if bytes.len() == 0 {
            (PumpState::Closed, PumpAction::Close)
        } else if max_bw > 0 {
            let amount: u64 = bytes.len() as u64;
            (PumpState::Waiting(bytes), PumpAction::TryConsume(amount))
        } else {
            (PumpState::Writing, PumpAction::Write(bytes))
        },
        (PumpState::Waiting(bytes), PumpEvent::Quota(granted)) => if granted {
            (PumpState::Writing, PumpAction::Write(bytes))
        } else {
            (PumpState::Waiting(bytes), PumpAction::Sleep(PUMP_WAIT_MILLIS))
        },
        (PumpState::Waiting(bytes), PumpEvent::Waited) => {
            let amount: u64 = bytes.len() as u64;
            (PumpState::Waiting(bytes), PumpAction::TryConsume(amount))
        },
        (PumpState::Writing, PumpEvent::Written(true)) => (PumpState::Reading, PumpAction::Read),
        _ => (PumpState::Closed, PumpAction::Close),
    }
}

/// The state of one direction after a run of events.
pub open spec fn pump_after(max_bw: u64, events: Seq<PumpEvent>) -> PumpState
    decreases events.len(),
{
    if events.len() == 0 {
        PumpState::Reading
    } else {
        pumped(pump_after(max_bw, events.drop_last()), max_bw, events.last()).0
    }
}

/// What is to be done after a run of events.
pub open spec fn pump_action(max_bw: u64, events: Seq<PumpEvent>) -> PumpAction {
    if events.len() == 0 {
        PumpAction::Read
    } else {
        pumped(pump_after(max_bw, events.drop_last()), max_bw, events.last()).1
    }
}

/// Whether each event of a run can come when it comes.
pub open spec fn pump_may_run(max_bw: u64, events: Seq<PumpEvent>) -> bool
    decreases events.len(),
{
    events.len() == 0 || (pump_may_run(max_bw, events.drop_last()) && pump_expects(
        pump_after(max_bw, events.drop_last()),
        events.last(),
    ))
}

/// The bytes that were read over a run of events, in order.
pub open spec fn bytes_read(events: Seq<PumpEvent>) -> Seq<u8>
    decreases events.len(),
{
    if events.len() == 0 {
        Seq::empty()
    } else {
        bytes_read(events.drop_last()) + match events.last() {
            PumpEvent::Read(bytes) => bytes@,
            _ => Seq::empty(),
        }
    }
}

/// The bytes that were handed on for writing over a run of events, in order.
pub open spec fn bytes_written(max_bw: u64, events: Seq<PumpEvent>) -> Seq<u8>
    decreases events.len(),
{
    if events.len() == 0 {
        Seq::empty()
    } else {
        bytes_written(max_bw, events.drop_last()) + match pump_action(max_bw, events) {
            PumpAction::Write(bytes) => bytes@,
            _ => Seq::empty(),
        }
    }
}

/// The bytes that wait for their quota.
pub open spec fn bytes_waiting(state: PumpState) -> Seq<u8> {
    match state {
        PumpState::Waiting(bytes) => bytes@,
        _ => Seq::empty(),
    }
}

/// A pump alters, drops and reorders nothing: what it hands on for writing, followed
/// by what waits for its quota, is what it has read.
pub proof fn pump_forwards_what_it_reads(max_bw: u64, events: Seq<PumpEvent>)
    requires
        pump_may_run(max_bw, events),
    ensures
        bytes_written(max_bw, events) + bytes_waiting(pump_after(max_bw, events)) == bytes_read(
            events,
        ),
    decreases events.len(),
{
    if events.len() > 0 {
        let before = events.drop_last();
        pump_forwards_what_it_reads(max_bw, before);
        let state = pump_after(max_bw, before);
        let written = match pump_action(max_bw, events) {
            PumpAction::Write(bytes) => bytes@,
            _ => Seq::empty(),
        };
        let read = match events.last() {
            PumpEvent::Read(bytes) => bytes@,
            _ => Seq::empty(),
        };
        assert(written + bytes_waiting(pump_after(max_bw, events)) == bytes_waiting(state) + read);
        assert(bytes_written(max_bw, events) + bytes_waiting(pump_after(max_bw, events))
            == bytes_written(max_bw, before) + (written + bytes_waiting(
            pump_after(max_bw, events),
        )));
        assert(bytes_written(max_bw, before) + (bytes_waiting(state) + read) == (bytes_written(
            max_bw,
            before,
        ) + bytes_waiting(state)) + read);
    }
}

/// With a bandwidth limit every write follows a grant, and what was last asked for
/// is the number of its bytes; without one no quota is ever asked for.
pub proof fn pump_pays_for_its_writes(max_bw: u64, events: Seq<PumpEvent>)
    requires
        pump_may_run(max_bw, events),
        events.len() > 0,
    ensures
        max_bw == 0 ==> !(pump_action(max_bw, events) is TryConsume),
        max_bw > 0 && pump_action(max_bw, events) is Write ==> events.last() == PumpEvent::Quota(
            true,
        ),
        pump_action(max_bw, events) matches PumpAction::Write(bytes) ==> max_bw > 0 ==> pump_after(
            max_bw,
            events.drop_last(),
        ) == PumpState::Waiting(bytes),
        pump_action(max_bw, events) matches PumpAction::TryConsume(amount) ==> pump_after(
            max_bw,
            events,
        ) matches PumpState::Waiting(bytes) && amount == bytes@.len() as u64,
    decreases events.len(),
{
    unlimited_pumps_never_wait(max_bw, events.drop_last());
}

proof fn unlimited_pumps_never_wait(max_bw: u64, events: Seq<PumpEvent>)
    requires
        pump_may_run(max_bw, events),
    ensures
        max_bw == 0 ==> !(pump_after(max_bw, events) is Waiting),
    decreases events.len(),
{
    if events.len() > 0 {
        unlimited_pumps_never_wait(max_bw, events.drop_last());
    }
}

/// A direction ends at the end of its source, when nothing is read in time or
/// reading fails, or when writing fails; and at nothing else.
pub proof fn pump_ends_for_a_reason(max_bw: u64, events: Seq<PumpEvent>)
    requires
        pump_may_run(max_bw, events),
        events.len() > 0,
    ensures
        pump_action(max_bw, events) is Close <==> (events.last() == PumpEvent::ReadFailed
            || events.last() == PumpEvent::Written(false) || (events.last() matches PumpEvent::Read(
            bytes,
        ) && bytes@.len() == 0)),
{
}

/// A request is sent on to its own target at the upstream server's address, without
/// encryption, and in HTTP/1.1 if it came in HTTP/2.
pub proof fn requests_keep_their_target(addr: Seq<char>, target: Seq<char>, version: Version)
    ensures
        upstream_uri(addr, target) == "http://"@ + addr + target,
        forwarded_version(Version::Http2) == Version::Http11,
        version != Version::Http2 ==> forwarded_version(version) == version,
{
}

/// A pump goes on: what was read is written at once without a bandwidth limit, and with
/// one as soon as a quota of its length is granted; until then the same quota is asked for
/// again after five milliseconds; and after a write the next bytes are read.
pub proof fn pump_goes_on(bytes: Vec<u8>, max_bw: u64)
    requires
        bytes@.len() > 0,
    ensures
        pumped(PumpState::Reading, 0, PumpEvent::Read(bytes)) == (
            PumpState::Writing,
            PumpAction::Write(bytes),
        ),
        max_bw > 0 ==> pumped(PumpState::Reading, max_bw, PumpEvent::Read(bytes)) == (
            PumpState::Waiting(bytes),
            PumpAction::TryConsume(bytes@.len() as u64),
        ),
        pumped(PumpState::Waiting(bytes), max_bw, PumpEvent::Quota(true)) == (
            PumpState::Writing,
            PumpAction::Write(bytes),
        ),
        pumped(PumpState::Waiting(bytes), max_bw, PumpEvent::Quota(false)) == (
            PumpState::Waiting(bytes),
            PumpAction::Sleep(5),
        ),
        pumped(PumpState::Waiting(bytes), max_bw, PumpEvent::Waited) == (
            PumpState::Waiting(bytes),
            PumpAction::TryConsume(bytes@.len() as u64),
        ),
        pumped(PumpState::Writing, max_bw, PumpEvent::Written(true)) == (
            PumpState::Reading,
            PumpAction::Read,
        ),
{
}

/// A response of the server is relayed with its status and with sanitised headers; where
/// there is none, the client is told that the gateway ran out of time.
pub proof fn responses_are_relayed(
    reply: Reply,
    answered: UpstreamAction,
    failed: UpstreamAction,
)
    requires
        call_ensures(handle_http, (UpstreamEvent::Answered(reply),), answered),
        call_ensures(handle_http, (UpstreamEvent::Failed,), failed),
    ensures
        ({
            let entries = crate::headers::header_entries(reply.headers);
            &&& entries.dom().finite() && entries.dom().len() <= 6548 ==> answered is Relay
            &&& answered is Relay || answered is Overflow
            &&& answered matches UpstreamAction::Relay(out) ==> out.status == reply.status
                && crate::headers::header_entries(out.headers) == crate::proxy::reply::sanitized(
                entries,
            )
            &&& failed matches UpstreamAction::Respond(out) && out.status == 504
        }),
{
}

/// A server that switches protocols is followed, with sanitised headers; any other answer is
/// relayed as it is; where there is none, the client is told that the gateway ran out of
/// time.
pub proof fn upgrades_are_followed(
    reply: Reply,
    answered: WebSocketAction,
    failed: WebSocketAction,
)
    requires
        call_ensures(handle_websocket, (UpstreamEvent::Answered(reply),), answered),
        call_ensures(handle_websocket, (UpstreamEvent::Failed,), failed),
    ensures
        ({
            let entries = crate::headers::header_entries(reply.headers);
            &&& reply.status != 101 ==> answered == WebSocketAction::Relay(reply)
            &&& reply.status == 101 && entries.dom().finite() && entries.dom().len() <= 6548
                ==> answered is Upgrade
            &&& reply.status == 101 ==> answered is Upgrade || answered is Overflow
            &&& answered matches WebSocketAction::Upgrade(out) ==> out.status == 101
                && crate::headers::header_entries(out.headers) == crate::proxy::reply::sanitized(
                entries,
            )
            &&& failed matches WebSocketAction::Respond(out) && out.status == 504
        }),
{
}

/// A request is rewritten to its target at the upstream server, if that is a URI, and from
/// HTTP/2 to HTTP/1.1.
pub proof fn requests_are_rewritten(head: RequestHead, addr: &str, r: Rewrite)
    requires
        call_ensures(rewrite_request, (&head, addr), r),
    ensures
        r.version == if head.version == Version::Http2 {
            Version::Http11
        } else {
            head.version
        },
        uri_parses("http://"@ + addr@ + head.uri.target()) ==> (r.uri matches Some(uri) && uri@
            == "http://"@ + addr@ + head.uri.target()),
        !uri_parses("http://"@ + addr@ + head.uri.target()) ==> r.uri is None,
{
}

/// Every step of a pump is a step of the runs of which the laws speak, and bytes are read up
/// to 8192 at once.
pub proof fn pumps_run_step_by_step(
    max_bw: u64,
    events: Seq<PumpEvent>,
    event: PumpEvent,
    r: (PumpState, PumpAction),
)
    requires
        pump_may_run(max_bw, events.push(event)),
        call_ensures(pump, (pump_after(max_bw, events), max_bw, event), r),
    ensures
        r.0 == pump_after(max_bw, events.push(event)),
        r.1 == pump_action(max_bw, events.push(event)),
        PUMP_BUFFER == 8192,
{
    assert(events.push(event).drop_last() == events);
}

} // verus!
