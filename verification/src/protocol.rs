//! Integrity of requests: target, host and body framing.
use crate::headers::{contains_key, get_all, CONTENT_LENGTH, HOST, TRANSFER_ENCODING};
use crate::http::{Method, RequestUri};
use crate::text::append;
use hyper::HeaderMap;
use vstd::prelude::*;

verus! {

broadcast use vstd::string::group_string_axioms;

/// Why a request breaks the protocol.
#[derive(Debug)]
pub enum ProtocolError {
    InvalidUri(String),
    InvalidHost(String),
    RequestSmuggling(String),
}

/// The message for a kind of error.
pub open spec fn message(err: ProtocolError) -> &'static str {
    match err {
        ProtocolError::InvalidUri(_) => "Invalid characters in URI",
        ProtocolError::InvalidHost(_) => "Invalid or duplicate Host header",
        ProtocolError::RequestSmuggling(_) => "Request Smuggling detected (CL/TE mixed)",
    }
}

impl From<ProtocolError> for &'static str {
    fn from(err: ProtocolError) -> (r: Self) {
        match err {
            ProtocolError::InvalidUri(_) => "Invalid characters in URI",
            ProtocolError::InvalidHost(_) => "Invalid or duplicate Host header",
            ProtocolError::RequestSmuggling(_) => "Request Smuggling detected (CL/TE mixed)",
        }
    }
}

impl vstd::std_specs::convert::FromSpecImpl<ProtocolError> for &'static str {
    open spec fn obeys_from_spec() -> bool {
        true
    }

    open spec fn from_spec(err: ProtocolError) -> Self {
        message(err)
    }
}

/// Whether a character is a control code.
pub open spec fn control(c: char) -> bool {
    c <= '\x1f' || ('\x7f' <= c && c <= '\u{9f}')
}

/// The first control code of a text.
pub open spec fn first_control(s: Seq<char>) -> Option<char>
    decreases s.len(),
{
    if s.len() == 0 {
        None
    } else if control(s[0]) {
        Some(s[0])
    } else {
        first_control(s.drop_first())
    }
}

/// A hexadecimal digit, in lower case.
pub open spec fn hex_char(n: int) -> char {
    if n < 10 {
        ('0' as int + n) as char
    } else {
        ('a' as int + n - 10) as char
    }
}

/// A control code as an escape sequence.
pub open spec fn escaped(c: char) -> Seq<char> {
    if c == '\0' {
        "\\0"@
    } else if c == '\t' {
        "\\t"@
    } else if c == '\r' {
        "\\r"@
    } else if c == '\n' {
        "\\n"@
    } else if (c as int) < 16 {
        "\\u{"@.push(hex_char(c as int)).push('}')
    } else {
        "\\u{"@.push(hex_char(c as int / 16)).push(hex_char(c as int % 16)).push('}')
    }
}

/// What is said of a control code in a URI.
pub open spec fn control_message(c: char) -> Seq<char> {
    "Control character detected: '"@ + escaped(c) + "'"@
}

/// Whether a URI is accepted, and otherwise why not.
pub open spec fn uri_fault(uri: RequestUri) -> Option<Seq<char>> {
    match first_control(uri.target()) {
        Some(c) => Some(control_message(c)),
        None => None,
    }
}

/// What is wrong with the host of a request. A request names its host at most
/// once, and at least once in its header or its URI.
pub open spec fn host_fault(
    entries: Map<Seq<char>, Seq<Seq<u8>>>,
    method: Method,
    uri: RequestUri,
) -> Option<Seq<char>> {
    let hosts = crate::headers::values_of(entries, HOST@).len();
    if method == Method::Connect {
        None
    } else if hosts == 0 && uri.host is None {
        Some("Missing Host or Authority"@)
    } else if hosts > 1 {
        Some("Duplicate Host header"@)
    } else {
        None
    }
}

/// Whether a request states both a content length and a transfer encoding.
pub open spec fn smuggles(entries: Map<Seq<char>, Seq<Seq<u8>>>) -> bool {
    entries.contains_key(CONTENT_LENGTH@) && entries.contains_key(TRANSFER_ENCODING@)
}

/// One hexadecimal digit.
fn hex_digit_char(n: u32) -> (r: char)
    requires
        n < 16,
    ensures
        r == hex_char(n as int),
{
    if n < 10 {
        (48 + n as u8) as char
    } else {
        (97 + (n as u8 - 10)) as char
    }
}

/// What is said of a control code in a URI.
fn describe_control(c: char) -> (r: String)
    requires
        control(c),
    ensures
        r@ == control_message(c),
{
    let mut text = String::new();
    append(&mut text, "Control character detected: '");
    let code: u32 = c as u32;
    if c == '\0' {
        append(&mut text, "\\0");
    } else if c == '\t' {
        append(&mut text, "\\t");
    } else if c == '\r' {
        append(&mut text, "\\r");
    } else if c == '\n' {
        append(&mut text, "\\n");
    } else {
        append(&mut text, "\\u{");
        if code >= 16 {
            text.push(hex_digit_char(code / 16));
        }
        text.push(hex_digit_char(code % 16));
        text.push('}');
    }
    append(&mut text, "'");
    assert(text@ == control_message(c));
    text
}

/// Task 1: URI Integrity Check
/// Inspects the URI for control characters like \0, \n, \r which can be used for
/// injection or bypass attacks.
pub fn validate_uri(uri: &RequestUri) -> (r: Result<(), ProtocolError>)
    ensures
        match uri_fault(*uri) {
            Some(text) => r matches Err(ProtocolError::InvalidUri(t)) && t@ == text,
            None => r is Ok,
        },
{
    let target = uri.target_text();
    assert(target@.skip(0) == target@);
    for c in it: target.chars()
        invariant
            it.seq() == target@,
            target@ == uri.target(),
            first_control(target@) == first_control(target@.skip(it.index())),
    {
        let ghost rest = target@.skip(it.index());
        assert(rest[0] == c);
        assert(rest.drop_first() == target@.skip(it.index() + 1));
        if c <= '\x1f' || ('\x7f' <= c && c <= '\u{9f}') {
            return Err(ProtocolError::InvalidUri(describe_control(c)));
        }
    }
    Ok(())
}

/// Task 2: Host Header Validation
/// Ensures that the host is named, by the Host header or by the URI, and that the
/// header is unique.
/// This is critical for HTTP/1.1 to prevent Host Header Injection or routing
/// confusion.
pub fn validate_host(headers: &HeaderMap, method: &Method, uri: &RequestUri) -> (r: Result<
    (),
    ProtocolError,
>)
    ensures
        match host_fault(crate::headers::header_entries(*headers), *method, *uri) {
            Some(text) => r matches Err(ProtocolError::InvalidHost(t)) && t@ == text,
            None => r is Ok,
        },
{
    proof {
        crate::headers::names_are_lower();
    }
    if *method != Method::Connect {
        let hosts = get_all(headers, HOST);
        if hosts.len() == 0 && uri.host.is_none() {
            return Err(ProtocolError::InvalidHost("Missing Host or Authority".to_owned()));
        }
        if hosts.len() > 1 {
            return Err(ProtocolError::InvalidHost("Duplicate Host header".to_owned()));
        }
    }
    Ok(())
}

/// Task 3: Request Smuggling Prevention
/// Blocks requests that contain both Content-Length and Transfer-Encoding headers.
/// This prevents desynchronization between the proxy and backend servers.
pub fn validate_smuggling(headers: &HeaderMap) -> (r: Result<(), ProtocolError>)
    ensures
        if smuggles(crate::headers::header_entries(*headers)) {
            r matches Err(ProtocolError::RequestSmuggling(t)) && t@ == "Both CL and TE present"@
        } else {
            r is Ok
        },
{
    proof {
        crate::headers::names_are_lower();
    }
    if contains_key(headers, CONTENT_LENGTH) && contains_key(headers, TRANSFER_ENCODING) {
        return Err(ProtocolError::RequestSmuggling("Both CL and TE present".to_owned()));
    }
    Ok(())
}

/// A target is accepted if and only if none of its characters is a control code.
pub proof fn accepted_targets_have_no_controls(s: Seq<char>)
    ensures
        first_control(s) is None <==> forall|i: int| 0 <= i < s.len() ==> !control(#[trigger] s[i]),
        first_control(s) matches Some(c) ==> control(c) && s.contains(c),
    decreases s.len(),
{
    if s.len() > 0 && !control(s[0]) {
        let rest = s.drop_first();
        accepted_targets_have_no_controls(rest);
        if first_control(s) is None {
            assert forall|i: int| 0 <= i < s.len() implies !control(#[trigger] s[i]) by {
                if i > 0 {
                    assert(rest[i - 1] == s[i]);
                }
            }
        } else {
            let c = first_control(s)->0;
            let k = choose|k: int| 0 <= k < rest.len() && rest[k] == c;
            assert(s[k + 1] == c);
        }
    } else if s.len() > 0 {
        assert(s[0] == s[0]);
    }
}

/// The control codes are the characters below the blank, the one behind the tilde and the
/// 32 that follow it.
pub proof fn control_codes_are_two_ranges(c: char)
    ensures
        control(c) <==> c as int <= 31 || 127 <= c as int <= 159,
{
}

/// A target with a control code is refused, with a message that shows the first of them;
/// one without is accepted.
pub proof fn first_control_code_is_shown(
    uri: RequestUri,
    before: Seq<char>,
    c: char,
    after: Seq<char>,
)
    requires
        uri.target() == before + seq![c] + after,
        c as int <= 31 || 127 <= c as int <= 159,
        forall|i: int| 0 <= i < before.len() ==> 31 < (#[trigger] before[i]) as int && !(127
            <= before[i] as int <= 159),
    ensures
        uri_fault(uri) == Some("Control character detected: '"@ + escaped(c) + "'"@),
{
    first_control_is(before, c, after);
}

proof fn first_control_is(before: Seq<char>, c: char, after: Seq<char>)
    requires
        control(c),
        forall|i: int| 0 <= i < before.len() ==> !control(#[trigger] before[i]),
    ensures
        first_control(before + seq![c] + after) == Some(c),
    decreases before.len(),
{
    let s = before + seq![c] + after;
    if before.len() > 0 {
        assert(s[0] == before[0]);
        assert(!control(before[0]));
        let rest = before.drop_first();
        assert forall|i: int| 0 <= i < rest.len() implies !control(#[trigger] rest[i]) by {
            assert(rest[i] == before[i + 1]);
        }
        first_control_is(rest, c, after);
        assert(s.drop_first() == rest + seq![c] + after);
    } else {
        assert(s[0] == c);
    }
}

/// A target without control codes has no fault.
pub proof fn clean_targets_are_accepted(uri: RequestUri)
    requires
        forall|i: int|
            0 <= i < uri.target().len() ==> 31 < (#[trigger] uri.target()[i]) as int && !(127
                <= uri.target()[i] as int <= 159),
    ensures
        uri_fault(uri) is None,
{
    accepted_targets_have_no_controls(uri.target());
    let target = uri.target();
    assert forall|i: int| 0 <= i < target.len() implies !control(#[trigger] target[i]) by {
        assert(31 < uri.target()[i] as int);
    }
}

/// A control code is shown by its letter, where it has one, and else by its number in
/// hexadecimal digits without leading zeros.
pub proof fn control_codes_are_shown(c: char)
    ensures
        c as int == 0 ==> escaped(c) == "\\0"@,
        c as int == 9 ==> escaped(c) == "\\t"@,
        c as int == 10 ==> escaped(c) == "\\n"@,
        c as int == 13 ==> escaped(c) == "\\r"@,
        0 < (c as int) < 16 && c as int != 9 && c as int != 10 && c as int != 13 ==> escaped(c).len()
            == 5 && crate::waf::path::writes_digit(escaped(c)[3], c as int),
        16 <= c as int <= 159 ==> {
            &&& escaped(c).len() == 6
            &&& crate::waf::path::writes_digit(escaped(c)[3], c as int / 16)
            &&& crate::waf::path::writes_digit(escaped(c)[4], c as int % 16)
            &&& escaped(c).take(3) == "\\u{"@
            &&& escaped(c)[5] == '}'
        },
{
    reveal_strlit("\\u{");
    let n = c as int;
    if 16 <= n <= 159 {
        assert(escaped(c).take(3) == "\\u{"@);
    }
}

/// A request names its host once, in its `host` header or its target, and never twice in
/// the header; a CONNECT request is not asked for it.
pub proof fn hosts_are_named_once(
    entries: Map<Seq<char>, Seq<Seq<u8>>>,
    method: Method,
    uri: RequestUri,
)
    ensures
        host_fault(entries, Method::Connect, uri) is None,
        method != Method::Connect ==> {
            let hosts = crate::headers::values_of(entries, "host"@).len();
            &&& hosts > 1 ==> host_fault(entries, method, uri) == Some("Duplicate Host header"@)
            &&& hosts == 0 && uri.host is None ==> host_fault(entries, method, uri) == Some(
                "Missing Host or Authority"@,
            )
            &&& host_fault(entries, method, uri) is None <==> hosts == 1 || (hosts == 0
                && uri.host is Some)
        },
{
}

/// A request is framed in two ways if and only if it states both a content length and a
/// transfer encoding, whatever they say.
pub proof fn two_framings_are_smuggling(entries: Map<Seq<char>, Seq<Seq<u8>>>)
    ensures
        smuggles(entries) <==> entries.contains_key("content-length"@) && entries.contains_key(
            "transfer-encoding"@,
        ),
{
}

/// Every kind of error has its own message, whatever it carries.
pub proof fn errors_have_their_messages(text: String)
    ensures
        message(ProtocolError::InvalidUri(text))@ == "Invalid characters in URI"@,
        message(ProtocolError::InvalidHost(text))@ == "Invalid or duplicate Host header"@,
        message(ProtocolError::RequestSmuggling(text))@
            == "Request Smuggling detected (CL/TE mixed)"@,
{
}

/// A request is in order if and only if its target has no control code, its host is named
/// once and it is framed in one way; each check fails with its own kind of error.
pub proof fn integrity_is_checked(
    headers: HeaderMap,
    method: Method,
    uri: RequestUri,
    of_uri: Result<(), ProtocolError>,
    of_host: Result<(), ProtocolError>,
    of_framing: Result<(), ProtocolError>,
)
    requires
        call_ensures(validate_uri, (&uri,), of_uri),
        call_ensures(validate_host, (&headers, &method, &uri), of_host),
        call_ensures(validate_smuggling, (&headers,), of_framing),
    ensures
        ({
            let entries = crate::headers::header_entries(headers);
            let hosts = crate::headers::values_of(entries, "host"@).len();
            &&& of_uri is Ok <==> forall|i: int|
                0 <= i < uri.target().len() ==> 31 < (#[trigger] uri.target()[i]) as int && !(127
                    <= uri.target()[i] as int <= 159)
            &&& of_uri matches Err(error) ==> error is InvalidUri
            &&& of_host is Ok <==> method == Method::Connect || hosts == 1 || (hosts == 0
                && uri.host is Some)
            &&& of_host matches Err(error) ==> error is InvalidHost
            &&& of_framing is Err <==> entries.contains_key("content-length"@)
                && entries.contains_key("transfer-encoding"@)
            &&& of_framing matches Err(error) ==> error is RequestSmuggling
        }),
{
    let target = uri.target();
    accepted_targets_have_no_controls(target);
    hosts_are_named_once(crate::headers::header_entries(headers), method, uri);
    if of_uri is Ok {
        assert forall|i: int| 0 <= i < uri.target().len() implies 31 < (
        #[trigger] uri.target()[i]) as int && !(127 <= uri.target()[i] as int <= 159) by {
            assert(!control(target[i]));
        }
    }
    if forall|i: int|
        0 <= i < uri.target().len() ==> 31 < (#[trigger] uri.target()[i]) as int && !(127
            <= uri.target()[i] as int <= 159) {
        clean_targets_are_accepted(uri);
    }
}

} // verus!
