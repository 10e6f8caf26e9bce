//! Responses of the proxy itself, and the sanitisation of those it relays.
use crate::headers::{
    insert, new_headers, remove, ASPNET_VERSION, CONTENT_LENGTH, CONTENT_TYPE_OPTIONS,
    FRAME_OPTIONS, PERMISSIONS_POLICY, POWERED_BY, REFERRER_POLICY, RUNTIME, SERVER,
    STRICT_TRANSPORT_SECURITY, TRANSFER_ENCODING, XSS_PROTECTION,
};
use crate::http::Reply;
use hyper::HeaderMap;
use vstd::prelude::*;

verus! {

broadcast use vstd::string::group_string_axioms;

/// The most header names with which a map has room for the security headers,
/// whatever its history.
pub const MAX_HEADER_NAMES: usize = 6548;

/// Whether there is room for the security headers, whatever the history of the map.
pub open spec fn roomy(entries: Map<Seq<char>, Seq<Seq<u8>>>) -> bool {
    entries.dom().finite() && entries.dom().len() <= MAX_HEADER_NAMES
}

/// The headers without those that describe the backend or the framing of its
/// body.
pub open spec fn stripped(entries: Map<Seq<char>, Seq<Seq<u8>>>) -> Map<Seq<char>, Seq<Seq<u8>>> {
    entries.remove(SERVER@).remove(POWERED_BY@).remove(ASPNET_VERSION@).remove(RUNTIME@).remove(
        CONTENT_LENGTH@,
    ).remove(TRANSFER_ENCODING@)
}

/// A single value.
pub open spec fn value(text: Seq<char>) -> Seq<Seq<u8>> {
    seq![vstd::utf8::encode_utf8(text)]
}

/// The headers with the mandatory security headers.
pub open spec fn secured(entries: Map<Seq<char>, Seq<Seq<u8>>>) -> Map<Seq<char>, Seq<Seq<u8>>> {
    entries.insert(
        STRICT_TRANSPORT_SECURITY@,
        value("max-age=31536000; includeSubDomains; preload"@),
    ).insert(FRAME_OPTIONS@, value("DENY"@)).insert(
        CONTENT_TYPE_OPTIONS@,
        value("nosniff"@),
    ).insert(XSS_PROTECTION@, value("1; mode=block"@)).insert(
        REFERRER_POLICY@,
        value("strict-origin-when-cross-origin"@),
    ).insert(PERMISSIONS_POLICY@, value("geolocation=(), microphone=(), camera=()"@))
}

/// The headers after sanitisation.
pub open spec fn sanitized(entries: Map<Seq<char>, Seq<Seq<u8>>>) -> Map<Seq<char>, Seq<Seq<u8>>> {
    secured(stripped(entries))
}

/// Whether a response is the error response of a status.
pub open spec fn error_reply(reply: Reply, status: u16) -> bool {
    reply.status == status && crate::headers::header_entries(reply.headers) == sanitized(
        Map::<Seq<char>, Seq<Seq<u8>>>::empty(),
    )
}

/// The values of the security headers are header values.
proof fn security_values_are_valid()
    ensures
        crate::headers::valid_value("max-age=31536000; includeSubDomains; preload"@),
        crate::headers::valid_value("DENY"@),
        crate::headers::valid_value("nosniff"@),
        crate::headers::valid_value("1; mode=block"@),
        crate::headers::valid_value("strict-origin-when-cross-origin"@),
        crate::headers::valid_value("geolocation=(), microphone=(), camera=()"@),
{
    reveal_strlit("max-age=31536000; includeSubDomains; preload");
    reveal_strlit("DENY");
    reveal_strlit("nosniff");
    reveal_strlit("1; mode=block");
    reveal_strlit("strict-origin-when-cross-origin");
    reveal_strlit("geolocation=(), microphone=(), camera=()");
}

/// Inserts one security header; says whether the map could take it.
fn secure(headers: &mut HeaderMap, name: &'static str, text: &str) -> (r: bool)
    requires
        crate::headers::lower_name(name@),
        crate::headers::valid_value(text@),
    ensures
        r ==> crate::headers::header_entries(*final(headers)) == crate::headers::header_entries(
            *old(headers),
        ).insert(name@, value(text@)),
        crate::headers::never_full(crate::headers::header_entries(*old(headers))) ==> r,
{
    insert(headers, name, text).is_ok()
}

/// Task: Header Sanitization
/// Strips sensitive backend headers and injects mandatory security headers. Says
/// whether the map could take them all, which fails only at its size limit.
pub fn sanitize_response_headers(headers: &mut HeaderMap) -> (r: bool)
    ensures
        r ==> crate::headers::header_entries(*final(headers)) == sanitized(
            crate::headers::header_entries(*old(headers)),
        ),
        roomy(crate::headers::header_entries(*old(headers))) ==> r,
{
    proof {
        crate::headers::names_are_lower();
        security_values_are_valid();
    }
    remove(headers, SERVER);
    remove(headers, POWERED_BY);
    remove(headers, ASPNET_VERSION);
    remove(headers, RUNTIME);
    remove(headers, CONTENT_LENGTH);
    remove(headers, TRANSFER_ENCODING);
    secure(
        headers,
        STRICT_TRANSPORT_SECURITY,
        "max-age=31536000; includeSubDomains; preload",
    ) && secure(headers, FRAME_OPTIONS, "DENY") && secure(
        headers,
        CONTENT_TYPE_OPTIONS,
        "nosniff",
    ) && secure(headers, XSS_PROTECTION, "1; mode=block") && secure(
        headers,
        REFERRER_POLICY,
        "strict-origin-when-cross-origin",
    ) && secure(headers, PERMISSIONS_POLICY, "geolocation=(), microphone=(), camera=()")
}

/// Generates a standard error response with security headers.
pub fn error_response(status: u16) -> (r: Reply)
    ensures
        error_reply(r, status),
{
    let mut headers = new_headers();
    assert(crate::headers::header_entries(headers) == Map::<Seq<char>, Seq<Seq<u8>>>::empty());
    sanitize_response_headers(&mut headers);
    Reply { status, headers }
}

/// No name that is stripped is a security header's, and no two of these are the
/// same.
proof fn names_differ()
    ensures
        ({
            let stripped_names = set![
                SERVER@,
                POWERED_BY@,
                ASPNET_VERSION@,
                RUNTIME@,
                CONTENT_LENGTH@,
                TRANSFER_ENCODING@,
            ];
            &&& !stripped_names.contains(STRICT_TRANSPORT_SECURITY@)
            &&& !stripped_names.contains(FRAME_OPTIONS@)
            &&& !stripped_names.contains(CONTENT_TYPE_OPTIONS@)
            &&& !stripped_names.contains(XSS_PROTECTION@)
            &&& !stripped_names.contains(REFERRER_POLICY@)
            &&& !stripped_names.contains(PERMISSIONS_POLICY@)
        }),
        seq![
            STRICT_TRANSPORT_SECURITY@,
            FRAME_OPTIONS@,
            CONTENT_TYPE_OPTIONS@,
            XSS_PROTECTION@,
            REFERRER_POLICY@,
            PERMISSIONS_POLICY@,
        ].no_duplicates(),
{
    reveal_strlit("content-length");
    reveal_strlit("transfer-encoding");
    reveal_strlit("server");
    reveal_strlit("x-powered-by");
    reveal_strlit("x-aspnet-version");
    reveal_strlit("x-runtime");
    reveal_strlit("strict-transport-security");
    reveal_strlit("x-frame-options");
    reveal_strlit("x-content-type-options");
    reveal_strlit("x-xss-protection");
    reveal_strlit("referrer-policy");
    reveal_strlit("permissions-policy");
    assert(CONTENT_LENGTH@.len() == 14);
    assert(TRANSFER_ENCODING@.len() == 17);
    assert(SERVER@.len() == 6);
    assert(POWERED_BY@.len() == 12);
    assert(ASPNET_VERSION@.len() == 16);
    assert(RUNTIME@.len() == 9);
    assert(STRICT_TRANSPORT_SECURITY@.len() == 25);
    assert(FRAME_OPTIONS@.len() == 15);
    assert(CONTENT_TYPE_OPTIONS@.len() == 22);
    assert(XSS_PROTECTION@.len() == 16);
    assert(REFERRER_POLICY@.len() == 15);
    assert(PERMISSIONS_POLICY@.len() == 18);
    assert(ASPNET_VERSION@[2] != XSS_PROTECTION@[2]);
    assert(FRAME_OPTIONS@[0] != REFERRER_POLICY@[0]);
}

/// A sanitised response tells nothing of the backend, carries every security
/// header with its one value, and keeps all other headers.
pub proof fn sanitisation_is_complete(entries: Map<Seq<char>, Seq<Seq<u8>>>, name: Seq<char>)
    ensures
        !sanitized(entries).contains_key(SERVER@),
        !sanitized(entries).contains_key(POWERED_BY@),
        !sanitized(entries).contains_key(ASPNET_VERSION@),
        !sanitized(entries).contains_key(RUNTIME@),
        !sanitized(entries).contains_key(CONTENT_LENGTH@),
        !sanitized(entries).contains_key(TRANSFER_ENCODING@),
        forall|k: Seq<char>| #[trigger]
            secured(Map::empty()).contains_key(k) ==> sanitized(entries).contains_key(k)
                && sanitized(entries)[k] == secured(Map::empty())[k],
        !secured(Map::empty()).contains_key(name) && stripped(entries).contains_key(name)
            ==> sanitized(entries).contains_key(name) && sanitized(entries)[name] == entries[name],
        !secured(Map::empty()).contains_key(name) && sanitized(entries).contains_key(name)
            ==> entries.contains_key(name),
{
    names_differ();
}

/// Sanitising twice is sanitising once.
pub proof fn sanitisation_is_idempotent(entries: Map<Seq<char>, Seq<Seq<u8>>>)
    ensures
        sanitized(sanitized(entries)) == sanitized(entries),
{
    names_differ();
    assert(stripped(sanitized(entries)) == sanitized(entries));
}

/// Sanitisation removes the six headers that describe the backend or the framing of its
/// body, sets the six security headers, each to its one value, and keeps every other
/// header with all its values.
pub proof fn sanitisation_touches_twelve_headers_only(
    entries: Map<Seq<char>, Seq<Seq<u8>>>,
    name: Seq<char>,
)
    requires
        name != "server"@,
        name != "x-powered-by"@,
        name != "x-aspnet-version"@,
        name != "x-runtime"@,
        name != "content-length"@,
        name != "transfer-encoding"@,
        name != "strict-transport-security"@,
        name != "x-frame-options"@,
        name != "x-content-type-options"@,
        name != "x-xss-protection"@,
        name != "referrer-policy"@,
        name != "permissions-policy"@,
    ensures
        sanitized(entries).contains_key(name) == entries.contains_key(name),
        entries.contains_key(name) ==> sanitized(entries)[name] == entries[name],
{
}

/// Of the backend nothing is told: its six headers are gone, whatever they held.
pub proof fn backend_headers_are_removed(entries: Map<Seq<char>, Seq<Seq<u8>>>)
    ensures
        !sanitized(entries).contains_key("server"@),
        !sanitized(entries).contains_key("x-powered-by"@),
        !sanitized(entries).contains_key("x-aspnet-version"@),
        !sanitized(entries).contains_key("x-runtime"@),
        !sanitized(entries).contains_key("content-length"@),
        !sanitized(entries).contains_key("transfer-encoding"@),
{
    names_differ();
}

/// Every response carries the six security headers, each with its one value, whatever
/// the server said.
pub proof fn security_headers_are_set(entries: Map<Seq<char>, Seq<Seq<u8>>>)
    ensures
        ({
            let out = sanitized(entries);
            &&& carries(
                out,
                "strict-transport-security"@,
                "max-age=31536000; includeSubDomains; preload"@,
            )
            &&& carries(out, "x-frame-options"@, "DENY"@)
            &&& carries(out, "x-content-type-options"@, "nosniff"@)
            &&& carries(out, "x-xss-protection"@, "1; mode=block"@)
            &&& carries(out, "referrer-policy"@, "strict-origin-when-cross-origin"@)
            &&& carries(
                out,
                "permissions-policy"@,
                "geolocation=(), microphone=(), camera=()"@,
            )
        }),
{
    names_differ();
    let names = seq![
        STRICT_TRANSPORT_SECURITY@,
        FRAME_OPTIONS@,
        CONTENT_TYPE_OPTIONS@,
        XSS_PROTECTION@,
        REFERRER_POLICY@,
        PERMISSIONS_POLICY@,
    ];
    assert forall|i: int, j: int| 0 <= i < j < 6 implies #[trigger] names[i]
        != #[trigger] names[j] by {}
    assert(names[0] != names[1] && names[0] != names[2] && names[0] != names[3] && names[0]
        != names[4] && names[0] != names[5]);
    assert(names[1] != names[2] && names[1] != names[3] && names[1] != names[4] && names[1]
        != names[5]);
    assert(names[2] != names[3] && names[2] != names[4] && names[2] != names[5]);
    assert(names[3] != names[4] && names[3] != names[5] && names[4] != names[5]);
}

/// Whether a name has a text as its only value.
pub open spec fn carries(
    entries: Map<Seq<char>, Seq<Seq<u8>>>,
    name: Seq<char>,
    text: Seq<char>,
) -> bool {
    entries.contains_key(name) && entries[name].len() == 1 && entries[name][0]
        == vstd::utf8::encode_utf8(text)
}

/// An error response has its status, the security headers and nothing else.
pub proof fn errors_carry_security_headers_only(reply: Reply, status: u16, name: Seq<char>)
    requires
        error_reply(reply, status),
        name != "strict-transport-security"@,
        name != "x-frame-options"@,
        name != "x-content-type-options"@,
        name != "x-xss-protection"@,
        name != "referrer-policy"@,
        name != "permissions-policy"@,
    ensures
        reply.status == status,
        !crate::headers::header_entries(reply.headers).contains_key(name),
        carries(
            crate::headers::header_entries(reply.headers),
            "strict-transport-security"@,
            "max-age=31536000; includeSubDomains; preload"@,
        ),
{
    security_headers_are_set(Map::empty());
}

/// The headers that are relayed are those of the server without the six that describe it,
/// with the six security headers, and otherwise as they were; there is room for them in
/// every map of at most 6548 names.
pub proof fn relayed_headers_are_sanitised(headers: &mut HeaderMap, r: bool, name: Seq<char>)
    requires
        call_ensures(sanitize_response_headers, (headers,), r),
        name != "server"@,
        name != "x-powered-by"@,
        name != "x-aspnet-version"@,
        name != "x-runtime"@,
        name != "content-length"@,
        name != "transfer-encoding"@,
        name != "strict-transport-security"@,
        name != "x-frame-options"@,
        name != "x-content-type-options"@,
        name != "x-xss-protection"@,
        name != "referrer-policy"@,
        name != "permissions-policy"@,
    ensures
        ({
            let before = crate::headers::header_entries(*old(headers));
            let after = crate::headers::header_entries(*final(headers));
            &&& before.dom().finite() && before.dom().len() <= 6548 ==> r
            &&& r ==> after.contains_key(name) == before.contains_key(name)
            &&& r && before.contains_key(name) ==> after[name] == before[name]
            &&& r ==> !after.contains_key("server"@) && !after.contains_key("x-powered-by"@)
                && !after.contains_key("x-aspnet-version"@) && !after.contains_key("x-runtime"@)
                && !after.contains_key("content-length"@) && !after.contains_key(
                "transfer-encoding"@,
            )
            &&& r ==> carries(after, "x-frame-options"@, "DENY"@) && carries(
                after,
                "x-content-type-options"@,
                "nosniff"@,
            ) && carries(after, "x-xss-protection"@, "1; mode=block"@) && carries(
                after,
                "referrer-policy"@,
                "strict-origin-when-cross-origin"@,
            ) && carries(
                after,
                "permissions-policy"@,
                "geolocation=(), microphone=(), camera=()"@,
            ) && carries(
                after,
                "strict-transport-security"@,
                "max-age=31536000; includeSubDomains; preload"@,
            )
        }),
{
    let before = crate::headers::header_entries(*old(headers));
    backend_headers_are_removed(before);
    security_headers_are_set(before);
    sanitisation_touches_twelve_headers_only(before, name);
}

/// An error is answered with its status and the security headers.
pub proof fn errors_are_answered(status: u16, r: Reply)
    requires
        call_ensures(error_response, (status,), r),
    ensures
        r.status == status,
        carries(crate::headers::header_entries(r.headers), "x-frame-options"@, "DENY"@),
        !crate::headers::header_entries(r.headers).contains_key("server"@),
{
    security_headers_are_set(Map::empty());
    backend_headers_are_removed(Map::empty());
}

} // verus!
