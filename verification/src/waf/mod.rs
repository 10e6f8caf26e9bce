//! The web application firewall: inspection of requests and of responses.
use crate::headers::{header_text, CONTENT_TYPE, USER_AGENT};
use crate::http::{Method, RequestUri};
use crate::text::{chars_of, contains, from_utf8_lossy, string_of};
use crate::waf::dlp::{mask_sensitive_info, SensitivePatterns};
use crate::waf::file::{check_magic_number, is_allowed_file_type};
use crate::waf::injection::{get_patterns, is_attack, AttackPatterns};
use crate::waf::path::{get_traversal_matcher, is_traversal, normalize_url, TraversalMatcher};
use crate::waf::structure::{
    check_json_depth, has_parameter_pollution, is_high_density, is_malicious_bot,
};
use hyper::HeaderMap;
use vstd::prelude::*;

pub mod dlp;
pub mod file;
pub mod injection;
pub mod path;
pub mod single;
pub mod structure;

verus! {

broadcast use vstd::string::group_string_axioms;

/// How deep a payload may nest.
pub const MAX_JSON_DEPTH: usize = 10;

/// The share of special characters above which a payload is refused, 0.4, as the
/// bit pattern of a single-precision number.
pub const DENSITY_THRESHOLD: u32 = 0x3ECC_CCCD;

/// All compiled rules.
pub struct Rules {
    pub attacks: AttackPatterns,
    pub traversal: TraversalMatcher,
    pub sensitive: SensitivePatterns,
}

/// Whether the pattern engines accept all rules.
pub open spec fn rules_compile() -> bool {
    &&& injection::set_compiles(injection::attack_patterns())
    &&& path::automaton_builds(path::traversal_patterns())
    &&& dlp::regex_compiles(dlp::EMAIL@)
    &&& dlp::regex_compiles(dlp::CARD@)
}

impl Rules {
    /// Compiles all rules; `None` if a pattern engine refuses one.
    pub fn compile() -> (r: Option<Rules>)
        ensures
            r is Some == rules_compile(),
    {
        match (get_patterns(), get_traversal_matcher(), SensitivePatterns::compile()) {
            (Some(attacks), Some(traversal), Some(sensitive)) => Some(
                Rules { attacks, traversal, sensitive },
            ),
            _ => None,
        }
    }
}

/// Why a request is refused for what its head shows.
pub open spec fn header_refusal(traversal: bool, attack: bool, polluted: bool, bot: bool) -> Option<
    Seq<char>,
> {
    if traversal {
        Some("Directory Traversal detected"@)
    } else if attack {
        Some("Malicious pattern detected in URI"@)
    } else if polluted {
        Some("HTTP Parameter Pollution detected in URI"@)
    } else if bot {
        Some("Malicious Bot detected"@)
    } else {
        None
    }
}

/// Why a request is refused for what its body shows; `magic` is the objection to
/// its first bytes.
pub open spec fn body_refusal(
    magic: Option<Seq<char>>,
    mismatch: bool,
    too_deep: bool,
    dense: bool,
    polluted: bool,
    attack: bool,
) -> Option<Seq<char>> {
    if magic is Some {
        magic
    } else if mismatch {
        Some("File signature mismatch with Content-Type"@)
    } else if too_deep {
        Some("JSON nesting too deep"@)
    } else if dense {
        Some("High payload density detected"@)
    } else if polluted {
        Some("Parameter Pollution detected in payload"@)
    } else if attack {
        Some("Malicious pattern detected in payload"@)
    } else {
        None
    }
}

/// Whether the query of a URI names a parameter twice.
pub open spec fn query_polluted(uri: RequestUri) -> bool {
    uri.query() matches Some(query) && structure::has_duplicate_key(
        structure::parameter_keys(query),
    )
}

/// Whether the user agent is an attack tool.
pub open spec fn sent_by_bot(entries: Map<Seq<char>, Seq<Seq<u8>>>) -> bool {
    crate::headers::text_of(entries, USER_AGENT@) matches Some(agent)
        && structure::names_attack_tool(crate::text::ascii_lower(agent))
}

/// Whether the body has not the signature of its declared type.
pub open spec fn type_mismatch(entries: Map<Seq<char>, Seq<Seq<u8>>>, body: Seq<u8>) -> bool {
    crate::headers::text_of(entries, CONTENT_TYPE@) matches Some(content_type)
        && !file::type_agrees(content_type, body)
}

/// Why the head of a request is refused.
pub open spec fn header_fault(uri: RequestUri, entries: Map<Seq<char>, Seq<Seq<u8>>>) -> Option<
    Seq<char>,
> {
    let target = path::normalized(uri.target());
    header_refusal(
        path::carries_traversal(target),
        injection::carries_attack(vstd::utf8::encode_utf8(target)),
        query_polluted(uri),
        sent_by_bot(entries),
    )
}

/// Why the body of a request is refused.
pub open spec fn body_fault(entries: Map<Seq<char>, Seq<Seq<u8>>>, body: Seq<u8>) -> Option<
    Seq<char>,
> {
    let text = crate::text::read_lossily(body);
    body_refusal(
        file::magic_refusal(body),
        type_mismatch(entries, body),
        !structure::nesting_within(text, MAX_JSON_DEPTH as nat),
        structure::dense(text, DENSITY_THRESHOLD),
        structure::has_duplicate_key(structure::parameter_keys(text)),
        injection::carries_attack(body),
    )
}

/// Whether a result refuses with a reason, or accepts where there is none.
pub open spec fn refuses_with(r: Result<(), &'static str>, reason: Option<Seq<char>>) -> bool {
    match r {
        Ok(_) => reason is None,
        Err(text) => reason == Some(text@),
    }
}

/// Judges the head of a request by what was found in it.
pub fn judge_header(traversal: bool, attack: bool, polluted: bool, bot: bool) -> (r: Result<
    (),
    &'static str,
>)
    ensures
        refuses_with(r, header_refusal(traversal, attack, polluted, bot)),
{
    if traversal {
        return Err("Directory Traversal detected");
    }
    if attack {
        return Err("Malicious pattern detected in URI");
    }
    if polluted {
        return Err("HTTP Parameter Pollution detected in URI");
    }
    if bot {
        return Err("Malicious Bot detected");
    }
    Ok(())
}

/// Judges the body of a request by what was found in it.
pub fn judge_body(
    magic: Result<(), &'static str>,
    mismatch: bool,
    too_deep: bool,
    dense: bool,
    polluted: bool,
    attack: bool,
) -> (r: Result<(), &'static str>)
    ensures
        refuses_with(
            r,
            body_refusal(
                match magic {
                    Ok(_) => None,
                    Err(reason) => Some(reason@),
                },
                mismatch,
                too_deep,
                dense,
                polluted,
                attack,
            ),
        ),
{
    if let Err(reason) = magic {
        return Err(reason);
    }
    if mismatch {
        return Err("File signature mismatch with Content-Type");
    }
    if too_deep {
        return Err("JSON nesting too deep");
    }
    if dense {
        return Err("High payload density detected");
    }
    if polluted {
        return Err("Parameter Pollution detected in payload");
    }
    if attack {
        return Err("Malicious pattern detected in payload");
    }
    Ok(())
}

/// [Phase 1: Header and Metadata Inspection]
/// Check performed before processing the request body. Targets URI-based
/// injections and malicious bots.
pub fn header(rules: &Rules, uri: &RequestUri, _method: &Method, headers: &HeaderMap) -> (r: Result<
    (),
    &'static str,
>)
    ensures
        refuses_with(r, header_fault(*uri, crate::headers::header_entries(*headers))),
{
    proof {
        crate::headers::names_are_lower();
    }
    let target = normalize_url(uri.target_text());
    let traversal = is_traversal(&rules.traversal, target.as_str());
    let attack = is_attack(&rules.attacks, target.as_str().as_bytes());
    let polluted = match uri.query_text() {
        Some(query) => has_parameter_pollution(query.as_str()),
        None => false,
    };
    let bot = match header_text(headers, USER_AGENT) {
        Some(agent) => {
            proof {
                crate::headers::text_is_ascii(
                    crate::headers::header_entries(*headers),
                    USER_AGENT@,
                );
            }
            is_malicious_bot(string_of(agent.as_slice()).as_str())
        },
        None => false,
    };
    judge_header(traversal, attack, polluted, bot)
}

/// [Phase 2: Payload Inspection]
/// Checks the signature, structure and content of a request body.
pub fn body(rules: &Rules, headers: &HeaderMap, body_bytes: &[u8]) -> (r: Result<(), &'static str>)
    ensures
        refuses_with(r, body_fault(crate::headers::header_entries(*headers), body_bytes@)),
{
    proof {
        crate::headers::names_are_lower();
    }
    let magic = check_magic_number(body_bytes);
    let mismatch = match header_text(headers, CONTENT_TYPE) {
        Some(content_type) => !is_allowed_file_type(
            string_of(content_type.as_slice()).as_str(),
            body_bytes,
        ),
        None => false,
    };
    let text = from_utf8_lossy(body_bytes);
    let too_deep = !check_json_depth(text.as_str(), MAX_JSON_DEPTH);
    let dense = is_high_density(text.as_str(), DENSITY_THRESHOLD);
    let polluted = has_parameter_pollution(text.as_str());
    let attack = is_attack(&rules.attacks, body_bytes);
    judge_body(magic, mismatch, too_deep, dense, polluted, attack)
}

/// Whether a media type, in lower case, names text.
pub open spec fn names_text(content_type: Seq<char>) -> bool {
    ||| crate::text::occurs(content_type, "text/"@)
    ||| crate::text::occurs(content_type, "json"@)
    ||| crate::text::occurs(content_type, "xml"@)
    ||| crate::text::occurs(content_type, "javascript"@)
}

/// Whether the headers declare a body of text.
pub open spec fn declares_text(entries: Map<Seq<char>, Seq<Seq<u8>>>) -> bool {
    crate::headers::text_of(entries, CONTENT_TYPE@) matches Some(content_type) && names_text(
        crate::text::ascii_lower(content_type),
    )
}

/// Whether a media type, in lower case, names text.
pub fn is_text_type(content_type: &str) -> (r: bool)
    ensures
        r == names_text(content_type@),
{
    let chars = chars_of(content_type);
    let chars = chars.as_slice();
    contains(chars, "text/") || contains(chars, "json") || contains(chars, "xml") || contains(
        chars,
        "javascript",
    )
}

/// Whether the headers declare a body of text.
pub fn has_text_body(headers: &HeaderMap) -> (r: bool)
    ensures
        r == declares_text(crate::headers::header_entries(*headers)),
{
    proof {
        crate::headers::names_are_lower();
    }
    match header_text(headers, CONTENT_TYPE) {
        Some(content_type) => {
            proof {
                crate::headers::text_is_ascii(
                    crate::headers::header_entries(*headers),
                    CONTENT_TYPE@,
                );
            }
            let lower = string_of(content_type.as_slice()).as_str().to_lowercase();
            is_text_type(lower.as_str())
        },
        None => false,
    }
}

/// What became of a response body.
pub enum BodyEvent {
    /// It is about to be sent.
    Start,
    /// It was read to its end.
    Collected(Vec<u8>),
    /// It broke off.
    Failed,
}

/// What to do with a response body.
pub enum BodyAction {
    /// Send it as it is.
    PassThrough,
    /// Read it to its end.
    Collect,
    /// Send this text in its place.
    Replace(String),
    /// Send an empty body, so that no partial data leaks.
    Empty,
}

/// [Phase 3: Outbound Data Leakage Prevention]
/// Inspects and sanitizes the content being sent back to the user (DLP).
/// Only processes text-based content to avoid memory issues with large binary
/// files.
pub fn apply_dlp(rules: &Rules, headers: &HeaderMap, event: BodyEvent) -> (r: BodyAction)
    ensures
        match event {
            BodyEvent::Start => if declares_text(crate::headers::header_entries(*headers)) {
                r is Collect
            } else {
                r is PassThrough
            },
            BodyEvent::Collected(bytes) => r matches BodyAction::Replace(text) && text@
                == dlp::cards_masked(dlp::emails_masked(crate::text::read_lossily(bytes@))),
            BodyEvent::Failed => r is Empty,
        },
{
    match event {
        BodyEvent::Start => if has_text_body(headers) {
            BodyAction::Collect
        } else {
            BodyAction::PassThrough
        },
        BodyEvent::Collected(bytes) => {
            let original = from_utf8_lossy(bytes.as_slice());
            BodyAction::Replace(mask_sensitive_info(&rules.sensitive, original.as_str()))
        },
        BodyEvent::Failed => BodyAction::Empty,
    }
}

/// A body that passes inspection is no executable or script, has the signature of
/// its declared type, is neither too deep nor too dense, names no parameter twice
/// and carries no injection signature.
pub proof fn accepted_bodies_are_clean(entries: Map<Seq<char>, Seq<Seq<u8>>>, body: Seq<u8>)
    requires
        body_fault(entries, body) is None,
    ensures
        ({
            let text = crate::text::read_lossily(body);
            &&& file::magic_refusal(body) is None
            &&& crate::headers::text_of(entries, CONTENT_TYPE@) matches Some(content_type)
                ==> file::type_agrees(content_type, body)
            &&& structure::nesting_within(text, MAX_JSON_DEPTH as nat)
            &&& !structure::dense(text, DENSITY_THRESHOLD)
            &&& !structure::has_duplicate_key(structure::parameter_keys(text))
            &&& !injection::carries_attack(body)
        }),
{
}

/// The head of a request is refused for traversal, then for an injection, then for a
/// repeated parameter, then for an attack tool, each with its reason, and else not.
pub proof fn head_reasons_are_told_in_order(attack: bool, polluted: bool, bot: bool)
    ensures
        header_refusal(true, attack, polluted, bot) == Some("Directory Traversal detected"@),
        header_refusal(false, true, polluted, bot) == Some("Malicious pattern detected in URI"@),
        header_refusal(false, false, true, bot) == Some(
            "HTTP Parameter Pollution detected in URI"@,
        ),
        header_refusal(false, false, false, true) == Some("Malicious Bot detected"@),
        header_refusal(false, false, false, false) is None,
{
}

/// A body is refused for what its first bytes say, then for a signature that its type
/// does not have, then for its depth, its density, a repeated parameter and an injection,
/// each with its reason, and else not.
pub proof fn body_reasons_are_told_in_order(
    reason: Seq<char>,
    mismatch: bool,
    too_deep: bool,
    dense: bool,
    polluted: bool,
    attack: bool,
)
    ensures
        body_refusal(Some(reason), mismatch, too_deep, dense, polluted, attack) == Some(reason),
        body_refusal(None, true, too_deep, dense, polluted, attack) == Some(
            "File signature mismatch with Content-Type"@,
        ),
        body_refusal(None, false, true, dense, polluted, attack) == Some("JSON nesting too deep"@),
        body_refusal(None, false, false, true, polluted, attack) == Some(
            "High payload density detected"@,
        ),
        body_refusal(None, false, false, false, true, attack) == Some(
            "Parameter Pollution detected in payload"@,
        ),
        body_refusal(None, false, false, false, false, true) == Some(
            "Malicious pattern detected in payload"@,
        ),
        body_refusal(None, false, false, false, false, false) is None,
{
}

/// The head of a request passes inspection if and only if its decoded target carries
/// neither traversal nor injection, its query names no parameter twice, and its user
/// agent, where it is text, names no attack tool.
pub proof fn heads_pass_if_clean(uri: RequestUri, entries: Map<Seq<char>, Seq<Seq<u8>>>)
    ensures
        header_fault(uri, entries) is None <==> {
            let target = path::normalized(uri.target());
            &&& !path::carries_traversal(target)
            &&& !injection::carries_attack(vstd::utf8::encode_utf8(target))
            &&& uri.query() matches Some(query) ==> !structure::has_duplicate_key(
                structure::parameter_keys(query),
            )
            &&& crate::headers::text_of(entries, "user-agent"@) matches Some(agent)
                ==> !structure::names_attack_tool(crate::text::ascii_lower(agent))
        },
{
}

/// A body passes inspection if and only if its first bytes are no executable's or
/// script's, it has the signature of its declared type, it nests at most ten levels deep,
/// its special characters are not too many by the threshold of two fifths, it names no
/// parameter twice and it carries no injection.
pub proof fn bodies_pass_if_clean(entries: Map<Seq<char>, Seq<Seq<u8>>>, body: Seq<u8>)
    ensures
        body_fault(entries, body) is None <==> {
            let text = crate::text::read_lossily(body);
            &&& file::magic_refusal(body) is None
            &&& crate::headers::text_of(entries, "content-type"@) matches Some(content_type)
                ==> file::type_agrees(content_type, body)
            &&& structure::nesting_within(text, 10)
            &&& !structure::dense(text, 0x3ECC_CCCD)
            &&& !structure::has_duplicate_key(structure::parameter_keys(text))
            &&& !injection::carries_attack(body)
        },
{
}

/// A request whose target carries two dots and a slash is refused for traversal,
/// whatever its headers are and whatever stands behind them.
pub proof fn traversal_requests_are_refused(
    uri: RequestUri,
    entries: Map<Seq<char>, Seq<Seq<u8>>>,
    before: Seq<char>,
    after: Seq<char>,
)
    requires
        !before.contains('%'),
        uri.target() == before + seq!['.', '.', '/'] + after || uri.target() == before + seq![
            '%',
            '2',
            'e',
            '%',
            '2',
            'e',
            '%',
            '2',
            'f',
        ] + after,
    ensures
        header_fault(uri, entries) == Some("Directory Traversal detected"@),
{
    path::escaped_dots_are_found(before, after);
}

/// A request whose user agent names an attack tool, in whatever case, does not pass.
pub proof fn attack_tools_are_refused(
    uri: RequestUri,
    entries: Map<Seq<char>, Seq<Seq<u8>>>,
    before: Seq<char>,
    tool: Seq<char>,
    after: Seq<char>,
)
    requires
        crate::headers::text_of(entries, "user-agent"@) == Some(before + tool + after),
        ({
            let name = crate::text::ascii_lower(tool);
            name == "sqlmap"@ || name == "nikto"@ || name == "nmap"@ || name == "masscan"@ || name
                == "dirbuster"@ || name == "gobuster"@
        }),
    ensures
        header_fault(uri, entries) is Some,
{
    structure::attack_tools_are_recognised(before, tool, after);
}

/// A body of text that nests deeper than ten levels does not pass.
pub proof fn deep_bodies_are_refused(
    entries: Map<Seq<char>, Seq<Seq<u8>>>,
    openings: Seq<char>,
    rest: Seq<char>,
)
    requires
        openings.len() > 10,
        forall|i: int| 0 <= i < openings.len() ==> (#[trigger] openings[i]) == '{' || openings[i]
            == '[',
    ensures
        body_fault(entries, vstd::utf8::encode_utf8(openings + rest)) is Some,
{
    let text = openings + rest;
    let body = vstd::utf8::encode_utf8(text);
    crate::text::encoded_text_is_read(text);
    structure::openings_are_counted(openings, 10);
    if structure::nesting_within(text, 10) {
        assert forall|i: int| 0 <= i <= openings.len() implies structure::nesting(
            #[trigger] openings.take(i),
        ) <= 10 by {
            assert(text.take(i) == openings.take(i));
        }
    }
}

/// A media type names text wherever one of the four words stands in it, in whatever case,
/// and nowhere else.
pub proof fn text_types_are_recognised(before: Seq<char>, word: Seq<char>, after: Seq<char>)
    requires
        ({
            let lower = crate::text::ascii_lower(word);
            lower == "text/"@ || lower == "json"@ || lower == "xml"@ || lower == "javascript"@
        }),
    ensures
        names_text(crate::text::ascii_lower(before + word + after)),
{
    let lower = crate::text::ascii_lower(word);
    crate::text::text_is_found(
        crate::text::ascii_lower(before),
        lower,
        crate::text::ascii_lower(after),
    );
    assert(crate::text::ascii_lower(before + word + after) == crate::text::ascii_lower(before)
        + lower + crate::text::ascii_lower(after));
}

/// A media type in which none of the four words stands names no text.
pub proof fn other_types_are_no_text(content_type: Seq<char>)
    requires
        !crate::text::occurs(content_type, "text/"@),
        !crate::text::occurs(content_type, "json"@),
        !crate::text::occurs(content_type, "xml"@),
        !crate::text::occurs(content_type, "javascript"@),
    ensures
        !names_text(content_type),
{
}

/// A body is text if and only if its content type says so.
pub proof fn content_type_declares_text(entries: Map<Seq<char>, Seq<Seq<u8>>>)
    ensures
        declares_text(entries) <==> (crate::headers::text_of(
            entries,
            "content-type"@,
        ) matches Some(content_type) && names_text(crate::text::ascii_lower(content_type))),
{
}

/// The inspection of a head refuses it if and only if it is not clean, and says
/// "Directory Traversal detected" wherever its decoded target carries a traversal.
pub proof fn heads_are_inspected(
    rules: Rules,
    uri: RequestUri,
    method: Method,
    headers: HeaderMap,
    r: Result<(), &'static str>,
)
    requires
        call_ensures(header, (&rules, &uri, &method, &headers), r),
    ensures
        ({
            let entries = crate::headers::header_entries(headers);
            let target = path::normalized(uri.target());
            &&& path::carries_traversal(target) ==> (r matches Err(reason) && reason@
                == "Directory Traversal detected"@)
            &&& injection::carries_attack(vstd::utf8::encode_utf8(target)) ==> r is Err
            &&& (uri.query() matches Some(query) && structure::has_duplicate_key(
                structure::parameter_keys(query),
            )) ==> r is Err
            &&& (crate::headers::text_of(entries, "user-agent"@) matches Some(agent)
                && structure::names_attack_tool(crate::text::ascii_lower(agent))) ==> r is Err
            &&& r is Ok ==> header_fault(uri, entries) is None
            &&& r is Err ==> header_fault(uri, entries) is Some
        }),
{
    heads_pass_if_clean(uri, crate::headers::header_entries(headers));
}

/// The inspection of a body refuses it if and only if it is not clean.
pub proof fn bodies_are_inspected(
    rules: Rules,
    headers: HeaderMap,
    bytes: &[u8],
    r: Result<(), &'static str>,
)
    requires
        call_ensures(body, (&rules, &headers, bytes), r),
    ensures
        r is Ok <==> {
            let entries = crate::headers::header_entries(headers);
            let text = crate::text::read_lossily(bytes@);
            &&& file::magic_refusal(bytes@) is None
            &&& crate::headers::text_of(entries, "content-type"@) matches Some(content_type)
                ==> file::type_agrees(content_type, bytes@)
            &&& structure::nesting_within(text, 10)
            &&& !structure::dense(text, 0x3ECC_CCCD)
            &&& !structure::has_duplicate_key(structure::parameter_keys(text))
            &&& !injection::carries_attack(bytes@)
        },
{
    bodies_pass_if_clean(crate::headers::header_entries(headers), bytes@);
}

/// A response of text is read to its end and sent with its addresses and card numbers
/// masked; one that breaks off is sent empty; one that is no text is sent as it is.
pub proof fn responses_of_text_are_masked(
    rules: Rules,
    headers: HeaderMap,
    bytes: Vec<u8>,
    first: BodyAction,
    then: BodyAction,
    failed: BodyAction,
)
    requires
        call_ensures(apply_dlp, (&rules, &headers, BodyEvent::Start), first),
        call_ensures(apply_dlp, (&rules, &headers, BodyEvent::Collected(bytes)), then),
        call_ensures(apply_dlp, (&rules, &headers, BodyEvent::Failed), failed),
    ensures
        ({
            let is_text = crate::headers::text_of(
                crate::headers::header_entries(headers),
                "content-type"@,
            ) matches Some(content_type) && names_text(crate::text::ascii_lower(content_type));
            &&& is_text ==> first is Collect
            &&& !is_text ==> first is PassThrough
            &&& then matches BodyAction::Replace(text) && text@ == dlp::cards_masked(
                dlp::emails_masked(crate::text::read_lossily(bytes@)),
            )
            &&& failed is Empty
        }),
{
}

/// The rules compile if and only if the engines accept the three signatures, the seven
/// traversal patterns and the two patterns of sensitive data.
pub proof fn rules_are_compiled(r: Option<Rules>)
    requires
        call_ensures(Rules::compile, (), r),
    ensures
        r is Some <==> injection::set_compiles(injection::attack_patterns())
            && path::automaton_builds(path::traversal_patterns()) && dlp::regex_compiles(
            r"[a-zA-Z0-9._%+-]+@[a-zA-Z0-9.-]+\.[a-zA-Z]{2,}"@,
        ) && dlp::regex_compiles(r"\b(?:\d[ -]*?){13,16}\b"@),
{
}

} // verus!
