//! Header fields of requests and responses.
use hyper::header::HeaderValue;
use hyper::HeaderMap;
use vstd::prelude::*;

verus! {

broadcast use vstd::string::group_string_axioms;

/// The host that a request is for.
pub const HOST: &'static str = "host";

/// The media type of a body.
pub const CONTENT_TYPE: &'static str = "content-type";

/// The length of a body.
pub const CONTENT_LENGTH: &'static str = "content-length";

/// How a body is framed.
pub const TRANSFER_ENCODING: &'static str = "transfer-encoding";

/// What program sent a request.
pub const USER_AGENT: &'static str = "user-agent";

/// The protocol that a request asks to switch to.
pub const UPGRADE: &'static str = "upgrade";

/// Where a redirect leads.
pub const LOCATION: &'static str = "location";

/// The address of the client behind the content network.
pub const CONNECTING_IP: &'static str = "cf-connecting-ip";

/// What program sent a response.
pub const SERVER: &'static str = "server";

/// What framework made a response.
pub const POWERED_BY: &'static str = "x-powered-by";

/// The version of that framework.
pub const ASPNET_VERSION: &'static str = "x-aspnet-version";

/// How long a response took to make.
pub const RUNTIME: &'static str = "x-runtime";

/// Keeps clients on HTTPS.
pub const STRICT_TRANSPORT_SECURITY: &'static str = "strict-transport-security";

/// Where a page may be framed.
pub const FRAME_OPTIONS: &'static str = "x-frame-options";

/// Whether media types may be guessed.
pub const CONTENT_TYPE_OPTIONS: &'static str = "x-content-type-options";

/// The script filter of a browser.
pub const XSS_PROTECTION: &'static str = "x-xss-protection";

/// What a browser tells of where a request came from.
pub const REFERRER_POLICY: &'static str = "referrer-policy";

/// Which features of a browser a page may use.
pub const PERMISSIONS_POLICY: &'static str = "permissions-policy";

/// A header value of the crate `http`.
#[verifier::external_type_specification]
#[verifier::external_body]
pub struct ExHeaderValue(hyper::header::HeaderValue);

/// The header map of the crate `http`.
#[verifier::external_type_specification]
#[verifier::external_body]
#[verifier::reject_recursive_types(T)]
pub struct ExHeaderMap<T>(hyper::HeaderMap<T>);

/// What a header map holds: under each name in lower case, its values in order.
pub uninterp spec fn header_entries(headers: HeaderMap) -> Map<Seq<char>, Seq<Seq<u8>>>;

/// `HeaderMap::new` makes an empty map.
#[verifier::external_body]
pub(crate) fn new_headers() -> (r: HeaderMap)
    ensures
        forall|name: Seq<char>| !#[trigger] header_entries(r).contains_key(name),
{
    HeaderMap::new()
}

/// `HeaderMap::get` finds the first value of a name. A name that is there has a
/// value.
#[verifier::external_body]
pub(crate) fn get(headers: &HeaderMap, name: &str) -> (r: Option<Vec<u8>>)
    requires
        lower_name(name@),
    ensures
        r is Some == header_entries(*headers).contains_key(name@),
        r matches Some(value) ==> header_entries(*headers)[name@].len()
            > 0 && value@ == header_entries(*headers)[name@][0],
{
    headers.get(name).map(|value| value.as_bytes().to_vec())
}

/// `HeaderMap::get_all` hands out all values of a name, in order. A name that is
/// there has a value.
#[verifier::external_body]
pub(crate) fn get_all(headers: &HeaderMap, name: &str) -> (r: Vec<Vec<u8>>)
    requires
        lower_name(name@),
    ensures
        value_bytes(r@) == values_of(header_entries(*headers), name@),
        (r@.len() > 0) == header_entries(*headers).contains_key(name@),
{
    headers.get_all(name).iter().map(|value| value.as_bytes().to_vec()).collect()
}

/// `HeaderMap::contains_key` says whether a name is there.
#[verifier::external_body]
pub(crate) fn contains_key(headers: &HeaderMap, name: &str) -> (r: bool)
    requires
        lower_name(name@),
    ensures
        r == header_entries(*headers).contains_key(name@),
{
    headers.contains_key(name)
}

/// `HeaderMap::len` counts the values of all names.
#[verifier::external_body]
pub(crate) fn len(headers: &HeaderMap) -> (r: usize)
    ensures
        r == value_count(header_entries(*headers)),
{
    headers.len()
}

/// `HeaderMap::remove` takes a name out with all its values.
#[verifier::external_body]
pub(crate) fn remove(headers: &mut HeaderMap, name: &str)
    requires
        lower_name(name@),
    ensures
        header_entries(*final(headers)) == header_entries(*old(headers)).remove(
            name@,
        ),
{
    headers.remove(name);
}

/// Why a header was not inserted.
#[derive(Debug, Clone, Copy, PartialEq, Eq, Structural)]
pub enum InsertError {
    /// The text is no header value.
    InvalidValue,
    /// The map has reached its size limit.
    Full,
}

/// `HeaderValue::from_str` makes a value of a text without control characters but
/// the tabulator; `HeaderMap::try_insert` puts it under the name, in place of all
/// values that were there. The map holds its names in a table whose size is
/// limited. Whether it has to grow beyond the limit depends on its history, so this
/// is left open but for maps with so few names that it never does. A map into which
/// nothing is inserted stays as it was.
#[verifier::external_body]
pub(crate) fn insert(headers: &mut HeaderMap, name: &'static str, value: &str) -> (r: Result<
    (),
    InsertError,
>)
    requires
        lower_name(name@),
    ensures
        (r matches Err(InsertError::InvalidValue)) == !valid_value(value@),
        r is Ok ==> header_entries(*final(headers)) == header_entries(*old(headers)).insert(
            name@,
            seq![vstd::utf8::encode_utf8(value@)],
        ),
        r is Err ==> header_entries(*final(headers)) == header_entries(*old(headers)),
        never_full(header_entries(*old(headers))) ==> !(r matches Err(InsertError::Full)),
{
    match HeaderValue::from_str(value) {
        Ok(value) => headers.try_insert(name, value).map(|_| ()).map_err(|_| InsertError::Full),
        Err(_) => Err(InsertError::InvalidValue),
    }
}

/// Whether a map has so few names that a further one never takes it to its size
/// limit, whatever its history: a table of the largest size, 32768 places, never has
/// to grow while less than a fifth of it is used.
pub open spec fn never_full(entries: Map<Seq<char>, Seq<Seq<u8>>>) -> bool {
    entries.dom().finite() && 5 * entries.dom().len() < 32768
}

/// The byte sequences of a list.
pub open spec fn value_bytes(values: Seq<Vec<u8>>) -> Seq<Seq<u8>> {
    values.map_values(|value: Vec<u8>| value@)
}

/// The values of a name; none where the name is not there.
pub open spec fn values_of(entries: Map<Seq<char>, Seq<Seq<u8>>>, name: Seq<char>) -> Seq<Seq<u8>> {
    if entries.contains_key(name) {
        entries[name]
    } else {
        Seq::empty()
    }
}

/// How many values all names have together.
pub open spec fn value_count(entries: Map<Seq<char>, Seq<Seq<u8>>>) -> nat {
    entries.dom().fold(0nat, |total: nat, name: Seq<char>| total + entries[name].len())
}

/// Whether a text is a header name of small letters, digits and hyphens.
pub open spec fn lower_name(name: Seq<char>) -> bool {
    1 <= name.len() <= 64 && forall|i: int| 0 <= i < name.len() ==> name_char(#[trigger] name[i])
}

/// Whether a character is a small letter, a digit or a hyphen.
pub open spec fn name_char(c: char) -> bool {
    ('a' <= c && c <= 'z') || ('0' <= c && c <= '9') || c == '-'
}

/// Whether a text can be a header value: it has no control characters but the
/// tabulator.
pub open spec fn valid_value(value: Seq<char>) -> bool {
    forall|i: int| 0 <= i < value.len() ==> value_char(#[trigger] value[i])
}

/// Whether a character can stand in a header value.
pub open spec fn value_char(c: char) -> bool {
    (c >= ' ' && c != '\x7f') || c == '\t'
}

/// Whether a byte is a visible ASCII character, a space or a tabulator.
pub open spec fn visible(b: u8) -> bool {
    (32 <= b && b < 127) || b == 9
}

/// Whether all bytes are visible.
pub open spec fn all_visible(bytes: Seq<u8>) -> bool {
    forall|i: int| 0 <= i < bytes.len() ==> visible(#[trigger] bytes[i])
}

/// The first value of a name, where it is there and is text.
pub open spec fn text_of(entries: Map<Seq<char>, Seq<Seq<u8>>>, name: Seq<char>) -> Option<
    Seq<char>,
> {
    if entries.contains_key(name) && all_visible(entries[name][0]) {
        Some(crate::text::latin1(entries[name][0]))
    } else {
        None
    }
}

/// The characters that visible bytes stand for; bytes that are not visible are no
/// text.
pub fn to_str(value: &[u8]) -> (r: Option<Vec<char>>)
    ensures
        r is Some == all_visible(value@),
        r matches Some(chars) ==> chars@ == crate::text::latin1(value@),
{
    let mut chars: Vec<char> = Vec::new();
    let mut i: usize = 0;
    while i < value.len()
        invariant
            i <= value@.len(),
            forall|j: int| 0 <= j < i ==> visible(#[trigger] value@[j]),
            chars@ == crate::text::latin1(value@.take(i as int)),
        decreases value@.len() - i,
    {
        let b: u8 = value[i];
        if !((32 <= b && b < 127) || b == 9) {
            assert(!visible(value@[i as int]));
            return None;
        }
        chars.push(b as char);
        assert(chars@ == crate::text::latin1(value@.take(i + 1)));
        i += 1;
    }
    assert(value@.take(i as int) == value@);
    Some(chars)
}

/// The first value of a name, where it is there and is text.
pub fn header_text(headers: &HeaderMap, name: &str) -> (r: Option<Vec<char>>)
    requires
        lower_name(name@),
    ensures
        match text_of(header_entries(*headers), name@) {
            Some(text) => r matches Some(chars) && chars@ == text,
            None => r is None,
        },
{
    match get(headers, name) {
        Some(value) => to_str(value.as_slice()),
        None => None,
    }
}

/// The text of a header is ASCII.
pub(crate) proof fn text_is_ascii(entries: Map<Seq<char>, Seq<Seq<u8>>>, name: Seq<char>)
    ensures
        text_of(entries, name) matches Some(text) ==> crate::text::all_ascii(text),
{
    if text_of(entries, name) is Some {
        let bytes = entries[name][0];
        let text = crate::text::latin1(bytes);
        assert forall|i: int| 0 <= i < text.len() implies (#[trigger] text[i] as u32) < 128 by {
            assert(visible(bytes[i]));
        }
    }
}

/// The header names that the proxy uses are header names in lower case.
pub(crate) proof fn names_are_lower()
    ensures
        lower_name(HOST@),
        lower_name(CONTENT_TYPE@),
        lower_name(CONTENT_LENGTH@),
        lower_name(TRANSFER_ENCODING@),
        lower_name(USER_AGENT@),
        lower_name(UPGRADE@),
        lower_name(LOCATION@),
        lower_name(CONNECTING_IP@),
        lower_name(SERVER@),
        lower_name(POWERED_BY@),
        lower_name(ASPNET_VERSION@),
        lower_name(RUNTIME@),
        lower_name(STRICT_TRANSPORT_SECURITY@),
        lower_name(FRAME_OPTIONS@),
        lower_name(CONTENT_TYPE_OPTIONS@),
        lower_name(XSS_PROTECTION@),
        lower_name(REFERRER_POLICY@),
        lower_name(PERMISSIONS_POLICY@),
{
    reveal_strlit("host");
    reveal_strlit("content-type");
    reveal_strlit("content-length");
    reveal_strlit("transfer-encoding");
    reveal_strlit("user-agent");
    reveal_strlit("upgrade");
    reveal_strlit("location");
    reveal_strlit("cf-connecting-ip");
    reveal_strlit("server");
    reveal_strlit("x-powered-by");
    reveal_strlit("x-aspnet-version");
    reveal_strlit("x-runtime");
    reveal_strlit("strict-transport-security");
    reveal_strlit("x-frame-options");
    reveal_strlit("x-content-type-options");
    reveal_strlit("x-xss-protection");
    reveal_strlit("referrer-policy");
    reveal_strlit("permissions-policy");
}

/// Every value counts: a map without names has none, and a further name adds as
/// many as it has.
pub proof fn values_are_counted(
    entries: Map<Seq<char>, Seq<Seq<u8>>>,
    name: Seq<char>,
    values: Seq<Seq<u8>>,
)
    requires
        entries.dom().finite(),
        !entries.contains_key(name),
    ensures
        value_count(Map::empty()) == 0,
        value_count(entries.insert(name, values)) == value_count(entries) + values.len(),
{
    let more = entries.insert(name, values);
    let f = |total: nat, n: Seq<char>| total + entries[n].len();
    let g = |total: nat, n: Seq<char>| total + more[n].len();
    assert(vstd::set::fold::is_fun_commutative(f));
    assert(vstd::set::fold::is_fun_commutative(g));
    assert(more.dom() == entries.dom().insert(name));
    vstd::set::fold::lemma_fold_insert(entries.dom(), 0nat, g, name);
    vstd::set::fold::lemma_fold_empty(
        0nat,
        |total: nat, n: Seq<char>| total + Map::<Seq<char>, Seq<Seq<u8>>>::empty()[n].len(),
    );
    folds_agree(entries.dom(), f, g);
}

/// Functions that agree on a set give the same fold over it.
proof fn folds_agree(
    names: Set<Seq<char>>,
    f: spec_fn(nat, Seq<char>) -> nat,
    g: spec_fn(nat, Seq<char>) -> nat,
)
    requires
        names.finite(),
        vstd::set::fold::is_fun_commutative(f),
        vstd::set::fold::is_fun_commutative(g),
        forall|total: nat, name: Seq<char>|
            names.contains(name) ==> #[trigger] f(total, name) == g(total, name),
    ensures
        names.fold(0nat, f) == names.fold(0nat, g),
    decreases names.len(),
{
    if names.len() == 0 {
        assert(names == Set::<Seq<char>>::empty());
        vstd::set::fold::lemma_fold_empty(0nat, f);
        vstd::set::fold::lemma_fold_empty(0nat, g);
    } else {
        let name = names.choose();
        let rest = names.remove(name);
        folds_agree(rest, f, g);
        vstd::set::fold::lemma_fold_insert(rest, 0nat, f, name);
        vstd::set::fold::lemma_fold_insert(rest, 0nat, g, name);
        assert(rest.insert(name) == names);
    }
}

/// The text of a header is its first value, where all its bytes are visible ASCII
/// characters, blanks or tabulators, character by character.
pub proof fn text_is_the_first_value(
    entries: Map<Seq<char>, Seq<Seq<u8>>>,
    name: Seq<char>,
    i: int,
)
    ensures
        text_of(entries, name) is Some <==> entries.contains_key(name) && forall|k: int|
            0 <= k < entries[name][0].len() ==> 32 <= #[trigger] entries[name][0][k] <= 126
                || entries[name][0][k] == 9,
        text_of(entries, name) matches Some(text) ==> text.len() == entries[name][0].len() && (0
            <= i < text.len() ==> text[i] as int == entries[name][0][i] as int),
{
    if entries.contains_key(name) {
        let bytes = entries[name][0];
        if forall|k: int| 0 <= k < bytes.len() ==> 32 <= #[trigger] bytes[k] <= 126 || bytes[k] == 9 {
            assert forall|k: int| 0 <= k < bytes.len() implies visible(#[trigger] bytes[k]) by {}
        }
        if all_visible(bytes) {
            assert forall|k: int| 0 <= k < bytes.len() implies 32 <= #[trigger] bytes[k] <= 126
                || bytes[k] == 9 by {
                assert(visible(bytes[k]));
            }
        }
    }
}

/// A text can stand in a header unless it holds a control character of ASCII; the
/// tabulator may stand there.
pub proof fn control_characters_are_no_values(value: Seq<char>)
    ensures
        valid_value(value) <==> forall|i: int|
            0 <= i < value.len() ==> (32 <= (#[trigger] value[i]) as int && value[i] as int != 127)
                || value[i] as int == 9,
{
    if valid_value(value) {
        assert forall|i: int| 0 <= i < value.len() implies (32 <= (#[trigger] value[i]) as int
            && value[i] as int != 127) || value[i] as int == 9 by {
            assert(value_char(value[i]));
        }
    }
}

/// A name that is there has its own values, and one that is not has none.
pub proof fn values_belong_to_names(
    entries: Map<Seq<char>, Seq<Seq<u8>>>,
    name: Seq<char>,
    values: Seq<Seq<u8>>,
    other: Seq<char>,
)
    requires
        other != name,
    ensures
        values_of(entries.insert(name, values), name) == values,
        values_of(entries.insert(name, values), other) == values_of(entries, other),
        values_of(entries.remove(name), name).len() == 0,
{
}

} // verus!
