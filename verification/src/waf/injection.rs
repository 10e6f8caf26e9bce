//! Injection signatures, matched against raw bytes.
use regex::bytes::RegexSet;
use vstd::prelude::*;

verus! {

/// SQL injection.
pub const SQL_INJECTION: &'static str =
    r"(?i)union\s+select|select\s+.*\s+from|insert\s+into|drop\s+table|' OR '1'='1'|--";

/// Cross-site scripting.
pub const CROSS_SITE_SCRIPTING: &'static str =
    r"(?i)<script.*?>|javascript:|onerror\s*=|onload\s*=|alert\(|<iframe>";

/// Command injection.
pub const COMMAND_INJECTION: &'static str =
    r"(?i);\s*(ls|rm|cat|id|whoami|pwd|wget|curl)|&&|\|\||\||\$\(.*?\)";

/// A `regex::bytes::RegexSet`: a compiled set of patterns.
#[verifier::external_type_specification]
#[verifier::external_body]
pub struct ExRegexSet(RegexSet);

/// The error of a pattern that does not compile.
#[verifier::external_type_specification]
#[verifier::external_body]
pub struct ExRegexError(regex::Error);

/// The patterns that a set holds, in order.
pub uninterp spec fn set_patterns(set: RegexSet) -> Seq<Seq<char>>;

/// Whether a set was compiled with the default options, as `RegexSet::new` does.
pub uninterp spec fn set_is_plain(set: RegexSet) -> bool;

/// Whether `RegexSet::new` accepts the patterns.
pub uninterp spec fn set_compiles(patterns: Seq<Seq<char>>) -> bool;

/// Whether one of the patterns, under the default options, matches somewhere in
/// the bytes.
pub uninterp spec fn any_pattern_matches(patterns: Seq<Seq<char>>, input: Seq<u8>) -> bool;

/// The texts of a list of string slices.
pub open spec fn texts(items: Seq<&str>) -> Seq<Seq<char>> {
    items.map_values(|s: &str| s@)
}

/// `RegexSet::new` compiles patterns under the default options. Which patterns
/// it accepts is given a name; the set it returns holds them in their order.
#[verifier::external_body]
fn compile_set(patterns: &[&str]) -> (r: Result<RegexSet, regex::Error>)
    ensures
        r is Ok == set_compiles(texts(patterns@)),
        r matches Ok(set) ==> set_patterns(set) == texts(patterns@) && set_is_plain(set),
{
    RegexSet::new(patterns)
}

/// `RegexSet::is_match` says whether a pattern of the set matches somewhere in
/// the bytes. For sets with the default options the answer depends on the
/// patterns and the bytes alone, and is given a name.
#[verifier::external_body]
fn set_is_match(set: &RegexSet, input: &[u8]) -> (r: bool)
    requires
        set_is_plain(*set),
    ensures
        r == any_pattern_matches(set_patterns(*set), input@),
{
    set.is_match(input)
}

/// The signatures of all injection attacks.
pub open spec fn attack_patterns() -> Seq<Seq<char>> {
    seq![SQL_INJECTION@, CROSS_SITE_SCRIPTING@, COMMAND_INJECTION@]
}

/// Whether bytes carry an injection signature.
pub open spec fn carries_attack(input: Seq<u8>) -> bool {
    any_pattern_matches(attack_patterns(), input)
}

/// All injection signatures, compiled once.
pub struct AttackPatterns {
    set: RegexSet,
}

impl AttackPatterns {
    #[verifier::type_invariant]
    spec fn holds_signatures(self) -> bool {
        set_is_plain(self.set) && set_patterns(self.set) == attack_patterns()
    }
}

/// Compiles the injection signatures; `None` if the pattern engine refuses them.
pub fn get_patterns() -> (r: Option<AttackPatterns>)
    ensures
        r is Some == set_compiles(attack_patterns()),
{
    let patterns = [SQL_INJECTION, CROSS_SITE_SCRIPTING, COMMAND_INJECTION];
    assert(texts(patterns@) == attack_patterns());
    match compile_set(patterns.as_slice()) {
        Ok(set) => Some(AttackPatterns { set }),
        Err(_) => None,
    }
}

/// Detects any type of injection attack in a single pass over raw bytes.
pub fn is_attack(patterns: &AttackPatterns, input: &[u8]) -> (r: bool)
    ensures
        r == carries_attack(input@),
{
    proof {
        use_type_invariant(patterns);
    }
    set_is_match(&patterns.set, input)
}

/// Every payload is held against three signatures: that of SQL injection, that of
/// cross-site scripting and that of command injection.
pub proof fn payloads_meet_all_signatures(input: Seq<u8>)
    ensures
        carries_attack(input) == any_pattern_matches(
            seq![
                r"(?i)union\s+select|select\s+.*\s+from|insert\s+into|drop\s+table|' OR '1'='1'|--"@,
                r"(?i)<script.*?>|javascript:|onerror\s*=|onload\s*=|alert\(|<iframe>"@,
                r"(?i);\s*(ls|rm|cat|id|whoami|pwd|wget|curl)|&&|\|\||\||\$\(.*?\)"@,
            ],
            input,
        ),
{
}

/// Bytes are taken for an attack if and only if one of the three signatures is found.
pub proof fn attacks_are_told_by_their_signatures(
    patterns: AttackPatterns,
    input: &[u8],
    r: bool,
)
    requires
        call_ensures(is_attack, (&patterns, input), r),
    ensures
        r == any_pattern_matches(
            seq![
                r"(?i)union\s+select|select\s+.*\s+from|insert\s+into|drop\s+table|' OR '1'='1'|--"@,
                r"(?i)<script.*?>|javascript:|onerror\s*=|onload\s*=|alert\(|<iframe>"@,
                r"(?i);\s*(ls|rm|cat|id|whoami|pwd|wget|curl)|&&|\|\||\||\$\(.*?\)"@,
            ],
            input@,
        ),
{
    payloads_meet_all_signatures(input@);
}

} // verus!
