//! URL normalisation and directory traversal.
use crate::text::{chars_of, string_of};
use aho_corasick::AhoCorasick;
use vstd::prelude::*;

verus! {

broadcast use vstd::string::group_string_axioms;

/// The value of a hexadecimal digit.
pub open spec fn hex_digit(c: char) -> Option<int> {
    if '0' <= c && c <= '9' {
        Some(c as int - '0' as int)
    } else if 'a' <= c && c <= 'f' {
        Some(c as int - 'a' as int + 10)
    } else if 'A' <= c && c <= 'F' {
        Some(c as int - 'A' as int + 10)
    } else {
        None
    }
}

/// The byte that at most two characters write in hexadecimal: one or two digits,
/// or a plus sign and one digit.
pub open spec fn hex_byte(hex: Seq<char>) -> Option<int> {
    if hex.len() == 1 {
        hex_digit(hex[0])
    } else if hex.len() == 2 {
        match (hex_digit(hex[0]), hex_digit(hex[1])) {
            (Some(high), Some(low)) => Some(16 * high + low),
            (None, Some(low)) => if hex[0] == '+' {
                Some(low)
            } else {
                None
            },
            _ => None,
        }
    } else {
        None
    }
}

/// The characters that belong to the escape at the beginning of `s`, without its
/// percent sign.
pub open spec fn escape_digits(s: Seq<char>) -> Seq<char> {
    if s.len() >= 3 {
        s.subrange(1, 3)
    } else {
        s.skip(1)
    }
}

/// What an escape stands for: the character of its byte, or itself.
pub open spec fn unescaped(digits: Seq<char>) -> Seq<char> {
    match hex_byte(digits) {
        Some(byte) => seq![byte as u8 as char],
        None => seq!['%'] + digits,
    }
}

/// `s` with its percent escapes decoded, in one pass from left to right.
pub open spec fn normalized(s: Seq<char>) -> Seq<char>
    decreases s.len(),
{
    if s.len() == 0 {
        Seq::empty()
    } else if s[0] == '%' {
        let digits = escape_digits(s);
        unescaped(digits) + normalized(s.skip(1 + digits.len() as int))
    } else {
        seq![s[0]] + normalized(s.skip(1))
    }
}

fn hex_digit_value(c: char) -> (r: Option<u8>)
    ensures
        r is Some == hex_digit(c) is Some,
        r matches Some(v) ==> v < 16 && hex_digit(c) == Some(v as int),
{
    if '0' <= c && c <= '9' {
        Some(c as u8 - 48)
    } else if 'a' <= c && c <= 'f' {
        Some(c as u8 - 97 + 10)
    } else if 'A' <= c && c <= 'F' {
        Some(c as u8 - 65 + 10)
    } else {
        None
    }
}

fn hex_value(hex: &[char]) -> (r: Option<u8>)
    requires
        hex@.len() <= 2,
    ensures
        r is Some == hex_byte(hex@) is Some,
        r matches Some(v) ==> hex_byte(hex@) == Some(v as int),
{
    if hex.len() == 1 {
        hex_digit_value(hex[0])
    } else if hex.len() == 2 {
        match hex_digit_value(hex[1]) {
            Some(low) => match hex_digit_value(hex[0]) {
                Some(high) => Some(16 * high + low),
                None => if hex[0] == '+' {
                    Some(low)
                } else {
                    None
                },
            },
            None => None,
        }
    } else {
        None
    }
}

/// Decodes the percent escapes of a URL.
pub fn normalize_url(input: &str) -> (r: String)
    ensures
        r@ == normalized(input@),
{
    let chars = chars_of(input);
    let mut out: Vec<char> = Vec::new();
    let mut i: usize = 0;
    assert(chars@.skip(0) == chars@);
    assert(out@ + normalized(chars@) == normalized(chars@));
    while i < chars.len()
        invariant
            chars@ == input@,
            i <= chars@.len(),
            out@ + normalized(chars@.skip(i as int)) == normalized(chars@),
        decreases chars@.len() - i,
    {
        let ghost rest = chars@.skip(i as int);
        let ghost done = out@;
        let c = chars[i];
        i += 1;
        if c == '%' {
            let mut hex: Vec<char> = Vec::new();
            if i < chars.len() {
                hex.push(chars[i]);
                i += 1;
            }
            if hex.len() == 1 && i < chars.len() {
                hex.push(chars[i]);
                i += 1;
            }
            assert(hex@ == escape_digits(rest));
            assert(chars@.skip(i as int) == rest.skip(1 + hex@.len() as int));
            match hex_value(hex.as_slice()) {
                Some(byte) => {
                    out.push(byte as char);
                    assert(out@ == done + unescaped(hex@));
                },
                None => {
                    out.push('%');
                    let ghost before = out@;
                    let mut k: usize = 0;
                    while k < hex.len()
                        invariant
                            k <= hex@.len(),
                            out@ == before + hex@.take(k as int),
                        decreases hex@.len() - k,
                    {
                        out.push(hex[k]);
                        k += 1;
                    }
                    assert(hex@.take(k as int) == hex@);
                    assert(out@ == done + unescaped(hex@));
                },
            }
            assert(out@ + normalized(chars@.skip(i as int)) == done + normalized(rest));
        } else {
            out.push(c);
            assert(chars@.skip(i as int) == rest.skip(1));
            assert(out@ + normalized(chars@.skip(i as int)) == done + normalized(rest));
        }
    }
    assert(normalized(chars@.skip(i as int)) == Seq::<char>::empty());
    assert(out@ == normalized(chars@));
    string_of(out.as_slice())
}

/// A text without percent signs is its own normal form.
pub proof fn normalized_without_escapes(s: Seq<char>)
    requires
        !s.contains('%'),
    ensures
        normalized(s) == s,
    decreases s.len(),
{
    if s.len() > 0 {
        assert(s[0] != '%');
        assert forall|k: int| 0 <= k < s.skip(1).len() implies s.skip(1)[k] != '%' by {
            assert(s[k + 1] != '%');
        }
        normalized_without_escapes(s.skip(1));
        assert(seq![s[0]] + s.skip(1) == s);
    } else {
        assert(s == Seq::<char>::empty());
    }
}

/// Normalisation never lengthens a text.
pub proof fn normalized_never_longer(s: Seq<char>)
    ensures
        normalized(s).len() <= s.len(),
    decreases s.len(),
{
    if s.len() > 0 {
        if s[0] == '%' {
            normalized_never_longer(s.skip(1 + escape_digits(s).len() as int));
        } else {
            normalized_never_longer(s.skip(1));
        }
    }
}

/// A hexadecimal digit, in upper case.
pub open spec fn digit_char(v: int) -> char {
    if v < 10 {
        ('0' as int + v) as char
    } else {
        ('A' as int + v - 10) as char
    }
}

/// Every byte written as a percent escape.
pub open spec fn percent_encoded(bytes: Seq<u8>) -> Seq<char>
    decreases bytes.len(),
{
    if bytes.len() == 0 {
        Seq::empty()
    } else {
        seq!['%', digit_char(bytes[0] as int / 16), digit_char(bytes[0] as int % 16)]
            + percent_encoded(bytes.skip(1))
    }
}

/// Normalisation undoes percent encoding: the escapes of any bytes decode to
/// the characters of these bytes.
pub proof fn normalized_undoes_percent_encoding(bytes: Seq<u8>)
    ensures
        normalized(percent_encoded(bytes)) == crate::text::latin1(bytes),
    decreases bytes.len(),
{
    if bytes.len() > 0 {
        let b = bytes[0];
        let s = percent_encoded(bytes);
        let digits = escape_digits(s);
        normalized_undoes_percent_encoding(bytes.skip(1));
        assert(digits == seq![digit_char(b as int / 16), digit_char(b as int % 16)]);
        assert(hex_digit(digits[0]) == Some(b as int / 16));
        assert(hex_digit(digits[1]) == Some(b as int % 16));
        assert(hex_byte(digits) == Some(b as int));
        assert(s.skip(3) == percent_encoded(bytes.skip(1)));
        assert(normalized(s) == seq![b as char] + normalized(percent_encoded(bytes.skip(1))));
        assert(crate::text::latin1(bytes) == seq![b as char] + crate::text::latin1(bytes.skip(1)));
    } else {
        assert(crate::text::latin1(bytes) == Seq::<char>::empty());
    }
}

/// An `aho_corasick::AhoCorasick`: a compiled set of fixed patterns.
#[verifier::external_type_specification]
#[verifier::external_body]
pub struct ExAhoCorasick(AhoCorasick);

/// The error of patterns that do not fit into an automaton.
#[verifier::external_type_specification]
#[verifier::external_body]
pub struct ExBuildError(aho_corasick::BuildError);

/// The patterns that an automaton holds, in order.
pub uninterp spec fn automaton_patterns(automaton: AhoCorasick) -> Seq<Seq<char>>;

/// Whether an automaton was built to ignore the case of ASCII letters, with the
/// builder's defaults otherwise.
pub uninterp spec fn automaton_ignores_case(automaton: AhoCorasick) -> bool;

/// Whether the patterns fit into an automaton that ignores case.
pub uninterp spec fn automaton_builds(patterns: Seq<Seq<char>>) -> bool;

/// `AhoCorasickBuilder::build`, with `ascii_case_insensitive(true)`, makes an
/// automaton of the patterns. For which patterns it succeeds is given a name.
#[verifier::external_body]
fn build_automaton(patterns: &[&str]) -> (r: Result<AhoCorasick, aho_corasick::BuildError>)
    ensures
        r is Ok == automaton_builds(crate::waf::injection::texts(patterns@)),
        r matches Ok(automaton) ==> automaton_ignores_case(automaton) && automaton_patterns(
            automaton,
        ) == crate::waf::injection::texts(patterns@),
{
    AhoCorasick::builder().ascii_case_insensitive(true).build(patterns)
}

/// Whether one of the patterns stands in the text, up to the case of ASCII
/// letters.
pub open spec fn any_occurs(patterns: Seq<Seq<char>>, input: Seq<char>) -> bool {
    exists|i: int|
        0 <= i < patterns.len() && crate::text::occurs(
            crate::text::ascii_lower(input),
            crate::text::ascii_lower(#[trigger] patterns[i]),
        )
}

/// `AhoCorasick::is_match` says whether a pattern of the automaton stands
/// anywhere in the text; an automaton that ignores case compares ASCII letters
/// without their case.
#[verifier::external_body]
fn automaton_is_match(automaton: &AhoCorasick, input: &str) -> (r: bool)
    requires
        automaton_ignores_case(*automaton),
    ensures
        r == any_occurs(automaton_patterns(*automaton), input@),
{
    automaton.is_match(input)
}

/// The fixed patterns of directory traversal, common encodings included.
pub open spec fn traversal_patterns() -> Seq<Seq<char>> {
    seq![
        "../"@,
        "..\\"@,
        "/etc/passwd"@,
        "windows/system32"@,
        "boot.ini"@,
        "%2e%2e%2f"@,
        "%2e%2e%5c"@,
    ]
}

/// Whether a text carries a traversal pattern.
pub open spec fn carries_traversal(input: Seq<char>) -> bool {
    any_occurs(traversal_patterns(), input)
}

/// The traversal patterns, compiled once.
pub struct TraversalMatcher {
    automaton: AhoCorasick,
}

impl TraversalMatcher {
    #[verifier::type_invariant]
    spec fn holds_patterns(self) -> bool {
        &&& automaton_ignores_case(self.automaton)
        &&& automaton_patterns(self.automaton) == traversal_patterns()
    }
}

/// Compiles the traversal patterns; `None` if they do not fit into an automaton.
pub fn get_traversal_matcher() -> (r: Option<TraversalMatcher>)
    ensures
        r is Some == automaton_builds(traversal_patterns()),
{
    let patterns = [
        "../",
        "..\\",
        "/etc/passwd",
        "windows/system32",
        "boot.ini",
        "%2e%2e%2f",
        "%2e%2e%5c",
    ];
    assert(crate::waf::injection::texts(patterns@) == traversal_patterns());
    match build_automaton(patterns.as_slice()) {
        Ok(automaton) => Some(TraversalMatcher { automaton }),
        Err(_) => None,
    }
}

/// High-speed traversal detection.
pub fn is_traversal(matcher: &TraversalMatcher, input: &str) -> (r: bool)
    ensures
        r == carries_traversal(input@),
{
    proof {
        use_type_invariant(matcher);
    }
    automaton_is_match(&matcher.automaton, input)
}

/// Escaping hides no traversal: what is found in a text is found in its percent
/// escapes too, once they are decoded.
pub proof fn encoding_hides_no_traversal(bytes: Seq<u8>)
    requires
        carries_traversal(crate::text::latin1(bytes)),
    ensures
        carries_traversal(normalized(percent_encoded(bytes))),
{
    normalized_undoes_percent_encoding(bytes);
}

/// A traversal pattern is found at any place of a text, whatever stands before and
/// behind it, in whatever case its letters are written.
pub proof fn traversal_is_found(before: Seq<char>, written: Seq<char>, after: Seq<char>)
    requires
        ({
            let lower = crate::text::ascii_lower(written);
            lower == crate::text::ascii_lower("../"@) || lower == crate::text::ascii_lower("..\\"@) || lower == crate::text::ascii_lower("/etc/passwd"@) || lower == crate::text::ascii_lower("windows/system32"@) || lower == crate::text::ascii_lower("boot.ini"@) || lower == crate::text::ascii_lower("%2e%2e%2f"@) || lower == crate::text::ascii_lower("%2e%2e%5c"@)
        }),
    ensures
        carries_traversal(before + written + after),
{
    let lower = crate::text::ascii_lower(written);
    if lower == crate::text::ascii_lower("../"@) {
        crate::text::any_case_is_found(before, written, after, "../"@);
        assert(traversal_patterns()[0] == "../"@);
    }
    if lower == crate::text::ascii_lower("..\\"@) {
        crate::text::any_case_is_found(before, written, after, "..\\"@);
        assert(traversal_patterns()[1] == "..\\"@);
    }
    if lower == crate::text::ascii_lower("/etc/passwd"@) {
        crate::text::any_case_is_found(before, written, after, "/etc/passwd"@);
        assert(traversal_patterns()[2] == "/etc/passwd"@);
    }
    if lower == crate::text::ascii_lower("windows/system32"@) {
        crate::text::any_case_is_found(before, written, after, "windows/system32"@);
        assert(traversal_patterns()[3] == "windows/system32"@);
    }
    if lower == crate::text::ascii_lower("boot.ini"@) {
        crate::text::any_case_is_found(before, written, after, "boot.ini"@);
        assert(traversal_patterns()[4] == "boot.ini"@);
    }
    if lower == crate::text::ascii_lower("%2e%2e%2f"@) {
        crate::text::any_case_is_found(before, written, after, "%2e%2e%2f"@);
        assert(traversal_patterns()[5] == "%2e%2e%2f"@);
    }
    if lower == crate::text::ascii_lower("%2e%2e%5c"@) {
        crate::text::any_case_is_found(before, written, after, "%2e%2e%5c"@);
        assert(traversal_patterns()[6] == "%2e%2e%5c"@);
    }
}

/// Two dots and a slash or backslash are a traversal, and so are the names of the system
/// files and the encoded forms, at any place of a text.
pub proof fn traversals_are_found_anywhere(before: Seq<char>, after: Seq<char>)
    ensures
        carries_traversal(before + "../"@ + after),
        carries_traversal(before + "..\\"@ + after),
        carries_traversal(before + "/etc/passwd"@ + after),
        carries_traversal(before + "windows/system32"@ + after),
        carries_traversal(before + "boot.ini"@ + after),
        carries_traversal(before + "%2e%2e%2f"@ + after),
        carries_traversal(before + "%2e%2e%5c"@ + after),
{
    traversal_is_found(before, "../"@, after);
    traversal_is_found(before, "..\\"@, after);
    traversal_is_found(before, "/etc/passwd"@, after);
    traversal_is_found(before, "windows/system32"@, after);
    traversal_is_found(before, "boot.ini"@, after);
    traversal_is_found(before, "%2e%2e%2f"@, after);
    traversal_is_found(before, "%2e%2e%5c"@, after);
}

/// A text in which none of the seven patterns stands is no traversal.
pub proof fn other_texts_are_no_traversals(input: Seq<char>)
    requires
        !crate::text::occurs(crate::text::ascii_lower(input), crate::text::ascii_lower("../"@)),
        !crate::text::occurs(crate::text::ascii_lower(input), crate::text::ascii_lower("..\\"@)),
        !crate::text::occurs(crate::text::ascii_lower(input), crate::text::ascii_lower("/etc/passwd"@)),
        !crate::text::occurs(crate::text::ascii_lower(input), crate::text::ascii_lower("windows/system32"@)),
        !crate::text::occurs(crate::text::ascii_lower(input), crate::text::ascii_lower("boot.ini"@)),
        !crate::text::occurs(crate::text::ascii_lower(input), crate::text::ascii_lower("%2e%2e%2f"@)),
        !crate::text::occurs(crate::text::ascii_lower(input), crate::text::ascii_lower("%2e%2e%5c"@)),
    ensures
        !carries_traversal(input),
{
}

/// Whether a character writes a value as a hexadecimal digit, in either case.
pub open spec fn writes_digit(c: char, v: int) -> bool {
    ||| 0 <= v < 10 && c as int == '0' as int + v
    ||| 10 <= v < 16 && c as int == 'a' as int + v - 10
    ||| 10 <= v < 16 && c as int == 'A' as int + v - 10
}

/// What stands before the first percent sign is kept, and the rest is decoded for
/// itself.
pub proof fn text_before_escapes_is_kept(plain: Seq<char>, rest: Seq<char>)
    requires
        !plain.contains('%'),
    ensures
        normalized(plain + rest) == plain + normalized(rest),
    decreases plain.len(),
{
    let s = plain + rest;
    if plain.len() == 0 {
        assert(s == rest);
        assert(plain + normalized(rest) == normalized(rest));
    } else {
        assert(plain[0] != '%');
        assert(s.skip(1) == plain.skip(1) + rest);
        assert forall|k: int| 0 <= k < plain.skip(1).len() implies plain.skip(1)[k] != '%' by {
            assert(plain[k + 1] != '%');
        }
        text_before_escapes_is_kept(plain.skip(1), rest);
        assert(seq![plain[0]] + (plain.skip(1) + normalized(rest)) == plain + normalized(rest));
    }
}

/// A percent sign with two hexadecimal digits is the character of their byte. It is
/// decoded once: what it gives is not looked at again.
pub proof fn escapes_are_decoded(
    high_char: char,
    low_char: char,
    high: int,
    low: int,
    rest: Seq<char>,
)
    requires
        writes_digit(high_char, high),
        writes_digit(low_char, low),
    ensures
        normalized(seq!['%', high_char, low_char] + rest) == seq![(16 * high + low) as u8 as char]
            + normalized(rest),
{
    let s = seq!['%', high_char, low_char] + rest;
    assert(escape_digits(s) == seq![high_char, low_char]);
    assert(hex_digit(high_char) == Some(high));
    assert(hex_digit(low_char) == Some(low));
    assert(s.skip(3) == rest);
}

/// A percent sign that is not followed by digits is kept, with the two characters that
/// follow it.
pub proof fn other_percent_signs_are_kept(x: char, y: char, rest: Seq<char>)
    requires
        (forall|v: int| !writes_digit(y, v)) || (x != '+' && forall|v: int| !writes_digit(x, v)),
    ensures
        normalized(seq!['%', x, y] + rest) == seq!['%', x, y] + normalized(rest),
{
    let s = seq!['%', x, y] + rest;
    let digits = seq![x, y];
    assert(escape_digits(s) == digits);
    assert(s.skip(3) == rest);
    digits_write_their_value(x);
    digits_write_their_value(y);
    assert(hex_byte(digits) is None);
    assert(seq!['%'] + digits == seq!['%', x, y]);
}

proof fn digits_write_their_value(c: char)
    ensures
        hex_digit(c) matches Some(v) ==> writes_digit(c, v),
{
}

/// At the end of a text a percent sign is kept; with one digit it is that digit's
/// character, and a plus sign before a digit counts for nothing.
pub proof fn incomplete_escapes_are_decoded(c: char, v: int, rest: Seq<char>)
    requires
        writes_digit(c, v),
    ensures
        normalized(seq!['%']) == seq!['%'],
        normalized(seq!['%', c]) == seq![v as u8 as char],
        normalized(seq!['%', '+', c] + rest) == seq![v as u8 as char] + normalized(rest),
{
    let one = seq!['%'];
    assert(escape_digits(one) == Seq::<char>::empty());
    assert(one.skip(1) == Seq::<char>::empty());
    assert(normalized(Seq::<char>::empty()) == Seq::<char>::empty());
    assert(unescaped(Seq::empty()) == seq!['%']);
    assert(normalized(one) == seq!['%']);
    let two = seq!['%', c];
    assert(hex_digit(c) == Some(v));
    assert(escape_digits(two) == seq![c]);
    assert(two.skip(2) == Seq::<char>::empty());
    assert(normalized(two) == seq![v as u8 as char]);
    let plus = seq!['%', '+', c] + rest;
    assert(escape_digits(plus) == seq!['+', c]);
    assert(plus.skip(3) == rest);
}

/// Two dots and a slash or backslash are found in a target, plain or escaped in whole or
/// in part, wherever plain text stands before them.
pub proof fn escaped_dots_are_found(before: Seq<char>, after: Seq<char>)
    requires
        !before.contains('%'),
    ensures
        carries_traversal(normalized(before + seq!['.', '.', '/'] + after)),
        carries_traversal(
            normalized(before + seq!['%', '2', 'e', '%', '2', 'e', '%', '2', 'f'] + after),
        ),
        carries_traversal(
            normalized(before + seq!['%', '2', 'E', '.', '%', '5', 'C'] + after),
        ),
{
    reveal_strlit("../");
    reveal_strlit("..\\");
    let slash = seq!['.', '.', '/'];
    let back = seq!['.', '.', '\\'];
    assert("../"@ == slash);
    assert("..\\"@ == back);
    let rest = normalized(after);
    traversals_are_found_anywhere(before, rest);

    let none = Seq::<char>::empty();
    text_before_escapes_is_kept(before, slash + after);
    text_before_escapes_is_kept(slash, after);
    assert(before + slash + after == before + (slash + after));
    assert(before + (slash + rest) == before + slash + rest);

    let escaped = seq!['%', '2', 'e', '%', '2', 'e', '%', '2', 'f'];
    let third = seq!['%', '2', 'f'] + after;
    let second = seq!['%', '2', 'e'] + third;
    let first = seq!['%', '2', 'e'] + second;
    escapes_are_decoded('2', 'f', 2, 15, after);
    escapes_are_decoded('2', 'e', 2, 14, third);
    escapes_are_decoded('2', 'e', 2, 14, second);
    text_before_escapes_is_kept(before, first);
    assert(before + escaped + after == before + first);
    assert(normalized(first) == slash + rest);

    let mixed = seq!['%', '2', 'E', '.', '%', '5', 'C'];
    let tail = seq!['%', '5', 'C'] + after;
    let middle = seq!['.'] + tail;
    escapes_are_decoded('5', 'C', 5, 12, after);
    text_before_escapes_is_kept(seq!['.'], tail);
    escapes_are_decoded('2', 'E', 2, 14, middle);
    let head = seq!['%', '2', 'E'] + middle;
    text_before_escapes_is_kept(before, head);
    assert(before + mixed + after == before + head);
    assert(normalized(head) == back + rest);
    assert(before + (back + rest) == before + back + rest);
}

/// A text is a traversal if and only if one of the seven patterns stands in it, in whatever
/// case.
pub proof fn traversals_are_told_by_their_patterns(
    matcher: TraversalMatcher,
    input: &str,
    r: bool,
)
    requires
        call_ensures(is_traversal, (&matcher, input), r),
    ensures
        ({
            let lower = crate::text::ascii_lower(input@);
            r <==> crate::text::occurs(lower, crate::text::ascii_lower("../"@))
                || crate::text::occurs(lower, crate::text::ascii_lower("..\\"@))
                || crate::text::occurs(lower, crate::text::ascii_lower("/etc/passwd"@))
                || crate::text::occurs(lower, crate::text::ascii_lower("windows/system32"@))
                || crate::text::occurs(lower, crate::text::ascii_lower("boot.ini"@))
                || crate::text::occurs(lower, crate::text::ascii_lower("%2e%2e%2f"@))
                || crate::text::occurs(lower, crate::text::ascii_lower("%2e%2e%5c"@))
        }),
{
    assert(traversal_patterns()[0] == "../"@);
    assert(traversal_patterns()[1] == "..\\"@);
    assert(traversal_patterns()[2] == "/etc/passwd"@);
    assert(traversal_patterns()[3] == "windows/system32"@);
    assert(traversal_patterns()[4] == "boot.ini"@);
    assert(traversal_patterns()[5] == "%2e%2e%2f"@);
    assert(traversal_patterns()[6] == "%2e%2e%5c"@);
}

/// A target without percent signs is its own decoded form, and one that begins with an
/// escape begins, decoded, with its character.
pub proof fn urls_are_decoded(
    input: &str,
    r: String,
    plain: Seq<char>,
    high_char: char,
    low_char: char,
    high: int,
    low: int,
    rest: Seq<char>,
)
    requires
        call_ensures(normalize_url, (input,), r),
        !plain.contains('%'),
        writes_digit(high_char, high),
        writes_digit(low_char, low),
    ensures
        input@ == plain ==> r@ == plain,
        input@ == plain + (seq!['%', high_char, low_char] + rest) ==> r@ == plain + (seq![
            (16 * high + low) as u8 as char,
        ] + normalized(rest)),
{
    if input@ == plain {
        normalized_without_escapes(plain);
    }
    text_before_escapes_is_kept(plain, seq!['%', high_char, low_char] + rest);
    escapes_are_decoded(high_char, low_char, high, low, rest);
}

} // verus!
