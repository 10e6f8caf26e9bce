//! Structural checks of payloads.
use crate::text::{chars_of, contains, first_piece, split_chars, string_of};
use crate::waf::single::exceeds;
use vstd::hash_set::StringHashSet;
use vstd::prelude::*;

verus! {

broadcast use vstd::string::group_string_axioms;

/// How deep brackets and braces are open at the end of `s`; closing more than is
/// open leaves the depth at zero.
pub open spec fn nesting(s: Seq<char>) -> nat
    decreases s.len(),
{
    if s.len() == 0 {
        0
    } else {
        let depth = nesting(s.drop_last());
        let c = s.last();
        if c == '{' || c == '[' {
            depth + 1
        } else if (c == '}' || c == ']') && depth > 0 {
            (depth - 1) as nat
        } else {
            depth
        }
    }
}

/// Whether the depth stays within `max_depth` everywhere in `s`.
pub open spec fn nesting_within(s: Seq<char>, max_depth: nat) -> bool {
    forall|i: int| 0 <= i <= s.len() ==> nesting(#[trigger] s.take(i)) <= max_depth
}

/// Prevents denial of service by extremely deep JSON or array nesting.
pub fn check_json_depth(input: &str, max_depth: usize) -> (r: bool)
    ensures
        r == nesting_within(input@, max_depth as nat),
{
    let chars = chars_of(input);
    let mut depth: usize = 0;
    let mut i: usize = 0;
    assert(chars@.take(0) == Seq::<char>::empty());
    while i < chars.len()
        invariant
            chars@ == input@,
            i <= chars@.len(),
            depth == nesting(chars@.take(i as int)),
            depth <= i,
            forall|j: int| 0 <= j <= i ==> nesting(#[trigger] chars@.take(j)) <= max_depth,
        decreases chars@.len() - i,
    {
        let c = chars[i];
        assert(chars@.take(i + 1).drop_last() == chars@.take(i as int));
        if c == '{' || c == '[' {
            depth += 1;
            if depth > max_depth {
                assert(nesting(chars@.take(i + 1)) > max_depth);
                return false;
            }
        } else if c == '}' || c == ']' {
            if depth > 0 {
                depth -= 1;
            }
        }
        i += 1;
    }
    true
}

/// A payload within one limit is within every larger limit.
pub proof fn nesting_limit_monotone(s: Seq<char>, low: nat, high: nat)
    requires
        nesting_within(s, low),
        low <= high,
    ensures
        nesting_within(s, high),
{
}

/// A payload of at most `max_depth` characters is never too deep.
pub proof fn short_payload_within(s: Seq<char>, max_depth: nat)
    requires
        s.len() <= max_depth,
    ensures
        nesting_within(s, max_depth),
{
    assert forall|i: int| 0 <= i <= s.len() implies nesting(#[trigger] s.take(i)) <= max_depth by {
        nesting_bounded(s.take(i));
    }
}

proof fn nesting_bounded(s: Seq<char>)
    ensures
        nesting(s) <= s.len(),
    decreases s.len(),
{
    if s.len() > 0 {
        nesting_bounded(s.drop_last());
    }
}

/// Whether a lower-cased user agent carries the name of an attack tool.
pub open spec fn names_attack_tool(agent: Seq<char>) -> bool {
    ||| crate::text::occurs(agent, "sqlmap"@)
    ||| crate::text::occurs(agent, "nikto"@)
    ||| crate::text::occurs(agent, "nmap"@)
    ||| crate::text::occurs(agent, "masscan"@)
    ||| crate::text::occurs(agent, "dirbuster"@)
    ||| crate::text::occurs(agent, "gobuster"@)
}

/// Checks a lower-cased user agent for the names of attack tools.
pub fn has_tool_name(agent: &str) -> (r: bool)
    ensures
        r == names_attack_tool(agent@),
{
    let ua = chars_of(agent);
    let ua = ua.as_slice();
    contains(ua, "sqlmap") || contains(ua, "nikto") || contains(ua, "nmap") || contains(
        ua,
        "masscan",
    ) || contains(ua, "dirbuster") || contains(ua, "gobuster")
}

/// Checks user agents for signatures of common automated attack tools and
/// scanners.
pub fn is_malicious_bot(user_agent: &str) -> (r: bool)
    ensures
        r == names_attack_tool(crate::text::lowercase(user_agent@)),
        crate::text::all_ascii(user_agent@) ==> r == names_attack_tool(
            crate::text::ascii_lower(user_agent@),
        ),
{
    let ua = user_agent.to_lowercase();
    has_tool_name(ua.as_str())
}

/// Whether a character is a letter or a number.
pub open spec fn is_alphanumeric(c: char) -> bool {
    if (c as u32) < 128 {
        crate::text::ascii_alphanumeric(c)
    } else {
        crate::text::alphanumeric(c)
    }
}

/// Whether a character is neither a letter or number nor white space.
pub open spec fn is_special(c: char) -> bool {
    !is_alphanumeric(c) && !crate::text::whitespace(c)
}

/// How many special characters stand in `s`.
pub open spec fn special_count(s: Seq<char>) -> nat {
    s.filter(|c: char| is_special(c)).len()
}

/// How many letters and numbers stand in `s`.
pub open spec fn alphanumeric_count(s: Seq<char>) -> nat {
    s.filter(|c: char| is_alphanumeric(c)).len()
}

/// Whether the ratio of special characters to letters and numbers, in single
/// precision, exceeds the number with the bit pattern `threshold`. Where there are
/// no letters or numbers the ratio is infinite if there is a special character, and
/// no number otherwise.
pub open spec fn dense(s: Seq<char>, threshold: u32) -> bool {
    crate::waf::single::ratio_exceeds(special_count(s), alphanumeric_count(s), threshold)
}

/// One more character that is counted adds one.
proof fn filter_counts(s: Seq<char>, i: int, p: spec_fn(char) -> bool)
    requires
        0 <= i < s.len(),
    ensures
        s.take(i + 1).filter(p).len() == s.take(i).filter(p).len() + if p(s[i]) {
            1int
        } else {
            0
        },
{
    reveal(Seq::filter);
    assert(s.take(i + 1).drop_last() == s.take(i));
}

/// Payload density analysis: the ratio of special characters to letters and
/// numbers. A high density often indicates obfuscated scripts or exploitation
/// attempts. `threshold` is the bit pattern of a single-precision number.
pub fn is_high_density(input: &str, threshold: u32) -> (r: bool)
    ensures
        r == dense(input@, threshold),
{
    let chars = chars_of(input);
    let mut special: usize = 0;
    let mut plain: usize = 0;
    let mut i: usize = 0;
    proof {
        reveal(Seq::filter);
        assert(chars@.take(0) == Seq::<char>::empty());
    }
    while i < chars.len()
        invariant
            chars@ == input@,
            i <= chars@.len(),
            special <= i,
            plain <= i,
            special == special_count(chars@.take(i as int)),
            plain == alphanumeric_count(chars@.take(i as int)),
        decreases chars@.len() - i,
    {
        let c = chars[i];
        proof {
            filter_counts(chars@, i as int, |c: char| is_special(c));
            filter_counts(chars@, i as int, |c: char| is_alphanumeric(c));
        }
        if c.is_alphanumeric() {
            plain += 1;
        } else if !c.is_whitespace() {
            special += 1;
        }
        i += 1;
    }
    assert(chars@.take(i as int) == chars@);
    exceeds(special as u64, plain as u64, threshold)
}

/// A payload that is dense by one threshold is dense by every smaller one.
pub proof fn smaller_thresholds_find_more(s: Seq<char>, low: u32, high: u32)
    requires
        crate::waf::single::at_most(low, high),
        dense(s, high),
    ensures
        dense(s, low),
{
    crate::waf::single::smaller_thresholds_are_exceeded(
        special_count(s),
        alphanumeric_count(s),
        low,
        high,
    );
}

/// A text without special characters is never dense, by any threshold that is not
/// negative.
pub proof fn plain_text_is_not_dense(s: Seq<char>, threshold: u32)
    requires
        forall|i: int| 0 <= i < s.len() ==> !is_special(#[trigger] s[i]),
        threshold < 0x8000_0000,
    ensures
        !dense(s, threshold),
{
    nothing_is_filtered(s, |c: char| is_special(c));
    crate::waf::single::zero_exceeds_nothing(alphanumeric_count(s), threshold);
}

proof fn nothing_is_filtered(s: Seq<char>, p: spec_fn(char) -> bool)
    requires
        forall|i: int| 0 <= i < s.len() ==> !p(#[trigger] s[i]),
    ensures
        s.filter(p).len() == 0,
    decreases s.len(),
{
    reveal(Seq::filter);
    if s.len() > 0 {
        nothing_is_filtered(s.drop_last(), p);
    }
}

/// The key of a `key=value` pair.
pub open spec fn pair_key(pair: Seq<char>) -> Seq<char> {
    crate::text::split(pair, '=')[0]
}

/// The keys of a query string or form, in order.
pub open spec fn parameter_keys(s: Seq<char>) -> Seq<Seq<char>> {
    crate::text::split(s, '&').map_values(|pair: Seq<char>| pair_key(pair))
}

/// Whether a key other than the empty one occurs twice.
pub open spec fn has_duplicate_key(keys: Seq<Seq<char>>) -> bool {
    exists|i: int, j: int|
        0 <= i < j < keys.len() && #[trigger] keys[i] == #[trigger] keys[j] && keys[i].len() > 0
}

/// Scans query strings or form data for duplicate parameter keys which can bypass
/// logic.
pub fn has_parameter_pollution(input: &str) -> (r: bool)
    ensures
        r == has_duplicate_key(parameter_keys(input@)),
{
    let chars = chars_of(input);
    let pairs = split_chars(chars.as_slice(), '&');
    let ghost keys = parameter_keys(input@);
    let mut seen = StringHashSet::new();
    let mut i: usize = 0;
    while i < pairs.len()
        invariant
            crate::text::piece_views(pairs@) == crate::text::split(input@, '&'),
            keys == parameter_keys(input@),
            i <= pairs@.len() == keys.len(),
            forall|k: Seq<char>|
                #[trigger] seen@.contains(k) <==> k.len() > 0 && keys.take(i as int).contains(k),
            forall|x: int, y: int|
                0 <= x < y < i && keys[x].len() > 0 ==> #[trigger] keys[x] != #[trigger] keys[y],
        decreases pairs@.len() - i,
    {
        let key = first_piece(pairs[i].as_slice(), '=');
        assert(crate::text::piece_views(pairs@)[i as int] == pairs@[i as int]@);
        assert(key@ == keys[i as int]);
        if key.len() > 0 {
            let fresh = seen.insert(string_of(key.as_slice()));
            if !fresh {
                proof {
                    let x = choose|x: int|
                        0 <= x < keys.take(i as int).len() && keys.take(i as int)[x] == key@;
                    assert(keys[x] == keys[i as int]);
                }
                return true;
            }
            assert(!keys.take(i as int).contains(key@));
        }
        assert forall|k: Seq<char>| #[trigger] seen@.contains(k) <==> k.len() > 0 && keys.take(
            i + 1,
        ).contains(k) by {
            let shorter = keys.take(i as int);
            let longer = keys.take(i + 1);
            assert(longer == shorter.push(keys[i as int]));
            if longer.contains(k) {
                let x = choose|x: int| 0 <= x < longer.len() && longer[x] == k;
                if x < i {
                    assert(shorter[x] == k);
                }
            }
            if shorter.contains(k) {
                let x = choose|x: int| 0 <= x < shorter.len() && shorter[x] == k;
                assert(longer[x] == k);
            }
            assert(longer[i as int] == keys[i as int]);
        }
        assert forall|x: int, y: int| 0 <= x < y < i + 1 && keys[x].len()
            > 0 implies #[trigger] keys[x] != #[trigger] keys[y] by {
            if y == i && keys[x] == keys[y] {
                assert(keys.take(i as int)[x] == key@);
            }
        }
        i += 1;
    }
    false
}

/// Text without a separator holds one parameter at most and is never polluted.
pub proof fn single_parameter_not_polluted(s: Seq<char>)
    requires
        !s.contains('&'),
    ensures
        !has_duplicate_key(parameter_keys(s)),
{
    crate::text::split_without_separator(s, '&');
}

/// Whether a character is a brace or a bracket.
pub open spec fn is_bracket(c: char) -> bool {
    c == '{' || c == '}' || c == '[' || c == ']'
}

/// Whether a text leaves the depth as it was, whatever stands before it.
pub open spec fn balanced(piece: Seq<char>) -> bool {
    forall|s: Seq<char>| #[trigger] nesting(s + piece) == nesting(s)
}

/// An opening brace or bracket goes one level down; a closing one comes one level up,
/// and stays at the top when there is nothing to close; no other character matters.
pub proof fn each_bracket_is_one_level(s: Seq<char>, c: char)
    ensures
        nesting(Seq::empty()) == 0,
        nesting(s.push('{')) == nesting(s) + 1,
        nesting(s.push('[')) == nesting(s) + 1,
        nesting(s) > 0 ==> nesting(s.push('}')) == nesting(s) - 1,
        nesting(s) > 0 ==> nesting(s.push(']')) == nesting(s) - 1,
        nesting(s) == 0 ==> nesting(s.push('}')) == 0 && nesting(s.push(']')) == 0,
        !(c == '{' || c == '}' || c == '[' || c == ']') ==> nesting(s.push(c)) == nesting(s),
{
    assert(s.push('{').drop_last() == s);
    assert(s.push('[').drop_last() == s);
    assert(s.push('}').drop_last() == s);
    assert(s.push(']').drop_last() == s);
    assert(s.push(c).drop_last() == s);
}

/// Text without braces and brackets is balanced.
pub proof fn plain_text_is_balanced(x: Seq<char>)
    requires
        forall|i: int|
            0 <= i < x.len() ==> !((#[trigger] x[i]) == '{' || x[i] == '}' || x[i] == '[' || x[i]
                == ']'),
    ensures
        balanced(x),
{
    assert forall|s: Seq<char>| #[trigger] nesting(s + x) == nesting(s) by {
        plain_text_keeps_depth(s, x);
    }
}

proof fn plain_text_keeps_depth(s: Seq<char>, x: Seq<char>)
    requires
        forall|i: int| 0 <= i < x.len() ==> !is_bracket(#[trigger] x[i]),
    ensures
        nesting(s + x) == nesting(s),
    decreases x.len(),
{
    if x.len() == 0 {
        assert(s + x == s);
    } else {
        assert((s + x).drop_last() == s + x.drop_last());
        assert(!is_bracket(x[x.len() - 1]));
        plain_text_keeps_depth(s, x.drop_last());
    }
}

/// What stands balanced between a pair of braces or brackets is balanced with them, and
/// so are balanced texts one behind the other: siblings never add up to depth.
pub proof fn balanced_pieces_compose(x: Seq<char>, y: Seq<char>)
    requires
        balanced(x),
        balanced(y),
    ensures
        balanced(seq!['{'] + x + seq!['}']),
        balanced(seq!['['] + x + seq![']']),
        balanced(x + y),
{
    assert forall|s: Seq<char>| #[trigger] nesting(s + (seq!['{'] + x + seq!['}'])) == nesting(s) by {
        wrapped_keeps_depth(s, '{', x, '}');
    }
    assert forall|s: Seq<char>| #[trigger] nesting(s + (seq!['['] + x + seq![']'])) == nesting(s) by {
        wrapped_keeps_depth(s, '[', x, ']');
    }
    assert forall|s: Seq<char>| #[trigger] nesting(s + (x + y)) == nesting(s) by {
        assert(s + (x + y) == (s + x) + y);
    }
}

proof fn wrapped_keeps_depth(s: Seq<char>, open: char, x: Seq<char>, close: char)
    requires
        balanced(x),
        open == '{' && close == '}' || open == '[' && close == ']',
    ensures
        nesting(s + (seq![open] + x + seq![close])) == nesting(s),
{
    let whole = s + (seq![open] + x + seq![close]);
    assert(whole == (s.push(open) + x).push(close));
    each_bracket_is_one_level(s, open);
    each_bracket_is_one_level(s.push(open) + x, close);
    assert(nesting(s.push(open) + x) == nesting(s.push(open)));
}

/// The verdict on a text is that on its parts, where the first leaves nothing open.
pub proof fn parts_are_judged_alone(a: Seq<char>, b: Seq<char>, max_depth: nat)
    requires
        nesting(a) == 0,
    ensures
        nesting_within(a + b, max_depth) <==> nesting_within(a, max_depth) && nesting_within(
            b,
            max_depth,
        ),
{
    let s = a + b;
    if nesting_within(s, max_depth) {
        assert forall|i: int| 0 <= i <= a.len() implies nesting(#[trigger] a.take(i)) <= max_depth by {
            assert(s.take(i) == a.take(i));
        }
        assert forall|i: int| 0 <= i <= b.len() implies nesting(#[trigger] b.take(i)) <= max_depth by {
            assert(s.take(a.len() + i) == a + b.take(i));
            depth_starts_anew(a, b.take(i));
        }
    }
    if nesting_within(a, max_depth) && nesting_within(b, max_depth) {
        assert forall|i: int| 0 <= i <= s.len() implies nesting(#[trigger] s.take(i)) <= max_depth by {
            if i <= a.len() {
                assert(s.take(i) == a.take(i));
            } else {
                assert(s.take(i) == a + b.take(i - a.len()));
                depth_starts_anew(a, b.take(i - a.len()));
            }
        }
    }
}

proof fn depth_starts_anew(a: Seq<char>, b: Seq<char>)
    requires
        nesting(a) == 0,
    ensures
        nesting(a + b) == nesting(b),
    decreases b.len(),
{
    if b.len() == 0 {
        assert(a + b == a);
    } else {
        assert((a + b).drop_last() == a + b.drop_last());
        depth_starts_anew(a, b.drop_last());
    }
}

/// One more pair of braces or brackets around a text takes one more level, where the
/// text closes nothing but what it opened: the pair stays open throughout.
pub proof fn each_wrapping_takes_a_level(x: Seq<char>, max_depth: nat)
    requires
        forall|i: int| 0 <= i <= x.len() ==> nesting(seq!['{'] + #[trigger] x.take(i)) >= 1,
    ensures
        nesting_within(seq!['{'] + x + seq!['}'], max_depth + 1) <==> nesting_within(x, max_depth),
        nesting_within(seq!['['] + x + seq![']'], max_depth + 1) <==> nesting_within(x, max_depth),
        !nesting_within(seq!['{'] + x + seq!['}'], 0),
        !nesting_within(seq!['['] + x + seq![']'], 0),
{
    wrapping_takes_a_level('{', x, '}', max_depth);
    wrapping_takes_a_level('[', x, ']', max_depth);
}

proof fn wrapping_takes_a_level(open: char, x: Seq<char>, close: char, max_depth: nat)
    requires
        open == '{' && close == '}' || open == '[' && close == ']',
        forall|i: int| 0 <= i <= x.len() ==> nesting(seq!['{'] + #[trigger] x.take(i)) >= 1,
    ensures
        nesting_within(seq![open] + x + seq![close], max_depth + 1) <==> nesting_within(
            x,
            max_depth,
        ),
        !nesting_within(seq![open] + x + seq![close], 0),
{
    let s = seq![open] + x + seq![close];
    let none = Seq::<char>::empty();
    assert(s.take(0) == none);
    assert(nesting(none) == 0);
    assert forall|i: int| 0 <= i <= x.len() implies nesting(#[trigger] s.take(i + 1)) == nesting(
        x.take(i),
    ) + 1 by {
        assert(s.take(i + 1) == seq![open] + x.take(i));
        depth_below(open, x, i);
    }
    assert(s.drop_last() == s.take(x.len() as int + 1));
    assert(s == s.take(s.len() as int));
    assert(nesting(s) == nesting(x.take(x.len() as int)));
    if nesting_within(s, max_depth + 1) {
        assert forall|i: int| 0 <= i <= x.len() implies nesting(#[trigger] x.take(i)) <= max_depth by {
            assert(nesting(s.take(i + 1)) <= max_depth + 1);
        }
    }
    if nesting_within(x, max_depth) {
        assert forall|i: int| 0 <= i <= s.len() implies nesting(#[trigger] s.take(i)) <= max_depth
            + 1 by {
            if 0 < i < s.len() {
                assert(nesting(s.take((i - 1) + 1)) == nesting(x.take(i - 1)) + 1);
            }
        }
    }
    assert(nesting(s.take(0int + 1)) == nesting(x.take(0)) + 1);
}

proof fn depth_below(open: char, x: Seq<char>, i: int)
    requires
        open == '{' || open == '[',
        0 <= i <= x.len(),
        forall|k: int| 0 <= k <= x.len() ==> nesting(seq!['{'] + #[trigger] x.take(k)) >= 1,
    ensures
        nesting(seq![open] + x.take(i)) == nesting(x.take(i)) + 1,
        nesting(seq!['{'] + x.take(i)) == nesting(x.take(i)) + 1,
    decreases i,
{
    let none = Seq::<char>::empty();
    if i == 0 {
        each_bracket_is_one_level(none, open);
        assert(x.take(0) == none);
        assert(seq![open] + none == none.push(open));
        assert(seq!['{'] + none == none.push('{'));
    } else {
        depth_below(open, x, i - 1);
        assert(x.take(i).drop_last() == x.take(i - 1));
        assert((seq![open] + x.take(i)).drop_last() == seq![open] + x.take(i - 1));
        assert((seq!['{'] + x.take(i)).drop_last() == seq!['{'] + x.take(i - 1));
        assert(nesting(seq!['{'] + x.take(i)) >= 1);
    }
}

/// So many braces or brackets that only open are too deep for every smaller limit, and
/// for no other.
pub proof fn openings_are_counted(s: Seq<char>, max_depth: nat)
    requires
        forall|i: int| 0 <= i < s.len() ==> (#[trigger] s[i]) == '{' || s[i] == '[',
    ensures
        nesting_within(s, max_depth) <==> s.len() <= max_depth,
{
    if s.len() <= max_depth {
        short_payload_within(s, max_depth);
    } else {
        openings_add_up(s);
        assert(s.take(s.len() as int) == s);
    }
}

proof fn openings_add_up(s: Seq<char>)
    requires
        forall|i: int| 0 <= i < s.len() ==> (#[trigger] s[i]) == '{' || s[i] == '[',
    ensures
        nesting(s) == s.len(),
    decreases s.len(),
{
    if s.len() > 0 {
        assert forall|i: int| 0 <= i < s.drop_last().len() implies (#[trigger] s.drop_last()[i])
            == '{' || s.drop_last()[i] == '[' by {
            assert(s[i] == s.drop_last()[i]);
        }
        openings_add_up(s.drop_last());
        assert(s[s.len() - 1] == '{' || s[s.len() - 1] == '[');
    }
}

/// A user agent in which the name of an attack tool stands, in whatever case, names it.
pub proof fn attack_tools_are_recognised(before: Seq<char>, tool: Seq<char>, after: Seq<char>)
    requires
        ({
            let name = crate::text::ascii_lower(tool);
            name == "sqlmap"@ || name == "nikto"@ || name == "nmap"@ || name == "masscan"@ || name
                == "dirbuster"@ || name == "gobuster"@
        }),
    ensures
        names_attack_tool(crate::text::ascii_lower(before + tool + after)),
{
    let name = crate::text::ascii_lower(tool);
    crate::text::text_is_found(
        crate::text::ascii_lower(before),
        name,
        crate::text::ascii_lower(after),
    );
    assert(crate::text::ascii_lower(before + tool + after) == crate::text::ascii_lower(before)
        + name + crate::text::ascii_lower(after));
}

/// A user agent that is taken for an attack tool carries one of the six names.
pub proof fn other_agents_are_not_attack_tools(agent: Seq<char>)
    requires
        !crate::text::occurs(agent, "sqlmap"@),
        !crate::text::occurs(agent, "nikto"@),
        !crate::text::occurs(agent, "nmap"@),
        !crate::text::occurs(agent, "masscan"@),
        !crate::text::occurs(agent, "dirbuster"@),
        !crate::text::occurs(agent, "gobuster"@),
    ensures
        !names_attack_tool(agent),
{
}

/// Of the ASCII characters, letters and digits are plain, blanks, tabulators and line
/// breaks are neither plain nor special, and all others are special.
pub proof fn ascii_characters_are_told_apart(c: char)
    requires
        (c as u32) < 128,
    ensures
        is_alphanumeric(c) <==> 'a' <= c && c <= 'z' || 'A' <= c && c <= 'Z' || '0' <= c && c
            <= '9',
        is_special(c) <==> !is_alphanumeric(c) && c != ' ' && !('\t' <= c && c <= '\r'),
{
}

/// Each character of a payload is counted once, as special, as a letter or number, or
/// as neither.
pub proof fn every_character_is_counted(s: Seq<char>, c: char)
    ensures
        special_count(Seq::empty()) == 0,
        alphanumeric_count(Seq::empty()) == 0,
        special_count(s.push(c)) == special_count(s) + if is_special(c) {
            1int
        } else {
            0
        },
        alphanumeric_count(s.push(c)) == alphanumeric_count(s) + if is_alphanumeric(c) {
            1int
        } else {
            0
        },
        !(is_special(c) && is_alphanumeric(c)),
{
    reveal(Seq::filter);
    assert(s.push(c).drop_last() == s);
}

/// By the threshold of two fifths a payload is dense if and only if five times its
/// special characters are more than twice its letters and numbers, as long as these are
/// so few that rounding does not matter.
pub proof fn density_is_two_fifths(s: Seq<char>)
    requires
        alphanumeric_count(s) <= 9_000_000,
    ensures
        dense(s, 0x3ECC_CCCD) <==> 5 * special_count(s) > 2 * alphanumeric_count(s),
{
    crate::waf::single::two_fifths(special_count(s), alphanumeric_count(s));
}

/// The keys of parameters that are joined by ampersands are those of each: what stands
/// before the first equals sign, or the whole where there is none.
pub proof fn keys_stand_before_equals_signs(
    a: Seq<char>,
    b: Seq<char>,
    key: Seq<char>,
    value: Seq<char>,
)
    requires
        !key.contains('='),
        !key.contains('&'),
        !value.contains('&'),
    ensures
        parameter_keys(a + seq!['&'] + b) == parameter_keys(a) + parameter_keys(b),
        parameter_keys(key + seq!['='] + value) == seq![key],
        parameter_keys(key) == seq![key],
{
    crate::text::split_cuts_at_separators(a, '&', b);
    assert(parameter_keys(a + seq!['&'] + b) == parameter_keys(a) + parameter_keys(b));
    let pair = key + seq!['='] + value;
    assert(!pair.contains('&')) by {
        if pair.contains('&') {
            let k = choose|k: int| 0 <= k < pair.len() && pair[k] == '&';
            if k < key.len() {
                assert(key[k] == '&');
            } else if k > key.len() {
                assert(value[k - key.len() - 1] == '&');
            }
        }
    }
    crate::text::split_without_separator(pair, '&');
    crate::text::split_without_separator(key, '&');
    crate::text::split_without_separator(key, '=');
    assert(pair.take(key.len() as int) == key);
    crate::text::split_first_piece(pair, '=', key.len() as int);
    assert(parameter_keys(pair) == seq![key]);
    assert(parameter_keys(key) == seq![key]);
}

/// Parameters are polluted if and only if two of their keys that are not empty are the
/// same.
pub proof fn pollution_is_a_repeated_key(keys: Seq<Seq<char>>)
    ensures
        has_duplicate_key(keys) <==> !keys.filter(|key: Seq<char>| key.len() > 0).no_duplicates(),
    decreases keys.len(),
{
    let p = |key: Seq<char>| key.len() > 0;
    if keys.len() == 0 {
        reveal(Seq::filter);
    } else {
        let init = keys.drop_last();
        let last = keys.last();
        pollution_is_a_repeated_key(init);
        reveal(Seq::filter);
        let kept = init.filter(p);
        filter_finds(init, last, p);
        if has_duplicate_key(init) {
            let (i, j) = choose|i: int, j: int|
                0 <= i < j < init.len() && #[trigger] init[i] == #[trigger] init[j]
                    && init[i].len() > 0;
            assert(keys[i] == keys[j]);
        }
        if p(last) {
            assert(keys.filter(p) == kept.push(last));
            if kept.contains(last) {
                let i = choose|i: int| 0 <= i < init.len() && init[i] == last;
                assert(keys[i] == keys[keys.len() - 1]);
                let k = choose|k: int| 0 <= k < kept.len() && kept[k] == last;
                assert(keys.filter(p)[k] == keys.filter(p)[kept.len() as int]);
            } else {
                if kept.no_duplicates() {
                    assert(kept.push(last).no_duplicates());
                } else {
                    let (x, y) = choose|x: int, y: int|
                        0 <= x < kept.len() && 0 <= y < kept.len() && x != y && kept[x] == kept[y];
                    assert(kept.push(last)[x] == kept.push(last)[y]);
                }
                if has_duplicate_key(keys) {
                    let (i, j) = choose|i: int, j: int|
                        0 <= i < j < keys.len() && #[trigger] keys[i] == #[trigger] keys[j]
                            && keys[i].len() > 0;
                    assert(init[i] == keys[i]);
                    if j < init.len() {
                        assert(init[j] == keys[j]);
                    }
                }
            }
        } else {
            if has_duplicate_key(keys) {
                let (i, j) = choose|i: int, j: int|
                    0 <= i < j < keys.len() && #[trigger] keys[i] == #[trigger] keys[j]
                        && keys[i].len() > 0;
                assert(init[i] == keys[i]);
                assert(init[j] == keys[j]);
            }
        }
    }
}

proof fn filter_finds(s: Seq<Seq<char>>, x: Seq<char>, p: spec_fn(Seq<char>) -> bool)
    ensures
        s.filter(p).contains(x) <==> s.contains(x) && p(x),
    decreases s.len(),
{
    reveal(Seq::filter);
    if s.len() > 0 {
        let init = s.drop_last();
        filter_finds(init, x, p);
        assert(s == init.push(s.last()));
        if s.contains(x) {
            let k = choose|k: int| 0 <= k < s.len() && s[k] == x;
            if k < init.len() {
                assert(init[k] == x);
            }
        }
        if init.contains(x) {
            let k = choose|k: int| 0 <= k < init.len() && init[k] == x;
            assert(s[k] == x);
        }
        assert(s[s.len() - 1] == s.last());
        let kept = init.filter(p);
        if p(s.last()) {
            let more = kept.push(s.last());
            assert(s.filter(p) == more);
            if more.contains(x) {
                let k = choose|k: int| 0 <= k < more.len() && more[k] == x;
                if k < kept.len() {
                    assert(kept[k] == x);
                }
            }
            if kept.contains(x) {
                let k = choose|k: int| 0 <= k < kept.len() && kept[k] == x;
                assert(more[k] == x);
            }
            assert(more[kept.len() as int] == s.last());
        }
    }
}

/// A key that is given twice pollutes a query, wherever the two stand.
pub proof fn repeated_parameters_are_found(
    before: Seq<char>,
    key: Seq<char>,
    first: Seq<char>,
    between: Seq<char>,
    second: Seq<char>,
    after: Seq<char>,
)
    requires
        key.len() > 0,
        !key.contains('='),
        !key.contains('&'),
        !first.contains('&'),
        !second.contains('&'),
    ensures
        has_duplicate_key(
            parameter_keys(
                before + seq!['&'] + (key + seq!['='] + first) + seq!['&'] + between + seq!['&'] + (
                key + seq!['='] + second) + seq!['&'] + after,
            ),
        ),
{
    let one = key + seq!['='] + first;
    let two = key + seq!['='] + second;
    let a = before + seq!['&'] + one;
    let b = a + seq!['&'] + between;
    let c = b + seq!['&'] + two;
    keys_stand_before_equals_signs(before, one, key, first);
    keys_stand_before_equals_signs(a, between, key, first);
    keys_stand_before_equals_signs(b, two, key, second);
    keys_stand_before_equals_signs(c, after, key, second);
    let keys = parameter_keys(c + seq!['&'] + after);
    let i = parameter_keys(before).len() as int;
    let j = parameter_keys(b).len() as int;
    assert(keys[i] == key);
    assert(keys[j] == key);
    assert(i < j);
}

/// A text is accepted if and only if nowhere in it more braces and brackets are open than
/// allowed; what is appended behind a text that leaves nothing open is judged alone, so
/// that siblings never add up.
pub proof fn siblings_are_accepted_together(
    a: &str,
    b: &str,
    both: &str,
    max_depth: usize,
    r_a: bool,
    r_b: bool,
    r: bool,
)
    requires
        call_ensures(check_json_depth, (a, max_depth), r_a),
        call_ensures(check_json_depth, (b, max_depth), r_b),
        call_ensures(check_json_depth, (both, max_depth), r),
        both@ == a@ + b@,
        nesting(a@) == 0,
    ensures
        r == (r_a && r_b),
{
    parts_are_judged_alone(a@, b@, max_depth as nat);
}

/// A text that only opens is accepted if and only if it has no more braces and brackets
/// than are allowed, and one without any always is.
pub proof fn depth_is_checked(s: &str, max_depth: usize, r: bool)
    requires
        call_ensures(check_json_depth, (s, max_depth), r),
    ensures
        (forall|i: int| 0 <= i < s@.len() ==> (#[trigger] s@[i]) == '{' || s@[i] == '[') ==> r == (
        s@.len() <= max_depth),
        (forall|i: int| 0 <= i < s@.len() ==> !is_bracket(#[trigger] s@[i])) ==> r,
        r ==> forall|i: int| 0 <= i <= s@.len() ==> nesting(#[trigger] s@.take(i)) <= max_depth,
        !r ==> exists|i: int| 0 <= i <= s@.len() && nesting(#[trigger] s@.take(i)) > max_depth,
{
    if forall|i: int| 0 <= i < s@.len() ==> (#[trigger] s@[i]) == '{' || s@[i] == '[' {
        openings_are_counted(s@, max_depth as nat);
    }
    if forall|i: int| 0 <= i < s@.len() ==> !is_bracket(#[trigger] s@[i]) {
        assert forall|i: int| 0 <= i <= s@.len() implies nesting(#[trigger] s@.take(i)) <= max_depth by {
            let none = Seq::<char>::empty();
            assert forall|k: int| 0 <= k < s@.take(i).len() implies !is_bracket(
                #[trigger] s@.take(i)[k],
            ) by {
                assert(!is_bracket(s@[k]));
            }
            plain_text_keeps_depth(none, s@.take(i));
            assert(none + s@.take(i) == s@.take(i));
        }
    }
}

/// A user agent of ASCII characters is taken for an attack tool if and only if one of the
/// six names stands in it, in whatever case.
pub proof fn bots_are_told_by_their_names(agent: &str, r: bool)
    requires
        call_ensures(is_malicious_bot, (agent,), r),
        crate::text::all_ascii(agent@),
    ensures
        ({
            let lower = crate::text::ascii_lower(agent@);
            r <==> crate::text::occurs(lower, "sqlmap"@) || crate::text::occurs(lower, "nikto"@)
                || crate::text::occurs(lower, "nmap"@) || crate::text::occurs(lower, "masscan"@)
                || crate::text::occurs(lower, "dirbuster"@) || crate::text::occurs(
                lower,
                "gobuster"@,
            )
        }),
{
}

/// A payload is dense by two fifths if and only if five times its special characters are
/// more than twice its letters and numbers.
pub proof fn density_is_checked(s: &str, r: bool)
    requires
        call_ensures(is_high_density, (s, 0x3ECC_CCCDu32), r),
        alphanumeric_count(s@) <= 9_000_000,
    ensures
        r <==> 5 * special_count(s@) > 2 * alphanumeric_count(s@),
{
    density_is_two_fifths(s@);
}

/// Parameters are polluted if and only if a key that is not empty is given twice.
pub proof fn pollution_is_checked(s: &str, r: bool)
    requires
        call_ensures(has_parameter_pollution, (s,), r),
    ensures
        r <==> !parameter_keys(s@).filter(|key: Seq<char>| key.len() > 0).no_duplicates(),
{
    pollution_is_a_repeated_key(parameter_keys(s@));
}

} // verus!
