//! Masking of sensitive data in responses.
use crate::text::{chars_of, string_of};
use regex::Regex;
use vstd::prelude::*;

verus! {

broadcast use vstd::string::group_string_axioms;

/// An email address.
pub const EMAIL: &'static str = r"[a-zA-Z0-9._%+-]+@[a-zA-Z0-9.-]+\.[a-zA-Z]{2,}";

/// A credit card number: 13 to 16 digits, with blanks or hyphens between them.
pub const CARD: &'static str = r"\b(?:\d[ -]*?){13,16}\b";

/// What stands in place of a card number.
pub const CARD_MASK: &'static str = "****-****-****-****";

/// A `regex::Regex`: one compiled pattern.
#[verifier::external_type_specification]
#[verifier::external_body]
pub struct ExRegex(Regex);

/// The text of the pattern that a compiled pattern holds.
pub uninterp spec fn regex_pattern(re: Regex) -> Seq<char>;

/// Whether a pattern was compiled with the default options, as `Regex::new` does.
pub uninterp spec fn regex_is_plain(re: Regex) -> bool;

/// Whether `Regex::new` accepts the pattern.
pub uninterp spec fn regex_compiles(pattern: Seq<char>) -> bool;

/// The ranges, in characters, of the successive non-overlapping matches of a
/// pattern in a text, under the default options.
pub uninterp spec fn regex_matches(pattern: Seq<char>, text: Seq<char>) -> Seq<(int, int)>;

/// Where the text after the first `n` ranges begins.
pub open spec fn range_end(ranges: Seq<(int, int)>, n: nat) -> int {
    if n == 0 {
        0
    } else {
        ranges[n - 1].1
    }
}

/// The text up to the end of the first `n` ranges, with each of these ranges
/// replaced.
pub open spec fn replaced_upto(
    text: Seq<char>,
    ranges: Seq<(int, int)>,
    outs: Seq<Seq<char>>,
    n: nat,
) -> Seq<char>
    decreases n,
{
    if n == 0 {
        Seq::empty()
    } else {
        let k = (n - 1) as nat;
        replaced_upto(text, ranges, outs, k) + text.subrange(
            range_end(ranges, k),
            ranges[k as int].0,
        ) + outs[k as int]
    }
}

/// The text with each range replaced.
pub open spec fn replaced(text: Seq<char>, ranges: Seq<(int, int)>, outs: Seq<Seq<char>>) -> Seq<
    char,
> {
    replaced_upto(text, ranges, outs, ranges.len()) + text.skip(range_end(ranges, ranges.len()))
}

/// Whether `f` may answer `out` for the matched text `found`.
pub open spec fn may_replace<F: Fn(&str) -> String>(
    f: F,
    found: Seq<char>,
    out: Seq<char>,
) -> bool {
    exists|s: &str, o: String| s@ == found && o@ == out && #[trigger] f.ensures((s,), o)
}

/// Whether `r` is the text with each range replaced by an answer of `f`.
pub open spec fn replaced_by<F: Fn(&str) -> String>(
    f: F,
    ranges: Seq<(int, int)>,
    text: Seq<char>,
    r: Seq<char>,
) -> bool {
    exists|outs: Seq<Seq<char>>|
        {
            &&& outs.len() == ranges.len()
            &&& forall|i: int|
                0 <= i < ranges.len() ==> may_replace(
                    f,
                    text.subrange(ranges[i].0, ranges[i].1),
                    #[trigger] outs[i],
                )
            &&& r == #[trigger] replaced(text, ranges, outs)
        }
}

/// `Regex::new` compiles a pattern under the default options. Which patterns it
/// accepts is given a name.
#[verifier::external_body]
fn compile_regex(pattern: &str) -> (r: Result<Regex, regex::Error>)
    ensures
        r is Ok == regex_compiles(pattern@),
        r matches Ok(re) ==> regex_pattern(re) == pattern@ && regex_is_plain(re),
{
    Regex::new(pattern)
}

/// `Regex::replace_all` replaces every non-overlapping match of the pattern by
/// what the replacer makes of it and keeps the rest of the text. Where the
/// matches are is given a name.
#[verifier::external_body]
fn replace_all<F: Fn(&str) -> String>(re: &Regex, text: &str, f: F) -> (r: String)
    requires
        regex_is_plain(*re),
        forall|s: &str| f.requires((s,)),
    ensures
        replaced_by(f, regex_matches(regex_pattern(*re), text@), text@, r@),
{
    re.replace_all(text, |found: &regex::Captures| f(&found[0])).into_owned()
}

/// The replacement of every match by `mask`.
pub open spec fn all_masked(
    pattern: Seq<char>,
    text: Seq<char>,
    mask: spec_fn(Seq<char>) -> Seq<char>,
) -> Seq<char> {
    let ranges = regex_matches(pattern, text);
    replaced(text, ranges, ranges.map_values(|r: (int, int)| mask(text.subrange(r.0, r.1))))
}

/// An address with its local part hidden: `user@example.com` becomes
/// `****@example.com`.
pub open spec fn masked_email(address: Seq<char>) -> Seq<char> {
    if address.contains('@') {
        "****"@ + address.skip(address.index_of_first('@').unwrap())
    } else {
        address
    }
}

/// A text with all email addresses masked.
pub open spec fn emails_masked(text: Seq<char>) -> Seq<char> {
    all_masked(EMAIL@, text, |m: Seq<char>| masked_email(m))
}

/// A text with all card numbers masked.
pub open spec fn cards_masked(text: Seq<char>) -> Seq<char> {
    all_masked(CARD@, text, |m: Seq<char>| CARD_MASK@)
}

/// Hides the local part of an email address.
pub fn mask_email(address: &str) -> (r: String)
    ensures
        r@ == masked_email(address@),
{
    let chars = chars_of(address);
    let mut i: usize = 0;
    while i < chars.len()
        invariant
            chars@ == address@,
            i <= chars@.len(),
            forall|j: int| 0 <= j < i ==> chars@[j] != '@',
        decreases chars@.len() - i,
    {
        if chars[i] == '@' {
            proof {
                address@.index_of_first_ensures('@');
                assert(address@[i as int] == '@');
                assert(address@.index_of_first('@') == Some(i as int));
            }
            let mut out: Vec<char> = chars_of("****");
            let ghost stars = out@;
            let mut k: usize = i;
            while k < chars.len()
                invariant
                    i <= k <= chars@.len(),
                    out@ == stars + chars@.subrange(i as int, k as int),
                decreases chars@.len() - k,
            {
                out.push(chars[k]);
                k += 1;
            }
            assert(chars@.subrange(i as int, k as int) == chars@.skip(i as int));
            return string_of(out.as_slice());
        }
        i += 1;
    }
    string_of(chars.as_slice())
}

/// What stands in place of any card number.
pub fn mask_card(_number: &str) -> (r: String)
    ensures
        r@ == CARD_MASK@,
{
    CARD_MASK.to_owned()
}

/// The patterns of sensitive data, compiled once.
pub struct SensitivePatterns {
    email: Regex,
    card: Regex,
}

impl SensitivePatterns {
    #[verifier::type_invariant]
    spec fn holds_patterns(self) -> bool {
        &&& regex_is_plain(self.email)
        &&& regex_pattern(self.email) == EMAIL@
        &&& regex_is_plain(self.card)
        &&& regex_pattern(self.card) == CARD@
    }

    /// Compiles the patterns; `None` if the pattern engine refuses one.
    pub fn compile() -> (r: Option<SensitivePatterns>)
        ensures
            r is Some == (regex_compiles(EMAIL@) && regex_compiles(CARD@)),
    {
        match compile_regex(EMAIL) {
            Ok(email) => match compile_regex(CARD) {
                Ok(card) => Some(SensitivePatterns { email, card }),
                Err(_) => None,
            },
            Err(_) => None,
        }
    }
}

/// A replacer that always answers `mask` of what it is given replaces every
/// match by its mask.
proof fn replaced_by_mask<F: Fn(&str) -> String>(
    f: F,
    pattern: Seq<char>,
    text: Seq<char>,
    r: Seq<char>,
    mask: spec_fn(Seq<char>) -> Seq<char>,
)
    requires
        replaced_by(f, regex_matches(pattern, text), text, r),
        forall|s: &str, o: String| #[trigger] f.ensures((s,), o) ==> o@ == mask(s@),
    ensures
        r == all_masked(pattern, text, mask),
{
    let ranges = regex_matches(pattern, text);
    let outs = choose|outs: Seq<Seq<char>>|
        {
            &&& outs.len() == ranges.len()
            &&& forall|i: int|
                0 <= i < ranges.len() ==> may_replace(
                    f,
                    text.subrange(ranges[i].0, ranges[i].1),
                    #[trigger] outs[i],
                )
            &&& r == #[trigger] replaced(text, ranges, outs)
        };
    let masks = ranges.map_values(|m: (int, int)| mask(text.subrange(m.0, m.1)));
    assert forall|i: int| 0 <= i < ranges.len() implies outs[i] == masks[i] by {
        assert(may_replace(f, text.subrange(ranges[i].0, ranges[i].1), outs[i]));
    }
    assert(outs == masks);
}

/// Automatically identifies and masks emails and credit card numbers: first
/// every email address, then in the result every card number.
pub fn mask_sensitive_info(patterns: &SensitivePatterns, input: &str) -> (r: String)
    ensures
        r@ == cards_masked(emails_masked(input@)),
{
    proof {
        use_type_invariant(patterns);
    }
    let masked = replace_all(&patterns.email, input, mask_email);
    proof {
        replaced_by_mask(mask_email, EMAIL@, input@, masked@, |m: Seq<char>| masked_email(m));
    }
    let out = replace_all(&patterns.card, masked.as_str(), mask_card);
    proof {
        replaced_by_mask(mask_card, CARD@, masked@, out@, |m: Seq<char>| CARD_MASK@);
    }
    out
}

/// A text in which nothing sensitive is found is kept as it is.
pub proof fn harmless_text_is_kept(text: Seq<char>)
    requires
        regex_matches(EMAIL@, text).len() == 0,
        regex_matches(CARD@, text).len() == 0,
    ensures
        cards_masked(emails_masked(text)) == text,
{
    assert(emails_masked(text) == text);
    assert(cards_masked(text) == text);
}

/// Of a masked address only the domain is left.
pub proof fn masked_address_shows_its_domain_only(local: Seq<char>, domain: Seq<char>)
    requires
        !local.contains('@'),
    ensures
        masked_email(local + seq!['@'] + domain) == "****"@ + seq!['@'] + domain,
{
    let address = local + seq!['@'] + domain;
    let n = local.len() as int;
    assert(address[n] == '@');
    address.index_of_first_ensures('@');
    let i = address.index_of_first('@').unwrap();
    if i < n {
        assert(local[i] == address[i]);
    }
    assert(i == n);
    assert(address.skip(n) == seq!['@'] + domain);
    assert("****"@ + (seq!['@'] + domain) == "****"@ + seq!['@'] + domain);
}

/// Masking hides the local part of every address and the whole of every card number
/// that the two patterns find, the numbers in what is left once the addresses are
/// hidden.
pub proof fn addresses_and_cards_are_masked(text: Seq<char>)
    ensures
        emails_masked(text) == all_masked(
            r"[a-zA-Z0-9._%+-]+@[a-zA-Z0-9.-]+\.[a-zA-Z]{2,}"@,
            text,
            |m: Seq<char>| masked_email(m),
        ),
        cards_masked(text) == all_masked(
            r"\b(?:\d[ -]*?){13,16}\b"@,
            text,
            |m: Seq<char>| "****-****-****-****"@,
        ),
{
}

/// Where a pattern is found once, the text before and behind the match is kept and the
/// match is replaced by its mask alone.
pub proof fn masking_keeps_the_rest(
    pattern: Seq<char>,
    before: Seq<char>,
    found: Seq<char>,
    after: Seq<char>,
    mask: spec_fn(Seq<char>) -> Seq<char>,
)
    requires
        regex_matches(pattern, before + found + after) == seq![
            (before.len() as int, before.len() + found.len() as int),
        ],
    ensures
        all_masked(pattern, before + found + after, mask) == before + mask(found) + after,
{
    let text = before + found + after;
    let ranges = regex_matches(pattern, text);
    let outs = ranges.map_values(|r: (int, int)| mask(text.subrange(r.0, r.1)));
    assert(text.subrange(ranges[0].0, ranges[0].1) == found);
    assert(outs[0] == mask(found));
    reveal_with_fuel(replaced_upto, 3);
    assert(text.subrange(0, before.len() as int) == before);
    assert(replaced_upto(text, ranges, outs, 0) == Seq::<char>::empty());
    assert(replaced_upto(text, ranges, outs, 1) == Seq::<char>::empty() + before + mask(found));
    assert(text.skip(before.len() + found.len() as int) == after);
    assert(Seq::<char>::empty() + before == before);
}

/// An address without an at sign is kept, and of one with several only what stands
/// before the first is hidden.
pub proof fn text_behind_the_first_at_sign_is_kept(address: Seq<char>)
    ensures
        !address.contains('@') ==> masked_email(address) == address,
        address.contains('@') ==> masked_email(address).len() == 4 + address.len()
            - address.index_of_first('@').unwrap(),
{
    reveal_strlit("****");
    if address.contains('@') {
        address.index_of_first_ensures('@');
    }
}

/// Whether ranges stand in order, one behind the other, before a place.
pub open spec fn stand_before(ranges: Seq<(int, int)>, end: int) -> bool {
    &&& forall|k: int| 0 <= k < ranges.len() ==> 0 <= (#[trigger] ranges[k]).0 <= ranges[k].1 <= end
    &&& forall|j: int, k: int| 0 <= j < k < ranges.len() ==> (#[trigger] ranges[j]).1 <= (
        #[trigger] ranges[k]).0
}

/// Every range is replaced, and only the ranges: without one a text is kept, and with a
/// further one behind the others the text before it is treated as it would be alone, its
/// own replacement follows, and then the rest of the text.
pub proof fn every_range_is_replaced(
    text: Seq<char>,
    ranges: Seq<(int, int)>,
    outs: Seq<Seq<char>>,
    start: int,
    end: int,
    out: Seq<char>,
)
    requires
        outs.len() == ranges.len(),
        0 <= start <= end <= text.len(),
        stand_before(ranges, start),
    ensures
        replaced(text, Seq::empty(), Seq::empty()) == text,
        replaced(text, ranges.push((start, end)), outs.push(out)) == replaced(
            text.take(start),
            ranges,
            outs,
        ) + out + text.skip(end),
{
    assert(text.skip(0) == text);
    assert(Seq::<char>::empty() + text == text);
    let n = ranges.len();
    let more = ranges.push((start, end));
    let all = outs.push(out);
    earlier_ranges_agree(text, text.take(start), ranges, more, outs, all, n, start);
    let last = range_end(ranges, n);
    assert(0 <= last <= start);
    assert(range_end(more, n) == last);
    assert(text.subrange(last, start) == text.take(start).skip(last));
}

proof fn earlier_ranges_agree(
    text: Seq<char>,
    head: Seq<char>,
    ranges: Seq<(int, int)>,
    more: Seq<(int, int)>,
    outs: Seq<Seq<char>>,
    all: Seq<Seq<char>>,
    n: nat,
    start: int,
)
    requires
        n <= ranges.len() == outs.len(),
        ranges.len() < more.len(),
        outs.len() < all.len(),
        forall|k: int| 0 <= k < ranges.len() ==> #[trigger] ranges[k] == more[k],
        forall|k: int| 0 <= k < outs.len() ==> #[trigger] outs[k] == all[k],
        0 <= start <= text.len(),
        head == text.take(start),
        stand_before(ranges, start),
    ensures
        replaced_upto(text, more, all, n) == replaced_upto(head, ranges, outs, n),
    decreases n,
{
    if n > 0 {
        let k = (n - 1) as nat;
        earlier_ranges_agree(text, head, ranges, more, outs, all, k, start);
        assert(ranges[k as int] == more[k as int]);
        assert(outs[k as int] == all[k as int]);
        if k > 0 {
            assert(ranges[k - 1] == more[k - 1]);
            assert(ranges[k - 1].1 <= ranges[k as int].0);
        }
        let from = range_end(ranges, k);
        assert(0 <= from <= ranges[k as int].0 <= start);
        assert(text.subrange(from, ranges[k as int].0) == head.subrange(from, ranges[k as int].0));
    }
}

/// What is sent back is the text with every address masked and then, in the result, every
/// card number.
pub proof fn sensitive_text_is_masked(
    patterns: SensitivePatterns,
    input: &str,
    r: String,
    address: &str,
    masked: String,
    local: Seq<char>,
    domain: Seq<char>,
)
    requires
        call_ensures(mask_sensitive_info, (&patterns, input), r),
        call_ensures(mask_email, (address,), masked),
        address@ == local + seq!['@'] + domain,
        !local.contains('@'),
    ensures
        r@ == all_masked(
            r"\b(?:\d[ -]*?){13,16}\b"@,
            all_masked(
                r"[a-zA-Z0-9._%+-]+@[a-zA-Z0-9.-]+\.[a-zA-Z]{2,}"@,
                input@,
                |m: Seq<char>| masked_email(m),
            ),
            |m: Seq<char>| "****-****-****-****"@,
        ),
        masked@ == "****"@ + seq!['@'] + domain,
{
    masked_address_shows_its_domain_only(local, domain);
}

} // verus!
