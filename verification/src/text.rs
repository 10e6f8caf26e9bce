//! Text as sequences of characters: searching, splitting, comparing.
use vstd::prelude::*;

verus! {

broadcast use vstd::string::group_string_axioms;

/// Whether `needle` stands at position `i` of `hay`.
pub open spec fn occurs_at<T>(hay: Seq<T>, needle: Seq<T>, i: int) -> bool {
    &&& 0 <= i
    &&& i + needle.len() <= hay.len()
    &&& hay.subrange(i, i + needle.len()) == needle
}

/// Whether `needle` stands anywhere in `hay`.
pub open spec fn occurs<T>(hay: Seq<T>, needle: Seq<T>) -> bool {
    exists|i: int| occurs_at(hay, needle, i)
}

/// Whether `s` begins with `prefix`.
pub open spec fn begins_with<T>(s: Seq<T>, prefix: Seq<T>) -> bool {
    prefix.len() <= s.len() && s.take(prefix.len() as int) == prefix
}

/// The pieces of `s` between the separators `sep`; always at least one.
pub open spec fn split(s: Seq<char>, sep: char) -> Seq<Seq<char>>
    decreases s.len(),
{
    if s.len() == 0 {
        seq![Seq::empty()]
    } else {
        let pieces = split(s.drop_last(), sep);
        if s.last() == sep {
            pieces.push(Seq::empty())
        } else {
            pieces.drop_last().push(pieces.last().push(s.last()))
        }
    }
}

/// ASCII lower case of one character.
pub open spec fn lower_char(c: char) -> char {
    if 'A' <= c && c <= 'Z' {
        (c as u32 + 32) as char
    } else {
        c
    }
}

/// `s` with its ASCII letters in lower case.
pub open spec fn ascii_lower(s: Seq<char>) -> Seq<char> {
    s.map_values(|c: char| lower_char(c))
}

/// The characters whose code points are the given bytes.
pub open spec fn latin1(bytes: Seq<u8>) -> Seq<char> {
    bytes.map_values(|b: u8| b as char)
}

/// Whether all characters are ASCII.
pub open spec fn all_ascii(s: Seq<char>) -> bool {
    forall|i: int| 0 <= i < s.len() ==> (#[trigger] s[i] as u32) < 128
}

/// Whether a character is an ASCII letter or digit.
pub open spec fn ascii_alphanumeric(c: char) -> bool {
    ('0' <= c && c <= '9') || ('A' <= c && c <= 'Z') || ('a' <= c && c <= 'z')
}

/// The characters with the Unicode property White_Space.
pub open spec fn whitespace(c: char) -> bool {
    ||| '\t' <= c && c <= '\r'
    ||| c == ' ' || c == '\u{85}' || c == '\u{a0}' || c == '\u{1680}'
    ||| '\u{2000}' <= c && c <= '\u{200a}'
    ||| c == '\u{2028}' || c == '\u{2029}' || c == '\u{202f}' || c == '\u{205f}'
    ||| c == '\u{3000}'
}

/// What `str::to_lowercase` makes of a text.
pub uninterp spec fn lowercase(s: Seq<char>) -> Seq<char>;

/// What `String::from_utf8_lossy` reads from bytes.
pub uninterp spec fn utf8_lossy(bytes: Seq<u8>) -> Seq<char>;

/// What `char::is_alphanumeric` says of a character.
pub uninterp spec fn alphanumeric(c: char) -> bool;

/// `String::push` appends one character.
pub assume_specification[ String::push ](s: &mut String, c: char)
    ensures
        final(s)@ == old(s)@.push(c),
;

/// `str::to_lowercase` applies the Unicode lower case mapping, which is given a
/// name here; on ASCII text it is the ASCII one.
pub assume_specification[ str::to_lowercase ](s: &str) -> (r: String)
    ensures
        r@ == lowercase(s@),
        all_ascii(s@) ==> r@ == ascii_lower(s@),
;

/// `char::is_alphanumeric` tests the Unicode properties Alphabetic and Numeric;
/// the test is given a name. Of the ASCII characters letters and digits have them.
pub assume_specification[ char::is_alphanumeric ](c: char) -> (r: bool)
    ensures
        r == alphanumeric(c),
        (c as u32) < 128 ==> r == ascii_alphanumeric(c),
;

/// `char::is_whitespace` tests the Unicode property White_Space.
pub assume_specification[ char::is_whitespace ](c: char) -> (r: bool)
    ensures
        r == whitespace(c),
;

/// `String::from_utf8_lossy` decodes UTF-8 and puts U+FFFD in place of what is
/// not UTF-8. The result is given a name; on valid UTF-8 it is the decoded text.
#[verifier::external_body]
pub(crate) fn from_utf8_lossy(bytes: &[u8]) -> (r: String)
    ensures
        r@ == utf8_lossy(bytes@),
        vstd::utf8::valid_utf8(bytes@) ==> r@ == vstd::utf8::decode_utf8(bytes@),
{
    String::from_utf8_lossy(bytes).into_owned()
}

/// The text that bytes are read as: what they encode, where they are UTF-8.
pub open spec fn read_lossily(bytes: Seq<u8>) -> Seq<char> {
    if vstd::utf8::valid_utf8(bytes) {
        vstd::utf8::decode_utf8(bytes)
    } else {
        utf8_lossy(bytes)
    }
}

/// The characters of a text.
pub fn chars_of(s: &str) -> (r: Vec<char>)
    ensures
        r@ == s@,
{
    let mut out: Vec<char> = Vec::new();
    for c in it: s.chars()
        invariant
            out@ == s@.take(it.index()),
            it.seq() == s@,
    {
        out.push(c);
    }
    out
}

/// The text made of the given characters.
pub fn string_of(chars: &[char]) -> (r: String)
    ensures
        r@ == chars@,
{
    let mut out = String::new();
    let mut i: usize = 0;
    while i < chars.len()
        invariant
            i <= chars@.len(),
            out@ == chars@.take(i as int),
        decreases chars@.len() - i,
    {
        out.push(chars[i]);
        i += 1;
    }
    out
}

/// Appends a text.
pub fn append(s: &mut String, tail: &str)
    ensures
        final(s)@ == old(s)@ + tail@,
{
    let ghost before = s@;
    for c in it: tail.chars()
        invariant
            it.seq() == tail@,
            s@ == before + tail@.take(it.index()),
    {
        s.push(c);
        assert(tail@.take(it.index() + 1) == tail@.take(it.index()).push(c));
    }
    assert(tail@.take(tail@.len() as int) == tail@);
}

/// Compares two texts.
pub fn text_eq(a: &str, b: &str) -> (r: bool)
    ensures
        r == (a@ == b@),
{
    let x = a.as_bytes();
    let y = b.as_bytes();
    proof {
        vstd::utf8::encode_utf8_decode_utf8(a@);
        vstd::utf8::encode_utf8_decode_utf8(b@);
    }
    if x.len() != y.len() {
        return false;
    }
    let mut i: usize = 0;
    while i < x.len()
        invariant
            x@ == vstd::utf8::encode_utf8(a@),
            y@ == vstd::utf8::encode_utf8(b@),
            x@.len() == y@.len(),
            i <= x@.len(),
            x@.take(i as int) == y@.take(i as int),
        decreases x@.len() - i,
    {
        if x[i] != y[i] {
            return false;
        }
        i += 1;
    }
    assert(x@ == x@.take(i as int));
    assert(y@ == y@.take(i as int));
    true
}

/// Whether the first sequence begins with the second.
pub fn has_prefix(s: &[u8], prefix: &[u8]) -> (r: bool)
    ensures
        r == begins_with(s@, prefix@),
{
    if prefix.len() > s.len() {
        return false;
    }
    let mut i: usize = 0;
    while i < prefix.len()
        invariant
            i <= prefix@.len() <= s@.len(),
            s@.take(i as int) == prefix@.take(i as int),
        decreases prefix@.len() - i,
    {
        if s[i] != prefix[i] {
            assert(s@.take(prefix@.len() as int)[i as int] != prefix@[i as int]);
            return false;
        }
        i += 1;
    }
    assert(prefix@ == prefix@.take(i as int));
    true
}

/// Whether a text begins with another.
pub fn starts_with(s: &str, prefix: &str) -> (r: bool)
    ensures
        r == begins_with(s@, prefix@),
{
    let a = chars_of(s);
    let b = chars_of(prefix);
    if b.len() > a.len() {
        return false;
    }
    let mut i: usize = 0;
    while i < b.len()
        invariant
            a@ == s@,
            b@ == prefix@,
            i <= b@.len() <= a@.len(),
            a@.take(i as int) == b@.take(i as int),
        decreases b@.len() - i,
    {
        if a[i] != b[i] {
            assert(a@.take(b@.len() as int)[i as int] != b@[i as int]);
            return false;
        }
        i += 1;
    }
    assert(b@ == b@.take(i as int));
    true
}

/// Whether `needle` stands in `hay` at position `i`.
fn matches_at(hay: &[char], needle: &[char], i: usize) -> (r: bool)
    requires
        i + needle@.len() <= hay@.len(),
    ensures
        r == occurs_at(hay@, needle@, i as int),
{
    let len = hay.len();
    let mut k: usize = 0;
    while k < needle.len()
        invariant
            k <= needle@.len(),
            i + needle@.len() <= hay@.len() == len,
            forall|j: int| 0 <= j < k ==> hay@[i + j] == #[trigger] needle@[j],
        decreases needle@.len() - k,
    {
        if hay[i + k] != needle[k] {
            assert(hay@.subrange(i as int, i + needle@.len())[k as int] != needle@[k as int]);
            return false;
        }
        k += 1;
    }
    assert(hay@.subrange(i as int, i + needle@.len()) == needle@);
    true
}

/// Whether `needle` stands anywhere in the characters `hay`.
pub fn contains(hay: &[char], needle: &str) -> (r: bool)
    ensures
        r == occurs(hay@, needle@),
{
    let n = chars_of(needle);
    let mut i: usize = 0;
    while i <= hay.len() && n.len() <= hay.len() - i
        invariant
            n@ == needle@,
            i <= hay@.len() + 1,
            forall|j: int| 0 <= j < i ==> !occurs_at(hay@, needle@, j),
        decreases hay@.len() + 1 - i,
    {
        if matches_at(hay, n.as_slice(), i) {
            return true;
        }
        if i == hay.len() {
            assert forall|j: int| !occurs_at(hay@, needle@, j) by {}
            return false;
        }
        i += 1;
    }
    assert forall|j: int| !occurs_at(hay@, needle@, j) by {}
    false
}

/// The characters with ASCII letters in lower case.
pub fn to_ascii_lower(s: &[char]) -> (r: Vec<char>)
    ensures
        r@ == ascii_lower(s@),
{
    let mut out: Vec<char> = Vec::new();
    let mut i: usize = 0;
    while i < s.len()
        invariant
            i <= s@.len(),
            out@ == ascii_lower(s@.take(i as int)),
        decreases s@.len() - i,
    {
        let c = s[i];
        let l = if 'A' <= c && c <= 'Z' {
            ((c as u8) + 32) as char
        } else {
            c
        };
        assert(ascii_lower(s@.take(i + 1)) == ascii_lower(s@.take(i as int)).push(lower_char(c)));
        out.push(l);
        i += 1;
    }
    assert(s@.take(i as int) == s@);
    out
}

/// A text without the separator is one piece, itself.
pub proof fn split_without_separator(s: Seq<char>, sep: char)
    requires
        !s.contains(sep),
    ensures
        split(s, sep) == seq![s],
    decreases s.len(),
{
    if s.len() > 0 {
        let p = s.drop_last();
        assert(!p.contains(sep)) by {
            if p.contains(sep) {
                let k = choose|k: int| 0 <= k < p.len() && p[k] == sep;
                assert(s[k] == sep);
            }
        }
        split_without_separator(p, sep);
        assert(s[s.len() - 1] != sep);
        assert(p.push(s.last()) == s);
        assert(split(s, sep) == seq![s]);
    } else {
        assert(s == Seq::<char>::empty());
    }
}

/// The first piece ends at the first separator.
pub proof fn split_first_piece(s: Seq<char>, sep: char, i: int)
    requires
        0 <= i < s.len(),
        s[i] == sep,
        !s.take(i).contains(sep),
    ensures
        split(s, sep)[0] == s.take(i),
        split(s, sep).len() >= 2,
    decreases s.len(),
{
    let p = s.drop_last();
    if i == s.len() - 1 {
        assert(p == s.take(i));
        split_without_separator(p, sep);
    } else {
        assert(p.take(i) == s.take(i));
        split_first_piece(p, sep, i);
    }
}

/// The first piece is the whole text if the separator does not stand in it, and
/// otherwise ends at the separator.
pub proof fn first_piece_ends_at_separator(s: Seq<char>, sep: char)
    ensures
        !s.contains(sep) ==> split(s, sep)[0] == s,
        s.contains(sep) ==> split(s, sep)[0].len() < s.len() && s[split(s, sep)[0].len() as int]
            == sep,
{
    if s.contains(sep) {
        s.index_of_first_ensures(sep);
        let i = s.index_of_first(sep).unwrap();
        assert(!s.take(i).contains(sep)) by {
            if s.take(i).contains(sep) {
                let k = choose|k: int| 0 <= k < i && s.take(i)[k] == sep;
                assert(s[k] == sep);
            }
        }
        split_first_piece(s, sep, i);
    } else {
        split_without_separator(s, sep);
    }
}

/// The first piece of `s` before the separator `sep`.
pub fn first_piece(s: &[char], sep: char) -> (r: Vec<char>)
    ensures
        r@ == split(s@, sep)[0],
{
    let mut out: Vec<char> = Vec::new();
    let mut i: usize = 0;
    while i < s.len()
        invariant
            i <= s@.len(),
            out@ == s@.take(i as int),
            !out@.contains(sep),
        decreases s@.len() - i,
    {
        if s[i] == sep {
            proof {
                split_first_piece(s@, sep, i as int);
            }
            return out;
        }
        let ghost before = out@;
        out.push(s[i]);
        assert(!out@.contains(sep)) by {
            if out@.contains(sep) {
                let k = choose|k: int| 0 <= k < out@.len() && out@[k] == sep;
                assert(before[k] == sep);
            }
        }
        i += 1;
    }
    assert(s@.take(i as int) == s@);
    proof {
        split_without_separator(s@, sep);
    }
    out
}

/// The texts that a list of character vectors stands for.
pub open spec fn piece_views(pieces: Seq<Vec<char>>) -> Seq<Seq<char>> {
    pieces.map_values(|p: Vec<char>| p@)
}

/// All pieces of `s` between the separators `sep`.
pub fn split_chars(s: &[char], sep: char) -> (r: Vec<Vec<char>>)
    ensures
        piece_views(r@) == split(s@, sep),
{
    let mut out: Vec<Vec<char>> = Vec::new();
    let mut piece: Vec<char> = Vec::new();
    let mut i: usize = 0;
    while i < s.len()
        invariant
            i <= s@.len(),
            piece_views(out@).push(piece@) == split(s@.take(i as int), sep),
        decreases s@.len() - i,
    {
        let ghost pieces = piece_views(out@).push(piece@);
        assert(s@.take(i + 1).drop_last() == s@.take(i as int));
        assert(pieces.drop_last() == piece_views(out@));
        if s[i] == sep {
            out.push(piece);
            assert(piece_views(out@) == pieces);
            piece = Vec::new();
        } else {
            piece.push(s[i]);
        }
        i += 1;
    }
    assert(s@.take(i as int) == s@);
    let ghost views = piece_views(out@);
    let ghost last = piece@;
    out.push(piece);
    assert(piece_views(out@) == views.push(last));
    out
}

/// A text stands in another if and only if the other is it with something before and
/// something behind it.
pub proof fn found_texts_stand_between<T>(hay: Seq<T>, needle: Seq<T>)
    ensures
        occurs(hay, needle) <==> exists|before: Seq<T>, after: Seq<T>|
            hay == #[trigger] (before + needle + after),
{
    if occurs(hay, needle) {
        let i = choose|i: int| occurs_at(hay, needle, i);
        let before = hay.take(i);
        let after = hay.skip(i + needle.len());
        assert(hay == before + needle + after);
    }
    if exists|before: Seq<T>, after: Seq<T>| hay == #[trigger] (before + needle + after) {
        let (before, after) = choose|before: Seq<T>, after: Seq<T>|
            hay == #[trigger] (before + needle + after);
        text_is_found(before, needle, after);
    }
}

/// A text is found wherever it stands.
pub proof fn text_is_found<T>(before: Seq<T>, needle: Seq<T>, after: Seq<T>)
    ensures
        occurs(before + needle + after, needle),
{
    let hay = before + needle + after;
    let i = before.len() as int;
    assert(hay.subrange(i, i + needle.len()) == needle);
    assert(occurs_at(hay, needle, i));
}

/// A text is found wherever it stands, in whatever case its letters are written.
pub proof fn any_case_is_found(
    before: Seq<char>,
    written: Seq<char>,
    after: Seq<char>,
    needle: Seq<char>,
)
    requires
        ascii_lower(written) == ascii_lower(needle),
    ensures
        occurs(ascii_lower(before + written + after), ascii_lower(needle)),
{
    text_is_found(ascii_lower(before), ascii_lower(needle), ascii_lower(after));
    assert(ascii_lower(before + written + after) == ascii_lower(before) + ascii_lower(needle)
        + ascii_lower(after));
}

/// A text begins with another if and only if it is that followed by something.
pub proof fn prefixes_stand_first<T>(s: Seq<T>, prefix: Seq<T>)
    ensures
        begins_with(s, prefix) <==> exists|rest: Seq<T>| s == #[trigger] (prefix + rest),
{
    if begins_with(s, prefix) {
        assert(s == prefix + s.skip(prefix.len() as int));
    }
    if exists|rest: Seq<T>| s == #[trigger] (prefix + rest) {
        let rest = choose|rest: Seq<T>| s == #[trigger] (prefix + rest);
        assert((prefix + rest).take(prefix.len() as int) == prefix);
    }
}

/// Lower case keeps every character but the letters from `A` to `Z`, each of which
/// becomes the small letter with the same name.
pub proof fn lower_case_changes_capitals_only(s: Seq<char>, i: int)
    requires
        0 <= i < s.len(),
    ensures
        ascii_lower(s).len() == s.len(),
        'A' <= s[i] && s[i] <= 'Z' ==> ascii_lower(s)[i] as int == s[i] as int - 'A' as int
            + 'a' as int,
        !('A' <= s[i] && s[i] <= 'Z') ==> ascii_lower(s)[i] == s[i],
{
}

/// Bytes are read as the characters with their numbers.
pub proof fn bytes_are_read_one_by_one(bytes: Seq<u8>, i: int)
    requires
        0 <= i < bytes.len(),
    ensures
        latin1(bytes).len() == bytes.len(),
        latin1(bytes)[i] as int == bytes[i] as int,
{
}

/// Splitting cuts at every separator: what stands before one and what stands behind
/// it are split for themselves.
pub proof fn split_cuts_at_separators(a: Seq<char>, sep: char, b: Seq<char>)
    ensures
        split(a + seq![sep] + b, sep) == split(a, sep) + split(b, sep),
    decreases b.len(),
{
    let s = a + seq![sep] + b;
    pieces_exist(a, sep);
    if b.len() == 0 {
        assert(s.drop_last() == a);
        assert(split(b, sep) == seq![Seq::<char>::empty()]);
        assert(split(s, sep) == split(a, sep).push(Seq::empty()));
    } else {
        let p = b.drop_last();
        assert(s.drop_last() == a + seq![sep] + p);
        split_cuts_at_separators(a, sep, p);
        pieces_exist(p, sep);
        let left = split(a, sep);
        let right = split(p, sep);
        assert(s.last() == b.last());
        assert((left + right).last() == right.last());
        assert((left + right).drop_last() == left + right.drop_last());
        if b.last() == sep {
            assert((left + right).push(Seq::empty()) == left + right.push(Seq::empty()));
        } else {
            let piece = right.last().push(b.last());
            assert((left + right.drop_last()).push(piece) == left + right.drop_last().push(piece));
        }
    }
}

/// There is always a piece.
proof fn pieces_exist(s: Seq<char>, sep: char)
    ensures
        split(s, sep).len() >= 1,
    decreases s.len(),
{
    if s.len() > 0 {
        pieces_exist(s.drop_last(), sep);
    }
}

/// Joining the pieces with the separator gives the text back.
pub open spec fn joined(pieces: Seq<Seq<char>>, sep: char) -> Seq<char>
    decreases pieces.len(),
{
    if pieces.len() == 0 {
        Seq::empty()
    } else if pieces.len() == 1 {
        pieces[0]
    } else {
        joined(pieces.drop_last(), sep) + seq![sep] + pieces.last()
    }
}

/// Pieces that hold no separator are what the text that joins them is split into.
pub proof fn split_undoes_joining(pieces: Seq<Seq<char>>, sep: char)
    requires
        pieces.len() > 0,
        forall|i: int| 0 <= i < pieces.len() ==> !(#[trigger] pieces[i]).contains(sep),
    ensures
        split(joined(pieces, sep), sep) == pieces,
    decreases pieces.len(),
{
    if pieces.len() == 1 {
        split_without_separator(pieces[0], sep);
        assert(pieces == seq![pieces[0]]);
    } else {
        let init = pieces.drop_last();
        split_undoes_joining(init, sep);
        split_cuts_at_separators(joined(init, sep), sep, pieces.last());
        assert(!pieces[pieces.len() - 1].contains(sep));
        split_without_separator(pieces.last(), sep);
        assert(init + seq![pieces.last()] == pieces);
    }
}

/// The bytes of a text are read as that text.
pub proof fn encoded_text_is_read(text: Seq<char>)
    ensures
        read_lossily(vstd::utf8::encode_utf8(text)) == text,
{
    vstd::utf8::encode_utf8_valid_utf8(text);
    vstd::utf8::encode_utf8_decode_utf8(text);
}

} // verus!
