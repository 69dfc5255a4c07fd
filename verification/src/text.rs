//! Characters and character sequences: white space, separators, words.
//!
//! Text is modelled as `Seq<char>`. Every executable function here takes and
//! returns strings and says what it computes over that model.

use vstd::prelude::*;
use vstd::string::StringSliceAdditionalSpecFns;
use vstd::utf8::{decode_utf8, encode_utf8_decode_utf8, valid_utf8};

verus! {

/// The error of `core::str::from_utf8`. Nothing is said of what it holds.
#[verifier::external_type_specification]
#[verifier::external_body]
pub struct ExUtf8Error(core::str::Utf8Error);

/// `core::str::from_utf8` accepts exactly the byte sequences that are valid
/// UTF-8, and the string it then returns is made of the very bytes given.
pub assume_specification[ core::str::from_utf8 ](v: &[u8]) -> (r: Result<
    &str,
    core::str::Utf8Error,
>)
    ensures
        r is Ok <==> valid_utf8(v@),
        r matches Ok(s) ==> s.spec_bytes() == v@,
;

/// The text that `bytes` encode, where they are valid UTF-8.
pub open spec fn text_of(bytes: Seq<u8>) -> Option<Seq<char>> {
    if valid_utf8(bytes) {
        Some(decode_utf8(bytes))
    } else {
        None
    }
}

/// Whether `c` is white space as Unicode defines it (`White_Space`).
pub open spec fn is_space(c: char) -> bool {
    let n = c as u32;
    ||| 0x09 <= n <= 0x0D
    ||| n == 0x20
    ||| n == 0x85
    ||| n == 0xA0
    ||| n == 0x1680
    ||| 0x2000 <= n <= 0x200A
    ||| n == 0x2028
    ||| n == 0x2029
    ||| n == 0x202F
    ||| n == 0x205F
    ||| n == 0x3000
}

/// The pieces of `s` that lie between the occurrences of `sep`, in order.
/// There is one piece more than there are separators, so the result is never
/// empty, and a piece may be.
pub open spec fn pieces(s: Seq<char>, sep: char) -> Seq<Seq<char>>
    decreases s.len(),
{
    if s.len() == 0 {
        seq![Seq::<char>::empty()]
    } else {
        let before = pieces(s.drop_last(), sep);
        if s.last() == sep {
            before.push(Seq::<char>::empty())
        } else {
            before.drop_last().push(before.last().push(s.last()))
        }
    }
}

/// The parts put together again, with `sep` between neighbours.
pub open spec fn joined(parts: Seq<Seq<char>>, sep: char) -> Seq<char>
    decreases parts.len(),
{
    if parts.len() == 0 {
        Seq::<char>::empty()
    } else if parts.len() == 1 {
        parts[0]
    } else {
        joined(parts.drop_last(), sep).push(sep) + parts.last()
    }
}

/// Whether `pat` stands in `s` at position `i`.
pub open spec fn occurs_at(s: Seq<char>, pat: Seq<char>, i: int) -> bool {
    &&& 0 <= i
    &&& i + pat.len() <= s.len()
    &&& s.subrange(i, i + pat.len()) == pat
}

/// Whether `pat` stands somewhere in `s`.
pub open spec fn has_text(s: Seq<char>, pat: Seq<char>) -> bool {
    exists|i: int| occurs_at(s, pat, i)
}

/// The position reached by walking back from `n` over white space.
pub open spec fn back_over_space(s: Seq<char>, n: int) -> int
    decreases n,
{
    if 0 < n <= s.len() && is_space(s[n - 1]) {
        back_over_space(s, n - 1)
    } else {
        n
    }
}

/// The position reached by walking back from `n` over characters that are
/// not white space.
pub open spec fn back_over_word(s: Seq<char>, n: int) -> int
    decreases n,
{
    if 0 < n <= s.len() && !is_space(s[n - 1]) {
        back_over_word(s, n - 1)
    } else {
        n
    }
}

/// The position reached by walking forward from `i` over white space.
pub open spec fn over_space(s: Seq<char>, i: int) -> int
    decreases s.len() - i,
{
    if 0 <= i < s.len() && is_space(s[i]) {
        over_space(s, i + 1)
    } else {
        i
    }
}

/// Where the last word of `s` ends: the length of `s` without the white space
/// at its end.
pub open spec fn word_end(s: Seq<char>) -> int {
    back_over_space(s, s.len() as int)
}

/// Where the last word of `s` begins.
pub open spec fn word_start(s: Seq<char>) -> int {
    back_over_word(s, word_end(s))
}

/// The last of the words of `s` that white space separates; empty where `s`
/// holds nothing but white space.
pub open spec fn final_word(s: Seq<char>) -> Seq<char> {
    s.subrange(word_start(s), word_end(s))
}

/// `s` without the white space at its two ends.
pub open spec fn stripped(s: Seq<char>) -> Seq<char> {
    let from = over_space(s, 0);
    let to = word_end(s);
    if from < to {
        s.subrange(from, to)
    } else {
        Seq::<char>::empty()
    }
}

/// Walking back over white space from `n` stops within the sequence, passes
/// nothing but white space, and stops at the start or behind a character
/// that is none.
pub proof fn back_over_space_stops(s: Seq<char>, n: int)
    requires
        0 <= n <= s.len(),
    ensures
        0 <= back_over_space(s, n) <= n,
        forall|i: int| back_over_space(s, n) <= i < n ==> is_space(s[i]),
        back_over_space(s, n) > 0 ==> !is_space(s[back_over_space(s, n) - 1]),
    decreases n,
{
    if 0 < n && is_space(s[n - 1]) {
        back_over_space_stops(s, n - 1);
    }
}

/// Walking back over a word from `n` stops within the sequence, passes no
/// white space, and stops at the start or behind white space.
pub proof fn back_over_word_stops(s: Seq<char>, n: int)
    requires
        0 <= n <= s.len(),
    ensures
        0 <= back_over_word(s, n) <= n,
        forall|i: int| back_over_word(s, n) <= i < n ==> !is_space(s[i]),
        back_over_word(s, n) > 0 ==> is_space(s[back_over_word(s, n) - 1]),
    decreases n,
{
    if 0 < n && !is_space(s[n - 1]) {
        back_over_word_stops(s, n - 1);
    }
}

/// Walking forward over white space from `i` stops within the sequence,
/// passes nothing but white space, and stops at the end or at a character
/// that is none.
pub proof fn over_space_stops(s: Seq<char>, i: int)
    requires
        0 <= i <= s.len(),
    ensures
        i <= over_space(s, i) <= s.len(),
        forall|k: int| i <= k < over_space(s, i) ==> is_space(s[k]),
        over_space(s, i) < s.len() ==> !is_space(s[over_space(s, i)]),
    decreases s.len() - i,
{
    if i < s.len() && is_space(s[i]) {
        over_space_stops(s, i + 1);
    }
}

/// The last word is what stands between the white space at the end of the
/// text and the white space before that: it holds no white space, only white
/// space follows it, and white space or nothing stands before it. It is
/// empty only where the text is white space throughout.
pub proof fn final_word_is_last_word(s: Seq<char>)
    ensures
        0 <= word_start(s) <= word_end(s) <= s.len(),
        forall|i: int| word_end(s) <= i < s.len() ==> is_space(s[i]),
        forall|i: int| word_start(s) <= i < word_end(s) ==> !is_space(s[i]),
        word_start(s) > 0 ==> is_space(s[word_start(s) - 1]),
        final_word(s).len() == 0 <==> forall|i: int| 0 <= i < s.len() ==> is_space(s[i]),
{
    back_over_space_stops(s, s.len() as int);
    back_over_word_stops(s, word_end(s));
}

/// Stripping takes white space from the two ends and nothing else: what is
/// left neither begins nor ends with white space, and it is empty only where
/// the text is white space throughout.
pub proof fn stripped_is_the_middle(s: Seq<char>)
    ensures
        0 <= over_space(s, 0) <= s.len(),
        0 <= word_end(s) <= s.len(),
        forall|i: int| 0 <= i < over_space(s, 0) ==> is_space(s[i]),
        forall|i: int| word_end(s) <= i < s.len() ==> is_space(s[i]),
        over_space(s, 0) < word_end(s) ==> {
            &&& stripped(s) == s.subrange(over_space(s, 0), word_end(s))
            &&& !is_space(stripped(s).first())
            &&& !is_space(stripped(s).last())
        },
        over_space(s, 0) >= word_end(s) ==> {
            &&& stripped(s).len() == 0
            &&& forall|i: int| 0 <= i < s.len() ==> is_space(s[i])
        },
{
    back_over_space_stops(s, s.len() as int);
    over_space_stops(s, 0);
}

/// There is at least one piece.
pub proof fn pieces_are_some(s: Seq<char>, sep: char)
    ensures
        pieces(s, sep).len() >= 1,
{
}

/// No piece holds the separator.
pub proof fn pieces_hold_no_separator(s: Seq<char>, sep: char)
    ensures
        forall|k: int| 0 <= k < pieces(s, sep).len() ==> !(#[trigger] pieces(s, sep)[k]).contains(sep),
    decreases s.len(),
{
    if s.len() > 0 {
        pieces_hold_no_separator(s.drop_last(), sep);
        if s.last() != sep {
            let last = pieces(s.drop_last(), sep).last();
            assert forall|i: int| 0 <= i < last.len() + 1 implies last.push(s.last())[i] != sep by {
                if i < last.len() {
                    assert(last[i] != sep);
                }
            }
        }
    }
}

/// The pieces, joined with the separator, are the text again.
pub proof fn pieces_join_back(s: Seq<char>, sep: char)
    ensures
        joined(pieces(s, sep), sep) == s,
    decreases s.len(),
{
    if s.len() > 0 {
        let before = pieces(s.drop_last(), sep);
        pieces_join_back(s.drop_last(), sep);
        assert(s.drop_last().push(s.last()) =~= s);
        assert(pieces(s, sep).drop_last() =~= if s.last() == sep {
            before
        } else {
            before.drop_last()
        });
    }
}

/// Text without a separator, put behind other text, lengthens the last
/// piece and leaves the pieces before it as they are.
pub proof fn pieces_of_longer_text(a: Seq<char>, b: Seq<char>, sep: char)
    requires
        !b.contains(sep),
    ensures
        pieces(a, sep).len() >= 1,
        pieces(a + b, sep) == pieces(a, sep).drop_last().push(pieces(a, sep).last() + b),
    decreases b.len(),
{
    if b.len() > 0 {
        let short = b.drop_last();
        assert forall|i: int| 0 <= i < short.len() implies short[i] != sep by {
            assert(b[i] != sep);
        }
        assert(b[b.len() - 1] != sep);
        pieces_of_longer_text(a, short, sep);
        assert((a + b).drop_last() =~= a + short);
        assert((pieces(a, sep).last() + short).push(b.last()) =~= pieces(a, sep).last() + b);
    }
}

/// Parts that hold no separator are the pieces of what they join to. With
/// [`pieces_join_back`] and [`pieces_hold_no_separator`] this says that the
/// pieces of a text are the one way to cut it at its separators.
pub proof fn pieces_of_joined(parts: Seq<Seq<char>>, sep: char)
    requires
        parts.len() >= 1,
        forall|k: int| 0 <= k < parts.len() ==> !(#[trigger] parts[k]).contains(sep),
    ensures
        pieces(joined(parts, sep), sep) == parts,
    decreases parts.len(),
{
    if parts.len() == 1 {
        pieces_of_longer_text(Seq::<char>::empty(), parts[0], sep);
    } else {
        let init = parts.drop_last();
        assert forall|k: int| 0 <= k < init.len() implies !(#[trigger] init[k]).contains(sep) by {
            assert(init[k] == parts[k]);
        }
        pieces_of_joined(init, sep);
        let head = joined(init, sep).push(sep);
        assert(head.drop_last() =~= joined(init, sep));
        pieces_of_longer_text(head, parts.last(), sep);
    }
}

/// Tests a character for white space.
pub fn is_whitespace(c: char) -> (r: bool)
    ensures
        r == is_space(c),
{
    let n: u32 = c as u32;
    (0x09 <= n && n <= 0x0D) || n == 0x20 || n == 0x85 || n == 0xA0 || n == 0x1680 || (0x2000 <= n
        && n <= 0x200A) || n == 0x2028 || n == 0x2029 || n == 0x202F || n == 0x205F || n == 0x3000
}

/// The characters of a string, in order.
pub fn chars_of(s: &str) -> (v: Vec<char>)
    ensures
        v@ == s@,
{
    broadcast use vstd::string::group_string_axioms;

    let mut v: Vec<char> = Vec::new();
    for c in it: s.chars()
        invariant
            it.seq() == s@,
            v@ == it.seq().take(it.index()),
    {
        v.push(c);
    }
    v
}

/// The sub-sequences of `s` that the ranges pick out.
spec fn cut(s: Seq<char>, ranges: Seq<(usize, usize)>) -> Seq<Seq<char>> {
    Seq::new(ranges.len(), |k: int| s.subrange(ranges[k].0 as int, ranges[k].1 as int))
}

/// Whether every range is ordered and ends within `len`.
spec fn within(ranges: Seq<(usize, usize)>, len: int) -> bool {
    forall|k: int| 0 <= k < ranges.len() ==> (#[trigger] ranges[k]).0 <= ranges[k].1 <= len
}

/// Where the pieces of `v` between separators begin and end.
fn piece_ranges(v: &Vec<char>, sep: char) -> (r: Vec<(usize, usize)>)
    ensures
        within(r@, v@.len() as int),
        cut(v@, r@) == pieces(v@, sep),
{
    let mut r: Vec<(usize, usize)> = Vec::new();
    let mut start: usize = 0;
    let mut i: usize = 0;
    proof {
        assert(v@.take(0) =~= Seq::<char>::empty());
    }
    while i < v.len()
        invariant
            start <= i <= v.len(),
            within(r@, i as int),
            pieces(v@.take(i as int), sep) == cut(v@, r@).push(
                v@.subrange(start as int, i as int),
            ),
        decreases v.len() - i,
    {
        proof {
            assert(v@.take(i + 1).drop_last() =~= v@.take(i as int));
        }
        if v[i] == sep {
            r.push((start, i));
            proof {
                assert(v@.subrange(i + 1, i + 1) =~= Seq::<char>::empty());
            }
            start = i + 1;
        } else {
            proof {
                assert(v@.subrange(start as int, i as int).push(v@[i as int]) =~= v@.subrange(
                    start as int,
                    i + 1,
                ));
            }
        }
        i = i + 1;
    }
    proof {
        assert(v@.take(i as int) =~= v@);
    }
    r.push((start, i));
    r
}

/// Splits a string at every occurrence of `sep`.
pub fn split(s: &str, sep: char) -> (r: Vec<String>)
    ensures
        r.deep_view() == pieces(s@, sep),
{
    let v = chars_of(s);
    let ranges = piece_ranges(&v, sep);
    let mut r: Vec<String> = Vec::new();
    let mut k: usize = 0;
    while k < ranges.len()
        invariant
            k <= ranges.len(),
            v@ == s@,
            within(ranges@, v@.len() as int),
            r.deep_view() == cut(v@, ranges@).take(k as int),
        decreases ranges.len() - k,
    {
        let (from, to): (usize, usize) = ranges[k];
        r.push(s.substring_char(from, to).to_owned());
        proof {
            assert(cut(v@, ranges@).take(k + 1) =~= cut(v@, ranges@).take(k as int).push(
                cut(v@, ranges@)[k as int],
            ));
        }
        k = k + 1;
    }
    r
}

/// Whether `pat` stands in `hay` at position `i`.
fn matches_at(hay: &Vec<char>, pat: &Vec<char>, i: usize) -> (r: bool)
    requires
        i + pat.len() <= hay.len(),
    ensures
        r == occurs_at(hay@, pat@, i as int),
{
    let mut j: usize = 0;
    while j < pat.len()
        invariant
            j <= pat.len(),
            i + pat.len() <= hay.len(),
            forall|k: int| 0 <= k < j ==> hay@[i + k] == pat@[k],
        decreases pat.len() - j,
    {
        if hay[i + j] != pat[j] {
            return false;
        }
        j = j + 1;
    }
    proof {
        assert(hay@.subrange(i as int, i + pat@.len()) =~= pat@);
    }
    true
}

/// Tests whether `pat` stands somewhere in `s`.
pub fn contains(s: &str, pat: &str) -> (r: bool)
    ensures
        r == has_text(s@, pat@),
{
    let hay = chars_of(s);
    let p = chars_of(pat);
    if p.len() > hay.len() {
        return false;
    }
    let last: usize = hay.len() - p.len();
    let mut i: usize = 0;
    while i < last
        invariant
            i <= last,
            last == hay.len() - p.len(),
            hay@ == s@,
            p@ == pat@,
            forall|k: int| 0 <= k < i ==> !occurs_at(hay@, p@, k),
        decreases last - i,
    {
        if matches_at(&hay, &p, i) {
            return true;
        }
        i = i + 1;
    }
    matches_at(&hay, &p, last)
}

/// Walks back from `n` over white space.
fn rewind_space(v: &Vec<char>, n: usize) -> (r: usize)
    requires
        n <= v.len(),
    ensures
        r == back_over_space(v@, n as int),
        r <= n,
{
    let mut k: usize = n;
    while k > 0 && is_whitespace(v[k - 1])
        invariant
            k <= n <= v.len(),
            back_over_space(v@, k as int) == back_over_space(v@, n as int),
        decreases k,
    {
        k = k - 1;
    }
    k
}

/// Walks back from `n` over characters that are not white space.
fn rewind_word(v: &Vec<char>, n: usize) -> (r: usize)
    requires
        n <= v.len(),
    ensures
        r == back_over_word(v@, n as int),
        r <= n,
{
    let mut k: usize = n;
    while k > 0 && !is_whitespace(v[k - 1])
        invariant
            k <= n <= v.len(),
            back_over_word(v@, k as int) == back_over_word(v@, n as int),
        decreases k,
    {
        k = k - 1;
    }
    k
}

/// Walks forward from the start over white space.
fn skip_space(v: &Vec<char>) -> (r: usize)
    ensures
        r == over_space(v@, 0),
        r <= v.len(),
{
    let mut k: usize = 0;
    while k < v.len() && is_whitespace(v[k])
        invariant
            k <= v.len(),
            over_space(v@, k as int) == over_space(v@, 0),
        decreases v.len() - k,
    {
        k = k + 1;
    }
    k
}

/// The last of the words of `s` that white space separates; empty where
/// there is none.
pub fn last_word(s: &str) -> (r: String)
    ensures
        r@ == final_word(s@),
{
    let v = chars_of(s);
    let to: usize = rewind_space(&v, v.len());
    let from: usize = rewind_word(&v, to);
    s.substring_char(from, to).to_owned()
}

/// `s` without the white space at its two ends.
pub fn trim(s: &str) -> (r: String)
    ensures
        r@ == stripped(s@),
{
    let v = chars_of(s);
    let from: usize = skip_space(&v);
    let to: usize = rewind_space(&v, v.len());
    if from < to {
        s.substring_char(from, to).to_owned()
    } else {
        String::new()
    }
}

/// Reads bytes as UTF-8 text; `None` where they are not.
pub fn decode(bytes: &[u8]) -> (r: Option<&str>)
    ensures
        r.deep_view() == text_of(bytes@),
{
    match core::str::from_utf8(bytes) {
        Ok(s) => {
            proof {
                encode_utf8_decode_utf8(s@);
            }
            Some(s)
        },
        Err(_) => None,
    }
}

} // verus!
