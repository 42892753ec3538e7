//! Text as sequences of Unicode scalar values.
//!
//! Every string the library reads or builds is described by its view, a
//! `Seq<char>`. The specification functions here name the operations the other
//! modules speak of (trimming, words, decimal numerals, padding); the executable
//! functions beside them compute those operations on character slices.

use vstd::prelude::*;
use vstd::slice::slice_subrange;
use vstd::string::StringExecFns;

verus! {

/// `String::push` appends one character to the end of the string.
pub assume_specification[ String::push ](s: &mut String, c: char)
    ensures
        final(s)@ == old(s)@.push(c),
;

/// The quoted and escaped form that `std` gives a string under `{:?}`.
pub uninterp spec fn debug_text(s: Seq<char>) -> Seq<char>;

/// Formats a string with the `Debug` implementation of `str`. The contract only
/// names the result: it is a function of the characters alone.
#[verifier::external_body]
pub(crate) fn debug_string(s: &str) -> (r: String)
    ensures
        r@ == debug_text(s@),
{
    format!("{:?}", s)
}

/// The characters of a string, in order.
pub fn chars_of(s: &str) -> (v: Vec<char>)
    ensures
        v@ == s@,
{
    let mut v: Vec<char> = Vec::new();
    for c in it: s.chars()
        invariant
            v@ == s@.take(it.index() as int),
            it.seq() == s@,
    {
        v.push(c);
        assert(s@.take(it.index() as int + 1) == s@.take(it.index() as int).push(c));
    }
    assert(s@.take(s@.len() as int) == s@);
    v
}

/// The string made of the given characters.
pub fn string_of(v: &[char]) -> (s: String)
    ensures
        s@ == v@,
{
    let mut s = String::new();
    let mut i: usize = 0;
    while i < v.len()
        invariant
            i <= v.len(),
            s@ == v@.take(i as int),
        decreases v.len() - i,
    {
        s.push(v[i]);
        assert(v@.take(i as int + 1) == v@.take(i as int).push(v[i as int]));
        i = i + 1;
    }
    assert(v@.take(v@.len() as int) == v@);
    s
}

/// The views of a list of strings.
pub open spec fn texts(v: Seq<String>) -> Seq<Seq<char>> {
    v.map_values(|s: String| s@)
}

/// The view of an optional string.
pub open spec fn opt_view(s: Option<String>) -> Option<Seq<char>> {
    match s {
        Some(t) => Some(t@),
        None => None,
    }
}

/// The view of an optional string slice.
pub open spec fn opt_text(s: Option<&str>) -> Option<Seq<char>> {
    match s {
        Some(t) => Some(t@),
        None => None,
    }
}

/// The classes of characters that scanning and trimming distinguish.
#[derive(Clone, Copy, Debug, PartialEq, Eq)]
pub enum CharClass {
    /// Unicode white space.
    Space,
    /// Single or double quotation mark.
    Quote,
    /// White space or quotation mark.
    SpaceOrQuote,
    /// Exactly this character.
    Only(char),
}

/// The characters with the Unicode property `White_Space`.
pub open spec fn is_space(c: char) -> bool {
    ||| '\u{9}' <= c <= '\u{d}'
    ||| c == ' '
    ||| c == '\u{85}'
    ||| c == '\u{a0}'
    ||| c == '\u{1680}'
    ||| '\u{2000}' <= c <= '\u{200a}'
    ||| c == '\u{2028}'
    ||| c == '\u{2029}'
    ||| c == '\u{202f}'
    ||| c == '\u{205f}'
    ||| c == '\u{3000}'
}

/// The characters of the Unicode general category `Cc`.
pub open spec fn is_control(c: char) -> bool {
    c <= '\u{1f}' || '\u{7f}' <= c <= '\u{9f}'
}

/// Membership of a character in a class.
pub open spec fn in_class(k: CharClass, c: char) -> bool {
    match k {
        CharClass::Space => is_space(c),
        CharClass::Quote => c == '"' || c == '\'',
        CharClass::SpaceOrQuote => is_space(c) || c == '"' || c == '\'',
        CharClass::Only(d) => c == d,
    }
}

/// Tests for Unicode white space.
pub fn char_is_space(c: char) -> (b: bool)
    ensures
        b == is_space(c),
{
    ('\u{9}' <= c && c <= '\u{d}') || c == ' ' || c == '\u{85}' || c == '\u{a0}' || c
        == '\u{1680}' || ('\u{2000}' <= c && c <= '\u{200a}') || c == '\u{2028}' || c
        == '\u{2029}' || c == '\u{202f}' || c == '\u{205f}' || c == '\u{3000}'
}

/// Tests for a control character.
pub fn char_is_control(c: char) -> (b: bool)
    ensures
        b == is_control(c),
{
    c <= '\u{1f}' || ('\u{7f}' <= c && c <= '\u{9f}')
}

/// Tests a character for membership in a class.
pub fn char_in_class(k: CharClass, c: char) -> (b: bool)
    ensures
        b == in_class(k, c),
{
    match k {
        CharClass::Space => char_is_space(c),
        CharClass::Quote => c == '"' || c == '\'',
        CharClass::SpaceOrQuote => char_is_space(c) || c == '"' || c == '\'',
        CharClass::Only(d) => c == d,
    }
}

/// `s` without its longest prefix of characters in `k`.
pub open spec fn strip_left(s: Seq<char>, k: CharClass) -> Seq<char>
    decreases s.len(),
{
    if s.len() > 0 && in_class(k, s[0]) {
        strip_left(s.drop_first(), k)
    } else {
        s
    }
}

/// `s` without its longest suffix of characters in `k`.
pub open spec fn strip_right(s: Seq<char>, k: CharClass) -> Seq<char>
    decreases s.len(),
{
    if s.len() > 0 && in_class(k, s.last()) {
        strip_right(s.drop_last(), k)
    } else {
        s
    }
}

/// `s` without the characters of `k` at either end.
pub open spec fn strip_both(s: Seq<char>, k: CharClass) -> Seq<char> {
    strip_right(strip_left(s, k), k)
}

/// `s` without surrounding white space.
pub open spec fn trim(s: Seq<char>) -> Seq<char> {
    strip_both(s, CharClass::Space)
}

/// How many characters of `s` precede the first one in `k`.
pub open spec fn until(s: Seq<char>, k: CharClass) -> nat
    decreases s.len(),
{
    if s.len() > 0 && !in_class(k, s[0]) {
        1 + until(s.drop_first(), k)
    } else {
        0
    }
}

/// Removes the leading characters in `k`.
pub fn slice_strip_left<'a>(s: &'a [char], k: CharClass) -> (r: &'a [char])
    ensures
        r@ == strip_left(s@, k),
{
    let mut i: usize = 0;
    assert(s@.skip(0) == s@);
    while i < s.len() && char_in_class(k, s[i])
        invariant
            i <= s.len(),
            strip_left(s@, k) == strip_left(s@.skip(i as int), k),
        decreases s.len() - i,
    {
        assert(s@.skip(i as int).drop_first() == s@.skip(i as int + 1));
        i = i + 1;
    }
    slice_subrange(s, i, s.len())
}

/// Removes the trailing characters in `k`.
pub fn slice_strip_right<'a>(s: &'a [char], k: CharClass) -> (r: &'a [char])
    ensures
        r@ == strip_right(s@, k),
{
    let mut n: usize = s.len();
    assert(s@.take(s@.len() as int) == s@);
    while n > 0 && char_in_class(k, s[n - 1])
        invariant
            n <= s.len(),
            strip_right(s@, k) == strip_right(s@.take(n as int), k),
        decreases n,
    {
        assert(s@.take(n as int).drop_last() == s@.take(n as int - 1));
        n = n - 1;
    }
    assert(s@.take(n as int) == s@.subrange(0, n as int));
    slice_subrange(s, 0, n)
}

/// Removes the characters in `k` at either end.
pub fn slice_strip_both<'a>(s: &'a [char], k: CharClass) -> (r: &'a [char])
    ensures
        r@ == strip_both(s@, k),
{
    slice_strip_right(slice_strip_left(s, k), k)
}

/// Removes surrounding white space.
pub fn slice_trim<'a>(s: &'a [char]) -> (r: &'a [char])
    ensures
        r@ == trim(s@),
{
    slice_strip_both(s, CharClass::Space)
}

/// Counts the characters before the first one in `k`.
pub fn slice_until(s: &[char], k: CharClass) -> (n: usize)
    ensures
        n == until(s@, k),
        n <= s@.len(),
{
    let mut i: usize = 0;
    assert(s@.skip(0) == s@);
    while i < s.len() && !char_in_class(k, s[i])
        invariant
            i <= s.len(),
            until(s@, k) == i + until(s@.skip(i as int), k),
        decreases s.len() - i,
    {
        assert(s@.skip(i as int).drop_first() == s@.skip(i as int + 1));
        i = i + 1;
    }
    i
}

/// Stripping on the left leaves a suffix that does not start in `k`.
pub proof fn lemma_strip_left(s: Seq<char>, k: CharClass)
    ensures
        strip_left(s, k).len() <= s.len(),
        strip_left(s, k) == s.skip(s.len() - strip_left(s, k).len()),
        strip_left(s, k).len() > 0 ==> !in_class(k, strip_left(s, k)[0]),
        forall|i: int| 0 <= i < s.len() - strip_left(s, k).len() ==> in_class(k, #[trigger] s[i]),
    decreases s.len(),
{
    if s.len() > 0 && in_class(k, s[0]) {
        lemma_strip_left(s.drop_first(), k);
        let t = strip_left(s, k);
        assert(s.drop_first().skip(s.len() - 1 - t.len()) == s.skip(s.len() - t.len()));
        assert forall|i: int| 0 <= i < s.len() - t.len() implies in_class(k, #[trigger] s[i]) by {
            if i > 0 {
                assert(s.drop_first()[i - 1] == s[i]);
            }
        }
    } else {
        assert(s.skip(0) == s);
    }
}

/// Stripping on the right leaves a prefix that does not end in `k`.
pub proof fn lemma_strip_right(s: Seq<char>, k: CharClass)
    ensures
        strip_right(s, k).len() <= s.len(),
        strip_right(s, k) == s.take(strip_right(s, k).len() as int),
        strip_right(s, k).len() > 0 ==> !in_class(k, strip_right(s, k).last()),
    decreases s.len(),
{
    if s.len() > 0 && in_class(k, s.last()) {
        lemma_strip_right(s.drop_last(), k);
        let t = strip_right(s, k);
        assert(s.drop_last().take(t.len() as int) == s.take(t.len() as int));
    } else {
        assert(s.take(s.len() as int) == s);
    }
}

/// The first `until(s, k)` characters are outside `k` and the next one, if any, is in it.
pub proof fn lemma_until(s: Seq<char>, k: CharClass)
    ensures
        until(s, k) <= s.len(),
        forall|i: int| 0 <= i < until(s, k) ==> !in_class(k, #[trigger] s[i]),
        until(s, k) < s.len() ==> in_class(k, s[until(s, k) as int]),
    decreases s.len(),
{
    if s.len() > 0 && !in_class(k, s[0]) {
        lemma_until(s.drop_first(), k);
        assert forall|i: int| 0 <= i < until(s, k) implies !in_class(k, #[trigger] s[i]) by {
            if i > 0 {
                assert(s.drop_first()[i - 1] == s[i]);
            }
        }
    }
}

/// The maximal runs of characters outside `k`, in order.
pub open spec fn pieces(s: Seq<char>, k: CharClass) -> Seq<Seq<char>>
    decreases s.len(),
{
    let t = strip_left(s, k);
    let n = until(t, k);
    if t.len() == 0 {
        Seq::empty()
    } else {
        proof {
            lemma_strip_left(s, k);
            lemma_until(t, k);
        }
        seq![t.take(n as int)] + pieces(t.skip(n as int), k)
    }
}

/// Splits a text at the characters in `k`.
pub fn slice_pieces(s: &[char], k: CharClass) -> (r: Vec<String>)
    ensures
        texts(r@) == pieces(s@, k),
{
    let mut r: Vec<String> = Vec::new();
    let mut rest: &[char] = s;
    loop
        invariant_except_break
            texts(r@) + pieces(rest@, k) == pieces(s@, k),
        ensures
            texts(r@) == pieces(s@, k),
        decreases rest@.len(),
    {
        let ghost before = rest@;
        let t = slice_strip_left(rest, k);
        proof {
            lemma_strip_left(before, k);
        }
        if t.len() == 0 {
            assert(pieces(before, k) == Seq::<Seq<char>>::empty());
            assert(texts(r@) + pieces(before, k) == texts(r@));
            break;
        }
        let n = slice_until(t, k);
        proof {
            lemma_until(t@, k);
        }
        let piece = slice_subrange(t, 0, n);
        assert(piece@ == t@.take(n as int));
        let ghost done = texts(r@);
        r.push(string_of(piece));
        assert(texts(r@) == done.push(piece@));
        rest = slice_subrange(t, n, t.len());
        assert(rest@ == t@.skip(n as int));
        assert(done + (seq![piece@] + pieces(rest@, k)) == done.push(piece@) + pieces(rest@, k));
    }
    r
}

/// The maximal runs of characters that are not white space, in order.
pub open spec fn words(s: Seq<char>) -> Seq<Seq<char>> {
    pieces(s, CharClass::Space)
}

/// Splits a text into its words.
pub fn slice_words(s: &[char]) -> (r: Vec<String>)
    ensures
        texts(r@) == words(s@),
{
    slice_pieces(s, CharClass::Space)
}

/// The lines of a text: separated by line feeds, each without its line ending
/// (a line feed, or a carriage return and a line feed).
pub open spec fn lines(s: Seq<char>) -> Seq<Seq<char>>
    decreases s.len(),
{
    let n = until(s, CharClass::Only('\n')) as int;
    if s.len() == 0 {
        Seq::empty()
    } else if n < s.len() {
        proof {
            lemma_until(s, CharClass::Only('\n'));
        }
        seq![without_return(s.take(n))] + lines(s.skip(n + 1))
    } else {
        seq![s]
    }
}

/// `s` without one carriage return at its end.
pub open spec fn without_return(s: Seq<char>) -> Seq<char> {
    if s.len() > 0 && s.last() == '\r' {
        s.drop_last()
    } else {
        s
    }
}

/// Splits a text into its lines.
pub fn slice_lines(s: &[char]) -> (r: Vec<String>)
    ensures
        texts(r@) == lines(s@),
{
    let mut r: Vec<String> = Vec::new();
    let mut rest: &[char] = s;
    while rest.len() > 0
        invariant
            texts(r@) + lines(rest@) == lines(s@),
        decreases rest@.len(),
    {
        let ghost before = rest@;
        let ghost done = texts(r@);
        let n = slice_until(rest, CharClass::Only('\n'));
        proof {
            lemma_until(before, CharClass::Only('\n'));
        }
        if n < rest.len() {
            let mut end: usize = n;
            if end > 0 && rest[end - 1] == '\r' {
                end = end - 1;
            }
            let line = slice_subrange(rest, 0, end);
            assert(line@ == without_return(before.take(n as int)));
            r.push(string_of(line));
            assert(texts(r@) == done.push(line@));
            rest = slice_subrange(rest, n + 1, rest.len());
            assert(rest@ == before.skip(n as int + 1));
            assert(done + (seq![line@] + lines(rest@)) == done.push(line@) + lines(rest@));
        } else {
            r.push(string_of(rest));
            assert(texts(r@) == done.push(before));
            rest = slice_subrange(rest, rest.len(), rest.len());
            assert(done + seq![before] == done.push(before) + lines(rest@));
        }
    }
    assert(texts(r@) + lines(rest@) == texts(r@));
    r
}

/// The lower-case form of an ASCII letter; any other character unchanged.
pub open spec fn lower(c: char) -> char {
    if 'A' <= c <= 'Z' {
        (c as int + 32) as char
    } else {
        c
    }
}

/// A text with its ASCII letters in lower case.
pub open spec fn lower_all(s: Seq<char>) -> Seq<char> {
    s.map_values(|c: char| lower(c))
}

/// Lowers one ASCII letter.
pub fn char_lower(c: char) -> (r: char)
    ensures
        r == lower(c),
{
    if 'A' <= c && c <= 'Z' {
        ((c as u8) + 32u8) as char
    } else {
        c
    }
}

/// Lowers the ASCII letters of a text.
pub fn slice_lower(s: &[char]) -> (r: Vec<char>)
    ensures
        r@ == lower_all(s@),
{
    let mut r: Vec<char> = Vec::new();
    let mut i: usize = 0;
    while i < s.len()
        invariant
            i <= s.len(),
            r@ == lower_all(s@.take(i as int)),
        decreases s.len() - i,
    {
        r.push(char_lower(s[i]));
        assert(lower_all(s@.take(i as int + 1)) == lower_all(s@.take(i as int)).push(lower(s[i as int])));
        i = i + 1;
    }
    assert(s@.take(s@.len() as int) == s@);
    r
}

/// Compares two texts.
pub fn slice_eq(a: &[char], b: &[char]) -> (r: bool)
    ensures
        r == (a@ == b@),
{
    if a.len() != b.len() {
        return false;
    }
    let mut i: usize = 0;
    while i < a.len()
        invariant
            i <= a.len(),
            a.len() == b.len(),
            forall|j: int| 0 <= j < i ==> a@[j] == b@[j],
        decreases a.len() - i,
    {
        if a[i] != b[i] {
            return false;
        }
        i = i + 1;
    }
    assert(a@ =~= b@);
    true
}

/// Compares two strings.
pub fn str_eq(a: &str, b: &str) -> (r: bool)
    ensures
        r == (a@ == b@),
{
    let x = chars_of(a);
    let y = chars_of(b);
    slice_eq(x.as_slice(), y.as_slice())
}

/// Compares a text with a string.
pub fn slice_is(a: &[char], b: &str) -> (r: bool)
    ensures
        r == (a@ == b@),
{
    let y = chars_of(b);
    slice_eq(a, y.as_slice())
}

/// `p` stands at position `i` of `s`.
pub open spec fn occurs_at(s: Seq<char>, p: Seq<char>, i: int) -> bool {
    0 <= i && i + p.len() <= s.len() && s.subrange(i, i + p.len()) == p
}

/// `s` begins with `p`.
pub open spec fn starts_with(s: Seq<char>, p: Seq<char>) -> bool {
    occurs_at(s, p, 0)
}

/// `p` stands somewhere in `s`.
pub open spec fn contains_text(s: Seq<char>, p: Seq<char>) -> bool {
    exists|i: int| occurs_at(s, p, i)
}

/// Tests whether `p` stands at position `i` of `s`.
pub fn slice_occurs_at(s: &[char], p: &[char], i: usize) -> (r: bool)
    ensures
        r == occurs_at(s@, p@, i as int),
{
    if i > s.len() || p.len() > s.len() - i {
        return false;
    }
    slice_eq(slice_subrange(s, i, i + p.len()), p)
}

/// Tests whether `s` begins with `p`.
pub fn slice_starts_with(s: &[char], p: &[char]) -> (r: bool)
    ensures
        r == starts_with(s@, p@),
{
    slice_occurs_at(s, p, 0)
}

/// The leftmost occurrence of `p` in `s` at or after position `from`.
pub open spec fn first_at(s: Seq<char>, p: Seq<char>, from: int) -> Option<int>
    decreases s.len() + 1 - from,
{
    if from < 0 || from > s.len() {
        None
    } else if occurs_at(s, p, from) {
        Some(from)
    } else {
        first_at(s, p, from + 1)
    }
}

/// `first_at` finds the least position at which `p` occurs.
pub proof fn lemma_first_at(s: Seq<char>, p: Seq<char>, from: int)
    requires
        0 <= from,
    ensures
        match first_at(s, p, from) {
            Some(i) => {
                &&& from <= i
                &&& occurs_at(s, p, i)
                &&& forall|j: int| from <= j < i ==> !occurs_at(s, p, j)
            },
            None => forall|j: int| from <= j ==> !occurs_at(s, p, j),
        },
    decreases s.len() + 1 - from,
{
    if from <= s.len() && !occurs_at(s, p, from) {
        lemma_first_at(s, p, from + 1);
    }
}

/// Finds the leftmost occurrence of `p` in `s` at or after `from`.
pub fn slice_find(s: &[char], p: &[char], from: usize) -> (r: Option<usize>)
    requires
        from <= s@.len(),
    ensures
        match r {
            Some(i) => first_at(s@, p@, from as int) == Some(i as int) && i + p@.len() <= s@.len(),
            None => first_at(s@, p@, from as int) is None,
        },
{
    let mut i: usize = from;
    loop
        invariant
            from <= i <= s.len(),
            first_at(s@, p@, from as int) == first_at(s@, p@, i as int),
        decreases s.len() - i,
    {
        if slice_occurs_at(s, p, i) {
            return Some(i);
        }
        assert(first_at(s@, p@, i as int) == first_at(s@, p@, i as int + 1));
        if i == s.len() {
            assert(first_at(s@, p@, i as int + 1) is None);
            return None;
        }
        i = i + 1;
    }
}

/// Tests whether `p` stands somewhere in `s`.
pub fn slice_contains(s: &[char], p: &[char]) -> (r: bool)
    ensures
        r == contains_text(s@, p@),
{
    proof {
        lemma_first_at(s@, p@, 0);
    }
    match slice_find(s, p, 0) {
        Some(_) => true,
        None => {
            assert forall|i: int| !occurs_at(s@, p@, i) by {
                if 0 <= i {
                    assert(!occurs_at(s@, p@, i));
                }
            }
            false
        },
    }
}

/// Tests whether some character of `s` is in `k`.
pub fn slice_has(s: &[char], k: CharClass) -> (r: bool)
    ensures
        r == exists|i: int| 0 <= i < s@.len() && in_class(k, #[trigger] s@[i]),
{
    let n = slice_until(s, k);
    proof {
        lemma_until(s@, k);
    }
    n < s.len()
}

/// The character of a decimal digit.
pub open spec fn digit_char(d: int) -> char {
    ('0' as int + d) as char
}

/// The decimal numeral of a natural number, without leading zeros.
pub open spec fn decimal(n: nat) -> Seq<char>
    decreases n,
{
    if n < 10 {
        seq![digit_char(n as int)]
    } else {
        decimal(n / 10).push(digit_char((n % 10) as int))
    }
}

/// The decimal numeral of an integer, with a minus sign where it is negative.
pub open spec fn signed_decimal(n: int) -> Seq<char> {
    if n < 0 {
        "-"@ + decimal((-n) as nat)
    } else {
        decimal(n as nat)
    }
}

/// Writes a number in decimal.
pub fn u64_text(n: u64) -> (s: String)
    ensures
        s@ == decimal(n as nat),
    decreases n,
{
    let last: char = (48u8 + (n % 10) as u8) as char;
    assert(last == digit_char((n % 10) as int));
    if n < 10 {
        let mut s = String::new();
        s.push(last);
        s
    } else {
        let mut s = u64_text(n / 10);
        s.push(last);
        s
    }
}

/// Writes a large number in decimal.
pub fn u128_text(n: u128) -> (s: String)
    ensures
        s@ == decimal(n as nat),
    decreases n,
{
    let last: char = (48u8 + (n % 10) as u8) as char;
    assert(last == digit_char((n % 10) as int));
    if n < 10 {
        let mut s = String::new();
        s.push(last);
        s
    } else {
        let mut s = u128_text(n / 10);
        s.push(last);
        s
    }
}

/// Writes a machine-sized number in decimal.
pub fn usize_text(n: usize) -> (s: String)
    ensures
        s@ == decimal(n as nat),
{
    u64_text(n as u64)
}

/// Writes a signed number in decimal.
pub fn i64_text(n: i64) -> (s: String)
    ensures
        s@ == signed_decimal(n as int),
{
    if n < 0 {
        let magnitude: u64 = (-(n as i128)) as u64;
        let mut s = "-".to_string();
        s.append(u64_text(magnitude).as_str());
        s
    } else {
        u64_text(n as u64)
    }
}

/// `c` is a decimal digit.
pub open spec fn is_digit(c: char) -> bool {
    '0' <= c <= '9'
}

/// Every character of `s` is a decimal digit.
pub open spec fn all_digits(s: Seq<char>) -> bool {
    forall|i: int| 0 <= i < s.len() ==> is_digit(#[trigger] s[i])
}

/// The number that a string of decimal digits denotes.
pub open spec fn digits_value(s: Seq<char>) -> nat
    decreases s.len(),
{
    if s.len() == 0 {
        0
    } else {
        (10 * digits_value(s.drop_last()) + (s.last() as int - '0' as int)) as nat
    }
}

/// A longer string of digits denotes no smaller number.
pub proof fn lemma_digits_value_grows(s: Seq<char>, n: int)
    requires
        all_digits(s),
        0 <= n <= s.len(),
    ensures
        digits_value(s.take(n)) <= digits_value(s),
    decreases s.len() - n,
{
    if n < s.len() {
        lemma_digits_value_grows(s, n + 1);
        assert(s.take(n + 1).drop_last() == s.take(n));
        assert(is_digit(s[n]));
    } else {
        assert(s.take(n) == s);
    }
}

/// Reads a non-empty string of decimal digits, if its value is at most `limit`.
pub fn slice_number(s: &[char], limit: u64) -> (r: Option<u64>)
    ensures
        match r {
            Some(v) => s@.len() > 0 && all_digits(s@) && digits_value(s@) == v && v <= limit,
            None => !(s@.len() > 0 && all_digits(s@) && digits_value(s@) <= limit),
        },
{
    if s.len() == 0 {
        return None;
    }
    let mut value: u64 = 0;
    let mut i: usize = 0;
    while i < s.len()
        invariant
            i <= s.len(),
            forall|j: int| 0 <= j < i ==> is_digit(#[trigger] s@[j]),
            digits_value(s@.take(i as int)) == value,
            value <= limit,
        decreases s.len() - i,
    {
        let c = s[i];
        if !('0' <= c && c <= '9') {
            assert(!is_digit(s@[i as int]));
            return None;
        }
        let d: u64 = (c as u8 - 48u8) as u64;
        assert(s@.take(i as int + 1).drop_last() == s@.take(i as int));
        assert(digits_value(s@.take(i as int + 1)) == 10 * value + d);
        if value > (u64::MAX - d) / 10 || value * 10 + d > limit {
            proof {
                if all_digits(s@) {
                    lemma_digits_value_grows(s@, i as int + 1);
                }
            }
            return None;
        }
        value = value * 10 + d;
        i = i + 1;
    }
    assert(s@.take(s@.len() as int) == s@);
    Some(value)
}

/// The number that a text denotes, if it is at most `limit`: decimal digits, with an
/// optional plus sign before them.
pub open spec fn number_value(s: Seq<char>, limit: nat) -> Option<nat> {
    let d = if s.len() > 0 && s[0] == '+' {
        s.drop_first()
    } else {
        s
    };
    if d.len() > 0 && all_digits(d) && digits_value(d) <= limit {
        Some(digits_value(d))
    } else {
        None
    }
}

/// The machine-sized number that a text denotes.
pub open spec fn usize_value(s: Seq<char>) -> Option<nat> {
    number_value(s, usize::MAX as nat)
}

/// Reads a number with an optional plus sign.
pub fn slice_signed_number(s: &[char], limit: u64) -> (r: Option<u64>)
    ensures
        match r {
            Some(n) => number_value(s@, limit as nat) == Some(n as nat) && n <= limit,
            None => number_value(s@, limit as nat) is None,
        },
{
    let d = if s.len() > 0 && s[0] == '+' {
        let rest = slice_subrange(s, 1, s.len());
        assert(rest@ == s@.drop_first());
        rest
    } else {
        s
    };
    slice_number(d, limit)
}

/// Reads a machine-sized number.
pub fn slice_usize(s: &[char]) -> (r: Option<usize>)
    ensures
        match r {
            Some(n) => usize_value(s@) == Some(n as nat),
            None => usize_value(s@) is None,
        },
{
    match slice_signed_number(s, usize::MAX as u64) {
        Some(v) => Some(v as usize),
        None => None,
    }
}

/// `n` copies of one character.
pub open spec fn repeated(c: char, n: nat) -> Seq<char> {
    Seq::new(n, |i: int| c)
}

/// Appends `n` copies of a character.
pub fn push_repeated(s: &mut String, c: char, n: usize)
    ensures
        final(s)@ == old(s)@ + repeated(c, n as nat),
{
    let ghost start = s@;
    let mut i: usize = 0;
    assert(start + repeated(c, 0) == start);
    while i < n
        invariant
            i <= n,
            s@ == start + repeated(c, i as nat),
        decreases n - i,
    {
        s.push(c);
        assert(start + repeated(c, (i + 1) as nat) == (start + repeated(c, i as nat)).push(c));
        i = i + 1;
    }
}

/// The spaces that bring a text of length `len` to width `w`.
pub open spec fn padding(len: nat, w: nat) -> Seq<char> {
    repeated(' ', if len < w { (w - len) as nat } else { 0 })
}

/// `s` followed by the spaces that bring it to width `w`.
pub open spec fn pad_right(s: Seq<char>, w: nat) -> Seq<char> {
    s + padding(s.len(), w)
}

/// `s` preceded by the spaces that bring it to width `w`.
pub open spec fn pad_left(s: Seq<char>, w: nat) -> Seq<char> {
    padding(s.len(), w) + s
}

/// Counts the characters of a string.
pub fn str_count(s: &str) -> (n: usize)
    ensures
        n == s@.len(),
{
    let v = chars_of(s);
    v.len()
}

/// Pads a string on the right.
pub fn padded_right(s: &str, w: usize) -> (r: String)
    ensures
        r@ == pad_right(s@, w as nat),
{
    let n = str_count(s);
    let mut r = s.to_string();
    if n < w {
        push_repeated(&mut r, ' ', w - n);
    } else {
        push_repeated(&mut r, ' ', 0);
    }
    r
}

/// Pads a string on the left.
pub fn padded_left(s: &str, w: usize) -> (r: String)
    ensures
        r@ == pad_left(s@, w as nat),
{
    let n = str_count(s);
    let mut r = String::new();
    if n < w {
        push_repeated(&mut r, ' ', w - n);
    } else {
        push_repeated(&mut r, ' ', 0);
    }
    assert(r@ == padding(n as nat, w as nat));
    r.append(s);
    r
}

/// The parts joined by a separator.
pub open spec fn joined(parts: Seq<Seq<char>>, sep: Seq<char>) -> Seq<char>
    decreases parts.len(),
{
    if parts.len() == 0 {
        Seq::empty()
    } else if parts.len() == 1 {
        parts[0]
    } else {
        joined(parts.drop_last(), sep) + sep + parts.last()
    }
}

/// Joins strings with a separator.
pub fn join(parts: &Vec<String>, sep: &str) -> (r: String)
    ensures
        r@ == joined(texts(parts@), sep@),
{
    let mut r = String::new();
    let mut i: usize = 0;
    let ghost all = texts(parts@);
    while i < parts.len()
        invariant
            i <= parts.len(),
            all == texts(parts@),
            r@ == joined(all.take(i as int), sep@),
        decreases parts.len() - i,
    {
        assert(all.take(i as int + 1).drop_last() == all.take(i as int));
        if i > 0 {
            r.append(sep);
            r.append(parts[i].as_str());
        } else {
            r = parts[i].clone();
            assert(all.take(1)[0] == parts@[0]@);
        }
        i = i + 1;
    }
    assert(all.take(all.len() as int) == all);
    r
}

/// A decimal numeral is made of digits and denotes its number.
pub proof fn lemma_decimal(n: nat)
    ensures
        decimal(n).len() > 0,
        all_digits(decimal(n)),
        digits_value(decimal(n)) == n,
    decreases n,
{
    if n >= 10 {
        lemma_decimal(n / 10);
        assert(decimal(n).drop_last() == decimal(n / 10));
        assert(digit_char((n % 10) as int) as int == '0' as int + n % 10);
    } else {
        assert(digit_char(n as int) as int == '0' as int + n);
        assert(decimal(n).drop_last() == Seq::<char>::empty());
        assert(digits_value(decimal(n).drop_last()) == 0);
        assert(decimal(n).last() == digit_char(n as int));
    }
}

/// Texts that differ in the case of letters only have the same white space at their
/// ends, and still differ in case only without it.
pub proof fn lemma_trim_case(a: Seq<char>, b: Seq<char>)
    requires
        lower_all(a) == lower_all(b),
    ensures
        lower_all(trim(a)) == lower_all(trim(b)),
{
    lemma_strip_left_case(a, b);
    lemma_strip_right_case(
        strip_left(a, CharClass::Space),
        strip_left(b, CharClass::Space),
    );
}

/// Characters that differ in case only are both white space, digits or signs, or neither.
pub proof fn lemma_case(a: Seq<char>, b: Seq<char>, i: int)
    requires
        lower_all(a) == lower_all(b),
        0 <= i < a.len(),
    ensures
        a.len() == b.len(),
        lower(a[i]) == lower(b[i]),
        is_space(a[i]) == is_space(b[i]),
        is_digit(a[i]) || is_digit(b[i]) || a[i] == '-' || a[i] == '+' || a[i] == '.' || b[i] == '-'
            || b[i] == '+' || b[i] == '.' ==> a[i] == b[i],
{
    assert(lower_all(a).len() == a.len());
    assert(lower_all(b).len() == b.len());
    assert(lower_all(a)[i] == lower(a[i]));
    assert(lower_all(b)[i] == lower(b[i]));
}

/// Stripping white space on the left commutes with changes of case.
pub proof fn lemma_strip_left_case(a: Seq<char>, b: Seq<char>)
    requires
        lower_all(a) == lower_all(b),
    ensures
        lower_all(strip_left(a, CharClass::Space)) == lower_all(strip_left(b, CharClass::Space)),
    decreases a.len(),
{
    assert(lower_all(a).len() == a.len());
    assert(lower_all(b).len() == b.len());
    if a.len() > 0 {
        lemma_case(a, b, 0);
        assert(lower_all(a).drop_first() == lower_all(a.drop_first()));
        assert(lower_all(b).drop_first() == lower_all(b.drop_first()));
        if is_space(a[0]) {
            lemma_strip_left_case(a.drop_first(), b.drop_first());
        }
    }
}

/// Stripping white space on the right commutes with changes of case.
pub proof fn lemma_strip_right_case(a: Seq<char>, b: Seq<char>)
    requires
        lower_all(a) == lower_all(b),
    ensures
        lower_all(strip_right(a, CharClass::Space)) == lower_all(strip_right(b, CharClass::Space)),
    decreases a.len(),
{
    assert(lower_all(a).len() == a.len());
    assert(lower_all(b).len() == b.len());
    if a.len() > 0 {
        lemma_case(a, b, a.len() - 1);
        assert(lower_all(a).drop_last() == lower_all(a.drop_last()));
        assert(lower_all(b).drop_last() == lower_all(b.drop_last()));
        if is_space(a.last()) {
            lemma_strip_right_case(a.drop_last(), b.drop_last());
        }
    }
}

/// Every character of `s` is white space.
pub open spec fn all_space(s: Seq<char>) -> bool {
    forall|i: int| 0 <= i < s.len() ==> is_space(#[trigger] s[i])
}

/// White space before a text does not survive stripping on the left.
pub proof fn lemma_strip_left_blank(pre: Seq<char>, s: Seq<char>)
    requires
        all_space(pre),
    ensures
        strip_left(pre + s, CharClass::Space) == strip_left(s, CharClass::Space),
    decreases pre.len(),
{
    if pre.len() > 0 {
        assert(is_space(pre[0]));
        assert((pre + s).drop_first() == pre.drop_first() + s);
        lemma_strip_left_blank(pre.drop_first(), s);
    } else {
        assert(pre + s == s);
    }
}

/// White space behind a text does not survive stripping on the right.
pub proof fn lemma_strip_right_blank(s: Seq<char>, post: Seq<char>)
    requires
        all_space(post),
    ensures
        strip_right(s + post, CharClass::Space) == strip_right(s, CharClass::Space),
    decreases post.len(),
{
    if post.len() > 0 {
        assert(is_space(post.last()));
        assert((s + post).drop_last() == s + post.drop_last());
        lemma_strip_right_blank(s, post.drop_last());
    } else {
        assert(s + post == s);
    }
}

/// Two characters are the same, or the small and the capital form of one ASCII letter.
pub open spec fn same_letter(a: char, b: char) -> bool {
    ||| a == b
    ||| 'A' <= a <= 'Z' && b as int == a as int + 32
    ||| 'A' <= b <= 'Z' && a as int == b as int + 32
}

/// Two texts agree at every position up to the case of an ASCII letter.
pub open spec fn same_but_case(a: Seq<char>, b: Seq<char>) -> bool {
    a.len() == b.len() && forall|i: int| 0 <= i < a.len() ==> same_letter(#[trigger] a[i], b[i])
}

/// Texts have the same lower-case form exactly when they are equally long and agree at
/// every position up to the case of an ASCII letter; that form holds no ASCII capital.
pub proof fn law_case_of_letters(a: Seq<char>, b: Seq<char>)
    ensures
        lower_all(a) == lower_all(b) <==> a.len() == b.len() && forall|i: int|
            0 <= i < a.len() ==> same_letter(#[trigger] a[i], b[i]),
        lower_all(lower_all(a)) == lower_all(a),
        lower_all(a).len() == a.len(),
        forall|i: int| 0 <= i < a.len() ==> !('A' <= #[trigger] lower_all(a)[i] <= 'Z'),
{
    assert(lower_all(a).len() == a.len());
    assert(lower_all(b).len() == b.len());
    assert(forall|i: int| 0 <= i < a.len() ==> #[trigger] lower_all(a)[i] == lower(a[i]));
    assert(forall|i: int| 0 <= i < b.len() ==> #[trigger] lower_all(b)[i] == lower(b[i]));
    if lower_all(a) == lower_all(b) {
        assert forall|i: int| 0 <= i < a.len() implies same_letter(#[trigger] a[i], b[i]) by {
            assert(lower_all(a)[i] == lower_all(b)[i]);
        }
    }
    if a.len() == b.len() && forall|i: int| 0 <= i < a.len() ==> same_letter(#[trigger] a[i], b[i]) {
        assert forall|i: int| 0 <= i < a.len() implies lower_all(a)[i] == lower_all(b)[i] by {
            assert(same_letter(a[i], b[i]));
        }
        assert(lower_all(a) =~= lower_all(b));
    }
    assert(lower_all(lower_all(a)) =~= lower_all(a));
}

/// White space by its code points, and control characters by theirs.
pub proof fn law_blanks_and_controls(c: char)
    ensures
        is_space(c) <==> {
            let n = c as int;
            ||| 9 <= n <= 13
            ||| n == 32 || n == 133 || n == 160 || n == 5760
            ||| 8192 <= n <= 8202
            ||| n == 8232 || n == 8233 || n == 8239 || n == 8287 || n == 12288
        },
        is_control(c) <==> c as int <= 31 || 127 <= c as int <= 159,
        is_digit(c) <==> 48 <= c as int <= 57,
{
}

/// A text stands at a position exactly when it agrees there character by character.
pub proof fn law_occurrence(s: Seq<char>, p: Seq<char>, i: int)
    ensures
        occurs_at(s, p, i) <==> 0 <= i && i + p.len() <= s.len() && forall|k: int|
            0 <= k < p.len() ==> s[i + k] == #[trigger] p[k],
        starts_with(s, p) <==> p.len() <= s.len() && forall|k: int|
            0 <= k < p.len() ==> s[k] == #[trigger] p[k],
        contains_text(s, p) <==> exists|a: Seq<char>, b: Seq<char>| s == #[trigger] (a + p + b),
{
    if 0 <= i && i + p.len() <= s.len() {
        let sub = s.subrange(i, i + p.len());
        assert(forall|k: int| 0 <= k < p.len() ==> sub[k] == s[i + k]);
        if forall|k: int| 0 <= k < p.len() ==> s[i + k] == #[trigger] p[k] {
            assert(sub =~= p);
        } else if sub == p {
            assert(forall|k: int| 0 <= k < p.len() ==> s[i + k] == sub[k]);
        }
    }
    if p.len() <= s.len() {
        let sub = s.subrange(0, p.len() as int);
        assert(forall|k: int| 0 <= k < p.len() ==> sub[k] == s[k]);
        if forall|k: int| 0 <= k < p.len() ==> s[k] == #[trigger] p[k] {
            assert(sub =~= p);
        } else if sub == p {
            assert(forall|k: int| 0 <= k < p.len() ==> s[k] == sub[k]);
        }
    }
    if contains_text(s, p) {
        let k = choose|k: int| occurs_at(s, p, k);
        let a = s.take(k);
        let b = s.skip(k + p.len());
        assert(s =~= a + p + b);
    }
    if exists|a: Seq<char>, b: Seq<char>| s == #[trigger] (a + p + b) {
        let (a, b): (Seq<char>, Seq<char>) = choose|a: Seq<char>, b: Seq<char>|
            s == #[trigger] (a + p + b);
        assert(s.subrange(a.len() as int, a.len() as int + p.len()) =~= p);
        assert(occurs_at(s, p, a.len() as int));
    }
}

pub proof fn lemma_until_is(s: Seq<char>, k: CharClass, n: int)
    requires
        0 <= n <= s.len(),
        forall|i: int| 0 <= i < n ==> !in_class(k, #[trigger] s[i]),
        n < s.len() ==> in_class(k, s[n]),
    ensures
        until(s, k) == n,
    decreases n,
{
    if n > 0 {
        assert(!in_class(k, s[0]));
        assert forall|i: int| 0 <= i < n - 1 implies !in_class(k, #[trigger] s.drop_first()[i]) by {
            assert(s.drop_first()[i] == s[i + 1]);
        }
        lemma_until_is(s.drop_first(), k, n - 1);
    }
}

pub proof fn lemma_strip_left_class(pre: Seq<char>, s: Seq<char>, k: CharClass)
    requires
        forall|i: int| 0 <= i < pre.len() ==> in_class(k, #[trigger] pre[i]),
    ensures
        strip_left(pre + s, k) == strip_left(s, k),
    decreases pre.len(),
{
    if pre.len() > 0 {
        assert(in_class(k, pre[0]));
        assert((pre + s).drop_first() == pre.drop_first() + s);
        assert forall|i: int| 0 <= i < pre.drop_first().len() implies in_class(
            k,
            #[trigger] pre.drop_first()[i],
        ) by {
            assert(pre.drop_first()[i] == pre[i + 1]);
        }
        lemma_strip_left_class(pre.drop_first(), s, k);
    } else {
        assert(pre + s == s);
    }
}

proof fn lemma_strip_right_class(s: Seq<char>, post: Seq<char>, k: CharClass)
    requires
        forall|i: int| 0 <= i < post.len() ==> in_class(k, #[trigger] post[i]),
    ensures
        strip_right(s + post, k) == strip_right(s, k),
    decreases post.len(),
{
    if post.len() > 0 {
        assert(in_class(k, post.last()));
        assert((s + post).drop_last() == s + post.drop_last());
        lemma_strip_right_class(s, post.drop_last(), k);
    } else {
        assert(s + post == s);
    }
}

/// What is stripped at both ends is exactly what surrounds a text that neither begins nor
/// ends with a character of the class; trimming strips white space.
pub proof fn law_strip(pre: Seq<char>, s: Seq<char>, post: Seq<char>, k: CharClass)
    requires
        forall|i: int| 0 <= i < pre.len() ==> in_class(k, #[trigger] pre[i]),
        forall|i: int| 0 <= i < post.len() ==> in_class(k, #[trigger] post[i]),
        s.len() > 0 ==> !in_class(k, s[0]) && !in_class(k, s.last()),
    ensures
        strip_both(pre + s + post, k) == s,
        s.len() > 0 ==> strip_left(pre + s + post, k) == s + post,
        s.len() > 0 ==> strip_right(pre + s + post, k) == pre + s,
        k == CharClass::Space ==> trim(pre + s + post) == s,
{
    assert(pre + s + post == pre + (s + post));
    lemma_strip_left_class(pre, s + post, k);
    if s.len() > 0 {
        assert((s + post)[0] == s[0]);
        lemma_strip_right_class(s, post, k);
        lemma_strip_right_class(pre + s, post, k);
        assert((pre + s).last() == s.last());
    } else {
        assert(s + post == post + s);
        lemma_strip_left_class(post, s, k);
        assert(strip_left(s, k) == s);
    }
}

proof fn lemma_pieces_of_blank(c: char, b: Seq<char>, k: CharClass)
    requires
        in_class(k, c),
    ensures
        pieces(seq![c] + b, k) == pieces(b, k),
{
    lemma_strip_left_class(seq![c], b, k);
}

/// A text splits at every character of the class and nowhere else: what stands before and
/// after such a character splits on its own, a text without one is a single piece, and
/// nothing has no piece.
pub proof fn law_pieces(a: Seq<char>, c: char, b: Seq<char>, k: CharClass)
    requires
        in_class(k, c),
    ensures
        pieces(a + seq![c] + b, k) == pieces(a, k) + pieces(b, k),
        a.len() > 0 && (forall|i: int| 0 <= i < a.len() ==> !in_class(k, #[trigger] a[i]))
            ==> pieces(a, k) == seq![a],
        pieces(Seq::empty(), k) == Seq::<Seq<char>>::empty(),
        k == CharClass::Space ==> words(a) == pieces(a, CharClass::Space),
    decreases a.len(),
{
    let s = a + seq![c] + b;
    let none = Seq::<char>::empty();
    assert(strip_left(none, k) == none);
    assert(pieces(none, k) == Seq::<Seq<char>>::empty());
    if a.len() == 0 {
        assert(s == seq![c] + b);
        lemma_pieces_of_blank(c, b, k);
        assert(a == none);
        assert(pieces(a, k) + pieces(b, k) == pieces(b, k));
    } else if in_class(k, a[0]) {
        let rest = a.drop_first();
        law_pieces(rest, c, b, k);
        assert(a == seq![a[0]] + rest);
        assert(s == seq![a[0]] + (rest + seq![c] + b));
        lemma_pieces_of_blank(a[0], rest, k);
        lemma_pieces_of_blank(a[0], rest + seq![c] + b, k);
    } else {
        lemma_until(a, k);
        let n = until(a, k) as int;
        assert(n > 0);
        assert(s[0] == a[0]);
        assert(strip_left(s, k) == s);
        assert(strip_left(a, k) == a);
        assert(forall|i: int| 0 <= i < a.len() ==> s[i] == a[i]);
        assert(s[a.len() as int] == c);
        lemma_until_is(s, k, n);
        assert(s.take(n) == a.take(n));
        assert(s.skip(n) == a.skip(n) + seq![c] + b);
        law_pieces(a.skip(n), c, b, k);
        assert(pieces(s, k) == seq![a.take(n)] + pieces(s.skip(n), k));
        assert(pieces(a, k) == seq![a.take(n)] + pieces(a.skip(n), k));
        assert(seq![a.take(n)] + (pieces(a.skip(n), k) + pieces(b, k)) == seq![a.take(n)]
            + pieces(a.skip(n), k) + pieces(b, k));
        if forall|i: int| 0 <= i < a.len() ==> !in_class(k, #[trigger] a[i]) {
            assert(n == a.len());
            assert(a.take(n) == a);
            assert(a.skip(n) == none);
            assert(seq![a] + pieces(none, k) == seq![a]);
        }
    }
}

/// A text ends its lines at line feeds and nowhere else; a carriage return before one
/// belongs to the line ending.
pub proof fn law_lines(line: Seq<char>, rest: Seq<char>)
    requires
        !line.contains('\n'),
    ensures
        lines(line + seq!['\n'] + rest) == seq![
            if line.len() > 0 && line.last() == '\r' {
                line.drop_last()
            } else {
                line
            },
        ] + lines(rest),
        line.len() > 0 ==> lines(line) == seq![line],
        lines(Seq::empty()) == Seq::<Seq<char>>::empty(),
{
    let s = line + seq!['\n'] + rest;
    let k = CharClass::Only('\n');
    let n = line.len() as int;
    assert forall|i: int| 0 <= i < n implies !in_class(k, #[trigger] s[i]) by {
        assert(s[i] == line[i]);
        if line[i] == '\n' {
            assert(line.contains('\n'));
        }
    }
    assert(s[n] == '\n');
    lemma_until_is(s, k, n);
    assert(s.take(n) == line);
    assert(s.skip(n + 1) == rest);
    assert forall|i: int| 0 <= i < n implies !in_class(k, #[trigger] line[i]) by {
        if line[i] == '\n' {
            assert(line.contains('\n'));
        }
    }
    lemma_until_is(line, k, n);
}

/// The decimal numeral of a number is the one string of digits without a leading zero
/// that denotes it, and reading it gives the number back, with or without a plus sign; a
/// minus sign marks a negative number. A string of digits denotes ten times what it
/// denotes without its last digit, plus that digit.
pub proof fn law_numerals(n: nat, limit: nat, s: Seq<char>, c: char)
    requires
        all_digits(s),
        is_digit(c),
    ensures
        decimal(n).len() > 0,
        forall|i: int| 0 <= i < decimal(n).len() ==> '0' <= #[trigger] decimal(n)[i] <= '9',
        digits_value(decimal(n)) == n,
        n > 0 ==> decimal(n)[0] != '0',
        n == 0 ==> decimal(n) == seq!['0'],
        digits_value(Seq::empty()) == 0,
        digits_value(s.push(c)) == 10 * digits_value(s) + (c as int - 48),
        number_value(decimal(n), limit) == if n <= limit {
            Some(n)
        } else {
            None
        },
        number_value(seq!['+'] + decimal(n), limit) == number_value(decimal(n), limit),
        signed_decimal(n as int) == decimal(n),
        n > 0 ==> signed_decimal(-(n as int)) == seq!['-'] + decimal(n),
{
    lemma_decimal(n);
    lemma_no_leading_zero(n);
    let d = decimal(n);
    assert(forall|i: int| 0 <= i < d.len() ==> is_digit(#[trigger] d[i]));
    assert(s.push(c).drop_last() == s);
    assert(is_digit(d[0]));
    assert((seq!['+'] + d).drop_first() == d);
    reveal_strlit("-");
    assert("-"@ =~= seq!['-']);
    if n == 0 {
        assert(digit_char(0) == '0');
    }
}

proof fn lemma_no_leading_zero(n: nat)
    ensures
        n > 0 ==> decimal(n)[0] != '0',
    decreases n,
{
    lemma_decimal(n);
    if n >= 10 {
        lemma_no_leading_zero(n / 10);
        lemma_decimal(n / 10);
        assert(decimal(n)[0] == decimal(n / 10)[0]);
    } else {
        assert(digit_char(n as int) as int == '0' as int + n);
    }
}

/// A text denotes a number only if it is made of digits, one at least, after an optional
/// plus sign.
pub proof fn law_only_digits_are_numbers(s: Seq<char>, limit: nat)
    ensures
        number_value(s, limit) is Some ==> s.len() > 0 && (forall|i: int|
            0 < i < s.len() ==> '0' <= #[trigger] s[i] <= '9') && ('0' <= s[0] <= '9' || s[0] == '+'
            && s.len() > 1),
        number_value(s, limit) matches Some(n) ==> n <= limit,
{
    if number_value(s, limit) is Some {
        let d = if s.len() > 0 && s[0] == '+' {
            s.drop_first()
        } else {
            s
        };
        assert(is_digit(d[0]));
        assert forall|i: int| 0 < i < s.len() implies '0' <= #[trigger] s[i] <= '9' by {
            if s[0] == '+' {
                assert(is_digit(d[i - 1]));
            } else {
                assert(is_digit(d[i]));
            }
        }
    }
}

/// Padding brings a text to a width with spaces on one side, and leaves a text that is as
/// wide or wider as it is.
pub proof fn law_padding(s: Seq<char>, w: nat)
    ensures
        s.len() >= w ==> pad_right(s, w) == s && pad_left(s, w) == s,
        s.len() < w ==> pad_right(s, w).len() == w && pad_left(s, w).len() == w,
        s.len() < w ==> pad_right(s, w).take(s.len() as int) == s && pad_left(s, w).skip(
            w - s.len(),
        ) == s,
        forall|i: int| s.len() <= i < pad_right(s, w).len() ==> pad_right(s, w)[i] == ' ',
        forall|i: int| 0 <= i < pad_left(s, w).len() - s.len() ==> pad_left(s, w)[i] == ' ',
{
    if s.len() >= w {
        assert(pad_right(s, w) =~= s);
        assert(pad_left(s, w) =~= s);
    } else {
        assert(pad_right(s, w).take(s.len() as int) =~= s);
        assert(pad_left(s, w).skip(w - s.len()) =~= s);
    }
}

/// Joining puts the separator between neighbours and nowhere else.
pub proof fn law_joined(parts: Seq<Seq<char>>, last: Seq<char>, sep: Seq<char>)
    ensures
        joined(Seq::empty(), sep) == Seq::<char>::empty(),
        joined(seq![last], sep) == last,
        parts.len() > 0 ==> joined(parts.push(last), sep) == joined(parts, sep) + sep + last,
{
    assert(parts.push(last).drop_last() == parts);
}

/// The classes by which texts are cut.
pub proof fn law_classes(c: char, d: char)
    ensures
        in_class(CharClass::Space, c) <==> is_space(c),
        in_class(CharClass::Quote, c) <==> c as int == 34 || c as int == 39,
        in_class(CharClass::SpaceOrQuote, c) <==> is_space(c) || c as int == 34 || c as int == 39,
        in_class(CharClass::Only(d), c) <==> c == d,
{
}

/// A text that stands between two others occurs in the whole.
pub proof fn lemma_stands_in(a: Seq<char>, p: Seq<char>, b: Seq<char>)
    ensures
        contains_text(a + p + b, p),
{
    let s = a + p + b;
    assert(s.subrange(a.len() as int, a.len() + p.len() as int) =~= p);
    assert(occurs_at(s, p, a.len() as int));
}

/// Every string of digits, one at least, is the number that it denotes, with leading zeros
/// too and behind a plus sign, as far as the limit goes.
pub proof fn law_digits_are_numbers(s: Seq<char>, limit: nat)
    requires
        all_digits(s),
        s.len() > 0,
    ensures
        number_value(s, limit) == if digits_value(s) <= limit {
            Some(digits_value(s))
        } else {
            None
        },
        number_value(seq!['+'] + s, limit) == number_value(s, limit),
        number_value(Seq::empty(), limit) is None,
        number_value(seq!['+'], limit) is None,
        usize_value(s) == number_value(s, usize::MAX as nat),
{
    assert(is_digit(s[0]));
    assert((seq!['+'] + s).drop_first() =~= s);
    assert(seq!['+'].drop_first() =~= Seq::<char>::empty());
}

/// The place where something stands for the first time: it stands there, and nowhere before.
pub proof fn law_first_places(s: Seq<char>, p: Seq<char>, k: CharClass, i: int)
    ensures
        first_at(s, p, 0) == Some(i) <==> occurs_at(s, p, i) && forall|j: int|
            0 <= j < i ==> !#[trigger] occurs_at(s, p, j),
        first_at(s, p, 0) is None <==> !contains_text(s, p),
        0 <= i <= s.len() && (forall|j: int| 0 <= j < i ==> !in_class(k, #[trigger] s[j])) && (i
            < s.len() ==> in_class(k, s[i])) ==> until(s, k) == i,
{
    lemma_first_at(s, p, 0);
    if first_at(s, p, 0) is Some {
        assert(occurs_at(s, p, first_at(s, p, 0)->0));
    }
    if 0 <= i <= s.len() && (forall|j: int| 0 <= j < i ==> !in_class(k, #[trigger] s[j])) && (i
        < s.len() ==> in_class(k, s[i])) {
        lemma_until_is(s, k, i);
    }
}

} // verus!
