//! Character-level helpers for the textual parts of HTTP: white space,
//! trimming, case folding, lines and searching.

use vstd::prelude::*;

verus! {

/// The lowercase form that the standard library gives to a whole string.
pub uninterp spec fn unicode_lowercase(s: Seq<char>) -> Seq<char>;

/// `str::to_lowercase` returns the Unicode lowercase equivalent of the
/// string as a new `String`; the result depends on the characters alone and
/// is given the name [`unicode_lowercase`].
pub assume_specification[ str::to_lowercase ](s: &str) -> (r: String)
    ensures
        r@ == unicode_lowercase(s@),
;

/// `String::push` appends one character to the end of the string.
pub assume_specification[ String::push ](s: &mut String, c: char)
    ensures
        final(s)@ == old(s)@.push(c),
;

/// The uppercase form that the standard library gives to a whole string.
pub uninterp spec fn unicode_uppercase(s: Seq<char>) -> Seq<char>;

/// `str::to_uppercase` returns the Unicode uppercase equivalent of the
/// string as a new `String`; the result depends on the characters alone and
/// is given the name [`unicode_uppercase`].
pub assume_specification[ str::to_uppercase ](s: &str) -> (r: String)
    ensures
        r@ == unicode_uppercase(s@),
;

pub open spec fn is_ascii(c: char) -> bool {
    (c as u32) < 0x80
}

/// White space: the characters with the Unicode property `White_Space`.
/// They are tab, line feed, vertical tab, form feed, carriage return and
/// space; next line (U+0085) and no-break space (U+00A0); the Ogham space
/// mark (U+1680); the spaces U+2000 to U+200A; the line and the paragraph
/// separator (U+2028, U+2029); and the narrow no-break, the medium
/// mathematical and the ideographic space (U+202F, U+205F, U+3000).
pub open spec fn is_space(c: char) -> bool {
    let n = c as u32;
    (0x09 <= n <= 0x0d) || n == 0x20 || n == 0x85 || n == 0xa0 || n == 0x1680 || (0x2000 <= n
        <= 0x200a) || n == 0x2028 || n == 0x2029 || n == 0x202f || n == 0x205f || n == 0x3000
}

/// Whether `c` is white space.
pub fn char_is_space(c: char) -> (r: bool)
    ensures
        r == is_space(c),
{
    let n: u32 = c as u32;
    (0x09 <= n && n <= 0x0d) || n == 0x20 || n == 0x85 || n == 0xa0 || n == 0x1680 || (0x2000 <= n
        && n <= 0x200a) || n == 0x2028 || n == 0x2029 || n == 0x202f || n == 0x205f || n == 0x3000
}

/// Number of white-space characters at the front of `s`.
pub open spec fn leading_spaces(s: Seq<char>) -> nat
    decreases s.len(),
{
    if s.len() > 0 && is_space(s[0]) {
        1 + leading_spaces(s.drop_first())
    } else {
        0
    }
}

/// Number of white-space characters at the back of `s`.
pub open spec fn trailing_spaces(s: Seq<char>) -> nat
    decreases s.len(),
{
    if s.len() > 0 && is_space(s.last()) {
        1 + trailing_spaces(s.drop_last())
    } else {
        0
    }
}

pub open spec fn trim_start(s: Seq<char>) -> Seq<char> {
    s.skip(leading_spaces(s) as int)
}

pub open spec fn trim_end(s: Seq<char>) -> Seq<char> {
    s.take(s.len() - trailing_spaces(s))
}

/// `s` without the white space at either end.
pub open spec fn trim(s: Seq<char>) -> Seq<char> {
    trim_end(trim_start(s))
}

pub(crate) proof fn lemma_leading_spaces(s: Seq<char>, n: int)
    requires
        0 <= n <= s.len(),
        forall|i: int| 0 <= i < n ==> is_space(#[trigger] s[i]),
        n < s.len() ==> !is_space(s[n]),
    ensures
        leading_spaces(s) == n,
    decreases n,
{
    if n > 0 {
        let t = s.drop_first();
        assert forall|i: int| 0 <= i < n - 1 implies is_space(#[trigger] t[i]) by {
            assert(t[i] == s[i + 1]);
        }
        lemma_leading_spaces(t, n - 1);
    }
}

pub(crate) proof fn lemma_trailing_spaces(s: Seq<char>, n: int)
    requires
        0 <= n <= s.len(),
        forall|i: int| s.len() - n <= i < s.len() ==> is_space(#[trigger] s[i]),
        n < s.len() ==> !is_space(s[s.len() - n - 1]),
    ensures
        trailing_spaces(s) == n,
    decreases n,
{
    if n > 0 {
        let t = s.drop_last();
        assert forall|i: int| t.len() - (n - 1) <= i < t.len() implies is_space(
            #[trigger] t[i],
        ) by {
            assert(t[i] == s[i]);
        }
        lemma_trailing_spaces(t, n - 1);
    }
}

/// Trims white space off both ends of `s`.
pub fn trimmed(s: &[char]) -> (r: &[char])
    ensures
        r@ == trim(s@),
{
    let n = s.len();
    let mut a: usize = 0;
    while a < n && char_is_space(s[a])
        invariant
            a <= n,
            n == s@.len(),
            forall|i: int| 0 <= i < a ==> is_space(#[trigger] s@[i]),
        decreases n - a,
    {
        a += 1;
    }
    proof {
        lemma_leading_spaces(s@, a as int);
    }
    let mut b: usize = n;
    while b > a && char_is_space(s[b - 1])
        invariant
            a <= b <= n,
            n == s@.len(),
            forall|i: int| b <= i < n ==> is_space(#[trigger] s@[i]),
        decreases b,
    {
        b -= 1;
    }
    proof {
        let t = s@.skip(a as int);
        assert forall|i: int| t.len() - (n - b) <= i < t.len() implies is_space(
            #[trigger] t[i],
        ) by {
            assert(t[i] == s@[i + a]);
        }
        if (n - b) < t.len() {
            assert(t[t.len() - (n - b) - 1] == s@[b - 1]);
        }
        lemma_trailing_spaces(t, (n - b) as int);
        assert(s@.subrange(a as int, b as int) =~= trim(s@));
    }
    &s[a..b]
}


pub open spec fn all_ascii(s: Seq<char>) -> bool {
    forall|i: int| 0 <= i < s.len() ==> is_ascii(#[trigger] s[i])
}

/// The ASCII letters `A` to `Z` go to `a` to `z`; every other character
/// stays.
pub open spec fn ascii_lower(c: char) -> char {
    if 'A' <= c <= 'Z' {
        ((c as u32) + 32) as char
    } else {
        c
    }
}

pub open spec fn ascii_lowercase(s: Seq<char>) -> Seq<char> {
    Seq::new(s.len(), |i: int| ascii_lower(s[i]))
}

/// Lowercase form of `s`: letter by letter where `s` is pure ASCII, and
/// [`unicode_lowercase`] of the whole of `s` where it is not.
pub open spec fn lowercase(s: Seq<char>) -> Seq<char> {
    if all_ascii(s) {
        ascii_lowercase(s)
    } else {
        unicode_lowercase(s)
    }
}

fn char_ascii_lower(c: char) -> (r: char)
    requires
        is_ascii(c),
    ensures
        r == ascii_lower(c),
{
    let n: u32 = c as u32;
    if 0x41 <= n && n <= 0x5a {
        let b: u8 = n as u8;
        (b + 32) as char
    } else {
        c
    }
}

/// The characters of `s`, in order.
pub fn to_chars(s: &str) -> (r: Vec<char>)
    ensures
        r@ == s@,
{
    let mut out: Vec<char> = Vec::new();
    for c in iter: s.chars()
        invariant
            iter.seq() == s@,
            out@ == iter.seq().take(iter.index() as int),
    {
        out.push(c);
    }
    out
}

/// A string made of the characters of `s`.
pub fn string_of(s: &[char]) -> (r: String)
    ensures
        r@ == s@,
{
    let mut out = String::new();
    let mut i: usize = 0;
    while i < s.len()
        invariant
            i <= s@.len(),
            out@ == s@.take(i as int),
        decreases s@.len() - i,
    {
        out.push(s[i]);
        i += 1;
        assert(s@.take(i as int) =~= s@.take(i - 1).push(s@[i - 1]));
    }
    assert(s@.take(i as int) =~= s@);
    out
}

pub fn is_all_ascii(s: &[char]) -> (r: bool)
    ensures
        r == all_ascii(s@),
{
    let mut i: usize = 0;
    while i < s.len()
        invariant
            i <= s@.len(),
            forall|j: int| 0 <= j < i ==> is_ascii(#[trigger] s@[j]),
        decreases s@.len() - i,
    {
        if s[i] as u32 >= 0x80 {
            return false;
        }
        i += 1;
    }
    true
}

/// Lowercase form of `s`.
pub fn lowercased(s: &[char]) -> (r: Vec<char>)
    ensures
        r@ == lowercase(s@),
{
    if is_all_ascii(s) {
        let mut out: Vec<char> = Vec::new();
        let mut i: usize = 0;
        while i < s.len()
            invariant
                i <= s@.len(),
                all_ascii(s@),
                out@ == ascii_lowercase(s@).take(i as int),
            decreases s@.len() - i,
        {
            out.push(char_ascii_lower(s[i]));
            i += 1;
            assert(ascii_lowercase(s@).take(i as int) =~= ascii_lowercase(s@).take(i - 1).push(
                ascii_lower(s@[i - 1]),
            ));
        }
        assert(ascii_lowercase(s@).take(i as int) =~= ascii_lowercase(s@));
        out
    } else {
        let text = string_of(s);
        let low = text.as_str().to_lowercase();
        to_chars(low.as_str())
    }
}

/// The ASCII letters `a` to `z` go to `A` to `Z`; every other character
/// stays.
pub open spec fn ascii_upper(c: char) -> char {
    if 'a' <= c <= 'z' {
        ((c as u32) - 32) as char
    } else {
        c
    }
}

pub open spec fn ascii_uppercase(s: Seq<char>) -> Seq<char> {
    Seq::new(s.len(), |i: int| ascii_upper(s[i]))
}

/// Uppercase form of `s`: letter by letter where `s` is pure ASCII, and
/// [`unicode_uppercase`] of the whole of `s` where it is not.
pub open spec fn uppercase(s: Seq<char>) -> Seq<char> {
    if all_ascii(s) {
        ascii_uppercase(s)
    } else {
        unicode_uppercase(s)
    }
}

fn char_ascii_upper(c: char) -> (r: char)
    requires
        is_ascii(c),
    ensures
        r == ascii_upper(c),
{
    let n: u32 = c as u32;
    if 0x61 <= n && n <= 0x7a {
        let b: u8 = n as u8;
        (b - 32) as char
    } else {
        c
    }
}

/// Uppercase form of `s`.
pub fn uppercased(s: &str) -> (r: String)
    ensures
        r@ == uppercase(s@),
{
    let chars = to_chars(s);
    if is_all_ascii(chars.as_slice()) {
        let mut out = String::new();
        let mut i: usize = 0;
        assert(ascii_uppercase(chars@).take(0) =~= Seq::<char>::empty());
        while i < chars.len()
            invariant
                i <= chars@.len(),
                all_ascii(chars@),
                out@ == ascii_uppercase(chars@).take(i as int),
            decreases chars@.len() - i,
        {
            out.push(char_ascii_upper(chars[i]));
            i += 1;
            assert(ascii_uppercase(chars@).take(i as int) =~= ascii_uppercase(chars@).take(
                i - 1,
            ).push(ascii_upper(chars@[i - 1])));
        }
        assert(ascii_uppercase(chars@).take(i as int) =~= ascii_uppercase(chars@));
        out
    } else {
        s.to_uppercase()
    }
}

/// Whether `s` begins with `prefix`.
pub fn starts_with(s: &[char], prefix: &[char]) -> (r: bool)
    ensures
        r == prefix@.is_prefix_of(s@),
{
    if prefix.len() > s.len() {
        return false;
    }
    let mut i: usize = 0;
    while i < prefix.len()
        invariant
            i <= prefix@.len() <= s@.len(),
            forall|j: int| 0 <= j < i ==> prefix@[j] == s@[j],
        decreases prefix@.len() - i,
    {
        if prefix[i] != s[i] {
            assert(s@.subrange(0, prefix@.len() as int)[i as int] != prefix@[i as int]);
            return false;
        }
        i += 1;
    }
    assert(prefix@ =~= s@.subrange(0, prefix@.len() as int));
    true
}

/// Whether `a` and `b` hold the same characters.
pub fn same_chars(a: &[char], b: &[char]) -> (r: bool)
    ensures
        r == (a@ == b@),
{
    if a.len() != b.len() {
        return false;
    }
    let r = starts_with(a, b);
    proof {
        if r {
            assert(a@ =~= a@.subrange(0, b@.len() as int));
        }
    }
    r
}

/// Index of the first element of `s` equal to `x`, or the length of `s`
/// where there is none.
pub open spec fn first_index<T>(s: Seq<T>, x: T) -> int
    decreases s.len(),
{
    if s.len() == 0 || s[0] == x {
        0
    } else {
        1 + first_index(s.drop_first(), x)
    }
}

pub(crate) proof fn lemma_first_index<T>(s: Seq<T>, x: T, n: int)
    requires
        0 <= n <= s.len(),
        forall|i: int| 0 <= i < n ==> #[trigger] s[i] != x,
        n < s.len() ==> s[n] == x,
    ensures
        first_index(s, x) == n,
    decreases n,
{
    if n > 0 {
        let t = s.drop_first();
        assert forall|i: int| 0 <= i < n - 1 implies #[trigger] t[i] != x by {
            assert(t[i] == s[i + 1]);
        }
        lemma_first_index(t, x, n - 1);
    }
}

pub(crate) proof fn lemma_first_index_props<T>(s: Seq<T>, x: T)
    ensures
        0 <= first_index(s, x) <= s.len(),
        forall|i: int| 0 <= i < first_index(s, x) ==> #[trigger] s[i] != x,
        first_index(s, x) < s.len() ==> s[first_index(s, x)] == x,
    decreases s.len(),
{
    if s.len() == 0 || s[0] == x {
    } else {
        let t = s.drop_first();
        lemma_first_index_props(t, x);
        assert forall|i: int| 0 <= i < first_index(s, x) implies #[trigger] s[i] != x by {
            if i > 0 {
                assert(s[i] == t[i - 1]);
            }
        }
    }
}

/// Position of the first `c` in `s`, or the length of `s`.
pub fn position(s: &[char], c: char) -> (r: usize)
    ensures
        r == first_index(s@, c),
{
    let mut i: usize = 0;
    while i < s.len() && s[i] != c
        invariant
            i <= s@.len(),
            forall|j: int| 0 <= j < i ==> #[trigger] s@[j] != c,
        decreases s@.len() - i,
    {
        i += 1;
    }
    proof {
        lemma_first_index(s@, c, i as int);
    }
    i
}

/// Whether `needle` stands in `hay` at index `i`.
pub open spec fn occurs_at<T>(hay: Seq<T>, needle: Seq<T>, i: int) -> bool {
    0 <= i && i + needle.len() <= hay.len() && hay.subrange(i, i + needle.len()) == needle
}

/// Index of the first occurrence of `needle` in `hay` at or after `from`.
pub open spec fn find_from<T>(hay: Seq<T>, needle: Seq<T>, from: int) -> Option<int>
    decreases hay.len() + 1 - from,
{
    if from < 0 || from + needle.len() > hay.len() {
        None
    } else if occurs_at(hay, needle, from) {
        Some(from)
    } else {
        find_from(hay, needle, from + 1)
    }
}

/// Index of the first occurrence of `needle` in `hay`.
pub open spec fn find<T>(hay: Seq<T>, needle: Seq<T>) -> Option<int> {
    find_from(hay, needle, 0)
}

pub(crate) proof fn lemma_find_from_props<T>(hay: Seq<T>, needle: Seq<T>, from: int)
    requires
        0 <= from,
    ensures
        match find_from(hay, needle, from) {
            Some(i) => from <= i && occurs_at(hay, needle, i) && forall|j: int|
                from <= j < i ==> !occurs_at(hay, needle, j),
            None => forall|j: int| from <= j ==> !occurs_at(hay, needle, j),
        },
    decreases hay.len() + 1 - from,
{
    if from + needle.len() > hay.len() {
    } else if occurs_at(hay, needle, from) {
    } else {
        lemma_find_from_props(hay, needle, from + 1);
    }
}

pub(crate) proof fn lemma_find_from_is<T>(hay: Seq<T>, needle: Seq<T>, from: int, i: int)
    requires
        0 <= from <= i,
        occurs_at(hay, needle, i),
        forall|j: int| from <= j < i ==> !occurs_at(hay, needle, j),
    ensures
        find_from(hay, needle, from) == Some(i),
    decreases i - from,
{
    if from < i {
        lemma_find_from_is(hay, needle, from + 1, i);
    }
}

pub(crate) proof fn lemma_find_from_none<T>(hay: Seq<T>, needle: Seq<T>, from: int)
    requires
        0 <= from,
        forall|j: int| from <= j ==> !occurs_at(hay, needle, j),
    ensures
        find_from(hay, needle, from) is None,
    decreases hay.len() + 1 - from,
{
    if from + needle.len() <= hay.len() {
        lemma_find_from_none(hay, needle, from + 1);
    }
}

/// An occurrence that lies within `hay` is not touched by what is appended
/// to `hay`.
pub(crate) proof fn lemma_occurs_at_extended<T>(hay: Seq<T>, more: Seq<T>, needle: Seq<T>, i: int)
    requires
        0 <= i,
        i + needle.len() <= hay.len(),
    ensures
        occurs_at(hay + more, needle, i) == occurs_at(hay, needle, i),
{
    assert((hay + more).subrange(i, i + needle.len()) =~= hay.subrange(i, i + needle.len()));
}

/// A first occurrence stays the first when `hay` grows.
pub(crate) proof fn lemma_find_extended_some<T>(hay: Seq<T>, more: Seq<T>, needle: Seq<T>, i: int)
    requires
        find(hay, needle) == Some(i),
    ensures
        find(hay + more, needle) == Some(i),
{
    lemma_find_from_props(hay, needle, 0);
    lemma_occurs_at_extended(hay, more, needle, i);
    assert forall|j: int| 0 <= j < i implies !occurs_at(hay + more, needle, j) by {
        lemma_occurs_at_extended(hay, more, needle, j);
    }
    lemma_find_from_is(hay + more, needle, 0, i);
}

/// Where `hay` holds no occurrence, a first occurrence in the grown `hay`
/// reaches into what was appended.
pub(crate) proof fn lemma_find_extended_none<T>(hay: Seq<T>, more: Seq<T>, needle: Seq<T>, start: int)
    requires
        find(hay, needle) is None,
        0 <= start,
        start == 0 || start + needle.len() <= hay.len() + 1,
    ensures
        find(hay + more, needle) == find_from(hay + more, needle, start),
{
    lemma_find_from_props(hay, needle, 0);
    lemma_find_from_props(hay + more, needle, start);
    assert forall|j: int| 0 <= j < start implies !occurs_at(hay + more, needle, j) by {
        lemma_occurs_at_extended(hay, more, needle, j);
    }
    match find_from(hay + more, needle, start) {
        Some(i) => {
            lemma_find_from_is(hay + more, needle, 0, i);
        },
        None => {
            lemma_find_from_none(hay + more, needle, 0);
        },
    }
}

/// Whether `needle` stands in `hay` at index `i`.
pub fn chars_occur_at(hay: &[char], needle: &[char], i: usize) -> (r: bool)
    ensures
        r == occurs_at(hay@, needle@, i as int),
{
    if needle.len() > hay.len() || i > hay.len() - needle.len() {
        return false;
    }
    let mut k: usize = 0;
    while k < needle.len()
        invariant
            k <= needle@.len(),
            i + needle@.len() <= hay@.len() <= usize::MAX,
            forall|j: int| 0 <= j < k ==> hay@[i + j] == needle@[j],
        decreases needle@.len() - k,
    {
        if hay[i + k] != needle[k] {
            assert(hay@.subrange(i as int, i + needle@.len())[k as int] != needle@[k as int]);
            return false;
        }
        k += 1;
    }
    assert(hay@.subrange(i as int, i + needle@.len()) =~= needle@);
    true
}

/// Whether `needle` occurs somewhere in `hay`.
pub fn contains(hay: &[char], needle: &[char]) -> (r: bool)
    ensures
        r == find(hay@, needle@).is_some(),
{
    if needle.len() > hay.len() {
        return false;
    }
    let last = hay.len() - needle.len();
    let mut i: usize = 0;
    loop
        invariant
            i <= last,
            last + needle@.len() == hay@.len(),
            find(hay@, needle@) == find_from(hay@, needle@, i as int),
        decreases last - i,
    {
        if chars_occur_at(hay, needle, i) {
            return true;
        }
        if i == last {
            assert(find_from(hay@, needle@, i + 1) is None);
            return false;
        }
        i += 1;
    }
}

/// The first line of `s`: what stands before the first line feed, less one
/// carriage return directly before that line feed.
pub open spec fn first_line(s: Seq<char>) -> Seq<char> {
    let e = first_index(s, '\n');
    let raw = s.take(e);
    if e < s.len() && raw.len() > 0 && raw.last() == '\r' {
        raw.drop_last()
    } else {
        raw
    }
}

/// What follows the first line of `s` and its line feed.
pub open spec fn after_first_line(s: Seq<char>) -> Seq<char> {
    let e = first_index(s, '\n');
    if e < s.len() {
        s.skip(e + 1)
    } else {
        Seq::empty()
    }
}

/// The lines of `s`. A line ends at a line feed, or at a carriage return
/// and a line feed; the last line need not be ended, and an empty text has
/// no line.
pub open spec fn lines(s: Seq<char>) -> Seq<Seq<char>>
    decreases s.len(),
    via lines_decreases
{
    if s.len() == 0 {
        Seq::empty()
    } else {
        seq![first_line(s)] + lines(after_first_line(s))
    }
}

#[via_fn]
proof fn lines_decreases(s: Seq<char>) {
    lemma_first_index_props(s, '\n');
}

/// Splits `s` into its first line and what follows it.
pub fn split_line<'a>(s: &'a [char]) -> (r: (&'a [char], &'a [char]))
    ensures
        r.0@ == first_line(s@),
        r.1@ == after_first_line(s@),
        s@.len() > 0 ==> r.1@.len() < s@.len(),
{
    let e = position(s, '\n');
    proof {
        lemma_first_index_props(s@, '\n');
    }
    if e < s.len() {
        let rest = &s[e + 1..s.len()];
        if e > 0 && s[e - 1] == '\r' {
            assert(s@.subrange(0, e - 1) =~= s@.take(e as int).drop_last());
            (&s[0..e - 1], rest)
        } else {
            (&s[0..e], rest)
        }
    } else {
        assert(s@.subrange(0, e as int) =~= s@);
        assert(s@.subrange(e as int, e as int) =~= Seq::<char>::empty());
        (&s[0..e], &s[e..e])
    }
}


/// Number of characters at the front of `s` that are not white space.
pub open spec fn leading_non_spaces(s: Seq<char>) -> nat
    decreases s.len(),
{
    if s.len() > 0 && !is_space(s[0]) {
        1 + leading_non_spaces(s.drop_first())
    } else {
        0
    }
}

pub(crate) proof fn lemma_leading_non_spaces(s: Seq<char>, n: int)
    requires
        0 <= n <= s.len(),
        forall|i: int| 0 <= i < n ==> !is_space(#[trigger] s[i]),
        n < s.len() ==> is_space(s[n]),
    ensures
        leading_non_spaces(s) == n,
    decreases n,
{
    if n > 0 {
        let t = s.drop_first();
        assert forall|i: int| 0 <= i < n - 1 implies !is_space(#[trigger] t[i]) by {
            assert(t[i] == s[i + 1]);
        }
        lemma_leading_non_spaces(t, n - 1);
    }
}

/// The first run of characters in `s` that holds no white space.
pub open spec fn first_token(s: Seq<char>) -> Option<Seq<char>> {
    let t = trim_start(s);
    if t.len() == 0 {
        None
    } else {
        Some(t.take(leading_non_spaces(t) as int))
    }
}

/// What follows the first token of `s`.
pub open spec fn after_first_token(s: Seq<char>) -> Seq<char> {
    let t = trim_start(s);
    t.skip(leading_non_spaces(t) as int)
}

/// The token of `s` with index `n`, counting from 0; tokens are the
/// maximal runs of characters that are not white space.
pub open spec fn token(s: Seq<char>, n: nat) -> Option<Seq<char>>
    decreases n,
{
    if n == 0 {
        first_token(s)
    } else {
        token(after_first_token(s), (n - 1) as nat)
    }
}

/// Splits `s` into its first token, if it has one, and what follows it.
pub fn split_token<'a>(s: &'a [char]) -> (r: (Option<&'a [char]>, &'a [char]))
    ensures
        r.0 is Some <==> first_token(s@) is Some,
        r.0 matches Some(t) ==> first_token(s@) == Some(t@),
        r.1@ == after_first_token(s@),
{
    let n = s.len();
    let mut a: usize = 0;
    while a < n && char_is_space(s[a])
        invariant
            a <= n,
            n == s@.len(),
            forall|i: int| 0 <= i < a ==> is_space(#[trigger] s@[i]),
        decreases n - a,
    {
        a += 1;
    }
    proof {
        lemma_leading_spaces(s@, a as int);
    }
    let mut b: usize = a;
    while b < n && !char_is_space(s[b])
        invariant
            a <= b <= n,
            n == s@.len(),
            forall|i: int| a <= i < b ==> !is_space(#[trigger] s@[i]),
        decreases n - b,
    {
        b += 1;
    }
    proof {
        let t = s@.skip(a as int);
        assert forall|i: int| 0 <= i < b - a implies !is_space(#[trigger] t[i]) by {
            assert(t[i] == s@[i + a]);
        }
        if b - a < t.len() {
            assert(t[b - a] == s@[b as int]);
        }
        lemma_leading_non_spaces(t, b - a);
        assert(s@.subrange(a as int, b as int) =~= t.take(b - a));
        assert(s@.subrange(b as int, n as int) =~= t.skip(b - a));
    }
    if a == n {
        (None, &s[b..n])
    } else {
        (Some(&s[a..b]), &s[b..n])
    }
}

/// Appends the characters of `chars` to `s`.
pub fn push_chars(s: &mut String, chars: &[char])
    ensures
        final(s)@ == old(s)@ + chars@,
{
    let mut i: usize = 0;
    assert(s@ =~= old(s)@ + chars@.take(0));
    while i < chars.len()
        invariant
            i <= chars@.len(),
            s@ == old(s)@ + chars@.take(i as int),
        decreases chars@.len() - i,
    {
        s.push(chars[i]);
        i += 1;
        assert(old(s)@ + chars@.take(i as int) =~= (old(s)@ + chars@.take(i - 1)).push(
            chars@[i - 1],
        ));
    }
    assert(chars@.take(i as int) =~= chars@);
}

} // verus!
