//! Text routines over `String`/`&str` with their specifications on `Seq<char>`.

use vstd::prelude::*;

verus! {

/// The UTF-8 bytes of a character sequence.
pub open spec fn utf8(s: Seq<char>) -> Seq<u8> {
    vstd::utf8::encode_utf8(s)
}

/// Appends one character to a string (`String::push`).
#[verifier::external_body]
pub(crate) fn push_char(s: &mut String, c: char)
    ensures
        final(s)@ == old(s)@.push(c),
{
    s.push(c);
}

/// The characters of a string slice, in order.
pub fn chars_of(s: &str) -> (r: Vec<char>)
    ensures
        r@ == s@,
{
    let mut r: Vec<char> = Vec::new();
    for c in it: s.chars()
        invariant
            r@ == it.seq().take(it.index() as int),
    {
        r.push(c);
    }
    r
}

/// Builds a string from a slice of characters.
pub fn string_from_chars(v: &[char]) -> (r: String)
    ensures
        r@ == v@,
{
    let mut r = String::new();
    let mut i: usize = 0;
    while i < v.len()
        invariant
            i <= v@.len(),
            r@ == v@.take(i as int),
        decreases v@.len() - i,
    {
        push_char(&mut r, v[i]);
        i = i + 1;
        assert(v@.take(i as int) == v@.take((i - 1) as int).push(v@[i - 1]));
    }
    assert(v@.take(v@.len() as int) == v@);
    r
}

/// Character-wise equality of two string slices.
pub fn str_eq(a: &str, b: &str) -> (r: bool)
    ensures
        r == (a@ == b@),
{
    let va = chars_of(a);
    let vb = chars_of(b);
    if va.len() != vb.len() {
        return false;
    }
    let mut i: usize = 0;
    while i < va.len()
        invariant
            va@ == a@,
            vb@ == b@,
            va@.len() == vb@.len(),
            i <= va@.len(),
            forall|j: int| 0 <= j < i ==> va@[j] == vb@[j],
        decreases va@.len() - i,
    {
        if va[i] != vb[i] {
            return false;
        }
        i = i + 1;
    }
    assert(va@ =~= vb@);
    true
}

} // verus!

verus! {

/// The decimal digit character for `d` (`0 <= d < 10`).
pub open spec fn digit_char(d: int) -> char {
    (48 + d) as char
}

/// Decimal notation of a natural number, as `u64::to_string` writes it.
pub open spec fn decimal_spec(n: nat) -> Seq<char>
    decreases n,
{
    if n < 10 {
        seq![digit_char(n as int)]
    } else {
        decimal_spec(n / 10).push(digit_char((n % 10) as int))
    }
}

fn decimal_chars(n: u64) -> (r: Vec<char>)
    ensures
        r@ == decimal_spec(n as nat),
    decreases n,
{
    let d = (n % 10) as u8;
    let c = (48u8 + d) as char;
    if n < 10 {
        let mut v = Vec::new();
        v.push(c);
        v
    } else {
        let mut v = decimal_chars(n / 10);
        v.push(c);
        v
    }
}

/// Decimal notation of `n`.
pub fn decimal(n: u64) -> (r: String)
    ensures
        r@ == decimal_spec(n as nat),
{
    let v = decimal_chars(n);
    string_from_chars(v.as_slice())
}

/// Appends `other` to `s`.
pub fn append_str(s: &mut String, other: &str)
    ensures
        final(s)@ == old(s)@ + other@,
{
    s.append(other);
}

} // verus!

verus! {

/// Whether `needle` occurs in `hay` starting at index `i`.
pub open spec fn occurs_at(hay: Seq<char>, needle: Seq<char>, i: int) -> bool {
    0 <= i && i + needle.len() <= hay.len() && hay.subrange(i, i + needle.len()) == needle
}

/// The first index at or after `i` where `needle` occurs in `hay`.
pub open spec fn find_from(hay: Seq<char>, needle: Seq<char>, i: int) -> Option<int>
    decreases hay.len() + 1 - i,
{
    if i < 0 || i + needle.len() > hay.len() {
        None
    } else if occurs_at(hay, needle, i) {
        Some(i)
    } else {
        find_from(hay, needle, i + 1)
    }
}

/// The first index where `needle` occurs in `hay` (`str::find`, counted in
/// characters).
pub open spec fn find_spec(hay: Seq<char>, needle: Seq<char>) -> Option<int> {
    find_from(hay, needle, 0)
}

/// Whether `needle` occurs anywhere in `hay` (`str::contains`).
pub open spec fn contains_spec(hay: Seq<char>, needle: Seq<char>) -> bool {
    find_spec(hay, needle) is Some
}

/// A match found from `i` on starts at or after `i` and fits in `hay`.
pub proof fn lemma_find_from_in_range(hay: Seq<char>, needle: Seq<char>, i: int)
    requires
        0 <= i,
    ensures
        find_from(hay, needle, i) matches Some(k) ==> i <= k && k + needle.len() <= hay.len(),
    decreases hay.len() + 1 - i,
{
    if !(i < 0 || i + needle.len() > hay.len()) && !occurs_at(hay, needle, i) {
        lemma_find_from_in_range(hay, needle, i + 1);
    }
}

/// A copy of `v[a..b]`.
pub fn sub_chars(v: &[char], a: usize, b: usize) -> (r: Vec<char>)
    requires
        a <= b <= v@.len(),
    ensures
        r@ == v@.subrange(a as int, b as int),
{
    let mut r: Vec<char> = Vec::new();
    let mut i = a;
    while i < b
        invariant
            a <= i <= b <= v@.len(),
            r@ == v@.subrange(a as int, i as int),
        decreases b - i,
    {
        r.push(v[i]);
        i = i + 1;
        assert(r@ =~= v@.subrange(a as int, i as int));
    }
    r
}

/// Whether `needle` occurs in `hay` at `i`.
pub fn chars_occur_at(hay: &[char], needle: &[char], i: usize) -> (r: bool)
    ensures
        r == occurs_at(hay@, needle@, i as int),
{
    if i > hay.len() || needle.len() > hay.len() - i {
        return false;
    }
    let mut k: usize = 0;
    while k < needle.len()
        invariant
            i + needle@.len() <= hay@.len(),
            hay@.len() <= usize::MAX,
            k <= needle@.len(),
            forall|j: int| 0 <= j < k ==> hay@[i + j] == needle@[j],
        decreases needle@.len() - k,
    {
        if hay[i + k] != needle[k] {
            assert(hay@.subrange(i as int, i + needle@.len())[k as int] != needle@[k as int]);
            return false;
        }
        k = k + 1;
    }
    assert(hay@.subrange(i as int, i + needle@.len()) =~= needle@);
    true
}

/// The first index at or after `from` where `needle` occurs in `hay`.
pub fn find_chars(hay: &[char], needle: &[char], from: usize) -> (r: Option<usize>)
    ensures
        r matches Some(k) ==> find_from(hay@, needle@, from as int) == Some(k as int),
        r is None ==> find_from(hay@, needle@, from as int) is None,
{
    if needle.len() > hay.len() || from > hay.len() - needle.len() {
        return None;
    }
    let last = hay.len() - needle.len();
    let mut i = from;
    while i <= last
        invariant
            from <= i,
            last == hay@.len() - needle@.len(),
            find_from(hay@, needle@, from as int) == find_from(hay@, needle@, i as int),
        decreases last - i,
    {
        if chars_occur_at(hay, needle, i) {
            return Some(i);
        }
        if i == last {
            assert(find_from(hay@, needle@, i as int + 1) is None);
            return None;
        }
        i = i + 1;
    }
    None
}

/// Whether `needle` occurs in `hay`.
pub fn contains_chars(hay: &[char], needle: &[char]) -> (r: bool)
    ensures
        r == contains_spec(hay@, needle@),
{
    find_chars(hay, needle, 0).is_some()
}

/// Unicode `White_Space` characters, as `char::is_whitespace` and
/// `str::trim` use them.
pub open spec fn is_ws(c: char) -> bool {
    let u = c as u32;
    (9 <= u <= 13) || u == 32 || u == 0x85 || u == 0xA0 || u == 0x1680 || (0x2000 <= u <= 0x200A)
        || u == 0x2028 || u == 0x2029 || u == 0x202F || u == 0x205F || u == 0x3000
}

/// Whether `c` is Unicode white space.
pub fn is_ws_exec(c: char) -> (r: bool)
    ensures
        r == is_ws(c),
{
    let u = c as u32;
    (9 <= u && u <= 13) || u == 32 || u == 0x85 || u == 0xA0 || u == 0x1680 || (0x2000 <= u && u
        <= 0x200A) || u == 0x2028 || u == 0x2029 || u == 0x202F || u == 0x205F || u == 0x3000
}

/// `s` without its leading whitespace.
pub open spec fn trim_start_spec(s: Seq<char>) -> Seq<char>
    decreases s.len(),
{
    if s.len() > 0 && is_ws(s[0]) {
        trim_start_spec(s.skip(1))
    } else {
        s
    }
}

/// `s` without its trailing whitespace.
pub open spec fn trim_end_spec(s: Seq<char>) -> Seq<char>
    decreases s.len(),
{
    if s.len() > 0 && is_ws(s.last()) {
        trim_end_spec(s.drop_last())
    } else {
        s
    }
}

/// `s` without leading and trailing whitespace (`str::trim`).
pub open spec fn trim_spec(s: Seq<char>) -> Seq<char> {
    trim_end_spec(trim_start_spec(s))
}

/// The bounds `[a, b)` of the trimmed part of `v`.
pub fn trim_bounds(v: &[char]) -> (r: (usize, usize))
    ensures
        r.0 <= r.1 <= v@.len(),
        v@.subrange(r.0 as int, r.1 as int) == trim_spec(v@),
{
    let mut a: usize = 0;
    assert(v@.skip(0) =~= v@);
    while a < v.len() && is_ws_exec(v[a])
        invariant
            a <= v@.len(),
            trim_start_spec(v@) == trim_start_spec(v@.skip(a as int)),
        decreases v@.len() - a,
    {
        assert(v@.skip(a as int).skip(1) =~= v@.skip(a + 1));
        a = a + 1;
    }
    assert(trim_start_spec(v@) == v@.skip(a as int));
    let mut b: usize = v.len();
    assert(v@.skip(a as int) =~= v@.subrange(a as int, b as int));
    while b > a && is_ws_exec(v[b - 1])
        invariant
            a <= b <= v@.len(),
            trim_spec(v@) == trim_end_spec(v@.subrange(a as int, b as int)),
        decreases b - a,
    {
        assert(v@.subrange(a as int, b as int).drop_last() =~= v@.subrange(a as int, b - 1));
        b = b - 1;
    }
    (a, b)
}

/// Whether `c` is an ASCII digit.
pub open spec fn is_digit(c: char) -> bool {
    '0' <= c <= '9'
}

/// The value of a string of decimal digits.
pub open spec fn digits_value(s: Seq<char>) -> nat
    decreases s.len(),
{
    if s.len() == 0 {
        0
    } else {
        digits_value(s.drop_last()) * 10 + ((s.last() as u32) - 48) as nat
    }
}

/// `u32::from_str`: an optional `+`, then one or more ASCII digits whose
/// value fits in a `u32`.
pub open spec fn parse_u32_spec(s: Seq<char>) -> Option<u32> {
    parse_digits_u32(if s.len() > 0 && s[0] == '+' { s.skip(1) } else { s })
}

/// Whether every character of `d` is an ASCII digit.
pub open spec fn all_digits(d: Seq<char>) -> bool {
    forall|i: int| 0 <= i < d.len() ==> is_digit(#[trigger] d[i])
}

/// One or more ASCII digits whose value fits in a `u32`.
pub open spec fn parse_digits_u32(d: Seq<char>) -> Option<u32> {
    if d.len() == 0 || !all_digits(d) {
        None
    } else if digits_value(d) > u32::MAX {
        None
    } else {
        Some(digits_value(d) as u32)
    }
}

proof fn lemma_digits_value_mono(s: Seq<char>, i: int)
    requires
        0 <= i <= s.len(),
        forall|k: int| 0 <= k < s.len() ==> is_digit(#[trigger] s[k]),
    ensures
        digits_value(s.take(i)) <= digits_value(s),
    decreases s.len() - i,
{
    if i < s.len() {
        lemma_digits_value_mono(s, i + 1);
        assert(s.take(i + 1).drop_last() =~= s.take(i));
    } else {
        assert(s.take(i) =~= s);
    }
}

/// Parses `v` as `u32::from_str` does.
pub fn parse_u32(v: &[char]) -> (r: Option<u32>)
    ensures
        r == parse_u32_spec(v@),
{
    let start: usize = if v.len() > 0 && v[0] == '+' { 1 } else { 0 };
    let ghost d = if v@.len() > 0 && v@[0] == '+' { v@.skip(1) } else { v@ };
    assert(d =~= v@.skip(start as int));
    if start >= v.len() {
        return None;
    }
    let mut i = start;
    let mut acc: u64 = 0;
    let mut overflow = false;
    while i < v.len()
        invariant
            start <= i <= v@.len(),
            d == v@.skip(start as int),
            d == (if v@.len() > 0 && v@[0] == '+' { v@.skip(1) } else { v@ }),
            forall|k: int| start <= k < i ==> is_digit(#[trigger] v@[k]),
            !overflow ==> acc == digits_value(d.take(i - start)) && acc <= u32::MAX,
            overflow ==> digits_value(d.take(i - start)) > u32::MAX,
        decreases v@.len() - i,
    {
        let c = v[i];
        if !('0' <= c && c <= '9') {
            assert(d[i - start] == v@[i as int]);
            assert(!is_digit(d[i - start]));
            assert(!(forall|k: int| 0 <= k < d.len() ==> is_digit(#[trigger] d[k])));
            return None;
        }
        assert(d.take(i - start + 1).drop_last() =~= d.take(i - start));
        assert(d.take(i - start + 1).last() == c);
        if !overflow {
            let next = acc * 10 + ((c as u32) - 48) as u64;
            if next > 0xFFFF_FFFF {
                overflow = true;
            } else {
                acc = next;
            }
        } else {
            assert(digits_value(d.take(i - start + 1)) >= digits_value(d.take(i - start)) * 10) by (nonlinear_arith)
                requires digits_value(d.take(i - start + 1)) == digits_value(d.take(i - start)) * 10 + ((c as u32) - 48) as nat;
        }
        i = i + 1;
    }
    assert(d.take(d.len() as int) =~= d);
    assert forall|k: int| 0 <= k < d.len() implies is_digit(#[trigger] d[k]) by {
        assert(d[k] == v@[start + k]);
    }
    if overflow {
        None
    } else {
        Some(acc as u32)
    }
}

} // verus!

verus! {

/// What `str::to_lowercase` gives for a string: its Unicode lowercase
/// mapping, character by character (some characters map to several).
pub uninterp spec fn lowercase(s: Seq<char>) -> Seq<char>;

/// Whether every character of `s` is ASCII.
pub open spec fn all_ascii(s: Seq<char>) -> bool {
    forall|i: int| 0 <= i < s.len() ==> (#[trigger] s[i] as u32) < 128
}

/// An ASCII letter in lowercase: `A`..`Z` become `a`..`z`, every other
/// character stays.
pub open spec fn ascii_lower(c: char) -> char {
    if 65 <= (c as u32) && (c as u32) <= 90 { ((c as u32) + 32) as char } else { c }
}

/// `str::to_lowercase`. The result is the name `lowercase` of the input;
/// for an ASCII string it is the string with `A`..`Z` turned into `a`..`z`
/// and every other character kept, one for one (the Unicode lowercase
/// mapping of an ASCII character is its ASCII lowercase).
#[verifier::external_body]
pub(crate) fn to_lowercase(s: &str) -> (r: String)
    ensures
        r@ == lowercase(s@),
        all_ascii(s@) ==> r@ == s@.map_values(|c: char| ascii_lower(c)),
{
    s.to_lowercase()
}

/// Whether the lowercase form of `hay` contains `needle_lower`.
pub fn lower_contains(hay: &str, needle_lower: &[char]) -> (r: bool)
    ensures
        r == contains_spec(lowercase(hay@), needle_lower@),
{
    let l = to_lowercase(hay);
    let v = chars_of(l.as_str());
    contains_chars(v.as_slice(), needle_lower)
}

} // verus!
