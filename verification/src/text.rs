//! Character-level helpers shared by the text-producing parts of the library.

use vstd::prelude::*;
use vstd::utf8::{
    char_is_scalar, decode_utf8, encode_scalar, encode_utf8, encode_utf8_decode_utf8,
    encode_utf8_first_scalar, encode_utf8_valid_utf8, is_char_boundary, pop_first_scalar,
};

verus! {

/// `s` without any trailing occurrences of `c`.
pub open spec fn trim_end_char(s: Seq<char>, c: char) -> Seq<char>
    decreases s.len(),
{
    if s.len() > 0 && s.last() == c {
        trim_end_char(s.drop_last(), c)
    } else {
        s
    }
}

/// Characters kept by `trim_end_char`: a prefix of `s`.
pub proof fn lemma_trim_end_char_prefix(s: Seq<char>, c: char)
    ensures
        trim_end_char(s, c) == s.take(trim_end_char(s, c).len() as int),
        trim_end_char(s, c).len() <= s.len(),
    decreases s.len(),
{
    if s.len() > 0 && s.last() == c {
        lemma_trim_end_char_prefix(s.drop_last(), c);
        assert(s.drop_last().take(trim_end_char(s, c).len() as int) =~= s.take(
            trim_end_char(s, c).len() as int,
        ));
    } else {
        assert(s.take(s.len() as int) =~= s);
    }
}

/// `s` with its trailing `c` characters removed.
pub fn trim_end_matches_char(s: &str, c: char) -> (r: String)
    ensures
        r@ == trim_end_char(s@, c),
{
    let n = s.unicode_len();
    let mut k: usize = n;
    assert(s@.take(n as int) =~= s@);
    while k > 0 && s.get_char(k - 1) == c
        invariant
            k <= n,
            n == s@.len(),
            trim_end_char(s@.take(k as int), c) == trim_end_char(s@, c),
        decreases k,
    {
        proof {
            assert(s@.take(k as int - 1) =~= s@.take(k as int).drop_last());
        }
        k = k - 1;
    }
    proof {
        if k > 0 {
            assert(s@.take(k as int).last() == s@[k as int - 1]);
        }
        assert(trim_end_char(s@.take(k as int), c) == s@.take(k as int));
    }
    s.substring_char(0, k).to_owned()
}

/// Whether `p` is a prefix of `s`.
pub open spec fn starts_with(s: Seq<char>, p: Seq<char>) -> bool {
    p.len() <= s.len() && s.take(p.len() as int) == p
}

/// Whether `p` is a suffix of `s`.
pub open spec fn ends_with<T>(s: Seq<T>, p: Seq<T>) -> bool {
    p.len() <= s.len() && s.skip(s.len() - p.len()) == p
}

/// Whether `p` occurs in `s` starting at index `i`.
pub open spec fn occurs_at<T>(s: Seq<T>, p: Seq<T>, i: int) -> bool {
    0 <= i && i + p.len() <= s.len() && s.subrange(i, i + p.len()) == p
}

/// Whether `p` occurs anywhere in `s`.
pub open spec fn contains_seq<T>(s: Seq<T>, p: Seq<T>) -> bool {
    exists|i: int| occurs_at(s, p, i)
}

/// A new `String` holding `s`.
pub fn owned(s: &str) -> (r: String)
    ensures
        r@ == s@,
{
    s.to_owned()
}

/// Whether `p` occurs in `s` at character index `i`.
pub fn occurs_at_exec(s: &Vec<char>, p: &Vec<char>, i: usize) -> (r: bool)
    ensures
        r == occurs_at(s@, p@, i as int),
{
    if i > s.len() || p.len() > s.len() - i {
        return false;
    }
    let mut j: usize = 0;
    while j < p.len()
        invariant
            j <= p.len(),
            i + p.len() <= s.len(),
            forall|t: int| 0 <= t < j ==> s@[i + t] == p@[t],
        decreases p.len() - j,
    {
        if s[i + j] != p[j] {
            assert(s@.subrange(i as int, i + p.len())[j as int] != p@[j as int]);
            return false;
        }
        j = j + 1;
    }
    assert(s@.subrange(i as int, i + p.len()) =~= p@);
    true
}

/// The characters of `s`, one per element.
pub fn chars_of(s: &str) -> (r: Vec<char>)
    ensures
        r@ == s@,
{
    let mut r: Vec<char> = Vec::new();
    for c in it: s.chars()
        invariant
            r@ == it.seq().take(it.index() as int),
    {
        r.push(c);
        assert(r@ =~= it.seq().take(it.index() as int + 1));
    }
    r
}

/// Appends one character to a string (`String::push`).
#[verifier::external_body]
pub(crate) fn push_char(s: &mut String, c: char)
    ensures
        final(s)@ == old(s)@.push(c),
{
    s.push(c);
}

/// Whether two strings hold the same characters.
pub fn str_eq(a: &str, b: &str) -> (r: bool)
    ensures
        r == (a@ == b@),
{
    let x = a.as_bytes();
    let y = b.as_bytes();
    proof {
        encode_utf8_decode_utf8(a@);
        encode_utf8_decode_utf8(b@);
    }
    if x.len() != y.len() {
        return false;
    }
    let mut i: usize = 0;
    while i < x.len()
        invariant
            i <= x@.len(),
            x@.len() == y@.len(),
            x@ == encode_utf8(a@),
            y@ == encode_utf8(b@),
            forall|t: int| 0 <= t < i ==> x@[t] == y@[t],
        decreases x@.len() - i,
    {
        if x[i] != y[i] {
            assert(x@[i as int] != y@[i as int]);
            assert(x@ != y@);
            return false;
        }
        i = i + 1;
    }
    assert(x@ =~= y@);
    true
}

} // verus!

verus! {

/// Number of bytes in the UTF-8 encoding of `s`.
pub open spec fn utf8_len(s: Seq<char>) -> nat {
    encode_utf8(s).len()
}

/// The encoding of a concatenation is the concatenation of the encodings.
pub proof fn lemma_encode_utf8_concat(a: Seq<char>, b: Seq<char>)
    ensures
        encode_utf8(a + b) == encode_utf8(a) + encode_utf8(b),
    decreases a.len(),
{
    if a.len() == 0 {
        assert(a + b =~= b);
        assert(encode_utf8(a) =~= Seq::<u8>::empty());
        assert(encode_utf8(a) + encode_utf8(b) =~= encode_utf8(b));
    } else {
        lemma_encode_utf8_concat(a.drop_first(), b);
        assert((a + b).drop_first() =~= a.drop_first() + b);
        assert((a + b)[0] == a[0]);
        assert(encode_utf8(a + b) =~= encode_utf8(a) + encode_utf8(b));
    }
}

/// A single character takes one to four bytes.
pub proof fn lemma_char_utf8_len(c: char)
    ensures
        1 <= utf8_len(seq![c]) <= 4,
        utf8_len(seq![c]) == encode_scalar(c as u32).len(),
{
    let s = seq![c];
    assert(s.drop_first() =~= Seq::<char>::empty());
    assert(encode_utf8(s.drop_first()) =~= Seq::<u8>::empty());
    assert(encode_utf8(s) =~= encode_scalar(c as u32) + encode_utf8(s.drop_first()));
}

/// Every character adds at least one byte.
pub proof fn lemma_utf8_len_at_least_chars(s: Seq<char>)
    ensures
        utf8_len(s) >= s.len(),
    decreases s.len(),
{
    if s.len() > 0 {
        lemma_utf8_len_at_least_chars(s.drop_first());
        lemma_char_utf8_len(s[0]);
        assert(s =~= seq![s[0]] + s.drop_first());
        lemma_encode_utf8_concat(seq![s[0]], s.drop_first());
    }
}

/// Byte offset of the `k`-th character grows strictly with `k`.
pub proof fn lemma_utf8_offset_increasing(s: Seq<char>, i: int, j: int)
    requires
        0 <= i <= j <= s.len(),
    ensures
        utf8_len(s.take(i)) + (j - i) <= utf8_len(s.take(j)),
        utf8_len(s.take(j)) <= utf8_len(s),
{
    assert(s.take(j) =~= s.take(i) + s.subrange(i, j));
    lemma_encode_utf8_concat(s.take(i), s.subrange(i, j));
    lemma_utf8_len_at_least_chars(s.subrange(i, j));
    assert(s =~= s.take(j) + s.skip(j));
    lemma_encode_utf8_concat(s.take(j), s.skip(j));
}

/// The offset of one more character adds that character's encoding.
pub proof fn lemma_utf8_offset_step(s: Seq<char>, k: int)
    requires
        0 <= k < s.len(),
    ensures
        utf8_len(s.take(k + 1)) == utf8_len(s.take(k)) + utf8_len(seq![s[k]]),
{
    assert(s.take(k + 1) =~= s.take(k) + seq![s[k]]);
    lemma_encode_utf8_concat(s.take(k), seq![s[k]]);
}

/// The byte offset of every character is a character boundary.
pub proof fn lemma_char_offset_is_boundary(s: Seq<char>, k: int)
    requires
        0 <= k <= s.len(),
    ensures
        is_char_boundary(encode_utf8(s), utf8_len(s.take(k)) as int),
    decreases k,
{
    broadcast use encode_utf8_valid_utf8;

    if k == 0 {
        assert(s.take(0) =~= Seq::<char>::empty());
        assert(encode_utf8(s.take(0)) =~= Seq::<u8>::empty());
    } else {
        let t = s.drop_first();
        lemma_char_offset_is_boundary(t, k - 1);
        encode_utf8_first_scalar(s);
        lemma_char_utf8_len(s[0]);
        assert(s =~= seq![s[0]] + t);
        lemma_encode_utf8_concat(seq![s[0]], t);
        assert(pop_first_scalar(encode_utf8(s)) =~= encode_utf8(t));
        assert(s.take(k) =~= seq![s[0]] + t.take(k - 1));
        lemma_encode_utf8_concat(seq![s[0]], t.take(k - 1));
        lemma_utf8_offset_increasing(t, k - 1, k - 1);
    }
}

/// Every character boundary is the byte offset of some character.
pub proof fn lemma_boundary_is_char_offset(s: Seq<char>, b: int)
    requires
        is_char_boundary(encode_utf8(s), b),
    ensures
        exists|k: int| 0 <= k <= s.len() && #[trigger] utf8_len(s.take(k)) == b,
    decreases s.len(),
{
    broadcast use encode_utf8_valid_utf8;

    if b == 0 {
        assert(s.take(0) =~= Seq::<char>::empty());
        assert(encode_utf8(s.take(0)) =~= Seq::<u8>::empty());
        assert(utf8_len(s.take(0)) == 0);
    } else {
        if s.len() == 0 {
            assert(encode_utf8(s) =~= Seq::<u8>::empty());
            assert(false);
        }
        let t = s.drop_first();
        encode_utf8_first_scalar(s);
        lemma_char_utf8_len(s[0]);
        assert(s =~= seq![s[0]] + t);
        lemma_encode_utf8_concat(seq![s[0]], t);
        assert(pop_first_scalar(encode_utf8(s)) =~= encode_utf8(t));
        let l = utf8_len(seq![s[0]]) as int;
        assert(is_char_boundary(encode_utf8(t), b - l));
        lemma_boundary_is_char_offset(t, b - l);
        let k = choose|k: int| 0 <= k <= t.len() && #[trigger] utf8_len(t.take(k)) == b - l;
        assert(s.take(k + 1) =~= seq![s[0]] + t.take(k));
        lemma_encode_utf8_concat(seq![s[0]], t.take(k));
        assert(utf8_len(s.take(k + 1)) == b);
    }
}

/// Number of bytes `c` takes in UTF-8 (`char::len_utf8`).
pub fn char_utf8_len(c: char) -> (n: usize)
    ensures
        n == utf8_len(seq![c]),
        1 <= n <= 4,
{
    proof {
        lemma_char_utf8_len(c);
        char_is_scalar(c);
    }
    let v = c as u32;
    if v <= 0x7F {
        1
    } else if v <= 0x7FF {
        2
    } else if v <= 0xFFFF {
        3
    } else {
        4
    }
}

} // verus!

verus! {

/// Splits `s` at byte offset `mid`, a character boundary (`str::split_at`).
pub fn split_at_boundary(s: &str, mid: usize) -> (r: (&str, &str))
    requires
        is_char_boundary(encode_utf8(s@), mid as int),
    ensures
        r.0@ + r.1@ == s@,
        utf8_len(r.0@) == mid,
{
    proof {
        lemma_boundary_is_char_offset(s@, mid as int);
    }
    let ghost k = choose|k: int| 0 <= k <= s@.len() && #[trigger] utf8_len(s@.take(k)) == mid;
    let r = s.split_at(mid);
    proof {
        assert(s@ =~= s@.take(k) + s@.skip(k));
        lemma_encode_utf8_concat(s@.take(k), s@.skip(k));
        assert(encode_utf8(r.0@) =~= encode_utf8(s@.take(k)));
        assert(encode_utf8(r.1@) =~= encode_utf8(s@.skip(k)));
        encode_utf8_decode_utf8(r.0@);
        encode_utf8_decode_utf8(r.1@);
        encode_utf8_decode_utf8(s@.take(k));
        encode_utf8_decode_utf8(s@.skip(k));
    }
    r
}

/// Whether `c` is white space in Unicode's sense (`char::is_whitespace`).
pub open spec fn is_ws(c: char) -> bool {
    ('\t' <= c && c <= '\r') || c == ' ' || c == '\u{85}' || c == '\u{A0}' || c == '\u{1680}' || (
    '\u{2000}' <= c && c <= '\u{200A}') || c == '\u{2028}' || c == '\u{2029}' || c == '\u{202F}'
        || c == '\u{205F}' || c == '\u{3000}'
}

/// Whether `c` is white space.
pub fn is_whitespace(c: char) -> (r: bool)
    ensures
        r == is_ws(c),
{
    ('\t' <= c && c <= '\r') || c == ' ' || c == '\u{85}' || c == '\u{A0}' || c == '\u{1680}' || (
    '\u{2000}' <= c && c <= '\u{200A}') || c == '\u{2028}' || c == '\u{2029}' || c == '\u{202F}'
        || c == '\u{205F}' || c == '\u{3000}'
}

/// Index of the first character of `s` at or after `i` that is not white
/// space (`s.len()` if there is none).
pub open spec fn first_non_ws(s: Seq<char>, i: int) -> int
    decreases s.len() - i,
{
    if i >= s.len() {
        s.len() as int
    } else if !is_ws(s[i]) {
        i
    } else {
        first_non_ws(s, i + 1)
    }
}

/// One past the last character of `s` before `j` that is not white space
/// (0 if there is none).
pub open spec fn last_non_ws_end(s: Seq<char>, j: int) -> int
    decreases j,
{
    if j <= 0 {
        0
    } else if !is_ws(s[j - 1]) {
        j
    } else {
        last_non_ws_end(s, j - 1)
    }
}

/// `s` without leading and trailing white space (`str::trim`).
pub open spec fn trim(s: Seq<char>) -> Seq<char> {
    let a = first_non_ws(s, 0);
    let b = last_non_ws_end(s, s.len() as int);
    if a >= b {
        Seq::empty()
    } else {
        s.subrange(a, b)
    }
}

proof fn lemma_first_non_ws_bounds(s: Seq<char>, i: int)
    requires
        0 <= i <= s.len(),
    ensures
        i <= first_non_ws(s, i) <= s.len(),
        forall|t: int| i <= t < first_non_ws(s, i) ==> is_ws(#[trigger] s[t]),
        first_non_ws(s, i) < s.len() ==> !is_ws(s[first_non_ws(s, i)]),
    decreases s.len() - i,
{
    if i < s.len() && is_ws(s[i]) {
        lemma_first_non_ws_bounds(s, i + 1);
    }
}

proof fn lemma_last_non_ws_bounds(s: Seq<char>, j: int)
    requires
        0 <= j <= s.len(),
    ensures
        0 <= last_non_ws_end(s, j) <= j,
        forall|t: int| last_non_ws_end(s, j) <= t < j ==> is_ws(#[trigger] s[t]),
        last_non_ws_end(s, j) > 0 ==> !is_ws(s[last_non_ws_end(s, j) - 1]),
    decreases j,
{
    if j > 0 && is_ws(s[j - 1]) {
        lemma_last_non_ws_bounds(s, j - 1);
    }
}

/// `s` without leading and trailing white space.
pub fn trim_ws(s: &str) -> (r: String)
    ensures
        r@ == trim(s@),
{
    let n = s.unicode_len();
    let mut a: usize = 0;
    while a < n && is_whitespace(s.get_char(a))
        invariant
            n == s@.len(),
            a <= n,
            first_non_ws(s@, a as int) == first_non_ws(s@, 0),
        decreases n - a,
    {
        a = a + 1;
    }
    let mut b: usize = n;
    while b > 0 && is_whitespace(s.get_char(b - 1))
        invariant
            n == s@.len(),
            b <= n,
            last_non_ws_end(s@, b as int) == last_non_ws_end(s@, n as int),
        decreases b,
    {
        b = b - 1;
    }
    proof {
        lemma_first_non_ws_bounds(s@, 0);
        lemma_last_non_ws_bounds(s@, n as int);
    }
    if a >= b {
        String::new()
    } else {
        s.substring_char(a, b).to_owned()
    }
}

/// What `str::to_lowercase` returns for a string: each character replaced by
/// its Unicode lower-case mapping.
pub uninterp spec fn lowercase(s: Seq<char>) -> Seq<char>;

/// `s` in lower case (`str::to_lowercase`).
#[verifier::external_body]
pub(crate) fn to_lowercase(s: &str) -> (r: String)
    ensures
        r@ == lowercase(s@),
{
    s.to_lowercase()
}

} // verus!

verus! {

/// The character of decimal digit `d`.
pub open spec fn digit_char(d: nat) -> char {
    (48 + d) as char
}

/// `n` written in decimal, without leading zeros.
pub open spec fn decimal(n: nat) -> Seq<char>
    decreases n,
{
    if n < 10 {
        seq![digit_char(n)]
    } else {
        decimal(n / 10).push(digit_char(n % 10))
    }
}

/// `n` in decimal, left-padded with zeros to at least `width` digits.
pub open spec fn padded_decimal(n: nat, width: nat) -> Seq<char> {
    let d = decimal(n);
    if d.len() < width {
        Seq::new((width - d.len()) as nat, |i: int| '0') + d
    } else {
        d
    }
}

/// The character of a decimal digit.
fn digit(d: usize) -> (c: char)
    requires
        d < 10,
    ensures
        c == digit_char(d as nat),
{
    let b: u8 = 48 + (d as u8);
    b as char
}

/// `n` in decimal (`usize::to_string`).
pub fn usize_to_decimal(n: usize) -> (s: String)
    ensures
        s@ == decimal(n as nat),
    decreases n,
{
    if n < 10 {
        let mut s = String::new();
        push_char(&mut s, digit(n));
        s
    } else {
        let mut s = usize_to_decimal(n / 10);
        push_char(&mut s, digit(n % 10));
        s
    }
}

/// `n` in decimal, zero-padded to at least `width` digits (`{n:0width$}`).
pub fn padded_usize(n: usize, width: usize) -> (s: String)
    ensures
        s@ == padded_decimal(n as nat, width as nat),
{
    let d = usize_to_decimal(n);
    let len = d.as_str().unicode_len();
    if len >= width {
        return d;
    }
    let mut s = String::new();
    let mut i: usize = 0;
    while i < width - len
        invariant
            i <= width - len,
            len < width,
            s@ == Seq::new(i as nat, |t: int| '0'),
        decreases width - len - i,
    {
        push_char(&mut s, '0');
        i = i + 1;
        assert(s@ =~= Seq::new(i as nat, |t: int| '0'));
    }
    s.append(d.as_str());
    s
}

} // verus!

verus! {

/// At most the first `n` characters of `s`.
pub fn take_chars(s: &str, n: usize) -> (r: String)
    ensures
        r@ == s@.take(if n < s@.len() { n as int } else { s@.len() as int }),
{
    let len = s.unicode_len();
    let k = if n < len {
        n
    } else {
        len
    };
    s.substring_char(0, k).to_owned()
}

} // verus!

verus! {

/// A string holding the characters `chars`.
pub fn string_of(chars: &Vec<char>) -> (s: String)
    ensures
        s@ == chars@,
{
    let mut s = String::new();
    let mut i: usize = 0;
    while i < chars.len()
        invariant
            i <= chars@.len(),
            s@ == chars@.take(i as int),
        decreases chars@.len() - i,
    {
        push_char(&mut s, chars[i]);
        i = i + 1;
        assert(s@ =~= chars@.take(i as int));
    }
    assert(chars@.take(chars@.len() as int) =~= chars@);
    s
}

/// Whether `p` occurs in `s`.
pub fn contains_exec(s: &Vec<char>, p: &Vec<char>) -> (r: bool)
    ensures
        r == contains_seq(s@, p@),
{
    if p.len() > s.len() {
        return false;
    }
    if p.len() == 0 {
        assert(s@.subrange(0, 0) =~= p@);
        assert(occurs_at(s@, p@, 0));
        return true;
    }
    let mut i: usize = 0;
    while i <= s.len() - p.len()
        invariant
            0 < p@.len() <= s@.len(),
            i <= s@.len() - p@.len() + 1,
            forall|t: int| 0 <= t < i ==> !occurs_at(s@, p@, t),
        decreases s@.len() - p@.len() + 1 - i,
    {
        if occurs_at_exec(s, p, i) {
            return true;
        }
        i = i + 1;
    }
    assert forall|t: int| !occurs_at(s@, p@, t) by {
        if 0 <= t < i {
        }
    }
    false
}

} // verus!

verus! {

/// `s.parse()` into an unsigned integer type whose largest value is `max`:
/// one or more ASCII digits, optionally preceded by `+`, with a value of at
/// most `max`.
pub open spec fn parse_unsigned(s: Seq<char>, max: nat) -> Option<nat> {
    let d = crate::updater::unsigned_digits(s);
    if d.len() > 0 && (forall|i: int| 0 <= i < d.len() ==> crate::updater::is_digit(#[trigger] d[i]))
        && crate::updater::decimal_value(d) <= max {
        Some(crate::updater::decimal_value(d))
    } else {
        None
    }
}

/// Parses `s` as an unsigned number of at most `max`.
pub fn parse_unsigned_exec(s: &str, max: u64) -> (r: Option<u64>)
    ensures
        match r {
            Some(v) => parse_unsigned(s@, max as nat) == Some(v as nat),
            None => parse_unsigned(s@, max as nat) is None,
        },
{
    let cs = chars_of(s);
    let mut start: usize = 0;
    if cs.len() > 0 && cs[0] == '+' {
        start = 1;
    }
    let ghost d = crate::updater::unsigned_digits(s@);
    assert(d =~= cs@.skip(start as int));
    if start >= cs.len() {
        assert(d.len() == 0);
        return None;
    }
    let mut value: u64 = 0;
    let mut i: usize = start;
    assert(d.take(0) =~= Seq::<char>::empty());
    while i < cs.len()
        invariant
            start <= i <= cs@.len(),
            cs@ == s@,
            d == crate::updater::unsigned_digits(s@),
            d =~= cs@.skip(start as int),
            forall|t: int| 0 <= t < i - start ==> crate::updater::is_digit(#[trigger] d[t]),
            value as nat == crate::updater::decimal_value(d.take(i - start)),
            value <= max,
        decreases cs@.len() - i,
    {
        let c = cs[i];
        assert(d[i - start] == c);
        if !('0' <= c && c <= '9') {
            assert(!crate::updater::is_digit(d[i - start]));
            return None;
        }
        let digit = (c as u32 - '0' as u32) as u128;
        proof {
            let t = d.take(i - start + 1);
            assert(t.drop_last() =~= d.take(i - start));
            assert(t.last() == c);
        }
        let next: u128 = value as u128 * 10 + digit;
        if next > max as u128 {
            proof {
                if forall|t: int| 0 <= t < d.len() ==> crate::updater::is_digit(#[trigger] d[t]) {
                    crate::updater::lemma_decimal_value_prefix_mono(d, (i - start + 1) as int);
                }
            }
            return None;
        }
        value = next as u64;
        i = i + 1;
    }
    assert(d.take(i - start) =~= d);
    Some(value)
}

} // verus!

verus! {

/// `s` with every occurrence of `from` replaced by `to`, scanning from the
/// left without overlaps (`str::replace`, for a non-empty `from`).
pub open spec fn replace_all(s: Seq<char>, from: Seq<char>, to: Seq<char>) -> Seq<char>
    decreases s.len(),
{
    if s.len() == 0 || from.len() == 0 {
        s
    } else if starts_with(s, from) {
        to + replace_all(s.skip(from.len() as int), from, to)
    } else {
        seq![s[0]] + replace_all(s.drop_first(), from, to)
    }
}

/// `s` with every occurrence of the non-empty `from` replaced by `to`.
pub fn replace_str(s: &str, from: &str, to: &str) -> (r: String)
    requires
        from@.len() > 0,
    ensures
        r@ == replace_all(s@, from@, to@),
{
    let cs = chars_of(s);
    let fs = chars_of(from);
    let mut out = String::new();
    let mut i: usize = 0;
    assert(cs@.skip(0) =~= cs@);
    while i < cs.len()
        invariant
            i <= cs@.len(),
            cs@ == s@,
            fs@ == from@,
            fs@.len() > 0,
            out@ + replace_all(cs@.skip(i as int), from@, to@) == replace_all(s@, from@, to@),
        decreases cs@.len() - i,
    {
        let ghost rest = cs@.skip(i as int);
        let hit = occurs_at_exec(&cs, &fs, i);
        proof {
            if hit {
                assert(rest.take(fs@.len() as int) =~= cs@.subrange(i as int, i + fs@.len()));
            } else if fs@.len() <= rest.len() {
                assert(rest.take(fs@.len() as int) =~= cs@.subrange(i as int, i + fs@.len()));
            }
        }
        if hit {
            out.append(to);
            proof {
                assert(rest.skip(fs@.len() as int) =~= cs@.skip(i + fs@.len()));
                assert(out@ + replace_all(cs@.skip(i + fs@.len()), from@, to@) =~= out@.subrange(0, out@.len() - to@.len()) + (to@ + replace_all(rest.skip(fs@.len() as int), from@, to@)));
            }
            i = i + fs.len();
        } else {
            push_char(&mut out, cs[i]);
            proof {
                assert(rest.drop_first() =~= cs@.skip(i + 1));
                assert(rest[0] == cs@[i as int]);
                assert(out@ + replace_all(cs@.skip(i + 1), from@, to@) =~= out@.drop_last() + (seq![cs@[i as int]] + replace_all(rest.drop_first(), from@, to@)));
            }
            i = i + 1;
        }
    }
    proof {
        assert(cs@.skip(i as int) =~= Seq::<char>::empty());
        assert(out@ + Seq::<char>::empty() =~= out@);
    }
    out
}

} // verus!

verus! {

/// `s` without one trailing carriage return.
pub open spec fn strip_cr(s: Seq<char>) -> Seq<char> {
    if s.len() > 0 && s.last() == '\r' {
        s.drop_last()
    } else {
        s
    }
}

/// The lines of `s` (`str::lines`): the pieces between line feeds, each
/// without a `\r` that came right before its line feed; a final empty piece
/// (after a last line feed, or of an empty `s`) is no line.
pub open spec fn text_lines(s: Seq<char>) -> Seq<Seq<char>> {
    let p = crate::updater::split_char(s, '\n');
    let body = p.drop_last().map_values(|l: Seq<char>| strip_cr(l));
    if p.last().len() == 0 {
        body
    } else {
        body.push(p.last())
    }
}

/// The lines of `s`.
pub fn lines_of(s: &str) -> (r: Vec<String>)
    ensures
        r@.map_values(|l: String| l@) == text_lines(s@),
{
    let pieces = crate::updater::split_on_char(s, '\n');
    let ghost p = pieces@.map_values(|x: Vec<char>| x@);
    proof {
        crate::updater::lemma_split_char_nonempty(s@, '\n');
    }
    let n = pieces.len();
    let mut out: Vec<String> = Vec::new();
    let mut i: usize = 0;
    while i + 1 < n
        invariant
            n == pieces@.len(),
            n > 0,
            i + 1 <= n,
            p == pieces@.map_values(|x: Vec<char>| x@),
            out@.map_values(|l: String| l@) == p.drop_last().take(i as int).map_values(|l: Seq<char>| strip_cr(l)),
        decreases n - i,
    {
        let piece = &pieces[i];
        let m = piece.len();
        let line = if m > 0 && piece[m - 1] == '\r' {
            let mut v: Vec<char> = Vec::new();
            let mut j: usize = 0;
            while j + 1 < m
                invariant
                    m == piece@.len(),
                    m > 0,
                    j + 1 <= m,
                    v@ == piece@.take(j as int),
                decreases m - j,
            {
                v.push(piece[j]);
                j = j + 1;
                assert(v@ =~= piece@.take(j as int));
            }
            assert(v@ =~= piece@.drop_last());
            string_of(&v)
        } else {
            string_of(piece)
        };
        let ghost before = out@.map_values(|l: String| l@);
        out.push(line);
        proof {
            assert(p[i as int] == piece@);
            assert(p.drop_last().take(i as int + 1) =~= p.drop_last().take(i as int).push(p[i as int]));
            assert(out@.map_values(|l: String| l@) =~= before.push(strip_cr(piece@)));
        }
        i = i + 1;
    }
    proof {
        assert(p.drop_last().take(i as int) =~= p.drop_last());
    }
    let last = &pieces[n - 1];
    assert(p.last() == last@);
    if last.len() > 0 {
        let ghost before = out@.map_values(|l: String| l@);
        out.push(string_of(last));
        assert(out@.map_values(|l: String| l@) =~= before.push(last@));
    }
    out
}

} // verus!
