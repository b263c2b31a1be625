//! Update checking: comparing release versions and deciding whether a
//! published release is newer than the running one.

use vstd::prelude::*;
use crate::text::{owned, push_char, take_chars};

verus! {

/// A newer release than the running one.
#[derive(Debug, Clone)]
pub struct UpdateInfo {
    pub version: String,
    pub html_url: String,
    pub body: String,
}

/// The pieces of `s` between occurrences of `sep` (`str::split`): one more
/// piece than there are separators, empty pieces included.
pub open spec fn split_char(s: Seq<char>, sep: char) -> Seq<Seq<char>>
    decreases s.len(),
{
    if s.len() == 0 {
        seq![seq![]]
    } else {
        let rest = split_char(s.drop_last(), sep);
        if s.last() == sep {
            rest.push(seq![])
        } else {
            rest.update(rest.len() - 1, rest.last().push(s.last()))
        }
    }
}

pub proof fn lemma_split_char_nonempty(s: Seq<char>, sep: char)
    ensures
        split_char(s, sep).len() > 0,
    decreases s.len(),
{
    if s.len() > 0 {
        lemma_split_char_nonempty(s.drop_last(), sep);
    }
}

/// Whether `c` is an ASCII decimal digit.
pub open spec fn is_digit(c: char) -> bool {
    '0' <= c <= '9'
}

/// The value of a string of decimal digits.
pub open spec fn decimal_value(d: Seq<char>) -> nat
    decreases d.len(),
{
    if d.len() == 0 {
        0
    } else {
        decimal_value(d.drop_last()) * 10 + ((d.last() as nat) - ('0' as nat)) as nat
    }
}

/// The digits of an unsigned number as `u32::from_str` reads them: an
/// optional leading `+` followed by the rest.
pub open spec fn unsigned_digits(s: Seq<char>) -> Seq<char> {
    if s.len() > 0 && s[0] == '+' { s.skip(1) } else { s }
}

/// `s.parse::<u32>().ok()`: one or more ASCII digits, optionally preceded
/// by `+`, whose value fits in 32 bits.
pub open spec fn parse_u32(s: Seq<char>) -> Option<u32> {
    let d = unsigned_digits(s);
    if d.len() > 0 && (forall|i: int| 0 <= i < d.len() ==> is_digit(#[trigger] d[i])) && decimal_value(d)
        <= u32::MAX {
        Some(decimal_value(d) as u32)
    } else {
        None
    }
}

/// The pieces that parse as numbers, in order (`filter_map(parse)`).
pub open spec fn parsed_numbers(pieces: Seq<Seq<char>>) -> Seq<u32>
    decreases pieces.len(),
{
    if pieces.len() == 0 {
        seq![]
    } else {
        let rest = parsed_numbers(pieces.drop_last());
        match parse_u32(pieces.last()) {
            Some(n) => rest.push(n),
            None => rest,
        }
    }
}

/// The `i`-th element of `s`, or 0.
pub open spec fn nth_or_zero(s: Seq<u32>, i: int) -> u32 {
    if 0 <= i < s.len() { s[i] } else { 0 }
}

/// `(major, minor, patch)` of a version string: the first three
/// dot-separated pieces that are numbers, missing ones as 0.
pub open spec fn semver(v: Seq<char>) -> (u32, u32, u32) {
    let nums = parsed_numbers(split_char(v, '.'));
    (nth_or_zero(nums, 0), nth_or_zero(nums, 1), nth_or_zero(nums, 2))
}

/// Lexicographic order on version triples.
pub open spec fn triple_gt(a: (u32, u32, u32), b: (u32, u32, u32)) -> bool {
    a.0 > b.0 || (a.0 == b.0 && (a.1 > b.1 || (a.1 == b.1 && a.2 > b.2)))
}

fn parse_u32_chars(s: &Vec<char>) -> (r: Option<u32>)
    ensures
        r == parse_u32(s@),
{
    let mut start: usize = 0;
    if s.len() > 0 && s[0] == '+' {
        start = 1;
    }
    let ghost d = unsigned_digits(s@);
    assert(d =~= s@.skip(start as int));
    if start >= s.len() {
        return None;
    }
    let mut value: u64 = 0;
    let mut i: usize = start;
    while i < s.len()
        invariant
            start <= i <= s@.len(),
            d == unsigned_digits(s@),
            d =~= s@.skip(start as int),
            forall|t: int| 0 <= t < i - start ==> is_digit(#[trigger] d[t]),
            value as nat == decimal_value(d.take(i - start)),
            value <= u32::MAX,
        decreases s@.len() - i,
    {
        let c = s[i];
        assert(d[i - start] == c);
        if !('0' <= c && c <= '9') {
            assert(!is_digit(d[i - start]));
            return None;
        }
        let digit = (c as u32 - '0' as u32) as u64;
        let next = value * 10 + digit;
        proof {
            let t = d.take(i - start + 1);
            assert(t.drop_last() =~= d.take(i - start));
            assert(t.last() == c);
        }
        if next > 0xffff_ffffu64 {
            proof {
                if forall|t: int| 0 <= t < d.len() ==> is_digit(#[trigger] d[t]) {
                    lemma_decimal_value_prefix_mono(d, (i - start + 1) as int);
                }
            }
            return None;
        }
        value = next;
        i = i + 1;
    }
    assert(d.take(i - start) =~= d);
    Some(value as u32)
}

/// A longer digit prefix never has a smaller value.
pub proof fn lemma_decimal_value_prefix_mono(d: Seq<char>, k: int)
    requires
        0 <= k <= d.len(),
        forall|i: int| 0 <= i < d.len() ==> is_digit(#[trigger] d[i]),
    ensures
        decimal_value(d.take(k)) <= decimal_value(d),
    decreases d.len() - k,
{
    if k < d.len() {
        lemma_decimal_value_prefix_mono(d, k + 1);
        let t = d.take(k + 1);
        assert(t.drop_last() =~= d.take(k));
        assert(is_digit(d[k]));
    } else {
        assert(d.take(k) =~= d);
    }
}

pub(crate) fn split_on_char(s: &str, sep: char) -> (r: Vec<Vec<char>>)
    ensures
        r@.map_values(|p: Vec<char>| p@) == split_char(s@, sep),
{
    let chars = crate::text::chars_of(s);
    let mut pieces: Vec<Vec<char>> = Vec::new();
    let mut current: Vec<char> = Vec::new();
    let mut i: usize = 0;
    while i < chars.len()
        invariant
            i <= chars@.len(),
            chars@ == s@,
            pieces@.map_values(|p: Vec<char>| p@).push(current@) == split_char(chars@.take(i as int), sep),
        decreases chars@.len() - i,
    {
        let ghost prev = chars@.take(i as int);
        let c = chars[i];
        proof {
            assert(chars@.take(i as int + 1).drop_last() =~= prev);
            assert(chars@.take(i as int + 1).last() == c);
        }
        if c == sep {
            let ghost before = pieces@.map_values(|p: Vec<char>| p@);
            pieces.push(current);
            current = Vec::new();
            assert(pieces@.map_values(|p: Vec<char>| p@) =~= before.push(pieces@.last()@));
            assert(pieces@.map_values(|p: Vec<char>| p@).push(current@) =~= split_char(chars@.take(i as int + 1), sep));
        } else {
            current.push(c);
            assert(pieces@.map_values(|p: Vec<char>| p@).push(current@) =~= split_char(chars@.take(i as int + 1), sep));
        }
        i = i + 1;
    }
    assert(chars@.take(i as int) =~= s@);
    let ghost before = pieces@.map_values(|p: Vec<char>| p@);
    pieces.push(current);
    assert(pieces@.map_values(|p: Vec<char>| p@) =~= before.push(pieces@.last()@));
    pieces
}

fn parse_semver(v: &str) -> (r: (u32, u32, u32))
    ensures
        r == semver(v@),
{
    let pieces = split_on_char(v, '.');
    let ghost views = pieces@.map_values(|p: Vec<char>| p@);
    let mut nums: Vec<u32> = Vec::new();
    let mut i: usize = 0;
    while i < pieces.len()
        invariant
            i <= pieces@.len(),
            views == pieces@.map_values(|p: Vec<char>| p@),
            nums@ == parsed_numbers(views.take(i as int)),
        decreases pieces@.len() - i,
    {
        proof {
            assert(views.take(i as int + 1).drop_last() =~= views.take(i as int));
            assert(views.take(i as int + 1).last() == pieces@[i as int]@);
        }
        match parse_u32_chars(&pieces[i]) {
            Some(n) => nums.push(n),
            None => {},
        }
        i = i + 1;
    }
    assert(views.take(i as int) =~= views);
    let a = if nums.len() > 0 { nums[0] } else { 0 };
    let b = if nums.len() > 1 { nums[1] } else { 0 };
    let c = if nums.len() > 2 { nums[2] } else { 0 };
    (a, b, c)
}

/// Returns true if `candidate` is strictly newer than `current` (simple
/// semver compare of `(major, minor, patch)`).
pub fn semver_newer(candidate: &str, current: &str) -> (r: bool)
    ensures
        r == triple_gt(semver(candidate@), semver(current@)),
{
    let a = parse_semver(candidate);
    let b = parse_semver(current);
    a.0 > b.0 || (a.0 == b.0 && (a.1 > b.1 || (a.1 == b.1 && a.2 > b.2)))
}

/// "Strictly newer" is a strict order on versions: no version is newer than
/// itself, of two versions at most one is newer than the other, and newer
/// than newer is newer.
pub proof fn law_newer_is_a_strict_order(a: Seq<char>, b: Seq<char>, c: Seq<char>)
    ensures
        !triple_gt(semver(a), semver(a)),
        triple_gt(semver(a), semver(b)) ==> !triple_gt(semver(b), semver(a)),
        triple_gt(semver(a), semver(b)) && triple_gt(semver(b), semver(c)) ==> triple_gt(
            semver(a),
            semver(c),
        ),
{
}

/// `s` without its leading `c` characters.
pub open spec fn trim_start_char(s: Seq<char>, c: char) -> Seq<char>
    decreases s.len(),
{
    if s.len() > 0 && s[0] == c {
        trim_start_char(s.skip(1), c)
    } else {
        s
    }
}

fn trim_start_matches_char(s: &str, c: char) -> (r: String)
    ensures
        r@ == trim_start_char(s@, c),
{
    let chars = crate::text::chars_of(s);
    let mut k: usize = 0;
    assert(chars@.skip(0) =~= chars@);
    while k < chars.len() && chars[k] == c
        invariant
            k <= chars@.len(),
            chars@ == s@,
            trim_start_char(chars@.skip(k as int), c) == trim_start_char(s@, c),
        decreases chars@.len() - k,
    {
        assert(chars@.skip(k as int + 1) =~= chars@.skip(k as int).skip(1));
        k = k + 1;
    }
    let mut r = String::new();
    let mut i: usize = k;
    while i < chars.len()
        invariant
            k <= i <= chars@.len(),
            r@ == chars@.subrange(k as int, i as int),
        decreases chars@.len() - i,
    {
        push_char(&mut r, chars[i]);
        i = i + 1;
        assert(r@ =~= chars@.subrange(k as int, i as int));
    }
    assert(chars@.skip(k as int) =~= chars@.subrange(k as int, i as int));
    r
}


/// Characters of a release's notes kept for display.
pub const RELEASE_BODY_CHARS: usize = 400;

/// Decide whether a published release (its tag, page URL and notes, as
/// read from the release feed) is an update for the running `current`
/// version. The tag's leading `v`s are dropped.
pub fn release_update(tag: &str, html_url: Option<&str>, body: Option<&str>, current: &str) -> (r:
    Option<UpdateInfo>)
    ensures
        triple_gt(semver(trim_start_char(tag@, 'v')), semver(current@)) <==> r.is_some(),
        r matches Some(info) ==> {
            &&& info.version@ == trim_start_char(tag@, 'v')
            &&& info.html_url@ == (match html_url { Some(u) => u@, None => Seq::empty() })
            &&& info.body@ == (match body {
                Some(b) => b@.take(if RELEASE_BODY_CHARS < b@.len() { RELEASE_BODY_CHARS as int } else { b@.len() as int }),
                None => Seq::empty(),
            })
        },
{
    let version = trim_start_matches_char(tag, 'v');
    if semver_newer(version.as_str(), current) {
        let html_url = match html_url {
            Some(u) => owned(u),
            None => String::new(),
        };
        let body = match body {
            Some(b) => take_chars(b, RELEASE_BODY_CHARS),
            None => String::new(),
        };
        Some(UpdateInfo { version, html_url, body })
    } else {
        None
    }
}

} // verus!
