//! The order of strings (`Ord for String`: byte-wise lexicographic) and
//! sorting by it.

use vstd::prelude::*;
use vstd::utf8::encode_utf8;

verus! {

/// Lexicographic "less than" on byte sequences.
pub open spec fn bytes_lt(a: Seq<u8>, b: Seq<u8>) -> bool
    decreases a.len(),
{
    if a.len() == 0 {
        b.len() > 0
    } else if b.len() == 0 {
        false
    } else if a[0] != b[0] {
        a[0] < b[0]
    } else {
        bytes_lt(a.drop_first(), b.drop_first())
    }
}

/// `a < b` as strings: their UTF-8 bytes compared lexicographically.
pub open spec fn str_lt(a: Seq<char>, b: Seq<char>) -> bool {
    bytes_lt(encode_utf8(a), encode_utf8(b))
}

/// Whether `s` is in ascending string order.
pub open spec fn sorted_strs(s: Seq<Seq<char>>) -> bool {
    forall|i: int, j: int| 0 <= i < j < s.len() ==> !str_lt(#[trigger] s[j], #[trigger] s[i])
}

/// `bytes_lt` is irreflexive and asymmetric.
pub proof fn lemma_bytes_lt_asym(a: Seq<u8>, b: Seq<u8>)
    ensures
        !(bytes_lt(a, b) && bytes_lt(b, a)),
        !bytes_lt(a, a),
    decreases a.len(),
{
    if a.len() > 0 && b.len() > 0 && a[0] == b[0] {
        lemma_bytes_lt_asym(a.drop_first(), b.drop_first());
    }
    if a.len() > 0 {
        lemma_bytes_lt_asym(a.drop_first(), a.drop_first());
    }
}

/// `bytes_lt` is transitive.
pub proof fn lemma_bytes_lt_trans(a: Seq<u8>, b: Seq<u8>, c: Seq<u8>)
    requires
        bytes_lt(a, b),
        bytes_lt(b, c),
    ensures
        bytes_lt(a, c),
    decreases a.len(),
{
    if a.len() > 0 && b.len() > 0 && c.len() > 0 && a[0] == b[0] && b[0] == c[0] {
        lemma_bytes_lt_trans(a.drop_first(), b.drop_first(), c.drop_first());
    }
}

/// Two byte sequences that are not less than each other are equal.
pub proof fn lemma_bytes_lt_total(a: Seq<u8>, b: Seq<u8>)
    requires
        !bytes_lt(a, b),
        !bytes_lt(b, a),
    ensures
        a == b,
    decreases a.len(),
{
    if a.len() > 0 && b.len() > 0 {
        lemma_bytes_lt_total(a.drop_first(), b.drop_first());
        assert(a =~= seq![a[0]] + a.drop_first());
        assert(b =~= seq![b[0]] + b.drop_first());
    } else {
        assert(a =~= b);
    }
}

/// `a < b` for two byte strings.
pub fn bytes_less(a: &[u8], b: &[u8]) -> (r: bool)
    ensures
        r == bytes_lt(a@, b@),
{
    let mut i: usize = 0;
    assert(a@.skip(0) =~= a@);
    assert(b@.skip(0) =~= b@);
    while i < a.len() && i < b.len() && a[i] == b[i]
        invariant
            i <= a@.len(),
            i <= b@.len(),
            bytes_lt(a@.skip(i as int), b@.skip(i as int)) == bytes_lt(a@, b@),
        decreases a@.len() - i,
    {
        assert(a@.skip(i as int).drop_first() =~= a@.skip(i + 1));
        assert(b@.skip(i as int).drop_first() =~= b@.skip(i + 1));
        i = i + 1;
    }
    let ghost sa = a@.skip(i as int);
    let ghost sb = b@.skip(i as int);
    if i == a.len() {
        assert(sa.len() == 0);
        i < b.len()
    } else if i == b.len() {
        false
    } else {
        assert(sa[0] == a@[i as int] && sb[0] == b@[i as int]);
        a[i] < b[i]
    }
}

/// `a < b` for two strings.
pub fn str_less(a: &String, b: &String) -> (r: bool)
    ensures
        r == str_lt(a@, b@),
{
    bytes_less(a.as_str().as_bytes(), b.as_str().as_bytes())
}

/// The views of a vector of strings.
pub open spec fn strs_view(v: Seq<String>) -> Seq<Seq<char>> {
    v.map_values(|s: String| s@)
}

/// `v` in ascending string order (a stable sort, as `slice::sort` is).
pub fn sort_strings(v: Vec<String>) -> (r: Vec<String>)
    ensures
        sorted_strs(strs_view(r@)),
        strs_view(r@).to_multiset() == strs_view(v@).to_multiset(),
{
    broadcast use vstd::seq_lib::group_to_multiset_ensures;

    let mut out: Vec<String> = Vec::new();
    let mut rest = v;
    let ghost all = strs_view(rest@);
    // Take elements from the back of `rest` and insert each into `out`.
    while rest.len() > 0
        invariant
            sorted_strs(strs_view(out@)),
            strs_view(out@).to_multiset().add(strs_view(rest@).to_multiset()) == all.to_multiset(),
        decreases rest@.len(),
    {
        let ghost before_rest = strs_view(rest@);
        let x = rest.pop().unwrap();
        proof {
            assert(before_rest =~= strs_view(rest@).push(x@));
        }
        let mut p: usize = 0;
        while p < out.len() && !str_less(&x, &out[p])
            invariant
                p <= out@.len(),
                forall|k: int| 0 <= k < p ==> !str_lt(x@, #[trigger] strs_view(out@)[k]),
            decreases out@.len() - p,
        {
            p = p + 1;
        }
        let ghost old_out = strs_view(out@);
        out.insert(p, x);
        proof {
            let no = strs_view(out@);
            assert(no =~= old_out.insert(p as int, x@));
            assert forall|i: int, j: int| 0 <= i < j < no.len() implies !str_lt(#[trigger] no[j], #[trigger] no[i]) by {
                if j < p {
                    assert(no[i] == old_out[i] && no[j] == old_out[j]);
                } else if j == p {
                    assert(no[i] == old_out[i]);
                    lemma_bytes_lt_asym(encode_utf8(x@), encode_utf8(no[i]));
                    if str_lt(x@, no[i]) {
                    } else if str_lt(no[i], x@) {
                    } else {
                        lemma_bytes_lt_total(encode_utf8(x@), encode_utf8(no[i]));
                    }
                    assert(!str_lt(x@, old_out[i]));
                    if str_lt(no[j], no[i]) {
                        assert(str_lt(x@, old_out[i]));
                    }
                } else if i == p {
                    assert(no[j] == old_out[j - 1]);
                    // x < out[p] (the loop stopped there) and out[p] <= out[j-1].
                    assert(p < old_out.len());
                    assert(str_lt(x@, old_out[p as int]));
                    if str_lt(old_out[j - 1], x@) {
                        lemma_bytes_lt_trans(encode_utf8(old_out[j - 1]), encode_utf8(x@), encode_utf8(old_out[p as int]));
                        if j - 1 == p {
                            lemma_bytes_lt_asym(encode_utf8(old_out[p as int]), encode_utf8(old_out[p as int]));
                        }
                    }
                } else if i < p {
                    assert(no[i] == old_out[i]);
                    assert(no[j] == old_out[j - 1]);
                } else {
                    assert(no[i] == old_out[i - 1]);
                    assert(no[j] == old_out[j - 1]);
                }
            }
            assert(no.remove(p as int) =~= old_out);
            assert(no[p as int] == x@);
            assert(no.to_multiset() =~= old_out.to_multiset().insert(x@)) by {
                no.to_multiset_ensures();
                assert(no.remove(p as int).to_multiset() =~= no.to_multiset().remove(x@));
                assert(no.to_multiset().count(x@) > 0) by {
                    assert(no.contains(x@));
                }
            }
            strs_view(rest@).to_multiset_ensures();
            assert(before_rest.to_multiset() =~= strs_view(rest@).to_multiset().insert(x@));
            assert(no.to_multiset().add(strs_view(rest@).to_multiset()) =~= old_out.to_multiset().add(before_rest.to_multiset()));
        }
    }
    proof {
        assert(strs_view(rest@) =~= Seq::<Seq<char>>::empty());
        assert(strs_view(rest@).to_multiset() =~= vstd::multiset::Multiset::empty());
        assert(strs_view(out@).to_multiset().add(vstd::multiset::Multiset::empty()) =~= strs_view(out@).to_multiset());
    }
    out
}

} // verus!
