//! Small spec-level helpers over sequences of rows.

use vstd::prelude::*;

verus! {

/// The contents of each row of a vector of vectors.
pub open spec fn rows<T>(v: Seq<Vec<T>>) -> Seq<Seq<T>> {
    v.map_values(|r: Vec<T>| r@)
}

/// `s` cut or extended with `fill` to exactly `n` elements.
pub open spec fn fit<T>(s: Seq<T>, n: nat, fill: T) -> Seq<T> {
    Seq::new(n, |j: int| if j < s.len() { s[j] } else { fill })
}

/// A vector holding `fit(s@, n, fill)`.
pub fn fit_vec<T: Copy>(s: &Vec<T>, n: usize, fill: T) -> (r: Vec<T>)
    ensures
        r@ == fit(s@, n as nat, fill),
{
    let mut r: Vec<T> = Vec::with_capacity(n);
    let mut j: usize = 0;
    while j < n
        invariant
            j <= n,
            r@ == fit(s@, n as nat, fill).take(j as int),
        decreases n - j,
    {
        if j < s.len() {
            r.push(s[j]);
        } else {
            r.push(fill);
        }
        j = j + 1;
        assert(r@ =~= fit(s@, n as nat, fill).take(j as int));
    }
    assert(r@ =~= fit(s@, n as nat, fill));
    r
}

} // verus!
