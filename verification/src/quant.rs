//! Quantized projection weights as integers: levels packed into `u32`
//! words, read back one by one, and the integer dot products of the decode
//! kernel.

use vstd::prelude::*;

use crate::checkpoint::QuantFormat;

verus! {

/// Putting a value of `b` bits at bit `s` of a word whose bits from `s` up
/// are clear keeps the values below it, stores it, and leaves the bits above
/// it clear.
proof fn lemma_put_slot(w: u32, q: u32, s: u32, t: u32, b: u32, m: u32)
    by (bit_vector)
    requires
        (b == 4 && m == 15) || (b == 8 && m == 255),
        s + b <= 32,
        w >> s == 0,
        q <= m,
    ensures
        t + b <= s ==> ((w | (q << s)) >> t) & m == (w >> t) & m,
        ((w | (q << s)) >> s) & m == q,
        s + b < 32 ==> (w | (q << s)) >> ((s + b) as u32) == 0,
{
}


/// Bits per stored value.
pub open spec fn bits_of(f: QuantFormat) -> nat {
    match f {
        QuantFormat::Q4 => 4,
        QuantFormat::Q8 => 8,
    }
}

/// Values per `u32` word.
pub open spec fn per_word_of(f: QuantFormat) -> nat {
    match f {
        QuantFormat::Q4 => 8,
        QuantFormat::Q8 => 4,
    }
}

/// The mask of one stored value.
pub open spec fn mask_of(f: QuantFormat) -> u32 {
    match f {
        QuantFormat::Q4 => 15,
        QuantFormat::Q8 => 255,
    }
}

/// What is added to a level to store it.
pub open spec fn offset_of(f: QuantFormat) -> int {
    match f {
        QuantFormat::Q4 => 8,
        QuantFormat::Q8 => 128,
    }
}

/// The stored value in slot `j` of word `w`.
pub open spec fn slot(w: u32, j: nat, f: QuantFormat) -> u32 {
    (w >> ((j * bits_of(f)) as u32)) & mask_of(f)
}

/// The level stored as value `i` of `words`: slot `i % per_word` of word
/// `i / per_word`, less the offset.
pub open spec fn stored_level(words: Seq<u32>, i: int, f: QuantFormat) -> int {
    slot(words[i / per_word_of(f) as int], (i % per_word_of(f) as int) as nat, f) as int - offset_of(f)
}

/// Whether `level` can be stored: with the offset added it fits the bits.
pub open spec fn storable(level: i32, f: QuantFormat) -> bool {
    0 <= level + offset_of(f) <= mask_of(f)
}

/// Reads level `i` back from packed `words`.
pub fn level_at(words: &[u32], i: usize, f: QuantFormat) -> (r: i32)
    requires
        (i as int) / (per_word_of(f) as int) < words@.len(),
    ensures
        r == stored_level(words@, i as int, f),
{
    let pw = f.per_word();
    let bits = f.bits();
    let shift = ((i % pw) * bits) as u32;
    let word = words[i / pw];
    let m = f.mask();
    let q = (word >> shift) & m;
    assert(q <= 255) by (bit_vector)
        requires
            q == (word >> shift) & m,
            m == 15 || m == 255,
    ;
    q as i32 - f.offset()
}

/// Packs `levels` into words, `per_word` values to a word from the lowest
/// bits up, each stored with the format's offset added.
pub fn pack_levels(levels: &[i32], f: QuantFormat) -> (words: Vec<u32>)
    requires
        (levels@.len() as int) % (per_word_of(f) as int) == 0,
        forall|i: int| 0 <= i < levels@.len() ==> storable(#[trigger] levels@[i], f),
    ensures
        words@.len() == (levels@.len() as int) / (per_word_of(f) as int),
        forall|i: int| 0 <= i < levels@.len() ==> #[trigger] stored_level(words@, i, f) == levels@[i],
{
    let pw = f.per_word();
    let bits = f.bits();
    let mask = f.mask();
    let offset = f.offset();
    let ln = levels.len();
    let n = ln / pw;
    let ghost len = levels@.len() as int;
    let ghost pwi = pw as int;
    proof {
        vstd::arithmetic::div_mod::lemma_fundamental_div_mod(len, pwi);
    }
    let mut words: Vec<u32> = Vec::new();
    let mut wi: usize = 0;
    while wi < n
        invariant
            wi <= n,
            n == len / pwi,
            len == pwi * n,
            pw == per_word_of(f),
            bits == bits_of(f),
            mask == mask_of(f),
            offset == offset_of(f),
            len == levels@.len(),
            pwi == pw,
            ln == len,
            forall|i: int| 0 <= i < levels@.len() ==> storable(#[trigger] levels@[i], f),
            words@.len() == wi,
            forall|k: int, j: int|
                0 <= k < wi && 0 <= j < pwi ==> #[trigger] slot(words@[k], j as nat, f) as int
                    == levels@[pwi * k + j] + offset_of(f),
        decreases n - wi,
    {
        assert(pwi * wi + pwi <= len) by (nonlinear_arith)
            requires
                wi < n,
                len == pwi * n,
                pwi > 0,
        ;
        let mut w: u32 = 0;
        let mut j: usize = 0;
        assert(0u32 >> 0u32 == 0) by (bit_vector);
        while j < pw
            invariant
                j <= pw,
                pw == per_word_of(f),
                bits == bits_of(f),
                mask == mask_of(f),
                offset == offset_of(f),
                pwi == pw,
                pwi * wi + pwi <= len,
                len == levels@.len(),
                ln == len,
                forall|i: int| 0 <= i < levels@.len() ==> storable(#[trigger] levels@[i], f),
                j < pw ==> w >> ((j * bits) as u32) == 0,
                forall|t: int| 0 <= t < j ==> #[trigger] slot(w, t as nat, f) as int == levels@[pwi * wi + t] + offset_of(f),
            decreases pw - j,
        {
            assert((wi as int) * (pw as int) + (j as int) < len) by (nonlinear_arith)
                requires
                    pwi * wi + pwi <= len,
                    j < pw,
                    pwi == pw,
            ;
            let idx = wi * pw + j;
            let level = levels[idx];
            assert(storable(levels@[idx as int], f));
            let q = ((level + offset) as u32) & mask;
            let s = (j * bits) as u32;
            assert(q == (level + offset) as u32) by (bit_vector)
                requires
                    q == ((level + offset) as u32) & mask,
                    (mask == 15 && 0 <= level + offset <= 15) || (mask == 255 && 0 <= level + offset <= 255),
            ;
            let ghost old_w = w;
            proof {
                assert forall|t: int| 0 <= t < j implies #[trigger] slot(old_w | (q << s), t as nat, f) == slot(
                    old_w,
                    t as nat,
                    f,
                ) by {
                    let tt = (t * bits) as u32;
                    assert(tt + bits <= s) by (nonlinear_arith)
                        requires
                            0 <= t < j,
                            tt == t * bits,
                            s == j * bits,
                            bits > 0,
                    ;
                    lemma_put_slot(old_w, q, s, tt, bits as u32, mask);
                }
                lemma_put_slot(old_w, q, s, 0, bits as u32, mask);
            }
            w = w | (q << s);
            j = j + 1;
        }
        words.push(w);
        wi = wi + 1;
    }
    proof {
        assert forall|i: int| 0 <= i < levels@.len() implies #[trigger] stored_level(words@, i, f) == levels@[i] by {
            vstd::arithmetic::div_mod::lemma_fundamental_div_mod(i, pwi);
            let k = i / pwi;
            let jj = i % pwi;
            assert(0 <= k < wi) by (nonlinear_arith)
                requires
                    i == pwi * k + jj,
                    0 <= jj < pwi,
                    0 <= i < len,
                    len == pwi * wi,
                    pwi > 0,
            ;
            assert(slot(words@[k], jj as nat, f) as int == levels@[pwi * k + jj] + offset_of(f));
        }
    }
    words
}


/// Σ level·x over the first `k` pairs of 8-bit levels and inputs.
pub open spec fn dot_q8_upto(bytes: Seq<u8>, x: Seq<i8>, k: int) -> int
    decreases k,
{
    if k <= 0 {
        0
    } else {
        dot_q8_upto(bytes, x, k - 1) + bytes[k - 1] as int * x[k - 1] as int
    }
}

/// The number of terms of a dot product over 8-bit levels: as many as both
/// lists have.
pub open spec fn q8_terms(bytes: Seq<u8>, x: Seq<i8>) -> int {
    if bytes.len() <= x.len() {
        bytes.len() as int
    } else {
        x.len() as int
    }
}

/// Σ level·x over one group of 8-bit levels (pairs beyond the shorter list
/// are ignored). Every partial sum must fit an `i32`.
pub fn dot_q8(bytes: &[u8], x: &[i8]) -> (r: i32)
    requires
        forall|k: int| 0 <= k <= q8_terms(bytes@, x@) ==> i32::MIN <= #[trigger] dot_q8_upto(bytes@, x@, k)
            <= i32::MAX,
    ensures
        r == dot_q8_upto(bytes@, x@, q8_terms(bytes@, x@)),
{
    let n = if bytes.len() <= x.len() {
        bytes.len()
    } else {
        x.len()
    };
    let mut sum: i32 = 0;
    let mut i: usize = 0;
    while i < n
        invariant
            i <= n,
            n == q8_terms(bytes@, x@),
            n <= bytes@.len() && n <= x@.len(),
            sum == dot_q8_upto(bytes@, x@, i as int),
            forall|k: int| 0 <= k <= q8_terms(bytes@, x@) ==> i32::MIN <= #[trigger] dot_q8_upto(bytes@, x@, k)
                <= i32::MAX,
        decreases n - i,
    {
        assert(i32::MIN <= dot_q8_upto(bytes@, x@, i + 1) <= i32::MAX);
        let b = bytes[i] as i32;
        let xv = x[i] as i32;
        assert(-32640 <= b * xv <= 32385) by (nonlinear_arith)
            requires
                0 <= b <= 255,
                -128 <= xv <= 127,
        ;
        sum = sum + b * xv;
        i = i + 1;
    }
    sum
}

/// One term of a dot product over 4-bit levels: the low nibble of byte `j`
/// times input `2j`, plus the high nibble times input `2j + 1`.
pub open spec fn q4_term(bytes: Seq<u8>, x: Seq<i8>, j: int) -> int {
    (bytes[j] & 15u8) as int * x[2 * j] as int + (bytes[j] >> 4u8) as int * x[2 * j + 1] as int
}

/// Σ level·x over the first `k` bytes of 4-bit levels.
pub open spec fn dot_q4_upto(bytes: Seq<u8>, x: Seq<i8>, k: int) -> int
    decreases k,
{
    if k <= 0 {
        0
    } else {
        dot_q4_upto(bytes, x, k - 1) + q4_term(bytes, x, k - 1)
    }
}

/// The number of terms of a dot product over 4-bit levels: one per byte
/// that has a full pair of inputs.
pub open spec fn q4_terms(bytes: Seq<u8>, x: Seq<i8>) -> int {
    if bytes.len() <= x.len() / 2 {
        bytes.len() as int
    } else {
        x.len() as int / 2
    }
}

/// Σ level·x over one group of 4-bit levels, two per byte with the low
/// nibble first (pairs beyond the shorter list are ignored). Every partial
/// sum must fit an `i32`.
pub fn dot_q4(bytes: &[u8], x: &[i8]) -> (r: i32)
    requires
        forall|k: int| 0 <= k <= q4_terms(bytes@, x@) ==> i32::MIN <= #[trigger] dot_q4_upto(bytes@, x@, k)
            <= i32::MAX,
    ensures
        r == dot_q4_upto(bytes@, x@, q4_terms(bytes@, x@)),
{
    let xl = x.len();
    let half = xl / 2;
    let n = if bytes.len() <= half {
        bytes.len()
    } else {
        half
    };
    let mut sum: i32 = 0;
    let mut i: usize = 0;
    while i < n
        invariant
            i <= n,
            n == q4_terms(bytes@, x@),
            n <= bytes@.len() && 2 * n <= x@.len(),
            xl == x@.len(),
            sum == dot_q4_upto(bytes@, x@, i as int),
            forall|k: int| 0 <= k <= q4_terms(bytes@, x@) ==> i32::MIN <= #[trigger] dot_q4_upto(bytes@, x@, k)
                <= i32::MAX,
        decreases n - i,
    {
        assert(i32::MIN <= dot_q4_upto(bytes@, x@, i + 1) <= i32::MAX);
        let b = bytes[i];
        assert(b & 15u8 <= 15 && b >> 4u8 <= 15) by (bit_vector);
        let lo = (b & 15) as i32;
        let hi = (b >> 4) as i32;
        let x0 = x[2 * i] as i32;
        let x1 = x[2 * i + 1] as i32;
        assert(-1920 <= lo * x0 <= 1905 && -1920 <= hi * x1 <= 1905) by (nonlinear_arith)
            requires
                0 <= lo <= 15,
                0 <= hi <= 15,
                -128 <= x0 <= 127,
                -128 <= x1 <= 127,
        ;
        let term = lo * x0 + hi * x1;
        sum = sum + term;
        i = i + 1;
    }
    sum
}

} // verus!
