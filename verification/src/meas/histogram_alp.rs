//! The approximate laplace projection (ALP) histogram: counts are projected
//! into a bit vector by hash functions, and estimated back from it.
use vstd::prelude::*;
use vstd::arithmetic::power2::{pow2, lemma_pow2_adds, lemma_pow2_pos, lemma_pow2_unfold, lemma_pow2_strictly_increases};
use crate::error::{ErrorVariant, Fallible};
use crate::samplers::sample_u64;
use crate::traits::IntValue;

verus! {

/// `((a * x + b) mod 2^64) div 2^(64 - l)`.
pub open spec fn spec_hash(x: u64, a: u64, b: u64, l: u32) -> int {
    ((a as int * x as int + b as int) % 0x1_0000_0000_0000_0000) / pow2((64 - l) as nat) as int
}

/// A hash function from `[2^64]` to `[2^l]`: computes
/// `((a * x + b) mod 2^64) div 2^(64 - l)`. For an odd `a` drawn uniformly,
/// and `b` drawn uniformly, it is 2-approximate universal and uniform.
pub fn hash(x: u64, a: u64, b: u64, l: u32) -> (r: usize)
    requires
        1 <= l <= 64,
    ensures
        r == spec_hash(x, a, b, l) as usize,
        0 <= spec_hash(x, a, b, l) < pow2(l as nat),
{
    let m = a.wrapping_mul(x);
    let s = m.wrapping_add(b);
    let shift: u64 = (64 - l) as u64;
    proof {
        let big: int = 0x1_0000_0000_0000_0000;
        assert(m == (a as int * x as int) % big);
        assert(s == (m as int + b as int) % big);
        vstd::arithmetic::div_mod::lemma_add_mod_noop(a as int * x as int, b as int, big);
        assert(b as int % big == b as int);
        assert((m as int) % big == m as int);
        assert(s == (a as int * x as int + b as int) % big);
        vstd::bits::lemma_u64_shr_is_div(s, shift);
        lemma_pow2_adds((64 - l) as nat, l as nat);
        vstd::arithmetic::power2::lemma2_to64();
        lemma_pow2_pos((64 - l) as nat);
        vstd::arithmetic::div_mod::lemma_multiply_divide_lt(s as int, pow2((64 - l) as nat) as int, pow2(l as nat) as int);
    }
    (s >> shift) as usize
}

/// `x` is at most `2^r`, and `2^(r - 1)` is below `x`: `r` is the exponent
/// of the least power of two at or above `x`.
pub open spec fn spec_is_next_power_exponent(x: u64, r: u32) -> bool {
    &&& x <= pow2(r as nat)
    &&& (r == 0 || pow2((r - 1) as nat) < x)
}

/// The exponent of the least power of two at or above `x`.
pub fn exponent_next_power_of_two(x: u64) -> (r: u32)
    requires
        x >= 1,
    ensures
        spec_is_next_power_exponent(x, r),
        r <= 64,
{
    let lz = x.leading_zeros();
    proof {
        vstd::std_specs::bits::axiom_u64_leading_zeros(x);
    }
    let exp: u32 = 63 - lz;
    let e: u64 = exp as u64;
    proof {
        assert(lz as int == vstd::std_specs::bits::u64_leading_zeros(x));
        assert((x >> e) & 1u64 != 0u64);
        assert((x >> e) & 1u64 != 0u64 ==> x >= (1u64 << e)) by (bit_vector)
            requires e < 64;
        vstd::bits::lemma_u64_pow2_no_overflow(e as nat);
        vstd::bits::lemma_u64_shl_is_mul(1u64, e);
        if e < 63 {
            let e1: u64 = (e + 1) as u64;
            assert(x >> e1 == 0u64);
            assert(x >> e1 == 0u64 ==> x < (1u64 << e1)) by (bit_vector)
                requires e1 < 64;
            vstd::bits::lemma_u64_pow2_no_overflow(e1 as nat);
            vstd::bits::lemma_u64_shl_is_mul(1u64, e1);
            assert(x < pow2((e + 1) as nat));
        } else {
            vstd::arithmetic::power2::lemma2_to64();
            assert(x < pow2(64));
        }
        if e > 0 {
            lemma_pow2_strictly_increases((e - 1) as nat, e as nat);
        }
    }
    if x > (1u64 << exp) {
        exp + 1
    } else {
        exp
    }
}

/// `+1` for a set bit, `-1` for a clear one.
pub open spec fn spec_step(b: bool) -> int {
    if b {
        1
    } else {
        -1
    }
}

/// The sum of the steps of the first `i` bits.
pub open spec fn spec_prefix(v: Seq<bool>, i: int) -> int
    decreases i,
{
    if i <= 0 {
        0
    } else {
        spec_prefix(v, i - 1) + spec_step(v[i - 1])
    }
}

/// The highest of the prefix sums over the first `n` bits, the empty prefix included.
pub open spec fn spec_high(v: Seq<bool>, n: int) -> int
    decreases n,
{
    if n <= 0 {
        0
    } else if spec_high(v, n - 1) < spec_prefix(v, n) {
        spec_prefix(v, n)
    } else {
        spec_high(v, n - 1)
    }
}

/// The sum of the positions `i <= n` whose prefix sum is `h`.
pub open spec fn spec_peak_sum(v: Seq<bool>, n: int, h: int) -> int
    decreases n + 1,
{
    if n < 0 {
        0
    } else {
        spec_peak_sum(v, n - 1, h) + if spec_prefix(v, n) == h {
            n
        } else {
            0int
        }
    }
}

/// The number of positions `i <= n` whose prefix sum is `h`.
pub open spec fn spec_peak_count(v: Seq<bool>, n: int, h: int) -> int
    decreases n + 1,
{
    if n < 0 {
        0
    } else {
        spec_peak_count(v, n - 1, h) + if spec_prefix(v, n) == h {
            1int
        } else {
            0int
        }
    }
}

/// Prefix sums stay within the number of bits read.
proof fn lemma_prefix_bound(v: Seq<bool>, i: int)
    requires
        i >= 0,
    ensures
        -i <= spec_prefix(v, i) <= i,
    decreases i,
{
    if i > 0 {
        lemma_prefix_bound(v, i - 1);
    }
}

/// The highest prefix sum is attained, and bounds every prefix sum.
proof fn lemma_high(v: Seq<bool>, n: int)
    requires
        n >= 0,
    ensures
        exists|i: int| 0 <= i <= n && spec_prefix(v, i) == spec_high(v, n),
        forall|i: int| 0 <= i <= n ==> spec_prefix(v, i) <= spec_high(v, n),
    decreases n,
{
    if n == 0 {
        assert(spec_prefix(v, 0) == spec_high(v, 0));
    } else {
        lemma_high(v, n - 1);
        if spec_high(v, n - 1) < spec_prefix(v, n) {
            assert(spec_prefix(v, n) == spec_high(v, n));
        } else {
            let i = choose|i: int| 0 <= i <= n - 1 && spec_prefix(v, i) == spec_high(v, n - 1);
            assert(spec_prefix(v, i) == spec_high(v, n));
        }
    }
}

/// A position `j <= n` whose prefix sum is `h` makes the count positive.
proof fn lemma_peak_count_pos(v: Seq<bool>, n: int, h: int, j: int)
    requires
        0 <= j <= n,
        spec_prefix(v, j) == h,
    ensures
        spec_peak_count(v, n, h) >= 1,
    decreases n + 1,
{
    if j < n {
        lemma_peak_count_pos(v, n - 1, h, j);
        lemma_peak_count_nonneg(v, n - 1, h);
    } else {
        lemma_peak_count_nonneg(v, n - 1, h);
    }
}

proof fn lemma_peak_count_nonneg(v: Seq<bool>, n: int, h: int)
    ensures
        0 <= spec_peak_count(v, n, h) <= (if n < 0 { 0int } else { n + 1 }),
        0 <= spec_peak_sum(v, n, h),
        spec_peak_sum(v, n, h) <= spec_peak_count(v, n, h) * n || n < 0,
    decreases n + 1,
{
    if n >= 0 {
        lemma_peak_count_nonneg(v, n - 1, h);
        let c1 = spec_peak_count(v, n - 1, h);
        let s1 = spec_peak_sum(v, n - 1, h);
        if n >= 1 {
            assert(c1 * (n - 1) <= c1 * n) by (nonlinear_arith)
                requires c1 >= 0, n >= 1;
            if spec_prefix(v, n) == h {
                assert((c1 + 1) * n == c1 * n + n) by (nonlinear_arith);
            }
        } else {
            assert(spec_peak_count(v, n, h) * n == 0);
        }
    }
}

/// The positions where the prefix sums of `v` peak, summarized for an
/// average: the sum of the peak positions and their number. Each set bit
/// counts `+1` and each clear bit `-1`; position `i` is the prefix of the
/// first `i` bits. The estimate is the sum divided by the number, which is
/// at least 1.
pub fn estimate_unary(v: &Vec<bool>) -> (r: (usize, usize))
    requires
        v@.len() < 0x8000_0000,
        spec_peak_sum(v@, v@.len() as int, spec_high(v@, v@.len() as int)) <= usize::MAX,
    ensures
        r.0 == spec_peak_sum(v@, v@.len() as int, spec_high(v@, v@.len() as int)),
        r.1 == spec_peak_count(v@, v@.len() as int, spec_high(v@, v@.len() as int)),
        r.1 >= 1,
        r.0 <= r.1 * v@.len(),
{
    let n = v.len();
    let mut high: i64 = 0;
    let mut cur: i64 = 0;
    let mut i: usize = 0;
    while i < n
        invariant
            n == v@.len() < 0x8000_0000,
            i <= n,
            cur == spec_prefix(v@, i as int),
            high == spec_high(v@, i as int),
            -(i as int) <= cur <= i,
            -(i as int) <= high <= i,
        decreases n - i,
    {
        if v[i] {
            cur = cur + 1;
        } else {
            cur = cur - 1;
        }
        i = i + 1;
        if high < cur {
            high = cur;
        }
        proof {
            lemma_prefix_bound(v@, i as int);
        }
    }
    let ghost h = high as int;
    let mut sum: usize = 0;
    let mut count: usize = 0;
    let mut pos: usize = 0;
    cur = 0;
    proof {
        lemma_peak_count_nonneg(v@, n as int, h);
    }
    while pos <= n
        invariant
            n == v@.len() < 0x8000_0000,
            pos <= n + 1,
            h == high,
            h == spec_high(v@, n as int),
            pos <= n ==> cur == spec_prefix(v@, pos as int),
            -(pos as int) <= cur <= pos,
            sum == spec_peak_sum(v@, pos as int - 1, h),
            count == spec_peak_count(v@, pos as int - 1, h),
            count <= pos,
            spec_peak_sum(v@, n as int, h) <= usize::MAX,
        decreases n + 1 - pos,
    {
        proof {
            lemma_peak_sum_mono(v@, pos as int, n as int, h);
            lemma_peak_count_nonneg(v@, pos as int, h);
        }
        if cur == high {
            sum = sum + pos;
            count = count + 1;
        }
        if pos < n {
            if v[pos] {
                cur = cur + 1;
            } else {
                cur = cur - 1;
            }
        }
        pos = pos + 1;
        proof {
            lemma_prefix_bound(v@, pos as int);
        }
    }
    proof {
        lemma_high(v@, n as int);
        let j = choose|j: int| 0 <= j <= n && spec_prefix(v@, j) == spec_high(v@, n as int);
        lemma_peak_count_pos(v@, n as int, h, j);
        lemma_peak_count_nonneg(v@, n as int, h);
    }
    (sum, count)
}

/// The peak sum only grows with the number of positions.
proof fn lemma_peak_sum_mono(v: Seq<bool>, m: int, n: int, h: int)
    requires
        0 <= m <= n,
    ensures
        spec_peak_sum(v, m, h) <= spec_peak_sum(v, n, h),
    decreases n - m,
{
    if m < n {
        lemma_peak_sum_mono(v, m, n - 1, h);
        lemma_peak_count_nonneg(v, n - 1, h);
    }
}

/// A key as a `u64`: its value where it fits, and zero otherwise.
pub open spec fn spec_key_u64<K: IntValue>(key: K) -> u64 {
    if 0 <= key.spec_int() <= u64::MAX {
        key.spec_int() as u64
    } else {
        0
    }
}

/// Converts a key to a `u64`: its value where it fits, and zero otherwise.
pub fn key_to_u64<K: IntValue>(key: &K) -> (r: u64)
    ensures
        r == spec_key_u64(*key),
{
    proof {
        K::lemma_int_range(*key);
    }
    let v = key.to_i128();
    if 0 <= v && v <= 0xffff_ffff_ffff_ffffi128 {
        v as u64
    } else {
        0
    }
}

/// A member of the hash family of `hash`, from keys to `[2^l]`.
pub struct HashFunction {
    pub a: u64,
    pub b: u64,
    pub l: u32,
}

impl HashFunction {
    /// The output width is between 1 and 64 bits.
    pub open spec fn spec_wf(self) -> bool {
        1 <= self.l <= 64
    }

    /// The hash of `key`.
    pub open spec fn spec_eval<K: IntValue>(self, key: K) -> int {
        spec_hash(spec_key_u64(key), self.a, self.b, self.l)
    }

    /// Hashes `key`.
    pub fn eval<K: IntValue>(&self, key: &K) -> (r: usize)
        requires
            self.spec_wf(),
        ensures
            r == self.spec_eval(*key) as usize,
            0 <= self.spec_eval(*key) < pow2(self.l as nat),
    {
        hash(key_to_u64(key), self.a, self.b, self.l)
    }
}

/// Draws a hash function to `[2^l]` at random, with an odd multiplier.
/// Always succeeds.
pub fn sample_hash_function(l: u32) -> (r: Fallible<HashFunction>)
    ensures
        r is Ok,
        r matches Ok(h) ==> h.l == l && h.a % 2 == 1,
{
    let x = sample_u64()?;
    let a = x | 1u64;
    assert(a % 2 == 1) by (bit_vector)
        requires a == x | 1u64;
    let b = sample_u64()?;
    Ok(HashFunction { a, b, l })
}

/// The state that an ALP histogram releases: the parameters, the hash
/// functions and the projected bit vector.
pub struct AlpState<K, T> {
    pub alpha: T,
    pub scale: T,
    pub h: Vec<HashFunction>,
    pub z: Vec<bool>,
    pub _marker: std::marker::PhantomData<K>,
}

/// The bits of `z` that the hash functions select for a key.
pub open spec fn spec_projected_bits<K: IntValue>(h: Seq<HashFunction>, z: Seq<bool>, key: K) -> Seq<bool> {
    Seq::new(h.len(), |i: int| z[(h[i].spec_eval(key) as usize) as int % z.len() as int])
}

/// Law: the projection of a key has one bit per hash function, and bit `i`
/// is the bit of `z` at the position that the `i`th hash function gives the
/// key, `((a * x + b) mod 2^64) div 2^(64 - l)` for the key's value `x`,
/// taken modulo the length of `z`.
pub proof fn lemma_projected_bits_select<K: IntValue>(h: Seq<HashFunction>, z: Seq<bool>, key: K)
    ensures
        spec_projected_bits(h, z, key).len() == h.len(),
        forall|i: int| 0 <= i < h.len() ==> #[trigger] spec_projected_bits(h, z, key)[i] == z[((((h[i].a as int
            * spec_key_u64(key) as int + h[i].b as int) % 0x1_0000_0000_0000_0000) / pow2((64 - h[i].l) as nat) as int)
            as usize) as int % z.len() as int],
{
}

/// The bits of the state's bit vector that its hash functions select for
/// `key`, each hash taken modulo the length of the bit vector.
pub fn projected_bits<K: IntValue, T>(state: &AlpState<K, T>, key: &K) -> (r: Vec<bool>)
    requires
        state.z@.len() > 0,
        forall|i: int| 0 <= i < state.h@.len() ==> (#[trigger] state.h@[i]).spec_wf(),
    ensures
        r@ == spec_projected_bits(state.h@, state.z@, *key),
{
    let mut out: Vec<bool> = Vec::new();
    let mut i: usize = 0;
    while i < state.h.len()
        invariant
            i <= state.h@.len(),
            state.z@.len() > 0,
            forall|j: int| 0 <= j < state.h@.len() ==> (#[trigger] state.h@[j]).spec_wf(),
            out@ =~= spec_projected_bits(state.h@, state.z@, *key).take(i as int),
        decreases state.h@.len() - i,
    {
        let idx = state.h[i].eval(key) % state.z.len();
        out.push(state.z[idx]);
        i = i + 1;
    }
    out
}


/// The highest prefix sum is at least each prefix sum up to `n` and equal
/// to one of them.
proof fn lemma_high_bounds(v: Seq<bool>, n: int)
    ensures
        forall|i: int| 0 <= i <= n ==> #[trigger] spec_prefix(v, i) <= spec_high(v, n),
        n >= 0 ==> exists|i: int| 0 <= i <= n && spec_prefix(v, i) == spec_high(v, n),
    decreases n,
{
    if n > 0 {
        lemma_high_bounds(v, n - 1);
        if spec_high(v, n) != spec_prefix(v, n) {
            let i0 = choose|i: int| 0 <= i <= n - 1 && spec_prefix(v, i) == spec_high(v, n - 1);
            assert(0 <= i0 <= n && spec_prefix(v, i0) == spec_high(v, n));
        }
    } else if n == 0 {
        assert(spec_prefix(v, 0) == spec_high(v, 0));
    }
}

/// Law: the unary estimate averages the positions where the running sum of
/// the bits (`+1` set, `-1` clear) peaks: the peak is the highest running
/// sum over all prefixes and is reached by at least one of them, so the
/// count of peak positions is at least one.
pub proof fn lemma_estimate_peak(v: Seq<bool>)
    ensures
        forall|i: int| 0 <= i <= v.len() ==> #[trigger] spec_prefix(v, i) <= spec_high(v, v.len() as int),
        exists|i: int| 0 <= i <= v.len() && spec_prefix(v, i) == spec_high(v, v.len() as int),
{
    lemma_high_bounds(v, v.len() as int);
}

} // verus!
