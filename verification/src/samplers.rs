//! Randomness: filling buffers with random bytes, and samplers built on
//! fair coin flips.
use vstd::prelude::*;
use vstd::arithmetic::power2::pow2;
use vstd::std_specs::bits::u8_leading_zeros;
use crate::error::{ErrorVariant, Fallible};
use crate::traits::IntValue;

verus! {

/// Calls `rand::Rng::try_fill` on the thread-local generator of
/// `rand::thread_rng`, and tells whether it succeeded. The generator writes
/// random bytes over the whole buffer and keeps its length. It never reports
/// an error: filling bytes from `rand::rngs::ThreadRng` goes to a block
/// generator whose `try_fill_bytes` always returns `Ok`. Which bytes are
/// written is not stated: that rests on the machine's source of randomness.
/// `rand::thread_rng` panics where the operating system cannot seed the
/// generator, which no argument here can rule out.
#[verifier::external_body]
fn try_fill_random(buffer: &mut Vec<u8>) -> (r: bool)
    ensures
        r,
        final(buffer)@.len() == old(buffer)@.len(),
{
    rand::Rng::try_fill(&mut rand::thread_rng(), buffer.as_mut_slice()).is_ok()
}

/// Calls `u64::from_ne_bytes` on the first eight bytes. The value depends
/// on the machine's byte order, so nothing is stated of it.
#[verifier::external_body]
fn u64_from_ne_bytes(bytes: &Vec<u8>) -> u64
    requires
        bytes@.len() == 8,
{
    u64::from_ne_bytes([bytes[0], bytes[1], bytes[2], bytes[3], bytes[4], bytes[5], bytes[6], bytes[7]])
}

/// Fills `buffer` with random bytes. The thread-local generator reports no
/// error, so this always succeeds; an error of the source would come back as
/// `FailedFunction`.
pub fn fill_bytes(buffer: &mut Vec<u8>) -> (r: Fallible<()>)
    ensures
        final(buffer)@.len() == old(buffer)@.len(),
        r is Ok,
{
    if try_fill_random(buffer) {
        Ok(())
    } else {
        Err(crate::error::Error::with_message(ErrorVariant::FailedFunction, "Rand error"))
    }
}

/// A random `u64` from eight random bytes. Always succeeds.
pub fn sample_u64() -> (r: Fallible<u64>)
    ensures
        r is Ok,
{
    let mut buf: Vec<u8> = vec![0u8, 0u8, 0u8, 0u8, 0u8, 0u8, 0u8, 0u8];
    fill_bytes(&mut buf)?;
    Ok(u64_from_ne_bytes(&buf))
}

/// The lowest bit of a byte, as a coin flip.
pub fn byte_to_bit(byte: u8) -> (r: bool)
    ensures
        r == (byte % 2 == 1),
{
    assert(byte & 1 == byte % 2) by (bit_vector);
    byte & 1 == 1
}

/// A fair coin flip: the lowest bit of a random byte. Always succeeds.
pub fn sample_standard_bernoulli() -> (r: Fallible<bool>)
    ensures
        r is Ok,
{
    let mut buffer: Vec<u8> = vec![0u8];
    fill_bytes(&mut buffer)?;
    Ok(byte_to_bit(buffer[0]))
}

/// `m` with the byte `b` shifted in below it.
fn shift_in_byte(m: u64, b: u8, c: u64) -> (r: u64)
    requires
        m < c,
        c <= 0x1000_0000_0000,
    ensures
        r == m * 256 + b,
        r < c * 256,
{
    m * 256 + b as u64
}

/// The 52-bit mantissa that seven bytes give: the low four bits of the
/// first, then the other six, most significant first.
pub open spec fn spec_mantissa(b: Seq<u8>) -> int {
    (b[0] % 16) * 0x1_0000_0000_0000 + b[1] * 0x100_0000_0000 + b[2] * 0x1_0000_0000 + b[3] * 0x100_0000
        + b[4] * 0x1_0000 + b[5] * 0x100 + b[6]
}

/// Reads a 52-bit mantissa from seven bytes, as `spec_mantissa` says.
pub fn mantissa_from_bytes(b: &Vec<u8>) -> (r: u64)
    requires
        b@.len() == 7,
    ensures
        r == spec_mantissa(b@),
        r < 0x10_0000_0000_0000,
{
    let mut m: u64 = (b[0] % 16) as u64;
    m = shift_in_byte(m, b[1], 0x10);
    m = shift_in_byte(m, b[2], 0x1000);
    m = shift_in_byte(m, b[3], 0x10_0000);
    m = shift_in_byte(m, b[4], 0x1000_0000);
    m = shift_in_byte(m, b[5], 0x10_0000_0000);
    m = shift_in_byte(m, b[6], 0x1000_0000_0000);
    m
}

/// The parts of a uniform sample from `[0, 1)`: a binary
/// exponent between -1023 and -1, drawn geometrically so that each band
/// `[2^e, 2^(e+1))` is as likely as its width, and a 52-bit mantissa of
/// random bits. The exponent is one below minus the censored first set bit
/// of the bytes drawn for it, and the mantissa is read from seven random
/// bytes. Always succeeds.
pub fn sample_uniform_parts(constant_time: bool) -> (r: Fallible<(i16, u64)>)
    ensures
        r is Ok,
        r matches Ok(p) ==> -1023 <= p.0 <= -1 && p.1 < 0x10_0000_0000_0000,
        r matches Ok(p) ==> exists|drawn: Seq<u8>| drawn.len() <= 128 && p.0 == -(1 + spec_first_heads(drawn)),
        r matches Ok(p) ==> exists|bytes: Seq<u8>| bytes.len() == 7 && p.1 == spec_mantissa(bytes),
{
    let exponent: i16 = -(1 + sample_i10_geometric(constant_time)?);
    let mut buffer: Vec<u8> = vec![0u8, 0u8, 0u8, 0u8, 0u8, 0u8, 0u8];
    fill_bytes(&mut buffer)?;
    let m = mantissa_from_bytes(&buffer);
    Ok((exponent, m))
}

/// The index of the first set bit in `s`, reading each byte from its most
/// significant bit; `None` where every bit is zero.
pub open spec fn spec_first_set_bit(s: Seq<u8>) -> Option<int>
    decreases s.len(),
{
    if s.len() == 0 {
        None
    } else {
        match spec_first_set_bit(s.drop_last()) {
            Some(i) => Some(i),
            None => if s.last() > 0 {
                Some(8 * (s.len() - 1) + u8_leading_zeros(s.last()))
            } else {
                None
            },
        }
    }
}

/// The first set bit of `s`, censored at 1022.
pub open spec fn spec_first_heads(s: Seq<u8>) -> int {
    match spec_first_set_bit(s) {
        Some(i) => if i < 1022 { i } else { 1022 },
        None => 1022,
    }
}

/// A first set bit lies within the byte where it was found.
proof fn lemma_first_set_bit_bound(s: Seq<u8>)
    ensures
        spec_first_set_bit(s) matches Some(i) ==> 0 <= i < 8 * s.len(),
    decreases s.len(),
{
    if s.len() > 0 {
        lemma_first_set_bit_bound(s.drop_last());
    }
}

/// The index of the first set bit of `buffer`, censored at 1022. Every
/// byte is read, whatever it holds.
pub fn first_heads_index(buffer: &Vec<u8>) -> (r: i16)
    requires
        buffer@.len() <= 128,
    ensures
        r == spec_first_heads(buffer@),
        0 <= r <= 1022,
{
    let mut best: Option<usize> = None;
    let mut i: usize = 0;
    while i < buffer.len()
        invariant
            i <= buffer@.len() <= 128,
            best == (match spec_first_set_bit(buffer@.take(i as int)) {
                Some(v) => Some(v as usize),
                None => None::<usize>,
            }),
            spec_first_set_bit(buffer@.take(i as int)) matches Some(v) ==> 0 <= v < 8 * i,
        decreases buffer@.len() - i,
    {
        proof {
            assert(buffer@.take(i + 1).drop_last() == buffer@.take(i as int));
        }
        let b = buffer[i];
        if b > 0 {
            let candidate = 8 * i + b.leading_zeros() as usize;
            best = match best {
                Some(v) => if v < candidate { Some(v) } else { Some(candidate) },
                None => Some(candidate),
            };
        }
        i = i + 1;
    }
    proof {
        assert(buffer@.take(buffer@.len() as int) == buffer@);
    }
    match best {
        Some(v) => if v < 1022 { v as i16 } else { 1022 },
        None => 1022,
    }
}

/// A sample from the geometric distribution with parameter 1/2, censored
/// at 1022: the index of the first set bit among 1023 fair coin flips.
/// With `constant_time`, all 128 random bytes are drawn; otherwise bytes
/// are drawn until a set bit appears. Always succeeds. The result is the
/// censored first set bit of the bytes drawn.
pub fn sample_i10_geometric(constant_time: bool) -> (r: Fallible<i16>)
    ensures
        r is Ok,
        r matches Ok(v) ==> 0 <= v <= 1022,
        r matches Ok(v) ==> exists|drawn: Seq<u8>| drawn.len() <= 128 && v == spec_first_heads(drawn),
{
    if constant_time {
        let mut buffer: Vec<u8> = Vec::new();
        let mut k: usize = 0;
        while k < 128
            invariant
                k <= 128,
                buffer@.len() == k,
            decreases 128 - k,
        {
            buffer.push(0u8);
            k = k + 1;
        }
        fill_bytes(&mut buffer)?;
        Ok(first_heads_index(&buffer))
    } else {
        let mut i: i16 = 0;
        let ghost mut drawn: Seq<u8> = Seq::empty();
        while i < 128
            invariant
                0 <= i <= 128,
                drawn.len() == i,
                spec_first_set_bit(drawn) is None,
            decreases 128 - i,
        {
            let mut buffer: Vec<u8> = vec![0u8];
            fill_bytes(&mut buffer)?;
            let b = buffer[0];
            proof {
                assert(drawn.push(b).drop_last() == drawn);
            }
            if b > 0 {
                let lz = b.leading_zeros() as i16;
                let v = i * 8 + lz;
                let r = if v < 1022 { v } else { 1022 };
                proof {
                    assert(spec_first_heads(drawn.push(b)) == r);
                }
                return Ok(r);
            }
            proof {
                drawn = drawn.push(b);
            }
            i = i + 1;
        }
        proof {
            assert(spec_first_heads(drawn) == 1022);
        }
        Ok(1022)
    }
}

/// Bit `k` of `m`, counted from the least significant bit.
pub open spec fn spec_bit(m: u64, k: int) -> bool {
    (m as nat / pow2(k as nat)) % 2 == 1
}

/// The outcome of a Bernoulli trial with a probability whose IEEE-754
/// double has biased exponent `exponent` and mantissa `mantissa`, given the
/// index of the first heads among fair coin flips: the probability's binary
/// digit at that index, counted after the binary point from zero.
pub open spec fn spec_bernoulli_from_parts(exponent: u16, mantissa: u64, first_heads_index: i16) -> bool {
    if exponent == 1023 {
        true
    } else {
        let i = first_heads_index - (1022 - exponent);
        if i < 0 {
            false
        } else if i == 0 {
            exponent != 0
        } else if i > 52 {
            false
        } else {
            spec_bit(mantissa, 52 - i)
        }
    }
}

/// Decides a Bernoulli trial from the parts of the probability and the
/// index of the first heads; see `spec_bernoulli_from_parts`.
pub fn bernoulli_from_parts(exponent: u16, mantissa: u64, first_heads_index: i16) -> (r: bool)
    requires
        exponent <= 1023,
        0 <= first_heads_index <= 1022,
    ensures
        r == spec_bernoulli_from_parts(exponent, mantissa, first_heads_index),
{
    if exponent == 1023 {
        return true;
    }
    let num_leading_zeros: i16 = 1022 - exponent as i16;
    let i: i16 = first_heads_index - num_leading_zeros;
    if i < 0 {
        false
    } else if i == 0 {
        exponent != 0
    } else if i > 52 {
        false
    } else {
        let shift: u64 = (52 - i) as u64;
        proof {
            vstd::bits::lemma_u64_shr_is_div(mantissa, shift);
            assert(mantissa & (1u64 << shift) != 0 <==> (mantissa >> shift) % 2 == 1) by (bit_vector)
                requires shift < 64;
        }
        mantissa & (1u64 << shift) != 0
    }
}

/// A Bernoulli trial with the probability whose IEEE-754 double has biased
/// exponent `exponent` and mantissa `mantissa`: the probability's binary
/// digit at the index of the first heads among fair coin flips. Always
/// succeeds; a probability of one gives `true` and one of zero `false`.
pub fn sample_bernoulli_from_parts(exponent: u16, mantissa: u64, constant_time: bool) -> (r: Fallible<bool>)
    requires
        exponent <= 1023,
    ensures
        r is Ok,
        r matches Ok(b) ==> exists|k: i16| 0 <= k <= 1022 && b == spec_bernoulli_from_parts(exponent, mantissa, k),
        exponent == 1023 ==> r == Ok::<bool, crate::error::Error>(true),
        exponent == 0 && mantissa == 0 ==> r == Ok::<bool, crate::error::Error>(false),
{
    let first_heads_index = sample_i10_geometric(constant_time)?;
    Ok(bernoulli_from_parts(exponent, mantissa, first_heads_index))
}

/// The bound of `T` in the direction of the steps: its greatest value for
/// positive steps, its least otherwise.
pub open spec fn spec_step_bound<T: IntValue>(positive: bool) -> int {
    if positive {
        T::spec_max()
    } else {
        T::spec_min()
    }
}

/// `n` steps from `start` in the given direction, stopping at `bound`.
pub open spec fn spec_walk(start: int, positive: bool, n: int, bound: int) -> int {
    if positive {
        if start + n <= bound { start + n } else { bound }
    } else {
        if start - n >= bound { start - n } else { bound }
    }
}

/// One step from `s` toward `bound`, unless it is there.
fn step_toward(s: i128, positive: bool, bound: i128) -> (r: i128)
    requires
        positive ==> s <= bound,
        !positive ==> bound <= s,
    ensures
        r == spec_walk(s as int, positive, 1, bound as int),
{
    if s == bound {
        s
    } else if positive {
        s + 1
    } else {
        s - 1
    }
}

/// The number of failed trials before the first success among `outcomes`,
/// or all of them where none succeeds.
pub open spec fn spec_leading_failures(outcomes: Seq<bool>) -> int
    decreases outcomes.len(),
{
    if outcomes.len() == 0 {
        0
    } else {
        let p = spec_leading_failures(outcomes.drop_last());
        if p < outcomes.len() - 1 || outcomes.last() {
            p
        } else {
            p + 1
        }
    }
}

/// `b` is an outcome that a Bernoulli trial with the probability of
/// exponent `exponent` and mantissa `mantissa` can give.
pub open spec fn spec_possible_outcome(exponent: u16, mantissa: u64, b: bool) -> bool {
    exists|k: i16| 0 <= k <= 1022 && b == spec_bernoulli_from_parts(exponent, mantissa, k)
}

/// The walk of the geometric sampler for given trial outcomes: one step
/// from `shift` toward the bound of `T` (up where `positive`, down
/// otherwise), then one more for each failed trial before the first
/// success, stopping at the bound.
pub fn geometric_walk<T: IntValue>(shift: T, positive: bool, outcomes: &Vec<bool>) -> (r: T)
    ensures
        r.spec_int() == spec_walk(
            shift.spec_int(),
            positive,
            1 + spec_leading_failures(outcomes@),
            spec_step_bound::<T>(positive),
        ),
{
    proof {
        T::lemma_int_range(shift);
    }
    let mut failures: usize = 0;
    let mut found = false;
    let mut i: usize = 0;
    while i < outcomes.len()
        invariant
            i <= outcomes@.len(),
            failures == spec_leading_failures(outcomes@.take(i as int)),
            failures <= i,
            found <==> failures < i,
        decreases outcomes@.len() - i,
    {
        proof {
            assert(outcomes@.take(i + 1).drop_last() == outcomes@.take(i as int));
        }
        if !found {
            if outcomes[i] {
                found = true;
            } else {
                failures = failures + 1;
            }
        }
        i = i + 1;
    }
    proof {
        assert(outcomes@.take(outcomes@.len() as int) == outcomes@);
    }
    let n: i128 = 1 + failures as i128;
    let s0: i128 = shift.to_i128();
    let v: i128 = if positive {
        let bound = T::max_value().to_i128();
        if s0 + n <= bound { s0 + n } else { bound }
    } else {
        let bound = T::min_value().to_i128();
        if s0 - n >= bound { s0 - n } else { bound }
    };
    T::from_i128(v)
}

/// Steps from `shift` toward the bound of `T` (up where `positive`, down
/// otherwise) until a Bernoulli trial with the probability whose IEEE-754
/// double has biased exponent `exponent` and mantissa `mantissa` succeeds:
/// one step, then one more after each failed trial, stopping at the bound;
/// the result is `geometric_walk` of the trials drawn. With `trials`,
/// exactly that many trials are run; without, trials run until one
/// succeeds or the bound is reached. Always succeeds.
pub fn sample_geometric_from_parts<T: IntValue>(
    shift: T,
    positive: bool,
    exponent: u16,
    mantissa: u64,
    trials: Option<T>,
) -> (r: Fallible<T>)
    requires
        exponent <= 1023,
        trials matches Some(t) ==> t.spec_int() >= 0,
        trials.is_some() || exponent > 0 || mantissa > 0,
    ensures
        r matches Ok(v) ==> exists|drawn: Seq<bool>|
            {
                &&& (trials matches Some(t) ==> drawn.len() == t.spec_int())
                &&& forall|i: int| 0 <= i < drawn.len() ==> spec_possible_outcome(exponent, mantissa, #[trigger] drawn[i])
                &&& v.spec_int() == spec_walk(
                    shift.spec_int(),
                    positive,
                    1 + spec_leading_failures(drawn),
                    spec_step_bound::<T>(positive),
                )
            },
        r is Ok,
        r matches Ok(v) ==> (if positive {
            shift.spec_int() <= v.spec_int()
        } else {
            v.spec_int() <= shift.spec_int()
        }),
        r matches Ok(v) ==> (v.spec_int() == shift.spec_int() ==> shift.spec_int() == spec_step_bound::<T>(positive)),
        r matches Ok(v) ==> (trials matches Some(t) ==> (if positive {
            v.spec_int() <= shift.spec_int() + t.spec_int() + 1
        } else {
            shift.spec_int() - t.spec_int() - 1 <= v.spec_int()
        })),
        exponent == 1023 ==> (r matches Ok(v) ==> v.spec_int() == spec_walk(
            shift.spec_int(),
            positive,
            1,
            spec_step_bound::<T>(positive),
        )),
        exponent == 0 && mantissa == 0 ==> (trials matches Some(t) ==> (r matches Ok(v) ==> v.spec_int() == spec_walk(
            shift.spec_int(),
            positive,
            t.spec_int() + 1,
            spec_step_bound::<T>(positive),
        ))),
{
    proof {
        T::lemma_int_range(shift);
    }
    let bound: i128 = if positive {
        T::max_value().to_i128()
    } else {
        T::min_value().to_i128()
    };
    let s0: i128 = shift.to_i128();
    let ghost bd = bound as int;
    let mut s: i128 = step_toward(s0, positive, bound);
    let mut success = false;
    let ghost mut drawn: Seq<bool> = Seq::empty();
    match trials {
        Some(t) => {
            proof {
                T::lemma_int_range(t);
            }
            let total: i128 = t.to_i128();
            let mut remaining: i128 = total;
            while remaining > 0
                invariant
                    bd == bound,
                    bd == spec_step_bound::<T>(positive),
                    s0 == shift.spec_int(),
                    T::spec_min() <= s0 <= T::spec_max(),
                    0 <= remaining <= total,
                    total == t.spec_int(),
                    trials == Some(t),
                    exponent <= 1023,
                    drawn.len() == total - remaining,
                    forall|i: int| 0 <= i < drawn.len() ==> spec_possible_outcome(exponent, mantissa, #[trigger] drawn[i]),
                    0 <= spec_leading_failures(drawn) <= drawn.len(),
                    success <==> spec_leading_failures(drawn) < drawn.len(),
                    s == spec_walk(s0 as int, positive, 1 + spec_leading_failures(drawn), bd),
                    positive ==> s0 <= s <= bound && s <= s0 + 1 + (total - remaining),
                    !positive ==> bound <= s <= s0 && s0 - 1 - (total - remaining) <= s,
                    s == s0 ==> s0 == bound,
                    exponent == 1023 ==> s == spec_walk(s0 as int, positive, 1, bd),
                    exponent == 0 && mantissa == 0 ==> !success && s == spec_walk(s0 as int, positive, 1 + (total - remaining), bd),
                    success ==> exponent > 0 || mantissa > 0,
                    exponent == 1023 && remaining < total ==> success,
                decreases remaining,
            {
                remaining = remaining - 1;
                let b = sample_bernoulli_from_parts(exponent, mantissa, true)?;
                proof {
                    assert(drawn.push(b).drop_last() == drawn);
                    drawn = drawn.push(b);
                }
                success = success || b;
                if !success {
                    s = step_toward(s, positive, bound);
                }
            }
        },
        None => {
            while !success && s != bound
                invariant
                    bd == bound,
                    bd == spec_step_bound::<T>(positive),
                    s0 == shift.spec_int(),
                    T::spec_min() <= s0 <= T::spec_max(),
                    exponent <= 1023,
                    trials.is_none(),
                    spec_walk(s0 as int, positive, 1, bd) == bd ==> s == bound,
                    forall|i: int| 0 <= i < drawn.len() ==> spec_possible_outcome(exponent, mantissa, #[trigger] drawn[i]),
                    0 <= spec_leading_failures(drawn) <= drawn.len(),
                    success <==> spec_leading_failures(drawn) < drawn.len(),
                    s == spec_walk(s0 as int, positive, 1 + spec_leading_failures(drawn), bd),
                    positive ==> s0 <= s <= bound,
                    !positive ==> bound <= s <= s0,
                    s == s0 ==> s0 == bound,
                    exponent == 1023 ==> s == spec_walk(s0 as int, positive, 1, bd),
                decreases (if positive { bound - s } else { s - bound }), (if success { 0int } else { 1int }),
            {
                let b = sample_bernoulli_from_parts(exponent, mantissa, false)?;
                proof {
                    assert(drawn.push(b).drop_last() == drawn);
                    drawn = drawn.push(b);
                }
                success = b;
                if !success {
                    s = step_toward(s, positive, bound);
                }
            }
        },
    }
    Ok(T::from_i128(s))
}

/// Law: the first set bit lies in the first byte that is not zero, at the
/// position of that byte's leading set bit: bytes before it are zero, and
/// within it as many bits precede it as the byte has leading zeros. There is
/// none exactly where every byte is zero.
pub proof fn lemma_first_set_bit_position(s: Seq<u8>)
    ensures
        spec_first_set_bit(s) is None <==> forall|j: int| 0 <= j < s.len() ==> #[trigger] s[j] == 0,
        spec_first_set_bit(s) matches Some(i) ==> {
            &&& 0 <= i / 8 < s.len()
            &&& s[i / 8] != 0
            &&& i % 8 == u8_leading_zeros(s[i / 8])
            &&& forall|m: int| 0 <= m < i / 8 ==> #[trigger] s[m] == 0
        },
    decreases s.len(),
{
    if s.len() > 0 {
        let d = s.drop_last();
        lemma_first_set_bit_position(d);
        assert forall|j: int| 0 <= j < d.len() implies d[j] == #[trigger] s[j] by {}
        if spec_first_set_bit(d) is None && s.last() > 0 {
            let n = s.len() - 1;
            vstd::std_specs::bits::axiom_u8_leading_zeros(s.last());
            let i = 8 * n + u8_leading_zeros(s.last());
            assert(i / 8 == n);
            assert(i % 8 == u8_leading_zeros(s.last()));
        }
        if spec_first_set_bit(s) is None {
            assert forall|j: int| 0 <= j < s.len() implies #[trigger] s[j] == 0 by {
                if j < d.len() {
                    assert(d[j] == 0);
                }
            }
        }
    }
}

/// Law: the leading failures are the trials before the first success: all
/// of them failed, and the one after them, where there is one, succeeded.
pub proof fn lemma_leading_failures_position(outcomes: Seq<bool>)
    ensures
        0 <= spec_leading_failures(outcomes) <= outcomes.len(),
        forall|j: int| 0 <= j < spec_leading_failures(outcomes) ==> !#[trigger] outcomes[j],
        spec_leading_failures(outcomes) < outcomes.len() ==> outcomes[spec_leading_failures(outcomes)],
    decreases outcomes.len(),
{
    if outcomes.len() > 0 {
        let d = outcomes.drop_last();
        lemma_leading_failures_position(d);
        assert forall|j: int| 0 <= j < d.len() implies d[j] == #[trigger] outcomes[j] by {}
    }
}

} // verus!
