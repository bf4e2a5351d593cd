//! Summation transformations.
use vstd::prelude::*;
use crate::dist::{AbsoluteDistance, IntDistance, SymmetricDistance};
use crate::dom::{AllDomain, Bound, BoundedDomain, IntervalDomain, VectorDomain, SizedDomain};
use crate::error::{Error, ErrorVariant, Fallible};
use crate::framework::{Function, LinearRelation, Transformation};
use crate::traits::{lemma_vec_deep_view_identity, saturate, Abs, Distance, ExactIntCast, IntDistanceValue, IntValue, SaturatingAdd, TotalOrd};

verus! {

/// The sum of `s` from the left, saturating at every step.
pub open spec fn spec_saturating_sum<T: IntValue>(s: Seq<T>) -> int
    decreases s.len(),
{
    if s.len() == 0 {
        0
    } else {
        saturate::<T>(spec_saturating_sum(s.drop_last()) + s.last().spec_int())
    }
}

/// The sum of `s` from the left; `None` where a partial sum leaves the range of `T`.
pub open spec fn spec_checked_sum<T: IntValue>(s: Seq<T>) -> Option<int>
    decreases s.len(),
{
    if s.len() == 0 {
        Some(0)
    } else {
        match spec_checked_sum(s.drop_last()) {
            Some(p) => {
                let q = p + s.last().spec_int();
                if T::spec_min() <= q <= T::spec_max() {
                    Some(q)
                } else {
                    None
                }
            },
            None => None,
        }
    }
}

/// The saturating sum of a vector.
pub struct BoundedSumFunction<T> {
    pub _marker: std::marker::PhantomData<T>,
}

impl<T: SaturatingAdd> Function for BoundedSumFunction<T> {
    type Input = Vec<T>;
    type Output = T;

    open spec fn spec_eval(&self, arg: Seq<T>) -> Option<T> {
        Some(T::spec_from_int(spec_saturating_sum(arg)))
    }

    fn eval(&self, arg: &Vec<T>) -> (r: Fallible<T>) {
        let mut sum = T::zero();
        let mut i: usize = 0;
        proof {
            T::lemma_range();
            assert(arg@.take(0) =~= Seq::<T>::empty());
        }
        while i < arg.len()
            invariant
                i <= arg@.len(),
                sum.spec_int() == spec_saturating_sum(arg@.take(i as int)),
            decreases arg@.len() - i,
        {
            proof {
                assert(arg@.take(i + 1).drop_last() == arg@.take(i as int));
            }
            sum = sum.saturating_add(&arg[i]);
            i = i + 1;
        }
        proof {
            assert(arg@.take(arg@.len() as int) == arg@);
            lemma_vec_deep_view_identity(*arg);
            T::lemma_int_range(sum);
            T::lemma_deep_view_identity(sum);
        }
        Ok(sum)
    }
}

/// The greater of the magnitudes of the bounds.
pub open spec fn spec_sum_constant<T: TotalOrd + Abs>(bounds: (T, T)) -> T {
    if bounds.1.spec_abs().spec_total_le(bounds.0.spec_abs()) {
        bounds.0.spec_abs()
    } else {
        bounds.1.spec_abs()
    }
}

/// A transformation that sums a dataset of bounded records, saturating at
/// the bounds of `T`. Fails where `bounds.0 > bounds.1`.
pub fn make_bounded_sum<T: SaturatingAdd + TotalOrd + Abs + Distance>(bounds: (T, T)) -> (r: Fallible<
    Transformation<
        VectorDomain<BoundedDomain<T>>,
        AllDomain<T>,
        SymmetricDistance,
        AbsoluteDistance<T>,
        BoundedSumFunction<T>,
        LinearRelation<IntDistance, T>,
    >,
>)
    ensures
        r.is_ok() <==> bounds.0.spec_total_le(bounds.1),
        r matches Ok(t) ==> t.stability_relation.spec_c_num() == spec_sum_constant(bounds).spec_num()
            && t.stability_relation.spec_c_den() == spec_sum_constant(bounds).spec_den(),
        r matches Ok(t) ==> t.input_domain.element_domain.lower == Bound::Included(bounds.0)
            && t.input_domain.element_domain.upper == Bound::Included(bounds.1),
        r matches Err(e) ==> e.variant == ErrorVariant::MakeDomain,
{
    let domain = IntervalDomain::new_closed(bounds)?;
    let (lower, upper) = bounds;
    let la = lower.abs();
    let ua = upper.abs();
    let c = if ua.total_le(&la) { la } else { ua };
    Ok(
        Transformation::new(
            VectorDomain::new(domain),
            AllDomain::new(),
            BoundedSumFunction { _marker: std::marker::PhantomData },
            SymmetricDistance,
            AbsoluteDistance::default(),
            LinearRelation::new_from_constant(c),
        ),
    )
}

/// The sum of a vector, failing where a partial sum leaves the range of `T`.
pub struct SizedBoundedSumFunction<T> {
    pub _marker: std::marker::PhantomData<T>,
}

impl<T: IntValue> Function for SizedBoundedSumFunction<T> {
    type Input = Vec<T>;
    type Output = T;

    open spec fn spec_eval(&self, arg: Seq<T>) -> Option<T> {
        match spec_checked_sum(arg) {
            Some(s) => Some(T::spec_from_int(s)),
            None => None,
        }
    }

    fn eval(&self, arg: &Vec<T>) -> (r: Fallible<T>) {
        let mut sum: i128 = 0;
        let mut i: usize = 0;
        proof {
            T::lemma_range();
            assert(arg@.take(0) =~= Seq::<T>::empty());
            lemma_vec_deep_view_identity(*arg);
        }
        while i < arg.len()
            invariant
                i <= arg@.len(),
                spec_checked_sum(arg@.take(i as int)) == Some(sum as int),
                T::spec_min() <= sum <= T::spec_max(),
                T::spec_min() >= -0x1_0000_0000_0000_0000,
                T::spec_max() <= 0x1_0000_0000_0000_0000,
                arg.deep_view() == arg@,
            decreases arg@.len() - i,
        {
            proof {
                assert(arg@.take(i + 1).drop_last() == arg@.take(i as int));
                T::lemma_int_range(arg@[i as int]);
            }
            let q = sum + arg[i].to_i128();
            if q < T::to_i128(&T::min_value()) || q > T::to_i128(&T::max_value()) {
                proof {
                    lemma_checked_sum_none_extends(arg@, i as int + 1);
                }
                return Err(Error::with_message(ErrorVariant::FailedFunction, "sum overflowed"));
            }
            sum = q;
            i = i + 1;
        }
        proof {
            assert(arg@.take(arg@.len() as int) == arg@);
        }
        let v = T::from_i128(sum);
        proof {
            T::lemma_int_range(v);
            T::lemma_deep_view_identity(v);
        }
        Ok(v)
    }
}

/// Once a partial sum overflows, every longer prefix's sum does too.
proof fn lemma_checked_sum_none_extends<T: IntValue>(s: Seq<T>, k: int)
    requires
        0 <= k <= s.len(),
        spec_checked_sum(s.take(k)).is_none(),
    ensures
        spec_checked_sum(s).is_none(),
    decreases s.len() - k,
{
    if k < s.len() {
        assert(s.take(k + 1).drop_last() == s.take(k));
        lemma_checked_sum_none_extends(s, k + 1);
    } else {
        assert(s.take(k) == s);
    }
}

/// A transformation that sums a dataset of known size and bounded records.
/// Fails where the bounds are out of order, where `size` does not fit `T`,
/// or where `size` times a bound overflows `T`.
pub fn make_sized_bounded_sum<T: ExactIntCast + TotalOrd + IntDistanceValue>(size: usize, bounds: (T, T)) -> (r: Fallible<
    Transformation<
        SizedDomain<VectorDomain<BoundedDomain<T>>>,
        AllDomain<T>,
        SymmetricDistance,
        AbsoluteDistance<T>,
        SizedBoundedSumFunction<T>,
        LinearRelation<IntDistance, T>,
    >,
>)
    requires
        T::spec_min() <= bounds.1.spec_int() - bounds.0.spec_int() <= T::spec_max(),
    ensures
        r.is_ok() <==> (size as int <= T::spec_max() && T::spec_min() <= bounds.0.spec_int() * size <= T::spec_max()
            && T::spec_min() <= bounds.1.spec_int() * size <= T::spec_max() && bounds.0.spec_total_le(bounds.1)),
        r matches Ok(t) ==> t.stability_relation.spec_c_num() == bounds.1.spec_int() - bounds.0.spec_int()
            && t.stability_relation.spec_c_den() == 2 && t.input_domain.length == size,
        r matches Ok(t) ==> t.input_domain.element_domain.element_domain.lower == Bound::Included(bounds.0)
            && t.input_domain.element_domain.element_domain.upper == Bound::Included(bounds.1),
        r matches Err(e) ==> e.variant == (if size as int > T::spec_max() {
            ErrorVariant::FailedCast
        } else if !(T::spec_min() <= bounds.0.spec_int() * size <= T::spec_max() && T::spec_min()
            <= bounds.1.spec_int() * size <= T::spec_max()) {
            ErrorVariant::MakeTransformation
        } else {
            ErrorVariant::MakeDomain
        }),
{
    let size_ = match T::exact_int_cast_usize(size) {
        Some(s) => s,
        None => return Err(Error::with_message(ErrorVariant::FailedCast, "size does not fit the type")),
    };
    let (lower, upper) = bounds;
    proof {
        T::lemma_int_range(lower);
        T::lemma_int_range(upper);
        T::lemma_int_range(size_);
    }
    let lo = lower.to_i128();
    let up = upper.to_i128();
    let n = size_.to_i128();
    let lmin = T::min_value().to_i128();
    let lmax = T::max_value().to_i128();
    let (ln, un) = match (lo.checked_mul(n), up.checked_mul(n)) {
        (Some(a), Some(b)) => (a, b),
        _ => {
            return Err(Error::with_message(ErrorVariant::MakeTransformation, "Detected potential for overflow when computing function."));
        },
    };
    if ln < lmin || ln > lmax || un < lmin || un > lmax {
        return Err(Error::with_message(ErrorVariant::MakeTransformation, "Detected potential for overflow when computing function."));
    }
    let domain = IntervalDomain::new_closed(bounds)?;
    proof {
        T::lemma_num_int(lower);
        T::lemma_num_int(upper);
    }
    let range = upper.num() - lower.num();
    Ok(
        Transformation::new(
            SizedDomain::new(VectorDomain::new(domain), size),
            AllDomain::new(),
            SizedBoundedSumFunction { _marker: std::marker::PhantomData },
            SymmetricDistance,
            AbsoluteDistance::default(),
            LinearRelation::new_from_ratio(range, 2),
        ),
    )
}

/// `k * b` lies between 0 and `n * b` for `0 <= k <= n`.
proof fn lemma_scaled_between(k: int, n: int, b: int)
    requires
        0 <= k <= n,
    ensures
        b >= 0 ==> 0 <= k * b <= n * b,
        b < 0 ==> n * b <= k * b <= 0,
{
    if b >= 0 {
        assert(0 <= k * b <= n * b) by (nonlinear_arith)
            requires 0 <= k <= n, b >= 0;
    } else {
        assert(n * b <= k * b <= 0) by (nonlinear_arith)
            requires 0 <= k <= n, b < 0;
    }
}

/// The partial sums of records within `[lower, upper]` lie within
/// `[k * lower, k * upper]`, and so never leave the range of `T` where the
/// sums of `n` records at either bound stay within it.
proof fn lemma_checked_sum_bounds<T: IntValue>(data: Seq<T>, lower: int, upper: int, n: int)
    requires
        data.len() <= n,
        T::spec_min() <= n * lower <= T::spec_max(),
        T::spec_min() <= n * upper <= T::spec_max(),
        forall|i: int| 0 <= i < data.len() ==> lower <= (#[trigger] data[i]).spec_int() <= upper,
    ensures
        spec_checked_sum(data) matches Some(s) && data.len() * lower <= s <= data.len() * upper,
    decreases data.len(),
{
    T::lemma_range();
    if data.len() > 0 {
        let prefix = data.drop_last();
        lemma_checked_sum_bounds(prefix, lower, upper, n);
        let k = data.len() as int;
        lemma_scaled_between(k, n, lower);
        lemma_scaled_between(k, n, upper);
        assert(k * lower == (k - 1) * lower + lower) by (nonlinear_arith);
        assert(k * upper == (k - 1) * upper + upper) by (nonlinear_arith);
        assert(data.last() == data[k - 1]);
    }
}

/// A sized bounded sum whose construction succeeds never overflows on its
/// domain: on `size` records within the bounds, the checked sum exists.
pub proof fn lemma_sized_bounded_sum_total<T: IntValue>(size: int, bounds: (T, T), data: Seq<T>)
    requires
        data.len() == size,
        T::spec_min() <= bounds.0.spec_int() * size <= T::spec_max(),
        T::spec_min() <= bounds.1.spec_int() * size <= T::spec_max(),
        forall|i: int| 0 <= i < data.len() ==> bounds.0.spec_int() <= (#[trigger] data[i]).spec_int() <= bounds.1.spec_int(),
    ensures
        spec_checked_sum(data).is_some(),
{
    let lower = bounds.0.spec_int();
    let upper = bounds.1.spec_int();
    assert(size * lower == lower * size) by (nonlinear_arith);
    assert(size * upper == upper * size) by (nonlinear_arith);
    lemma_checked_sum_bounds(data, lower, upper, size);
}


/// Law: the sum of records that all lie within `[lower, upper]` exists and
/// lies within `[n * lower, n * upper]` for `n` records, wherever those two
/// products fit the type.
pub proof fn lemma_sum_within_bounds<T: IntValue>(bounds: (T, T), data: Seq<T>)
    requires
        T::spec_min() <= bounds.0.spec_int() * data.len() <= T::spec_max(),
        T::spec_min() <= bounds.1.spec_int() * data.len() <= T::spec_max(),
        forall|i: int| 0 <= i < data.len() ==> bounds.0.spec_int() <= (#[trigger] data[i]).spec_int() <= bounds.1.spec_int(),
    ensures
        spec_checked_sum(data) matches Some(s) && data.len() * bounds.0.spec_int() <= s <= data.len()
            * bounds.1.spec_int(),
        spec_checked_sum(data) matches Some(s) && spec_saturating_sum(data) == s,
{
    let n = data.len() as int;
    let lower = bounds.0.spec_int();
    let upper = bounds.1.spec_int();
    assert(n * lower == lower * n) by (nonlinear_arith);
    assert(n * upper == upper * n) by (nonlinear_arith);
    lemma_checked_sum_bounds(data, lower, upper, n);
    lemma_saturating_is_checked(data);
}

/// Law: where the sum of `data` never leaves the range of `T`, saturating
/// changes nothing: the saturating sum is the exact sum.
pub proof fn lemma_saturating_is_checked<T: IntValue>(data: Seq<T>)
    ensures
        spec_checked_sum(data) matches Some(s) ==> spec_saturating_sum(data) == s,
    decreases data.len(),
{
    if data.len() > 0 {
        lemma_saturating_is_checked(data.drop_last());
    }
}

} // verus!
