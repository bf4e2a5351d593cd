//! Clamping transformations.
use vstd::prelude::*;
use crate::dom::{AllDomain, Bound, IntervalDomain, VectorDomain};
use crate::error::{Error, ErrorVariant, Fallible};
use crate::dist::AbsoluteDistance;
use crate::framework::{DatasetMetric, Function, LinearRelation, Relation, Transformation};
use crate::traits::{spec_clamp, total_clamp, DeepClone, Distance, HashKey, IntDistanceValue, TotalOrd};
use crate::trans::manipulation::{make_row_by_row, IdentityFunction, RowByRow};

verus! {

/// Clamps a value into `[lower, upper]`.
pub struct ClampFunction<T: TotalOrd> {
    lower: T,
    upper: T,
}

impl<T: TotalOrd> ClampFunction<T> {
    #[verifier::type_invariant]
    spec fn clamp_wf(self) -> bool {
        self.lower.spec_total_le(self.upper)
    }

    pub closed spec fn spec_lower(self) -> T {
        self.lower
    }

    pub closed spec fn spec_upper(self) -> T {
        self.upper
    }
}

impl<T: TotalOrd + HashKey> Function for ClampFunction<T> {
    type Input = T;
    type Output = T;

    open spec fn spec_eval(&self, arg: T) -> Option<T> {
        Some(spec_clamp(arg, self.spec_lower(), self.spec_upper()))
    }

    fn eval(&self, arg: &T) -> (r: Fallible<T>) {
        proof {
            use_type_invariant(self);
            T::lemma_deep_view_identity(*arg);
        }
        let c = total_clamp(*arg, self.lower, self.upper);
        proof {
            T::lemma_deep_view_identity(c);
        }
        Ok(c)
    }
}

/// A transformation that clamps each record into `[lower, upper]`.
/// Fails where `lower > upper`.
pub fn make_clamp<M: DatasetMetric + Default, T: TotalOrd + HashKey>(lower: T, upper: T) -> (r: Fallible<
    Transformation<
        VectorDomain<AllDomain<T>>,
        VectorDomain<IntervalDomain<T>>,
        M,
        M,
        RowByRow<ClampFunction<T>>,
        LinearRelation<M::Distance, M::Distance>,
    >,
>)
    where M::Distance: Distance,
    ensures
        r.is_ok() <==> lower.spec_total_le(upper),
        r matches Ok(t) ==> t.function.atom.spec_lower() == lower && t.function.atom.spec_upper() == upper
            && t.output_domain.element_domain.lower == Bound::Included(lower)
            && t.output_domain.element_domain.upper == Bound::Included(upper)
            && t.stability_relation.spec_c_num() == 1 && t.stability_relation.spec_c_den() == 1,
        r matches Err(e) ==> e.variant == ErrorVariant::MakeDomain,
{
    if !lower.total_le(&upper) {
        return Err(Error::with_message(ErrorVariant::MakeDomain, "lower bound may not be greater than upper bound"));
    }
    make_row_by_row(
        AllDomain::new(),
        IntervalDomain::new(Bound::Included(lower), Bound::Included(upper)),
        ClampFunction { lower, upper },
    )
}

/// A transformation that forgets the bounds of each record.
/// Fails where the bounds describe no interval.
pub fn make_unclamp<M: DatasetMetric + Default, T: TotalOrd + HashKey>(lower: Bound<T>, upper: Bound<T>) -> (r: Fallible<
    Transformation<
        VectorDomain<IntervalDomain<T>>,
        VectorDomain<AllDomain<T>>,
        M,
        M,
        RowByRow<IdentityFunction<T>>,
        LinearRelation<M::Distance, M::Distance>,
    >,
>)
    where M::Distance: Distance, T: crate::traits::DeepClone,
    ensures
        r.is_ok() <==> crate::dom::spec_bounds_ordered(lower, upper),
        r matches Ok(t) ==> t.input_domain.element_domain.lower == lower && t.input_domain.element_domain.upper == upper
            && t.stability_relation.spec_c_num() == 1 && t.stability_relation.spec_c_den() == 1,
        r matches Err(e) ==> e.variant == ErrorVariant::MakeDomain,
{
    let domain = IntervalDomain::new_bounded(lower, upper)?;
    make_row_by_row(domain, AllDomain::new(), IdentityFunction { _marker: std::marker::PhantomData })
}

/// The stability of clamping one value into an interval of width `width`:
/// `d_out >= min(d_in, width)`, with that minimum as the forward map.
pub struct ClampScalarRelation<Q> {
    pub width: Q,
}

/// The smaller of two integers.
pub open spec fn spec_min_int(a: int, b: int) -> int {
    if a < b {
        a
    } else {
        b
    }
}

impl<Q: IntDistanceValue> Relation for ClampScalarRelation<Q> {
    type DIn = Q;
    type DOut = Q;

    open spec fn spec_eval(&self, d_in: Q, d_out: Q) -> Option<bool> {
        Some(d_out.spec_int() >= spec_min_int(d_in.spec_int(), self.width.spec_int()))
    }

    open spec fn spec_has_forward(&self) -> bool {
        true
    }

    open spec fn spec_has_backward(&self) -> bool {
        false
    }

    open spec fn spec_forward(&self, d_in: Q) -> Option<Q> {
        if d_in.spec_int() < self.width.spec_int() {
            Some(d_in)
        } else {
            Some(self.width)
        }
    }

    open spec fn spec_backward(&self, d_out: Q) -> Option<Q> {
        None
    }

    fn eval(&self, d_in: &Q, d_out: &Q) -> (r: Fallible<bool>) {
        let m = if d_in.to_i128() < self.width.to_i128() {
            d_in.to_i128()
        } else {
            self.width.to_i128()
        };
        Ok(d_out.to_i128() >= m)
    }

    fn has_forward(&self) -> (r: bool) {
        true
    }

    fn has_backward(&self) -> (r: bool) {
        false
    }

    fn forward_map(&self, d_in: &Q) -> (r: Fallible<Q>) {
        if d_in.to_i128() < self.width.to_i128() {
            Ok(*d_in)
        } else {
            Ok(self.width)
        }
    }

    fn backward_map(&self, d_out: &Q) -> (r: Fallible<Q>)
        ensures
            r matches Err(e) && e.variant == ErrorVariant::NotImplemented,
    {
        Err(Error::new(ErrorVariant::NotImplemented))
    }
}

/// A transformation that clamps a single value into `[lower, upper]`; under
/// the absolute distance, its sensitivity is at most `upper - lower`. Fails
/// with `MakeDomain` where `lower > upper`.
pub fn make_clamp_scalar<T: IntDistanceValue + TotalOrd>(lower: T, upper: T) -> (r: Fallible<
    Transformation<AllDomain<T>, IntervalDomain<T>, AbsoluteDistance<T>, AbsoluteDistance<T>, ClampFunction<T>, ClampScalarRelation<T>>,
>)
    requires
        lower.spec_total_le(upper) ==> T::spec_min() <= upper.spec_int() - lower.spec_int() <= T::spec_max(),
    ensures
        r.is_ok() <==> lower.spec_total_le(upper),
        r matches Ok(t) ==> t.function.spec_lower() == lower && t.function.spec_upper() == upper
            && t.output_domain.lower == Bound::Included(lower) && t.output_domain.upper == Bound::Included(upper)
            && t.stability_relation.width.spec_int() == upper.spec_int() - lower.spec_int(),
        r matches Err(e) ==> e.variant == ErrorVariant::MakeDomain,
{
    if !lower.total_le(&upper) {
        return Err(Error::with_message(ErrorVariant::MakeDomain, "lower bound may not be greater than upper bound"));
    }
    proof {
        T::lemma_int_range(lower);
        T::lemma_int_range(upper);
    }
    let width = T::from_i128(upper.to_i128() - lower.to_i128());
    Ok(
        Transformation::new(
            AllDomain::new(),
            IntervalDomain::new(Bound::Included(lower), Bound::Included(upper)),
            ClampFunction { lower, upper },
            AbsoluteDistance::default(),
            AbsoluteDistance::default(),
            ClampScalarRelation { width },
        ),
    )
}

/// A transformation that forgets the bounds of a single value, with
/// stability constant 1 under the absolute distance. Fails with
/// `MakeDomain` where the bounds describe no interval.
pub fn make_unclamp_scalar<T: IntDistanceValue + TotalOrd + DeepClone>(lower: Bound<T>, upper: Bound<T>) -> (r: Fallible<
    Transformation<IntervalDomain<T>, AllDomain<T>, AbsoluteDistance<T>, AbsoluteDistance<T>, IdentityFunction<T>, LinearRelation<T, T>>,
>)
    ensures
        r.is_ok() <==> crate::dom::spec_bounds_ordered(lower, upper),
        r matches Ok(t) ==> t.input_domain.lower == lower && t.input_domain.upper == upper
            && t.stability_relation.spec_c_num() == 1 && t.stability_relation.spec_c_den() == 1,
        r matches Err(e) ==> e.variant == ErrorVariant::MakeDomain,
{
    let domain = IntervalDomain::new_bounded(lower, upper)?;
    Ok(
        Transformation::new(
            domain,
            AllDomain::new(),
            IdentityFunction { _marker: std::marker::PhantomData },
            AbsoluteDistance::default(),
            AbsoluteDistance::default(),
            LinearRelation::new_from_ratio(1, 1),
        ),
    )
}

/// Clamping lands in the bounds, leaves a value within them unchanged, and
/// so clamping twice is clamping once.
pub proof fn lemma_clamp_idempotent<T: TotalOrd>(v: T, lower: T, upper: T)
    requires
        lower.spec_total_le(upper),
    ensures
        lower.spec_total_le(spec_clamp(v, lower, upper)),
        spec_clamp(v, lower, upper).spec_total_le(upper),
        (lower.spec_total_le(v) && v.spec_total_le(upper)) ==> spec_clamp(v, lower, upper) == v,
        spec_clamp(spec_clamp(v, lower, upper), lower, upper) == spec_clamp(v, lower, upper),
{
    T::lemma_total_order(lower, v, upper);
    T::lemma_total_order(v, upper, lower);
    T::lemma_total_order(v, lower, upper);
    T::lemma_total_order(upper, lower, v);
    T::lemma_total_order(lower, upper, lower);
    T::lemma_total_order(upper, upper, upper);
}

} // verus!
