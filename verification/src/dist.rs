//! Metrics on datasets and sensitivities, measures on distributions, and the
//! distances that they take.
use vstd::prelude::*;
use crate::framework::{DatasetMetric, Measure, Metric, SensitivityMetric};
use crate::error::{Error, ErrorVariant, Fallible};
use crate::traits::{ceil_div, ceil_div_i128, floor_div, floor_div_i128, q_le, Distance, lemma_ceil_floor};

verus! {

/// The default type for distances between datasets.
pub type IntDistance = u32;

/// A rational distance `num / den` with a positive denominator.
#[derive(Debug, Clone, Copy)]
pub struct Fraction {
    num: i32,
    den: u32,
}

impl Fraction {
    #[verifier::type_invariant]
    spec fn fraction_wf(self) -> bool {
        self.den > 0
    }

    /// The numerator.
    pub closed spec fn spec_numerator(self) -> int {
        self.num as int
    }

    /// The denominator.
    pub closed spec fn spec_denominator(self) -> int {
        self.den as int
    }

    /// The fraction `num / den`; fails where `den` is zero.
    pub fn new(num: i32, den: u32) -> (r: Fallible<Fraction>)
        ensures
            r.is_ok() <==> den > 0,
            r matches Ok(f) ==> f.spec_numerator() == num && f.spec_denominator() == den,
            r matches Err(e) ==> e.variant == ErrorVariant::FailedCast,
    {
        if den == 0 {
            Err(Error::with_message(ErrorVariant::FailedCast, "denominator must be positive"))
        } else {
            Ok(Fraction { num, den })
        }
    }

    /// The integer `num` as a fraction.
    pub fn from_int(num: i32) -> (r: Fraction)
        ensures
            r.spec_numerator() == num,
            r.spec_denominator() == 1,
    {
        Fraction { num, den: 1 }
    }

    /// Fractions round exactly: rounding `n / d` up or down gives the same
    /// value, which exists exactly when `n` fits in `i32` and `d` is positive
    /// and fits in `u32`, and is then the fraction `n / d` itself.
    pub proof fn lemma_exact(n: int, d: int)
        ensures
            <Fraction as Distance>::spec_from_ceil(n, d) == <Fraction as Distance>::spec_from_floor(n, d),
            <Fraction as Distance>::spec_from_ceil(n, d) is Some <==> (i32::MIN <= n <= i32::MAX && 0 < d
                <= u32::MAX),
            <Fraction as Distance>::spec_from_ceil(n, d) matches Some(f) ==> f.spec_numerator() == n
                && f.spec_denominator() == d,
    {
    }
}

impl Distance for Fraction {
    open spec fn spec_num(&self) -> int {
        self.spec_numerator()
    }

    open spec fn spec_den(&self) -> int {
        self.spec_denominator()
    }

    closed spec fn spec_from_ceil(n: int, d: int) -> Option<Self> {
        if i32::MIN <= n <= i32::MAX && 0 < d <= u32::MAX {
            Some(Fraction { num: n as i32, den: d as u32 })
        } else {
            None
        }
    }

    closed spec fn spec_from_floor(n: int, d: int) -> Option<Self> {
        Self::spec_from_ceil(n, d)
    }

    open spec fn spec_wf(&self) -> bool {
        self.spec_denominator() > 0
    }

    fn num(&self) -> (r: i64) {
        proof {
            use_type_invariant(self);
        }
        self.num as i64
    }

    fn den(&self) -> (r: i64) {
        proof {
            use_type_invariant(self);
        }
        self.den as i64
    }

    fn from_ratio_ceil(n: i128, d: i128) -> (r: Option<Self>) {
        if i32::MIN as i128 <= n && n <= i32::MAX as i128 && d <= u32::MAX as i128 {
            Some(Fraction { num: n as i32, den: d as u32 })
        } else {
            None
        }
    }

    fn from_ratio_floor(n: i128, d: i128) -> (r: Option<Self>) {
        Self::from_ratio_ceil(n, d)
    }

    proof fn lemma_rounding(n: int, d: int) {
    }

    proof fn lemma_wf(&self) {
    }
}

/// Pure differential privacy: the distance is epsilon.
pub struct MaxDivergence<Q>(pub std::marker::PhantomData<Q>);

impl<Q> Clone for MaxDivergence<Q> {
    fn clone(&self) -> (r: Self)
        ensures
            r == *self,
    {
        MaxDivergence(std::marker::PhantomData)
    }
}

impl<Q> Copy for MaxDivergence<Q> {
}

impl<Q> Default for MaxDivergence<Q> {
    fn default() -> (r: Self)
        ensures
            r == MaxDivergence(std::marker::PhantomData::<Q>),
    {
        MaxDivergence(std::marker::PhantomData)
    }
}

impl<Q: Distance> Measure for MaxDivergence<Q> {
    type Distance = Q;
}

/// Approximate differential privacy: the distance is (epsilon, delta).
pub struct SmoothedMaxDivergence<Q>(pub std::marker::PhantomData<Q>);

impl<Q> Clone for SmoothedMaxDivergence<Q> {
    fn clone(&self) -> (r: Self)
        ensures
            r == *self,
    {
        SmoothedMaxDivergence(std::marker::PhantomData)
    }
}

impl<Q> Copy for SmoothedMaxDivergence<Q> {
}

impl<Q> Default for SmoothedMaxDivergence<Q> {
    fn default() -> (r: Self)
        ensures
            r == SmoothedMaxDivergence(std::marker::PhantomData::<Q>),
    {
        SmoothedMaxDivergence(std::marker::PhantomData)
    }
}

impl<Q> Measure for SmoothedMaxDivergence<Q> {
    type Distance = (Q, Q);
}

/// A privacy profile: the distance is a list of (epsilon, delta) pairs.
pub struct FSmoothedMaxDivergence<Q>(pub std::marker::PhantomData<Q>);

impl<Q> Clone for FSmoothedMaxDivergence<Q> {
    fn clone(&self) -> (r: Self)
        ensures
            r == *self,
    {
        FSmoothedMaxDivergence(std::marker::PhantomData)
    }
}

impl<Q> Copy for FSmoothedMaxDivergence<Q> {
}

impl<Q> Default for FSmoothedMaxDivergence<Q> {
    fn default() -> (r: Self)
        ensures
            r == FSmoothedMaxDivergence(std::marker::PhantomData::<Q>),
    {
        FSmoothedMaxDivergence(std::marker::PhantomData)
    }
}

impl<Q> Measure for FSmoothedMaxDivergence<Q> {
    type Distance = Vec<EpsilonDelta<Q>>;
}

/// The symmetric difference between datasets, counted in records.
#[derive(Clone, Copy)]
pub struct SymmetricDistance;

impl Default for SymmetricDistance {
    fn default() -> (r: Self)
        ensures
            r == SymmetricDistance,
    {
        SymmetricDistance
    }
}

impl Metric for SymmetricDistance {
    type Distance = IntDistance;
}

impl DatasetMetric for SymmetricDistance {
}

/// The number of records that must be substituted to turn one dataset into another.
#[derive(Clone, Copy)]
pub struct SubstituteDistance;

impl Default for SubstituteDistance {
    fn default() -> (r: Self)
        ensures
            r == SubstituteDistance,
    {
        SubstituteDistance
    }
}

impl Metric for SubstituteDistance {
    type Distance = IntDistance;
}

impl DatasetMetric for SubstituteDistance {
}

/// The L`P` distance between vectors.
pub struct LpDistance<Q, const P: usize>(pub std::marker::PhantomData<Q>);

impl<Q, const P: usize> Clone for LpDistance<Q, P> {
    fn clone(&self) -> (r: Self)
        ensures
            r == *self,
    {
        LpDistance(std::marker::PhantomData)
    }
}

impl<Q, const P: usize> Copy for LpDistance<Q, P> {
}

impl<Q, const P: usize> Default for LpDistance<Q, P> {
    fn default() -> (r: Self)
        ensures
            r == LpDistance::<Q, P>(std::marker::PhantomData::<Q>),
    {
        LpDistance(std::marker::PhantomData)
    }
}

impl<Q: Distance, const P: usize> Metric for LpDistance<Q, P> {
    type Distance = Q;
}

impl<Q: Distance, const P: usize> SensitivityMetric for LpDistance<Q, P> {
}

/// The L1 distance.
pub type L1Distance<Q> = LpDistance<Q, 1>;

/// The L2 distance.
pub type L2Distance<Q> = LpDistance<Q, 2>;

/// The absolute difference between scalars.
pub struct AbsoluteDistance<Q>(pub std::marker::PhantomData<Q>);

impl<Q> Clone for AbsoluteDistance<Q> {
    fn clone(&self) -> (r: Self)
        ensures
            r == *self,
    {
        AbsoluteDistance(std::marker::PhantomData)
    }
}

impl<Q> Copy for AbsoluteDistance<Q> {
}

impl<Q> Default for AbsoluteDistance<Q> {
    fn default() -> (r: Self)
        ensures
            r == AbsoluteDistance(std::marker::PhantomData::<Q>),
    {
        AbsoluteDistance(std::marker::PhantomData)
    }
}

impl<Q: Distance> Metric for AbsoluteDistance<Q> {
    type Distance = Q;
}

impl<Q: Distance> SensitivityMetric for AbsoluteDistance<Q> {
}

/// One point of a privacy profile.
#[derive(Debug, Clone, Copy)]
pub struct EpsilonDelta<T> {
    pub epsilon: T,
    pub delta: T,
}

impl<T: Copy + PartialEq> EpsilonDelta<T> {
    /// Both components equal.
    pub fn equals(&self, other: &Self) -> (r: bool)
        where T: vstd::std_specs::cmp::PartialEqSpec
        requires
            T::obeys_eq_spec(),
        ensures
            r == (self.epsilon.eq_spec(&other.epsilon) && self.delta.eq_spec(&other.delta)),
    {
        self.epsilon == other.epsilon && self.delta == other.delta
    }
}

} // verus!
