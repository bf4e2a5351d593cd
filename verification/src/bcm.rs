//! Bounded complexity measurements.
use vstd::prelude::*;

verus! {

/// A privacy relation described by a Legendre transform, kept as text.
pub struct BCRelation<MI, MO> {
    pub legendre: String,
    pub _marker: std::marker::PhantomData<(MI, MO)>,
}

/// A bounded complexity measurement: the measurement itself.
pub fn bc_measurement<M>(measurement: M) -> (r: M)
    ensures
        r == measurement,
{
    measurement
}

/// Approximate differential privacy for bounded complexity measurements:
/// the distance is (epsilon, delta).
pub struct BCMaxDivergence<Q>(pub std::marker::PhantomData<Q>);

impl<Q> Clone for BCMaxDivergence<Q> {
    fn clone(&self) -> (r: Self)
        ensures
            r == *self,
    {
        BCMaxDivergence(std::marker::PhantomData)
    }
}

impl<Q> Copy for BCMaxDivergence<Q> {
}

impl<Q> Default for BCMaxDivergence<Q> {
    fn default() -> (r: Self)
        ensures
            r == BCMaxDivergence(std::marker::PhantomData::<Q>),
    {
        BCMaxDivergence(std::marker::PhantomData)
    }
}

impl<Q> crate::framework::Measure for BCMaxDivergence<Q> {
    type Distance = (Q, Q);
}

} // verus!
