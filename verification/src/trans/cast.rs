//! Changing the dataset metric of a transformation.
use vstd::prelude::*;
use crate::dist::{IntDistance, SubstituteDistance, SymmetricDistance};
use crate::error::Fallible;
use crate::framework::{DatasetMetric, Domain, LinearRelation, Transformation};
use crate::trans::manipulation::IdentityFunction;
use crate::traits::DeepClone;

verus! {

/// The stability constant of reading a dataset under one metric as a
/// dataset under another.
pub trait DatasetMetricCast {
    spec fn spec_stability_constant() -> u32;

    fn stability_constant() -> (r: u32)
        ensures
            r == Self::spec_stability_constant(),
            1 <= r <= 2,
    ;
}

impl DatasetMetricCast for (SubstituteDistance, SymmetricDistance) {
    open spec fn spec_stability_constant() -> u32 {
        2
    }

    fn stability_constant() -> (r: u32) {
        2
    }
}

impl DatasetMetricCast for (SymmetricDistance, SubstituteDistance) {
    open spec fn spec_stability_constant() -> u32 {
        1
    }

    fn stability_constant() -> (r: u32) {
        1
    }
}

impl DatasetMetricCast for (SymmetricDistance, SymmetricDistance) {
    open spec fn spec_stability_constant() -> u32 {
        1
    }

    fn stability_constant() -> (r: u32) {
        1
    }
}

impl DatasetMetricCast for (SubstituteDistance, SubstituteDistance) {
    open spec fn spec_stability_constant() -> u32 {
        1
    }

    fn stability_constant() -> (r: u32) {
        1
    }
}

/// A transformation that leaves the data unchanged and reads distances
/// under `MI` as distances under `MO`.
pub fn make_cast_metric<D, MI, MO>(domain: D) -> (r: Fallible<
    Transformation<D, D, MI, MO, IdentityFunction<D::Carrier>, LinearRelation<IntDistance, IntDistance>>,
>)
    where
        D: Domain + Copy,
        D::Carrier: DeepClone,
        MI: DatasetMetric<Distance = IntDistance> + Default,
        MO: DatasetMetric<Distance = IntDistance> + Default,
        (MI, MO): DatasetMetricCast,
    ensures
        r.is_ok(),
        r matches Ok(t) ==> t.input_domain == domain && t.output_domain == domain
            && t.stability_relation.spec_c_num() == <(MI, MO) as DatasetMetricCast>::spec_stability_constant()
            && t.stability_relation.spec_c_den() == 1,
{
    let c = <(MI, MO) as DatasetMetricCast>::stability_constant();
    Ok(
        Transformation::new(
            domain,
            domain,
            IdentityFunction { _marker: std::marker::PhantomData },
            MI::default(),
            MO::default(),
            LinearRelation::new_from_ratio(c as i64, 1),
        ),
    )
}

} // verus!
