//! Combinators: chaining transformations and measurements, and composing
//! measurements.
use vstd::prelude::*;
use crate::dom::PairDomain;
use crate::error::{Error, ErrorVariant, Fallible};
use crate::framework::{
    ChainFunction, ChainRelation, Domain, Function, Hint, Measure, Measurement, Metric, NeverRelation, PairFunction,
    Relation, Transformation,
};

verus! {

/// Chains `transformation1` after `transformation0`. The chained relation
/// is checked at the intermediate distance that `hint` gives, or without a
/// hint at the one that the maps of the two relations give. Fails with
/// `DomainMismatch` where the output domain of `transformation0` is not the
/// input domain of `transformation1`.
pub fn make_chain_tt<DI, DX, DO, MI, MX, MO, F1, F0, R1, R0, H>(
    transformation1: Transformation<DX, DO, MX, MO, F1, R1>,
    transformation0: Transformation<DI, DX, MI, MX, F0, R0>,
    hint: Option<H>,
) -> (r: Fallible<Transformation<DI, DO, MI, MO, ChainFunction<F1, F0>, ChainRelation<R1, R0, H>>>)
    where
        DI: Domain,
        DX: Domain,
        DO: Domain,
        DI::Carrier: DeepView,
        DX::Carrier: DeepView,
        DO::Carrier: DeepView,
        MI: Metric,
        MX: Metric,
        MO: Metric,
        F1: Function<Input = DX::Carrier, Output = DO::Carrier>,
        F0: Function<Input = DI::Carrier, Output = DX::Carrier>,
        R1: Relation<DIn = MX::Distance, DOut = MO::Distance>,
        R0: Relation<DIn = MI::Distance, DOut = MX::Distance>,
        H: Hint<DIn = MI::Distance, DOut = MO::Distance, DMid = MX::Distance>,
    requires
        hint.is_some() || transformation0.stability_relation.spec_has_forward()
            || transformation1.stability_relation.spec_has_backward(),
    ensures
        r.is_ok() <==> transformation0.output_domain.spec_same(transformation1.input_domain),
        r matches Err(e) ==> e.variant == ErrorVariant::DomainMismatch,
        r matches Ok(t) ==> {
            &&& t.input_domain == transformation0.input_domain
            &&& t.output_domain == transformation1.output_domain
            &&& t.input_metric == transformation0.input_metric
            &&& t.output_metric == transformation1.output_metric
            &&& t.function.function1 == transformation1.function
            &&& t.function.function0 == transformation0.function
            &&& t.stability_relation.spec_relation1() == transformation1.stability_relation
            &&& t.stability_relation.spec_relation0() == transformation0.stability_relation
            &&& t.stability_relation.spec_hint() == hint
            &&& t.stability_relation.spec_use_forward() == transformation0.stability_relation.spec_has_forward()
        },
{
    if !transformation0.output_domain.same_domain(&transformation1.input_domain) {
        return Err(Error::with_message(ErrorVariant::DomainMismatch, "Intermediate domain mismatch"));
    }
    let Transformation {
        input_domain: input_domain0,
        output_domain: _,
        function: function0,
        input_metric: input_metric0,
        output_metric: _,
        stability_relation: relation0,
    } = transformation0;
    let Transformation {
        input_domain: _,
        output_domain: output_domain1,
        function: function1,
        input_metric: _,
        output_metric: output_metric1,
        stability_relation: relation1,
    } = transformation1;
    Ok(
        Transformation::new(
            input_domain0,
            output_domain1,
            ChainFunction::make_chain(function1, function0),
            input_metric0,
            output_metric1,
            ChainRelation::make_chain(relation1, relation0, hint),
        ),
    )
}

/// Chains `measurement1` after `transformation0`. The chained relation is
/// checked at the intermediate distance that `hint` gives, or without a hint
/// at the one that the maps of the two relations give. Fails with
/// `DomainMismatch` where the output domain of `transformation0` is not the
/// input domain of `measurement1`.
pub fn make_chain_mt<DI, DX, DO, MI, MX, MO, F1, F0, R1, R0, H>(
    measurement1: Measurement<DX, DO, MX, MO, F1, R1>,
    transformation0: Transformation<DI, DX, MI, MX, F0, R0>,
    hint: Option<H>,
) -> (r: Fallible<Measurement<DI, DO, MI, MO, ChainFunction<F1, F0>, ChainRelation<R1, R0, H>>>)
    where
        DI: Domain,
        DX: Domain,
        DO: Domain,
        DI::Carrier: DeepView,
        DX::Carrier: DeepView,
        DO::Carrier: DeepView,
        MI: Metric,
        MX: Metric,
        MO: Measure,
        F1: Function<Input = DX::Carrier, Output = DO::Carrier>,
        F0: Function<Input = DI::Carrier, Output = DX::Carrier>,
        R1: Relation<DIn = MX::Distance, DOut = MO::Distance>,
        R0: Relation<DIn = MI::Distance, DOut = MX::Distance>,
        H: Hint<DIn = MI::Distance, DOut = MO::Distance, DMid = MX::Distance>,
    requires
        hint.is_some() || transformation0.stability_relation.spec_has_forward()
            || measurement1.privacy_relation.spec_has_backward(),
    ensures
        r.is_ok() <==> transformation0.output_domain.spec_same(measurement1.input_domain),
        r matches Err(e) ==> e.variant == ErrorVariant::DomainMismatch,
        r matches Ok(m) ==> {
            &&& m.input_domain == transformation0.input_domain
            &&& m.output_domain == measurement1.output_domain
            &&& m.input_metric == transformation0.input_metric
            &&& m.output_measure == measurement1.output_measure
            &&& m.function.function1 == measurement1.function
            &&& m.function.function0 == transformation0.function
            &&& m.privacy_relation.spec_relation1() == measurement1.privacy_relation
            &&& m.privacy_relation.spec_relation0() == transformation0.stability_relation
            &&& m.privacy_relation.spec_hint() == hint
            &&& m.privacy_relation.spec_use_forward() == transformation0.stability_relation.spec_has_forward()
        },
{
    if !transformation0.output_domain.same_domain(&measurement1.input_domain) {
        return Err(Error::with_message(ErrorVariant::DomainMismatch, "Intermediate domain mismatch"));
    }
    let Transformation {
        input_domain: input_domain0,
        output_domain: _,
        function: function0,
        input_metric: input_metric0,
        output_metric: _,
        stability_relation: relation0,
    } = transformation0;
    let Measurement {
        input_domain: _,
        output_domain: output_domain1,
        function: function1,
        input_metric: _,
        output_measure: output_measure1,
        privacy_relation: relation1,
    } = measurement1;
    Ok(
        Measurement::new(
            input_domain0,
            output_domain1,
            ChainFunction::make_chain(function1, function0),
            input_metric0,
            output_measure1,
            ChainRelation::make_chain(relation1, relation0, hint),
        ),
    )
}

/// Runs two measurements on the same input and pairs their outputs. Fails
/// with `DomainMismatch` where their input domains differ. The composed
/// privacy relation never holds.
pub fn make_basic_composition<DI, DO0, DO1, MI, MO, F0, F1, R0, R1>(
    measurement0: Measurement<DI, DO0, MI, MO, F0, R0>,
    measurement1: Measurement<DI, DO1, MI, MO, F1, R1>,
) -> (r: Fallible<
    Measurement<DI, PairDomain<DO0, DO1>, MI, MO, PairFunction<F0, F1>, NeverRelation<MI::Distance, MO::Distance>>,
>)
    where
        DI: Domain,
        DO0: Domain,
        DO1: Domain,
        DI::Carrier: DeepView,
        DO0::Carrier: DeepView,
        DO1::Carrier: DeepView,
        MI: Metric,
        MO: Measure,
        F0: Function<Input = DI::Carrier, Output = DO0::Carrier>,
        F1: Function<Input = DI::Carrier, Output = DO1::Carrier>,
        R0: Relation<DIn = MI::Distance, DOut = MO::Distance>,
        R1: Relation<DIn = MI::Distance, DOut = MO::Distance>,
    ensures
        r.is_ok() <==> measurement0.input_domain.spec_same(measurement1.input_domain),
        r matches Err(e) ==> e.variant == ErrorVariant::DomainMismatch,
        r matches Ok(m) ==> {
            &&& m.input_domain == measurement0.input_domain
            &&& m.output_domain == PairDomain(measurement0.output_domain, measurement1.output_domain)
            &&& m.input_metric == measurement0.input_metric
            &&& m.output_measure == measurement0.output_measure
            &&& m.function.function0 == measurement0.function
            &&& m.function.function1 == measurement1.function
        },
{
    if !measurement0.input_domain.same_domain(&measurement1.input_domain) {
        return Err(Error::with_message(ErrorVariant::DomainMismatch, "Input domain mismatch"));
    }
    let Measurement {
        input_domain: input_domain0,
        output_domain: output_domain0,
        function: function0,
        input_metric: input_metric0,
        output_measure: output_measure0,
        privacy_relation: _,
    } = measurement0;
    let Measurement {
        input_domain: _,
        output_domain: output_domain1,
        function: function1,
        input_metric: _,
        output_measure: _,
        privacy_relation: _,
    } = measurement1;
    Ok(
        Measurement::new(
            input_domain0,
            PairDomain::new(output_domain0, output_domain1),
            PairFunction { function0, function1 },
            input_metric0,
            output_measure0,
            NeverRelation { _marker: std::marker::PhantomData },
        ),
    )
}

} // verus!
