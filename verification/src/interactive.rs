//! Interactive measurements: a queryable that answers queries from a state,
//! and adaptive composition, which answers measurements on a dataset while
//! spending a privacy budget.
use vstd::prelude::*;
use crate::dom::AllDomain;
use crate::error::{Error, ErrorVariant, Fallible};
use crate::framework::{lemma_mul2_bound, mul2, BudgetRelation, Domain, Function, Measure, Measurement, Metric, Relation};
use crate::traits::{q_le, DeepClone, Distance};

verus! {

/// A state that answers a query and moves to a next state.
pub trait Transition: Sized {
    type Query;
    type Answer: DeepView;

    /// The next state, where the query is answered; `None` where it is refused.
    spec fn spec_next(self, query: Self::Query) -> Option<Self>;

    /// The answer, where the query is answered.
    spec fn spec_answer(self, query: Self::Query) -> <Self::Answer as DeepView>::V;

    /// Answers `query`, consuming the state and giving the next one; where
    /// the query is refused, the state is handed back unchanged with the error.
    fn transition(self, query: &Self::Query) -> (r: Result<(Self, Self::Answer), (Self, Error)>)
        ensures
            r is Ok <==> self.spec_next(*query).is_some(),
            r matches Ok(p) ==> self.spec_next(*query) == Some(p.0) && p.1.deep_view() == self.spec_answer(*query),
            r matches Err(p) ==> p.0 == self,
    ;
}

/// Tracks the state of an interactive measurement. A refused query leaves
/// the state as it was, so later queries are answered from it.
pub struct Queryable<S> {
    state: Option<S>,
}

impl<S> Queryable<S> {
    /// The current state. It is always present: the queryable is made with
    /// one and every query puts one back.
    pub closed spec fn spec_state(self) -> Option<S> {
        self.state
    }
}

impl<S: DeepView> DeepView for Queryable<S> {
    type V = Option<S::V>;

    closed spec fn deep_view(&self) -> Option<S::V> {
        match self.state {
            Some(s) => Some(s.deep_view()),
            None => None,
        }
    }
}

impl<S: Transition> Queryable<S> {
    /// A queryable in its initial state.
    pub fn new(initial: S) -> (r: Self)
        ensures
            r.spec_state() == Some(initial),
    {
        Queryable { state: Some(initial) }
    }

    /// Answers a query and moves to the next state. Where the state refuses
    /// the query, the error is returned and the state stays as it was.
    pub fn eval(&mut self, query: &S::Query) -> (r: Fallible<S::Answer>)
        ensures
            match old(self).spec_state() {
                Some(s) => match s.spec_next(*query) {
                    Some(next) => final(self).spec_state() == Some(next) && (r matches Ok(a) && a.deep_view()
                        == s.spec_answer(*query)),
                    None => final(self).spec_state() == old(self).spec_state() && r.is_err(),
                },
                None => final(self).spec_state().is_none() && r.is_err(),
            },
    {
        let state = self.state.take();
        match state {
            Some(s) => match s.transition(query) {
                Ok((next, answer)) => {
                    self.state = Some(next);
                    Ok(answer)
                },
                Err((same, e)) => {
                    self.state = Some(same);
                    Err(e)
                },
            },
            None => Err(Error::with_message(ErrorVariant::FailedFunction, "the queryable holds no state")),
        }
    }
}

/// `b - q`, rounded down in the type of the distances.
pub open spec fn spec_sub_floor<Q: Distance>(b: Q, q: Q) -> Option<Q> {
    Q::spec_from_floor(b.spec_num() * q.spec_den() - q.spec_num() * b.spec_den(), b.spec_den() * q.spec_den())
}

/// Subtracts `q` from `b`, rounding down; `None` where the difference does
/// not fit the type.
pub fn sub_floor<Q: Distance>(b: &Q, q: &Q) -> (r: Option<Q>)
    ensures
        r == spec_sub_floor(*b, *q),
{
    let bn = b.num();
    let bd = b.den();
    let qn = q.num();
    let qd = q.den();
    proof {
        lemma_mul2_bound(bn as int, qd as int);
        lemma_mul2_bound(qn as int, bd as int);
        lemma_mul2_bound(bd as int, qd as int);
        assert(bd * qd >= 1) by (nonlinear_arith)
            requires bd >= 1, qd >= 1;
    }
    let n = mul2(bn, qd) - mul2(qn, bd);
    let d = mul2(bd, qd);
    Q::from_ratio_floor(n, d)
}

/// The state of an adaptive composition: the data, the remaining budget, and
/// the domains, metric and measure that each query must match.
pub struct AcState<DI: Domain, DO, MI: Metric, MO: Measure, F, R> {
    pub input_domain: DI,
    pub output_domain: DO,
    pub input_metric: MI,
    pub output_measure: MO,
    pub d_in_budget: MI::Distance,
    pub d_out_budget: MO::Distance,
    pub data: DI::Carrier,
    pub _marker: std::marker::PhantomData<(F, R)>,
}

impl<DI: Domain, DO: Domain, MI: Metric, MO: Measure, F, R> DeepView for AcState<DI, DO, MI, MO, F, R>
    where DI::Carrier: DeepView, MI::Distance: Copy, MO::Distance: Copy {
    type V = (DI, DO, MI, MO, MI::Distance, MO::Distance, <DI::Carrier as DeepView>::V);

    open spec fn deep_view(&self) -> Self::V {
        (
            self.input_domain,
            self.output_domain,
            self.input_metric,
            self.output_measure,
            self.d_in_budget,
            self.d_out_budget,
            self.data.deep_view(),
        )
    }
}

/// The query and the output domain of `measurement` match those of the state.
pub open spec fn spec_types_match<DI: Domain, DO: Domain, MI: Metric, MO: Measure, F, R>(
    state: AcState<DI, DO, MI, MO, F, R>,
    measurement: Measurement<DI, DO, MI, MO, F, R>,
) -> bool {
    measurement.input_domain.spec_same(state.input_domain) && measurement.output_domain.spec_same(state.output_domain)
}

/// The relation holds at the input budget and the query's distance, and the
/// query's distance is within the remaining budget.
pub open spec fn spec_budget_ok<DI: Domain, DO: Domain, MI: Metric, MO: Measure, F, R: Relation<DIn = MI::Distance, DOut = MO::Distance>>(
    state: AcState<DI, DO, MI, MO, F, R>,
    relation: R,
    d_out_query: MO::Distance,
) -> bool where MO::Distance: Distance {
    &&& relation.spec_eval(state.d_in_budget, d_out_query) == Some(true)
    &&& q_le(d_out_query.spec_num(), d_out_query.spec_den(), state.d_out_budget.spec_num(), state.d_out_budget.spec_den())
}

impl<DI, DO, MI, MO, F, R> AcState<DI, DO, MI, MO, F, R>
    where
        DI: Domain,
        DO: Domain,
        DI::Carrier: DeepView,
        DO::Carrier: DeepView,
        MI: Metric,
        MO: Measure,
        MI::Distance: Distance + Copy,
        MO::Distance: Distance + Copy,
        F: Function<Input = DI::Carrier, Output = DO::Carrier>,
        R: Relation<DIn = MI::Distance, DOut = MO::Distance>,
{
    pub fn new(
        input_domain: DI,
        output_domain: DO,
        input_metric: MI,
        output_measure: MO,
        data: DI::Carrier,
        d_in_budget: MI::Distance,
        d_out_budget: MO::Distance,
    ) -> (r: Self)
        ensures
            r.input_domain == input_domain,
            r.output_domain == output_domain,
            r.input_metric == input_metric,
            r.output_measure == output_measure,
            r.data == data,
            r.d_in_budget == d_in_budget,
            r.d_out_budget == d_out_budget,
    {
        AcState {
            input_domain,
            output_domain,
            input_metric,
            output_measure,
            d_in_budget,
            d_out_budget,
            data,
            _marker: std::marker::PhantomData,
        }
    }

    /// Checks that a measurement's domains match this state. Fails with
    /// `DomainMismatch` otherwise.
    pub fn check_types(&self, measurement: &Measurement<DI, DO, MI, MO, F, R>) -> (r: Fallible<()>)
        ensures
            r.is_ok() <==> spec_types_match(*self, *measurement),
            r matches Err(e) ==> e.variant == ErrorVariant::DomainMismatch,
    {
        if !measurement.input_domain.same_domain(&self.input_domain) {
            return Err(Error::with_message(ErrorVariant::DomainMismatch, "wrong query input domain"));
        } else if !measurement.output_domain.same_domain(&self.output_domain) {
            return Err(Error::with_message(ErrorVariant::DomainMismatch, "wrong query output domain"));
        }
        Ok(())
    }

    /// Checks that the relation holds at the input budget and the query's
    /// distance, and that the query's distance is within the remaining
    /// budget; fails with `FailedRelation` where either does not hold, and
    /// with the relation's own error where it cannot be evaluated.
    pub fn check_budget(&self, privacy_relation: &R, d_out_query: &MO::Distance) -> (r: Fallible<()>)
        ensures
            r.is_ok() <==> spec_budget_ok(*self, *privacy_relation, *d_out_query),
            (privacy_relation.spec_eval(self.d_in_budget, *d_out_query).is_some() && !spec_budget_ok(*self, *privacy_relation, *d_out_query))
                ==> (r matches Err(e) && e.variant == ErrorVariant::FailedRelation),
    {
        let holds = privacy_relation.eval(&self.d_in_budget, d_out_query)?;
        if !holds {
            return Err(Error::with_message(ErrorVariant::FailedRelation, "the privacy relation does not hold"));
        }
        if !crate::framework::le_distance(d_out_query, &self.d_out_budget) {
            return Err(Error::with_message(ErrorVariant::FailedRelation, "not enough budget"));
        }
        Ok(())
    }

    /// Spends `d_out_query` of the output budget; fails with
    /// `FailedFunction` where the remainder does not fit the distance type.
    pub fn update(self, d_out_query: &MO::Distance) -> (r: Fallible<Self>)
        ensures
            r.is_ok() <==> spec_sub_floor(self.d_out_budget, *d_out_query).is_some(),
            r matches Ok(s) ==> s == (AcState { d_out_budget: spec_sub_floor(self.d_out_budget, *d_out_query).unwrap(), ..self }),
            r matches Err(e) ==> e.variant == ErrorVariant::FailedFunction,
    {
        match sub_floor(&self.d_out_budget, d_out_query) {
            Some(b) => Ok(AcState { d_out_budget: b, ..self }),
            None => Err(Error::with_message(ErrorVariant::FailedFunction, "budget underflow")),
        }
    }
}

impl<DI, DO, MI, MO, F, R> Transition for AcState<DI, DO, MI, MO, F, R>
    where
        DI: Domain,
        DO: Domain,
        DI::Carrier: DeepView,
        DO::Carrier: DeepView,
        MI: Metric,
        MO: Measure,
        MI::Distance: Distance + Copy,
        MO::Distance: Distance + Copy,
        F: Function<Input = DI::Carrier, Output = DO::Carrier>,
        R: Relation<DIn = MI::Distance, DOut = MO::Distance>,
{
    type Query = (Measurement<DI, DO, MI, MO, F, R>, MO::Distance);
    type Answer = DO::Carrier;

    open spec fn spec_next(self, query: Self::Query) -> Option<Self> {
        if spec_types_match(self, query.0) && spec_budget_ok(self, query.0.privacy_relation, query.1)
            && query.0.function.spec_eval(self.data.deep_view()).is_some() {
            match spec_sub_floor(self.d_out_budget, query.1) {
                Some(b) => Some(AcState { d_out_budget: b, ..self }),
                None => None,
            }
        } else {
            None
        }
    }

    open spec fn spec_answer(self, query: Self::Query) -> <DO::Carrier as DeepView>::V {
        query.0.function.spec_eval(self.data.deep_view()).unwrap()
    }

    fn transition(self, query: &Self::Query) -> (r: Result<(Self, DO::Carrier), (Self, Error)>) {
        let (measurement, d_out_query) = query;
        if let Err(e) = self.check_types(measurement) {
            return Err((self, e));
        }
        if let Err(e) = self.check_budget(&measurement.privacy_relation, d_out_query) {
            return Err((self, e));
        }
        let res = match measurement.invoke(&self.data) {
            Ok(v) => v,
            Err(e) => return Err((self, e)),
        };
        match sub_floor(&self.d_out_budget, d_out_query) {
            Some(b) => Ok((AcState { d_out_budget: b, ..self }, res)),
            None => Err((self, Error::with_message(ErrorVariant::FailedFunction, "budget underflow"))),
        }
    }
}

/// The function of an adaptive composition: makes a queryable over a copy of
/// its input, with the full budget.
pub struct AcFunction<DI, DO, MI: Metric, MO: Measure, F, R> {
    pub input_domain: DI,
    pub output_domain: DO,
    pub input_metric: MI,
    pub output_measure: MO,
    pub d_in_budget: MI::Distance,
    pub d_out_budget: MO::Distance,
    pub _marker: std::marker::PhantomData<(F, R)>,
}

impl<DI, DO, MI, MO, F, R> Function for AcFunction<DI, DO, MI, MO, F, R>
    where
        DI: Domain + Copy,
        DO: Domain + Copy,
        DI::Carrier: DeepClone,
        DO::Carrier: DeepView,
        MI: Metric + Copy,
        MO: Measure + Copy,
        MI::Distance: Distance + Copy,
        MO::Distance: Distance + Copy,
        F: Function<Input = DI::Carrier, Output = DO::Carrier>,
        R: Relation<DIn = MI::Distance, DOut = MO::Distance>,
{
    type Input = DI::Carrier;
    type Output = Queryable<AcState<DI, DO, MI, MO, F, R>>;

    open spec fn spec_eval(&self, arg: <DI::Carrier as DeepView>::V) -> Option<
        Option<(DI, DO, MI, MO, MI::Distance, MO::Distance, <DI::Carrier as DeepView>::V)>,
    > {
        Some(
            Some(
                (
                    self.input_domain,
                    self.output_domain,
                    self.input_metric,
                    self.output_measure,
                    self.d_in_budget,
                    self.d_out_budget,
                    arg,
                ),
            ),
        )
    }

    fn eval(&self, arg: &DI::Carrier) -> (r: Fallible<Queryable<AcState<DI, DO, MI, MO, F, R>>>) {
        let state = AcState::new(
            self.input_domain,
            self.output_domain,
            self.input_metric,
            self.output_measure,
            arg.deep_clone(),
            self.d_in_budget,
            self.d_out_budget,
        );
        let q = Queryable::new(state);
        assert(q.deep_view() == Some(state.deep_view()));
        Ok(q)
    }
}

/// A measurement whose output is a queryable that answers measurements on
/// the input while the output budget lasts. Its privacy relation holds where
/// the distances are within the budgets.
pub fn make_adaptive_composition<DI, DO, MI, MO, F, R>(
    input_domain: DI,
    output_domain: DO,
    input_metric: MI,
    output_measure: MO,
    d_in_budget: MI::Distance,
    d_out_budget: MO::Distance,
) -> (r: Measurement<
    DI,
    AllDomain<Queryable<AcState<DI, DO, MI, MO, F, R>>>,
    MI,
    MO,
    AcFunction<DI, DO, MI, MO, F, R>,
    BudgetRelation<MI::Distance, MO::Distance>,
>)
    where
        DI: Domain + Copy,
        DO: Domain + Copy,
        DI::Carrier: DeepClone,
        DO::Carrier: DeepView,
        MI: Metric + Copy,
        MO: Measure + Copy,
        MI::Distance: Distance + Copy,
        MO::Distance: Distance + Copy,
        F: Function<Input = DI::Carrier, Output = DO::Carrier>,
        R: Relation<DIn = MI::Distance, DOut = MO::Distance>,
    ensures
        r.input_domain == input_domain,
        r.input_metric == input_metric,
        r.output_measure == output_measure,
        r.function.input_domain == input_domain,
        r.function.output_domain == output_domain,
        r.function.input_metric == input_metric,
        r.function.output_measure == output_measure,
        r.function.d_in_budget == d_in_budget,
        r.function.d_out_budget == d_out_budget,
        r.privacy_relation.d_in_budget == d_in_budget,
        r.privacy_relation.d_out_budget == d_out_budget,
{
    Measurement::new(
        input_domain,
        AllDomain::new(),
        AcFunction {
            input_domain,
            output_domain,
            input_metric,
            output_measure,
            d_in_budget,
            d_out_budget,
            _marker: std::marker::PhantomData,
        },
        input_metric,
        output_measure,
        BudgetRelation { d_in_budget, d_out_budget },
    )
}

/// A query whose distance exceeds the remaining budget is refused.
pub proof fn lemma_over_budget_refused<DI, DO, MI, MO, F, R>(
    state: AcState<DI, DO, MI, MO, F, R>,
    query: (Measurement<DI, DO, MI, MO, F, R>, MO::Distance),
)
    where
        DI: Domain,
        DO: Domain,
        DI::Carrier: DeepView,
        DO::Carrier: DeepView,
        MI: Metric,
        MO: Measure,
        MI::Distance: Distance + Copy,
        MO::Distance: Distance + Copy,
        F: Function<Input = DI::Carrier, Output = DO::Carrier>,
        R: Relation<DIn = MI::Distance, DOut = MO::Distance>,
    requires
        !q_le(query.1.spec_num(), query.1.spec_den(), state.d_out_budget.spec_num(), state.d_out_budget.spec_den()),
    ensures
        state.spec_next(query).is_none(),
{
}

/// An answered query leaves the data and the input budget as they were,
/// answers with the query's function on the data, and leaves an output
/// budget at most the old budget minus the query's distance.
pub proof fn lemma_answer_spends_budget<DI, DO, MI, MO, F, R>(
    state: AcState<DI, DO, MI, MO, F, R>,
    query: (Measurement<DI, DO, MI, MO, F, R>, MO::Distance),
)
    where
        DI: Domain,
        DO: Domain,
        DI::Carrier: DeepView,
        DO::Carrier: DeepView,
        MI: Metric,
        MO: Measure,
        MI::Distance: Distance + Copy,
        MO::Distance: Distance + Copy,
        F: Function<Input = DI::Carrier, Output = DO::Carrier>,
        R: Relation<DIn = MI::Distance, DOut = MO::Distance>,
    requires
        state.d_out_budget.spec_wf(),
        query.1.spec_wf(),
        state.spec_next(query).is_some(),
    ensures
        ({
            let next = state.spec_next(query).unwrap();
            let b = state.d_out_budget;
            let q = query.1;
            &&& next.data == state.data
            &&& next.d_in_budget == state.d_in_budget
            &&& Some(state.spec_answer(query)) == query.0.function.spec_eval(state.data.deep_view())
            &&& q_le(
                next.d_out_budget.spec_num(),
                next.d_out_budget.spec_den(),
                b.spec_num() * q.spec_den() - q.spec_num() * b.spec_den(),
                b.spec_den() * q.spec_den(),
            )
        }),
{
    let b = state.d_out_budget;
    let q = query.1;
    b.lemma_wf();
    q.lemma_wf();
    assert(b.spec_den() * q.spec_den() > 0) by (nonlinear_arith)
        requires b.spec_den() > 0, q.spec_den() > 0;
    MO::Distance::lemma_rounding(b.spec_num() * q.spec_den() - q.spec_num() * b.spec_den(), b.spec_den() * q.spec_den());
}

} // verus!
