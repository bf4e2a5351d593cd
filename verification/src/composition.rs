//! Basic composition of several measurements of the same kind: all are run
//! on the same input, and their privacy usages are found by bisection and
//! added up against the output budget.
use vstd::prelude::*;
use crate::dom::VectorDomain;
use crate::error::{Error, ErrorVariant, Fallible};
use crate::framework::{Domain, Function, Measure, Measurement, Metric, Relation};
use crate::traits::{spec_div_trunc, IntValue};

verus! {

/// The number of bisection steps.
pub const MAX_ITERATIONS: usize = 100;

/// The midpoint of two integers, rounded toward the first.
pub open spec fn spec_midpoint(lo: int, hi: int) -> int {
    lo + spec_div_trunc(hi - lo, 2)
}

/// Bisection between `lo`, where the relation is taken not to hold, and
/// `hi`, where it holds, for at most `n` more steps; each step moves the
/// end on the midpoint's side, and the search stops once the ends meet.
/// `None` where an evaluation fails.
pub open spec fn spec_bisect<R: Relation>(relation: R, d_in: R::DIn, lo: R::DOut, hi: R::DOut, n: nat) -> Option<R::DOut>
    where R::DOut: IntValue,
    decreases n,
{
    if n == 0 {
        Some(hi)
    } else {
        let mid = R::DOut::spec_from_int(spec_midpoint(lo.spec_int(), hi.spec_int()));
        match relation.spec_eval(d_in, mid) {
            None => None,
            Some(holds) => {
                let lo2 = if holds { lo } else { mid };
                let hi2 = if holds { mid } else { hi };
                if hi2.spec_int() <= lo2.spec_int() {
                    Some(hi2)
                } else {
                    spec_bisect(relation, d_in, lo2, hi2, (n - 1) as nat)
                }
            },
        }
    }
}

/// The smallest usage that bisection finds for `relation` within `d_out`:
/// `Some(None)` where the relation does not hold at `d_out`, `None` where an
/// evaluation fails.
pub open spec fn spec_usage<R: Relation>(relation: R, d_in: R::DIn, d_out: R::DOut) -> Option<Option<R::DOut>>
    where R::DOut: IntValue,
{
    match relation.spec_eval(d_in, d_out) {
        None => None,
        Some(false) => Some(None),
        Some(true) => match spec_bisect(relation, d_in, R::DOut::spec_from_int(0), d_out, MAX_ITERATIONS as nat) {
            None => None,
            Some(u) => Some(Some(u)),
        },
    }
}

/// The composed relation over the relations from the `i`-th on, with
/// `d_out` left: each relation's usage is spent in turn; `Some(false)` where
/// one does not hold at what is left, `None` where an evaluation fails or the
/// remainder leaves the range of the distance type.
pub open spec fn spec_compose<R: Relation>(relations: Seq<R>, d_in: R::DIn, d_out: R::DOut, i: int) -> Option<bool>
    where R::DOut: IntValue,
    decreases relations.len() - i,
{
    if i < 0 || i >= relations.len() {
        Some(true)
    } else {
        match spec_usage(relations[i], d_in, d_out) {
            None => None,
            Some(None) => Some(false),
            Some(Some(u)) => {
                let rest = d_out.spec_int() - u.spec_int();
                if R::DOut::spec_min() <= rest <= R::DOut::spec_max() {
                    spec_compose(relations, d_in, R::DOut::spec_from_int(rest), i + 1)
                } else {
                    None
                }
            },
        }
    }
}

/// The midpoint of two values of an integer type.
fn midpoint<Q: IntValue>(lo: &Q, hi: &Q) -> (r: Q)
    ensures
        r == Q::spec_from_int(spec_midpoint(lo.spec_int(), hi.spec_int())),
        r.spec_int() == spec_midpoint(lo.spec_int(), hi.spec_int()),
{
    proof {
        Q::lemma_int_range(*lo);
        Q::lemma_int_range(*hi);
    }
    let d: i128 = hi.to_i128() - lo.to_i128();
    let half: i128 = d / 2;
    proof {
        assert(half == spec_div_trunc(d as int, 2));
        assert(lo.spec_int() <= lo.spec_int() + half <= hi.spec_int() || hi.spec_int() <= lo.spec_int() + half <= lo.spec_int());
        Q::lemma_from_int(lo.spec_int() + half);
    }
    let r = Q::from_i128(lo.to_i128() + half);
    proof {
        Q::lemma_int_range(r);
    }
    r
}

/// Bisects for the smallest output distance at which `predicate` holds,
/// between zero and `d_out`; `None` where it does not hold at `d_out`.
pub fn basic_composition_binary_search<R: Relation>(d_in: &R::DIn, d_out: R::DOut, predicate: &R) -> (r: Fallible<Option<R::DOut>>)
    where R::DOut: IntValue,
    ensures
        r.is_ok() <==> spec_usage(*predicate, *d_in, d_out).is_some(),
        r matches Ok(v) ==> spec_usage(*predicate, *d_in, d_out) == Some(v),
{
    if !predicate.eval(d_in, &d_out)? {
        return Ok(None);
    }
    let mut d_min = R::DOut::zero();
    let mut hi = d_out;
    let mut i: usize = 0;
    proof {
        R::DOut::lemma_int_range(d_min);
        assert(d_min == R::DOut::spec_from_int(0));
    }
    while i < MAX_ITERATIONS
        invariant
            i <= MAX_ITERATIONS,
            predicate.spec_eval(*d_in, d_out) == Some(true),
            spec_bisect(*predicate, *d_in, R::DOut::spec_from_int(0), d_out, MAX_ITERATIONS as nat) == spec_bisect(
                *predicate,
                *d_in,
                d_min,
                hi,
                (MAX_ITERATIONS - i) as nat,
            ),
        decreases MAX_ITERATIONS - i,
    {
        let ghost lo0 = d_min;
        let ghost hi0 = hi;
        let ghost n = (MAX_ITERATIONS - i) as nat;
        let mid = midpoint(&d_min, &hi);
        let holds = predicate.eval(d_in, &mid)?;
        if holds {
            hi = mid;
        } else {
            d_min = mid;
        }
        proof {
            assert(spec_bisect(*predicate, *d_in, lo0, hi0, n) == if hi.spec_int() <= d_min.spec_int() {
                Some(hi)
            } else {
                spec_bisect(*predicate, *d_in, d_min, hi, (n - 1) as nat)
            });
        }
        if hi.to_i128() <= d_min.to_i128() {
            return Ok(Some(hi));
        }
        i = i + 1;
    }
    Ok(Some(hi))
}

/// Spends the usage of each relation in turn out of `d_out`; holds where
/// every relation holds at what is left for it.
pub fn basic_composition<R: Relation>(relations: &Vec<R>, d_in: &R::DIn, d_out: &R::DOut) -> (r: Fallible<bool>)
    where R::DOut: IntValue,
    ensures
        r.is_ok() <==> spec_compose(relations@, *d_in, *d_out, 0).is_some(),
        r matches Ok(b) ==> spec_compose(relations@, *d_in, *d_out, 0) == Some(b),
{
    let mut remaining = *d_out;
    let mut i: usize = 0;
    while i < relations.len()
        invariant
            i <= relations@.len(),
            spec_compose(relations@, *d_in, *d_out, 0) == spec_compose(relations@, *d_in, remaining, i as int),
        decreases relations@.len() - i,
    {
        match basic_composition_binary_search(d_in, remaining, &relations[i])? {
            Some(usage) => {
                proof {
                    R::DOut::lemma_int_range(remaining);
                    R::DOut::lemma_int_range(usage);
                }
                let rest: i128 = remaining.to_i128() - usage.to_i128();
                if rest < R::DOut::min_value().to_i128() || rest > R::DOut::max_value().to_i128() {
                    return Err(Error::with_message(ErrorVariant::FailedFunction, "budget underflow"));
                }
                remaining = R::DOut::from_i128(rest);
                proof {
                    R::DOut::lemma_int_range(remaining);
                }
            },
            None => {
                return Ok(false);
            },
        }
        i = i + 1;
    }
    Ok(true)
}

/// The sum of the first `n` values.
pub open spec fn spec_sum_ints<Q: IntValue>(us: Seq<Q>, n: int) -> int
    decreases n,
{
    if n <= 0 {
        0
    } else {
        spec_sum_ints(us, n - 1) + us[n - 1].spec_int()
    }
}

/// The bisection ends where the relation holds, between zero and `d_out`,
/// where it holds at its upper end and the ends are ordered.
proof fn lemma_bisect_holds<R: Relation>(relation: R, d_in: R::DIn, lo: R::DOut, hi: R::DOut, n: nat)
    where R::DOut: IntValue,
    requires
        relation.spec_eval(d_in, hi) == Some(true),
        lo.spec_int() <= hi.spec_int(),
    ensures
        spec_bisect(relation, d_in, lo, hi, n) matches Some(u) ==> relation.spec_eval(d_in, u) == Some(true)
            && lo.spec_int() <= u.spec_int() <= hi.spec_int(),
    decreases n,
{
    if n > 0 {
        R::DOut::lemma_int_range(lo);
        R::DOut::lemma_int_range(hi);
        let m = spec_midpoint(lo.spec_int(), hi.spec_int());
        assert(lo.spec_int() <= m <= hi.spec_int());
        R::DOut::lemma_from_int(m);
        let mid = R::DOut::spec_from_int(m);
        match relation.spec_eval(d_in, mid) {
            Some(holds) => {
                let lo2 = if holds { lo } else { mid };
                let hi2 = if holds { mid } else { hi };
                if hi2.spec_int() > lo2.spec_int() {
                    lemma_bisect_holds(relation, d_in, lo2, hi2, (n - 1) as nat);
                }
            },
            None => {},
        }
    }
}

/// Basic composition is sound: where the composed relation holds, each
/// relation holds at a usage, and the usages add up to at most the output
/// distance.
pub proof fn lemma_compose_sound<R: Relation>(relations: Seq<R>, d_in: R::DIn, d_out: R::DOut, i: int)
    where R::DOut: IntValue,
    requires
        0 <= i <= relations.len(),
        d_out.spec_int() >= 0,
        spec_compose(relations, d_in, d_out, i) == Some(true),
    ensures
        exists|us: Seq<R::DOut>|
            {
                &&& us.len() == relations.len() - i
                &&& forall|k: int| 0 <= k < us.len() ==> (#[trigger] relations[i + k]).spec_eval(d_in, us[k]) == Some(true)
                &&& #[trigger] spec_sum_ints(us, us.len() as int) <= d_out.spec_int()
            },
    decreases relations.len() - i,
{
    R::DOut::lemma_int_range(d_out);
    if i == relations.len() {
        let us = Seq::<R::DOut>::empty();
        assert(spec_sum_ints(us, us.len() as int) == 0);
        assert(spec_sum_ints(us, us.len() as int) <= d_out.spec_int());
        assert(us.len() == relations.len() - i);
        assert(forall|k: int| 0 <= k < us.len() ==> (#[trigger] relations[i + k]).spec_eval(d_in, us[k]) == Some(true));
    } else {
        let u = spec_usage(relations[i], d_in, d_out).unwrap().unwrap();
        R::DOut::lemma_range();
        R::DOut::lemma_from_int(0);
        assert(relations[i].spec_eval(d_in, d_out) == Some(true));
        lemma_bisect_holds(relations[i], d_in, R::DOut::spec_from_int(0), d_out, MAX_ITERATIONS as nat);
        let rest = d_out.spec_int() - u.spec_int();
        assert(R::DOut::spec_min() <= rest <= R::DOut::spec_max());
        let next = R::DOut::spec_from_int(rest);
        R::DOut::lemma_from_int(rest);
        assert(spec_compose(relations, d_in, next, i + 1) == Some(true));
        lemma_compose_sound(relations, d_in, next, i + 1);
        let tail = choose|us: Seq<R::DOut>|
            {
                &&& us.len() == relations.len() - (i + 1)
                &&& forall|k: int| 0 <= k < us.len() ==> (#[trigger] relations[(i + 1) + k]).spec_eval(d_in, us[k]) == Some(true)
                &&& #[trigger] spec_sum_ints(us, us.len() as int) <= next.spec_int()
            };
        assert(relations[i].spec_eval(d_in, d_out) == Some(true));
        lemma_bisect_holds(relations[i], d_in, R::DOut::spec_from_int(0), d_out, MAX_ITERATIONS as nat);
        let us = seq![u] + tail;
        lemma_sum_prepend(u, tail);
        assert forall|k: int| 0 <= k < us.len() implies (#[trigger] relations[i + k]).spec_eval(d_in, us[k]) == Some(true) by {
            if k > 0 {
                assert(us[k] == tail[k - 1]);
                assert(relations[i + k] == relations[i + 1 + (k - 1)]);
            } else {
                assert(us[0] == u);
            }
        }
        assert(us.len() == relations.len() - i);
        assert(spec_sum_ints(us, us.len() as int) <= d_out.spec_int());
    }
}

/// The sum of a sequence with a value in front adds that value.
proof fn lemma_sum_prepend<Q: IntValue>(u: Q, tail: Seq<Q>)
    ensures
        spec_sum_ints(seq![u] + tail, tail.len() + 1int) == u.spec_int() + spec_sum_ints(tail, tail.len() as int),
    decreases tail.len(),
{
    let s = seq![u] + tail;
    if tail.len() > 0 {
        let len = tail.len() as int;
        let init = tail.drop_last();
        lemma_sum_prepend(u, init);
        assert(s.take(len) == seq![u] + init);
        lemma_sum_prefix(s, len);
        lemma_sum_prefix(seq![u] + init, len);
        assert((seq![u] + init).take(len) == seq![u] + init);
        lemma_sum_prefix(tail, len - 1);
        lemma_sum_prefix(init, len - 1);
        assert(tail.take(len - 1) == init);
        assert(init.take(len - 1) == init);
        assert(s[len] == tail[len - 1]);
        assert(spec_sum_ints(s, len + 1) == spec_sum_ints(s, len) + tail[len - 1].spec_int());
        assert(spec_sum_ints(tail, len) == spec_sum_ints(tail, len - 1) + tail[len - 1].spec_int());
    } else {
        assert(s[0] == u);
        assert(spec_sum_ints(s, 1) == spec_sum_ints(s, 0) + u.spec_int());
    }
}

/// The sum of the first `n` values depends on those values alone.
proof fn lemma_sum_prefix<Q: IntValue>(s: Seq<Q>, n: int)
    requires
        0 <= n <= s.len(),
    ensures
        spec_sum_ints(s, n) == spec_sum_ints(s.take(n), n),
    decreases n,
{
    if n > 0 {
        lemma_sum_prefix(s, n - 1);
        lemma_sum_prefix(s.take(n), n - 1);
        assert(s.take(n).take(n - 1) == s.take(n - 1));
    }
}

/// The basic composition relation of several relations.
pub struct CompositionRelation<R> {
    pub relations: Vec<R>,
}

impl<R: Relation> Relation for CompositionRelation<R> where R::DOut: IntValue {
    type DIn = R::DIn;
    type DOut = R::DOut;

    open spec fn spec_eval(&self, d_in: R::DIn, d_out: R::DOut) -> Option<bool> {
        spec_compose(self.relations@, d_in, d_out, 0)
    }

    open spec fn spec_has_forward(&self) -> bool {
        false
    }

    open spec fn spec_has_backward(&self) -> bool {
        false
    }

    open spec fn spec_forward(&self, d_in: R::DIn) -> Option<R::DOut> {
        None
    }

    open spec fn spec_backward(&self, d_out: R::DOut) -> Option<R::DIn> {
        None
    }

    fn eval(&self, d_in: &R::DIn, d_out: &R::DOut) -> (r: Fallible<bool>) {
        basic_composition(&self.relations, d_in, d_out)
    }

    fn has_forward(&self) -> (r: bool) {
        false
    }

    fn has_backward(&self) -> (r: bool) {
        false
    }

    fn forward_map(&self, d_in: &R::DIn) -> (r: Fallible<R::DOut>)
        ensures
            r matches Err(e) && e.variant == ErrorVariant::NotImplemented,
    {
        Err(Error::new(ErrorVariant::NotImplemented))
    }

    fn backward_map(&self, d_out: &R::DOut) -> (r: Fallible<R::DIn>)
        ensures
            r matches Err(e) && e.variant == ErrorVariant::NotImplemented,
    {
        Err(Error::new(ErrorVariant::NotImplemented))
    }
}

/// `k` is the position of the first function in `functions` that fails on `arg`.
pub open spec fn spec_first_failing<F: Function>(functions: Seq<F>, arg: <F::Input as DeepView>::V, k: int) -> bool {
    &&& 0 <= k < functions.len()
    &&& functions[k].spec_eval(arg).is_none()
    &&& forall|j: int| 0 <= j < k ==> (#[trigger] functions[j].spec_eval(arg)).is_some()
}

/// Runs each function on the same input and collects the outputs; fails
/// where any of them fails, with the error of the first that does.
pub struct VecFunction<F> {
    pub functions: Vec<F>,
}

impl<F: Function> Function for VecFunction<F> {
    type Input = F::Input;
    type Output = Vec<F::Output>;

    open spec fn spec_eval(&self, arg: <F::Input as DeepView>::V) -> Option<Seq<<F::Output as DeepView>::V>> {
        if forall|i: int| 0 <= i < self.functions@.len() ==> (#[trigger] self.functions@[i].spec_eval(arg)).is_some() {
            Some(Seq::new(self.functions@.len(), |i: int| self.functions@[i].spec_eval(arg).unwrap()))
        } else {
            None
        }
    }

    /// The error of the first function that fails.
    open spec fn spec_error(&self, arg: <F::Input as DeepView>::V) -> ErrorVariant {
        let k = choose|k: int| spec_first_failing(self.functions@, arg, k);
        self.functions@[k].spec_error(arg)
    }

    fn eval(&self, arg: &F::Input) -> (r: Fallible<Vec<F::Output>>) {
        let mut out: Vec<F::Output> = Vec::new();
        let mut i: usize = 0;
        while i < self.functions.len()
            invariant
                i <= self.functions@.len(),
                out@.len() == i,
                forall|j: int| 0 <= j < i ==> (#[trigger] self.functions@[j].spec_eval(arg.deep_view())) == Some(out@[j].deep_view()),
            decreases self.functions@.len() - i,
        {
            let v = match self.functions[i].eval(arg) {
                Ok(v) => v,
                Err(e) => {
                    proof {
                        let a = arg.deep_view();
                        assert(spec_first_failing(self.functions@, a, i as int));
                        let k = choose|k: int| spec_first_failing(self.functions@, a, k);
                        if k < i {
                            assert(self.functions@[k].spec_eval(a).is_some());
                        } else if k > i {
                            assert(self.functions@[i as int].spec_eval(a).is_some());
                        }
                    }
                    return Err(e);
                },
            };
            out.push(v);
            i = i + 1;
        }
        proof {
            assert(out.deep_view() =~= Seq::new(self.functions@.len(), |j: int| self.functions@[j].spec_eval(arg.deep_view()).unwrap()));
        }
        Ok(out)
    }
}

/// All measurements share the first one's input and output domains.
pub open spec fn spec_same_domains<DI: Domain, DO: Domain, MI, MO, F, R>(measurements: Seq<Measurement<DI, DO, MI, MO, F, R>>) -> bool {
    &&& forall|i: int| 0 <= i < measurements.len() ==> measurements[0].input_domain.spec_same((#[trigger] measurements[i]).input_domain)
    &&& forall|i: int| 0 <= i < measurements.len() ==> measurements[0].output_domain.spec_same((#[trigger] measurements[i]).output_domain)
}

/// A measurement that runs every measurement on the same input and returns
/// their outputs in order. Its privacy relation spends each measurement's
/// usage, found by bisection, out of the output distance. Fails with
/// `MakeMeasurement` where there are no measurements, and with
/// `DomainMismatch` where their domains differ.
pub fn make_basic_composition_multi<DI, DO, MI, MO, F, R>(measurements: Vec<Measurement<DI, DO, MI, MO, F, R>>) -> (r: Fallible<
    Measurement<DI, VectorDomain<DO>, MI, MO, VecFunction<F>, CompositionRelation<R>>,
>)
    where
        DI: Domain + Copy,
        DO: Domain + Copy,
        DI::Carrier: DeepView,
        DO::Carrier: DeepView,
        MI: Metric + Copy,
        MO: Measure + Copy,
        MO::Distance: IntValue,
        F: Function<Input = DI::Carrier, Output = DO::Carrier>,
        R: Relation<DIn = MI::Distance, DOut = MO::Distance>,
    ensures
        r.is_ok() <==> (measurements@.len() > 0 && spec_same_domains(measurements@)),
        measurements@.len() == 0 ==> (r matches Err(e) && e.variant == ErrorVariant::MakeMeasurement),
        (measurements@.len() > 0 && !spec_same_domains(measurements@)) ==> (r matches Err(e) && e.variant
            == ErrorVariant::DomainMismatch),
        r matches Ok(m) ==> {
            &&& m.input_domain == measurements@[0].input_domain
            &&& m.output_domain.element_domain == measurements@[0].output_domain
            &&& m.input_metric == measurements@[0].input_metric
            &&& m.output_measure == measurements@[0].output_measure
            &&& m.function.functions@.len() == measurements@.len()
            &&& m.privacy_relation.relations@.len() == measurements@.len()
            &&& forall|i: int| 0 <= i < measurements@.len() ==> (#[trigger] m.function.functions@[i]) == measurements@[i].function
            &&& forall|i: int| 0 <= i < measurements@.len() ==> (#[trigger] m.privacy_relation.relations@[i]) == measurements@[i].privacy_relation
        },
{
    if measurements.len() == 0 {
        return Err(Error::with_message(ErrorVariant::MakeMeasurement, "Must have at least one measurement"));
    }
    let input_domain = measurements[0].input_domain;
    let output_domain = measurements[0].output_domain;
    let input_metric = measurements[0].input_metric;
    let output_measure = measurements[0].output_measure;
    let mut k: usize = 0;
    while k < measurements.len()
        invariant
            k <= measurements@.len(),
            measurements@.len() > 0,
            input_domain == measurements@[0].input_domain,
            output_domain == measurements@[0].output_domain,
            forall|j: int| 0 <= j < k ==> input_domain.spec_same((#[trigger] measurements@[j]).input_domain),
            forall|j: int| 0 <= j < k ==> output_domain.spec_same((#[trigger] measurements@[j]).output_domain),
        decreases measurements@.len() - k,
    {
        if !input_domain.same_domain(&measurements[k].input_domain) {
            return Err(Error::with_message(ErrorVariant::DomainMismatch, "All input domains must be the same"));
        }
        if !output_domain.same_domain(&measurements[k].output_domain) {
            return Err(Error::with_message(ErrorVariant::DomainMismatch, "All output domains must be the same"));
        }
        k = k + 1;
    }
    let ghost original = measurements@;
    let mut functions: Vec<F> = Vec::new();
    let mut relations: Vec<R> = Vec::new();
    let mut rest = measurements;
    while rest.len() > 0
        invariant
            functions@.len() == relations@.len(),
            functions@.len() + rest@.len() == original.len(),
            rest@ == original.subrange(functions@.len() as int, original.len() as int),
            forall|j: int| 0 <= j < functions@.len() ==> (#[trigger] functions@[j]) == original[j].function,
            forall|j: int| 0 <= j < relations@.len() ==> (#[trigger] relations@[j]) == original[j].privacy_relation,
        decreases rest@.len(),
    {
        let m = rest.remove(0);
        let Measurement { function, privacy_relation, .. } = m;
        functions.push(function);
        relations.push(privacy_relation);
    }
    Ok(
        Measurement::new(
            input_domain,
            VectorDomain::new(output_domain),
            VecFunction { functions },
            input_metric,
            output_measure,
            CompositionRelation { relations },
        ),
    )
}

} // verus!
