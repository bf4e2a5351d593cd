use opendp::dist::{AbsoluteDistance, Fraction, MaxDivergence};
use opendp::dom::AllDomain;
use opendp::error::{ErrorVariant, ExplainUnwrap, Fallible};
use opendp::framework::{Function, Measurement, Relation};
use opendp::traits::Distance;
use opendp::interactive::{make_adaptive_composition, sub_floor, AcState, Queryable, Transition};

/// The identity on 32-bit integers.
struct Identity;

impl Function for Identity {
    type Input = i32;
    type Output = i32;

    fn spec_eval(&self, arg: i32) -> Option<i32> {
        Some(arg)
    }

    fn eval(&self, arg: &i32) -> Fallible<i32> {
        Ok(*arg)
    }
}

fn frac(num: i32, den: u32) -> Fraction {
    Fraction::new(num, den).unwrap_test()
}

fn as_ratio(q: &Fraction) -> (i64, i64) {
    (q.num(), q.den())
}

/// `d_out <= d_in`.
struct OutAtMostIn;

impl Relation for OutAtMostIn {
    type DIn = Fraction;
    type DOut = Fraction;

    fn spec_eval(&self, d_in: Fraction, d_out: Fraction) -> Option<bool> {
        self.eval(&d_in, &d_out).ok()
    }

    fn spec_has_forward(&self) -> bool {
        false
    }

    fn spec_has_backward(&self) -> bool {
        false
    }

    fn spec_forward(&self, _d_in: Fraction) -> Option<Fraction> {
        None
    }

    fn spec_backward(&self, _d_out: Fraction) -> Option<Fraction> {
        None
    }

    fn eval(&self, d_in: &Fraction, d_out: &Fraction) -> Fallible<bool> {
        let (a, b) = as_ratio(d_out);
        let (c, d) = as_ratio(d_in);
        Ok(a * d <= c * b)
    }

    fn has_forward(&self) -> bool {
        false
    }

    fn has_backward(&self) -> bool {
        false
    }

    fn forward_map(&self, _d_in: &Fraction) -> Fallible<Fraction> {
        Err(opendp::error::Error::new(ErrorVariant::NotImplemented))
    }

    fn backward_map(&self, _d_out: &Fraction) -> Fallible<Fraction> {
        Err(opendp::error::Error::new(ErrorVariant::NotImplemented))
    }
}

type Dummy = Measurement<AllDomain<i32>, AllDomain<i32>, AbsoluteDistance<Fraction>, MaxDivergence<Fraction>, Identity, OutAtMostIn>;

fn make_dummy_meas() -> Dummy {
    Measurement::new(
        AllDomain::new(),
        AllDomain::new(),
        Identity,
        AbsoluteDistance::<Fraction>::default(),
        MaxDivergence::<Fraction>::default(),
        OutAtMostIn,
    )
}

fn adaptive(d_in_budget: Fraction, d_out_budget: Fraction) -> Queryable<AcState<AllDomain<i32>, AllDomain<i32>, AbsoluteDistance<Fraction>, MaxDivergence<Fraction>, Identity, OutAtMostIn>> {
    let meas = make_dummy_meas();
    let adaptive = make_adaptive_composition(
        meas.input_domain,
        meas.output_domain,
        meas.input_metric,
        meas.output_measure,
        d_in_budget,
        d_out_budget,
    );
    let data = 999;
    adaptive.invoke(&data).unwrap_test()
}

#[test]
fn test_adaptive_comp_simple() {
    let meas1 = make_dummy_meas();
    let meas2 = make_dummy_meas();
    let mut queryable = adaptive(frac(1, 1), frac(1, 1));
    let res1 = queryable.eval(&(meas1, frac(1, 2))).unwrap_test();
    assert_eq!(res1, 999);
    let res2 = queryable.eval(&(meas2, frac(1, 2))).unwrap_test();
    assert_eq!(res2, 999);
}

#[test]
fn test_adaptive_composition_no_budget() {
    let meas1 = make_dummy_meas();
    let meas2 = make_dummy_meas();
    let mut queryable = adaptive(frac(1, 1), frac(1, 1));
    let res1 = queryable.eval(&(meas1, frac(1, 2))).unwrap_test();
    assert_eq!(res1, 999);
    let res2 = queryable.eval(&(meas2, frac(1, 1)));
    assert!(res2.is_err());
}

#[test]
fn test_adaptive_refusal_is_failed_relation() {
    let mut queryable = adaptive(frac(1, 1), frac(1, 1));
    let err = queryable.eval(&(make_dummy_meas(), frac(3, 2))).err().unwrap();
    assert_eq!(err.variant, ErrorVariant::FailedRelation);
}

#[test]
fn test_adaptive_budget_spent_in_parts() {
    let mut queryable = adaptive(frac(1, 1), frac(1, 1));
    for _ in 0..4 {
        assert_eq!(queryable.eval(&(make_dummy_meas(), frac(1, 4))).unwrap_test(), 999);
    }
    assert!(queryable.eval(&(make_dummy_meas(), frac(1, 4))).is_err());
}

#[test]
fn test_adaptive_privacy_relation() {
    let meas = make_dummy_meas();
    let adaptive = make_adaptive_composition::<_, _, _, _, Identity, OutAtMostIn>(
        meas.input_domain,
        meas.output_domain,
        meas.input_metric,
        meas.output_measure,
        frac(1, 1),
        frac(1, 1),
    );
    assert!(adaptive.check(&frac(1, 1), &frac(1, 1)).unwrap_test());
    assert!(!adaptive.check(&frac(2, 1), &frac(1, 1)).unwrap_test());
    assert!(!adaptive.check(&frac(1, 1), &frac(2, 1)).unwrap_test());
}

#[test]
fn test_state_update_rounds_down() {
    let state = AcState::<AllDomain<i32>, AllDomain<i32>, AbsoluteDistance<Fraction>, MaxDivergence<Fraction>, Identity, OutAtMostIn>::new(
        AllDomain::new(),
        AllDomain::new(),
        AbsoluteDistance::default(),
        MaxDivergence::default(),
        5,
        frac(1, 1),
        frac(1, 1),
    );
    let (next, answer) = state.transition(&(make_dummy_meas(), frac(1, 3))).ok().unwrap();
    assert_eq!(answer, 5);
    let (_, answer2) = next.transition(&(make_dummy_meas(), frac(2, 3))).ok().unwrap();
    assert_eq!(answer2, 5);
}

#[test]
fn test_sub_floor() {
    let r = sub_floor(&7i32, &3i32).unwrap();
    assert_eq!(r, 4);
    assert!(sub_floor(&i8::MIN, &1i8).is_none());
    let f = sub_floor(&frac(1, 1), &frac(1, 3)).unwrap();
    assert_eq!(as_ratio(&f).0 * 3, as_ratio(&f).1 * 2);
}

#[test]
fn test_refused_query_keeps_state() {
    let mut queryable = adaptive(frac(1, 1), frac(1, 1));
    assert_eq!(queryable.eval(&(make_dummy_meas(), frac(1, 2))).unwrap_test(), 999);
    assert!(queryable.eval(&(make_dummy_meas(), frac(1, 1))).is_err());
    assert_eq!(queryable.eval(&(make_dummy_meas(), frac(1, 2))).unwrap_test(), 999);
    assert!(queryable.eval(&(make_dummy_meas(), frac(1, 4))).is_err());
}

#[test]
fn test_budget_check_refuses_false_relation() {
    // the input budget is 1/4, and the relation asks d_out <= d_in
    let mut queryable = adaptive(frac(1, 4), frac(1, 1));
    let err = queryable.eval(&(make_dummy_meas(), frac(1, 2))).err().unwrap();
    assert_eq!(err.variant, ErrorVariant::FailedRelation);
    assert_eq!(queryable.eval(&(make_dummy_meas(), frac(1, 4))).unwrap_test(), 999);
}
