use opendp::comb::{make_basic_composition, make_chain_mt, make_chain_tt};
use opendp::composition::make_basic_composition_multi;
use opendp::dist::{L1Distance, MaxDivergence};
use opendp::dom::AllDomain;
use opendp::error::{ErrorVariant, ExplainUnwrap, Fallible};
use opendp::framework::{Function, Hint, LinearRelation, Measurement, Relation, Transformation};

/// `a + 1`, from bytes to 32-bit integers.
struct IncrementByte;

impl Function for IncrementByte {
    type Input = u8;
    type Output = i32;

    fn spec_eval(&self, arg: u8) -> Option<i32> {
        Some(arg as i32 + 1)
    }

    fn eval(&self, arg: &u8) -> Fallible<i32> {
        Ok(*arg as i32 + 1)
    }
}

/// `a + 1`, from 32-bit to 64-bit integers.
struct IncrementWide;

impl Function for IncrementWide {
    type Input = i32;
    type Output = i64;

    fn spec_eval(&self, arg: i32) -> Option<i64> {
        Some(arg as i64 + 1)
    }

    fn eval(&self, arg: &i32) -> Fallible<i64> {
        Ok(*arg as i64 + 1)
    }
}

/// `a + 1` on 32-bit integers.
struct Increment;

impl Function for Increment {
    type Input = i32;
    type Output = i32;

    fn spec_eval(&self, arg: i32) -> Option<i32> {
        Some(arg + 1)
    }

    fn eval(&self, arg: &i32) -> Fallible<i32> {
        Ok(arg + 1)
    }
}

/// `a - 1`, from 32-bit to 64-bit integers.
struct DecrementWide;

impl Function for DecrementWide {
    type Input = i32;
    type Output = i64;

    fn spec_eval(&self, arg: i32) -> Option<i64> {
        Some(arg as i64 - 1)
    }

    fn eval(&self, arg: &i32) -> Fallible<i64> {
        Ok(*arg as i64 - 1)
    }
}

/// The identity on 32-bit integers.
struct Identity;

impl Function for Identity {
    type Input = i32;
    type Output = i32;

    fn spec_eval(&self, arg: i32) -> Option<i32> {
        Some(arg)
    }

    fn eval(&self, arg: &i32) -> Fallible<i32> {
        Ok(*arg)
    }
}

/// A relation that always holds and has no maps.
struct AlwaysHolds;

impl Relation for AlwaysHolds {
    type DIn = i32;
    type DOut = i32;

    fn spec_eval(&self, _d_in: i32, _d_out: i32) -> Option<bool> {
        Some(true)
    }

    fn spec_has_forward(&self) -> bool {
        false
    }

    fn spec_has_backward(&self) -> bool {
        false
    }

    fn spec_forward(&self, _d_in: i32) -> Option<i32> {
        None
    }

    fn spec_backward(&self, _d_out: i32) -> Option<i32> {
        None
    }

    fn eval(&self, _d_in: &i32, _d_out: &i32) -> Fallible<bool> {
        Ok(true)
    }

    fn has_forward(&self) -> bool {
        false
    }

    fn has_backward(&self) -> bool {
        false
    }

    fn forward_map(&self, _d_in: &i32) -> Fallible<i32> {
        Err(opendp::error::Error::new(ErrorVariant::NotImplemented))
    }

    fn backward_map(&self, _d_out: &i32) -> Fallible<i32> {
        Err(opendp::error::Error::new(ErrorVariant::NotImplemented))
    }
}

/// No hint: the chain falls back on the relations' maps.
struct NoHint;

impl Hint for NoHint {
    type DIn = i32;
    type DOut = i32;
    type DMid = i32;

    fn spec_hint(&self, _d_in: i32, _d_out: i32) -> Option<i32> {
        None
    }

    fn eval(&self, _d_in: &i32, _d_out: &i32) -> Fallible<i32> {
        Err(opendp::error::Error::new(ErrorVariant::NotImplemented))
    }
}

/// The intermediate distance is the input distance plus one.
struct OneMore;

impl Hint for OneMore {
    type DIn = i32;
    type DOut = i32;
    type DMid = i32;

    fn spec_hint(&self, d_in: i32, _d_out: i32) -> Option<i32> {
        Some(d_in + 1)
    }

    fn eval(&self, d_in: &i32, _d_out: &i32) -> Fallible<i32> {
        Ok(d_in + 1)
    }
}

type ByteToInt = Transformation<
    AllDomain<u8>,
    AllDomain<i32>,
    L1Distance<i32>,
    L1Distance<i32>,
    IncrementByte,
    LinearRelation<i32, i32>,
>;

fn first_transformation() -> ByteToInt {
    Transformation::new(
        AllDomain::<u8>::new(),
        AllDomain::<i32>::new(),
        IncrementByte,
        L1Distance::<i32>::default(),
        L1Distance::<i32>::default(),
        LinearRelation::new_from_constant(1),
    )
}

fn check_chain_mt() {
    let transformation0 = first_transformation();
    let measurement1 = Measurement::new(
        AllDomain::<i32>::new(),
        AllDomain::<i64>::new(),
        IncrementWide,
        L1Distance::<i32>::default(),
        MaxDivergence::<i32>::default(),
        AlwaysHolds,
    );
    let chain = make_chain_mt(measurement1, transformation0, None::<NoHint>).unwrap_test();
    let arg = 99_u8;
    let ret = chain.function.eval(&arg).unwrap_test();
    assert_eq!(ret, 101);
}

fn check_chain_tt() {
    let transformation0 = first_transformation();
    let transformation1 = Transformation::new(
        AllDomain::<i32>::new(),
        AllDomain::<i64>::new(),
        IncrementWide,
        L1Distance::<i32>::default(),
        L1Distance::<i32>::default(),
        LinearRelation::<i32, i32>::new_from_constant(1),
    );
    let chain = make_chain_tt(transformation1, transformation0, None::<NoHint>).unwrap_test();
    let arg = 99_u8;
    let ret = chain.function.eval(&arg).unwrap_test();
    assert_eq!(ret, 101);
}

fn check_basic_composition() {
    let measurement0 = Measurement::new(
        AllDomain::<i32>::new(),
        AllDomain::<i32>::new(),
        Increment,
        L1Distance::<i32>::default(),
        MaxDivergence::<i32>::default(),
        AlwaysHolds,
    );
    let measurement1 = Measurement::new(
        AllDomain::<i32>::new(),
        AllDomain::<i64>::new(),
        DecrementWide,
        L1Distance::<i32>::default(),
        MaxDivergence::<i32>::default(),
        AlwaysHolds,
    );
    let composition = make_basic_composition(measurement0, measurement1).unwrap_test();
    let arg = 99;
    let ret = composition.function.eval(&arg).unwrap_test();
    assert_eq!(ret, (100, 98));
}

#[test]
fn chain_test_make_chain_mt() {
    check_chain_mt();
}

#[test]
fn chain_test_make_chain_tt() {
    check_chain_tt();
}

#[test]
fn chain_test_make_basic_composition() {
    check_basic_composition();
}

#[test]
fn mod_test_make_chain_mt() {
    check_chain_mt();
}

#[test]
fn mod_test_make_chain_tt() {
    check_chain_tt();
}

#[test]
fn mod_test_make_basic_composition() {
    check_basic_composition();
}

#[test]
fn test_chained_stability_relation() {
    let transformation0 = first_transformation();
    let transformation1 = Transformation::new(
        AllDomain::<i32>::new(),
        AllDomain::<i64>::new(),
        IncrementWide,
        L1Distance::<i32>::default(),
        L1Distance::<i32>::default(),
        LinearRelation::<i32, i32>::new_from_constant(2),
    );
    let chain = make_chain_tt(transformation1, transformation0, None::<NoHint>).unwrap_test();
    // a stability of 1, then of 2: distance 3 goes to 6
    assert!(chain.check(&3, &6).unwrap_test());
    assert!(!chain.check(&3, &5).unwrap_test());
}

fn identity_measurement() -> Measurement<AllDomain<i32>, AllDomain<i32>, L1Distance<i32>, MaxDivergence<i32>, Identity, LinearRelation<i32, i32>> {
    Measurement::new(
        AllDomain::<i32>::new(),
        AllDomain::<i32>::new(),
        Identity,
        L1Distance::<i32>::default(),
        MaxDivergence::<i32>::default(),
        LinearRelation::new_from_constant(1),
    )
}

#[test]
fn test_basic_composition_multi_outputs() {
    let composition = make_basic_composition_multi(vec![identity_measurement(), identity_measurement()]).unwrap_test();
    let ret = composition.function.eval(&99).unwrap_test();
    assert_eq!(ret.len(), 2);
    assert_eq!(ret, vec![99, 99]);
}

#[test]
fn test_basic_composition_multi_budget() {
    let composition = make_basic_composition_multi(vec![identity_measurement(), identity_measurement()]).unwrap_test();
    // each measurement spends d_in, so two spend 2 * d_in
    assert!(composition.check(&1, &2).unwrap_test());
    assert!(composition.check(&2, &5).unwrap_test());
    assert!(!composition.check(&1, &1).unwrap_test());
    assert!(!composition.check(&2, &3).unwrap_test());
}

#[test]
fn test_basic_composition_multi_empty() {
    let measurements: Vec<Measurement<AllDomain<i32>, AllDomain<i32>, L1Distance<i32>, MaxDivergence<i32>, Identity, LinearRelation<i32, i32>>> = vec![];
    let err = make_basic_composition_multi(measurements).err().unwrap();
    assert_eq!(err.variant, ErrorVariant::MakeMeasurement);
}

/// Fails with `FailedCast` on every input.
struct AlwaysFails;

impl Function for AlwaysFails {
    type Input = u8;
    type Output = i32;

    fn spec_eval(&self, _arg: u8) -> Option<i32> {
        None
    }

    fn eval(&self, _arg: &u8) -> Fallible<i32> {
        Err(opendp::error::Error::new(ErrorVariant::FailedCast))
    }
}

#[test]
fn test_chain_returns_first_error() {
    let transformation0 = Transformation::new(
        AllDomain::<u8>::new(),
        AllDomain::<i32>::new(),
        AlwaysFails,
        L1Distance::<i32>::default(),
        L1Distance::<i32>::default(),
        LinearRelation::<i32, i32>::new_from_constant(1),
    );
    let transformation1 = Transformation::new(
        AllDomain::<i32>::new(),
        AllDomain::<i64>::new(),
        IncrementWide,
        L1Distance::<i32>::default(),
        L1Distance::<i32>::default(),
        LinearRelation::<i32, i32>::new_from_constant(1),
    );
    let chain = make_chain_tt(transformation1, transformation0, None::<NoHint>).unwrap_test();
    let err = chain.function.eval(&1).err().unwrap();
    assert_eq!(err.variant, ErrorVariant::FailedCast);
}

#[test]
fn test_chain_with_hint_without_maps() {
    // neither relation has a map, so only the hint connects them
    let transformation0 = Transformation::new(
        AllDomain::<u8>::new(),
        AllDomain::<i32>::new(),
        IncrementByte,
        L1Distance::<i32>::default(),
        L1Distance::<i32>::default(),
        AlwaysHolds,
    );
    let transformation1 = Transformation::new(
        AllDomain::<i32>::new(),
        AllDomain::<i64>::new(),
        IncrementWide,
        L1Distance::<i32>::default(),
        L1Distance::<i32>::default(),
        LinearRelation::<i32, i32>::new_from_constant(2),
    );
    let chain = make_chain_tt(transformation1, transformation0, Some(OneMore)).unwrap_test();
    assert_eq!(chain.function.eval(&3).unwrap_test(), 5);
    // the hint puts the intermediate distance at 4, which the second relation
    // takes to 8
    assert!(chain.check(&3, &8).unwrap_test());
    assert!(!chain.check(&3, &7).unwrap_test());
}

#[test]
fn test_chain_hint_takes_precedence_over_maps() {
    let transformation1 = Transformation::new(
        AllDomain::<i32>::new(),
        AllDomain::<i64>::new(),
        IncrementWide,
        L1Distance::<i32>::default(),
        L1Distance::<i32>::default(),
        LinearRelation::<i32, i32>::new_from_constant(1),
    );
    let chain = make_chain_tt(transformation1, first_transformation(), Some(OneMore)).unwrap_test();
    // the forward map would give 3 and accept 3; the hint gives 4
    assert!(!chain.check(&3, &3).unwrap_test());
    assert!(chain.check(&3, &4).unwrap_test());
}
