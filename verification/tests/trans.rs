use std::collections::HashMap;

use opendp::comb::make_chain_tt;
use opendp::data::Data;
use opendp::dist::{SubstituteDistance, SymmetricDistance};
use opendp::dom::{AllDomain, Bound, OptionNullDomain, SizedDomain, VectorDomain};
use opendp::error::Fallible;
use opendp::framework::{Domain, Hint};
use opendp::error::{ErrorVariant, ExplainUnwrap};
use opendp::trans::cast::make_cast_metric;
use opendp::trans::clamp::{make_clamp, make_clamp_scalar, make_unclamp, make_unclamp_scalar};
use opendp::trans::dataframe::{
    conform_records, create_dataframe, make_split_lines, make_split_records, split_dataframe, split_records,
};
use opendp::trans::impute::make_impute_constant;
use opendp::trans::index::{make_find, make_find_bin, make_index};
use opendp::trans::manipulation::{make_identity, make_is_equal};
use opendp::trans::resize::make_resize_constant;

fn strings(v: &[&str]) -> Vec<String> {
    v.iter().map(|s| s.to_string()).collect()
}

/// No hint: the chain falls back on the relations' maps.
struct NoHint;

impl Hint for NoHint {
    type DIn = u32;
    type DOut = u32;
    type DMid = u32;

    fn spec_hint(&self, _d_in: u32, _d_out: u32) -> Option<u32> {
        None
    }

    fn eval(&self, _d_in: &u32, _d_out: &u32) -> Fallible<u32> {
        Err(opendp::error::Error::new(ErrorVariant::NotImplemented))
    }
}

fn check_make_clamp() {
    let transformation = make_clamp::<SymmetricDistance, i32>(0, 10).unwrap_test();
    let arg = vec![-10, -5, 0, 5, 10, 20];
    let ret = transformation.invoke(&arg).unwrap_test();
    let expected = vec![0, 0, 0, 5, 10, 10];
    assert_eq!(ret, expected);
}

fn check_make_unclamp() {
    let clamp = make_clamp::<SymmetricDistance, i32>(2, 3).unwrap_test();
    let unclamp = make_unclamp::<SymmetricDistance, i32>(Bound::Included(2), Bound::Included(3)).unwrap_test();
    let chained = make_chain_tt(unclamp, clamp, None::<NoHint>).unwrap_test();
    chained.invoke(&vec![1, 2, 3]).unwrap_test();
    assert!(chained.check(&1, &1).unwrap_test());
}

#[test]
fn mod_test_make_clamp() {
    check_make_clamp();
}

#[test]
fn clamp_test_make_clamp() {
    check_make_clamp();
}

#[test]
fn mod_test_make_unclamp() {
    check_make_unclamp();
}

#[test]
fn clamp_test_make_unclamp() {
    check_make_unclamp();
}

#[test]
fn test_make_clamp_rejects_reversed_bounds() {
    assert!(make_clamp::<SymmetricDistance, i32>(10, 0).is_err());
}

#[test]
fn test_make_split_lines() {
    let transformation = make_split_lines().unwrap_test();
    let arg = "ant\nbat\ncat\n".to_owned();
    let ret = transformation.invoke(&arg).unwrap_test();
    assert_eq!(ret, vec!["ant".to_owned(), "bat".to_owned(), "cat".to_owned()]);
}

#[test]
fn test_make_split_records() {
    let transformation = make_split_records(None).unwrap_test();
    let arg = vec!["ant, foo".to_owned(), "bat, bar".to_owned(), "cat, baz".to_owned()];
    let ret = transformation.invoke(&arg).unwrap_test();
    assert_eq!(ret, vec![
        vec!["ant".to_owned(), "foo".to_owned()],
        vec!["bat".to_owned(), "bar".to_owned()],
        vec!["cat".to_owned(), "baz".to_owned()],
    ]);
}

#[test]
fn test_split_records_with_separator() {
    let ret = split_records(";", &["a; b ;c", "d"]);
    assert_eq!(ret, vec![vec!["a", "b", "c"], vec!["d"]]);
}

#[test]
fn test_conform_records() {
    let records = vec![vec!["a"], vec!["b", "c", "d"]];
    let ret = conform_records(2, &records);
    assert_eq!(ret, vec![vec!["a", ""], vec!["b", "c"]]);
}

#[test]
fn test_create_dataframe() {
    let records = vec![vec!["ant", "foo"], vec!["bat", "bar"], vec!["cat", "baz"]];
    let ret = create_dataframe::<u32>(vec![0, 1], &records);
    let mut expected: HashMap<u32, Data> = HashMap::new();
    expected.insert(0, Data::new(strings(&["ant", "bat", "cat"])));
    expected.insert(1, Data::new(strings(&["foo", "bar", "baz"])));
    assert_eq!(ret, expected);
}

#[test]
fn test_split_dataframe() {
    let ret = split_dataframe::<u32>(",", vec![0, 1], "ant, foo\nbat, bar\ncat, baz");
    let mut expected: HashMap<u32, Data> = HashMap::new();
    expected.insert(0, Data::new(strings(&["ant", "bat", "cat"])));
    expected.insert(1, Data::new(strings(&["foo", "bar", "baz"])));
    assert_eq!(ret, expected);
}

fn check_resize() {
    let trans = make_resize_constant(AllDomain::<String>::new(), "x".to_string(), 3).unwrap_test();
    assert_eq!(trans.invoke(&strings(&["A"; 2])).unwrap_test(), strings(&["A", "A", "x"]));
    assert_eq!(trans.invoke(&strings(&["A"; 3])).unwrap_test(), strings(&["A"; 3]));
    assert_eq!(trans.invoke(&strings(&["A"; 4])).unwrap_test(), strings(&["A", "A", "A"]));

    assert!(trans.check(&1, &2).unwrap_test());
    assert!(!trans.check(&1, &1).unwrap_test());
}

#[test]
fn resize_test() {
    check_resize();
}

#[test]
fn mod_test() {
    check_resize();
}

#[test]
fn test_resize_zero_length() {
    let err = make_resize_constant(AllDomain::<i32>::new(), 0, 0).err().unwrap();
    assert_eq!(err.variant, ErrorVariant::MakeTransformation);
}

#[test]
fn test_resize_parity_relation() {
    let trans = make_resize_constant(AllDomain::<i32>::new(), 0, 2).unwrap_test();
    assert!(trans.check(&2, &2).unwrap_test());
    assert!(trans.check(&3, &4).unwrap_test());
    assert!(!trans.check(&3, &3).unwrap_test());
    assert!(!trans.check(&u32::MAX, &u32::MAX).unwrap_test());
}

#[test]
fn test_find() {
    let find = make_find(vec![1, 3, 4]).unwrap_test();
    assert_eq!(find.invoke(&vec![1, 2, 3, 4, 5]).unwrap_test(), vec![0, 3, 1, 2, 3]);
}

#[test]
fn test_find_rejects_duplicates() {
    let err = make_find(vec![1, 3, 1]).err().unwrap();
    assert_eq!(err.variant, ErrorVariant::MakeTransformation);
}

#[test]
fn test_bin() {
    let bin = make_find_bin(vec![2, 3, 5]).unwrap_test();
    assert_eq!(bin.invoke(&(1..10).collect()).unwrap_test(), vec![0, 1, 2, 2, 3, 3, 3, 3, 3]);
}

#[test]
fn test_bin_rejects_unsorted_edges() {
    assert!(make_find_bin(vec![2, 2, 5]).is_err());
}

#[test]
fn test_index() {
    let index = make_index(strings(&["A", "B", "C"]), "NA".to_string()).unwrap_test();
    assert_eq!(index.invoke(&vec![0, 1, 3, 1, 5]).unwrap_test(), strings(&["A", "B", "NA", "B", "NA"]));
}

#[test]
fn test_find_then_index() {
    let categories = vec![10u64, 20, 30];
    let find = make_find(categories.clone()).unwrap_test();
    let index = make_index(categories, 0).unwrap_test();
    let positions = find.invoke(&vec![20, 30, 40, 10]).unwrap_test();
    assert_eq!(index.invoke(&positions).unwrap_test(), vec![20, 30, 0, 10]);
}

#[test]
fn test_impute_constant_option() {
    let imputer = make_impute_constant::<OptionNullDomain<AllDomain<String>>, SubstituteDistance>("IMPUTED".to_string())
        .unwrap_test();
    let result = imputer.invoke(&vec![Some("A".to_string()), None]).unwrap_test();
    assert_eq!(result, vec!["A".to_string(), "IMPUTED".to_string()]);
    assert!(imputer.check(&1, &1).unwrap_test());
}

#[test]
fn test_identity() {
    let identity = make_identity(AllDomain::<i32>::new(), SubstituteDistance).unwrap_test();
    let arg = 99;
    let ret = identity.invoke(&arg).unwrap_test();
    assert_eq!(ret, 99);
}

#[test]
fn test_make_is_equal_values() {
    let is_equal = make_is_equal::<SymmetricDistance, u8>(7).unwrap_test();
    let ret = is_equal.invoke(&vec![7, 8, 7]).unwrap_test();
    assert_eq!(ret, vec![true, false, true]);
    assert!(is_equal.check(&1, &1).unwrap_test());
}

#[test]
fn test_cast_metric_constants() {
    let sym_to_sub = make_cast_metric::<AllDomain<i32>, SymmetricDistance, SubstituteDistance>(AllDomain::new()).unwrap_test();
    assert_eq!(sym_to_sub.invoke(&5).unwrap_test(), 5);
    assert!(sym_to_sub.check(&2, &2).unwrap_test());
    let sub_to_sym = make_cast_metric::<AllDomain<i32>, SubstituteDistance, SymmetricDistance>(AllDomain::new()).unwrap_test();
    assert!(sub_to_sym.check(&2, &4).unwrap_test());
    assert!(!sub_to_sym.check(&2, &3).unwrap_test());
}

#[test]
fn test_make_clamp_scalar() {
    let transformation = make_clamp_scalar::<i32>(0, 10).unwrap_test();
    assert_eq!(transformation.invoke(&15).unwrap_test(), 10);
    assert!(!transformation.check(&15, &9).unwrap_test());
    assert!(transformation.check(&15, &10).unwrap_test());
    assert!(!transformation.check(&5, &4).unwrap_test());
    assert!(transformation.check(&5, &5).unwrap_test());
}

#[test]
fn test_make_unclamp_scalar() {
    let transformation = make_unclamp_scalar::<i32>(Bound::Included(0), Bound::Included(10)).unwrap_test();
    assert_eq!(transformation.invoke(&15).unwrap_test(), 15);
    assert!(transformation.check(&15, &15).unwrap_test());
}

#[test]
fn test_sized_domain_length() {
    let domain = SizedDomain::new(VectorDomain::new(AllDomain::<i32>::new()), 3);
    assert!(domain.member(&vec![1, 2, 3]));
    assert!(!domain.member(&vec![1, 2]));
    assert!(!domain.member(&vec![1, 2, 3, 4]));
}
