//! Imputation: replacing null values with a constant.
use vstd::prelude::*;
use crate::dom::{AllDomain, OptionNullDomain, VectorDomain};
use crate::error::{Error, ErrorVariant, Fallible};
use crate::framework::{DatasetMetric, Domain, Function, LinearRelation, Transformation};
use crate::trans::manipulation::{make_row_by_row, RowByRow};
use crate::traits::{DeepClone, Distance};

verus! {

/// A domain whose values may be null, and how to impute them with a constant.
pub trait ImputableDomain: Domain + Sized where Self::Carrier: DeepView {
    type NonNull: DeepClone;

    /// The value that imputing `default` with `constant` gives.
    spec fn spec_impute(
        default: <Self::Carrier as DeepView>::V,
        constant: <Self::NonNull as DeepView>::V,
    ) -> <Self::NonNull as DeepView>::V;

    /// Whether a non-null value counts as null.
    spec fn spec_is_null(constant: Self::NonNull) -> bool;

    /// The value of `default`, or `constant` where `default` is null.
    fn impute_constant<'a>(default: &'a Self::Carrier, constant: &'a Self::NonNull) -> (r: &'a Self::NonNull)
        ensures
            r.deep_view() == Self::spec_impute(default.deep_view(), constant.deep_view()),
    ;

    fn is_null(constant: &Self::NonNull) -> (r: bool)
        ensures
            r == Self::spec_is_null(*constant),
    ;

    /// The domain itself: every value of the carrier, null or not, is a member.
    fn new() -> (r: Self)
        ensures
            forall|v: Self::Carrier| r.spec_member(v),
    ;
}

impl<T: DeepClone> ImputableDomain for OptionNullDomain<AllDomain<T>> {
    type NonNull = T;

    open spec fn spec_impute(default: Option<T::V>, constant: T::V) -> T::V {
        match default {
            Some(v) => v,
            None => constant,
        }
    }

    open spec fn spec_is_null(constant: T) -> bool {
        false
    }

    fn impute_constant<'a>(default: &'a Option<T>, constant: &'a T) -> (r: &'a T) {
        match default {
            Some(v) => v,
            None => constant,
        }
    }

    fn is_null(constant: &T) -> (r: bool) {
        false
    }

    fn new() -> Self {
        OptionNullDomain::new(AllDomain::new())
    }
}

/// Imputes a value with a constant.
pub struct ImputeConstantFunction<DA: ImputableDomain> where DA::Carrier: DeepView {
    pub constant: DA::NonNull,
}

impl<DA: ImputableDomain> Function for ImputeConstantFunction<DA> where DA::Carrier: DeepView {
    type Input = DA::Carrier;
    type Output = DA::NonNull;

    open spec fn spec_eval(&self, arg: <DA::Carrier as DeepView>::V) -> Option<<DA::NonNull as DeepView>::V> {
        Some(DA::spec_impute(arg, self.constant.deep_view()))
    }

    fn eval(&self, arg: &DA::Carrier) -> (r: Fallible<DA::NonNull>) {
        Ok(DA::impute_constant(arg, &self.constant).deep_clone())
    }
}

/// A transformation that imputes each null record with `constant`. Fails
/// with `MakeTransformation` where the constant is itself null.
pub fn make_impute_constant<DA: ImputableDomain, M: DatasetMetric + Default>(constant: DA::NonNull) -> (r: Fallible<
    Transformation<
        VectorDomain<DA>,
        VectorDomain<AllDomain<DA::NonNull>>,
        M,
        M,
        RowByRow<ImputeConstantFunction<DA>>,
        LinearRelation<M::Distance, M::Distance>,
    >,
>)
    where DA::Carrier: DeepView, M::Distance: Distance,
    ensures
        r.is_ok() <==> !DA::spec_is_null(constant),
        r matches Err(e) ==> e.variant == ErrorVariant::MakeTransformation,
        r matches Ok(t) ==> t.function.atom.constant == constant && t.stability_relation.spec_c_num() == 1
            && t.stability_relation.spec_c_den() == 1,
{
    if DA::is_null(&constant) {
        return Err(Error::with_message(ErrorVariant::MakeTransformation, "Constant may not be null."));
    }
    make_row_by_row(DA::new(), AllDomain::new(), ImputeConstantFunction { constant })
}

} // verus!
