//! Row-by-row transformations, identity and equality tests.
use vstd::prelude::*;
use crate::dist::IntDistance;
use crate::dom::{AllDomain, VectorDomain};
use crate::error::{ErrorVariant, Fallible};
use crate::framework::{DatasetMetric, Domain, Function, LinearRelation, Metric, Transformation};
use crate::traits::{DeepClone, Distance, HashKey};

verus! {

/// The spec value of applying `atom` to every element of `arg`: `None`
/// where any application fails.
pub open spec fn spec_row_by_row<G: Function>(
    atom: G,
    arg: Seq<<G::Input as DeepView>::V>,
) -> Option<Seq<<G::Output as DeepView>::V>> {
    if forall|i: int| 0 <= i < arg.len() ==> (#[trigger] atom.spec_eval(arg[i])).is_some() {
        Some(Seq::new(arg.len(), |i: int| atom.spec_eval(arg[i]).unwrap()))
    } else {
        None
    }
}

/// `k` is the first position of `arg` where `atom` fails.
pub open spec fn spec_first_failure<G: Function>(atom: G, arg: Seq<<G::Input as DeepView>::V>, k: int) -> bool {
    &&& 0 <= k < arg.len()
    &&& atom.spec_eval(arg[k]).is_none()
    &&& forall|j: int| 0 <= j < k ==> (#[trigger] atom.spec_eval(arg[j])).is_some()
}

/// A function on vectors that applies `atom` to each element.
pub struct RowByRow<G> {
    pub atom: G,
}

impl<G: Function> Function for RowByRow<G> {
    type Input = Vec<G::Input>;
    type Output = Vec<G::Output>;

    open spec fn spec_eval(&self, arg: Seq<<G::Input as DeepView>::V>) -> Option<Seq<<G::Output as DeepView>::V>> {
        spec_row_by_row(self.atom, arg)
    }

    /// The error of the atom on the first element where it fails.
    open spec fn spec_error(&self, arg: Seq<<G::Input as DeepView>::V>) -> ErrorVariant {
        let k = choose|k: int| spec_first_failure(self.atom, arg, k);
        self.atom.spec_error(arg[k])
    }

    fn eval(&self, arg: &Vec<G::Input>) -> (r: Fallible<Vec<G::Output>>) {
        let mut out: Vec<G::Output> = Vec::new();
        let mut i: usize = 0;
        let ghost a = arg.deep_view();
        while i < arg.len()
            invariant
                a == arg.deep_view(),
                i <= arg@.len(),
                out@.len() == i,
                forall|j: int| 0 <= j < i ==> (#[trigger] self.atom.spec_eval(a[j])) == Some(out@[j].deep_view()),
            decreases arg@.len() - i,
        {
            let v = match self.atom.eval(&arg[i]) {
                Ok(v) => v,
                Err(e) => {
                    proof {
                        assert(a[i as int] == arg@[i as int].deep_view());
                        assert(self.atom.spec_eval(a[i as int]).is_none());
                        assert(spec_first_failure(self.atom, a, i as int));
                        let k = choose|k: int| spec_first_failure(self.atom, a, k);
                        if k < i {
                            assert(self.atom.spec_eval(a[k]).is_some());
                        } else if k > i {
                            assert(self.atom.spec_eval(a[i as int]).is_some());
                        }
                    }
                    return Err(e);
                },
            };
            proof {
                assert(a[i as int] == arg@[i as int].deep_view());
            }
            out.push(v);
            i = i + 1;
        }
        proof {
            assert(out.deep_view() =~= Seq::new(a.len(), |j: int| self.atom.spec_eval(a[j]).unwrap()));
        }
        Ok(out)
    }
}

/// A transformation that applies `atom_function` to each record of a dataset.
pub fn make_row_by_row<DIA: Domain, DOA: Domain, M: DatasetMetric + Default, G: Function<Input = DIA::Carrier, Output = DOA::Carrier>>(
    atom_input_domain: DIA,
    atom_output_domain: DOA,
    atom_function: G,
) -> (r: Fallible<
    Transformation<VectorDomain<DIA>, VectorDomain<DOA>, M, M, RowByRow<G>, LinearRelation<M::Distance, M::Distance>>,
>)
    where
        DIA::Carrier: DeepView,
        DOA::Carrier: DeepView,
        M::Distance: Distance,
    ensures
        r matches Ok(t) && t.function.atom == atom_function && t.input_domain.element_domain == atom_input_domain
            && t.output_domain.element_domain == atom_output_domain && t.stability_relation.spec_c_num() == 1
            && t.stability_relation.spec_c_den() == 1,
{
    Ok(
        Transformation::new(
            VectorDomain::new(atom_input_domain),
            VectorDomain::new(atom_output_domain),
            RowByRow { atom: atom_function },
            M::default(),
            M::default(),
            LinearRelation::new_from_ratio(1, 1),
        ),
    )
}

/// A copy of the input.
pub struct IdentityFunction<T> {
    pub _marker: std::marker::PhantomData<T>,
}

impl<T: DeepClone> Function for IdentityFunction<T> {
    type Input = T;
    type Output = T;

    open spec fn spec_eval(&self, arg: T::V) -> Option<T::V> {
        Some(arg)
    }

    fn eval(&self, arg: &T) -> (r: Fallible<T>) {
        Ok(arg.deep_clone())
    }
}

/// A transformation that leaves its input unchanged.
pub fn make_identity<D: Domain + Copy, M: Metric + Copy>(domain: D, metric: M) -> (r: Fallible<
    Transformation<D, D, M, M, IdentityFunction<D::Carrier>, LinearRelation<M::Distance, M::Distance>>,
>)
    where
        D::Carrier: DeepClone,
        M::Distance: Distance,
    ensures
        r matches Ok(t) && t.input_domain == domain && t.output_domain == domain && t.stability_relation.spec_c_num()
            == 1 && t.stability_relation.spec_c_den() == 1,
{
    Ok(
        Transformation::new(
            domain,
            domain,
            IdentityFunction { _marker: std::marker::PhantomData },
            metric,
            metric,
            LinearRelation::new_from_ratio(1, 1),
        ),
    )
}

/// Whether the input equals `value`.
pub struct IsEqualFunction<T> {
    pub value: T,
}

impl<T: HashKey> Function for IsEqualFunction<T> {
    type Input = T;
    type Output = bool;

    open spec fn spec_eval(&self, arg: T) -> Option<bool> {
        Some(arg == self.value)
    }

    fn eval(&self, arg: &T) -> (r: Fallible<bool>) {
        proof {
            T::lemma_deep_view_identity(*arg);
        }
        Ok(arg.key_eq(&self.value))
    }
}

/// A transformation that tests each record for equality with `value`.
pub fn make_is_equal<M: DatasetMetric + Default, TI: HashKey>(value: TI) -> (r: Fallible<
    Transformation<
        VectorDomain<AllDomain<TI>>,
        VectorDomain<AllDomain<bool>>,
        M,
        M,
        RowByRow<IsEqualFunction<TI>>,
        LinearRelation<M::Distance, M::Distance>,
    >,
>)
    where M::Distance: Distance,
    ensures
        r matches Ok(t) && t.function.atom.value == value && t.stability_relation.spec_c_num() == 1
            && t.stability_relation.spec_c_den() == 1,
{
    make_row_by_row(AllDomain::new(), AllDomain::new(), IsEqualFunction { value })
}

} // verus!
