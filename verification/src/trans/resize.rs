//! Resizing a dataset to a known length.
use vstd::prelude::*;
use crate::dist::{IntDistance, SymmetricDistance};
use crate::dom::{SizedDomain, VectorDomain};
use crate::error::{Error, ErrorVariant, Fallible};
use crate::framework::{Domain, Function, Relation, Transformation};
use crate::traits::DeepClone;

verus! {

/// `arg` cut down to `length`, or padded with `constant` up to it.
pub open spec fn spec_resize<V>(arg: Seq<V>, constant: V, length: int) -> Seq<V> {
    Seq::new(length as nat, |i: int| if i < arg.len() { arg[i] } else { constant })
}

/// Resizes a vector to a fixed length, padding with a constant.
pub struct ResizeFunction<T> {
    pub constant: T,
    pub length: usize,
}

impl<T: DeepClone> Function for ResizeFunction<T> {
    type Input = Vec<T>;
    type Output = Vec<T>;

    open spec fn spec_eval(&self, arg: Seq<T::V>) -> Option<Seq<T::V>> {
        Some(spec_resize(arg, self.constant.deep_view(), self.length as int))
    }

    fn eval(&self, arg: &Vec<T>) -> (r: Fallible<Vec<T>>) {
        let mut out: Vec<T> = Vec::new();
        let mut i: usize = 0;
        let ghost target = spec_resize(arg.deep_view(), self.constant.deep_view(), self.length as int);
        while i < self.length
            invariant
                i <= self.length,
                target == spec_resize(arg.deep_view(), self.constant.deep_view(), self.length as int),
                out@.len() == i,
                forall|j: int| 0 <= j < i ==> (#[trigger] out@[j]).deep_view() == target[j],
            decreases self.length - i,
        {
            let v = if i < arg.len() {
                arg[i].deep_clone()
            } else {
                self.constant.deep_clone()
            };
            out.push(v);
            i = i + 1;
        }
        proof {
            assert(out.deep_view() =~= target);
        }
        Ok(out)
    }
}

/// Law: resizing gives exactly `length` records; the first
/// `min(length, n)` are the input's first records, in order, and the rest are
/// the constant.
pub proof fn lemma_resize_keeps_prefix<T: DeepClone>(f: ResizeFunction<T>, arg: Seq<T::V>)
    ensures
        f.spec_eval(arg) is Some,
        f.spec_eval(arg).unwrap().len() == f.length,
        forall|i: int| 0 <= i < f.length && i < arg.len() ==> #[trigger] f.spec_eval(arg).unwrap()[i] == arg[i],
        forall|i: int| arg.len() <= i < f.length ==> #[trigger] f.spec_eval(arg).unwrap()[i] == f.constant.deep_view(),
{
}

/// Law: a dataset that already has `length` records is left unchanged, and
/// resizing twice to the same length is resizing once.
pub proof fn lemma_resize_idempotent<T: DeepClone>(f: ResizeFunction<T>, arg: Seq<T::V>)
    ensures
        arg.len() == f.length ==> f.spec_eval(arg) == Some(arg),
        f.spec_eval(f.spec_eval(arg).unwrap()) == f.spec_eval(arg),
{
    if arg.len() == f.length {
        assert(f.spec_eval(arg).unwrap() =~= arg);
    }
    assert(f.spec_eval(f.spec_eval(arg).unwrap()).unwrap() =~= f.spec_eval(arg).unwrap());
}

/// The relation `d_out >= d_in + d_in % 2`.
pub struct ParityRelation;

impl Relation for ParityRelation {
    type DIn = IntDistance;
    type DOut = IntDistance;

    open spec fn spec_eval(&self, d_in: IntDistance, d_out: IntDistance) -> Option<bool> {
        Some(d_out >= d_in + d_in % 2)
    }

    open spec fn spec_has_forward(&self) -> bool {
        false
    }

    open spec fn spec_has_backward(&self) -> bool {
        false
    }

    open spec fn spec_forward(&self, d_in: IntDistance) -> Option<IntDistance> {
        None
    }

    open spec fn spec_backward(&self, d_out: IntDistance) -> Option<IntDistance> {
        None
    }

    fn eval(&self, d_in: &IntDistance, d_out: &IntDistance) -> (r: Fallible<bool>) {
        let d: u64 = *d_in as u64;
        Ok(*d_out as u64 >= d + d % 2)
    }

    fn has_forward(&self) -> (r: bool) {
        false
    }

    fn has_backward(&self) -> (r: bool) {
        false
    }

    fn forward_map(&self, d_in: &IntDistance) -> (r: Fallible<IntDistance>)
        ensures
            r matches Err(e) && e.variant == ErrorVariant::NotImplemented,
    {
        Err(Error::new(ErrorVariant::NotImplemented))
    }

    fn backward_map(&self, d_out: &IntDistance) -> (r: Fallible<IntDistance>)
        ensures
            r matches Err(e) && e.variant == ErrorVariant::NotImplemented,
    {
        Err(Error::new(ErrorVariant::NotImplemented))
    }
}

/// A transformation that resizes each dataset to `length` records, cutting
/// it down or padding it with `constant`. Fails with `MakeTransformation`
/// where `constant` is not in `atom_domain` or `length` is zero.
pub fn make_resize_constant<DA: Domain + Copy>(atom_domain: DA, constant: DA::Carrier, length: usize) -> (r: Fallible<
    Transformation<
        VectorDomain<DA>,
        SizedDomain<VectorDomain<DA>>,
        SymmetricDistance,
        SymmetricDistance,
        ResizeFunction<DA::Carrier>,
        ParityRelation,
    >,
>)
    where DA::Carrier: DeepClone,
    ensures
        r.is_ok() <==> (atom_domain.spec_member(constant) && length > 0),
        r matches Err(e) ==> e.variant == ErrorVariant::MakeTransformation,
        r matches Ok(t) ==> t.function.constant == constant && t.function.length == length && t.output_domain.length
            == length && t.input_domain.element_domain == atom_domain,
{
    if !atom_domain.member(&constant) {
        return Err(Error::with_message(ErrorVariant::MakeTransformation, "constant must be a member of DA"));
    }
    if length == 0 {
        return Err(Error::with_message(ErrorVariant::MakeTransformation, "length must be greater than zero"));
    }
    Ok(
        Transformation::new(
            VectorDomain::new(atom_domain),
            SizedDomain::new(VectorDomain::new(atom_domain), length),
            ResizeFunction { constant, length },
            SymmetricDistance,
            SymmetricDistance,
            ParityRelation,
        ),
    )
}

} // verus!
