//! Implementations of `Domain`.
use vstd::prelude::*;
use crate::data::{Data, Form};
use crate::framework::Domain;
use crate::traits::{HashKey, TotalOrd};
use vstd::std_specs::iter::IteratorSpec;

verus! {

/// A Domain that contains all members of the carrier type.
pub struct AllDomain<T> {
    pub _marker: std::marker::PhantomData<T>,
}

impl<T> AllDomain<T> {
    pub fn new() -> (r: Self)
        ensures
            r.spec_member_all(),
    {
        AllDomain { _marker: std::marker::PhantomData }
    }

    /// Every value is a member.
    pub open spec fn spec_member_all(self) -> bool {
        forall|v: T| self.spec_member(v)
    }
}

impl<T> Clone for AllDomain<T> {
    fn clone(&self) -> (r: Self)
        ensures
            r == *self,
    {
        AllDomain { _marker: std::marker::PhantomData }
    }
}

impl<T> Copy for AllDomain<T> {
}

impl<T> Domain for AllDomain<T> {
    type Carrier = T;

    open spec fn spec_member(&self, val: T) -> bool {
        true
    }

    open spec fn spec_same(&self, other: Self) -> bool {
        true
    }

    fn member(&self, val: &T) -> (r: bool) {
        true
    }

    fn same_domain(&self, other: &Self) -> (r: bool) {
        true
    }
}

/// A Domain that carries an underlying Domain in a Box.
pub struct BoxDomain<D> {
    pub element_domain: Box<D>,
}

impl<D: Domain> BoxDomain<D> {
    pub fn new(element_domain: Box<D>) -> (r: Self)
        ensures
            r.element_domain == element_domain,
    {
        BoxDomain { element_domain }
    }
}

impl<D: Domain> Domain for BoxDomain<D> {
    type Carrier = Box<D::Carrier>;

    open spec fn spec_member(&self, val: Box<D::Carrier>) -> bool {
        self.element_domain.spec_member(*val)
    }

    open spec fn spec_same(&self, other: Self) -> bool {
        self.element_domain.spec_same(*other.element_domain)
    }

    fn member(&self, val: &Box<D::Carrier>) -> (r: bool) {
        self.element_domain.member(&**val)
    }

    fn same_domain(&self, other: &Self) -> (r: bool) {
        self.element_domain.same_domain(&*other.element_domain)
    }
}

/// An endpoint of an interval.
#[derive(Clone, Copy, Debug)]
pub enum Bound<T> {
    Included(T),
    Excluded(T),
    Unbounded,
}

/// Whether `val` lies on the allowed side of a lower bound.
pub open spec fn spec_above<T: TotalOrd>(lower: Bound<T>, val: T) -> bool {
    match lower {
        Bound::Included(b) => b.spec_total_le(val),
        Bound::Excluded(b) => b.spec_total_le(val) && b != val,
        Bound::Unbounded => true,
    }
}

/// Whether `val` lies on the allowed side of an upper bound.
pub open spec fn spec_below<T: TotalOrd>(upper: Bound<T>, val: T) -> bool {
    match upper {
        Bound::Included(b) => val.spec_total_le(b),
        Bound::Excluded(b) => val.spec_total_le(b) && b != val,
        Bound::Unbounded => true,
    }
}

/// Decides `a == b` from the order.
fn total_eq<T: TotalOrd>(a: &T, b: &T) -> (r: bool)
    ensures
        r == (*a == *b),
{
    proof {
        T::lemma_total_order(*a, *b, *a);
    }
    a.total_le(b) && b.total_le(a)
}

/// Decides whether two bounds are the same.
fn bound_eq<T: TotalOrd>(a: &Bound<T>, b: &Bound<T>) -> (r: bool)
    ensures
        r == (*a == *b),
{
    match (a, b) {
        (Bound::Included(x), Bound::Included(y)) => total_eq(x, y),
        (Bound::Excluded(x), Bound::Excluded(y)) => total_eq(x, y),
        (Bound::Unbounded, Bound::Unbounded) => true,
        _ => false,
    }
}

/// A Domain of `Data` values that hold the form of the inner domain's
/// carrier, with a value in the inner domain.
pub struct DataDomain<D> {
    pub form_domain: D,
}

impl<D: Domain> DataDomain<D> {
    pub fn new(form_domain: D) -> (r: Self)
        ensures
            r.form_domain == form_domain,
    {
        DataDomain { form_domain }
    }
}

impl<D: Domain> Domain for DataDomain<D> where D::Carrier: Form {
    type Carrier = Data;

    open spec fn spec_member(&self, val: Data) -> bool {
        exists|x: D::Carrier| val.spec_form() == x.spec_wrap() && self.form_domain.spec_member(x)
    }

    open spec fn spec_same(&self, other: Self) -> bool {
        self.form_domain.spec_same(other.form_domain)
    }

    fn member(&self, val: &Data) -> (r: bool) {
        match D::Carrier::unwrap_ref(&val.form) {
            Some(x) => {
                proof {
                    assert forall|y: D::Carrier| val.spec_form() == y.spec_wrap() implies y == *x by {
                        D::Carrier::lemma_wrap_injective(*x, y);
                    }
                }
                self.form_domain.member(x)
            },
            None => false,
        }
    }

    fn same_domain(&self, other: &Self) -> (r: bool) {
        self.form_domain.same_domain(&other.form_domain)
    }
}

/// A Domain of optional values: `None`, or a value of the inner domain.
#[derive(Clone, Copy)]
pub struct OptionNullDomain<D> {
    pub element_domain: D,
}

impl<D: Domain> OptionNullDomain<D> {
    pub fn new(element_domain: D) -> (r: Self)
        ensures
            r.element_domain == element_domain,
    {
        OptionNullDomain { element_domain }
    }
}

impl<D: Domain> Domain for OptionNullDomain<D> {
    type Carrier = Option<D::Carrier>;

    open spec fn spec_member(&self, val: Option<D::Carrier>) -> bool {
        match val {
            Some(v) => self.element_domain.spec_member(v),
            None => true,
        }
    }

    open spec fn spec_same(&self, other: Self) -> bool {
        self.element_domain.spec_same(other.element_domain)
    }

    fn member(&self, val: &Option<D::Carrier>) -> (r: bool) {
        match val {
            Some(v) => self.element_domain.member(v),
            None => true,
        }
    }

    fn same_domain(&self, other: &Self) -> (r: bool) {
        self.element_domain.same_domain(&other.element_domain)
    }
}

/// A Domain that contains all the values in an interval.
#[derive(Clone, Copy)]
pub struct IntervalDomain<T> {
    pub lower: Bound<T>,
    pub upper: Bound<T>,
}

/// Whether two bounds describe a nonempty interval.
pub open spec fn spec_bounds_ordered<T: TotalOrd>(lower: Bound<T>, upper: Bound<T>) -> bool {
    match (lower, upper) {
        (Bound::Included(l), Bound::Included(u)) => l.spec_total_le(u),
        (Bound::Included(l), Bound::Excluded(u)) => l.spec_total_le(u) && l != u,
        (Bound::Excluded(l), Bound::Included(u)) => l.spec_total_le(u) && l != u,
        (Bound::Excluded(l), Bound::Excluded(u)) => l.spec_total_le(u) && l != u,
        _ => true,
    }
}

/// A Domain of the values between two bounds.
pub type BoundedDomain<T> = IntervalDomain<T>;

impl<T: TotalOrd> IntervalDomain<T> {
    pub fn new(lower: Bound<T>, upper: Bound<T>) -> (r: Self)
        ensures
            r.lower == lower,
            r.upper == upper,
    {
        IntervalDomain { lower, upper }
    }

    /// The interval between two bounds; fails where it would be empty.
    pub fn new_bounded(lower: Bound<T>, upper: Bound<T>) -> (r: crate::error::Fallible<Self>)
        ensures
            r.is_ok() <==> spec_bounds_ordered(lower, upper),
            r matches Ok(d) ==> d.lower == lower && d.upper == upper,
            r matches Err(e) ==> e.variant == crate::error::ErrorVariant::MakeDomain,
    {
        let ok = match (&lower, &upper) {
            (Bound::Included(l), Bound::Included(u)) => l.total_le(u),
            (Bound::Included(l), Bound::Excluded(u)) => l.total_le(u) && !total_eq(l, u),
            (Bound::Excluded(l), Bound::Included(u)) => l.total_le(u) && !total_eq(l, u),
            (Bound::Excluded(l), Bound::Excluded(u)) => l.total_le(u) && !total_eq(l, u),
            _ => true,
        };
        if !ok {
            return Err(crate::error::Error::with_message(crate::error::ErrorVariant::MakeDomain, "lower bound may not be greater than upper bound"));
        }
        Ok(IntervalDomain { lower, upper })
    }

    /// The closed interval `[bounds.0, bounds.1]`; fails where it would be empty.
    pub fn new_closed(bounds: (T, T)) -> (r: crate::error::Fallible<Self>)
        ensures
            r.is_ok() <==> bounds.0.spec_total_le(bounds.1),
            r matches Ok(d) ==> d.lower == Bound::Included(bounds.0) && d.upper == Bound::Included(bounds.1),
            r matches Err(e) ==> e.variant == crate::error::ErrorVariant::MakeDomain,
    {
        Self::new_bounded(Bound::Included(bounds.0), Bound::Included(bounds.1))
    }
}

impl<T: TotalOrd> Domain for IntervalDomain<T> {
    type Carrier = T;

    open spec fn spec_member(&self, val: T) -> bool {
        spec_above(self.lower, val) && spec_below(self.upper, val)
    }

    open spec fn spec_same(&self, other: Self) -> bool {
        self.lower == other.lower && self.upper == other.upper
    }

    fn member(&self, val: &T) -> (r: bool) {
        let lower_ok = match &self.lower {
            Bound::Included(b) => b.total_le(val),
            Bound::Excluded(b) => b.total_le(val) && !total_eq(b, val),
            Bound::Unbounded => true,
        };
        lower_ok && match &self.upper {
            Bound::Included(b) => val.total_le(b),
            Bound::Excluded(b) => val.total_le(b) && !total_eq(b, val),
            Bound::Unbounded => true,
        }
    }

    fn same_domain(&self, other: &Self) -> (r: bool) {
        bound_eq(&self.lower, &other.lower) && bound_eq(&self.upper, &other.upper)
    }
}

/// A Domain that contains pairs of values.
#[derive(Clone, Copy)]
pub struct PairDomain<D0, D1>(pub D0, pub D1);

impl<D0: Domain, D1: Domain> PairDomain<D0, D1> {
    pub fn new(element_domain0: D0, element_domain1: D1) -> (r: Self)
        ensures
            r.0 == element_domain0,
            r.1 == element_domain1,
    {
        PairDomain(element_domain0, element_domain1)
    }
}

impl<D0: Domain, D1: Domain> Domain for PairDomain<D0, D1> {
    type Carrier = (D0::Carrier, D1::Carrier);

    open spec fn spec_member(&self, val: (D0::Carrier, D1::Carrier)) -> bool {
        self.0.spec_member(val.0) && self.1.spec_member(val.1)
    }

    open spec fn spec_same(&self, other: Self) -> bool {
        self.0.spec_same(other.0) && self.1.spec_same(other.1)
    }

    fn member(&self, val: &(D0::Carrier, D1::Carrier)) -> (r: bool) {
        self.0.member(&val.0) && self.1.member(&val.1)
    }

    fn same_domain(&self, other: &Self) -> (r: bool) {
        self.0.same_domain(&other.0) && self.1.same_domain(&other.1)
    }
}

/// A Domain that contains vectors of (homogeneous) values.
#[derive(Clone, Copy)]
pub struct VectorDomain<D> {
    pub element_domain: D,
}

impl<D: Domain> VectorDomain<D> {
    pub fn new(element_domain: D) -> (r: Self)
        ensures
            r.element_domain == element_domain,
    {
        VectorDomain { element_domain }
    }
}

impl<T> VectorDomain<AllDomain<T>> {
    pub fn new_all() -> (r: Self)
        ensures
            forall|v: Vec<T>| r.spec_member(v),
    {
        VectorDomain { element_domain: AllDomain::new() }
    }
}

impl<D: Domain> Domain for VectorDomain<D> {
    type Carrier = Vec<D::Carrier>;

    open spec fn spec_member(&self, val: Vec<D::Carrier>) -> bool {
        forall|i: int| 0 <= i < val@.len() ==> self.element_domain.spec_member(#[trigger] val@[i])
    }

    open spec fn spec_same(&self, other: Self) -> bool {
        self.element_domain.spec_same(other.element_domain)
    }

    fn member(&self, val: &Vec<D::Carrier>) -> (r: bool) {
        let mut i: usize = 0;
        while i < val.len()
            invariant
                i <= val@.len(),
                forall|j: int| 0 <= j < i ==> self.element_domain.spec_member(#[trigger] val@[j]),
            decreases val@.len() - i,
        {
            if !self.element_domain.member(&val[i]) {
                return false;
            }
            i = i + 1;
        }
        true
    }

    fn same_domain(&self, other: &Self) -> (r: bool) {
        self.element_domain.same_domain(&other.element_domain)
    }
}

/// A collection whose number of elements can be read.
pub trait Collection {
    /// The number of elements.
    spec fn spec_len(&self) -> nat;

    /// Reads the number of elements.
    fn len_of(&self) -> (r: usize)
        ensures
            r == self.spec_len(),
    ;
}

impl<T> Collection for Vec<T> {
    open spec fn spec_len(&self) -> nat {
        self@.len()
    }

    fn len_of(&self) -> (r: usize) {
        self.len()
    }
}

impl<K: HashKey, V> Collection for std::collections::HashMap<K, V> {
    open spec fn spec_len(&self) -> nat {
        self@.len()
    }

    fn len_of(&self) -> (r: usize) {
        proof {
            K::lemma_obeys_key_model();
        }
        broadcast use vstd::std_specs::hash::group_hash_axioms;
        self.len()
    }
}

/// A Domain that specifies the length of the enclosed domain: its members
/// are the members of the enclosed domain with exactly that many elements.
#[derive(Clone, Copy)]
pub struct SizedDomain<D> {
    pub element_domain: D,
    pub length: usize,
}

impl<D: Domain> SizedDomain<D> {
    pub fn new(member_domain: D, length: usize) -> (r: Self)
        ensures
            r.element_domain == member_domain,
            r.length == length,
    {
        SizedDomain { element_domain: member_domain, length }
    }

    pub fn get_size(&self) -> (r: usize)
        ensures
            r == self.length,
    {
        self.length
    }
}

impl<D: Domain> Domain for SizedDomain<D> where D::Carrier: Collection {
    type Carrier = D::Carrier;

    open spec fn spec_member(&self, val: D::Carrier) -> bool {
        self.element_domain.spec_member(val) && val.spec_len() == self.length
    }

    open spec fn spec_same(&self, other: Self) -> bool {
        self.element_domain.spec_same(other.element_domain) && self.length == other.length
    }

    fn member(&self, val: &D::Carrier) -> (r: bool) {
        val.len_of() == self.length && self.element_domain.member(val)
    }

    fn same_domain(&self, other: &Self) -> (r: bool) {
        self.element_domain.same_domain(&other.element_domain) && self.length == other.length
    }
}

/// A Domain that contains maps of (homogeneous) values.
#[derive(Clone, Copy)]
pub struct MapDomain<DK, DV> {
    pub key_domain: DK,
    pub value_domain: DV,
}

impl<DK: Domain, DV: Domain> MapDomain<DK, DV> {
    pub fn new(key_domain: DK, element_domain: DV) -> (r: Self)
        ensures
            r.key_domain == key_domain,
            r.value_domain == element_domain,
    {
        MapDomain { key_domain, value_domain: element_domain }
    }
}

impl<K, V> MapDomain<AllDomain<K>, AllDomain<V>> {
    pub fn new_all() -> (r: Self)
        ensures
            forall|k: K| r.key_domain.spec_member(k),
            forall|v: V| r.value_domain.spec_member(v),
    {
        MapDomain { key_domain: AllDomain::new(), value_domain: AllDomain::new() }
    }
}

impl<DK: Domain, DV: Domain> Domain for MapDomain<DK, DV> where DK::Carrier: HashKey {
    type Carrier = std::collections::HashMap<DK::Carrier, DV::Carrier>;

    open spec fn spec_member(&self, val: std::collections::HashMap<DK::Carrier, DV::Carrier>) -> bool {
        forall|k: DK::Carrier|
            #[trigger] val@.contains_key(k) ==> self.key_domain.spec_member(k) && self.value_domain.spec_member(
                val@[k],
            )
    }

    open spec fn spec_same(&self, other: Self) -> bool {
        self.key_domain.spec_same(other.key_domain) && self.value_domain.spec_same(other.value_domain)
    }

    fn member(&self, val: &std::collections::HashMap<DK::Carrier, DV::Carrier>) -> (r: bool) {
        proof {
            DK::Carrier::lemma_obeys_key_model();
        }
        broadcast use vstd::std_specs::hash::group_hash_axioms;
        let ghost entries = vstd::std_specs::hash::spec_hash_map_iter(val).remaining();
        for (k, v) in iter: val.iter()
            invariant
                entries == iter.seq(),
                entries.len() == val@.dom().len(),
                forall|i: int| 0 <= i < entries.len() ==> val@.contains_key(*entries[i].0) && val@[*entries[i].0] == *entries[i].1,
                forall|kk: DK::Carrier| #[trigger] val@.contains_key(kk) ==> entries.contains((&kk, &val@[kk])),
                forall|i: int| 0 <= i < iter.index() ==> self.key_domain.spec_member(*#[trigger] entries[i].0)
                    && self.value_domain.spec_member(*entries[i].1),
        {
            if !(self.key_domain.member(k) && self.value_domain.member(v)) {
                return false;
            }
        }
        assert forall|kk: DK::Carrier| #[trigger] val@.contains_key(kk) implies self.key_domain.spec_member(kk)
            && self.value_domain.spec_member(val@[kk]) by {
            let i = choose|i: int| 0 <= i < entries.len() && entries[i] == (&kk, &val@[kk]);
            assert(self.key_domain.spec_member(*entries[i].0));
        }
        true
    }

    fn same_domain(&self, other: &Self) -> (r: bool) {
        self.key_domain.same_domain(&other.key_domain) && self.value_domain.same_domain(&other.value_domain)
    }
}

} // verus!
