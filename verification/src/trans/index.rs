//! Transformations between values and their indices in a list.
use vstd::prelude::*;
use std::collections::HashMap;
use crate::dist::{IntDistance, SymmetricDistance};
use crate::dom::{AllDomain, VectorDomain};
use crate::error::{Error, ErrorVariant, Fallible};
use crate::framework::{Function, LinearRelation, Transformation};
use crate::trans::count::{all_distinct, category_index};
use crate::traits::{lemma_vec_deep_view_identity, DeepClone, HashKey, TotalOrd};

verus! {

/// The position of `v` in the distinct `categories`, or their number where
/// it is not among them.
pub open spec fn spec_find<T>(categories: Seq<T>, v: T) -> int {
    if categories.contains(v) {
        categories.index_of(v)
    } else {
        categories.len() as int
    }
}

/// Replaces each value by its position among the categories.
pub struct FindFunction<T: HashKey + Copy> {
    categories: Vec<T>,
    indexes: HashMap<T, usize>,
}

impl<T: HashKey + Copy> FindFunction<T> {
    #[verifier::type_invariant]
    spec fn find_wf(self) -> bool {
        &&& self.categories@.no_duplicates()
        &&& forall|x: T| self.indexes@.contains_key(x) <==> self.categories@.contains(x)
        &&& forall|x: T| #[trigger] self.indexes@.contains_key(x) ==> self.indexes@[x] < self.categories@.len()
            && self.categories@[self.indexes@[x] as int] == x
    }

    /// The categories.
    pub closed spec fn spec_categories(self) -> Seq<T> {
        self.categories@
    }
}

impl<T: HashKey + Copy> Function for FindFunction<T> {
    type Input = Vec<T>;
    type Output = Vec<usize>;

    open spec fn spec_eval(&self, arg: Seq<T>) -> Option<Seq<usize>> {
        Some(Seq::new(arg.len(), |i: int| spec_find(self.spec_categories(), arg[i]) as usize))
    }

    fn eval(&self, arg: &Vec<T>) -> (r: Fallible<Vec<usize>>) {
        proof {
            use_type_invariant(self);
            lemma_vec_deep_view_identity(*arg);
            T::lemma_obeys_key_model();
        }
        let n = self.categories.len();
        let mut out: Vec<usize> = Vec::new();
        let mut i: usize = 0;
        while i < arg.len()
            invariant
                i <= arg@.len(),
                n == self.categories@.len(),
                vstd::std_specs::hash::obeys_key_model::<T>(),
                self.categories@.no_duplicates(),
                forall|x: T| self.indexes@.contains_key(x) <==> self.categories@.contains(x),
                forall|x: T| #[trigger] self.indexes@.contains_key(x) ==> self.indexes@[x] < self.categories@.len()
                    && self.categories@[self.indexes@[x] as int] == x,
                out@.len() == i,
                forall|j: int| 0 <= j < i ==> out@[j] == spec_find(self.categories@, arg@[j]) as usize,
            decreases arg@.len() - i,
        {
            let v = arg[i];
            let k = match self.indexes.get(&v) {
                Some(k) => *k,
                None => n,
            };
            proof {
                if self.categories@.contains(v) {
                    self.categories@.index_of_first_ensures(v);
                    let j = self.indexes@[v] as int;
                    assert(self.categories@[j] == v);
                    let f = self.categories@.index_of(v);
                    assert(self.categories@[f] == v);
                    if j != f {
                        assert(self.categories@[j] == self.categories@[f]);
                    }
                }
            }
            out.push(k);
            i = i + 1;
        }
        proof {
            assert(out.deep_view() =~= out@);
            assert(out@ =~= Seq::new(arg@.len(), |j: int| spec_find(self.spec_categories(), arg@[j]) as usize));
        }
        Ok(out)
    }
}

/// A transformation that replaces each value by its position among
/// `categories`, or their number where it is not among them. Fails with
/// `MakeTransformation` where the categories are not distinct.
pub fn make_find<TIA: HashKey + Copy>(categories: Vec<TIA>) -> (r: Fallible<
    Transformation<
        VectorDomain<AllDomain<TIA>>,
        VectorDomain<AllDomain<usize>>,
        SymmetricDistance,
        SymmetricDistance,
        FindFunction<TIA>,
        LinearRelation<IntDistance, IntDistance>,
    >,
>)
    ensures
        r.is_ok() <==> categories@.no_duplicates(),
        r matches Err(e) ==> e.variant == ErrorVariant::MakeTransformation,
        r matches Ok(t) ==> t.function.spec_categories() == categories@ && t.stability_relation.spec_c_num() == 1
            && t.stability_relation.spec_c_den() == 1,
{
    if !all_distinct(&categories) {
        return Err(Error::with_message(ErrorVariant::MakeTransformation, "categories must be unique"));
    }
    let indexes = category_index(&categories);
    Ok(
        Transformation::new(
            VectorDomain::new_all(),
            VectorDomain::new_all(),
            FindFunction { categories, indexes },
            SymmetricDistance,
            SymmetricDistance,
            LinearRelation::new_from_constant(1u32),
        ),
    )
}

/// The number of leading edges that `v` is not below: the index of the
/// first edge greater than `v`, or the number of edges.
pub open spec fn spec_find_bin<T: TotalOrd>(edges: Seq<T>, v: T) -> int
    decreases edges.len(),
{
    if edges.len() == 0 {
        0
    } else if !edges[0].spec_total_le(v) {
        0
    } else {
        1 + spec_find_bin(edges.drop_first(), v)
    }
}

/// The edges are strictly increasing.
pub open spec fn spec_strictly_increasing<T: TotalOrd>(edges: Seq<T>) -> bool {
    forall|i: int| 0 <= i < edges.len() - 1 ==> !(#[trigger] edges[i + 1]).spec_total_le(edges[i])
}

/// Replaces each value by the index of the bin it falls in.
pub struct FindBinFunction<T> {
    pub edges: Vec<T>,
}

/// Finds the bin of `v` among `edges`.
fn find_bin<T: TotalOrd>(edges: &Vec<T>, v: &T) -> (r: usize)
    ensures
        r == spec_find_bin(edges@, *v),
{
    let mut i: usize = 0;
    proof {
        assert(edges@.subrange(0, edges@.len() as int) == edges@);
    }
    while i < edges.len()
        invariant
            i <= edges@.len(),
            spec_find_bin(edges@, *v) == i + spec_find_bin(edges@.subrange(i as int, edges@.len() as int), *v),
        decreases edges@.len() - i,
    {
        proof {
            assert(edges@.subrange(i as int, edges@.len() as int).drop_first() == edges@.subrange(i + 1, edges@.len() as int));
        }
        if !edges[i].total_le(v) {
            return i;
        }
        i = i + 1;
    }
    i
}

impl<T: TotalOrd + HashKey> Function for FindBinFunction<T> {
    type Input = Vec<T>;
    type Output = Vec<usize>;

    open spec fn spec_eval(&self, arg: Seq<T>) -> Option<Seq<usize>> {
        Some(Seq::new(arg.len(), |i: int| spec_find_bin(self.edges@, arg[i]) as usize))
    }

    fn eval(&self, arg: &Vec<T>) -> (r: Fallible<Vec<usize>>) {
        proof {
            lemma_vec_deep_view_identity(*arg);
        }
        let mut out: Vec<usize> = Vec::new();
        let mut i: usize = 0;
        while i < arg.len()
            invariant
                i <= arg@.len(),
                out@.len() == i,
                forall|j: int| 0 <= j < i ==> out@[j] == spec_find_bin(self.edges@, arg@[j]) as usize,
            decreases arg@.len() - i,
        {
            out.push(find_bin(&self.edges, &arg[i]));
            i = i + 1;
        }
        proof {
            assert(out.deep_view() =~= out@);
            assert(out@ =~= Seq::new(arg@.len(), |j: int| spec_find_bin(self.edges@, arg@[j]) as usize));
        }
        Ok(out)
    }
}

/// A transformation that replaces each value by the index of its bin: the
/// first edge greater than it, or the number of edges. Fails with
/// `MakeTransformation` where the edges are not strictly increasing.
pub fn make_find_bin<TIA: TotalOrd + HashKey>(edges: Vec<TIA>) -> (r: Fallible<
    Transformation<
        VectorDomain<AllDomain<TIA>>,
        VectorDomain<AllDomain<usize>>,
        SymmetricDistance,
        SymmetricDistance,
        FindBinFunction<TIA>,
        LinearRelation<IntDistance, IntDistance>,
    >,
>)
    ensures
        r.is_ok() <==> spec_strictly_increasing(edges@),
        r matches Err(e) ==> e.variant == ErrorVariant::MakeTransformation,
        r matches Ok(t) ==> t.function.edges == edges && t.stability_relation.spec_c_num() == 1
            && t.stability_relation.spec_c_den() == 1,
{
    let mut i: usize = 1;
    while i < edges.len()
        invariant
            1 <= i,
            i <= edges@.len() || edges@.len() == 0,
            forall|j: int| 0 <= j < i - 1 && j < edges@.len() - 1 ==> !(#[trigger] edges@[j + 1]).spec_total_le(edges@[j]),
        decreases edges@.len() - i,
    {
        if edges[i].total_le(&edges[i - 1]) {
            proof {
                let j = i - 1;
                assert(edges@[j + 1].spec_total_le(edges@[j]));
                assert(!spec_strictly_increasing(edges@));
            }
            return Err(Error::with_message(ErrorVariant::MakeTransformation, "edges must be unique and ordered"));
        }
        i = i + 1;
    }
    Ok(
        Transformation::new(
            VectorDomain::new_all(),
            VectorDomain::new_all(),
            FindBinFunction { edges },
            SymmetricDistance,
            SymmetricDistance,
            LinearRelation::new_from_constant(1u32),
        ),
    )
}

/// Replaces each index by the category at it, or by `null` past the end.
pub struct IndexFunction<T> {
    pub categories: Vec<T>,
    pub null: T,
}

impl<T: DeepClone> Function for IndexFunction<T> {
    type Input = Vec<usize>;
    type Output = Vec<T>;

    open spec fn spec_eval(&self, arg: Seq<usize>) -> Option<Seq<T::V>> {
        Some(
            Seq::new(
                arg.len(),
                |i: int|
                    if arg[i] < self.categories@.len() {
                        self.categories@[arg[i] as int].deep_view()
                    } else {
                        self.null.deep_view()
                    },
            ),
        )
    }

    fn eval(&self, arg: &Vec<usize>) -> (r: Fallible<Vec<T>>) {
        let mut out: Vec<T> = Vec::new();
        let mut i: usize = 0;
        proof {
            assert(arg.deep_view() =~= arg@);
        }
        while i < arg.len()
            invariant
                i <= arg@.len(),
                out@.len() == i,
                forall|j: int| 0 <= j < i ==> (#[trigger] out@[j]).deep_view() == (if arg@[j] < self.categories@.len() {
                    self.categories@[arg@[j] as int].deep_view()
                } else {
                    self.null.deep_view()
                }),
            decreases arg@.len() - i,
        {
            let k = arg[i];
            let v = if k < self.categories.len() {
                self.categories[k].deep_clone()
            } else {
                self.null.deep_clone()
            };
            out.push(v);
            i = i + 1;
        }
        proof {
            assert(out.deep_view() =~= Seq::new(
                arg@.len(),
                |j: int|
                    if arg@[j] < self.categories@.len() {
                        self.categories@[arg@[j] as int].deep_view()
                    } else {
                        self.null.deep_view()
                    },
            ));
        }
        Ok(out)
    }
}

/// A transformation that replaces each index by the category at it, or by
/// `null` where it is past the end.
pub fn make_index<TOA: DeepClone>(categories: Vec<TOA>, null: TOA) -> (r: Fallible<
    Transformation<
        VectorDomain<AllDomain<usize>>,
        VectorDomain<AllDomain<TOA>>,
        SymmetricDistance,
        SymmetricDistance,
        IndexFunction<TOA>,
        LinearRelation<IntDistance, IntDistance>,
    >,
>)
    ensures
        r.is_ok(),
        r matches Ok(t) ==> t.function.categories == categories && t.function.null == null
            && t.stability_relation.spec_c_num() == 1 && t.stability_relation.spec_c_den() == 1,
{
    Ok(
        Transformation::new(
            VectorDomain::new_all(),
            VectorDomain::new_all(),
            IndexFunction { categories, null },
            SymmetricDistance,
            SymmetricDistance,
            LinearRelation::new_from_constant(1u32),
        ),
    )
}

/// Finding a value among the categories and indexing the categories at the
/// result gives the value back; a value outside them is found at the end,
/// past the last category.
pub proof fn lemma_find_then_index<T>(categories: Seq<T>, v: T)
    ensures
        categories.contains(v) ==> 0 <= spec_find(categories, v) < categories.len() && categories[spec_find(categories, v)] == v,
        !categories.contains(v) ==> spec_find(categories, v) == categories.len(),
{
    if categories.contains(v) {
        categories.index_of_first_ensures(v);
    }
}


/// Law: the bin of `v` is the number of leading edges at or below it: every
/// edge before the bin is at or below `v`, and the edge at the bin, where
/// there is one, is above it.
pub proof fn lemma_find_bin_position<T: TotalOrd>(edges: Seq<T>, v: T)
    ensures
        0 <= spec_find_bin(edges, v) <= edges.len(),
        forall|i: int| 0 <= i < spec_find_bin(edges, v) ==> (#[trigger] edges[i]).spec_total_le(v),
        spec_find_bin(edges, v) < edges.len() ==> !edges[spec_find_bin(edges, v)].spec_total_le(v),
    decreases edges.len(),
{
    if edges.len() > 0 && edges[0].spec_total_le(v) {
        let rest = edges.drop_first();
        lemma_find_bin_position(rest, v);
        assert forall|i: int| 0 <= i < spec_find_bin(edges, v) implies (#[trigger] edges[i]).spec_total_le(v) by {
            if i > 0 {
                assert(edges[i] == rest[i - 1]);
            }
        }
        if spec_find_bin(edges, v) < edges.len() {
            assert(edges[spec_find_bin(edges, v)] == rest[spec_find_bin(rest, v)]);
        }
    }
}

} // verus!
