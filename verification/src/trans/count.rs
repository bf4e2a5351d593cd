//! Counting transformations.
use vstd::prelude::*;
use crate::dist::{AbsoluteDistance, IntDistance, SymmetricDistance};
use crate::dom::{AllDomain, VectorDomain};
use crate::error::{Error, ErrorVariant, Fallible};
use crate::framework::{Function, LinearRelation, Metric, SensitivityMetric, Transformation};
use crate::traits::{lemma_vec_deep_view_identity, saturate, Distance, ExactIntCast, HashKey, IntValue, SaturatingAdd};

verus! {

broadcast use vstd::std_specs::hash::group_hash_axioms;

/// The number of occurrences of `x` in `s`.
pub open spec fn count_of<T>(s: Seq<T>, x: T) -> nat
    decreases s.len(),
{
    if s.len() == 0 {
        0
    } else {
        count_of(s.drop_last(), x) + if s.last() == x {
            1nat
        } else {
            0nat
        }
    }
}

/// The number of elements of `s` that do not occur in `cats`.
pub open spec fn count_outside<T>(s: Seq<T>, cats: Seq<T>) -> nat
    decreases s.len(),
{
    if s.len() == 0 {
        0
    } else {
        count_outside(s.drop_last(), cats) + if cats.contains(s.last()) {
            0nat
        } else {
            1nat
        }
    }
}

/// `n` as a value of `T`, saturated at the type's bounds.
pub open spec fn saturated<T: IntValue>(n: int) -> T {
    T::spec_from_int(saturate::<T>(n))
}

/// The length of a vector, saturated into `TO`.
pub struct CountFunction<TIA, TO> {
    pub _marker: std::marker::PhantomData<(TIA, TO)>,
}

impl<TIA: DeepView, TO: ExactIntCast> Function for CountFunction<TIA, TO> {
    type Input = Vec<TIA>;
    type Output = TO;

    open spec fn spec_eval(&self, arg: Seq<TIA::V>) -> Option<TO> {
        Some(saturated::<TO>(arg.len() as int))
    }

    fn eval(&self, arg: &Vec<TIA>) -> (r: Fallible<TO>) {
        let c = saturating_count::<TO>(arg.len());
        proof {
            TO::lemma_deep_view_identity(c);
        }
        Ok(c)
    }
}

/// `n` as a `TO`, or the greatest `TO` where it does not fit.
fn saturating_count<TO: ExactIntCast>(n: usize) -> (r: TO)
    ensures
        r == saturated::<TO>(n as int),
        r.spec_int() == saturate::<TO>(n as int),
{
    proof {
        TO::lemma_range();
    }
    match TO::exact_int_cast_usize(n) {
        Some(v) => {
            proof {
                TO::lemma_int_range(v);
            }
            v
        },
        None => {
            let m = TO::max_consecutive();
            proof {
                TO::lemma_int_range(m);
            }
            m
        },
    }
}

/// A transformation that counts the records of a dataset, saturating at the
/// greatest value of `TO`.
pub fn make_count<TIA: DeepView, TO: ExactIntCast + Distance>() -> (r: Fallible<
    Transformation<
        VectorDomain<AllDomain<TIA>>,
        AllDomain<TO>,
        SymmetricDistance,
        AbsoluteDistance<TO>,
        CountFunction<TIA, TO>,
        LinearRelation<IntDistance, TO>,
    >,
>)
    ensures
        r matches Ok(t) && t.stability_relation.spec_c_num() == 1 && t.stability_relation.spec_c_den() == 1,
{
    Ok(
        Transformation::new(
            VectorDomain::new_all(),
            AllDomain::new(),
            CountFunction { _marker: std::marker::PhantomData },
            SymmetricDistance,
            AbsoluteDistance::default(),
            LinearRelation::new_from_ratio(1, 1),
        ),
    )
}

/// The number of distinct records of a vector, saturated into `TO`.
pub struct CountDistinctFunction<TIA, TO> {
    pub _marker: std::marker::PhantomData<(TIA, TO)>,
}

impl<TIA: HashKey + Copy, TO: ExactIntCast> Function for CountDistinctFunction<TIA, TO> {
    type Input = Vec<TIA>;
    type Output = TO;

    open spec fn spec_eval(&self, arg: Seq<TIA>) -> Option<TO> {
        Some(saturated::<TO>(arg.to_set().len() as int))
    }

    fn eval(&self, arg: &Vec<TIA>) -> (r: Fallible<TO>) {
        let n = count_distinct(arg);
        let c = saturating_count::<TO>(n);
        proof {
            lemma_vec_deep_view_identity(*arg);
            TO::lemma_deep_view_identity(c);
        }
        Ok(c)
    }
}

/// The number of distinct values in `arg`.
pub fn count_distinct<T: HashKey + Copy>(arg: &Vec<T>) -> (r: usize)
    ensures
        r == arg@.to_set().len(),
{
    proof {
        T::lemma_obeys_key_model();
    }
    let mut seen: std::collections::HashSet<T> = std::collections::HashSet::new();
    let mut i: usize = 0;
    while i < arg.len()
        invariant
            i <= arg@.len(),
            seen@ == arg@.take(i as int).to_set(),
            vstd::std_specs::hash::obeys_key_model::<T>(),
        decreases arg@.len() - i,
    {
        let x = arg[i];
        seen.insert(x);
        proof {
            assert(arg@.take(i + 1) == arg@.take(i as int).push(x));
            arg@.take(i as int).lemma_push_to_set_commute(x);
        }
        i = i + 1;
    }
    proof {
        assert(arg@.take(arg@.len() as int) == arg@);
        vstd::seq_lib::seq_to_set_is_finite(arg@);
    }
    seen.len()
}

/// A transformation that counts the distinct records of a dataset,
/// saturating at the greatest value of `TO`.
pub fn make_count_distinct<TIA: HashKey + Copy, TO: ExactIntCast + Distance>() -> (r: Fallible<
    Transformation<
        VectorDomain<AllDomain<TIA>>,
        AllDomain<TO>,
        SymmetricDistance,
        AbsoluteDistance<TO>,
        CountDistinctFunction<TIA, TO>,
        LinearRelation<IntDistance, TO>,
    >,
>)
    ensures
        r matches Ok(t) && t.stability_relation.spec_c_num() == 1 && t.stability_relation.spec_c_den() == 1,
{
    Ok(
        Transformation::new(
            VectorDomain::new_all(),
            AllDomain::new(),
            CountDistinctFunction { _marker: std::marker::PhantomData },
            SymmetricDistance,
            AbsoluteDistance::default(),
            LinearRelation::new_from_ratio(1, 1),
        ),
    )
}

/// The counts of each category, then the count of records in no category,
/// each saturated into `TOA`.
pub open spec fn spec_count_by_categories<TIA, TOA: IntValue>(cats: Seq<TIA>, data: Seq<TIA>) -> Seq<TOA> {
    Seq::new(
        cats.len() + 1,
        |j: int|
            if j < cats.len() {
                saturated::<TOA>(count_of(data, cats[j]) as int)
            } else {
                saturated::<TOA>(count_outside(data, cats) as int)
            },
    )
}

/// Counts records by category; the last entry counts records in no category.
pub struct CountByCategoriesFunction<TIA, TOA> {
    categories: Vec<TIA>,
    _marker: std::marker::PhantomData<TOA>,
}

impl<TIA, TOA> CountByCategoriesFunction<TIA, TOA> {
    #[verifier::type_invariant]
    spec fn categories_wf(self) -> bool {
        self.categories@.no_duplicates()
    }

    /// The categories.
    pub closed spec fn spec_categories(self) -> Seq<TIA> {
        self.categories@
    }
}

impl<TIA: HashKey + Copy, TOA: SaturatingAdd> Function for CountByCategoriesFunction<TIA, TOA> {
    type Input = Vec<TIA>;
    type Output = Vec<TOA>;

    open spec fn spec_eval(&self, arg: Seq<TIA>) -> Option<Seq<TOA>> {
        Some(spec_count_by_categories::<TIA, TOA>(self.spec_categories(), arg))
    }

    fn eval(&self, arg: &Vec<TIA>) -> (r: Fallible<Vec<TOA>>) {
        proof {
            use_type_invariant(self);
            lemma_vec_deep_view_identity(*arg);
        }
        let counts = count_by_categories::<TIA, TOA>(&self.categories, arg);
        proof {
            lemma_vec_deep_view_identity(counts);
        }
        Ok(counts)
    }
}

proof fn lemma_saturate_step<T: IntValue>(n: int)
    requires
        n >= 0,
    ensures
        saturate::<T>(1 + saturate::<T>(n)) == saturate::<T>(n + 1),
        saturate::<T>(n) >= 0,
{
    T::lemma_range();
}

proof fn lemma_count_push<T>(s: Seq<T>, x: T, y: T)
    ensures
        count_of(s.push(x), y) == count_of(s, y) + if x == y { 1nat } else { 0nat },
{
    assert(s.push(x).drop_last() == s);
}

proof fn lemma_outside_push<T>(s: Seq<T>, x: T, cats: Seq<T>)
    ensures
        count_outside(s.push(x), cats) == count_outside(s, cats) + if cats.contains(x) { 0nat } else { 1nat },
{
    assert(s.push(x).drop_last() == s);
}

/// The category index of each category.
pub(crate) fn category_index<TIA: HashKey + Copy>(categories: &Vec<TIA>) -> (r: std::collections::HashMap<TIA, usize>)
    requires
        categories@.no_duplicates(),
    ensures
        forall|x: TIA| r@.contains_key(x) <==> categories@.contains(x),
        forall|x: TIA| #[trigger] r@.contains_key(x) ==> r@[x] < categories@.len() && categories@[r@[x] as int] == x,
{
    proof {
        TIA::lemma_obeys_key_model();
    }
    let mut index: std::collections::HashMap<TIA, usize> = std::collections::HashMap::new();
    let mut j: usize = 0;
    proof {
        assert(categories@.take(0) =~= Seq::<TIA>::empty());
        assert(index@.dom() =~= categories@.take(0).to_set());
    }
    while j < categories.len()
        invariant
            j <= categories@.len(),
            vstd::std_specs::hash::obeys_key_model::<TIA>(),
            index@.dom() == categories@.take(j as int).to_set(),
            forall|x: TIA| #[trigger] index@.contains_key(x) ==> index@[x] < j && categories@[index@[x] as int] == x,
        decreases categories@.len() - j,
    {
        let c = categories[j];
        index.insert(c, j);
        proof {
            assert(categories@.take(j + 1) == categories@.take(j as int).push(c));
            categories@.take(j as int).lemma_push_to_set_commute(c);
            assert(index@.dom() =~= categories@.take(j + 1).to_set());
        }
        j = j + 1;
    }
    proof {
        assert(categories@.take(categories@.len() as int) == categories@);
        assert forall|x: TIA| index@.contains_key(x) <==> categories@.contains(x) by {
            if categories@.contains(x) {
                assert(categories@.to_set().contains(x));
            }
        }
    }
    index
}

/// Counts records by category; the last entry counts records in no category.
/// Every count saturates at the greatest value of `TOA`.
pub fn count_by_categories<TIA: HashKey + Copy, TOA: SaturatingAdd>(categories: &Vec<TIA>, data: &Vec<TIA>) -> (r: Vec<TOA>)
    requires
        categories@.no_duplicates(),
    ensures
        r@ == spec_count_by_categories::<TIA, TOA>(categories@, data@),
{
    let index = category_index(categories);
    let zero = TOA::zero();
    let one = TOA::one();
    let mut counts: Vec<TOA> = Vec::new();
    let mut k: usize = 0;
    while k < categories.len()
        invariant
            k <= categories@.len(),
            counts@.len() == k,
            zero.spec_int() == 0,
            forall|j: int| 0 <= j < k ==> (#[trigger] counts@[j]).spec_int() == 0,
        decreases categories@.len() - k,
    {
        counts.push(zero);
        k = k + 1;
    }
    let mut null_count = zero;
    let mut i: usize = 0;
    proof {
        TIA::lemma_obeys_key_model();
        TOA::lemma_range();
        assert(data@.take(0) =~= Seq::<TIA>::empty());
    }
    while i < data.len()
        invariant
            i <= data@.len(),
            vstd::std_specs::hash::obeys_key_model::<TIA>(),
            categories@.no_duplicates(),
            counts@.len() == categories@.len(),
            one.spec_int() == 1,
            forall|x: TIA| index@.contains_key(x) <==> categories@.contains(x),
            forall|x: TIA| #[trigger] index@.contains_key(x) ==> index@[x] < categories@.len() && categories@[index@[x] as int] == x,
            forall|j: int| 0 <= j < counts@.len() ==> (#[trigger] counts@[j]).spec_int() == saturate::<TOA>(
                count_of(data@.take(i as int), categories@[j]) as int,
            ),
            null_count.spec_int() == saturate::<TOA>(count_outside(data@.take(i as int), categories@) as int),
        decreases data@.len() - i,
    {
        let x = data[i];
        proof {
            assert(data@.take(i + 1) == data@.take(i as int).push(x));
            lemma_outside_push(data@.take(i as int), x, categories@);
            assert forall|j: int| 0 <= j < counts@.len() implies count_of(data@.take(i + 1), categories@[j])
                == count_of(data@.take(i as int), categories@[j]) + if x == categories@[j] { 1nat } else { 0nat } by {
                lemma_count_push(data@.take(i as int), x, categories@[j]);
            }
        }
        match index.get(&x) {
            Some(j) => {
                let j = *j;
                let c = one.saturating_add(&counts[j]);
                proof {
                    lemma_saturate_step::<TOA>(count_of(data@.take(i as int), categories@[j as int]) as int);
                    assert forall|jj: int| 0 <= jj < counts@.len() && jj != j implies x != categories@[jj] by {
                        assert(categories@[j as int] == x);
                    }
                }
                counts.set(j, c);
            },
            None => {
                proof {
                    lemma_saturate_step::<TOA>(count_outside(data@.take(i as int), categories@) as int);
                    assert forall|jj: int| 0 <= jj < counts@.len() implies x != categories@[jj] by {
                        if x == categories@[jj] {
                            assert(categories@.contains(x));
                        }
                    }
                }
                null_count = one.saturating_add(&null_count);
            },
        }
        i = i + 1;
    }
    counts.push(null_count);
    proof {
        assert(data@.take(data@.len() as int) == data@);
        let spec = spec_count_by_categories::<TIA, TOA>(categories@, data@);
        assert forall|j: int| 0 <= j < counts@.len() implies counts@[j] == spec[j] by {
            TOA::lemma_int_range(counts@[j]);
        }
        assert(counts@ =~= spec);
    }
    counts
}

/// Whether the values of `v` are distinct.
pub fn all_distinct<T: HashKey + Copy>(v: &Vec<T>) -> (r: bool)
    ensures
        r == v@.no_duplicates(),
{
    let n = count_distinct(v);
    proof {
        if n == v@.len() {
            v@.lemma_no_dup_set_cardinality();
        }
        if v@.no_duplicates() {
            v@.unique_seq_to_set();
        }
    }
    n == v.len()
}

/// A transformation that counts the records of each category; the last
/// count is of records in no category. Fails where the categories repeat.
pub fn make_count_by_categories<MO: Metric + SensitivityMetric + Default, TIA: HashKey + Copy, TOA: SaturatingAdd>(
    categories: Vec<TIA>,
) -> (r: Fallible<
    Transformation<
        VectorDomain<AllDomain<TIA>>,
        VectorDomain<AllDomain<TOA>>,
        SymmetricDistance,
        MO,
        CountByCategoriesFunction<TIA, TOA>,
        LinearRelation<IntDistance, MO::Distance>,
    >,
>)
    where MO::Distance: Distance,
    ensures
        r.is_ok() <==> categories@.no_duplicates(),
        r matches Ok(t) ==> t.function.spec_categories() == categories@
            && t.stability_relation.spec_c_num() == 1 && t.stability_relation.spec_c_den() == 1,
        r matches Err(e) ==> e.variant == ErrorVariant::MakeTransformation,
{
    if !all_distinct(&categories) {
        return Err(Error::with_message(ErrorVariant::MakeTransformation, "categories must be distinct"));
    }
    Ok(
        Transformation::new(
            VectorDomain::new_all(),
            VectorDomain::new_all(),
            CountByCategoriesFunction { categories, _marker: std::marker::PhantomData },
            SymmetricDistance,
            MO::default(),
            LinearRelation::new_from_ratio(1, 1),
        ),
    )
}

/// The counts of the distinct values of `data`, each saturated at the
/// greatest value of `TO`.
pub open spec fn spec_count_by<TI, TO: IntValue>(data: Seq<TI>) -> Map<TI, TO> {
    Map::new(|k: TI| data.contains(k), |k: TI| saturated::<TO>(count_of(data, k) as int))
}

/// A value occurs in a sequence exactly when its count is positive.
proof fn lemma_count_contains<T>(s: Seq<T>, x: T)
    ensures
        s.contains(x) <==> count_of(s, x) > 0,
    decreases s.len(),
{
    if s.len() > 0 {
        lemma_count_contains(s.drop_last(), x);
        if s.drop_last().contains(x) {
            let i = choose|i: int| 0 <= i < s.drop_last().len() && s.drop_last()[i] == x;
            assert(s[i] == x);
        }
        if s.contains(x) && s.last() != x {
            let i = choose|i: int| 0 <= i < s.len() && s[i] == x;
            assert(i != s.len() - 1);
            assert(s.drop_last()[i] == x);
        }
    }
}

/// Counts the occurrences of each distinct value; counts saturate at the
/// greatest value of `TO`.
pub fn count_by<TI: HashKey + Copy, TO: SaturatingAdd>(data: &Vec<TI>) -> (r: std::collections::HashMap<TI, TO>)
    ensures
        r@ == spec_count_by::<TI, TO>(data@),
{
    proof {
        TI::lemma_obeys_key_model();
        TO::lemma_range();
        assert(data@.take(0) =~= Seq::<TI>::empty());
    }
    let zero = TO::zero();
    let one = TO::one();
    let mut counts: std::collections::HashMap<TI, TO> = std::collections::HashMap::new();
    let mut i: usize = 0;
    while i < data.len()
        invariant
            i <= data@.len(),
            vstd::std_specs::hash::obeys_key_model::<TI>(),
            zero.spec_int() == 0,
            one.spec_int() == 1,
            counts@ == spec_count_by::<TI, TO>(data@.take(i as int)),
        decreases data@.len() - i,
    {
        let x = data[i];
        let ghost before = data@.take(i as int);
        proof {
            assert(data@.take(i + 1) == before.push(x));
            lemma_count_push(before, x, x);
            lemma_count_contains(before, x);
            lemma_saturate_step::<TO>(count_of(before, x) as int);
            TO::lemma_range();
            TO::lemma_from_int(saturate::<TO>(count_of(before, x) as int));
            TO::lemma_from_int(saturate::<TO>(count_of(before, x) as int + 1));
        }
        let c = match counts.get(&x) {
            Some(c) => one.saturating_add(c),
            None => one.saturating_add(&zero),
        };
        counts.insert(x, c);
        proof {
            let after = data@.take(i + 1);
            TO::lemma_int_range(c);
            assert(c.spec_int() == saturate::<TO>(count_of(after, x) as int));
            assert(c == saturated::<TO>(count_of(after, x) as int));
            assert forall|k: TI| #[trigger] after.contains(k) <==> (before.contains(k) || k == x) by {
                if after.contains(k) && k != x {
                    let j = choose|j: int| 0 <= j < after.len() && after[j] == k;
                    assert(before[j] == k);
                }
                if before.contains(k) {
                    let j = choose|j: int| 0 <= j < before.len() && before[j] == k;
                    assert(after[j] == k);
                }
                if k == x {
                    assert(after[i as int] == x);
                }
            }
            assert forall|k: TI| k != x implies count_of(after, k) == count_of(before, k) by {
                lemma_count_push(before, x, k);
            }
            assert(counts@ =~= spec_count_by::<TI, TO>(after));
        }
        i = i + 1;
    }
    proof {
        assert(data@.take(data@.len() as int) == data@);
    }
    counts
}

/// Counts the occurrences of each distinct value of a vector.
pub struct CountByFunction<TI, TO> {
    pub _marker: std::marker::PhantomData<(TI, TO)>,
}

impl<TI: HashKey + Copy, TO: SaturatingAdd> Function for CountByFunction<TI, TO> {
    type Input = Vec<TI>;
    type Output = std::collections::HashMap<TI, TO>;

    open spec fn spec_eval(&self, arg: Seq<TI>) -> Option<Map<TI, TO>> {
        Some(spec_count_by::<TI, TO>(arg))
    }

    fn eval(&self, arg: &Vec<TI>) -> (r: Fallible<std::collections::HashMap<TI, TO>>) {
        let counts = count_by::<TI, TO>(arg);
        proof {
            lemma_vec_deep_view_identity(*arg);
            let f = |k: TI| k.deep_view();
            assert(vstd::relations::injective(f)) by {
                assert forall|a: TI, b: TI| #[trigger] f(a) == #[trigger] f(b) implies a == b by {
                    TI::lemma_deep_view_identity(a);
                    TI::lemma_deep_view_identity(b);
                }
            }
            vstd::std_specs::hash::lemma_hashmap_deepview_properties(counts);
            vstd::std_specs::hash::lemma_hashmap_deepview_dom(counts);
            assert forall|k: TI| #[trigger] counts.deep_view().contains_key(k) <==> counts@.contains_key(k) by {
                TI::lemma_deep_view_identity(k);
                if counts.deep_view().contains_key(k) {
                    let k2 = choose|k2: TI| k2.deep_view() == k && #[trigger] counts@.contains_key(k2);
                    TI::lemma_deep_view_identity(k2);
                }
            }
            assert forall|k: TI| #[trigger] counts@.contains_key(k) implies counts.deep_view()[k] == counts@[k] by {
                TI::lemma_deep_view_identity(k);
                TO::lemma_deep_view_identity(counts@[k]);
            }
            assert(counts.deep_view() =~= counts@);
        }
        Ok(counts)
    }
}

/// A transformation that counts the occurrences of each distinct value of
/// a dataset of known size. Each count saturates at the greatest value of `TO`.
pub fn make_sized_count_by<MO: Metric + SensitivityMetric + Default, TI: HashKey + Copy, TO: SaturatingAdd>(size: usize) -> (r: Fallible<
    Transformation<
        crate::dom::SizedDomain<VectorDomain<AllDomain<TI>>>,
        crate::dom::SizedDomain<crate::dom::MapDomain<AllDomain<TI>, AllDomain<TO>>>,
        SymmetricDistance,
        MO,
        CountByFunction<TI, TO>,
        LinearRelation<IntDistance, MO::Distance>,
    >,
>)
    where MO::Distance: Distance,
    ensures
        r matches Ok(t) ==> t.input_domain.length == size && t.output_domain.length == size
            && t.stability_relation.spec_c_num() == 1 && t.stability_relation.spec_c_den() == 1,
        r.is_ok(),
{
    Ok(
        Transformation::new(
            crate::dom::SizedDomain::new(VectorDomain::new_all(), size),
            crate::dom::SizedDomain::new(crate::dom::MapDomain::new_all(), size),
            CountByFunction { _marker: std::marker::PhantomData },
            SymmetricDistance,
            MO::default(),
            LinearRelation::new_from_ratio(1, 1),
        ),
    )
}

/// The number of elements of `s` that fall in the first `k` categories.
pub open spec fn spec_count_in_first<T>(s: Seq<T>, cats: Seq<T>, k: int) -> int
    decreases k,
{
    if k <= 0 {
        0
    } else {
        spec_count_in_first(s, cats, k - 1) + count_of(s, cats[k - 1]) as int
    }
}

/// Pushing an element adds one to the category sum where it is among the
/// first `k` distinct categories.
proof fn lemma_count_in_first_push<T>(s: Seq<T>, x: T, cats: Seq<T>, k: int)
    requires
        0 <= k <= cats.len(),
        cats.no_duplicates(),
    ensures
        spec_count_in_first(s.push(x), cats, k) == spec_count_in_first(s, cats, k) + if cats.take(k).contains(x) {
            1int
        } else {
            0int
        },
    decreases k,
{
    if k > 0 {
        lemma_count_in_first_push(s, x, cats, k - 1);
        lemma_count_push(s, x, cats[k - 1]);
        let t0 = cats.take(k - 1);
        let t1 = cats.take(k);
        if t0.contains(x) {
            let i = choose|i: int| 0 <= i < t0.len() && t0[i] == x;
            assert(t1[i] == x);
            if x == cats[k - 1] {
                assert(cats[i] == cats[k - 1]);
            }
        }
        if t1.contains(x) && x != cats[k - 1] {
            let i = choose|i: int| 0 <= i < t1.len() && t1[i] == x;
            assert(i != k - 1);
            assert(t0[i] == x);
        }
        if x == cats[k - 1] {
            assert(t1[k - 1] == x);
        }
    }
}

/// Counting by distinct categories partitions the data: the counts of the
/// categories and the count of records in none of them add up to the
/// number of records.
pub proof fn lemma_count_by_categories_partition<T>(data: Seq<T>, cats: Seq<T>)
    requires
        cats.no_duplicates(),
    ensures
        spec_count_in_first(data, cats, cats.len() as int) + count_outside(data, cats) == data.len(),
    decreases data.len(),
{
    if data.len() > 0 {
        let s = data.drop_last();
        let x = data.last();
        assert(s.push(x) == data);
        lemma_count_by_categories_partition(s, cats);
        lemma_count_in_first_push(s, x, cats, cats.len() as int);
        lemma_outside_push(s, x, cats);
        assert(cats.take(cats.len() as int) == cats);
    } else {
        assert forall|k: int| 0 <= k <= cats.len() implies spec_count_in_first(data, cats, k) == 0 by {
            lemma_count_in_first_empty(data, cats, k);
        }
    }
}

proof fn lemma_count_in_first_empty<T>(data: Seq<T>, cats: Seq<T>, k: int)
    requires
        data.len() == 0,
    ensures
        spec_count_in_first(data, cats, k) == 0,
    decreases k,
{
    if k > 0 {
        lemma_count_in_first_empty(data, cats, k - 1);
    }
}


/// Law: counting is additive over concatenation, counts one for a single
/// matching record and none for another, and never exceeds the number of
/// records.
pub proof fn lemma_count_of_additive<T>(s: Seq<T>, t: Seq<T>, x: T, y: T)
    ensures
        count_of(s + t, x) == count_of(s, x) + count_of(t, x),
        count_of(seq![y], x) == if y == x { 1nat } else { 0nat },
        count_of(s, x) <= s.len(),
    decreases t.len(),
{
    assert(seq![y].drop_last() =~= Seq::<T>::empty());
    assert(count_of(Seq::<T>::empty(), x) == 0);
    assert(seq![y].last() == y);
    assert(count_of(seq![y], x) == count_of(seq![y].drop_last(), x) + if y == x { 1nat } else { 0nat });
    if t.len() > 0 {
        lemma_count_of_additive(s, t.drop_last(), x, y);
        assert((s + t).drop_last() =~= s + t.drop_last());
    } else {
        assert(s + t =~= s);
    }
    lemma_count_at_most_len(s, x);
}

/// A count never exceeds the number of records.
proof fn lemma_count_at_most_len<T>(s: Seq<T>, x: T)
    ensures
        count_of(s, x) <= s.len(),
    decreases s.len(),
{
    if s.len() > 0 {
        lemma_count_at_most_len(s.drop_last(), x);
    }
}

} // verus!
