//! Queries with smooth sensitivity on sorted data: the median, the minimum
//! and the maximum, with their local sensitivities at distance `k`.
use vstd::prelude::*;
use crate::error::Fallible;
use crate::traits::{IntValue, TotalOrd};

verus! {

/// Compares two values; incomparable values compare equal.
pub fn partial_max<T: TotalOrd>(x: &T, y: &T) -> (r: std::cmp::Ordering)
    ensures
        (r == std::cmp::Ordering::Less) <==> !y.spec_total_le(*x),
        (r == std::cmp::Ordering::Greater) <==> !x.spec_total_le(*y),
        (r == std::cmp::Ordering::Equal) <==> (x.spec_total_le(*y) && y.spec_total_le(*x)),
{
    proof {
        T::lemma_total_order(*x, *y, *x);
    }
    if !y.total_le(x) {
        std::cmp::Ordering::Less
    } else if !x.total_le(y) {
        std::cmp::Ordering::Greater
    } else {
        std::cmp::Ordering::Equal
    }
}

/// Compares two results: an error is greater than any value, and values
/// compare as by `partial_max`.
pub fn fallible_max<T: TotalOrd>(x: &Fallible<T>, y: &Fallible<T>) -> (r: std::cmp::Ordering)
    ensures
        x.is_err() ==> r == std::cmp::Ordering::Greater,
        (x.is_ok() && y.is_err()) ==> r == std::cmp::Ordering::Less,
        (x.is_ok() && y.is_ok()) ==> ((r == std::cmp::Ordering::Less) <==> !y.unwrap().spec_total_le(x.unwrap())),
        (x.is_ok() && y.is_ok()) ==> ((r == std::cmp::Ordering::Greater) <==> !x.unwrap().spec_total_le(y.unwrap())),
{
    let a = match x {
        Ok(a) => a,
        Err(_) => return std::cmp::Ordering::Greater,
    };
    let b = match y {
        Ok(b) => b,
        Err(_) => return std::cmp::Ordering::Less,
    };
    partial_max(a, b)
}

/// `a - b` as a value of the type.
fn sub_atom<T: IntValue>(a: &T, b: &T) -> (r: T)
    requires
        T::spec_min() <= a.spec_int() - b.spec_int() <= T::spec_max(),
    ensures
        r.spec_int() == a.spec_int() - b.spec_int(),
{
    proof {
        T::lemma_int_range(*a);
        T::lemma_int_range(*b);
    }
    T::from_i128(a.to_i128() - b.to_i128())
}

/// The larger of two integers.
pub open spec fn spec_max_int(a: int, b: int) -> int {
    if a > b {
        a
    } else {
        b
    }
}

/// A query on sorted data whose local sensitivity at distance `k` is known.
pub trait SmoothSensitivityQuery {
    type Atom: IntValue;

    /// The inputs on which `compute` is defined.
    spec fn spec_compute_pre(sorted_data: Seq<Self::Atom>) -> bool;

    /// The query's value.
    spec fn spec_compute(sorted_data: Seq<Self::Atom>) -> Self::Atom;

    /// The inputs on which `a_k` is defined.
    spec fn spec_a_k_pre(sorted_data: Seq<Self::Atom>, bounds: (Self::Atom, Self::Atom), k: int) -> bool;

    /// The local sensitivity where up to `k` records may change.
    spec fn spec_a_k(sorted_data: Seq<Self::Atom>, bounds: (Self::Atom, Self::Atom), k: int) -> int;

    fn compute(sorted_data: &Vec<Self::Atom>) -> (r: Self::Atom)
        requires
            Self::spec_compute_pre(sorted_data@),
        ensures
            r == Self::spec_compute(sorted_data@),
    ;

    fn a_k(sorted_data: &Vec<Self::Atom>, bounds: &(Self::Atom, Self::Atom), k: usize) -> (r: Self::Atom)
        requires
            Self::spec_a_k_pre(sorted_data@, *bounds, k as int),
        ensures
            r.spec_int() == Self::spec_a_k(sorted_data@, *bounds, k as int),
    ;
}

/// The median, taken at index `(n + 1) / 2`.
pub struct Median<T>(pub std::marker::PhantomData<T>);

/// The minimum.
pub struct Minimum<T>(pub std::marker::PhantomData<T>);

/// The maximum.
pub struct Maximum<T>(pub std::marker::PhantomData<T>);

/// For the median at `m`, the gap between the value `t` places above it and
/// the value `k + 1` places below that, reading the bounds past either end.
pub open spec fn spec_median_gap<T: IntValue>(s: Seq<T>, bounds: (T, T), k: int, t: int) -> int {
    let m = (s.len() + 1) / 2;
    let l = if m + t < k + 1 {
        bounds.0.spec_int()
    } else {
        s[m + t - k - 1].spec_int()
    };
    let u = if m + t >= s.len() {
        bounds.1.spec_int()
    } else {
        s[m + t].spec_int()
    };
    u - l
}

/// The largest median gap for `t` from 0 to `j`.
pub open spec fn spec_median_max_gap<T: IntValue>(s: Seq<T>, bounds: (T, T), k: int, j: int) -> int
    decreases j,
{
    if j <= 0 {
        spec_median_gap(s, bounds, k, 0)
    } else {
        spec_max_int(spec_median_max_gap(s, bounds, k, j - 1), spec_median_gap(s, bounds, k, j))
    }
}

impl<T: IntValue> SmoothSensitivityQuery for Median<T> {
    type Atom = T;

    open spec fn spec_compute_pre(sorted_data: Seq<T>) -> bool {
        &&& sorted_data.len() < usize::MAX
        &&& (sorted_data.len() + 1) / 2 < sorted_data.len()
    }

    open spec fn spec_compute(sorted_data: Seq<T>) -> T {
        sorted_data[((sorted_data.len() + 1) / 2) as int]
    }

    open spec fn spec_a_k_pre(sorted_data: Seq<T>, bounds: (T, T), k: int) -> bool {
        &&& sorted_data.len() < usize::MAX
        &&& (sorted_data.len() + 1) / 2 + k < usize::MAX
        &&& forall|t: int| 0 <= t <= k ==> T::spec_min() <= #[trigger] spec_median_gap(sorted_data, bounds, k, t) <= T::spec_max()
    }

    open spec fn spec_a_k(sorted_data: Seq<T>, bounds: (T, T), k: int) -> int {
        spec_median_max_gap(sorted_data, bounds, k, k)
    }

    fn compute(sorted_data: &Vec<T>) -> (r: T) {
        sorted_data[(sorted_data.len() + 1) / 2]
    }

    fn a_k(sorted_data: &Vec<T>, bounds: &(T, T), k: usize) -> (r: T) {
        let n = sorted_data.len();
        let m = (n + 1) / 2;
        let ghost s = sorted_data@;
        let mut best: T = bounds.0;
        let mut t: usize = 0;
        while t <= k
            invariant
                n == s.len() < usize::MAX,
                m == (n + 1) / 2,
                m + k < usize::MAX,
                s == sorted_data@,
                t <= k + 1,
                forall|j: int| 0 <= j <= k ==> T::spec_min() <= #[trigger] spec_median_gap(s, *bounds, k as int, j) <= T::spec_max(),
                t > 0 ==> best.spec_int() == spec_median_max_gap(s, *bounds, k as int, t - 1),
            decreases k + 1 - t,
        {
            let l = if m + t < k + 1 {
                bounds.0
            } else {
                sorted_data[m + t - k - 1]
            };
            let u = if m + t >= n {
                bounds.1
            } else {
                sorted_data[m + t]
            };
            proof {
                assert(T::spec_min() <= spec_median_gap(s, *bounds, k as int, t as int) <= T::spec_max());
            }
            let gap = sub_atom(&u, &l);
            if t == 0 || best.to_i128() < gap.to_i128() {
                best = gap;
            }
            t = t + 1;
        }
        best
    }
}

impl<T: IntValue> SmoothSensitivityQuery for Minimum<T> {
    type Atom = T;

    open spec fn spec_compute_pre(sorted_data: Seq<T>) -> bool {
        sorted_data.len() >= 1
    }

    open spec fn spec_compute(sorted_data: Seq<T>) -> T {
        sorted_data[0]
    }

    open spec fn spec_a_k_pre(sorted_data: Seq<T>, bounds: (T, T), k: int) -> bool {
        let n = sorted_data.len();
        &&& 0 <= k < n
        &&& T::spec_min() <= sorted_data[k].spec_int() - bounds.0.spec_int() <= T::spec_max()
        &&& T::spec_min() <= (if k + 1 == n { bounds.1 } else { sorted_data[k + 1] }).spec_int() - sorted_data[0].spec_int() <= T::spec_max()
    }

    open spec fn spec_a_k(sorted_data: Seq<T>, bounds: (T, T), k: int) -> int {
        let n = sorted_data.len();
        spec_max_int(
            sorted_data[k].spec_int() - bounds.0.spec_int(),
            (if k + 1 == n { bounds.1 } else { sorted_data[k + 1] }).spec_int() - sorted_data[0].spec_int(),
        )
    }

    fn compute(sorted_data: &Vec<T>) -> (r: T) {
        sorted_data[0]
    }

    fn a_k(sorted_data: &Vec<T>, bounds: &(T, T), k: usize) -> (r: T) {
        let n = sorted_data.len();
        let t1 = sub_atom(&sorted_data[k], &bounds.0);
        let next = if k + 1 == n {
            bounds.1
        } else {
            sorted_data[k + 1]
        };
        let t2 = sub_atom(&next, &sorted_data[0]);
        if t1.to_i128() > t2.to_i128() {
            t1
        } else {
            t2
        }
    }
}

impl<T: IntValue> SmoothSensitivityQuery for Maximum<T> {
    type Atom = T;

    open spec fn spec_compute_pre(sorted_data: Seq<T>) -> bool {
        sorted_data.len() >= 1
    }

    open spec fn spec_compute(sorted_data: Seq<T>) -> T {
        sorted_data[sorted_data.len() - 1]
    }

    open spec fn spec_a_k_pre(sorted_data: Seq<T>, bounds: (T, T), k: int) -> bool {
        let n = sorted_data.len();
        &&& 0 <= k < n
        &&& T::spec_min() <= bounds.1.spec_int() - sorted_data[n - k - 1].spec_int() <= T::spec_max()
        &&& T::spec_min() <= (if k + 1 == n { bounds.0 } else { sorted_data[n - k - 2] }).spec_int() - sorted_data[n - 1].spec_int() <= T::spec_max()
    }

    open spec fn spec_a_k(sorted_data: Seq<T>, bounds: (T, T), k: int) -> int {
        let n = sorted_data.len();
        spec_max_int(
            bounds.1.spec_int() - sorted_data[n - k - 1].spec_int(),
            (if k + 1 == n { bounds.0 } else { sorted_data[n - k - 2] }).spec_int() - sorted_data[n - 1].spec_int(),
        )
    }

    fn compute(sorted_data: &Vec<T>) -> (r: T) {
        sorted_data[sorted_data.len() - 1]
    }

    fn a_k(sorted_data: &Vec<T>, bounds: &(T, T), k: usize) -> (r: T) {
        let n = sorted_data.len();
        let t1 = sub_atom(&bounds.1, &sorted_data[n - k - 1]);
        let next = if k + 1 == n {
            bounds.0
        } else {
            sorted_data[n - k - 2]
        };
        let t2 = sub_atom(&next, &sorted_data[n - 1]);
        if t1.to_i128() > t2.to_i128() {
            t1
        } else {
            t2
        }
    }
}

/// `s` is in ascending order.
pub open spec fn spec_sorted<T: IntValue>(s: Seq<T>) -> bool {
    forall|i: int, j: int| 0 <= i <= j < s.len() ==> s[i].spec_int() <= s[j].spec_int()
}

/// The number of records of `s` at or below `v`.
pub open spec fn spec_count_at_most<T: IntValue>(s: Seq<T>, v: int) -> nat
    decreases s.len(),
{
    if s.len() == 0 {
        0
    } else {
        spec_count_at_most(s.drop_last(), v) + if s.last().spec_int() <= v {
            1nat
        } else {
            0nat
        }
    }
}

/// The number of records of `s` at or above `v`.
pub open spec fn spec_count_at_least<T: IntValue>(s: Seq<T>, v: int) -> nat
    decreases s.len(),
{
    if s.len() == 0 {
        0
    } else {
        spec_count_at_least(s.drop_last(), v) + if v <= s.last().spec_int() {
            1nat
        } else {
            0nat
        }
    }
}

/// Where the records at indices `lo..hi` are at or below `v`, at least
/// `hi - lo` records are.
proof fn lemma_count_at_most_range<T: IntValue>(s: Seq<T>, v: int, lo: int, hi: int)
    requires
        0 <= lo <= hi <= s.len(),
        forall|i: int| lo <= i < hi ==> (#[trigger] s[i]).spec_int() <= v,
    ensures
        spec_count_at_most(s, v) >= hi - lo,
    decreases s.len(),
{
    if s.len() > 0 {
        let d = s.drop_last();
        let h = if hi == s.len() { hi - 1 } else { hi };
        if lo <= h {
            assert forall|i: int| lo <= i < h implies (#[trigger] d[i]).spec_int() <= v by {
                assert(d[i] == s[i]);
            }
            lemma_count_at_most_range(d, v, lo, h);
        }
    }
}

/// Where the records at indices `lo..hi` are at or above `v`, at least
/// `hi - lo` records are.
proof fn lemma_count_at_least_range<T: IntValue>(s: Seq<T>, v: int, lo: int, hi: int)
    requires
        0 <= lo <= hi <= s.len(),
        forall|i: int| lo <= i < hi ==> v <= (#[trigger] s[i]).spec_int(),
    ensures
        spec_count_at_least(s, v) >= hi - lo,
    decreases s.len(),
{
    if s.len() > 0 {
        let d = s.drop_last();
        let h = if hi == s.len() { hi - 1 } else { hi };
        if lo <= h {
            assert forall|i: int| lo <= i < h implies v <= (#[trigger] d[i]).spec_int() by {
                assert(d[i] == s[i]);
            }
            lemma_count_at_least_range(d, v, lo, h);
        }
    }
}

/// Law: the median of sorted data is one of its records and has rank
/// `(n + 1) / 2` counted from zero: at least `(n + 1) / 2 + 1` records, more
/// than half, lie at or below it, and at least `n - (n + 1) / 2`, half
/// rounded down, at or above it.
pub proof fn lemma_median_rank<T: IntValue>(s: Seq<T>)
    requires
        Median::<T>::spec_compute_pre(s),
        spec_sorted(s),
    ensures
        s.contains(Median::<T>::spec_compute(s)),
        spec_count_at_most(s, Median::<T>::spec_compute(s).spec_int()) >= (s.len() + 1) / 2 + 1,
        spec_count_at_most(s, Median::<T>::spec_compute(s).spec_int()) * 2 > s.len(),
        spec_count_at_least(s, Median::<T>::spec_compute(s).spec_int()) >= s.len() - (s.len() + 1) / 2,
        spec_count_at_least(s, Median::<T>::spec_compute(s).spec_int()) * 2 >= s.len() - 1,
{
    let n = s.len() as int;
    let m = (n + 1) / 2;
    let v = Median::<T>::spec_compute(s);
    assert(s[m] == v);
    assert forall|i: int| 0 <= i < m + 1 implies (#[trigger] s[i]).spec_int() <= v.spec_int() by {
        assert(s[i].spec_int() <= s[m].spec_int());
    }
    lemma_count_at_most_range(s, v.spec_int(), 0, m + 1);
    assert forall|i: int| m <= i < n implies v.spec_int() <= (#[trigger] s[i]).spec_int() by {
        assert(s[m].spec_int() <= s[i].spec_int());
    }
    lemma_count_at_least_range(s, v.spec_int(), m, n);
}

/// The largest median gap up to `j` is at least each gap up to `j` and equal
/// to one of them.
proof fn lemma_median_max_gap<T: IntValue>(s: Seq<T>, bounds: (T, T), k: int, j: int)
    requires
        j >= 0,
    ensures
        forall|t: int| 0 <= t <= j ==> #[trigger] spec_median_gap(s, bounds, k, t) <= spec_median_max_gap(s, bounds, k, j),
        exists|t: int| 0 <= t <= j && spec_median_gap(s, bounds, k, t) == spec_median_max_gap(s, bounds, k, j),
    decreases j,
{
    if j > 0 {
        lemma_median_max_gap(s, bounds, k, j - 1);
        let t0 = choose|t: int| 0 <= t <= j - 1 && spec_median_gap(s, bounds, k, t) == spec_median_max_gap(s, bounds, k, j - 1);
        if spec_median_max_gap(s, bounds, k, j) == spec_median_gap(s, bounds, k, j) {
            assert(0 <= j <= j);
        } else {
            assert(spec_median_gap(s, bounds, k, t0) == spec_median_max_gap(s, bounds, k, j));
        }
    } else {
        assert(spec_median_gap(s, bounds, k, 0) == spec_median_max_gap(s, bounds, k, 0));
    }
}

/// Law: the local sensitivity of the median at distance `k` is the largest
/// of the `k + 1` gaps, one for each shift `t` from 0 to `k`, between the
/// value `t` places above the median and the one `k + 1` places below it: it
/// is at least every one of them and equal to one of them.
pub proof fn lemma_median_a_k<T: IntValue>(s: Seq<T>, bounds: (T, T), k: int)
    requires
        k >= 0,
    ensures
        forall|t: int| 0 <= t <= k ==> #[trigger] spec_median_gap(s, bounds, k, t) <= Median::<T>::spec_a_k(s, bounds, k),
        exists|t: int| 0 <= t <= k && spec_median_gap(s, bounds, k, t) == Median::<T>::spec_a_k(s, bounds, k),
{
    lemma_median_max_gap(s, bounds, k, k);
}

/// Law: the minimum of sorted data is one of its records and at or below
/// every record.
pub proof fn lemma_minimum_least<T: IntValue>(s: Seq<T>)
    requires
        Minimum::<T>::spec_compute_pre(s),
        spec_sorted(s),
    ensures
        s.contains(Minimum::<T>::spec_compute(s)),
        forall|i: int| 0 <= i < s.len() ==> Minimum::<T>::spec_compute(s).spec_int() <= (#[trigger] s[i]).spec_int(),
{
    assert(s[0] == Minimum::<T>::spec_compute(s));
}

/// Law: the maximum of sorted data is one of its records and at or above
/// every record.
pub proof fn lemma_maximum_greatest<T: IntValue>(s: Seq<T>)
    requires
        Maximum::<T>::spec_compute_pre(s),
        spec_sorted(s),
    ensures
        s.contains(Maximum::<T>::spec_compute(s)),
        forall|i: int| 0 <= i < s.len() ==> (#[trigger] s[i]).spec_int() <= Maximum::<T>::spec_compute(s).spec_int(),
{
    assert(s[s.len() - 1] == Maximum::<T>::spec_compute(s));
}

/// Law: the local sensitivity of the minimum at distance `k` is the larger
/// of two changes: moving the `k + 1` smallest records down to the lower
/// bound, which leaves the `(k + 1)`th smallest as the distance, and moving
/// the smallest up, past the next record (or to the upper bound where none
/// is left). It is at least each and equal to one, so it is never negative
/// for data within the bounds.
pub proof fn lemma_minimum_a_k<T: IntValue>(s: Seq<T>, bounds: (T, T), k: int)
    requires
        0 <= k < s.len(),
    ensures
        Minimum::<T>::spec_a_k(s, bounds, k) >= s[k].spec_int() - bounds.0.spec_int(),
        Minimum::<T>::spec_a_k(s, bounds, k) >= (if k + 1 == s.len() { bounds.1 } else { s[k + 1] }).spec_int()
            - s[0].spec_int(),
        Minimum::<T>::spec_a_k(s, bounds, k) == s[k].spec_int() - bounds.0.spec_int()
            || Minimum::<T>::spec_a_k(s, bounds, k) == (if k + 1 == s.len() { bounds.1 } else { s[k + 1] }).spec_int()
            - s[0].spec_int(),
        bounds.0.spec_int() <= s[k].spec_int() ==> Minimum::<T>::spec_a_k(s, bounds, k) >= 0,
{
}

/// Law: the local sensitivity of the maximum at distance `k` is the larger
/// of two changes: moving the `k + 1` largest records up to the upper bound,
/// measured from the `(k + 1)`th largest, and moving the largest down, to the
/// next record (or to the lower bound where none is left). It is at least
/// each and equal to one, so it is never negative for data within the
/// bounds.
pub proof fn lemma_maximum_a_k<T: IntValue>(s: Seq<T>, bounds: (T, T), k: int)
    requires
        0 <= k < s.len(),
    ensures
        Maximum::<T>::spec_a_k(s, bounds, k) >= bounds.1.spec_int() - s[s.len() - k - 1].spec_int(),
        Maximum::<T>::spec_a_k(s, bounds, k) >= (if k + 1 == s.len() { bounds.0 } else { s[s.len() - k - 2] }).spec_int()
            - s[s.len() - 1].spec_int(),
        Maximum::<T>::spec_a_k(s, bounds, k) == bounds.1.spec_int() - s[s.len() - k - 1].spec_int()
            || Maximum::<T>::spec_a_k(s, bounds, k) == (if k + 1 == s.len() { bounds.0 } else { s[s.len() - k
            - 2] }).spec_int() - s[s.len() - 1].spec_int(),
        s[s.len() - k - 1].spec_int() <= bounds.1.spec_int() ==> Maximum::<T>::spec_a_k(s, bounds, k) >= 0,
{
}

} // verus!
