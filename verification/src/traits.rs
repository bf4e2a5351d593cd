//! Numeric traits that the library's algorithms are generic over.
use vstd::prelude::*;

verus! {

/// `a_n / a_d <= b_n / b_d`, for positive denominators.
pub open spec fn q_le(a_n: int, a_d: int, b_n: int, b_d: int) -> bool {
    a_n * b_d <= b_n * a_d
}

/// The least integer at or above `n / d`, for a positive `d`.
pub open spec fn ceil_div(n: int, d: int) -> int {
    if n % d == 0 {
        n / d
    } else {
        n / d + 1
    }
}

/// The greatest integer at or below `n / d`, for a positive `d`.
pub open spec fn floor_div(n: int, d: int) -> int {
    n / d
}

/// A total order, read off as a spec relation.
pub trait TotalOrd: Sized + Copy {
    /// `self <= other`.
    spec fn spec_total_le(self, other: Self) -> bool;

    /// Decides `self <= other`.
    fn total_le(&self, other: &Self) -> (r: bool)
        ensures
            r == self.spec_total_le(*other),
    ;

    /// The order is total, reflexive, transitive and antisymmetric.
    proof fn lemma_total_order(a: Self, b: Self, c: Self)
        ensures
            a.spec_total_le(a),
            a.spec_total_le(b) || b.spec_total_le(a),
            (a.spec_total_le(b) && b.spec_total_le(c)) ==> a.spec_total_le(c),
            (a.spec_total_le(b) && b.spec_total_le(a)) ==> a == b,
    ;
}

/// `v` clamped into `[lower, upper]`.
pub open spec fn spec_clamp<T: TotalOrd>(v: T, lower: T, upper: T) -> T {
    if !lower.spec_total_le(v) {
        lower
    } else if !v.spec_total_le(upper) {
        upper
    } else {
        v
    }
}

/// Clamps `v` into `[lower, upper]`.
pub fn total_clamp<T: TotalOrd>(v: T, lower: T, upper: T) -> (r: T)
    requires
        lower.spec_total_le(upper),
    ensures
        r == spec_clamp(v, lower, upper),
        lower.spec_total_le(r) && r.spec_total_le(upper),
        (lower.spec_total_le(v) && v.spec_total_le(upper)) ==> r == v,
{
    proof {
        T::lemma_total_order(lower, v, upper);
        T::lemma_total_order(v, upper, lower);
        T::lemma_total_order(v, lower, upper);
        T::lemma_total_order(upper, lower, v);
    }
    if !lower.total_le(&v) {
        lower
    } else if !v.total_le(&upper) {
        upper
    } else {
        v
    }
}

/// Absolute value that saturates instead of overflowing.
pub trait Abs: Sized {
    spec fn spec_abs(self) -> Self;

    fn abs(self) -> (r: Self)
        ensures
            r == self.spec_abs(),
    ;
}

/// Addition that saturates at the type's bounds.
pub trait SaturatingAdd: IntValue {
    fn saturating_add(&self, other: &Self) -> (r: Self)
        ensures
            r.spec_int() == saturate::<Self>(self.spec_int() + other.spec_int()),
    ;
}

/// The value of an integer type, as a mathematical integer.
pub trait IntValue: HashKey + Copy {
    spec fn spec_int(self) -> int;
    spec fn spec_min() -> int;
    spec fn spec_max() -> int;
    spec fn spec_from_int(v: int) -> Self;

    /// The zero of the type.
    fn zero() -> (r: Self)
        ensures
            r.spec_int() == 0,
    ;

    /// The one of the type.
    fn one() -> (r: Self)
        ensures
            r.spec_int() == 1,
    ;

    /// The integer is in the type's range, and the range holds 0 and 1.
    proof fn lemma_int_range(v: Self)
        ensures
            Self::spec_min() <= v.spec_int() <= Self::spec_max(),
            Self::spec_min() <= 0,
            Self::spec_max() >= 1,
            Self::spec_min() >= -0x1_0000_0000_0000_0000,
            Self::spec_max() <= 0x1_0000_0000_0000_0000,
            Self::spec_from_int(v.spec_int()) == v,
    ;

    /// The value as an `i128`.
    fn to_i128(&self) -> (r: i128)
        ensures
            r == self.spec_int(),
    ;

    /// The in-range integer `v` as a value of the type.
    fn from_i128(v: i128) -> (r: Self)
        requires
            Self::spec_min() <= v <= Self::spec_max(),
        ensures
            r.spec_int() == v,
    ;

    /// The range holds 0 and 1, and lies within 64 bits of magnitude.
    proof fn lemma_range()
        ensures
            Self::spec_min() <= 0,
            Self::spec_max() >= 1,
            Self::spec_min() >= -0x1_0000_0000_0000_0000,
            Self::spec_max() <= 0x1_0000_0000_0000_0000,
    ;

    /// The least value of the type.
    fn min_value() -> (r: Self)
        ensures
            r.spec_int() == Self::spec_min(),
    ;

    /// The greatest value of the type.
    fn max_value() -> (r: Self)
        ensures
            r.spec_int() == Self::spec_max(),
    ;

    /// Converting an in-range integer and reading it back gives it.
    proof fn lemma_from_int(i: int)
        requires
            Self::spec_min() <= i <= Self::spec_max(),
        ensures
            Self::spec_from_int(i).spec_int() == i,
    ;
}

/// `n` saturated into the range of `T`.
pub open spec fn saturate<T: IntValue>(n: int) -> int {
    if n > T::spec_max() {
        T::spec_max()
    } else if n < T::spec_min() {
        T::spec_min()
    } else {
        n
    }
}

/// Conversion from a `usize` that fails outside the target type's range.
/// The greatest and least integers up to which every integer is
/// representable in the type.
pub trait ExactIntBounds: IntValue {
    fn max_consecutive() -> (r: Self)
        ensures
            r.spec_int() == Self::spec_max(),
    ;

    fn min_consecutive() -> (r: Self)
        ensures
            r.spec_int() == Self::spec_min(),
    ;
}

/// Rounding up to an integral value; for integer types the value itself.
pub trait Ceil: Copy {
    spec fn spec_ceil(self) -> Self;

    fn ceil(self) -> (r: Self)
        ensures
            r == self.spec_ceil(),
    ;
}

/// Whether the type is continuous rather than integral.
pub trait CheckContinuous {
    spec fn spec_is_continuous() -> bool;

    fn is_continuous() -> (r: bool)
        ensures
            r == Self::spec_is_continuous(),
    ;
}

/// Division that adds one to the dividend first, as integer division
/// rounding toward zero.
pub trait InfDiv: IntValue {
    fn inf_div(&self, other: &Self) -> (r: Self)
        requires
            other.spec_int() != 0,
            Self::spec_min() <= self.spec_int() + 1 <= Self::spec_max(),
            Self::spec_min() <= spec_div_trunc(self.spec_int() + 1, other.spec_int()) <= Self::spec_max(),
        ensures
            r.spec_int() == spec_div_trunc(self.spec_int() + 1, other.spec_int()),
    ;
}

/// Integer division rounding toward zero, as Rust's `/` on integers.
pub open spec fn spec_div_trunc(a: int, b: int) -> int {
    if a >= 0 {
        a / b
    } else {
        -((-a) / b)
    }
}

pub trait ExactIntCast: ExactIntBounds {
    fn exact_int_cast_usize(v: usize) -> (r: Option<Self>)
        ensures
            r.is_some() <==> v as int <= Self::spec_max(),
            r matches Some(x) ==> x.spec_int() == v as int,
    ;
}

/// A key type whose hashing and equality fit the model of hash tables.
pub trait HashKey: Eq + std::hash::Hash + Sized + DeepView<V = Self> {
    proof fn lemma_obeys_key_model()
        ensures
            vstd::std_specs::hash::obeys_key_model::<Self>(),
    ;

    /// The deep view of a key is the key itself.
    proof fn lemma_deep_view_identity(x: Self)
        ensures
            x.deep_view() == x,
    ;

    /// Decides equality.
    fn key_eq(&self, other: &Self) -> (r: bool)
        ensures
            r == (*self == *other),
    ;
}

/// A copy with the same deep view.
pub trait DeepClone: DeepView + Sized {
    fn deep_clone(&self) -> (r: Self)
        ensures
            r.deep_view() == self.deep_view(),
    ;
}

impl DeepClone for String {
    fn deep_clone(&self) -> (r: Self) {
        self.clone()
    }
}

impl<T: DeepClone> DeepClone for Vec<T> {
    fn deep_clone(&self) -> (r: Self) {
        let mut out: Vec<T> = Vec::new();
        let mut i: usize = 0;
        while i < self.len()
            invariant
                i <= self@.len(),
                out@.len() == i,
                forall|j: int| 0 <= j < i ==> (#[trigger] out@[j]).deep_view() == self@[j].deep_view(),
            decreases self@.len() - i,
        {
            out.push(self[i].deep_clone());
            i = i + 1;
        }
        assert(out.deep_view() =~= self.deep_view());
        out
    }
}

/// The deep view of a vector of keys is its view.
pub proof fn lemma_vec_deep_view_identity<T: HashKey>(v: Vec<T>)
    ensures
        v.deep_view() == v@,
{
    assert forall|i: int| 0 <= i < v@.len() implies v.deep_view()[i] == v@[i] by {
        T::lemma_deep_view_identity(v@[i]);
    }
    assert(v.deep_view() =~= v@);
}

/// A distance, read exactly as a rational number with a positive denominator
/// and a numerator and denominator of magnitude at most 2^32.
pub trait Distance: Sized {
    spec fn spec_num(&self) -> int;

    spec fn spec_den(&self) -> int;

    /// The distance rounded up to `n / d`, if it fits.
    spec fn spec_from_ceil(n: int, d: int) -> Option<Self>;

    /// The distance rounded down to `n / d`, if it fits.
    spec fn spec_from_floor(n: int, d: int) -> Option<Self>;

    fn num(&self) -> (r: i64)
        ensures
            r == self.spec_num(),
            -0x1_0000_0000 <= r <= 0x1_0000_0000,
            self.spec_wf() ==> self.spec_den() >= 1,
    ;

    fn den(&self) -> (r: i64)
        ensures
            r == self.spec_den(),
            1 <= r <= 0x1_0000_0000,
            self.spec_wf(),
    ;

    fn from_ratio_ceil(n: i128, d: i128) -> (r: Option<Self>)
        requires
            0 < d < 0x1_0000_0000_0000_0000_0000_0000_0000,
            -0x1_0000_0000_0000_0000_0000_0000_0000 < n < 0x1_0000_0000_0000_0000_0000_0000_0000,
        ensures
            r == Self::spec_from_ceil(n as int, d as int),
    ;

    fn from_ratio_floor(n: i128, d: i128) -> (r: Option<Self>)
        requires
            0 < d < 0x1_0000_0000_0000_0000_0000_0000_0000,
            -0x1_0000_0000_0000_0000_0000_0000_0000 < n < 0x1_0000_0000_0000_0000_0000_0000_0000,
        ensures
            r == Self::spec_from_floor(n as int, d as int),
    ;

    /// A rounded-up value is at or above the ratio; a rounded-down value at or below it.
    proof fn lemma_rounding(n: int, d: int)
        requires
            d > 0,
        ensures
            Self::spec_from_ceil(n, d) matches Some(v) ==> q_le(n, d, v.spec_num(), v.spec_den())
                && v.spec_wf() && v.spec_den() > 0,
            Self::spec_from_floor(n, d) matches Some(v) ==> q_le(v.spec_num(), v.spec_den(), n, d)
                && v.spec_wf() && v.spec_den() > 0,
    ;

    /// A well-formed value has a positive denominator.
    proof fn lemma_wf(&self)
        requires
            self.spec_wf(),
        ensures
            self.spec_den() > 0,
    ;

    /// The value is well formed: its denominator is positive.
    spec fn spec_wf(&self) -> bool;
}

/// An integer type that is also a distance: its numerator is its value, and
/// its range lies within 32 bits of magnitude.
pub trait IntDistanceValue: IntValue + Distance {
    proof fn lemma_num_int(v: Self)
        ensures
            v.spec_num() == v.spec_int(),
            v.spec_den() == 1,
            v.spec_wf(),
            -0x1_0000_0000 <= Self::spec_min(),
            Self::spec_max() <= 0x1_0000_0000,
    ;
}

/// The numerator and denominator of a distance as mathematical integers.
pub open spec fn dist_q<Q: Distance>(q: Q) -> (int, int) {
    (q.spec_num(), q.spec_den())
}

impl TotalOrd for i8 {
    open spec fn spec_total_le(self, other: Self) -> bool {
        self <= other
    }

    fn total_le(&self, other: &Self) -> (r: bool) {
        *self <= *other
    }

    proof fn lemma_total_order(a: Self, b: Self, c: Self) {
    }
}

impl HashKey for i8 {
    proof fn lemma_obeys_key_model() {
        broadcast use vstd::std_specs::hash::group_hash_axioms;
    }

    proof fn lemma_deep_view_identity(x: Self) {
    }

    fn key_eq(&self, other: &Self) -> (r: bool) {
        *self == *other
    }
}

impl DeepClone for i8 {
    fn deep_clone(&self) -> (r: Self) {
        *self
    }
}

impl IntValue for i8 {
    open spec fn spec_int(self) -> int {
        self as int
    }

    open spec fn spec_min() -> int {
        -128
    }

    open spec fn spec_max() -> int {
        127 as int
    }

    open spec fn spec_from_int(v: int) -> Self {
        v as i8
    }

    fn zero() -> (r: Self) {
        0
    }

    fn one() -> (r: Self) {
        1
    }

    proof fn lemma_int_range(v: Self) {
    }

    proof fn lemma_range() {
    }

    fn to_i128(&self) -> (r: i128) {
        *self as i128
    }

    fn min_value() -> (r: Self) {
        i8::MIN
    }

    fn max_value() -> (r: Self) {
        i8::MAX
    }

    fn from_i128(v: i128) -> (r: Self) {
        v as i8
    }

    proof fn lemma_from_int(i: int) {
    }
}

impl ExactIntCast for i8 {
    fn exact_int_cast_usize(v: usize) -> (r: Option<Self>) {
        if v as u128 <= 127 as u128 {
            Some(v as i8)
        } else {
            None
        }
    }

}

impl ExactIntBounds for i8 {
    fn max_consecutive() -> (r: Self) {
        127
    }

    fn min_consecutive() -> (r: Self) {
        -128
    }
}

impl Ceil for i8 {
    open spec fn spec_ceil(self) -> Self {
        self
    }

    fn ceil(self) -> (r: Self) {
        self
    }
}

impl CheckContinuous for i8 {
    open spec fn spec_is_continuous() -> bool {
        false
    }

    fn is_continuous() -> (r: bool) {
        false
    }
}

impl InfDiv for i8 {
    fn inf_div(&self, other: &Self) -> (r: Self) {
        (*self + 1) / *other
    }
}

impl SaturatingAdd for i8 {
    fn saturating_add(&self, other: &Self) -> (r: Self) {
        let s: i128 = *self as i128 + *other as i128;
        if s > 127 as i128 {
            127
        } else if s < -128 as i128 {
            -128
        } else {
            s as i8
        }
    }
}

impl Abs for i8 {
    open spec fn spec_abs(self) -> Self {
        if self == i8::MIN {
            i8::MAX
        } else if self < 0 {
            (-self) as i8
        } else {
            self
        }
    }

    fn abs(self) -> (r: Self) {
        if self == i8::MIN {
            i8::MAX
        } else if self < 0 {
            -self
        } else {
            self
        }
    }
}

impl Distance for i8 {
    open spec fn spec_num(&self) -> int {
        *self as int
    }

    open spec fn spec_den(&self) -> int {
        1
    }

    open spec fn spec_from_ceil(n: int, d: int) -> Option<Self> {
        let c = ceil_div(n, d);
        if -128 <= c <= 127 {
            Some(c as i8)
        } else {
            None
        }
    }

    open spec fn spec_from_floor(n: int, d: int) -> Option<Self> {
        let c = floor_div(n, d);
        if -128 <= c <= 127 {
            Some(c as i8)
        } else {
            None
        }
    }

    fn num(&self) -> (r: i64) {
        *self as i64
    }

    fn den(&self) -> (r: i64) {
        1
    }

    fn from_ratio_ceil(n: i128, d: i128) -> (r: Option<Self>) {
        let c = ceil_div_i128(n, d);
        if -128 <= c && c <= 127 {
            Some(c as i8)
        } else {
            None
        }
    }

    fn from_ratio_floor(n: i128, d: i128) -> (r: Option<Self>) {
        let c = floor_div_i128(n, d);
        if -128 <= c && c <= 127 {
            Some(c as i8)
        } else {
            None
        }
    }

    proof fn lemma_rounding(n: int, d: int) {
        lemma_ceil_floor(n, d);
    }

    proof fn lemma_wf(&self) {
    }

    open spec fn spec_wf(&self) -> bool {
        true
    }
}

impl IntDistanceValue for i8 {
    proof fn lemma_num_int(v: Self) {
    }
}

impl TotalOrd for i16 {
    open spec fn spec_total_le(self, other: Self) -> bool {
        self <= other
    }

    fn total_le(&self, other: &Self) -> (r: bool) {
        *self <= *other
    }

    proof fn lemma_total_order(a: Self, b: Self, c: Self) {
    }
}

impl HashKey for i16 {
    proof fn lemma_obeys_key_model() {
        broadcast use vstd::std_specs::hash::group_hash_axioms;
    }

    proof fn lemma_deep_view_identity(x: Self) {
    }

    fn key_eq(&self, other: &Self) -> (r: bool) {
        *self == *other
    }
}

impl DeepClone for i16 {
    fn deep_clone(&self) -> (r: Self) {
        *self
    }
}

impl IntValue for i16 {
    open spec fn spec_int(self) -> int {
        self as int
    }

    open spec fn spec_min() -> int {
        -32768
    }

    open spec fn spec_max() -> int {
        32767 as int
    }

    open spec fn spec_from_int(v: int) -> Self {
        v as i16
    }

    fn zero() -> (r: Self) {
        0
    }

    fn one() -> (r: Self) {
        1
    }

    proof fn lemma_int_range(v: Self) {
    }

    proof fn lemma_range() {
    }

    fn to_i128(&self) -> (r: i128) {
        *self as i128
    }

    fn min_value() -> (r: Self) {
        i16::MIN
    }

    fn max_value() -> (r: Self) {
        i16::MAX
    }

    fn from_i128(v: i128) -> (r: Self) {
        v as i16
    }

    proof fn lemma_from_int(i: int) {
    }
}

impl ExactIntCast for i16 {
    fn exact_int_cast_usize(v: usize) -> (r: Option<Self>) {
        if v as u128 <= 32767 as u128 {
            Some(v as i16)
        } else {
            None
        }
    }

}

impl ExactIntBounds for i16 {
    fn max_consecutive() -> (r: Self) {
        32767
    }

    fn min_consecutive() -> (r: Self) {
        -32768
    }
}

impl Ceil for i16 {
    open spec fn spec_ceil(self) -> Self {
        self
    }

    fn ceil(self) -> (r: Self) {
        self
    }
}

impl CheckContinuous for i16 {
    open spec fn spec_is_continuous() -> bool {
        false
    }

    fn is_continuous() -> (r: bool) {
        false
    }
}

impl InfDiv for i16 {
    fn inf_div(&self, other: &Self) -> (r: Self) {
        (*self + 1) / *other
    }
}

impl SaturatingAdd for i16 {
    fn saturating_add(&self, other: &Self) -> (r: Self) {
        let s: i128 = *self as i128 + *other as i128;
        if s > 32767 as i128 {
            32767
        } else if s < -32768 as i128 {
            -32768
        } else {
            s as i16
        }
    }
}

impl Abs for i16 {
    open spec fn spec_abs(self) -> Self {
        if self == i16::MIN {
            i16::MAX
        } else if self < 0 {
            (-self) as i16
        } else {
            self
        }
    }

    fn abs(self) -> (r: Self) {
        if self == i16::MIN {
            i16::MAX
        } else if self < 0 {
            -self
        } else {
            self
        }
    }
}

impl Distance for i16 {
    open spec fn spec_num(&self) -> int {
        *self as int
    }

    open spec fn spec_den(&self) -> int {
        1
    }

    open spec fn spec_from_ceil(n: int, d: int) -> Option<Self> {
        let c = ceil_div(n, d);
        if -32768 <= c <= 32767 {
            Some(c as i16)
        } else {
            None
        }
    }

    open spec fn spec_from_floor(n: int, d: int) -> Option<Self> {
        let c = floor_div(n, d);
        if -32768 <= c <= 32767 {
            Some(c as i16)
        } else {
            None
        }
    }

    fn num(&self) -> (r: i64) {
        *self as i64
    }

    fn den(&self) -> (r: i64) {
        1
    }

    fn from_ratio_ceil(n: i128, d: i128) -> (r: Option<Self>) {
        let c = ceil_div_i128(n, d);
        if -32768 <= c && c <= 32767 {
            Some(c as i16)
        } else {
            None
        }
    }

    fn from_ratio_floor(n: i128, d: i128) -> (r: Option<Self>) {
        let c = floor_div_i128(n, d);
        if -32768 <= c && c <= 32767 {
            Some(c as i16)
        } else {
            None
        }
    }

    proof fn lemma_rounding(n: int, d: int) {
        lemma_ceil_floor(n, d);
    }

    proof fn lemma_wf(&self) {
    }

    open spec fn spec_wf(&self) -> bool {
        true
    }
}

impl IntDistanceValue for i16 {
    proof fn lemma_num_int(v: Self) {
    }
}

impl TotalOrd for i32 {
    open spec fn spec_total_le(self, other: Self) -> bool {
        self <= other
    }

    fn total_le(&self, other: &Self) -> (r: bool) {
        *self <= *other
    }

    proof fn lemma_total_order(a: Self, b: Self, c: Self) {
    }
}

impl HashKey for i32 {
    proof fn lemma_obeys_key_model() {
        broadcast use vstd::std_specs::hash::group_hash_axioms;
    }

    proof fn lemma_deep_view_identity(x: Self) {
    }

    fn key_eq(&self, other: &Self) -> (r: bool) {
        *self == *other
    }
}

impl DeepClone for i32 {
    fn deep_clone(&self) -> (r: Self) {
        *self
    }
}

impl IntValue for i32 {
    open spec fn spec_int(self) -> int {
        self as int
    }

    open spec fn spec_min() -> int {
        -2147483648
    }

    open spec fn spec_max() -> int {
        2147483647 as int
    }

    open spec fn spec_from_int(v: int) -> Self {
        v as i32
    }

    fn zero() -> (r: Self) {
        0
    }

    fn one() -> (r: Self) {
        1
    }

    proof fn lemma_int_range(v: Self) {
    }

    proof fn lemma_range() {
    }

    fn to_i128(&self) -> (r: i128) {
        *self as i128
    }

    fn min_value() -> (r: Self) {
        i32::MIN
    }

    fn max_value() -> (r: Self) {
        i32::MAX
    }

    fn from_i128(v: i128) -> (r: Self) {
        v as i32
    }

    proof fn lemma_from_int(i: int) {
    }
}

impl ExactIntCast for i32 {
    fn exact_int_cast_usize(v: usize) -> (r: Option<Self>) {
        if v as u128 <= 2147483647 as u128 {
            Some(v as i32)
        } else {
            None
        }
    }

}

impl ExactIntBounds for i32 {
    fn max_consecutive() -> (r: Self) {
        2147483647
    }

    fn min_consecutive() -> (r: Self) {
        -2147483648
    }
}

impl Ceil for i32 {
    open spec fn spec_ceil(self) -> Self {
        self
    }

    fn ceil(self) -> (r: Self) {
        self
    }
}

impl CheckContinuous for i32 {
    open spec fn spec_is_continuous() -> bool {
        false
    }

    fn is_continuous() -> (r: bool) {
        false
    }
}

impl InfDiv for i32 {
    fn inf_div(&self, other: &Self) -> (r: Self) {
        (*self + 1) / *other
    }
}

impl SaturatingAdd for i32 {
    fn saturating_add(&self, other: &Self) -> (r: Self) {
        let s: i128 = *self as i128 + *other as i128;
        if s > 2147483647 as i128 {
            2147483647
        } else if s < -2147483648 as i128 {
            -2147483648
        } else {
            s as i32
        }
    }
}

impl Abs for i32 {
    open spec fn spec_abs(self) -> Self {
        if self == i32::MIN {
            i32::MAX
        } else if self < 0 {
            (-self) as i32
        } else {
            self
        }
    }

    fn abs(self) -> (r: Self) {
        if self == i32::MIN {
            i32::MAX
        } else if self < 0 {
            -self
        } else {
            self
        }
    }
}

impl Distance for i32 {
    open spec fn spec_num(&self) -> int {
        *self as int
    }

    open spec fn spec_den(&self) -> int {
        1
    }

    open spec fn spec_from_ceil(n: int, d: int) -> Option<Self> {
        let c = ceil_div(n, d);
        if -2147483648 <= c <= 2147483647 {
            Some(c as i32)
        } else {
            None
        }
    }

    open spec fn spec_from_floor(n: int, d: int) -> Option<Self> {
        let c = floor_div(n, d);
        if -2147483648 <= c <= 2147483647 {
            Some(c as i32)
        } else {
            None
        }
    }

    fn num(&self) -> (r: i64) {
        *self as i64
    }

    fn den(&self) -> (r: i64) {
        1
    }

    fn from_ratio_ceil(n: i128, d: i128) -> (r: Option<Self>) {
        let c = ceil_div_i128(n, d);
        if -2147483648 <= c && c <= 2147483647 {
            Some(c as i32)
        } else {
            None
        }
    }

    fn from_ratio_floor(n: i128, d: i128) -> (r: Option<Self>) {
        let c = floor_div_i128(n, d);
        if -2147483648 <= c && c <= 2147483647 {
            Some(c as i32)
        } else {
            None
        }
    }

    proof fn lemma_rounding(n: int, d: int) {
        lemma_ceil_floor(n, d);
    }

    proof fn lemma_wf(&self) {
    }

    open spec fn spec_wf(&self) -> bool {
        true
    }
}

impl IntDistanceValue for i32 {
    proof fn lemma_num_int(v: Self) {
    }
}

impl TotalOrd for i64 {
    open spec fn spec_total_le(self, other: Self) -> bool {
        self <= other
    }

    fn total_le(&self, other: &Self) -> (r: bool) {
        *self <= *other
    }

    proof fn lemma_total_order(a: Self, b: Self, c: Self) {
    }
}

impl HashKey for i64 {
    proof fn lemma_obeys_key_model() {
        broadcast use vstd::std_specs::hash::group_hash_axioms;
    }

    proof fn lemma_deep_view_identity(x: Self) {
    }

    fn key_eq(&self, other: &Self) -> (r: bool) {
        *self == *other
    }
}

impl DeepClone for i64 {
    fn deep_clone(&self) -> (r: Self) {
        *self
    }
}

impl IntValue for i64 {
    open spec fn spec_int(self) -> int {
        self as int
    }

    open spec fn spec_min() -> int {
        -9223372036854775808
    }

    open spec fn spec_max() -> int {
        9223372036854775807 as int
    }

    open spec fn spec_from_int(v: int) -> Self {
        v as i64
    }

    fn zero() -> (r: Self) {
        0
    }

    fn one() -> (r: Self) {
        1
    }

    proof fn lemma_int_range(v: Self) {
    }

    proof fn lemma_range() {
    }

    fn to_i128(&self) -> (r: i128) {
        *self as i128
    }

    fn min_value() -> (r: Self) {
        i64::MIN
    }

    fn max_value() -> (r: Self) {
        i64::MAX
    }

    fn from_i128(v: i128) -> (r: Self) {
        v as i64
    }

    proof fn lemma_from_int(i: int) {
    }
}

impl ExactIntCast for i64 {
    fn exact_int_cast_usize(v: usize) -> (r: Option<Self>) {
        if v as u128 <= 9223372036854775807 as u128 {
            Some(v as i64)
        } else {
            None
        }
    }

}

impl ExactIntBounds for i64 {
    fn max_consecutive() -> (r: Self) {
        9223372036854775807
    }

    fn min_consecutive() -> (r: Self) {
        -9223372036854775808
    }
}

impl Ceil for i64 {
    open spec fn spec_ceil(self) -> Self {
        self
    }

    fn ceil(self) -> (r: Self) {
        self
    }
}

impl CheckContinuous for i64 {
    open spec fn spec_is_continuous() -> bool {
        false
    }

    fn is_continuous() -> (r: bool) {
        false
    }
}

impl InfDiv for i64 {
    fn inf_div(&self, other: &Self) -> (r: Self) {
        (*self + 1) / *other
    }
}

impl SaturatingAdd for i64 {
    fn saturating_add(&self, other: &Self) -> (r: Self) {
        let s: i128 = *self as i128 + *other as i128;
        if s > 9223372036854775807 as i128 {
            9223372036854775807
        } else if s < -9223372036854775808 as i128 {
            -9223372036854775808
        } else {
            s as i64
        }
    }
}

impl Abs for i64 {
    open spec fn spec_abs(self) -> Self {
        if self == i64::MIN {
            i64::MAX
        } else if self < 0 {
            (-self) as i64
        } else {
            self
        }
    }

    fn abs(self) -> (r: Self) {
        if self == i64::MIN {
            i64::MAX
        } else if self < 0 {
            -self
        } else {
            self
        }
    }
}

impl TotalOrd for u8 {
    open spec fn spec_total_le(self, other: Self) -> bool {
        self <= other
    }

    fn total_le(&self, other: &Self) -> (r: bool) {
        *self <= *other
    }

    proof fn lemma_total_order(a: Self, b: Self, c: Self) {
    }
}

impl HashKey for u8 {
    proof fn lemma_obeys_key_model() {
        broadcast use vstd::std_specs::hash::group_hash_axioms;
    }

    proof fn lemma_deep_view_identity(x: Self) {
    }

    fn key_eq(&self, other: &Self) -> (r: bool) {
        *self == *other
    }
}

impl DeepClone for u8 {
    fn deep_clone(&self) -> (r: Self) {
        *self
    }
}

impl IntValue for u8 {
    open spec fn spec_int(self) -> int {
        self as int
    }

    open spec fn spec_min() -> int {
        0
    }

    open spec fn spec_max() -> int {
        255 as int
    }

    open spec fn spec_from_int(v: int) -> Self {
        v as u8
    }

    fn zero() -> (r: Self) {
        0
    }

    fn one() -> (r: Self) {
        1
    }

    proof fn lemma_int_range(v: Self) {
    }

    proof fn lemma_range() {
    }

    fn to_i128(&self) -> (r: i128) {
        *self as i128
    }

    fn min_value() -> (r: Self) {
        u8::MIN
    }

    fn max_value() -> (r: Self) {
        u8::MAX
    }

    fn from_i128(v: i128) -> (r: Self) {
        v as u8
    }

    proof fn lemma_from_int(i: int) {
    }
}

impl ExactIntCast for u8 {
    fn exact_int_cast_usize(v: usize) -> (r: Option<Self>) {
        if v as u128 <= 255 as u128 {
            Some(v as u8)
        } else {
            None
        }
    }

}

impl ExactIntBounds for u8 {
    fn max_consecutive() -> (r: Self) {
        255
    }

    fn min_consecutive() -> (r: Self) {
        0
    }
}

impl Ceil for u8 {
    open spec fn spec_ceil(self) -> Self {
        self
    }

    fn ceil(self) -> (r: Self) {
        self
    }
}

impl CheckContinuous for u8 {
    open spec fn spec_is_continuous() -> bool {
        false
    }

    fn is_continuous() -> (r: bool) {
        false
    }
}

impl InfDiv for u8 {
    fn inf_div(&self, other: &Self) -> (r: Self) {
        (*self + 1) / *other
    }
}

impl SaturatingAdd for u8 {
    fn saturating_add(&self, other: &Self) -> (r: Self) {
        let s: i128 = *self as i128 + *other as i128;
        if s > 255 as i128 {
            255
        } else if s < 0 as i128 {
            0
        } else {
            s as u8
        }
    }
}

impl Abs for u8 {
    open spec fn spec_abs(self) -> Self {
        self
    }

    fn abs(self) -> (r: Self) {
        self
    }
}

impl Distance for u8 {
    open spec fn spec_num(&self) -> int {
        *self as int
    }

    open spec fn spec_den(&self) -> int {
        1
    }

    open spec fn spec_from_ceil(n: int, d: int) -> Option<Self> {
        let c = ceil_div(n, d);
        if 0 <= c <= 255 {
            Some(c as u8)
        } else {
            None
        }
    }

    open spec fn spec_from_floor(n: int, d: int) -> Option<Self> {
        let c = floor_div(n, d);
        if 0 <= c <= 255 {
            Some(c as u8)
        } else {
            None
        }
    }

    fn num(&self) -> (r: i64) {
        *self as i64
    }

    fn den(&self) -> (r: i64) {
        1
    }

    fn from_ratio_ceil(n: i128, d: i128) -> (r: Option<Self>) {
        let c = ceil_div_i128(n, d);
        if 0 <= c && c <= 255 {
            Some(c as u8)
        } else {
            None
        }
    }

    fn from_ratio_floor(n: i128, d: i128) -> (r: Option<Self>) {
        let c = floor_div_i128(n, d);
        if 0 <= c && c <= 255 {
            Some(c as u8)
        } else {
            None
        }
    }

    proof fn lemma_rounding(n: int, d: int) {
        lemma_ceil_floor(n, d);
    }

    proof fn lemma_wf(&self) {
    }

    open spec fn spec_wf(&self) -> bool {
        true
    }
}

impl IntDistanceValue for u8 {
    proof fn lemma_num_int(v: Self) {
    }
}

impl TotalOrd for u16 {
    open spec fn spec_total_le(self, other: Self) -> bool {
        self <= other
    }

    fn total_le(&self, other: &Self) -> (r: bool) {
        *self <= *other
    }

    proof fn lemma_total_order(a: Self, b: Self, c: Self) {
    }
}

impl HashKey for u16 {
    proof fn lemma_obeys_key_model() {
        broadcast use vstd::std_specs::hash::group_hash_axioms;
    }

    proof fn lemma_deep_view_identity(x: Self) {
    }

    fn key_eq(&self, other: &Self) -> (r: bool) {
        *self == *other
    }
}

impl DeepClone for u16 {
    fn deep_clone(&self) -> (r: Self) {
        *self
    }
}

impl IntValue for u16 {
    open spec fn spec_int(self) -> int {
        self as int
    }

    open spec fn spec_min() -> int {
        0
    }

    open spec fn spec_max() -> int {
        65535 as int
    }

    open spec fn spec_from_int(v: int) -> Self {
        v as u16
    }

    fn zero() -> (r: Self) {
        0
    }

    fn one() -> (r: Self) {
        1
    }

    proof fn lemma_int_range(v: Self) {
    }

    proof fn lemma_range() {
    }

    fn to_i128(&self) -> (r: i128) {
        *self as i128
    }

    fn min_value() -> (r: Self) {
        u16::MIN
    }

    fn max_value() -> (r: Self) {
        u16::MAX
    }

    fn from_i128(v: i128) -> (r: Self) {
        v as u16
    }

    proof fn lemma_from_int(i: int) {
    }
}

impl ExactIntCast for u16 {
    fn exact_int_cast_usize(v: usize) -> (r: Option<Self>) {
        if v as u128 <= 65535 as u128 {
            Some(v as u16)
        } else {
            None
        }
    }

}

impl ExactIntBounds for u16 {
    fn max_consecutive() -> (r: Self) {
        65535
    }

    fn min_consecutive() -> (r: Self) {
        0
    }
}

impl Ceil for u16 {
    open spec fn spec_ceil(self) -> Self {
        self
    }

    fn ceil(self) -> (r: Self) {
        self
    }
}

impl CheckContinuous for u16 {
    open spec fn spec_is_continuous() -> bool {
        false
    }

    fn is_continuous() -> (r: bool) {
        false
    }
}

impl InfDiv for u16 {
    fn inf_div(&self, other: &Self) -> (r: Self) {
        (*self + 1) / *other
    }
}

impl SaturatingAdd for u16 {
    fn saturating_add(&self, other: &Self) -> (r: Self) {
        let s: i128 = *self as i128 + *other as i128;
        if s > 65535 as i128 {
            65535
        } else if s < 0 as i128 {
            0
        } else {
            s as u16
        }
    }
}

impl Abs for u16 {
    open spec fn spec_abs(self) -> Self {
        self
    }

    fn abs(self) -> (r: Self) {
        self
    }
}

impl Distance for u16 {
    open spec fn spec_num(&self) -> int {
        *self as int
    }

    open spec fn spec_den(&self) -> int {
        1
    }

    open spec fn spec_from_ceil(n: int, d: int) -> Option<Self> {
        let c = ceil_div(n, d);
        if 0 <= c <= 65535 {
            Some(c as u16)
        } else {
            None
        }
    }

    open spec fn spec_from_floor(n: int, d: int) -> Option<Self> {
        let c = floor_div(n, d);
        if 0 <= c <= 65535 {
            Some(c as u16)
        } else {
            None
        }
    }

    fn num(&self) -> (r: i64) {
        *self as i64
    }

    fn den(&self) -> (r: i64) {
        1
    }

    fn from_ratio_ceil(n: i128, d: i128) -> (r: Option<Self>) {
        let c = ceil_div_i128(n, d);
        if 0 <= c && c <= 65535 {
            Some(c as u16)
        } else {
            None
        }
    }

    fn from_ratio_floor(n: i128, d: i128) -> (r: Option<Self>) {
        let c = floor_div_i128(n, d);
        if 0 <= c && c <= 65535 {
            Some(c as u16)
        } else {
            None
        }
    }

    proof fn lemma_rounding(n: int, d: int) {
        lemma_ceil_floor(n, d);
    }

    proof fn lemma_wf(&self) {
    }

    open spec fn spec_wf(&self) -> bool {
        true
    }
}

impl IntDistanceValue for u16 {
    proof fn lemma_num_int(v: Self) {
    }
}

impl TotalOrd for u32 {
    open spec fn spec_total_le(self, other: Self) -> bool {
        self <= other
    }

    fn total_le(&self, other: &Self) -> (r: bool) {
        *self <= *other
    }

    proof fn lemma_total_order(a: Self, b: Self, c: Self) {
    }
}

impl HashKey for u32 {
    proof fn lemma_obeys_key_model() {
        broadcast use vstd::std_specs::hash::group_hash_axioms;
    }

    proof fn lemma_deep_view_identity(x: Self) {
    }

    fn key_eq(&self, other: &Self) -> (r: bool) {
        *self == *other
    }
}

impl DeepClone for u32 {
    fn deep_clone(&self) -> (r: Self) {
        *self
    }
}

impl IntValue for u32 {
    open spec fn spec_int(self) -> int {
        self as int
    }

    open spec fn spec_min() -> int {
        0
    }

    open spec fn spec_max() -> int {
        4294967295 as int
    }

    open spec fn spec_from_int(v: int) -> Self {
        v as u32
    }

    fn zero() -> (r: Self) {
        0
    }

    fn one() -> (r: Self) {
        1
    }

    proof fn lemma_int_range(v: Self) {
    }

    proof fn lemma_range() {
    }

    fn to_i128(&self) -> (r: i128) {
        *self as i128
    }

    fn min_value() -> (r: Self) {
        u32::MIN
    }

    fn max_value() -> (r: Self) {
        u32::MAX
    }

    fn from_i128(v: i128) -> (r: Self) {
        v as u32
    }

    proof fn lemma_from_int(i: int) {
    }
}

impl ExactIntCast for u32 {
    fn exact_int_cast_usize(v: usize) -> (r: Option<Self>) {
        if v as u128 <= 4294967295 as u128 {
            Some(v as u32)
        } else {
            None
        }
    }

}

impl ExactIntBounds for u32 {
    fn max_consecutive() -> (r: Self) {
        4294967295
    }

    fn min_consecutive() -> (r: Self) {
        0
    }
}

impl Ceil for u32 {
    open spec fn spec_ceil(self) -> Self {
        self
    }

    fn ceil(self) -> (r: Self) {
        self
    }
}

impl CheckContinuous for u32 {
    open spec fn spec_is_continuous() -> bool {
        false
    }

    fn is_continuous() -> (r: bool) {
        false
    }
}

impl InfDiv for u32 {
    fn inf_div(&self, other: &Self) -> (r: Self) {
        (*self + 1) / *other
    }
}

impl SaturatingAdd for u32 {
    fn saturating_add(&self, other: &Self) -> (r: Self) {
        let s: i128 = *self as i128 + *other as i128;
        if s > 4294967295 as i128 {
            4294967295
        } else if s < 0 as i128 {
            0
        } else {
            s as u32
        }
    }
}

impl Abs for u32 {
    open spec fn spec_abs(self) -> Self {
        self
    }

    fn abs(self) -> (r: Self) {
        self
    }
}

impl Distance for u32 {
    open spec fn spec_num(&self) -> int {
        *self as int
    }

    open spec fn spec_den(&self) -> int {
        1
    }

    open spec fn spec_from_ceil(n: int, d: int) -> Option<Self> {
        let c = ceil_div(n, d);
        if 0 <= c <= 4294967295 {
            Some(c as u32)
        } else {
            None
        }
    }

    open spec fn spec_from_floor(n: int, d: int) -> Option<Self> {
        let c = floor_div(n, d);
        if 0 <= c <= 4294967295 {
            Some(c as u32)
        } else {
            None
        }
    }

    fn num(&self) -> (r: i64) {
        *self as i64
    }

    fn den(&self) -> (r: i64) {
        1
    }

    fn from_ratio_ceil(n: i128, d: i128) -> (r: Option<Self>) {
        let c = ceil_div_i128(n, d);
        if 0 <= c && c <= 4294967295 {
            Some(c as u32)
        } else {
            None
        }
    }

    fn from_ratio_floor(n: i128, d: i128) -> (r: Option<Self>) {
        let c = floor_div_i128(n, d);
        if 0 <= c && c <= 4294967295 {
            Some(c as u32)
        } else {
            None
        }
    }

    proof fn lemma_rounding(n: int, d: int) {
        lemma_ceil_floor(n, d);
    }

    proof fn lemma_wf(&self) {
    }

    open spec fn spec_wf(&self) -> bool {
        true
    }
}

impl IntDistanceValue for u32 {
    proof fn lemma_num_int(v: Self) {
    }
}

impl TotalOrd for u64 {
    open spec fn spec_total_le(self, other: Self) -> bool {
        self <= other
    }

    fn total_le(&self, other: &Self) -> (r: bool) {
        *self <= *other
    }

    proof fn lemma_total_order(a: Self, b: Self, c: Self) {
    }
}

impl HashKey for u64 {
    proof fn lemma_obeys_key_model() {
        broadcast use vstd::std_specs::hash::group_hash_axioms;
    }

    proof fn lemma_deep_view_identity(x: Self) {
    }

    fn key_eq(&self, other: &Self) -> (r: bool) {
        *self == *other
    }
}

impl DeepClone for u64 {
    fn deep_clone(&self) -> (r: Self) {
        *self
    }
}

impl IntValue for u64 {
    open spec fn spec_int(self) -> int {
        self as int
    }

    open spec fn spec_min() -> int {
        0
    }

    open spec fn spec_max() -> int {
        18446744073709551615 as int
    }

    open spec fn spec_from_int(v: int) -> Self {
        v as u64
    }

    fn zero() -> (r: Self) {
        0
    }

    fn one() -> (r: Self) {
        1
    }

    proof fn lemma_int_range(v: Self) {
    }

    proof fn lemma_range() {
    }

    fn to_i128(&self) -> (r: i128) {
        *self as i128
    }

    fn min_value() -> (r: Self) {
        u64::MIN
    }

    fn max_value() -> (r: Self) {
        u64::MAX
    }

    fn from_i128(v: i128) -> (r: Self) {
        v as u64
    }

    proof fn lemma_from_int(i: int) {
    }
}

impl ExactIntCast for u64 {
    fn exact_int_cast_usize(v: usize) -> (r: Option<Self>) {
        if v as u128 <= 18446744073709551615 as u128 {
            Some(v as u64)
        } else {
            None
        }
    }

}

impl ExactIntBounds for u64 {
    fn max_consecutive() -> (r: Self) {
        18446744073709551615
    }

    fn min_consecutive() -> (r: Self) {
        0
    }
}

impl Ceil for u64 {
    open spec fn spec_ceil(self) -> Self {
        self
    }

    fn ceil(self) -> (r: Self) {
        self
    }
}

impl CheckContinuous for u64 {
    open spec fn spec_is_continuous() -> bool {
        false
    }

    fn is_continuous() -> (r: bool) {
        false
    }
}

impl InfDiv for u64 {
    fn inf_div(&self, other: &Self) -> (r: Self) {
        (*self + 1) / *other
    }
}

impl SaturatingAdd for u64 {
    fn saturating_add(&self, other: &Self) -> (r: Self) {
        let s: i128 = *self as i128 + *other as i128;
        if s > 18446744073709551615 as i128 {
            18446744073709551615
        } else if s < 0 as i128 {
            0
        } else {
            s as u64
        }
    }
}

impl Abs for u64 {
    open spec fn spec_abs(self) -> Self {
        self
    }

    fn abs(self) -> (r: Self) {
        self
    }
}

impl TotalOrd for usize {
    open spec fn spec_total_le(self, other: Self) -> bool {
        self <= other
    }

    fn total_le(&self, other: &Self) -> (r: bool) {
        *self <= *other
    }

    proof fn lemma_total_order(a: Self, b: Self, c: Self) {
    }
}

impl HashKey for usize {
    proof fn lemma_obeys_key_model() {
        broadcast use vstd::std_specs::hash::group_hash_axioms;
    }

    proof fn lemma_deep_view_identity(x: Self) {
    }

    fn key_eq(&self, other: &Self) -> (r: bool) {
        *self == *other
    }
}

impl DeepClone for usize {
    fn deep_clone(&self) -> (r: Self) {
        *self
    }
}

impl IntValue for usize {
    open spec fn spec_int(self) -> int {
        self as int
    }

    open spec fn spec_min() -> int {
        0
    }

    open spec fn spec_max() -> int {
        usize::MAX as int
    }

    open spec fn spec_from_int(v: int) -> Self {
        v as usize
    }

    fn zero() -> (r: Self) {
        0
    }

    fn one() -> (r: Self) {
        1
    }

    proof fn lemma_int_range(v: Self) {
    }

    proof fn lemma_range() {
    }

    fn to_i128(&self) -> (r: i128) {
        *self as i128
    }

    fn min_value() -> (r: Self) {
        usize::MIN
    }

    fn max_value() -> (r: Self) {
        usize::MAX
    }

    fn from_i128(v: i128) -> (r: Self) {
        v as usize
    }

    proof fn lemma_from_int(i: int) {
    }
}

impl ExactIntCast for usize {
    fn exact_int_cast_usize(v: usize) -> (r: Option<Self>) {
        if v as u128 <= usize::MAX as u128 {
            Some(v as usize)
        } else {
            None
        }
    }

}

impl ExactIntBounds for usize {
    fn max_consecutive() -> (r: Self) {
        usize::MAX
    }

    fn min_consecutive() -> (r: Self) {
        0
    }
}

impl Ceil for usize {
    open spec fn spec_ceil(self) -> Self {
        self
    }

    fn ceil(self) -> (r: Self) {
        self
    }
}

impl CheckContinuous for usize {
    open spec fn spec_is_continuous() -> bool {
        false
    }

    fn is_continuous() -> (r: bool) {
        false
    }
}

impl InfDiv for usize {
    fn inf_div(&self, other: &Self) -> (r: Self) {
        (*self + 1) / *other
    }
}

impl SaturatingAdd for usize {
    fn saturating_add(&self, other: &Self) -> (r: Self) {
        let s: i128 = *self as i128 + *other as i128;
        if s > usize::MAX as i128 {
            usize::MAX
        } else if s < 0 as i128 {
            0
        } else {
            s as usize
        }
    }
}

impl HashKey for bool {
    proof fn lemma_obeys_key_model() {
        broadcast use vstd::std_specs::hash::group_hash_axioms;
    }

    proof fn lemma_deep_view_identity(x: Self) {
    }

    fn key_eq(&self, other: &Self) -> (r: bool) {
        *self == *other
    }
}

impl DeepClone for bool {
    fn deep_clone(&self) -> (r: Self) {
        *self
    }
}

/// `ceil_div` and `floor_div` bracket the ratio.
pub proof fn lemma_ceil_floor(n: int, d: int)
    requires
        d > 0,
    ensures
        q_le(n, d, ceil_div(n, d), 1),
        q_le(floor_div(n, d), 1, n, d),
        ceil_div(n, d) - 1 < n / d + 1,
{
    vstd::arithmetic::div_mod::lemma_fundamental_div_mod(n, d);
    assert(n == d * (n / d) + n % d);
    assert(0 <= n % d < d);
    assert(n / d * d == d * (n / d)) by (nonlinear_arith);
    assert((n / d + 1) * d == d * (n / d) + d) by (nonlinear_arith);
}

/// `ceil_div` computed on machine integers.
pub fn ceil_div_i128(n: i128, d: i128) -> (r: i128)
    requires
        0 < d < 0x1_0000_0000_0000_0000_0000_0000_0000,
        -0x1_0000_0000_0000_0000_0000_0000_0000 < n < 0x1_0000_0000_0000_0000_0000_0000_0000,
    ensures
        r == ceil_div(n as int, d as int),
{
    let q = floor_div_i128(n, d);
    proof {
        vstd::arithmetic::div_mod::lemma_fundamental_div_mod(n as int, d as int);
        assert(q * d == d * (n as int / d as int)) by (nonlinear_arith)
            requires q == n as int / d as int;
        assert(-0x1_0000_0000_0000_0000_0000_0000_0000 - d < q * d <= n);
    }
    if q * d == n {
        q
    } else {
        q + 1
    }
}

/// `floor_div` computed on machine integers.
pub fn floor_div_i128(n: i128, d: i128) -> (r: i128)
    requires
        0 < d < 0x1_0000_0000_0000_0000_0000_0000_0000,
        -0x1_0000_0000_0000_0000_0000_0000_0000 < n < 0x1_0000_0000_0000_0000_0000_0000_0000,
    ensures
        r == floor_div(n as int, d as int),
{
    if n >= 0 {
        n / d
    } else {
        let m: i128 = -(n + 1);
        let q = m / d;
        proof {
            lemma_floor_negative(n as int, d as int);
        }
        -q - 1
    }
}

/// For a negative `n`, `floor(n / d) == -floor((-n - 1) / d) - 1`.
pub proof fn lemma_floor_negative(n: int, d: int)
    requires
        d > 0,
        n < 0,
    ensures
        n / d == -((-(n + 1)) / d) - 1,
{
    let m = -(n + 1);
    vstd::arithmetic::div_mod::lemma_fundamental_div_mod(m, d);
    vstd::arithmetic::div_mod::lemma_fundamental_div_mod(n, d);
    let q = m / d;
    let r = m % d;
    assert(m == d * q + r);
    assert(n == (-q - 1) * d + (d - 1 - r)) by (nonlinear_arith)
        requires m == d * q + r, n == -m - 1;
    assert(0 <= d - 1 - r < d);
    vstd::arithmetic::div_mod::lemma_fundamental_div_mod_converse(n, d, -q - 1, d - 1 - r);
}

} // verus!
