//! Core concepts: domains, functions, metrics and measures, stability and
//! privacy relations, transformations and measurements.
//!
//! A relation holds between an input distance and an output distance.
//! Its spec value is `Some(b)` when evaluating it gives `Ok(b)` and `None`
//! when evaluating it fails.
use vstd::prelude::*;
use crate::error::{Error, ErrorVariant, Fallible};
use crate::traits::{q_le, Distance};

verus! {

/// A set which constrains the input or output of a function.
pub trait Domain: Sized {
    /// The type of the values the domain is a set of.
    type Carrier;

    /// Membership of `val` in the domain.
    spec fn spec_member(&self, val: Self::Carrier) -> bool;

    /// Whether two domains are the same set.
    spec fn spec_same(&self, other: Self) -> bool;

    /// Tests `val` for membership in the domain.
    fn member(&self, val: &Self::Carrier) -> (r: bool)
        ensures
            r == self.spec_member(*val),
    ;

    /// Tests whether two domains are the same set.
    fn same_domain(&self, other: &Self) -> (r: bool)
        ensures
            r == self.spec_same(*other),
    ;
}

/// A mapping from input values to output values that may fail, stated over
/// the values' deep views. Its spec value is `Some(v)` when evaluating gives
/// `Ok(v)`, `None` on failure.
pub trait Function {
    type Input: DeepView;
    type Output: DeepView;

    spec fn spec_eval(&self, arg: <Self::Input as DeepView>::V) -> Option<<Self::Output as DeepView>::V>;

    /// The kind of error that evaluating at `arg` gives, where it fails.
    open spec fn spec_error(&self, arg: <Self::Input as DeepView>::V) -> ErrorVariant {
        ErrorVariant::FailedFunction
    }

    fn eval(&self, arg: &Self::Input) -> (r: Fallible<Self::Output>)
        ensures
            r.is_ok() <==> self.spec_eval(arg.deep_view()).is_some(),
            r matches Ok(v) ==> self.spec_eval(arg.deep_view()) == Some(v.deep_view()),
            r matches Err(e) ==> e.variant == self.spec_error(arg.deep_view()),
    ;
}

/// A representation of the distance between two elements in a set.
pub trait Metric {
    type Distance;
}

/// A representation of the distance between two distributions.
pub trait Measure {
    type Distance;
}

/// An indicator trait for distances between datasets.
pub trait DatasetMetric: Metric {
}

/// An indicator trait for distances between aggregates.
pub trait SensitivityMetric: Metric {
}

/// A boolean relation between an input and an output distance, with
/// optional maps from one to the other.
pub trait Relation {
    type DIn;
    type DOut;

    /// `Some(b)` where evaluating the relation gives `Ok(b)`, `None` where it fails.
    spec fn spec_eval(&self, d_in: Self::DIn, d_out: Self::DOut) -> Option<bool>;

    /// Whether the relation has a map from input to output distances.
    spec fn spec_has_forward(&self) -> bool;

    /// Whether the relation has a map from output to input distances.
    spec fn spec_has_backward(&self) -> bool;

    /// The forward map's value; `None` where it fails.
    spec fn spec_forward(&self, d_in: Self::DIn) -> Option<Self::DOut>;

    /// The backward map's value; `None` where it fails.
    spec fn spec_backward(&self, d_out: Self::DOut) -> Option<Self::DIn>;

    fn eval(&self, d_in: &Self::DIn, d_out: &Self::DOut) -> (r: Fallible<bool>)
        ensures
            r.is_ok() <==> self.spec_eval(*d_in, *d_out).is_some(),
            r matches Ok(b) ==> self.spec_eval(*d_in, *d_out) == Some(b),
    ;

    fn has_forward(&self) -> (r: bool)
        ensures
            r == self.spec_has_forward(),
    ;

    fn has_backward(&self) -> (r: bool)
        ensures
            r == self.spec_has_backward(),
    ;

    /// The forward map's value; fails where the relation has no forward map.
    fn forward_map(&self, d_in: &Self::DIn) -> (r: Fallible<Self::DOut>)
        ensures
            r.is_ok() <==> (self.spec_has_forward() && self.spec_forward(*d_in).is_some()),
            r matches Ok(v) ==> self.spec_forward(*d_in) == Some(v),
    ;

    /// The backward map's value; fails where the relation has no backward map.
    fn backward_map(&self, d_out: &Self::DOut) -> (r: Fallible<Self::DIn>)
        ensures
            r.is_ok() <==> (self.spec_has_backward() && self.spec_backward(*d_out).is_some()),
            r matches Ok(v) ==> self.spec_backward(*d_out) == Some(v),
    ;
}

/// `d_out >= d_in * (c_num / c_den)`, with `d_in` first rounded up into the output type.
pub open spec fn spec_linear_eval<QI: Distance, QO: Distance>(c_num: int, c_den: int, d_in: QI, d_out: QO) -> Option<bool> {
    match QO::spec_from_ceil(d_in.spec_num(), d_in.spec_den()) {
        Some(m) => Some(q_le(m.spec_num() * c_num, m.spec_den() * c_den, d_out.spec_num(), d_out.spec_den())),
        None => None,
    }
}

/// `d_in` rounded up into the output type, times `c_num / c_den`, rounded up.
pub open spec fn spec_linear_forward<QI: Distance, QO: Distance>(c_num: int, c_den: int, d_in: QI) -> Option<QO> {
    match QO::spec_from_ceil(d_in.spec_num(), d_in.spec_den()) {
        Some(m) => QO::spec_from_ceil(m.spec_num() * c_num, m.spec_den() * c_den),
        None => None,
    }
}

/// `d_out / (c_num / c_den)` rounded down in the output type, then rounded up into the input type.
pub open spec fn spec_linear_backward<QI: Distance, QO: Distance>(c_num: int, c_den: int, d_out: QO) -> Option<QI> {
    if c_num <= 0 {
        None
    } else {
        match QO::spec_from_floor(d_out.spec_num() * c_den, d_out.spec_den() * c_num) {
            Some(q) => QI::spec_from_ceil(q.spec_num(), q.spec_den()),
            None => None,
        }
    }
}

/// The relation `d_out >= d_in * c` for a constant rational `c`, with both maps.
pub struct LinearRelation<QI, QO> {
    c_num: i64,
    c_den: i64,
    _marker: std::marker::PhantomData<(QI, QO)>,
}

impl<QI, QO> LinearRelation<QI, QO> {
    #[verifier::type_invariant]
    spec fn linear_wf(self) -> bool {
        &&& 1 <= self.c_den <= 0x1_0000_0000
        &&& -0x1_0000_0000 <= self.c_num <= 0x1_0000_0000
    }

    /// The numerator of the constant.
    pub closed spec fn spec_c_num(self) -> int {
        self.c_num as int
    }

    /// The denominator of the constant.
    pub closed spec fn spec_c_den(self) -> int {
        self.c_den as int
    }
}

impl<QI: Distance, QO: Distance> LinearRelation<QI, QO> {
    /// The relation `d_out >= d_in * c`.
    pub fn new_from_constant(c: QO) -> (r: Self)
        ensures
            r.spec_c_num() == c.spec_num(),
            r.spec_c_den() == c.spec_den(),
    {
        LinearRelation { c_num: c.num(), c_den: c.den(), _marker: std::marker::PhantomData }
    }

    /// The relation `d_out >= d_in * (num / den)`.
    pub fn new_from_ratio(num: i64, den: i64) -> (r: Self)
        requires
            1 <= den <= 0x1_0000_0000,
            -0x1_0000_0000 <= num <= 0x1_0000_0000,
        ensures
            r.spec_c_num() == num,
            r.spec_c_den() == den,
    {
        LinearRelation { c_num: num, c_den: den, _marker: std::marker::PhantomData }
    }
}

/// `a * b * c` for magnitudes that fit a distance.
fn mul3(a: i64, b: i64, c: i64) -> (r: i128)
    requires
        -0x1_0000_0000 <= a <= 0x1_0000_0000,
        -0x1_0000_0000 <= b <= 0x1_0000_0000,
        -0x1_0000_0000 <= c <= 0x1_0000_0000,
    ensures
        r == a * b * c,
        -0x1_0000_0000_0000_0000_0000_0000 <= r <= 0x1_0000_0000_0000_0000_0000_0000,
{
    proof {
        lemma_mul3_bound(a as int, b as int, c as int);
        lemma_mul2_bound(a as int, b as int);
    }
    let ab: i128 = (a as i128) * (b as i128);
    ab * (c as i128)
}

/// `a * b` for magnitudes that fit a distance.
pub(crate) fn mul2(a: i64, b: i64) -> (r: i128)
    requires
        -0x1_0000_0000 <= a <= 0x1_0000_0000,
        -0x1_0000_0000 <= b <= 0x1_0000_0000,
    ensures
        r == a * b,
        -0x1_0000_0000_0000_0000 <= r <= 0x1_0000_0000_0000_0000,
{
    proof {
        lemma_mul2_bound(a as int, b as int);
    }
    (a as i128) * (b as i128)
}

pub(crate) proof fn lemma_mul2_bound(a: int, b: int)
    requires
        -0x1_0000_0000 <= a <= 0x1_0000_0000,
        -0x1_0000_0000 <= b <= 0x1_0000_0000,
    ensures
        -0x1_0000_0000_0000_0000 <= a * b <= 0x1_0000_0000_0000_0000,
{
    let x: int = 0x1_0000_0000;
    assert(-x * x <= a * b <= x * x) by (nonlinear_arith)
        requires -x <= a <= x, -x <= b <= x, x > 0;
}

proof fn lemma_mul3_bound(a: int, b: int, c: int)
    requires
        -0x1_0000_0000 <= a <= 0x1_0000_0000,
        -0x1_0000_0000 <= b <= 0x1_0000_0000,
        -0x1_0000_0000 <= c <= 0x1_0000_0000,
    ensures
        -0x1_0000_0000_0000_0000_0000_0000 <= a * b * c <= 0x1_0000_0000_0000_0000_0000_0000,
{
    let x: int = 0x1_0000_0000;
    lemma_mul2_bound(a, b);
    let y: int = 0x1_0000_0000_0000_0000;
    assert(-y * x <= (a * b) * c <= y * x) by (nonlinear_arith)
        requires -y <= a * b <= y, -x <= c <= x, x > 0, y > 0;
}

impl<QI: Distance, QO: Distance> Relation for LinearRelation<QI, QO> {
    type DIn = QI;
    type DOut = QO;

    open spec fn spec_eval(&self, d_in: QI, d_out: QO) -> Option<bool> {
        spec_linear_eval(self.spec_c_num(), self.spec_c_den(), d_in, d_out)
    }

    open spec fn spec_has_forward(&self) -> bool {
        true
    }

    open spec fn spec_has_backward(&self) -> bool {
        true
    }

    open spec fn spec_forward(&self, d_in: QI) -> Option<QO> {
        spec_linear_forward(self.spec_c_num(), self.spec_c_den(), d_in)
    }

    open spec fn spec_backward(&self, d_out: QO) -> Option<QI> {
        spec_linear_backward::<QI, QO>(self.spec_c_num(), self.spec_c_den(), d_out)
    }

    fn eval(&self, d_in: &QI, d_out: &QO) -> (r: Fallible<bool>) {
        proof {
            use_type_invariant(self);
        }
        let m = match QO::from_ratio_ceil(d_in.num() as i128, d_in.den() as i128) {
            Some(m) => m,
            None => return Err(Error::with_message(ErrorVariant::FailedCast, "failed to cast distance")),
        };
        proof {
            QO::lemma_rounding(d_in.spec_num(), d_in.spec_den());
        }
        let lhs = mul3(m.num(), self.c_num, d_out.den());
        let rhs = mul3(d_out.num(), m.den(), self.c_den);
        proof {
            assert(d_out.spec_num() * (m.spec_den() * self.c_den) == rhs) by (nonlinear_arith)
                requires rhs == d_out.spec_num() * m.spec_den() * self.c_den;
        }
        Ok(lhs <= rhs)
    }

    fn has_forward(&self) -> (r: bool) {
        true
    }

    fn has_backward(&self) -> (r: bool) {
        true
    }

    fn forward_map(&self, d_in: &QI) -> (r: Fallible<QO>) {
        proof {
            use_type_invariant(self);
        }
        let m = match QO::from_ratio_ceil(d_in.num() as i128, d_in.den() as i128) {
            Some(m) => m,
            None => return Err(Error::with_message(ErrorVariant::FailedCast, "failed to cast distance")),
        };
        let n = mul2(m.num(), self.c_num);
        let d = mul2(m.den(), self.c_den);
        proof {
            assert(d > 0) by (nonlinear_arith)
                requires d == m.spec_den() * self.c_den, m.spec_den() >= 1, self.c_den >= 1;
        }
        match QO::from_ratio_ceil(n, d) {
            Some(v) => Ok(v),
            None => Err(Error::with_message(ErrorVariant::FailedCast, "failed to cast distance")),
        }
    }

    fn backward_map(&self, d_out: &QO) -> (r: Fallible<QI>) {
        proof {
            use_type_invariant(self);
        }
        let cn = self.c_num;
        if cn <= 0 {
            return Err(Error::with_message(ErrorVariant::FailedRelation, "constant must be positive"));
        }
        let n = mul2(d_out.num(), self.c_den);
        let d = mul2(d_out.den(), cn);
        proof {
            assert(d > 0) by (nonlinear_arith)
                requires d == d_out.spec_den() * cn, d_out.spec_den() >= 1, cn >= 1;
        }
        let q = match QO::from_ratio_floor(n, d) {
            Some(q) => q,
            None => return Err(Error::with_message(ErrorVariant::FailedCast, "failed to cast distance")),
        };
        match QI::from_ratio_ceil(q.num() as i128, q.den() as i128) {
            Some(v) => Ok(v),
            None => Err(Error::with_message(ErrorVariant::FailedCast, "failed to cast distance")),
        }
    }
}

/// An intermediate distance for a chain of two relations, chosen from the
/// chain's input and output distances. Users supply one to chain relations
/// whose maps cannot connect them; where it fails, so does the chain.
pub trait Hint {
    type DIn;
    type DOut;
    type DMid;

    spec fn spec_hint(&self, d_in: Self::DIn, d_out: Self::DOut) -> Option<Self::DMid>;

    fn eval(&self, d_in: &Self::DIn, d_out: &Self::DOut) -> (r: Fallible<Self::DMid>)
        ensures
            r.is_ok() <==> self.spec_hint(*d_in, *d_out).is_some(),
            r matches Ok(m) ==> self.spec_hint(*d_in, *d_out) == Some(m),
    ;
}

/// The intermediate distance that a chain evaluates its two relations at:
/// the hint's where there is one, else the forward image of the input
/// distance under `relation0` where `use_forward`, else the backward image
/// of the output distance under `relation1`.
pub open spec fn spec_chain_mid<R1: Relation, R0: Relation<DOut = R1::DIn>, H: Hint<DIn = R0::DIn, DOut = R1::DOut, DMid = R1::DIn>>(
    relation1: R1,
    relation0: R0,
    hint: Option<H>,
    use_forward: bool,
    d_in: R0::DIn,
    d_out: R1::DOut,
) -> Option<R1::DIn> {
    match hint {
        Some(h) => h.spec_hint(d_in, d_out),
        None => if use_forward {
            relation0.spec_forward(d_in)
        } else {
            relation1.spec_backward(d_out)
        },
    }
}

/// The relation of a chain: both relations hold at the intermediate distance.
pub open spec fn spec_chain_eval<R1: Relation, R0: Relation<DOut = R1::DIn>, H: Hint<DIn = R0::DIn, DOut = R1::DOut, DMid = R1::DIn>>(
    relation1: R1,
    relation0: R0,
    hint: Option<H>,
    use_forward: bool,
    d_in: R0::DIn,
    d_out: R1::DOut,
) -> Option<bool> {
    match spec_chain_mid(relation1, relation0, hint, use_forward, d_in, d_out) {
        None => None,
        Some(mid) => match relation0.spec_eval(d_in, mid) {
            None => None,
            Some(false) => Some(false),
            Some(true) => relation1.spec_eval(mid, d_out),
        },
    }
}

/// The relation of `relation1` after `relation0`, evaluated at an intermediate
/// distance that the hint gives where there is one; without a hint, that the
/// forward map of `relation0` gives where it has one, and the backward map of
/// `relation1` otherwise.
pub struct ChainRelation<R1: Relation, R0: Relation<DOut = R1::DIn>, H: Hint<DIn = R0::DIn, DOut = R1::DOut, DMid = R1::DIn>> {
    relation1: R1,
    relation0: R0,
    hint: Option<H>,
    use_forward: bool,
}

impl<R1: Relation, R0: Relation<DOut = R1::DIn>, H: Hint<DIn = R0::DIn, DOut = R1::DOut, DMid = R1::DIn>> ChainRelation<R1, R0, H> {
    #[verifier::type_invariant]
    spec fn chain_wf(self) -> bool {
        self.hint.is_some() || if self.use_forward {
            self.relation0.spec_has_forward()
        } else {
            self.relation1.spec_has_backward()
        }
    }

    pub closed spec fn spec_relation1(self) -> R1 {
        self.relation1
    }

    pub closed spec fn spec_relation0(self) -> R0 {
        self.relation0
    }

    pub closed spec fn spec_use_forward(self) -> bool {
        self.use_forward
    }

    pub closed spec fn spec_hint(self) -> Option<H> {
        self.hint
    }

    /// Chains two relations; the hint supplies the intermediate distance
    /// where there is one, and otherwise the forward map of `relation0` where
    /// it exists, else the backward map of `relation1`.
    pub fn make_chain(relation1: R1, relation0: R0, hint: Option<H>) -> (r: Self)
        requires
            hint.is_some() || relation0.spec_has_forward() || relation1.spec_has_backward(),
        ensures
            r.spec_relation1() == relation1,
            r.spec_relation0() == relation0,
            r.spec_hint() == hint,
            r.spec_use_forward() == relation0.spec_has_forward(),
    {
        let use_forward = relation0.has_forward();
        ChainRelation { relation1, relation0, hint, use_forward }
    }
}

impl<R1: Relation, R0: Relation<DOut = R1::DIn>, H: Hint<DIn = R0::DIn, DOut = R1::DOut, DMid = R1::DIn>> Relation for ChainRelation<R1, R0, H> {
    type DIn = R0::DIn;
    type DOut = R1::DOut;

    open spec fn spec_eval(&self, d_in: R0::DIn, d_out: R1::DOut) -> Option<bool> {
        spec_chain_eval(self.spec_relation1(), self.spec_relation0(), self.spec_hint(), self.spec_use_forward(), d_in, d_out)
    }

    open spec fn spec_has_forward(&self) -> bool {
        self.spec_relation0().spec_has_forward() && self.spec_relation1().spec_has_forward()
    }

    open spec fn spec_has_backward(&self) -> bool {
        self.spec_relation0().spec_has_backward() && self.spec_relation1().spec_has_backward()
    }

    open spec fn spec_forward(&self, d_in: R0::DIn) -> Option<R1::DOut> {
        match self.spec_relation0().spec_forward(d_in) {
            Some(mid) => self.spec_relation1().spec_forward(mid),
            None => None,
        }
    }

    open spec fn spec_backward(&self, d_out: R1::DOut) -> Option<R0::DIn> {
        match self.spec_relation1().spec_backward(d_out) {
            Some(mid) => self.spec_relation0().spec_backward(mid),
            None => None,
        }
    }

    fn eval(&self, d_in: &R0::DIn, d_out: &R1::DOut) -> (r: Fallible<bool>) {
        proof {
            use_type_invariant(self);
        }
        let mid = match &self.hint {
            Some(h) => h.eval(d_in, d_out)?,
            None => if self.use_forward {
                self.relation0.forward_map(d_in)?
            } else {
                self.relation1.backward_map(d_out)?
            },
        };
        if !self.relation0.eval(d_in, &mid)? {
            return Ok(false);
        }
        self.relation1.eval(&mid, d_out)
    }

    fn has_forward(&self) -> (r: bool) {
        self.relation0.has_forward() && self.relation1.has_forward()
    }

    fn has_backward(&self) -> (r: bool) {
        self.relation0.has_backward() && self.relation1.has_backward()
    }

    fn forward_map(&self, d_in: &R0::DIn) -> (r: Fallible<R1::DOut>) {
        let mid = self.relation0.forward_map(d_in)?;
        self.relation1.forward_map(&mid)
    }

    fn backward_map(&self, d_out: &R1::DOut) -> (r: Fallible<R0::DIn>) {
        let mid = self.relation1.backward_map(d_out)?;
        self.relation0.backward_map(&mid)
    }
}

/// The relation that holds where the input distance is within `d_in_budget`
/// and the output distance within `d_out_budget`.
pub struct BudgetRelation<QI, QO> {
    pub d_in_budget: QI,
    pub d_out_budget: QO,
}

impl<QI: Distance, QO: Distance> Relation for BudgetRelation<QI, QO> {
    type DIn = QI;
    type DOut = QO;

    open spec fn spec_eval(&self, d_in: QI, d_out: QO) -> Option<bool> {
        Some(
            q_le(d_in.spec_num(), d_in.spec_den(), self.d_in_budget.spec_num(), self.d_in_budget.spec_den())
                && q_le(d_out.spec_num(), d_out.spec_den(), self.d_out_budget.spec_num(), self.d_out_budget.spec_den()),
        )
    }

    open spec fn spec_has_forward(&self) -> bool {
        false
    }

    open spec fn spec_has_backward(&self) -> bool {
        false
    }

    open spec fn spec_forward(&self, d_in: QI) -> Option<QO> {
        None
    }

    open spec fn spec_backward(&self, d_out: QO) -> Option<QI> {
        None
    }

    fn eval(&self, d_in: &QI, d_out: &QO) -> (r: Fallible<bool>) {
        let a = le_distance(d_in, &self.d_in_budget);
        let b = le_distance(d_out, &self.d_out_budget);
        Ok(a && b)
    }

    fn has_forward(&self) -> (r: bool) {
        false
    }

    fn has_backward(&self) -> (r: bool) {
        false
    }

    fn forward_map(&self, d_in: &QI) -> (r: Fallible<QO>)
        ensures
            r matches Err(e) && e.variant == ErrorVariant::NotImplemented,
    {
        Err(Error::new(ErrorVariant::NotImplemented))
    }

    fn backward_map(&self, d_out: &QO) -> (r: Fallible<QI>)
        ensures
            r matches Err(e) && e.variant == ErrorVariant::NotImplemented,
    {
        Err(Error::new(ErrorVariant::NotImplemented))
    }
}

/// Whether distance `a` is at most distance `b`.
pub fn le_distance<A: Distance, B: Distance>(a: &A, b: &B) -> (r: bool)
    ensures
        r == q_le(a.spec_num(), a.spec_den(), b.spec_num(), b.spec_den()),
{
    let l = mul2(a.num(), b.den());
    let rr = mul2(b.num(), a.den());
    l <= rr
}

/// The relation that never holds.
pub struct NeverRelation<QI, QO> {
    pub _marker: std::marker::PhantomData<(QI, QO)>,
}

impl<QI, QO> Relation for NeverRelation<QI, QO> {
    type DIn = QI;
    type DOut = QO;

    open spec fn spec_eval(&self, d_in: QI, d_out: QO) -> Option<bool> {
        Some(false)
    }

    open spec fn spec_has_forward(&self) -> bool {
        false
    }

    open spec fn spec_has_backward(&self) -> bool {
        false
    }

    open spec fn spec_forward(&self, d_in: QI) -> Option<QO> {
        None
    }

    open spec fn spec_backward(&self, d_out: QO) -> Option<QI> {
        None
    }

    fn eval(&self, d_in: &QI, d_out: &QO) -> (r: Fallible<bool>) {
        Ok(false)
    }

    fn has_forward(&self) -> (r: bool) {
        false
    }

    fn has_backward(&self) -> (r: bool) {
        false
    }

    fn forward_map(&self, d_in: &QI) -> (r: Fallible<QO>)
        ensures
            r matches Err(e) && e.variant == ErrorVariant::NotImplemented,
    {
        Err(Error::new(ErrorVariant::NotImplemented))
    }

    fn backward_map(&self, d_out: &QO) -> (r: Fallible<QI>)
        ensures
            r matches Err(e) && e.variant == ErrorVariant::NotImplemented,
    {
        Err(Error::new(ErrorVariant::NotImplemented))
    }
}

/// Function composition: `function0`, then `function1`.
pub struct ChainFunction<F1, F0> {
    pub function1: F1,
    pub function0: F0,
}

impl<F1: Function, F0: Function<Output = F1::Input>> Function for ChainFunction<F1, F0> {
    type Input = F0::Input;
    type Output = F1::Output;

    open spec fn spec_eval(&self, arg: <F0::Input as DeepView>::V) -> Option<<F1::Output as DeepView>::V> {
        match self.function0.spec_eval(arg) {
            Some(mid) => self.function1.spec_eval(mid),
            None => None,
        }
    }

    /// Where the first function fails, its error; otherwise that of the second.
    open spec fn spec_error(&self, arg: <F0::Input as DeepView>::V) -> ErrorVariant {
        match self.function0.spec_eval(arg) {
            Some(mid) => self.function1.spec_error(mid),
            None => self.function0.spec_error(arg),
        }
    }

    fn eval(&self, arg: &F0::Input) -> (r: Fallible<F1::Output>) {
        let mid = self.function0.eval(arg)?;
        self.function1.eval(&mid)
    }
}

impl<F1, F0> ChainFunction<F1, F0> {
    /// The function that applies `function0`, then `function1`.
    pub fn make_chain(function1: F1, function0: F0) -> (r: Self)
        ensures
            r.function1 == function1,
            r.function0 == function0,
    {
        ChainFunction { function1, function0 }
    }
}

/// A chain evaluates its first function and then its second on the result:
/// it succeeds with the second function's value at the first one's value,
/// and where the first function fails, the chain fails with the first
/// function's kind of error without the second being consulted; where only
/// the second fails, with the second function's kind of error.
pub proof fn lemma_chain_eval<F1: Function, F0: Function<Output = F1::Input>>(
    chain: ChainFunction<F1, F0>,
    arg: <F0::Input as DeepView>::V,
)
    ensures
        chain.spec_eval(arg) == (match chain.function0.spec_eval(arg) {
            Some(mid) => chain.function1.spec_eval(mid),
            None => None,
        }),
        chain.function0.spec_eval(arg) is None ==> chain.spec_eval(arg) is None && chain.spec_error(arg)
            == chain.function0.spec_error(arg),
        chain.function0.spec_eval(arg) matches Some(mid) ==> chain.spec_error(arg) == chain.function1.spec_error(
            mid,
        ),
{
}

/// Two functions of the same input, evaluated side by side.
pub struct PairFunction<F0, F1> {
    pub function0: F0,
    pub function1: F1,
}

impl<F0: Function, F1: Function<Input = F0::Input>> Function for PairFunction<F0, F1> {
    type Input = F0::Input;
    type Output = (F0::Output, F1::Output);

    open spec fn spec_eval(&self, arg: <F0::Input as DeepView>::V) -> Option<(<F0::Output as DeepView>::V, <F1::Output as DeepView>::V)> {
        match (self.function0.spec_eval(arg), self.function1.spec_eval(arg)) {
            (Some(a), Some(b)) => Some((a, b)),
            _ => None,
        }
    }

    /// Where the first function fails, its error; otherwise that of the second.
    open spec fn spec_error(&self, arg: <F0::Input as DeepView>::V) -> ErrorVariant {
        match self.function0.spec_eval(arg) {
            Some(_) => self.function1.spec_error(arg),
            None => self.function0.spec_error(arg),
        }
    }

    fn eval(&self, arg: &F0::Input) -> (r: Fallible<(F0::Output, F1::Output)>) {
        let a = self.function0.eval(arg)?;
        let b = self.function1.eval(arg)?;
        Ok((a, b))
    }
}

/// A data transformation with certain stability characteristics.
pub struct Transformation<DI, DO, MI, MO, F, R> {
    pub input_domain: DI,
    pub output_domain: DO,
    pub function: F,
    pub input_metric: MI,
    pub output_metric: MO,
    pub stability_relation: R,
}

impl<DI, DO, MI, MO, F, R> Transformation<DI, DO, MI, MO, F, R>
    where
        DI: Domain,
        DO: Domain,
        DI::Carrier: DeepView,
        DO::Carrier: DeepView,
        MI: Metric,
        MO: Metric,
        F: Function<Input = DI::Carrier, Output = DO::Carrier>,
        R: Relation<DIn = MI::Distance, DOut = MO::Distance>,
{
    /// Assembles a transformation from its parts.
    pub fn new(
        input_domain: DI,
        output_domain: DO,
        function: F,
        input_metric: MI,
        output_metric: MO,
        stability_relation: R,
    ) -> (r: Self)
        ensures
            r.input_domain == input_domain,
            r.output_domain == output_domain,
            r.function == function,
            r.input_metric == input_metric,
            r.output_metric == output_metric,
            r.stability_relation == stability_relation,
    {
        Transformation { input_domain, output_domain, function, input_metric, output_metric, stability_relation }
    }

    /// Applies the transformation's function.
    pub fn invoke(&self, arg: &F::Input) -> (r: Fallible<F::Output>)
        ensures
            r.is_ok() <==> self.function.spec_eval(arg.deep_view()).is_some(),
            r matches Ok(v) ==> self.function.spec_eval(arg.deep_view()) == Some(v.deep_view()),
    {
        self.function.eval(arg)
    }

    /// Evaluates the stability relation.
    pub fn check(&self, d_in: &MI::Distance, d_out: &MO::Distance) -> (r: Fallible<bool>)
        ensures
            r.is_ok() <==> self.stability_relation.spec_eval(*d_in, *d_out).is_some(),
            r matches Ok(b) ==> self.stability_relation.spec_eval(*d_in, *d_out) == Some(b),
    {
        self.stability_relation.eval(d_in, d_out)
    }
}

/// A randomized mechanism with certain privacy characteristics.
pub struct Measurement<DI, DO, MI, MO, F, R> {
    pub input_domain: DI,
    pub output_domain: DO,
    pub function: F,
    pub input_metric: MI,
    pub output_measure: MO,
    pub privacy_relation: R,
}

impl<DI, DO, MI, MO, F, R> Measurement<DI, DO, MI, MO, F, R>
    where
        DI: Domain,
        DO: Domain,
        DI::Carrier: DeepView,
        DO::Carrier: DeepView,
        MI: Metric,
        MO: Measure,
        F: Function<Input = DI::Carrier, Output = DO::Carrier>,
        R: Relation<DIn = MI::Distance, DOut = MO::Distance>,
{
    /// Assembles a measurement from its parts.
    pub fn new(
        input_domain: DI,
        output_domain: DO,
        function: F,
        input_metric: MI,
        output_measure: MO,
        privacy_relation: R,
    ) -> (r: Self)
        ensures
            r.input_domain == input_domain,
            r.output_domain == output_domain,
            r.function == function,
            r.input_metric == input_metric,
            r.output_measure == output_measure,
            r.privacy_relation == privacy_relation,
    {
        Measurement { input_domain, output_domain, function, input_metric, output_measure, privacy_relation }
    }

    /// Applies the measurement's function.
    pub fn invoke(&self, arg: &F::Input) -> (r: Fallible<F::Output>)
        ensures
            r.is_ok() <==> self.function.spec_eval(arg.deep_view()).is_some(),
            r matches Ok(v) ==> self.function.spec_eval(arg.deep_view()) == Some(v.deep_view()),
    {
        self.function.eval(arg)
    }

    /// Evaluates the privacy relation.
    pub fn check(&self, d_in: &MI::Distance, d_out: &MO::Distance) -> (r: Fallible<bool>)
        ensures
            r.is_ok() <==> self.privacy_relation.spec_eval(*d_in, *d_out).is_some(),
            r matches Ok(b) ==> self.privacy_relation.spec_eval(*d_in, *d_out) == Some(b),
    {
        self.privacy_relation.eval(d_in, d_out)
    }
}

/// `q_le` is transitive over positive denominators.
pub proof fn lemma_q_le_trans(a_n: int, a_d: int, b_n: int, b_d: int, c_n: int, c_d: int)
    requires
        a_d > 0,
        b_d > 0,
        c_d > 0,
        q_le(a_n, a_d, b_n, b_d),
        q_le(b_n, b_d, c_n, c_d),
    ensures
        q_le(a_n, a_d, c_n, c_d),
{
    assert(a_n * b_d * c_d <= b_n * a_d * c_d) by (nonlinear_arith)
        requires a_n * b_d <= b_n * a_d, c_d > 0;
    assert(b_n * c_d * a_d <= c_n * b_d * a_d) by (nonlinear_arith)
        requires b_n * c_d <= c_n * b_d, a_d > 0;
    assert(a_n * c_d * b_d <= c_n * a_d * b_d) by (nonlinear_arith)
        requires a_n * b_d * c_d <= b_n * a_d * c_d, b_n * c_d * a_d <= c_n * b_d * a_d;
    assert(a_n * c_d <= c_n * a_d) by (nonlinear_arith)
        requires a_n * c_d * b_d <= c_n * a_d * b_d, b_d > 0;
}

/// Law: the forward map of a constant relation gives an output distance at
/// which the relation holds.
pub proof fn lemma_linear_forward_sound<QI: Distance, QO: Distance>(relation: LinearRelation<QI, QO>, d_in: QI)
    requires
        relation.spec_c_den() > 0,
        d_in.spec_wf(),
    ensures
        relation.spec_forward(d_in) matches Some(d_mid) ==> relation.spec_eval(d_in, d_mid) == Some(true),
{
    d_in.lemma_wf();
    QO::lemma_rounding(d_in.spec_num(), d_in.spec_den());
    if let Some(m) = QO::spec_from_ceil(d_in.spec_num(), d_in.spec_den()) {
        let n = m.spec_num() * relation.spec_c_num();
        let d = m.spec_den() * relation.spec_c_den();
        assert(d > 0) by (nonlinear_arith)
            requires d == m.spec_den() * relation.spec_c_den(), m.spec_den() > 0, relation.spec_c_den() > 0;
        QO::lemma_rounding(n, d);
    }
}

/// Law: a constant relation that holds at an output distance holds at every
/// larger output distance.
pub proof fn lemma_linear_monotone<QI: Distance, QO: Distance>(
    relation: LinearRelation<QI, QO>,
    d_in: QI,
    d_out: QO,
    d_out_larger: QO,
)
    requires
        relation.spec_c_den() > 0,
        d_in.spec_wf(),
        d_out.spec_wf(),
        d_out_larger.spec_wf(),
        relation.spec_eval(d_in, d_out) == Some(true),
        q_le(d_out.spec_num(), d_out.spec_den(), d_out_larger.spec_num(), d_out_larger.spec_den()),
    ensures
        relation.spec_eval(d_in, d_out_larger) == Some(true),
{
    d_in.lemma_wf();
    QO::lemma_rounding(d_in.spec_num(), d_in.spec_den());
    d_out.lemma_wf();
    d_out_larger.lemma_wf();
    let m = QO::spec_from_ceil(d_in.spec_num(), d_in.spec_den()).unwrap();
    let n = m.spec_num() * relation.spec_c_num();
    let d = m.spec_den() * relation.spec_c_den();
    assert(d > 0) by (nonlinear_arith)
        requires d == m.spec_den() * relation.spec_c_den(), m.spec_den() > 0, relation.spec_c_den() > 0;
    lemma_q_le_trans(n, d, d_out.spec_num(), d_out.spec_den(), d_out_larger.spec_num(), d_out_larger.spec_den());
}

/// Law: where a chained relation holds, there is an intermediate distance at
/// which the first relation holds from the input and the second to the output.
pub proof fn lemma_chain_sound<R1: Relation, R0: Relation<DOut = R1::DIn>, H: Hint<DIn = R0::DIn, DOut = R1::DOut, DMid = R1::DIn>>(
    chain: ChainRelation<R1, R0, H>,
    d_in: R0::DIn,
    d_out: R1::DOut,
)
    requires
        chain.spec_eval(d_in, d_out) == Some(true),
    ensures
        exists|d_mid: R1::DIn|
            chain.spec_relation0().spec_eval(d_in, d_mid) == Some(true)
                && chain.spec_relation1().spec_eval(d_mid, d_out) == Some(true),
{
    let mid = spec_chain_mid(
        chain.spec_relation1(),
        chain.spec_relation0(),
        chain.spec_hint(),
        chain.spec_use_forward(),
        d_in,
        d_out,
    ).unwrap();
    assert(chain.spec_relation0().spec_eval(d_in, mid) == Some(true));
}

/// Law: chaining two constant relations through the forward map of the first
/// is the second relation evaluated at the forward image of the input distance.
pub proof fn lemma_chain_linear<QI: Distance, QX: Distance, QO: Distance, H: Hint<DIn = QI, DOut = QO, DMid = QX>>(
    chain: ChainRelation<LinearRelation<QX, QO>, LinearRelation<QI, QX>, H>,
    d_in: QI,
    d_out: QO,
)
    requires
        chain.spec_hint() is None,
        chain.spec_relation0().spec_c_den() > 0,
        chain.spec_use_forward(),
        d_in.spec_wf(),
    ensures
        chain.spec_eval(d_in, d_out) == (match chain.spec_relation0().spec_forward(d_in) {
            Some(d_mid) => chain.spec_relation1().spec_eval(d_mid, d_out),
            None => None,
        }),
{
    lemma_linear_forward_sound(chain.spec_relation0(), d_in);
}

} // verus!
