//! A dynamically typed container of values of several forms: scalars,
//! vectors, maps keyed by strings, and pairs with nested data.
use vstd::prelude::*;
use std::collections::HashMap;

verus! {

/// The value held by a `Data`, tagged by its form.
#[derive(Debug, PartialEq)]
pub enum FormValue {
    U8(u8),
    VecU8(Vec<u8>),
    MapU8(HashMap<String, u8>),
    PairU8(Box<(u8, Data)>),
    U32(u32),
    VecU32(Vec<u32>),
    MapU32(HashMap<String, u32>),
    PairU32(Box<(u32, Data)>),
    U64(u64),
    VecU64(Vec<u64>),
    MapU64(HashMap<String, u64>),
    PairU64(Box<(u64, Data)>),
    I32(i32),
    VecI32(Vec<i32>),
    MapI32(HashMap<String, i32>),
    PairI32(Box<(i32, Data)>),
    I64(i64),
    VecI64(Vec<i64>),
    MapI64(HashMap<String, i64>),
    PairI64(Box<(i64, Data)>),
    Bool(bool),
    VecBool(Vec<bool>),
    MapBool(HashMap<String, bool>),
    PairBool(Box<(bool, Data)>),
    Str(String),
    VecStr(Vec<String>),
    MapStr(HashMap<String, String>),
    PairStr(Box<(String, Data)>),
    Data(Box<Data>),
    VecData(Vec<Data>),
    MapData(HashMap<String, Data>),
    PairData(Box<(Data, Data)>),
}

/// A type that can stand as an element of a form.
pub trait Element: Sized {
    /// The element as a scalar form.
    spec fn spec_scalar(self) -> FormValue;

    /// A vector of elements as a form.
    spec fn spec_vec(v: Vec<Self>) -> FormValue;

    /// A map of elements as a form.
    spec fn spec_map(m: HashMap<String, Self>) -> FormValue;

    /// A pair of an element and data as a form.
    spec fn spec_pair(p: (Self, Data)) -> FormValue;

    fn into_scalar(self) -> (r: FormValue)
        ensures
            r == Self::spec_scalar(self),
    ;

    fn into_vec(v: Vec<Self>) -> (r: FormValue)
        ensures
            r == Self::spec_vec(v),
    ;

    fn into_map(m: HashMap<String, Self>) -> (r: FormValue)
        ensures
            r == Self::spec_map(m),
    ;

    fn into_pair(p: (Self, Data)) -> (r: FormValue)
        ensures
            r == Self::spec_pair(p),
    ;

    fn scalar_ref(f: &FormValue) -> (r: Option<&Self>)
        ensures
            r matches Some(x) ==> *f == Self::spec_scalar(*x),
            (exists|x: Self| *f == Self::spec_scalar(x)) ==> r.is_some(),
    ;

    fn vec_ref(f: &FormValue) -> (r: Option<&Vec<Self>>)
        ensures
            r matches Some(x) ==> *f == Self::spec_vec(*x),
            (exists|x: Vec<Self>| *f == Self::spec_vec(x)) ==> r.is_some(),
    ;

    fn map_ref(f: &FormValue) -> (r: Option<&HashMap<String, Self>>)
        ensures
            r matches Some(x) ==> *f == Self::spec_map(*x),
            (exists|x: HashMap<String, Self>| *f == Self::spec_map(x)) ==> r.is_some(),
    ;

    fn pair_ref(f: &FormValue) -> (r: Option<&(Self, Data)>)
        ensures
            r matches Some(x) ==> *f == Self::spec_pair(*x),
            (exists|x: (Self, Data)| *f == Self::spec_pair(x)) ==> r.is_some(),
    ;

    fn scalar_owned(f: FormValue) -> (r: Option<Self>)
        ensures
            r matches Some(x) ==> f == Self::spec_scalar(x),
            (exists|x: Self| f == Self::spec_scalar(x)) ==> r.is_some(),
    ;

    fn vec_owned(f: FormValue) -> (r: Option<Vec<Self>>)
        ensures
            r matches Some(x) ==> f == Self::spec_vec(x),
            (exists|x: Vec<Self>| f == Self::spec_vec(x)) ==> r.is_some(),
    ;

    fn map_owned(f: FormValue) -> (r: Option<HashMap<String, Self>>)
        ensures
            r matches Some(x) ==> f == Self::spec_map(x),
            (exists|x: HashMap<String, Self>| f == Self::spec_map(x)) ==> r.is_some(),
    ;

    fn pair_owned(f: FormValue) -> (r: Option<(Self, Data)>)
        ensures
            r matches Some(x) ==> f == Self::spec_pair(x),
            (exists|x: (Self, Data)| f == Self::spec_pair(x)) ==> r.is_some(),
    ;

    /// Each way of wrapping is one to one.
    proof fn lemma_injective(x: Self, y: Self, v: Vec<Self>, w: Vec<Self>, m: HashMap<String, Self>, n: HashMap<String, Self>, p: (Self, Data), q: (Self, Data))
        ensures
            Self::spec_scalar(x) == Self::spec_scalar(y) ==> x == y,
            Self::spec_vec(v) == Self::spec_vec(w) ==> v == w,
            Self::spec_map(m) == Self::spec_map(n) ==> m == n,
            Self::spec_pair(p) == Self::spec_pair(q) ==> p == q,
    ;
}

impl Element for u8 {
    open spec fn spec_scalar(self) -> FormValue {
        FormValue::U8(self)
    }

    open spec fn spec_vec(v: Vec<Self>) -> FormValue {
        FormValue::VecU8(v)
    }

    open spec fn spec_map(m: HashMap<String, Self>) -> FormValue {
        FormValue::MapU8(m)
    }

    open spec fn spec_pair(p: (Self, Data)) -> FormValue {
        FormValue::PairU8(Box::new(p))
    }

    fn into_scalar(self) -> (r: FormValue) {
        FormValue::U8(self)
    }

    fn into_vec(v: Vec<Self>) -> (r: FormValue) {
        FormValue::VecU8(v)
    }

    fn into_map(m: HashMap<String, Self>) -> (r: FormValue) {
        FormValue::MapU8(m)
    }

    fn into_pair(p: (Self, Data)) -> (r: FormValue) {
        FormValue::PairU8(Box::new(p))
    }

    fn scalar_ref(f: &FormValue) -> (r: Option<&Self>) {
        match f {
            FormValue::U8(x) => Some(x),
            _ => None,
        }
    }

    fn vec_ref(f: &FormValue) -> (r: Option<&Vec<Self>>) {
        match f {
            FormValue::VecU8(x) => Some(x),
            _ => None,
        }
    }

    fn map_ref(f: &FormValue) -> (r: Option<&HashMap<String, Self>>) {
        match f {
            FormValue::MapU8(x) => Some(x),
            _ => None,
        }
    }

    fn pair_ref(f: &FormValue) -> (r: Option<&(Self, Data)>) {
        match f {
            FormValue::PairU8(x) => Some(&**x),
            _ => None,
        }
    }

    fn scalar_owned(f: FormValue) -> (r: Option<Self>) {
        match f {
            FormValue::U8(x) => Some(x),
            _ => None,
        }
    }

    fn vec_owned(f: FormValue) -> (r: Option<Vec<Self>>) {
        match f {
            FormValue::VecU8(x) => Some(x),
            _ => None,
        }
    }

    fn map_owned(f: FormValue) -> (r: Option<HashMap<String, Self>>) {
        match f {
            FormValue::MapU8(x) => Some(x),
            _ => None,
        }
    }

    fn pair_owned(f: FormValue) -> (r: Option<(Self, Data)>) {
        match f {
            FormValue::PairU8(x) => Some(*x),
            _ => None,
        }
    }

    proof fn lemma_injective(x: Self, y: Self, v: Vec<Self>, w: Vec<Self>, m: HashMap<String, Self>, n: HashMap<String, Self>, p: (Self, Data), q: (Self, Data)) {
    }
}

impl Element for u32 {
    open spec fn spec_scalar(self) -> FormValue {
        FormValue::U32(self)
    }

    open spec fn spec_vec(v: Vec<Self>) -> FormValue {
        FormValue::VecU32(v)
    }

    open spec fn spec_map(m: HashMap<String, Self>) -> FormValue {
        FormValue::MapU32(m)
    }

    open spec fn spec_pair(p: (Self, Data)) -> FormValue {
        FormValue::PairU32(Box::new(p))
    }

    fn into_scalar(self) -> (r: FormValue) {
        FormValue::U32(self)
    }

    fn into_vec(v: Vec<Self>) -> (r: FormValue) {
        FormValue::VecU32(v)
    }

    fn into_map(m: HashMap<String, Self>) -> (r: FormValue) {
        FormValue::MapU32(m)
    }

    fn into_pair(p: (Self, Data)) -> (r: FormValue) {
        FormValue::PairU32(Box::new(p))
    }

    fn scalar_ref(f: &FormValue) -> (r: Option<&Self>) {
        match f {
            FormValue::U32(x) => Some(x),
            _ => None,
        }
    }

    fn vec_ref(f: &FormValue) -> (r: Option<&Vec<Self>>) {
        match f {
            FormValue::VecU32(x) => Some(x),
            _ => None,
        }
    }

    fn map_ref(f: &FormValue) -> (r: Option<&HashMap<String, Self>>) {
        match f {
            FormValue::MapU32(x) => Some(x),
            _ => None,
        }
    }

    fn pair_ref(f: &FormValue) -> (r: Option<&(Self, Data)>) {
        match f {
            FormValue::PairU32(x) => Some(&**x),
            _ => None,
        }
    }

    fn scalar_owned(f: FormValue) -> (r: Option<Self>) {
        match f {
            FormValue::U32(x) => Some(x),
            _ => None,
        }
    }

    fn vec_owned(f: FormValue) -> (r: Option<Vec<Self>>) {
        match f {
            FormValue::VecU32(x) => Some(x),
            _ => None,
        }
    }

    fn map_owned(f: FormValue) -> (r: Option<HashMap<String, Self>>) {
        match f {
            FormValue::MapU32(x) => Some(x),
            _ => None,
        }
    }

    fn pair_owned(f: FormValue) -> (r: Option<(Self, Data)>) {
        match f {
            FormValue::PairU32(x) => Some(*x),
            _ => None,
        }
    }

    proof fn lemma_injective(x: Self, y: Self, v: Vec<Self>, w: Vec<Self>, m: HashMap<String, Self>, n: HashMap<String, Self>, p: (Self, Data), q: (Self, Data)) {
    }
}

impl Element for u64 {
    open spec fn spec_scalar(self) -> FormValue {
        FormValue::U64(self)
    }

    open spec fn spec_vec(v: Vec<Self>) -> FormValue {
        FormValue::VecU64(v)
    }

    open spec fn spec_map(m: HashMap<String, Self>) -> FormValue {
        FormValue::MapU64(m)
    }

    open spec fn spec_pair(p: (Self, Data)) -> FormValue {
        FormValue::PairU64(Box::new(p))
    }

    fn into_scalar(self) -> (r: FormValue) {
        FormValue::U64(self)
    }

    fn into_vec(v: Vec<Self>) -> (r: FormValue) {
        FormValue::VecU64(v)
    }

    fn into_map(m: HashMap<String, Self>) -> (r: FormValue) {
        FormValue::MapU64(m)
    }

    fn into_pair(p: (Self, Data)) -> (r: FormValue) {
        FormValue::PairU64(Box::new(p))
    }

    fn scalar_ref(f: &FormValue) -> (r: Option<&Self>) {
        match f {
            FormValue::U64(x) => Some(x),
            _ => None,
        }
    }

    fn vec_ref(f: &FormValue) -> (r: Option<&Vec<Self>>) {
        match f {
            FormValue::VecU64(x) => Some(x),
            _ => None,
        }
    }

    fn map_ref(f: &FormValue) -> (r: Option<&HashMap<String, Self>>) {
        match f {
            FormValue::MapU64(x) => Some(x),
            _ => None,
        }
    }

    fn pair_ref(f: &FormValue) -> (r: Option<&(Self, Data)>) {
        match f {
            FormValue::PairU64(x) => Some(&**x),
            _ => None,
        }
    }

    fn scalar_owned(f: FormValue) -> (r: Option<Self>) {
        match f {
            FormValue::U64(x) => Some(x),
            _ => None,
        }
    }

    fn vec_owned(f: FormValue) -> (r: Option<Vec<Self>>) {
        match f {
            FormValue::VecU64(x) => Some(x),
            _ => None,
        }
    }

    fn map_owned(f: FormValue) -> (r: Option<HashMap<String, Self>>) {
        match f {
            FormValue::MapU64(x) => Some(x),
            _ => None,
        }
    }

    fn pair_owned(f: FormValue) -> (r: Option<(Self, Data)>) {
        match f {
            FormValue::PairU64(x) => Some(*x),
            _ => None,
        }
    }

    proof fn lemma_injective(x: Self, y: Self, v: Vec<Self>, w: Vec<Self>, m: HashMap<String, Self>, n: HashMap<String, Self>, p: (Self, Data), q: (Self, Data)) {
    }
}

impl Element for i32 {
    open spec fn spec_scalar(self) -> FormValue {
        FormValue::I32(self)
    }

    open spec fn spec_vec(v: Vec<Self>) -> FormValue {
        FormValue::VecI32(v)
    }

    open spec fn spec_map(m: HashMap<String, Self>) -> FormValue {
        FormValue::MapI32(m)
    }

    open spec fn spec_pair(p: (Self, Data)) -> FormValue {
        FormValue::PairI32(Box::new(p))
    }

    fn into_scalar(self) -> (r: FormValue) {
        FormValue::I32(self)
    }

    fn into_vec(v: Vec<Self>) -> (r: FormValue) {
        FormValue::VecI32(v)
    }

    fn into_map(m: HashMap<String, Self>) -> (r: FormValue) {
        FormValue::MapI32(m)
    }

    fn into_pair(p: (Self, Data)) -> (r: FormValue) {
        FormValue::PairI32(Box::new(p))
    }

    fn scalar_ref(f: &FormValue) -> (r: Option<&Self>) {
        match f {
            FormValue::I32(x) => Some(x),
            _ => None,
        }
    }

    fn vec_ref(f: &FormValue) -> (r: Option<&Vec<Self>>) {
        match f {
            FormValue::VecI32(x) => Some(x),
            _ => None,
        }
    }

    fn map_ref(f: &FormValue) -> (r: Option<&HashMap<String, Self>>) {
        match f {
            FormValue::MapI32(x) => Some(x),
            _ => None,
        }
    }

    fn pair_ref(f: &FormValue) -> (r: Option<&(Self, Data)>) {
        match f {
            FormValue::PairI32(x) => Some(&**x),
            _ => None,
        }
    }

    fn scalar_owned(f: FormValue) -> (r: Option<Self>) {
        match f {
            FormValue::I32(x) => Some(x),
            _ => None,
        }
    }

    fn vec_owned(f: FormValue) -> (r: Option<Vec<Self>>) {
        match f {
            FormValue::VecI32(x) => Some(x),
            _ => None,
        }
    }

    fn map_owned(f: FormValue) -> (r: Option<HashMap<String, Self>>) {
        match f {
            FormValue::MapI32(x) => Some(x),
            _ => None,
        }
    }

    fn pair_owned(f: FormValue) -> (r: Option<(Self, Data)>) {
        match f {
            FormValue::PairI32(x) => Some(*x),
            _ => None,
        }
    }

    proof fn lemma_injective(x: Self, y: Self, v: Vec<Self>, w: Vec<Self>, m: HashMap<String, Self>, n: HashMap<String, Self>, p: (Self, Data), q: (Self, Data)) {
    }
}

impl Element for i64 {
    open spec fn spec_scalar(self) -> FormValue {
        FormValue::I64(self)
    }

    open spec fn spec_vec(v: Vec<Self>) -> FormValue {
        FormValue::VecI64(v)
    }

    open spec fn spec_map(m: HashMap<String, Self>) -> FormValue {
        FormValue::MapI64(m)
    }

    open spec fn spec_pair(p: (Self, Data)) -> FormValue {
        FormValue::PairI64(Box::new(p))
    }

    fn into_scalar(self) -> (r: FormValue) {
        FormValue::I64(self)
    }

    fn into_vec(v: Vec<Self>) -> (r: FormValue) {
        FormValue::VecI64(v)
    }

    fn into_map(m: HashMap<String, Self>) -> (r: FormValue) {
        FormValue::MapI64(m)
    }

    fn into_pair(p: (Self, Data)) -> (r: FormValue) {
        FormValue::PairI64(Box::new(p))
    }

    fn scalar_ref(f: &FormValue) -> (r: Option<&Self>) {
        match f {
            FormValue::I64(x) => Some(x),
            _ => None,
        }
    }

    fn vec_ref(f: &FormValue) -> (r: Option<&Vec<Self>>) {
        match f {
            FormValue::VecI64(x) => Some(x),
            _ => None,
        }
    }

    fn map_ref(f: &FormValue) -> (r: Option<&HashMap<String, Self>>) {
        match f {
            FormValue::MapI64(x) => Some(x),
            _ => None,
        }
    }

    fn pair_ref(f: &FormValue) -> (r: Option<&(Self, Data)>) {
        match f {
            FormValue::PairI64(x) => Some(&**x),
            _ => None,
        }
    }

    fn scalar_owned(f: FormValue) -> (r: Option<Self>) {
        match f {
            FormValue::I64(x) => Some(x),
            _ => None,
        }
    }

    fn vec_owned(f: FormValue) -> (r: Option<Vec<Self>>) {
        match f {
            FormValue::VecI64(x) => Some(x),
            _ => None,
        }
    }

    fn map_owned(f: FormValue) -> (r: Option<HashMap<String, Self>>) {
        match f {
            FormValue::MapI64(x) => Some(x),
            _ => None,
        }
    }

    fn pair_owned(f: FormValue) -> (r: Option<(Self, Data)>) {
        match f {
            FormValue::PairI64(x) => Some(*x),
            _ => None,
        }
    }

    proof fn lemma_injective(x: Self, y: Self, v: Vec<Self>, w: Vec<Self>, m: HashMap<String, Self>, n: HashMap<String, Self>, p: (Self, Data), q: (Self, Data)) {
    }
}

impl Element for bool {
    open spec fn spec_scalar(self) -> FormValue {
        FormValue::Bool(self)
    }

    open spec fn spec_vec(v: Vec<Self>) -> FormValue {
        FormValue::VecBool(v)
    }

    open spec fn spec_map(m: HashMap<String, Self>) -> FormValue {
        FormValue::MapBool(m)
    }

    open spec fn spec_pair(p: (Self, Data)) -> FormValue {
        FormValue::PairBool(Box::new(p))
    }

    fn into_scalar(self) -> (r: FormValue) {
        FormValue::Bool(self)
    }

    fn into_vec(v: Vec<Self>) -> (r: FormValue) {
        FormValue::VecBool(v)
    }

    fn into_map(m: HashMap<String, Self>) -> (r: FormValue) {
        FormValue::MapBool(m)
    }

    fn into_pair(p: (Self, Data)) -> (r: FormValue) {
        FormValue::PairBool(Box::new(p))
    }

    fn scalar_ref(f: &FormValue) -> (r: Option<&Self>) {
        match f {
            FormValue::Bool(x) => Some(x),
            _ => None,
        }
    }

    fn vec_ref(f: &FormValue) -> (r: Option<&Vec<Self>>) {
        match f {
            FormValue::VecBool(x) => Some(x),
            _ => None,
        }
    }

    fn map_ref(f: &FormValue) -> (r: Option<&HashMap<String, Self>>) {
        match f {
            FormValue::MapBool(x) => Some(x),
            _ => None,
        }
    }

    fn pair_ref(f: &FormValue) -> (r: Option<&(Self, Data)>) {
        match f {
            FormValue::PairBool(x) => Some(&**x),
            _ => None,
        }
    }

    fn scalar_owned(f: FormValue) -> (r: Option<Self>) {
        match f {
            FormValue::Bool(x) => Some(x),
            _ => None,
        }
    }

    fn vec_owned(f: FormValue) -> (r: Option<Vec<Self>>) {
        match f {
            FormValue::VecBool(x) => Some(x),
            _ => None,
        }
    }

    fn map_owned(f: FormValue) -> (r: Option<HashMap<String, Self>>) {
        match f {
            FormValue::MapBool(x) => Some(x),
            _ => None,
        }
    }

    fn pair_owned(f: FormValue) -> (r: Option<(Self, Data)>) {
        match f {
            FormValue::PairBool(x) => Some(*x),
            _ => None,
        }
    }

    proof fn lemma_injective(x: Self, y: Self, v: Vec<Self>, w: Vec<Self>, m: HashMap<String, Self>, n: HashMap<String, Self>, p: (Self, Data), q: (Self, Data)) {
    }
}

impl Element for String {
    open spec fn spec_scalar(self) -> FormValue {
        FormValue::Str(self)
    }

    open spec fn spec_vec(v: Vec<Self>) -> FormValue {
        FormValue::VecStr(v)
    }

    open spec fn spec_map(m: HashMap<String, Self>) -> FormValue {
        FormValue::MapStr(m)
    }

    open spec fn spec_pair(p: (Self, Data)) -> FormValue {
        FormValue::PairStr(Box::new(p))
    }

    fn into_scalar(self) -> (r: FormValue) {
        FormValue::Str(self)
    }

    fn into_vec(v: Vec<Self>) -> (r: FormValue) {
        FormValue::VecStr(v)
    }

    fn into_map(m: HashMap<String, Self>) -> (r: FormValue) {
        FormValue::MapStr(m)
    }

    fn into_pair(p: (Self, Data)) -> (r: FormValue) {
        FormValue::PairStr(Box::new(p))
    }

    fn scalar_ref(f: &FormValue) -> (r: Option<&Self>) {
        match f {
            FormValue::Str(x) => Some(x),
            _ => None,
        }
    }

    fn vec_ref(f: &FormValue) -> (r: Option<&Vec<Self>>) {
        match f {
            FormValue::VecStr(x) => Some(x),
            _ => None,
        }
    }

    fn map_ref(f: &FormValue) -> (r: Option<&HashMap<String, Self>>) {
        match f {
            FormValue::MapStr(x) => Some(x),
            _ => None,
        }
    }

    fn pair_ref(f: &FormValue) -> (r: Option<&(Self, Data)>) {
        match f {
            FormValue::PairStr(x) => Some(&**x),
            _ => None,
        }
    }

    fn scalar_owned(f: FormValue) -> (r: Option<Self>) {
        match f {
            FormValue::Str(x) => Some(x),
            _ => None,
        }
    }

    fn vec_owned(f: FormValue) -> (r: Option<Vec<Self>>) {
        match f {
            FormValue::VecStr(x) => Some(x),
            _ => None,
        }
    }

    fn map_owned(f: FormValue) -> (r: Option<HashMap<String, Self>>) {
        match f {
            FormValue::MapStr(x) => Some(x),
            _ => None,
        }
    }

    fn pair_owned(f: FormValue) -> (r: Option<(Self, Data)>) {
        match f {
            FormValue::PairStr(x) => Some(*x),
            _ => None,
        }
    }

    proof fn lemma_injective(x: Self, y: Self, v: Vec<Self>, w: Vec<Self>, m: HashMap<String, Self>, n: HashMap<String, Self>, p: (Self, Data), q: (Self, Data)) {
    }
}

impl Element for Data {
    open spec fn spec_scalar(self) -> FormValue {
        FormValue::Data(Box::new(self))
    }

    open spec fn spec_vec(v: Vec<Self>) -> FormValue {
        FormValue::VecData(v)
    }

    open spec fn spec_map(m: HashMap<String, Self>) -> FormValue {
        FormValue::MapData(m)
    }

    open spec fn spec_pair(p: (Self, Data)) -> FormValue {
        FormValue::PairData(Box::new(p))
    }

    fn into_scalar(self) -> (r: FormValue) {
        FormValue::Data(Box::new(self))
    }

    fn into_vec(v: Vec<Self>) -> (r: FormValue) {
        FormValue::VecData(v)
    }

    fn into_map(m: HashMap<String, Self>) -> (r: FormValue) {
        FormValue::MapData(m)
    }

    fn into_pair(p: (Self, Data)) -> (r: FormValue) {
        FormValue::PairData(Box::new(p))
    }

    fn scalar_ref(f: &FormValue) -> (r: Option<&Self>) {
        match f {
            FormValue::Data(x) => Some(&**x),
            _ => None,
        }
    }

    fn vec_ref(f: &FormValue) -> (r: Option<&Vec<Self>>) {
        match f {
            FormValue::VecData(x) => Some(x),
            _ => None,
        }
    }

    fn map_ref(f: &FormValue) -> (r: Option<&HashMap<String, Self>>) {
        match f {
            FormValue::MapData(x) => Some(x),
            _ => None,
        }
    }

    fn pair_ref(f: &FormValue) -> (r: Option<&(Self, Data)>) {
        match f {
            FormValue::PairData(x) => Some(&**x),
            _ => None,
        }
    }

    fn scalar_owned(f: FormValue) -> (r: Option<Self>) {
        match f {
            FormValue::Data(x) => Some(*x),
            _ => None,
        }
    }

    fn vec_owned(f: FormValue) -> (r: Option<Vec<Self>>) {
        match f {
            FormValue::VecData(x) => Some(x),
            _ => None,
        }
    }

    fn map_owned(f: FormValue) -> (r: Option<HashMap<String, Self>>) {
        match f {
            FormValue::MapData(x) => Some(x),
            _ => None,
        }
    }

    fn pair_owned(f: FormValue) -> (r: Option<(Self, Data)>) {
        match f {
            FormValue::PairData(x) => Some(*x),
            _ => None,
        }
    }

    proof fn lemma_injective(x: Self, y: Self, v: Vec<Self>, w: Vec<Self>, m: HashMap<String, Self>, n: HashMap<String, Self>, p: (Self, Data), q: (Self, Data)) {
    }
}

/// A form that a `Data` can hold.
pub trait Form: Sized {
    /// The form value that wraps `self`.
    spec fn spec_wrap(self) -> FormValue;

    /// Wraps `self` as a form value.
    fn wrap(self) -> (r: FormValue)
        ensures
            r == self.spec_wrap(),
    ;

    /// The value wrapped in `f`, where `f` holds this form.
    fn unwrap_ref(f: &FormValue) -> (r: Option<&Self>)
        ensures
            r matches Some(x) ==> *f == x.spec_wrap(),
            (exists|x: Self| *f == x.spec_wrap()) ==> r.is_some(),
    ;

    /// The value wrapped in `f`, where `f` holds this form.
    fn unwrap_owned(f: FormValue) -> (r: Option<Self>)
        ensures
            r matches Some(x) ==> f == x.spec_wrap(),
            (exists|x: Self| f == x.spec_wrap()) ==> r.is_some(),
    ;

    /// Wrapping is one to one.
    proof fn lemma_wrap_injective(x: Self, y: Self)
        ensures
            x.spec_wrap() == y.spec_wrap() ==> x == y,
    ;
}

impl<T: Element> Form for T {
    open spec fn spec_wrap(self) -> FormValue {
        T::spec_scalar(self)
    }

    fn wrap(self) -> (r: FormValue) {
        T::into_scalar(self)
    }

    fn unwrap_ref(f: &FormValue) -> (r: Option<&Self>) {
        T::scalar_ref(f)
    }

    fn unwrap_owned(f: FormValue) -> (r: Option<Self>) {
        T::scalar_owned(f)
    }

    proof fn lemma_wrap_injective(x: Self, y: Self) {
        T::lemma_injective(x, y, arbitrary(), arbitrary(), arbitrary(), arbitrary(), arbitrary(), arbitrary());
    }
}

impl<T: Element> Form for Vec<T> {
    open spec fn spec_wrap(self) -> FormValue {
        T::spec_vec(self)
    }

    fn wrap(self) -> (r: FormValue) {
        T::into_vec(self)
    }

    fn unwrap_ref(f: &FormValue) -> (r: Option<&Self>) {
        T::vec_ref(f)
    }

    fn unwrap_owned(f: FormValue) -> (r: Option<Self>) {
        T::vec_owned(f)
    }

    proof fn lemma_wrap_injective(x: Self, y: Self) {
        T::lemma_injective(arbitrary(), arbitrary(), x, y, arbitrary(), arbitrary(), arbitrary(), arbitrary());
    }
}

impl<T: Element> Form for HashMap<String, T> {
    open spec fn spec_wrap(self) -> FormValue {
        T::spec_map(self)
    }

    fn wrap(self) -> (r: FormValue) {
        T::into_map(self)
    }

    fn unwrap_ref(f: &FormValue) -> (r: Option<&Self>) {
        T::map_ref(f)
    }

    fn unwrap_owned(f: FormValue) -> (r: Option<Self>) {
        T::map_owned(f)
    }

    proof fn lemma_wrap_injective(x: Self, y: Self) {
        T::lemma_injective(arbitrary(), arbitrary(), arbitrary(), arbitrary(), x, y, arbitrary(), arbitrary());
    }
}

impl<T: Element> Form for (T, Data) {
    open spec fn spec_wrap(self) -> FormValue {
        T::spec_pair(self)
    }

    fn wrap(self) -> (r: FormValue) {
        T::into_pair(self)
    }

    fn unwrap_ref(f: &FormValue) -> (r: Option<&Self>) {
        T::pair_ref(f)
    }

    fn unwrap_owned(f: FormValue) -> (r: Option<Self>) {
        T::pair_owned(f)
    }

    proof fn lemma_wrap_injective(x: Self, y: Self) {
        T::lemma_injective(arbitrary(), arbitrary(), arbitrary(), arbitrary(), arbitrary(), arbitrary(), x, y);
    }
}

/// A value of any of the forms, with its form recorded.
#[derive(Debug, PartialEq)]
pub struct Data {
    pub form: FormValue,
}

impl Data {
    /// The form value held.
    pub open spec fn spec_form(self) -> FormValue {
        self.form
    }

    /// Wraps `form`.
    pub fn new<T: Form>(form: T) -> (r: Data)
        ensures
            r.spec_form() == form.spec_wrap(),
    {
        Data { form: form.wrap() }
    }

    /// The held value as form `T`; the data must hold that form.
    pub fn as_form<T: Form>(&self) -> (r: &T)
        requires
            exists|x: T| self.spec_form() == x.spec_wrap(),
        ensures
            self.spec_form() == r.spec_wrap(),
    {
        T::unwrap_ref(&self.form).unwrap()
    }

    /// The held value as form `T`, consuming the data; the data must hold that form.
    pub fn into_form<T: Form>(self) -> (r: T)
        requires
            exists|x: T| self.spec_form() == x.spec_wrap(),
        ensures
            self.spec_form() == r.spec_wrap(),
    {
        T::unwrap_owned(self.form).unwrap()
    }
}

/// Wrapping a value in `Data` and reading it back as its own form gives the value.
pub proof fn lemma_data_round_trip<T: Form>(x: T, d: Data)
    requires
        d.spec_form() == x.spec_wrap(),
    ensures
        exists|y: T| d.spec_form() == y.spec_wrap(),
        forall|y: T| d.spec_form() == y.spec_wrap() ==> y == x,
{
    assert(d.spec_form() == x.spec_wrap());
    assert forall|y: T| d.spec_form() == y.spec_wrap() implies y == x by {
        T::lemma_wrap_injective(x, y);
    }
}

} // verus!
