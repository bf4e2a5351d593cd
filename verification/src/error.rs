//! Errors reported by the library.
use vstd::prelude::*;

verus! {

/// The kinds of failure that the library reports.
#[derive(PartialEq, Eq, Structural, Debug, Clone, Copy)]
#[non_exhaustive]
pub enum ErrorVariant {
    FFI,
    TypeParse,
    FailedFunction,
    FailedRelation,
    RelationDebug,
    FailedCast,
    DomainMismatch,
    MetricMismatch,
    MeasureMismatch,
    MakeDomain,
    MakeTransformation,
    MakeMeasurement,
    InvalidDistance,
    NotImplemented,
}

/// An error: what kind of failure, and an optional message.
#[derive(Debug, Clone)]
pub struct Error {
    pub variant: ErrorVariant,
    pub message: Option<String>,
}

/// The result of an operation that may fail.
pub type Fallible<T> = Result<T, Error>;

impl Error {
    /// An error of the given variant, without a message.
    pub fn new(variant: ErrorVariant) -> (e: Error)
        ensures
            e.variant == variant,
            e.message.is_none(),
    {
        Error { variant, message: None }
    }

    /// An error of the given variant, with a message.
    pub fn with_message(variant: ErrorVariant, message: &str) -> (e: Error)
        ensures
            e.variant == variant,
            e.message.is_some(),
            e.message.unwrap()@ == message@,
    {
        Error { variant, message: Some(String::from_str(message)) }
    }

    /// Two errors are equal when their variants and messages are.
    pub fn equals(&self, other: &Error) -> (r: bool)
        ensures
            r == (self.variant == other.variant && (match (self.message, other.message) {
                (Some(a), Some(b)) => a@ == b@,
                (None, None) => true,
                _ => false,
            })),
    {
        if self.variant != other.variant {
            return false;
        }
        match (&self.message, &other.message) {
            (Some(a), Some(b)) => string_eq(a, b),
            (None, None) => true,
            _ => false,
        }
    }
}

/// Whether two strings hold the same characters.
pub fn string_eq(a: &String, b: &String) -> (r: bool)
    ensures
        r == (a@ == b@),
{
    let ac = a.as_str();
    let bc = b.as_str();
    let n = ac.unicode_len();
    if n != bc.unicode_len() {
        proof {
            if a@ == b@ {
                assert(ac@ == bc@);
            }
        }
        return false;
    }
    let mut i: usize = 0;
    while i < n
        invariant
            n == ac@.len(),
            n == bc@.len(),
            ac@ == a@,
            bc@ == b@,
            i <= n,
            forall|j: int| 0 <= j < i ==> ac@[j] == bc@[j],
        decreases n - i,
    {
        if ac.get_char(i) != bc.get_char(i) {
            return false;
        }
        i = i + 1;
    }
    assert(a@ =~= b@);
    true
}

impl From<ErrorVariant> for Error {
    fn from(variant: ErrorVariant) -> (e: Error) {
        Error { variant, message: None }
    }
}

impl vstd::std_specs::convert::FromSpecImpl<ErrorVariant> for Error {
    open spec fn obeys_from_spec() -> bool {
        true
    }

    open spec fn from_spec(v: ErrorVariant) -> Error {
        Error { variant: v, message: None }
    }
}

/// Unwrapping that names why a value is known to be present.
pub trait ExplainUnwrap: Sized {
    type Inner;

    /// Whether a value is present.
    spec fn spec_has_value(&self) -> bool;

    /// The value, where one is present.
    spec fn spec_value(self) -> Self::Inner;

    /// Unwraps a value that is structurally known to be present.
    fn unwrap_assert(self, explanation: &'static str) -> (r: Self::Inner)
        requires
            self.spec_has_value(),
        ensures
            r == self.spec_value(),
    ;

    /// Unwraps a value in a test.
    fn unwrap_test(self) -> (r: Self::Inner)
        requires
            self.spec_has_value(),
        ensures
            r == self.spec_value(),
    ;
}

impl<T> ExplainUnwrap for Option<T> {
    type Inner = T;

    open spec fn spec_has_value(&self) -> bool {
        self.is_some()
    }

    open spec fn spec_value(self) -> T {
        self.unwrap()
    }

    fn unwrap_assert(self, explanation: &'static str) -> (r: T) {
        self.unwrap()
    }

    fn unwrap_test(self) -> (r: T) {
        self.unwrap()
    }
}

impl<T, E: std::fmt::Debug> ExplainUnwrap for Result<T, E> {
    type Inner = T;

    open spec fn spec_has_value(&self) -> bool {
        self.is_ok()
    }

    open spec fn spec_value(self) -> T {
        self->Ok_0
    }

    fn unwrap_assert(self, explanation: &'static str) -> (r: T) {
        self.unwrap()
    }

    fn unwrap_test(self) -> (r: T) {
        self.unwrap()
    }
}

} // verus!
