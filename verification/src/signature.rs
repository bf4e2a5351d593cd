//! Rust types as the bindings generator reads them from a function's
//! signature, and the C types they cross the foreign interface as.
use vstd::prelude::*;
use crate::error::{string_eq, Error, ErrorVariant};

verus! {

/// A Rust type in a signature.
pub enum TypeModel {
    /// A path, by the name and arguments of its last segment.
    Path { name: String, args: PathArgsModel },
    /// A path without segments.
    EmptyPath,
    /// A tuple of types.
    Tuple(Vec<TypeModel>),
    /// A reference to a type.
    Reference(Box<TypeModel>),
    /// Any other form of type.
    Other,
}

/// The arguments of a path segment.
pub enum PathArgsModel {
    /// No arguments.
    Plain,
    /// Arguments in angle brackets.
    Angle(Vec<GenericArgModel>),
    /// Arguments in parentheses.
    Parenthesized,
}

/// A generic argument in angle brackets.
pub enum GenericArgModel {
    /// A type.
    Type(TypeModel),
    /// A lifetime, binding, constraint or constant.
    NotAType,
}

/// The C type of a Rust type named `name` that takes no part of its
/// arguments into account; `None` where the name is not one of them.
pub open spec fn spec_named_c_type(name: Seq<char>) -> Option<Seq<char>> {
    if name == "String"@ || name == "AnyObject"@ || name == "Vec"@ || name == "HashSet"@ {
        Some("AnyObject *"@)
    } else if name == "bool"@ {
        Some("bool"@)
    } else if name == "i8"@ {
        Some("int8_t"@)
    } else if name == "i16"@ {
        Some("int16_t"@)
    } else if name == "i32"@ {
        Some("int32_t"@)
    } else if name == "i64"@ {
        Some("int64_t"@)
    } else if name == "u8"@ {
        Some("uint8_t"@)
    } else if name == "u16"@ {
        Some("uint16_t"@)
    } else if name == "u32"@ {
        Some("uint32_t"@)
    } else if name == "u64"@ {
        Some("uint64_t"@)
    } else if name == "f32"@ {
        Some("float"@)
    } else if name == "f64"@ {
        Some("double"@)
    } else if name == "usize"@ {
        Some("size_t"@)
    } else if name == "Transformation"@ || name == "AnyTransformation"@ {
        Some("AnyTransformation *"@)
    } else if name == "Measurement"@ || name == "AnyMeasurement"@ {
        Some("AnyMeasurement *"@)
    } else {
        None
    }
}

/// The C type of an optional value whose own C type is `inner`: pointers to
/// objects and strings stay as they are, anything else becomes `void *`.
pub open spec fn spec_option_c_type(inner: Seq<char>) -> Seq<char> {
    if inner == "AnyObject *"@ {
        "AnyObject *"@
    } else if inner == "char *"@ {
        "char *"@
    } else {
        "void *"@
    }
}

/// The C type of `ty`, where `generics` names the generic parameters in
/// scope; `None` where the type cannot cross the interface.
pub open spec fn spec_c_type(ty: TypeModel, generics: Seq<Seq<char>>) -> Option<Seq<char>>
    decreases ty,
{
    match ty {
        TypeModel::Path { name, args } => {
            if name@ == "Option"@ {
                match args {
                    PathArgsModel::Angle(v) => if v@.len() == 0 {
                        None
                    } else {
                        match v@[0] {
                            GenericArgModel::Type(t) => match spec_c_type(t, generics) {
                                Some(c) => Some(spec_option_c_type(c)),
                                None => None,
                            },
                            GenericArgModel::NotAType => None,
                        }
                    },
                    _ => None,
                }
            } else if spec_named_c_type(name@) is Some {
                spec_named_c_type(name@)
            } else if name@ == "Fallible"@ {
                match args {
                    PathArgsModel::Angle(v) => if v@.len() != 1 {
                        None
                    } else {
                        match v@[0] {
                            GenericArgModel::Type(t) => match spec_c_type(t, generics) {
                                Some(c) => Some("FfiResult<"@ + c + ">"@),
                                None => None,
                            },
                            GenericArgModel::NotAType => None,
                        }
                    },
                    _ => None,
                }
            } else if generics.contains(name@) {
                Some("AnyObject *"@)
            } else {
                None
            }
        },
        TypeModel::Tuple(_) => Some("AnyObject *"@),
        TypeModel::Reference(inner) => spec_c_type(*inner, generics),
        TypeModel::EmptyPath => None,
        TypeModel::Other => None,
    }
}

/// Whether `s` holds the characters of `lit`.
fn is(s: &String, lit: &str) -> (r: bool)
    ensures
        r == (s@ == lit@),
{
    string_eq(s, &String::from_str(lit))
}

/// The C type of a Rust type named `name` that takes no part of its
/// arguments into account.
fn named_c_type(name: &String) -> (r: Option<String>)
    ensures
        match spec_named_c_type(name@) {
            Some(c) => r matches Some(s) && s@ == c,
            None => r is None,
        },
{
    let lit = if is(name, "String") || is(name, "AnyObject") || is(name, "Vec") || is(name, "HashSet") {
        "AnyObject *"
    } else if is(name, "bool") {
        "bool"
    } else if is(name, "i8") {
        "int8_t"
    } else if is(name, "i16") {
        "int16_t"
    } else if is(name, "i32") {
        "int32_t"
    } else if is(name, "i64") {
        "int64_t"
    } else if is(name, "u8") {
        "uint8_t"
    } else if is(name, "u16") {
        "uint16_t"
    } else if is(name, "u32") {
        "uint32_t"
    } else if is(name, "u64") {
        "uint64_t"
    } else if is(name, "f32") {
        "float"
    } else if is(name, "f64") {
        "double"
    } else if is(name, "usize") {
        "size_t"
    } else if is(name, "Transformation") || is(name, "AnyTransformation") {
        "AnyTransformation *"
    } else if is(name, "Measurement") || is(name, "AnyMeasurement") {
        "AnyMeasurement *"
    } else {
        return None;
    };
    Some(String::from_str(lit))
}

/// Whether `generics` holds `name`.
fn contains_name(generics: &Vec<String>, name: &String) -> (r: bool)
    ensures
        r == spec_views_of(generics@).contains(name@),
{
    let mut i: usize = 0;
    while i < generics.len()
        invariant
            i <= generics@.len(),
            forall|j: int| 0 <= j < i ==> generics@[j]@ != name@,
        decreases generics@.len() - i,
    {
        if string_eq(&generics[i], name) {
            proof {
                assert(spec_views_of(generics@)[i as int] == name@);
            }
            return true;
        }
        i = i + 1;
    }
    proof {
        if spec_views_of(generics@).contains(name@) {
            let k = choose|k: int| 0 <= k < generics@.len() && spec_views_of(generics@)[k] == name@;
            assert(generics@[k]@ == name@);
        }
    }
    false
}

/// The views of a sequence of strings.
pub open spec fn spec_views_of(v: Seq<String>) -> Seq<Seq<char>> {
    v.map_values(|x: String| x@)
}

fn unrecognized() -> (e: Error)
    ensures
        e.variant == ErrorVariant::TypeParse,
{
    Error::with_message(ErrorVariant::TypeParse, "Unrecognized rust type. Failed to convert to C type.")
}

/// The C type of `ty`, where `generics` names the generic parameters in
/// scope: integers, floats and booleans as their C counterparts, objects,
/// strings, vectors, sets, tuples and generic parameters as `AnyObject *`,
/// references as what they refer to, options by `spec_option_c_type`, and a
/// fallible result as `FfiResult<..>` of its value's C type. Fails with
/// `TypeParse` where the type cannot cross the interface.
pub fn c_type_of(ty: &TypeModel, generics: &Vec<String>) -> (r: Result<String, Error>)
    ensures
        r.is_ok() <==> spec_c_type(*ty, spec_views_of(generics@)).is_some(),
        r matches Ok(s) ==> Some(s@) == spec_c_type(*ty, spec_views_of(generics@)),
        r matches Err(e) ==> e.variant == ErrorVariant::TypeParse,
    decreases ty,
{
    proof {
        reveal_strlit("FfiResult<");
        reveal_strlit(">");
    }
    match ty {
        TypeModel::Path { name, args } => {
            if is(name, "Option") {
                match args {
                    PathArgsModel::Angle(v) => {
                        if v.len() == 0 {
                            return Err(unrecognized());
                        }
                        proof {
                            assert(decreases_to!(v => v@[0]));
                        }
                        match &v[0] {
                            GenericArgModel::Type(t) => {
                                let inner = c_type_of(t, generics)?;
                                let out = if is(&inner, "AnyObject *") {
                                    "AnyObject *"
                                } else if is(&inner, "char *") {
                                    "char *"
                                } else {
                                    "void *"
                                };
                                Ok(String::from_str(out))
                            },
                            GenericArgModel::NotAType => Err(unrecognized()),
                        }
                    },
                    _ => Err(unrecognized()),
                }
            } else if let Some(c) = named_c_type(name) {
                Ok(c)
            } else if is(name, "Fallible") {
                match args {
                    PathArgsModel::Angle(v) => {
                        if v.len() != 1 {
                            return Err(unrecognized());
                        }
                        proof {
                            assert(decreases_to!(v => v@[0]));
                        }
                        match &v[0] {
                            GenericArgModel::Type(t) => {
                                let inner = c_type_of(t, generics)?;
                                let mut out = String::from_str("FfiResult<");
                                out.append(inner.as_str());
                                out.append(">");
                                Ok(out)
                            },
                            GenericArgModel::NotAType => Err(unrecognized()),
                        }
                    },
                    _ => Err(unrecognized()),
                }
            } else if contains_name(generics, name) {
                Ok(String::from_str("AnyObject *"))
            } else {
                Err(unrecognized())
            }
        },
        TypeModel::Tuple(_) => Ok(String::from_str("AnyObject *")),
        TypeModel::Reference(inner) => c_type_of(inner, generics),
        TypeModel::EmptyPath => Err(unrecognized()),
        TypeModel::Other => Err(unrecognized()),
    }
}

} // verus!
