//! Reconciling what the bindings generator knows of a function: the
//! metadata given to it, the function's documentation and its signature.
use vstd::prelude::*;
use crate::bootstrap::{
    spec_string_views, Argument, DefaultGenerics, DerivedTypes, Docstring, Features, OptionRuntimeType, RuntimeType,
    Value,
};
use crate::error::{string_eq, Error, ErrorVariant};
use crate::signature::{c_type_of, spec_c_type, spec_views_of, GenericArgModel, PathArgsModel, TypeModel};
use crate::text::{spec_trim, trim};

verus! {

/// A runtime type with its names read as character sequences.
pub enum RtView {
    Name(Seq<char>),
    Nest(Seq<char>, Seq<RtView>),
    Absent,
    Function(Seq<char>, Seq<RtView>),
}

/// The view of the first `n` runtime types of `items`.
pub open spec fn spec_rt_views(items: Seq<RuntimeType>, n: int) -> Seq<RtView>
    decreases items, n,
{
    if n <= 0 || n > items.len() {
        Seq::empty()
    } else {
        spec_rt_views(items, n - 1).push(spec_rt_view(items[n - 1]))
    }
}

/// The view of a runtime type.
pub open spec fn spec_rt_view(rt: RuntimeType) -> RtView
    decreases rt, 0int,
{
    match rt {
        RuntimeType::Name(name) => RtView::Name(name@),
        RuntimeType::Nest { origin, args } => RtView::Nest(origin@, spec_rt_views(args@, args@.len() as int)),
        RuntimeType::Absent => RtView::Absent,
        RuntimeType::Function { function, params } => RtView::Function(
            function@,
            spec_rt_views(params@, params@.len() as int),
        ),
    }
}

/// The views of the first `n` runtime types have length `n`.
proof fn lemma_rt_views_len(items: Seq<RuntimeType>, n: int)
    requires
        0 <= n <= items.len(),
    ensures
        spec_rt_views(items, n).len() == n,
    decreases n,
{
    if n > 0 {
        lemma_rt_views_len(items, n - 1);
    }
}

/// Copies runtime types.
fn copy_rts(items: &Vec<RuntimeType>) -> (r: Vec<RuntimeType>)
    ensures
        r@.len() == items@.len(),
        spec_rt_views(r@, r@.len() as int) == spec_rt_views(items@, items@.len() as int),
    decreases items,
{
    let mut out: Vec<RuntimeType> = Vec::new();
    let mut i: usize = 0;
    while i < items.len()
        invariant
            i <= items@.len(),
            out@.len() == i,
            spec_rt_views(out@, i as int) == spec_rt_views(items@, i as int),
        decreases items@.len() - i,
    {
        proof {
            assert(decreases_to!(items => items@[i as int]));
        }
        let c = copy_rt(&items[i]);
        let ghost before = out@;
        out.push(c);
        proof {
            lemma_rt_views_prefix(before, out@, i as int);
        }
        i = i + 1;
    }
    out
}

/// Extending a sequence leaves the views of its first `n` items as they were.
proof fn lemma_rt_views_prefix(a: Seq<RuntimeType>, b: Seq<RuntimeType>, n: int)
    requires
        0 <= n <= a.len() <= b.len(),
        forall|i: int| 0 <= i < a.len() ==> a[i] == b[i],
    ensures
        spec_rt_views(a, n) == spec_rt_views(b, n),
    decreases n,
{
    if n > 0 {
        lemma_rt_views_prefix(a, b, n - 1);
    }
}

/// Copies a runtime type.
pub fn copy_rt(rt: &RuntimeType) -> (r: RuntimeType)
    ensures
        spec_rt_view(r) == spec_rt_view(*rt),
    decreases rt,
{
    match rt {
        RuntimeType::Name(name) => RuntimeType::Name(name.clone()),
        RuntimeType::Nest { origin, args } => RuntimeType::Nest { origin: origin.clone(), args: copy_rts(args) },
        RuntimeType::Absent => RuntimeType::Absent,
        RuntimeType::Function { function, params } => RuntimeType::Function {
            function: function.clone(),
            params: copy_rts(params),
        },
    }
}

/// The runtime types of the first `n` generic arguments of `v`; `None`
/// where one is not a type or has no runtime type.
pub open spec fn spec_arg_runtime_types(v: Seq<GenericArgModel>, n: int) -> Option<Seq<RtView>>
    decreases v, n,
{
    if n <= 0 || n > v.len() {
        Some(Seq::empty())
    } else {
        match spec_arg_runtime_types(v, n - 1) {
            None => None,
            Some(p) => match v[n - 1] {
                GenericArgModel::Type(t) => match spec_runtime_type(t) {
                    Some(x) => Some(p.push(x)),
                    None => None,
                },
                GenericArgModel::NotAType => None,
            },
        }
    }
}

/// The runtime types of the first `n` types of `v`; `None` where one has none.
pub open spec fn spec_list_runtime_types(v: Seq<TypeModel>, n: int) -> Option<Seq<RtView>>
    decreases v, n,
{
    if n <= 0 || n > v.len() {
        Some(Seq::empty())
    } else {
        match spec_list_runtime_types(v, n - 1) {
            None => None,
            Some(p) => match spec_runtime_type(v[n - 1]) {
                Some(x) => Some(p.push(x)),
                None => None,
            },
        }
    }
}

/// The runtime type of a type in a signature: a path by its last segment,
/// with its type arguments nested; a reference as what it refers to; a
/// tuple as a nest with origin `Tuple`. `None` for any other form.
pub open spec fn spec_runtime_type(ty: TypeModel) -> Option<RtView>
    decreases ty, 0int,
{
    match ty {
        TypeModel::Path { name, args } => match args {
            PathArgsModel::Plain => Some(RtView::Name(name@)),
            PathArgsModel::Angle(v) => match spec_arg_runtime_types(v@, v@.len() as int) {
                Some(vs) => Some(RtView::Nest(name@, vs)),
                None => None,
            },
            PathArgsModel::Parenthesized => None,
        },
        TypeModel::EmptyPath => None,
        TypeModel::Tuple(elems) => match spec_list_runtime_types(elems@, elems@.len() as int) {
            Some(vs) => Some(RtView::Nest("Tuple"@, vs)),
            None => None,
        },
        TypeModel::Reference(inner) => spec_runtime_type(*inner),
        TypeModel::Other => None,
    }
}

/// Once the runtime types of a prefix of arguments fail, those of every
/// longer prefix fail.
proof fn lemma_arg_failure_persists(v: Seq<GenericArgModel>, k: int, n: int)
    requires
        0 <= k <= n <= v.len(),
        spec_arg_runtime_types(v, k) is None,
    ensures
        spec_arg_runtime_types(v, n) is None,
    decreases n - k,
{
    if n > k {
        lemma_arg_failure_persists(v, k, n - 1);
    }
}

/// Once the runtime types of a prefix of types fail, those of every longer
/// prefix fail.
proof fn lemma_list_failure_persists(v: Seq<TypeModel>, k: int, n: int)
    requires
        0 <= k <= n <= v.len(),
        spec_list_runtime_types(v, k) is None,
    ensures
        spec_list_runtime_types(v, n) is None,
    decreases n - k,
{
    if n > k {
        lemma_list_failure_persists(v, k, n - 1);
    }
}

fn unsupported() -> (e: Error)
    ensures
        e.variant == ErrorVariant::TypeParse,
{
    Error::with_message(ErrorVariant::TypeParse, "unrecognized type for RuntimeType")
}

/// The runtime type of a type in a signature; see `spec_runtime_type`.
/// Fails with `TypeParse` where it has none.
pub fn runtime_type_of(ty: &TypeModel) -> (r: Result<RuntimeType, Error>)
    ensures
        r.is_ok() <==> spec_runtime_type(*ty) is Some,
        r matches Ok(x) ==> spec_runtime_type(*ty) == Some(spec_rt_view(x)),
        r matches Err(e) ==> e.variant == ErrorVariant::TypeParse,
    decreases ty,
{
    proof {
        reveal_strlit("Tuple");
    }
    match ty {
        TypeModel::Path { name, args } => match args {
            PathArgsModel::Plain => Ok(RuntimeType::Name(name.clone())),
            PathArgsModel::Angle(v) => {
                let mut out: Vec<RuntimeType> = Vec::new();
                let mut i: usize = 0;
                while i < v.len()
                    invariant
                        *ty == (TypeModel::Path { name: *name, args: *args }),
                        *args == PathArgsModel::Angle(*v),
                        i <= v@.len(),
                        out@.len() == i,
                        spec_arg_runtime_types(v@, i as int) == Some(spec_rt_views(out@, i as int)),
                    decreases v@.len() - i,
                {
                    proof {
                        assert(decreases_to!(*ty => v@[i as int]));
                    }
                    match &v[i] {
                        GenericArgModel::Type(t) => {
                            let x = match runtime_type_of(t) {
                                Ok(x) => x,
                                Err(e) => {
                                    proof {
                                        lemma_arg_failure_persists(v@, i + 1, v@.len() as int);
                                    }
                                    return Err(e);
                                },
                            };
                            let ghost before = out@;
                            out.push(x);
                            proof {
                                lemma_rt_views_prefix(before, out@, i as int);
                            }
                        },
                        GenericArgModel::NotAType => {
                            proof {
                                lemma_arg_failure_persists(v@, i + 1, v@.len() as int);
                            }
                            return Err(unsupported());
                        },
                    }
                    i = i + 1;
                }
                Ok(RuntimeType::Nest { origin: name.clone(), args: out })
            },
            PathArgsModel::Parenthesized => Err(unsupported()),
        },
        TypeModel::EmptyPath => Err(unsupported()),
        TypeModel::Tuple(elems) => {
            let mut out: Vec<RuntimeType> = Vec::new();
            let mut i: usize = 0;
            while i < elems.len()
                invariant
                    *ty == TypeModel::Tuple(*elems),
                    i <= elems@.len(),
                    out@.len() == i,
                    spec_list_runtime_types(elems@, i as int) == Some(spec_rt_views(out@, i as int)),
                decreases elems@.len() - i,
            {
                proof {
                    assert(decreases_to!(*ty => elems@[i as int]));
                }
                let x = match runtime_type_of(&elems[i]) {
                    Ok(x) => x,
                    Err(e) => {
                        proof {
                            lemma_list_failure_persists(elems@, i + 1, elems@.len() as int);
                        }
                        return Err(e);
                    },
                };
                let ghost before = out@;
                out.push(x);
                proof {
                    lemma_rt_views_prefix(before, out@, i as int);
                }
                i = i + 1;
            }
            Ok(RuntimeType::Nest { origin: String::from_str("Tuple"), args: out })
        },
        TypeModel::Reference(inner) => runtime_type_of(inner),
        TypeModel::Other => Err(unsupported()),
    }
}

/// A pattern that binds a function's argument.
pub enum PatModel {
    /// A name.
    Ident(String),
    /// A boxed, referenced or typed pattern around another.
    Wrapped(Box<PatModel>),
    /// Any other pattern.
    Other,
}

/// An argument in a function's signature.
pub enum FnArgModel {
    /// `self`.
    Receiver,
    /// A pattern with its type.
    Typed { pat: PatModel, ty: TypeModel },
}

/// A generic parameter in a function's signature.
pub enum GenericParamModel {
    /// A type parameter, by name.
    Type(String),
    /// A lifetime.
    Lifetime,
    /// A constant.
    Const,
}

/// A function's signature as the bindings generator reads it.
pub struct SignatureModel {
    pub inputs: Vec<FnArgModel>,
    pub generics: Vec<GenericParamModel>,
    /// The return type; `None` where none is written.
    pub output: Option<TypeModel>,
}

/// Metadata given for one argument, generic or return value.
#[derive(Debug)]
pub struct BootstrapType {
    pub c_type: Option<String>,
    pub rust_type: OptionRuntimeType,
    pub hint: Option<String>,
    pub default: Option<Value>,
    pub generics: DefaultGenerics,
    pub do_not_convert: bool,
    pub example: OptionRuntimeType,
}

/// Metadata given for several arguments or generics, by name.
#[derive(Debug)]
pub struct BootstrapTypes(pub Vec<(String, BootstrapType)>);

/// The metadata given to the bindings generator for a function.
#[derive(Debug)]
pub struct Bootstrap {
    pub proof: Option<String>,
    pub features: Features,
    pub generics: BootstrapTypes,
    pub arguments: BootstrapTypes,
    pub derived_types: Option<DerivedTypes>,
    pub returns: Option<BootstrapType>,
}

/// Everything the bindings generator knows of a function.
#[derive(Debug)]
pub struct Function {
    pub description: Option<String>,
    pub proof: Option<String>,
    pub features: Vec<String>,
    pub args: Vec<Argument>,
    pub derived_types: Vec<Argument>,
    pub ret: Argument,
}

/// A default value with its string read as characters.
pub enum ValueView {
    Null,
    Bool(bool),
    Str(Seq<char>),
    Integer(i64),
    Float(u64),
}

/// An argument with its strings read as characters.
pub struct ArgView {
    pub name: Option<Seq<char>>,
    pub c_type: Option<Seq<char>>,
    pub rust_type: Option<RtView>,
    pub hint: Option<Seq<char>>,
    pub description: Option<Seq<char>>,
    pub default: Option<ValueView>,
    pub generics: Seq<Seq<char>>,
    pub is_type: bool,
    pub do_not_convert: bool,
    pub example: Option<RtView>,
}

/// A function's metadata with its strings read as characters.
pub struct FunctionView {
    pub description: Option<Seq<char>>,
    pub proof: Option<Seq<char>>,
    pub features: Seq<Seq<char>>,
    pub args: Seq<ArgView>,
    pub derived_types: Seq<ArgView>,
    pub ret: ArgView,
}

pub open spec fn spec_opt_str(s: Option<String>) -> Option<Seq<char>> {
    match s {
        Some(x) => Some(x@),
        None => None,
    }
}

pub open spec fn spec_opt_rt(rt: Option<RuntimeType>) -> Option<RtView> {
    match rt {
        Some(x) => Some(spec_rt_view(x)),
        None => None,
    }
}

pub open spec fn spec_value_view(v: Value) -> ValueView {
    match v {
        Value::Null => ValueView::Null,
        Value::Bool(b) => ValueView::Bool(b),
        Value::String(s) => ValueView::Str(s@),
        Value::Integer(i) => ValueView::Integer(i),
        Value::Float(f) => ValueView::Float(f),
    }
}

pub open spec fn spec_opt_value(v: Option<Value>) -> Option<ValueView> {
    match v {
        Some(x) => Some(spec_value_view(x)),
        None => None,
    }
}

/// The view of an argument.
pub open spec fn spec_arg_view(a: Argument) -> ArgView {
    ArgView {
        name: spec_opt_str(a.name),
        c_type: spec_opt_str(a.c_type),
        rust_type: spec_opt_rt(a.rust_type),
        hint: spec_opt_str(a.hint),
        description: spec_opt_str(a.description),
        default: spec_opt_value(a.default),
        generics: spec_string_views(a.generics@),
        is_type: a.is_type,
        do_not_convert: a.do_not_convert,
        example: spec_opt_rt(a.example),
    }
}

/// The views of arguments.
pub open spec fn spec_arg_views(v: Seq<Argument>) -> Seq<ArgView> {
    v.map_values(|a: Argument| spec_arg_view(a))
}

/// The view of a function's metadata.
pub open spec fn spec_function_view(f: Function) -> FunctionView {
    FunctionView {
        description: spec_opt_str(f.description),
        proof: spec_opt_str(f.proof),
        features: spec_string_views(f.features@),
        args: spec_arg_views(f.args@),
        derived_types: spec_arg_views(f.derived_types@),
        ret: spec_arg_view(f.ret),
    }
}

/// The lines joined by line feeds.
pub open spec fn spec_join_lines(lines: Seq<Seq<char>>, n: int) -> Seq<char>
    decreases n,
{
    if n <= 0 || n > lines.len() {
        Seq::empty()
    } else if n == 1 {
        lines[0]
    } else {
        spec_join_lines(lines, n - 1) + "\n"@ + lines[n - 1]
    }
}

/// The lines joined by line feeds, trimmed.
pub open spec fn spec_join_trim(lines: Seq<Seq<char>>) -> Seq<char> {
    spec_trim(spec_join_lines(lines, lines.len() as int))
}

/// Joins lines by line feeds and trims the result.
fn join_trim(lines: &Vec<String>) -> (r: String)
    ensures
        r@ == spec_join_trim(spec_string_views(lines@)),
{
    proof {
        reveal_strlit("\n");
    }
    let ghost v = spec_string_views(lines@);
    let mut out = String::new();
    let mut i: usize = 0;
    while i < lines.len()
        invariant
            v == spec_string_views(lines@),
            v.len() == lines@.len(),
            i <= lines@.len(),
            out@ == spec_join_lines(v, i as int),
        decreases lines@.len() - i,
    {
        if i > 0 {
            out.append("\n");
        }
        out.append(lines[i].as_str());
        proof {
            assert(v[i as int] == lines@[i as int]@);
        }
        i = i + 1;
    }
    String::from_str(trim(out.as_str()))
}

/// The name bound by a pattern; `None` for a pattern that binds none.
pub open spec fn spec_pat_name(p: PatModel) -> Option<Seq<char>>
    decreases p,
{
    match p {
        PatModel::Ident(n) => Some(n@),
        PatModel::Wrapped(inner) => spec_pat_name(*inner),
        PatModel::Other => None,
    }
}

/// The name bound by a pattern. Fails with `TypeParse` where it binds none.
pub fn pat_name(p: &PatModel) -> (r: Result<String, Error>)
    ensures
        r.is_ok() <==> spec_pat_name(*p) is Some,
        r matches Ok(n) ==> spec_pat_name(*p) == Some(n@),
        r matches Err(e) ==> e.variant == ErrorVariant::TypeParse,
    decreases p,
{
    match p {
        PatModel::Ident(n) => Ok(n.clone()),
        PatModel::Wrapped(inner) => pat_name(inner),
        PatModel::Other => Err(Error::with_message(ErrorVariant::TypeParse, "unrecognized pattern in argument")),
    }
}

/// The names of the generic parameters, where all are type parameters.
pub open spec fn spec_generic_names(g: Seq<GenericParamModel>) -> Option<Seq<Seq<char>>> {
    if forall|i: int| 0 <= i < g.len() ==> #[trigger] g[i] is Type {
        Some(Seq::new(g.len(), |i: int| g[i]->Type_0@))
    } else {
        None
    }
}

/// The names of derived types.
pub open spec fn spec_derived_names(d: Option<DerivedTypes>) -> Seq<Seq<char>> {
    match d {
        Some(dt) => dt.0@.map_values(|p: (String, RuntimeType)| p.0@),
        None => Seq::empty(),
    }
}

/// `i` is the last position of `keys` that holds `name`.
pub open spec fn spec_last_key(keys: Seq<Seq<char>>, name: Seq<char>, i: int) -> bool {
    &&& 0 <= i < keys.len()
    &&& keys[i] == name
    &&& forall|j: int| i < j < keys.len() ==> #[trigger] keys[j] != name
}

/// The keys of named metadata.
pub open spec fn spec_boot_keys(t: Seq<(String, BootstrapType)>) -> Seq<Seq<char>> {
    t.map_values(|p: (String, BootstrapType)| p.0@)
}

/// The keys of documented names.
pub open spec fn spec_doc_keys(t: Seq<(String, Vec<String>)>) -> Seq<Seq<char>> {
    t.map_values(|p: (String, Vec<String>)| p.0@)
}

/// The metadata given for `name`: the last entry under it.
pub open spec fn spec_boot_lookup(t: Seq<(String, BootstrapType)>, name: Seq<char>) -> Option<BootstrapType> {
    if exists|i: int| spec_last_key(spec_boot_keys(t), name, i) {
        let i = choose|i: int| spec_last_key(spec_boot_keys(t), name, i);
        Some(t[i].1)
    } else {
        None
    }
}

/// The documentation of `name`, its lines joined and trimmed: the last
/// entry under it. `taken` says it was already used for an earlier
/// parameter of the same name, and so is gone.
pub open spec fn spec_doc_lookup(t: Seq<(String, Vec<String>)>, name: Seq<char>, taken: bool) -> Option<Seq<char>> {
    if !taken && exists|i: int| spec_last_key(spec_doc_keys(t), name, i) {
        let i = choose|i: int| spec_last_key(spec_doc_keys(t), name, i);
        Some(spec_join_trim(spec_string_views(t[i].1@)))
    } else {
        None
    }
}

/// The last position of `t` keyed by `name`.
fn boot_lookup(t: &Vec<(String, BootstrapType)>, name: &String) -> (r: Option<usize>)
    ensures
        match r {
            Some(i) => spec_last_key(spec_boot_keys(t@), name@, i as int),
            None => !exists|i: int| spec_last_key(spec_boot_keys(t@), name@, i),
        },
{
    let ghost keys = spec_boot_keys(t@);
    let mut i: usize = t.len();
    while i > 0
        invariant
            keys == spec_boot_keys(t@),
            i <= t@.len(),
            forall|j: int| i <= j < t@.len() ==> #[trigger] keys[j] != name@,
        decreases i,
    {
        i = i - 1;
        if string_eq(&t[i].0, name) {
            return Some(i);
        }
    }
    None
}

/// The last position of `t` keyed by `name`.
fn doc_lookup(t: &Vec<(String, Vec<String>)>, name: &String) -> (r: Option<usize>)
    ensures
        match r {
            Some(i) => spec_last_key(spec_doc_keys(t@), name@, i as int),
            None => !exists|i: int| spec_last_key(spec_doc_keys(t@), name@, i),
        },
{
    let ghost keys = spec_doc_keys(t@);
    let mut i: usize = t.len();
    while i > 0
        invariant
            keys == spec_doc_keys(t@),
            i <= t@.len(),
            forall|j: int| i <= j < t@.len() ==> #[trigger] keys[j] != name@,
        decreases i,
    {
        i = i - 1;
        if string_eq(&t[i].0, name) {
            return Some(i);
        }
    }
    None
}

/// The documentation of `name`, unless `taken`.
fn doc_text(t: &Vec<(String, Vec<String>)>, name: &String, taken: bool) -> (r: Option<String>)
    ensures
        spec_opt_str(r) == spec_doc_lookup(t@, name@, taken),
{
    if taken {
        return None;
    }
    match doc_lookup(t, name) {
        Some(i) => Some(join_trim(&t[i].1)),
        None => None,
    }
}

/// Copies an optional string.
fn copy_opt_str(s: &Option<String>) -> (r: Option<String>)
    ensures
        spec_opt_str(r) == spec_opt_str(*s),
{
    match s {
        Some(x) => Some(x.clone()),
        None => None,
    }
}

/// Copies an optional runtime type.
fn copy_opt_rt(rt: &Option<RuntimeType>) -> (r: Option<RuntimeType>)
    ensures
        spec_opt_rt(r) == spec_opt_rt(*rt),
{
    match rt {
        Some(x) => Some(copy_rt(x)),
        None => None,
    }
}

/// Copies an optional default value.
fn copy_opt_value(v: &Option<Value>) -> (r: Option<Value>)
    ensures
        spec_opt_value(r) == spec_opt_value(*v),
{
    match v {
        Some(Value::Null) => Some(Value::Null),
        Some(Value::Bool(b)) => Some(Value::Bool(*b)),
        Some(Value::String(s)) => Some(Value::String(s.clone())),
        Some(Value::Integer(i)) => Some(Value::Integer(*i)),
        Some(Value::Float(f)) => Some(Value::Float(*f)),
        None => None,
    }
}

/// Copies strings.
fn copy_strings(v: &Vec<String>) -> (r: Vec<String>)
    ensures
        spec_string_views(r@) == spec_string_views(v@),
{
    let mut out: Vec<String> = Vec::new();
    let mut i: usize = 0;
    while i < v.len()
        invariant
            i <= v@.len(),
            out@.len() == i,
            forall|j: int| 0 <= j < i ==> (#[trigger] out@[j])@ == v@[j]@,
        decreases v@.len() - i,
    {
        out.push(v[i].clone());
        i = i + 1;
    }
    proof {
        assert(spec_string_views(out@) =~= spec_string_views(v@));
    }
    out
}

/// The default generics given in metadata, or none.
pub open spec fn spec_boot_generics(bt: Option<BootstrapType>) -> Seq<Seq<char>> {
    match bt {
        Some(b) => spec_string_views(b.generics.0@),
        None => Seq::empty(),
    }
}

/// The reconciled argument for input `k`, named `name`, where `taken` says
/// an earlier input has the same name; `None` where its runtime type or C
/// type cannot be found.
pub open spec fn spec_input_arg(
    boot: Bootstrap,
    doc: Docstring,
    all_generics: Seq<Seq<char>>,
    name: Seq<char>,
    ty: TypeModel,
    taken: bool,
) -> Option<ArgView> {
    let bt = spec_boot_lookup(boot.arguments.0@, name);
    let rust_type = match bt {
        Some(b) if b.rust_type.0 is Some => Some(spec_rt_view(b.rust_type.0->0)),
        _ => spec_runtime_type(ty),
    };
    let c_type = match bt {
        Some(b) if b.c_type is Some => Some(b.c_type->0@),
        _ => spec_c_type(ty, all_generics),
    };
    if rust_type is None || c_type is None {
        None
    } else {
        Some(
            ArgView {
                name: Some(name),
                c_type: c_type,
                rust_type: rust_type,
                generics: spec_boot_generics(bt),
                description: spec_doc_lookup(doc.arguments@, name, taken),
                hint: match bt {
                    Some(b) => spec_opt_str(b.hint),
                    None => None,
                },
                default: match bt {
                    Some(b) => spec_opt_value(b.default),
                    None => None,
                },
                is_type: false,
                do_not_convert: match bt {
                    Some(b) => b.do_not_convert,
                    None => false,
                },
                example: None,
            },
        )
    }
}

/// The reconciled argument for the generic parameter `name`.
pub open spec fn spec_generic_arg(boot: Bootstrap, doc: Docstring, name: Seq<char>, taken: bool) -> ArgView {
    let bt = spec_boot_lookup(boot.generics.0@, name);
    ArgView {
        name: Some(name),
        c_type: None,
        description: spec_doc_lookup(doc.generics@, name, taken),
        rust_type: None,
        generics: spec_boot_generics(bt),
        hint: match bt {
            Some(b) => spec_opt_str(b.hint),
            None => None,
        },
        default: match bt {
            Some(b) => spec_opt_value(b.default),
            None => None,
        },
        is_type: true,
        do_not_convert: false,
        example: match bt {
            Some(b) => spec_opt_rt(b.example.0),
            None => None,
        },
    }
}

/// The name of input `k`, where it has one.
pub open spec fn spec_input_name(a: FnArgModel) -> Option<Seq<char>> {
    match a {
        FnArgModel::Receiver => None,
        FnArgModel::Typed { pat, .. } => spec_pat_name(pat),
    }
}

/// The type of input `k`.
pub open spec fn spec_input_type(a: FnArgModel) -> TypeModel {
    match a {
        FnArgModel::Receiver => TypeModel::Other,
        FnArgModel::Typed { ty, .. } => ty,
    }
}

/// Some earlier position than `k` holds the same name.
pub open spec fn spec_taken(names: Seq<Seq<char>>, k: int) -> bool {
    exists|j: int| 0 <= j < k && names[j] == names[k]
}

/// The reconciled input arguments, where every input yields one.
pub open spec fn spec_input_args(
    boot: Bootstrap,
    doc: Docstring,
    sig: SignatureModel,
    all_generics: Seq<Seq<char>>,
) -> Option<Seq<ArgView>> {
    let inputs = sig.inputs@;
    if forall|k: int| 0 <= k < inputs.len() ==> (#[trigger] spec_input_name(inputs[k])) is Some {
        let names = Seq::new(inputs.len(), |k: int| spec_input_name(inputs[k])->0);
        let args = Seq::new(
            inputs.len(),
            |k: int| spec_input_arg(boot, doc, all_generics, names[k], spec_input_type(inputs[k]), spec_taken(names, k)),
        );
        if forall|k: int| 0 <= k < inputs.len() ==> (#[trigger] args[k]) is Some {
            Some(Seq::new(inputs.len(), |k: int| args[k]->0))
        } else {
            None
        }
    } else {
        None
    }
}

/// The C type of the return value: the one given, or that of the written
/// return type.
pub open spec fn spec_ret_c_type(boot: Bootstrap, sig: SignatureModel, all_generics: Seq<Seq<char>>) -> Option<Seq<char>> {
    match boot.returns {
        Some(b) if b.c_type is Some => Some(b.c_type->0@),
        _ => match sig.output {
            Some(ty) => spec_c_type(ty, all_generics),
            None => None,
        },
    }
}

/// The reconciled return value.
pub open spec fn spec_ret_arg(boot: Bootstrap, doc: Docstring, c_type: Seq<char>) -> ArgView {
    ArgView {
        name: None,
        c_type: Some(c_type),
        rust_type: match boot.returns {
            Some(b) => spec_opt_rt(b.rust_type.0),
            None => None,
        },
        hint: None,
        description: if doc.ret@.len() == 0 {
            None
        } else {
            Some(spec_join_trim(spec_string_views(doc.ret@)))
        },
        default: None,
        generics: Seq::empty(),
        is_type: false,
        do_not_convert: match boot.returns {
            Some(b) => b.do_not_convert,
            None => false,
        },
        example: None,
    }
}

/// An argument for a derived type: its name and runtime type.
pub open spec fn spec_derived_arg(p: (String, RuntimeType)) -> ArgView {
    ArgView {
        name: Some(p.0@),
        c_type: None,
        rust_type: Some(spec_rt_view(p.1)),
        hint: None,
        description: None,
        default: None,
        generics: Seq::empty(),
        is_type: false,
        do_not_convert: false,
        example: None,
    }
}

/// The arguments for the derived types, in order.
pub open spec fn spec_derived_args(d: Option<DerivedTypes>) -> Seq<ArgView> {
    match d {
        Some(dt) => dt.0@.map_values(|p: (String, RuntimeType)| spec_derived_arg(p)),
        None => Seq::empty(),
    }
}

/// What the bindings generator knows of a function, from the metadata
/// given, the documentation and the signature; `None` where the generics
/// include a lifetime or a constant, an input is `self` or binds no name,
/// or a runtime type or C type that is needed cannot be found.
pub open spec fn spec_reconcile(boot: Bootstrap, doc: Docstring, sig: SignatureModel) -> Option<FunctionView> {
    match spec_generic_names(sig.generics@) {
        None => None,
        Some(gnames) => {
            let all_generics = gnames + spec_derived_names(boot.derived_types);
            match (spec_input_args(boot, doc, sig, all_generics), spec_ret_c_type(boot, sig, all_generics)) {
                (Some(inputs), Some(ret_c)) => Some(
                    FunctionView {
                        description: if doc.description@.len() == 0 {
                            None
                        } else {
                            Some(spec_join_trim(spec_string_views(doc.description@)))
                        },
                        proof: spec_opt_str(boot.proof),
                        features: spec_string_views(boot.features.0@),
                        args: inputs + Seq::new(
                            gnames.len(),
                            |k: int| spec_generic_arg(boot, doc, gnames[k], spec_taken(gnames, k)),
                        ),
                        derived_types: spec_derived_args(boot.derived_types),
                        ret: spec_ret_arg(boot, doc, ret_c),
                    },
                ),
                _ => None,
            }
        },
    }
}

/// The names of the generic parameters. Fails with `TypeParse` where one is
/// a lifetime or a constant.
fn generic_names(g: &Vec<GenericParamModel>) -> (r: Result<Vec<String>, Error>)
    ensures
        r.is_ok() <==> spec_generic_names(g@) is Some,
        r matches Ok(v) ==> spec_generic_names(g@) == Some(spec_string_views(v@)),
        r matches Err(e) ==> e.variant == ErrorVariant::TypeParse,
{
    let mut out: Vec<String> = Vec::new();
    let mut i: usize = 0;
    while i < g.len()
        invariant
            i <= g@.len(),
            out@.len() == i,
            forall|j: int| 0 <= j < i ==> #[trigger] g@[j] is Type,
            forall|j: int| 0 <= j < i ==> (#[trigger] out@[j])@ == g@[j]->Type_0@,
        decreases g@.len() - i,
    {
        match &g[i] {
            GenericParamModel::Type(n) => {
                out.push(n.clone());
            },
            _ => {
                proof {
                    assert(!(g@[i as int] is Type));
                }
                return Err(Error::with_message(ErrorVariant::TypeParse, "only type parameters are supported"));
            },
        }
        i = i + 1;
    }
    proof {
        assert(spec_string_views(out@) =~= Seq::new(g@.len(), |j: int| g@[j]->Type_0@));
    }
    Ok(out)
}

/// The generic names followed by the names of the derived types.
fn all_generic_names(gnames: &Vec<String>, derived: &Option<DerivedTypes>) -> (r: Vec<String>)
    ensures
        spec_string_views(r@) == spec_string_views(gnames@) + spec_derived_names(*derived),
{
    let mut out = copy_strings(gnames);
    match derived {
        Some(dt) => {
            let mut k: usize = 0;
            while k < dt.0.len()
                invariant
                    k <= dt.0@.len(),
                    spec_string_views(out@) == spec_string_views(gnames@) + dt.0@.take(k as int).map_values(
                        |p: (String, RuntimeType)| p.0@,
                    ),
                decreases dt.0@.len() - k,
            {
                let ghost before = out@;
                out.push(dt.0[k].0.clone());
                proof {
                    assert(spec_string_views(out@) =~= spec_string_views(before).push(dt.0@[k as int].0@));
                    assert(dt.0@.take(k + 1).map_values(|p: (String, RuntimeType)| p.0@) =~= dt.0@.take(
                        k as int,
                    ).map_values(|p: (String, RuntimeType)| p.0@).push(dt.0@[k as int].0@));
                }
                k = k + 1;
            }
            proof {
                assert(dt.0@.take(dt.0@.len() as int) == dt.0@);
            }
        },
        None => {
            proof {
                assert(spec_string_views(gnames@) + Seq::<Seq<char>>::empty() =~= spec_string_views(gnames@));
            }
        },
    }
    out
}

/// Whether `names` holds `name`.
fn name_taken(names: &Vec<String>, name: &String) -> (r: bool)
    ensures
        r == spec_string_views(names@).contains(name@),
{
    let mut i: usize = 0;
    while i < names.len()
        invariant
            i <= names@.len(),
            forall|j: int| 0 <= j < i ==> names@[j]@ != name@,
        decreases names@.len() - i,
    {
        if string_eq(&names[i], name) {
            proof {
                assert(spec_string_views(names@)[i as int] == name@);
            }
            return true;
        }
        i = i + 1;
    }
    proof {
        if spec_string_views(names@).contains(name@) {
            let k = choose|k: int| 0 <= k < names@.len() && spec_string_views(names@)[k] == name@;
            assert(names@[k]@ == name@);
        }
    }
    false
}

/// The reconciled argument for an input named `name` of type `ty`.
fn input_arg(
    boot: &Bootstrap,
    doc: &Docstring,
    all_generics: &Vec<String>,
    name: &String,
    ty: &TypeModel,
    taken: bool,
) -> (r: Result<Argument, Error>)
    ensures
        r.is_ok() <==> spec_input_arg(*boot, *doc, spec_string_views(all_generics@), name@, *ty, taken) is Some,
        r matches Ok(a) ==> spec_input_arg(*boot, *doc, spec_string_views(all_generics@), name@, *ty, taken) == Some(
            spec_arg_view(a),
        ),
        r matches Err(e) ==> e.variant == ErrorVariant::TypeParse,
{
    proof {
        assert(spec_views_of(all_generics@) == spec_string_views(all_generics@));
    }
    let found = boot_lookup(&boot.arguments.0, name);
    proof {
        match found {
            Some(k) => {
                assert(spec_boot_lookup(boot.arguments.0@, name@) == Some(boot.arguments.0@[k as int].1)) by {
                    let c = choose|i: int| spec_last_key(spec_boot_keys(boot.arguments.0@), name@, i);
                    if c < k {
                        assert(spec_boot_keys(boot.arguments.0@)[k as int] != name@);
                    } else if c > k {
                        assert(spec_boot_keys(boot.arguments.0@)[c] != name@);
                    }
                }
            },
            None => {},
        }
    }
    let rust_type = match found {
        Some(k) if boot.arguments.0[k].1.rust_type.0.is_some() => copy_opt_rt(&boot.arguments.0[k].1.rust_type.0),
        _ => match runtime_type_of(ty) {
            Ok(rt) => Some(rt),
            Err(e) => return Err(e),
        },
    };
    let c_type = match found {
        Some(k) if boot.arguments.0[k].1.c_type.is_some() => copy_opt_str(&boot.arguments.0[k].1.c_type),
        _ => match c_type_of(ty, all_generics) {
            Ok(c) => Some(c),
            Err(e) => return Err(e),
        },
    };
    let description = doc_text(&doc.arguments, name, taken);
    let a = match found {
        Some(k) => {
            let bt = &boot.arguments.0[k].1;
            Argument {
                name: Some(name.clone()),
                c_type,
                rust_type,
                hint: copy_opt_str(&bt.hint),
                description,
                default: copy_opt_value(&bt.default),
                generics: copy_strings(&bt.generics.0),
                is_type: false,
                do_not_convert: bt.do_not_convert,
                example: None,
            }
        },
        None => Argument {
            name: Some(name.clone()),
            c_type,
            rust_type,
            hint: None,
            description,
            default: None,
            generics: Vec::new(),
            is_type: false,
            do_not_convert: false,
            example: None,
        },
    };
    proof {
        assert(spec_string_views(Seq::<String>::empty()) =~= Seq::<Seq<char>>::empty());
    }
    Ok(a)
}

/// The metadata for `name` is the entry at its last position.
proof fn lemma_boot_lookup(t: Seq<(String, BootstrapType)>, name: Seq<char>, k: int)
    requires
        spec_last_key(spec_boot_keys(t), name, k),
    ensures
        spec_boot_lookup(t, name) == Some(t[k].1),
{
    let c = choose|i: int| spec_last_key(spec_boot_keys(t), name, i);
    if c < k {
        assert(spec_boot_keys(t)[k] != name);
    } else if c > k {
        assert(spec_boot_keys(t)[c] != name);
    }
}

/// Whether a name was taken depends only on the names up to it.
proof fn lemma_taken_prefix(s: Seq<Seq<char>>, t: Seq<Seq<char>>, k: int)
    requires
        0 <= k < s.len(),
        k < t.len(),
        forall|j: int| 0 <= j <= k ==> s[j] == t[j],
    ensures
        spec_taken(s, k) == spec_taken(t, k),
{
    if spec_taken(s, k) {
        let w = choose|j: int| 0 <= j < k && s[j] == s[k];
        assert(t[w] == t[k]);
    }
    if spec_taken(t, k) {
        let w = choose|j: int| 0 <= j < k && t[j] == t[k];
        assert(s[w] == s[k]);
    }
}

/// The reconciled argument for the generic parameter `name`.
fn generic_arg(boot: &Bootstrap, doc: &Docstring, name: &String, taken: bool) -> (r: Argument)
    ensures
        spec_arg_view(r) == spec_generic_arg(*boot, *doc, name@, taken),
{
    let found = boot_lookup(&boot.generics.0, name);
    let description = doc_text(&doc.generics, name, taken);
    proof {
        assert(spec_string_views(Seq::<String>::empty()) =~= Seq::<Seq<char>>::empty());
    }
    match found {
        Some(k) => {
            proof {
                lemma_boot_lookup(boot.generics.0@, name@, k as int);
            }
            let bt = &boot.generics.0[k].1;
            Argument {
                name: Some(name.clone()),
                c_type: None,
                rust_type: None,
                hint: copy_opt_str(&bt.hint),
                description,
                default: copy_opt_value(&bt.default),
                generics: copy_strings(&bt.generics.0),
                is_type: true,
                do_not_convert: false,
                example: copy_opt_rt(&bt.example.0),
            }
        },
        None => Argument {
            name: Some(name.clone()),
            c_type: None,
            rust_type: None,
            hint: None,
            description,
            default: None,
            generics: Vec::new(),
            is_type: true,
            do_not_convert: false,
            example: None,
        },
    }
}

/// The reconciled arguments of the inputs. Fails with `TypeParse` where one
/// is `self`, binds no name, or lacks a runtime type or a C type.
fn input_args(boot: &Bootstrap, doc: &Docstring, sig: &SignatureModel, all_generics: &Vec<String>) -> (r: Result<
    Vec<Argument>,
    Error,
>)
    ensures
        r.is_ok() <==> spec_input_args(*boot, *doc, *sig, spec_string_views(all_generics@)) is Some,
        r matches Ok(v) ==> spec_input_args(*boot, *doc, *sig, spec_string_views(all_generics@)) == Some(
            spec_arg_views(v@),
        ),
        r matches Err(e) ==> e.variant == ErrorVariant::TypeParse,
{
    let ghost inputs = sig.inputs@;
    let ghost allv = spec_string_views(all_generics@);
    let mut names: Vec<String> = Vec::new();
    let mut out: Vec<Argument> = Vec::new();
    let mut k: usize = 0;
    while k < sig.inputs.len()
        invariant
            inputs == sig.inputs@,
            allv == spec_string_views(all_generics@),
            k <= inputs.len(),
            names@.len() == k,
            out@.len() == k,
            forall|j: int| 0 <= j < k ==> (#[trigger] spec_input_name(inputs[j])) is Some,
            forall|j: int| 0 <= j < k ==> (#[trigger] names@[j])@ == spec_input_name(inputs[j])->0,
            forall|j: int|
                0 <= j < k ==> spec_input_arg(
                    *boot,
                    *doc,
                    allv,
                    spec_string_views(names@)[j],
                    spec_input_type(inputs[j]),
                    spec_taken(spec_string_views(names@), j),
                ) == Some(spec_arg_view(#[trigger] out@[j])),
        decreases inputs.len() - k,
    {
        match &sig.inputs[k] {
            FnArgModel::Receiver => {
                proof {
                    assert(spec_input_name(inputs[k as int]) is None);
                }
                return Err(Error::with_message(ErrorVariant::TypeParse, "receiver arguments are not supported"));
            },
            FnArgModel::Typed { pat, ty } => {
                let name = match pat_name(pat) {
                    Ok(n) => n,
                    Err(e) => {
                        proof {
                            assert(spec_input_name(inputs[k as int]) is None);
                        }
                        return Err(e);
                    },
                };
                let taken = name_taken(&names, &name);
                let ghost nv = spec_string_views(names@);
                let ghost nv2 = nv.push(name@);
                proof {
                    assert(taken == spec_taken(nv2, k as int)) by {
                        if taken {
                            let w = choose|w: int| 0 <= w < nv.len() && nv[w] == name@;
                            assert(nv2[w] == nv2[k as int]);
                        }
                        if spec_taken(nv2, k as int) {
                            let w = choose|j: int| 0 <= j < k && nv2[j] == nv2[k as int];
                            assert(nv[w] == name@);
                        }
                    }
                }
                let a = match input_arg(boot, doc, all_generics, &name, ty, taken) {
                    Ok(a) => a,
                    Err(e) => {
                        proof {
                            if forall|j: int| 0 <= j < inputs.len() ==> (#[trigger] spec_input_name(inputs[j])) is Some {
                                let full = Seq::new(inputs.len(), |j: int| spec_input_name(inputs[j])->0);
                                assert forall|j: int| 0 <= j <= k implies full[j] == nv2[j] by {
                                    if j < k {
                                        assert(names@[j]@ == spec_input_name(inputs[j])->0);
                                    }
                                }
                                lemma_taken_prefix(full, nv2, k as int);
                                let args = Seq::new(
                                    inputs.len(),
                                    |j: int| spec_input_arg(*boot, *doc, allv, full[j], spec_input_type(inputs[j]), spec_taken(full, j)),
                                );
                                assert(args[k as int] is None);
                            }
                        }
                        return Err(e);
                    },
                };
                let ghost before = out@;
                names.push(name);
                out.push(a);
                proof {
                    assert(spec_string_views(names@) =~= nv2);
                    assert forall|j: int|
                        0 <= j < k + 1 implies spec_input_arg(
                        *boot,
                        *doc,
                        allv,
                        spec_string_views(names@)[j],
                        spec_input_type(inputs[j]),
                        spec_taken(spec_string_views(names@), j),
                    ) == Some(spec_arg_view(#[trigger] out@[j])) by {
                        if j < k {
                            lemma_taken_prefix(nv, nv2, j);
                            assert(out@[j] == before[j]);
                        }
                    }
                }
            },
        }
        k = k + 1;
    }
    proof {
        let nv = spec_string_views(names@);
        let full = Seq::new(inputs.len(), |j: int| spec_input_name(inputs[j])->0);
        assert(full =~= nv);
        let args = Seq::new(
            inputs.len(),
            |j: int| spec_input_arg(*boot, *doc, allv, full[j], spec_input_type(inputs[j]), spec_taken(full, j)),
        );
        assert forall|j: int| 0 <= j < inputs.len() implies (#[trigger] args[j]) == Some(spec_arg_view(out@[j])) by {
            assert(full[j] == nv[j]);
            assert(spec_input_arg(*boot, *doc, allv, nv[j], spec_input_type(inputs[j]), spec_taken(nv, j)) == Some(
                spec_arg_view(out@[j]),
            ));
        }
        assert forall|j: int| 0 <= j < inputs.len() implies (#[trigger] args[j]) is Some by {
            assert(args[j] == Some(spec_arg_view(out@[j])));
        }
        assert(Seq::new(inputs.len(), |j: int| args[j]->0) =~= spec_arg_views(out@)) by {
            assert forall|j: int| 0 <= j < inputs.len() implies args[j]->0 == spec_arg_views(out@)[j] by {
                assert(args[j] == Some(spec_arg_view(out@[j])));
            }
        }
    }
    Ok(out)
}

/// The reconciled arguments of the generic parameters named `gnames`.
fn generic_args(boot: &Bootstrap, doc: &Docstring, gnames: &Vec<String>) -> (r: Vec<Argument>)
    ensures
        spec_arg_views(r@) == Seq::new(
            gnames@.len(),
            |k: int| spec_generic_arg(*boot, *doc, spec_string_views(gnames@)[k], spec_taken(spec_string_views(gnames@), k)),
        ),
{
    let ghost gv = spec_string_views(gnames@);
    let mut seen: Vec<String> = Vec::new();
    let mut out: Vec<Argument> = Vec::new();
    let mut k: usize = 0;
    while k < gnames.len()
        invariant
            gv == spec_string_views(gnames@),
            k <= gnames@.len(),
            out@.len() == k,
            seen@.len() == k,
            spec_string_views(seen@) == gv.take(k as int),
            forall|j: int| 0 <= j < k ==> spec_arg_view(#[trigger] out@[j]) == spec_generic_arg(*boot, *doc, gv[j], spec_taken(gv, j)),
        decreases gnames@.len() - k,
    {
        let taken = name_taken(&seen, &gnames[k]);
        proof {
            let sv = spec_string_views(seen@);
            assert(gv[k as int] == gnames@[k as int]@);
            assert(taken == spec_taken(gv, k as int)) by {
                if taken {
                    let w = choose|w: int| 0 <= w < sv.len() && sv[w] == gnames@[k as int]@;
                    assert(gv[w] == gv[k as int]);
                }
                if spec_taken(gv, k as int) {
                    let w = choose|j: int| 0 <= j < k && gv[j] == gv[k as int];
                    assert(sv[w] == gv[k as int]);
                }
            }
        }
        let a = generic_arg(boot, doc, &gnames[k], taken);
        let ghost before = out@;
        let ghost seen_before = seen@;
        out.push(a);
        let copy = gnames[k].clone();
        seen.push(copy);
        proof {
            assert(spec_string_views(seen_before) == gv.take(k as int));
            assert forall|j: int| 0 <= j < k + 1 implies spec_string_views(seen@)[j] == gv.take(k + 1)[j] by {
                if j < k {
                    assert(seen@[j] == seen_before[j]);
                    assert(spec_string_views(seen_before)[j] == gv.take(k as int)[j]);
                } else {
                    assert(seen@[j] == copy);
                }
            }
            assert(spec_string_views(seen@) =~= gv.take(k + 1));
            assert forall|j: int| 0 <= j < k + 1 implies spec_arg_view(#[trigger] out@[j]) == spec_generic_arg(
                *boot,
                *doc,
                gv[j],
                spec_taken(gv, j),
            ) by {
                if j < k {
                    assert(out@[j] == before[j]);
                }
            }
        }
        k = k + 1;
    }
    proof {
        assert(spec_arg_views(out@) =~= Seq::new(gnames@.len(), |k: int| spec_generic_arg(*boot, *doc, gv[k], spec_taken(gv, k))));
    }
    out
}

/// The reconciled return value. Fails with `TypeParse` where no C type is
/// given and none can be found from the written return type.
fn ret_arg(boot: &Bootstrap, doc: &Docstring, sig: &SignatureModel, all_generics: &Vec<String>) -> (r: Result<Argument, Error>)
    ensures
        r.is_ok() <==> spec_ret_c_type(*boot, *sig, spec_string_views(all_generics@)) is Some,
        r matches Ok(a) ==> spec_arg_view(a) == spec_ret_arg(
            *boot,
            *doc,
            spec_ret_c_type(*boot, *sig, spec_string_views(all_generics@))->0,
        ),
        r matches Err(e) ==> e.variant == ErrorVariant::TypeParse,
{
    proof {
        assert(spec_views_of(all_generics@) == spec_string_views(all_generics@));
        assert(spec_string_views(Seq::<String>::empty()) =~= Seq::<Seq<char>>::empty());
    }
    let given = match &boot.returns {
        Some(b) if b.c_type.is_some() => copy_opt_str(&b.c_type),
        _ => None,
    };
    let c_type = match given {
        Some(c) => c,
        None => match &sig.output {
            Some(ty) => c_type_of(ty, all_generics)?,
            None => {
                return Err(
                    Error::with_message(ErrorVariant::TypeParse, "default return types are not supported"),
                );
            },
        },
    };
    let description = if doc.ret.len() == 0 {
        None
    } else {
        Some(join_trim(&doc.ret))
    };
    let (rust_type, do_not_convert) = match &boot.returns {
        Some(b) => (copy_opt_rt(&b.rust_type.0), b.do_not_convert),
        None => (None, false),
    };
    Ok(
        Argument {
            name: None,
            c_type: Some(c_type),
            rust_type,
            hint: None,
            description,
            default: None,
            generics: Vec::new(),
            is_type: false,
            do_not_convert,
            example: None,
        },
    )
}

/// The arguments for the derived types, in order.
fn derived_args(d: &Option<DerivedTypes>) -> (r: Vec<Argument>)
    ensures
        spec_arg_views(r@) == spec_derived_args(*d),
{
    let mut out: Vec<Argument> = Vec::new();
    proof {
        assert(spec_string_views(Seq::<String>::empty()) =~= Seq::<Seq<char>>::empty());
    }
    match d {
        Some(dt) => {
            let mut k: usize = 0;
            while k < dt.0.len()
                invariant
                    k <= dt.0@.len(),
                    out@.len() == k,
                    spec_string_views(Seq::<String>::empty()) == Seq::<Seq<char>>::empty(),
                    forall|j: int| 0 <= j < k ==> spec_arg_view(#[trigger] out@[j]) == spec_derived_arg(dt.0@[j]),
                decreases dt.0@.len() - k,
            {
                let a = Argument {
                    name: Some(dt.0[k].0.clone()),
                    c_type: None,
                    rust_type: Some(copy_rt(&dt.0[k].1)),
                    hint: None,
                    description: None,
                    default: None,
                    generics: Vec::new(),
                    is_type: false,
                    do_not_convert: false,
                    example: None,
                };
                out.push(a);
                k = k + 1;
            }
            proof {
                assert(spec_arg_views(out@) =~= spec_derived_args(*d));
            }
        },
        None => {
            proof {
                assert(spec_arg_views(out@) =~= spec_derived_args(*d));
            }
        },
    }
    out
}

/// Reconciles what the bindings generator knows of a function: the
/// metadata given for it, its documentation and its signature; see
/// `spec_reconcile`. Each input becomes an argument with the given runtime
/// and C types, or those of its written type; each generic parameter
/// becomes a type argument; the return value takes the given C type or that
/// of the written return type. Fails with `TypeParse` where `spec_reconcile`
/// has no result.
pub fn reconcile_function(boot: Bootstrap, doc: Docstring, sig: SignatureModel) -> (r: Result<Function, Error>)
    ensures
        r.is_ok() <==> spec_reconcile(boot, doc, sig) is Some,
        r matches Ok(f) ==> spec_reconcile(boot, doc, sig) == Some(spec_function_view(f)),
        r matches Err(e) ==> e.variant == ErrorVariant::TypeParse,
{
    let gnames = generic_names(&sig.generics)?;
    let all_generics = all_generic_names(&gnames, &boot.derived_types);
    let inputs = input_args(&boot, &doc, &sig, &all_generics)?;
    let ret = ret_arg(&boot, &doc, &sig, &all_generics)?;
    let generics = generic_args(&boot, &doc, &gnames);
    let derived = derived_args(&boot.derived_types);
    let description = if doc.description.len() == 0 {
        None
    } else {
        Some(join_trim(&doc.description))
    };
    let mut args = inputs;
    let ghost input_views = spec_arg_views(args@);
    let mut generics = generics;
    args.append(&mut generics);
    proof {
        assert(spec_arg_views(args@) =~= input_views + Seq::new(
            gnames@.len(),
            |k: int| spec_generic_arg(boot, doc, spec_string_views(gnames@)[k], spec_taken(spec_string_views(gnames@), k)),
        ));
    }
    let f = Function {
        description,
        proof: copy_opt_str(&boot.proof),
        features: copy_strings(&boot.features.0),
        args,
        derived_types: derived,
        ret,
    };
    Ok(f)
}

} // verus!
