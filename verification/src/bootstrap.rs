//! Metadata for generating bindings: runtime type descriptions, their
//! rendering as Python, and the parsing of documentation comments.
use vstd::prelude::*;
use crate::text::{
    chars_of, ends_with, spec_ends_with, spec_split, spec_split_once, spec_trim, spec_views, split, split_once, starts_with,
    trim,
};
use crate::error::string_eq;

verus! {

/// The metadata to generate code that evaluates to a Rust type name.
#[derive(Debug)]
pub enum RuntimeType {
    /// An existing runtime type, by name.
    Name(String),
    /// A higher-level runtime type built from others.
    Nest { origin: String, args: Vec<RuntimeType> },
    /// Explicitly absent.
    Absent,
    /// A runtime type built by a function call.
    Function { function: String, params: Vec<RuntimeType> },
}

/// The Python renderings of the first `n` runtime types of `items`,
/// separated by commas.
pub open spec fn spec_join_python(items: Seq<RuntimeType>, n: int) -> Seq<char>
    decreases items, n,
{
    if n <= 0 || n > items.len() {
        Seq::empty()
    } else if n == 1 {
        spec_to_python(items[0])
    } else {
        spec_join_python(items, n - 1) + ", "@ + spec_to_python(items[n - 1])
    }
}

/// The Python expression that builds the runtime type.
pub open spec fn spec_to_python(rt: RuntimeType) -> Seq<char>
    decreases rt, 0int,
{
    match rt {
        RuntimeType::Name(name) => name@,
        RuntimeType::Function { function, params } => function@ + "("@ + spec_join_python(params@, params@.len() as int)
            + ")"@,
        RuntimeType::Nest { origin, args } => "RuntimeType(origin='"@ + origin@ + "', args=["@ + spec_join_python(
            args@,
            args@.len() as int,
        ) + "])"@,
        RuntimeType::Absent => "None"@,
    }
}

/// Renders the Python renderings of `items`, separated by commas.
fn join_python(items: &Vec<RuntimeType>) -> (r: String)
    ensures
        r@ == spec_join_python(items@, items@.len() as int),
    decreases items,
{
    let mut out = String::new();
    let mut i: usize = 0;
    proof {
        reveal_strlit(", ");
    }
    while i < items.len()
        invariant
            i <= items@.len(),
            out@ == spec_join_python(items@, i as int),
        decreases items@.len() - i,
    {
        proof {
            assert(decreases_to!(items => items@[i as int]));
        }
        let s = items[i].to_python();
        if i > 0 {
            out.append(", ");
        }
        out.append(s.as_str());
        i = i + 1;
    }
    out
}

impl RuntimeType {
    /// The Python expression that builds this runtime type.
    pub fn to_python(&self) -> (r: String)
        ensures
            r@ == spec_to_python(*self),
        decreases self,
    {
        proof {
            reveal_strlit("(");
            reveal_strlit(")");
            reveal_strlit("RuntimeType(origin='");
            reveal_strlit("', args=[");
            reveal_strlit("])");
            reveal_strlit("None");
        }
        match self {
            RuntimeType::Name(name) => name.clone(),
            RuntimeType::Function { function, params } => {
                let mut out = function.clone();
                out.append("(");
                let inner = join_python(params);
                out.append(inner.as_str());
                out.append(")");
                out
            },
            RuntimeType::Nest { origin, args } => {
                let mut out = String::from_str("RuntimeType(origin='");
                out.append(origin.as_str());
                out.append("', args=[");
                let inner = join_python(args);
                out.append(inner.as_str());
                out.append("])");
                out
            },
            RuntimeType::Absent => String::from_str("None"),
        }
    }
}

/// An optional runtime type.
#[derive(Debug)]
pub struct OptionRuntimeType(pub Option<RuntimeType>);

/// Runtime types derived from others, by name, in the order given.
#[derive(Debug)]
pub struct DerivedTypes(pub Vec<(String, RuntimeType)>);

/// The feature flags that a function requires.
#[derive(Debug)]
pub struct Features(pub Vec<String>);

/// The names in a default value that are generics.
#[derive(Debug, Default)]
pub struct DefaultGenerics(pub Vec<String>);

/// A default value of an argument. A float is held as its IEEE-754 bits.
#[derive(Debug)]
pub enum Value {
    Null,
    Bool(bool),
    String(String),
    Integer(i64),
    Float(u64),
}

/// Metadata for a function's argument, derived type or return value.
#[derive(Debug)]
pub struct Argument {
    /// The argument's name; absent for a return value.
    pub name: Option<String>,
    /// The C type it crosses the interface as; absent for a derived type.
    pub c_type: Option<String>,
    /// Its runtime type, in terms of Rust types and generics.
    pub rust_type: Option<RuntimeType>,
    /// A type hint that every possible value of it inherits from.
    pub hint: Option<String>,
    /// Its description, for documentation.
    pub description: Option<String>,
    /// Its default value.
    pub default: Option<Value>,
    /// The names in the default that stand for generics.
    pub generics: Vec<String>,
    /// Whether it stands for a type.
    pub is_type: bool,
    /// Whether its value is passed on as it is, without conversion.
    pub do_not_convert: bool,
    /// An example from which to infer the type, where it stands for one.
    pub example: Option<RuntimeType>,
}

/// The C type `c` with a surrounding `FfiResult<..>` removed.
pub open spec fn spec_strip_ffi_result(c: Seq<char>) -> Seq<char> {
    if "FfiResult<"@.len() <= c.len() && c.subrange(0, "FfiResult<"@.len() as int) == "FfiResult<"@ {
        c.subrange("FfiResult<"@.len() as int, c.len() - 1)
    } else {
        c
    }
}

/// The Python type that a category of the type hierarchy is written as.
pub open spec fn spec_category_hint(category: Seq<char>) -> Option<Seq<char>> {
    if category == "integer"@ {
        Some("int"@)
    } else if category == "float"@ {
        Some("float"@)
    } else if category == "string"@ {
        Some("str"@)
    } else if category == "bool"@ {
        Some("bool"@)
    } else {
        None
    }
}

/// The views of a type hierarchy: each category with its members.
pub open spec fn spec_hierarchy_views(h: Seq<(String, Vec<String>)>) -> Seq<(Seq<char>, Seq<Seq<char>>)> {
    h.map_values(|p: (String, Vec<String>)| (p.0@, spec_string_views(p.1@)))
}

/// `i` is the first category of `h` that has `c` among its members.
pub open spec fn spec_first_category(h: Seq<(Seq<char>, Seq<Seq<char>>)>, c: Seq<char>, i: int) -> bool {
    &&& 0 <= i < h.len()
    &&& h[i].1.contains(c)
    &&& forall|j: int| 0 <= j < i ==> !(#[trigger] h[j]).1.contains(c)
}

/// The Python hint of a value of C type `c`: by its kind of pointer, or by
/// the first category of the hierarchy that has it as a member.
pub open spec fn spec_c_type_hint(h: Seq<(Seq<char>, Seq<Seq<char>>)>, c: Seq<char>) -> Option<Seq<char>> {
    let c = spec_strip_ffi_result(c);
    if spec_ends_with(c, "AnyTransformation *"@) {
        Some("Transformation"@)
    } else if spec_ends_with(c, "AnyMeasurement *"@) {
        Some("Measurement"@)
    } else if spec_ends_with(c, "AnyObject *"@) || spec_ends_with(c, "FfiSlice *"@) {
        Some("Any"@)
    } else if exists|i: int| spec_first_category(h, c, i) {
        let i = choose|i: int| spec_first_category(h, c, i);
        spec_category_hint(h[i].0)
    } else {
        None
    }
}

/// `n` times "Any", separated by commas.
pub open spec fn spec_any_list(n: nat) -> Seq<char>
    decreases n,
{
    if n == 0 {
        Seq::empty()
    } else if n == 1 {
        "Any"@
    } else {
        spec_any_list((n - 1) as nat) + ", Any"@
    }
}

/// The Python type hint of an argument: its own hint where it has one; a
/// type descriptor where it stands for a type; a tuple of `Any` for a tuple;
/// otherwise what its C type says.
pub open spec fn spec_python_type_hint(arg: Argument, h: Seq<(Seq<char>, Seq<Seq<char>>)>) -> Option<Seq<char>> {
    if arg.hint is Some {
        Some(arg.hint->0@)
    } else if arg.is_type {
        Some("RuntimeTypeDescriptor"@)
    } else {
        match arg.rust_type {
            Some(RuntimeType::Nest { origin, args }) if origin@ == "Tuple"@ => Some(
                "Tuple["@ + spec_any_list(args@.len()) + "]"@,
            ),
            _ => match arg.c_type {
                Some(c) => spec_c_type_hint(h, c@),
                None => None,
            },
        }
    }
}

/// A C type that names a fallible result is long enough to hold its value's
/// type and closes with a one-byte character.
pub open spec fn spec_hint_readable(arg: Argument) -> bool {
    match arg.c_type {
        Some(c) => ("FfiResult<"@.len() <= c@.len() && c@.subrange(0, "FfiResult<"@.len() as int) == "FfiResult<"@)
            ==> (c@.len() > "FfiResult<"@.len() && (c@.last() as u32) < 128),
        None => true,
    }
}

/// The first category of `h` whose members hold `c`.
fn first_category(h: &Vec<(String, Vec<String>)>, c: &String) -> (r: Option<usize>)
    ensures
        match r {
            Some(i) => spec_first_category(spec_hierarchy_views(h@), c@, i as int),
            None => !exists|i: int| spec_first_category(spec_hierarchy_views(h@), c@, i),
        },
{
    let ghost hv = spec_hierarchy_views(h@);
    let mut i: usize = 0;
    while i < h.len()
        invariant
            hv == spec_hierarchy_views(h@),
            i <= h@.len(),
            forall|j: int| 0 <= j < i ==> !(#[trigger] hv[j]).1.contains(c@),
        decreases h@.len() - i,
    {
        let members = &h[i].1;
        let mut k: usize = 0;
        let mut found = false;
        while k < members.len()
            invariant
                k <= members@.len(),
                found ==> spec_string_views(members@).contains(c@),
                !found ==> forall|m: int| 0 <= m < k ==> members@[m]@ != c@,
            decreases members@.len() - k,
        {
            if !found && string_eq(&members[k], c) {
                found = true;
                proof {
                    assert(spec_string_views(members@)[k as int] == c@);
                }
            }
            k = k + 1;
        }
        proof {
            assert(hv[i as int].1 == spec_string_views(members@));
            if !found && spec_string_views(members@).contains(c@) {
                let m = choose|m: int| 0 <= m < members@.len() && spec_string_views(members@)[m] == c@;
                assert(members@[m]@ == c@);
            }
        }
        if found {
            return Some(i);
        }
        i = i + 1;
    }
    proof {
        assert forall|j: int| !spec_first_category(hv, c@, j) by {
            if 0 <= j < hv.len() {
                assert(!hv[j].1.contains(c@));
            }
        }
    }
    None
}

/// The Python hint of the C type `c`.
fn c_type_hint(h: &Vec<(String, Vec<String>)>, c: &String) -> (r: Option<String>)
    requires
        "FfiResult<"@.len() <= c@.len() && c@.subrange(0, "FfiResult<"@.len() as int) == "FfiResult<"@ ==> c@.len()
            > "FfiResult<"@.len(),
    ensures
        match spec_c_type_hint(spec_hierarchy_views(h@), c@) {
            Some(x) => r matches Some(s) && s@ == x,
            None => r is None,
        },
{
    proof {
        reveal_strlit("FfiResult<");
    }
    let stripped = if starts_with(c.as_str(), "FfiResult<") {
        let n = chars_of(c.as_str()).len();
        String::from_str(c.as_str().substring_char(10, n - 1))
    } else {
        c.clone()
    };
    assert(stripped@ == spec_strip_ffi_result(c@));
    let lit = if ends_with(stripped.as_str(), "AnyTransformation *") {
        "Transformation"
    } else if ends_with(stripped.as_str(), "AnyMeasurement *") {
        "Measurement"
    } else if ends_with(stripped.as_str(), "AnyObject *") || ends_with(stripped.as_str(), "FfiSlice *") {
        "Any"
    } else {
        match first_category(h, &stripped) {
            Some(i) => {
                let k = &h[i].0;
                if string_eq(k, &String::from_str("integer")) {
                    "int"
                } else if string_eq(k, &String::from_str("float")) {
                    "float"
                } else if string_eq(k, &String::from_str("string")) {
                    "str"
                } else if string_eq(k, &String::from_str("bool")) {
                    "bool"
                } else {
                    return None;
                }
            },
            None => {
                return None;
            },
        }
    };
    Some(String::from_str(lit))
}

/// The C type of an argument: `char *` for one that stands for a type,
/// its own C type otherwise.
pub open spec fn spec_arg_c_type(arg: Argument) -> Seq<char> {
    if arg.is_type {
        "char *"@
    } else {
        arg.c_type->0@
    }
}

impl Argument {
    /// The argument's name, which it must have.
    pub fn name(&self) -> (r: String)
        requires
            self.name is Some,
        ensures
            r@ == self.name->0@,
    {
        match &self.name {
            Some(n) => n.clone(),
            None => String::new(),
        }
    }

    /// The argument's C type: `char *` for one that stands for a type, which
    /// must have no C type of its own; otherwise its C type, which it must have.
    pub fn c_type(&self) -> (r: String)
        requires
            self.is_type ==> self.c_type is None,
            !self.is_type ==> self.c_type is Some,
        ensures
            r@ == spec_arg_c_type(*self),
    {
        if self.is_type {
            return String::from_str("char *");
        }
        match &self.c_type {
            Some(c) => c.clone(),
            None => String::new(),
        }
    }

    /// The argument's C type up to its first `<`.
    pub fn c_type_origin(&self) -> (r: String)
        requires
            self.is_type ==> self.c_type is None,
            !self.is_type ==> self.c_type is Some,
        ensures
            r@ == spec_split_once(spec_arg_c_type(*self), "<"@).0,
    {
        proof {
            reveal_strlit("<");
        }
        let c = self.c_type();
        let (head, _) = split_once(c.as_str(), "<");
        String::from_str(head)
    }

    /// The Python type hint of the argument: its own hint where it has one;
    /// `RuntimeTypeDescriptor` where it stands for a type; `Tuple[Any, ..]`
    /// for a tuple; otherwise, from its C type with a surrounding
    /// `FfiResult<..>` removed, `Transformation`, `Measurement` or `Any` for
    /// those kinds of pointer, and else the hint of the first category of
    /// `hierarchy` that has the C type among its members.
    pub fn python_type_hint(&self, hierarchy: &Vec<(String, Vec<String>)>) -> (r: Option<String>)
        requires
            spec_hint_readable(*self),
        ensures
            match spec_python_type_hint(*self, spec_hierarchy_views(hierarchy@)) {
                Some(x) => r matches Some(s) && s@ == x,
                None => r is None,
            },
    {
        proof {
            reveal_strlit("Tuple[");
            reveal_strlit("]");
            reveal_strlit("Any");
            reveal_strlit(", Any");
        }
        if let Some(hint) = &self.hint {
            return Some(hint.clone());
        }
        if self.is_type {
            return Some(String::from_str("RuntimeTypeDescriptor"));
        }
        if let Some(RuntimeType::Nest { origin, args }) = &self.rust_type {
            if string_eq(origin, &String::from_str("Tuple")) {
                let mut out = String::from_str("Tuple[");
                let mut i: usize = 0;
                while i < args.len()
                    invariant
                        i <= args@.len(),
                        out@ == "Tuple["@ + spec_any_list(i as nat),
                    decreases args@.len() - i,
                {
                    if i == 0 {
                        out.append("Any");
                    } else {
                        out.append(", Any");
                    }
                    proof {
                        assert(out@ == "Tuple["@ + spec_any_list((i + 1) as nat));
                    }
                    i = i + 1;
                }
                out.append("]");
                return Some(out);
            }
        }
        match &self.c_type {
            Some(c) => c_type_hint(hierarchy, c),
            None => None,
        }
    }
}

/// The sections of a function's documentation.
#[derive(Debug, Default)]
pub struct Docstring {
    pub description: Vec<String>,
    pub arguments: Vec<(String, Vec<String>)>,
    pub generics: Vec<(String, Vec<String>)>,
    pub ret: Vec<String>,
}

/// The first argument of a built runtime type: the first parameter of a
/// function call, or the first argument of a nested type.
pub open spec fn spec_first_is_defined(v: Option<RuntimeType>) -> bool {
    match v {
        Some(RuntimeType::Function { params, .. }) => params@.len() > 0,
        Some(RuntimeType::Nest { args, .. }) => args@.len() > 0,
        Some(_) => false,
        None => true,
    }
}

/// Replaces a built runtime type by its first argument.
pub fn runtimetype_first(v: OptionRuntimeType) -> (r: OptionRuntimeType)
    requires
        spec_first_is_defined(v.0),
    ensures
        match v.0 {
            Some(RuntimeType::Function { params, .. }) => r.0 == Some(params@[0]),
            Some(RuntimeType::Nest { args, .. }) => r.0 == Some(args@[0]),
            _ => r.0.is_none(),
        },
{
    match v.0 {
        Some(RuntimeType::Function { mut params, .. }) => OptionRuntimeType(Some(params.remove(0))),
        Some(RuntimeType::Nest { mut args, .. }) => OptionRuntimeType(Some(args.remove(0))),
        _ => OptionRuntimeType(None),
    }
}

/// The version that documentation links name: `latest` for a development
/// build, the version itself otherwise.
pub open spec fn spec_version_label(version: Seq<char>) -> Seq<char> {
    if version == "0.0.0+development"@ {
        "latest"@
    } else {
        version
    }
}

/// The version that documentation links name.
pub fn version_label(version: &str) -> (r: String)
    ensures
        r@ == spec_version_label(version@),
{
    let dev = "0.0.0+development";
    proof {
        reveal_strlit("0.0.0+development");
        reveal_strlit("latest");
    }
    if crate::error::string_eq(&String::from_str(version), &String::from_str(dev)) {
        String::from_str("latest")
    } else {
        String::from_str(version)
    }
}

/// The markdown link to a proof in the online documentation of `version`.
pub open spec fn spec_proof_link(version: Seq<char>, relative_path: Seq<char>) -> Seq<char> {
    "[Link to proof.](https://docs.opendp.org/en/"@ + version + "/proofs/"@ + relative_path + ")"@
}

/// The markdown link to the proof at `relative_path` in the online
/// documentation of `version`.
pub fn make_proof_link(version: &str, relative_path: &str) -> (r: String)
    ensures
        r@ == spec_proof_link(version@, relative_path@),
{
    let mut out = String::from_str("[Link to proof.](https://docs.opendp.org/en/");
    out.append(version);
    out.append("/proofs/");
    out.append(relative_path);
    out.append(")");
    out
}

/// The lines, each indented by four spaces, joined by line feeds.
pub open spec fn spec_indent_lines(lines: Seq<Seq<char>>, n: int) -> Seq<char>
    decreases n,
{
    if n <= 0 || n > lines.len() {
        Seq::empty()
    } else if n == 1 {
        "    "@ + lines[0]
    } else {
        spec_indent_lines(lines, n - 1) + "\n"@ + "    "@ + lines[n - 1]
    }
}

/// `text` with every line indented by four spaces.
pub open spec fn spec_indent(text: Seq<char>) -> Seq<char> {
    let lines = spec_split(text, "\n"@);
    spec_indent_lines(lines, lines.len() as int)
}

/// Indents every line of `text` by four spaces.
pub fn indent(text: String) -> (r: String)
    ensures
        r@ == spec_indent(text@),
{
    proof {
        reveal_strlit("\n");
        reveal_strlit("    ");
    }
    let lines = split(text.as_str(), "\n");
    let mut out = String::new();
    let mut i: usize = 0;
    while i < lines.len()
        invariant
            i <= lines@.len(),
            spec_views(lines@) == spec_split(text@, "\n"@),
            out@ == spec_indent_lines(spec_views(lines@), i as int),
        decreases lines@.len() - i,
    {
        if i > 0 {
            out.append("\n");
        }
        out.append("    ");
        out.append(lines[i]);
        proof {
            assert(spec_views(lines@)[i as int] == lines@[i as int]@);
        }
        i = i + 1;
    }
    out
}

/// The views of a sequence of strings.
pub open spec fn spec_string_views(v: Seq<String>) -> Seq<Seq<char>> {
    v.map_values(|x: String| x@)
}

/// A line that opens the description of an argument: it begins with "* `".
pub open spec fn spec_is_arg_header(line: Seq<char>) -> bool {
    "* `"@.len() <= line.len() && line.subrange(0, "* `"@.len() as int) == "* `"@
}

/// The position of the first header line at or after `j`, or the number of lines.
pub open spec fn spec_scan_header(lines: Seq<Seq<char>>, j: int) -> int
    decreases lines.len() - j,
{
    if j < 0 || j >= lines.len() {
        lines.len() as int
    } else if spec_is_arg_header(lines[j]) {
        j
    } else {
        spec_scan_header(lines, j + 1)
    }
}

/// The part of a header line before the first " - ".
pub open spec fn spec_arg_head(line: Seq<char>) -> Seq<char> {
    spec_split_once(line, " - "@).0
}

/// The argument's name: the head without its leading "* `" and its last character.
pub open spec fn spec_arg_name(line: Seq<char>) -> Seq<char> {
    let head = spec_arg_head(line);
    head.subrange(3, head.len() - 1)
}

/// The argument's description: the text after the first " - " of the header
/// line, then the lines up to the next header, trimmed.
pub open spec fn spec_arg_description(lines: Seq<Seq<char>>, h: int, n: int) -> Seq<Seq<char>> {
    let first = match spec_split_once(lines[h], " - "@).1 {
        Some(rest) => rest,
        None => Seq::<char>::empty(),
    };
    seq![first] + lines.subrange(h + 1, n).map_values(|l: Seq<char>| spec_trim(l))
}

/// The arguments described from the header at `h` on, up to the last line.
pub open spec fn spec_arg_entries(lines: Seq<Seq<char>>, h: int) -> Seq<(Seq<char>, Seq<Seq<char>>)>
    decreases lines.len() - h,
{
    if h < 0 || h >= lines.len() - 1 {
        Seq::empty()
    } else {
        let n = spec_scan_header(lines, h + 1);
        if n <= h || n > lines.len() {
            Seq::empty()
        } else {
            seq![(spec_arg_name(lines[h]), spec_arg_description(lines, h, n))] + spec_arg_entries(lines, n)
        }
    }
}

/// The lines of a docstring section with a closing header line appended.
pub open spec fn spec_with_sentinel(args: Seq<String>) -> Seq<Seq<char>> {
    spec_string_views(args).push("* `"@)
}

/// The described arguments of a docstring section, in order: each name with
/// its description.
pub open spec fn spec_docstring_args(args: Seq<String>) -> Seq<(Seq<char>, Seq<Seq<char>>)> {
    let lines = spec_with_sentinel(args);
    spec_arg_entries(lines, spec_scan_header(lines, 0))
}

/// Every header line's head is long enough to hold a name, and ends in a
/// one-byte character.
pub open spec fn spec_args_parsable(args: Seq<String>) -> bool {
    forall|i: int|
        0 <= i < args.len() && spec_is_arg_header(#[trigger] args[i]@) ==> {
            let head = spec_arg_head(args[i]@);
            &&& head.len() >= 4
            &&& (head.last() as u32) < 128
        }
}

/// The views of parsed argument descriptions.
pub open spec fn spec_entry_views(v: Seq<(String, Vec<String>)>) -> Seq<(Seq<char>, Seq<Seq<char>>)> {
    v.map_values(|p: (String, Vec<String>)| (p.0@, spec_string_views(p.1@)))
}

/// The scan ends at a header line at or after `j`, or at the end.
proof fn lemma_scan_header(lines: Seq<Seq<char>>, j: int)
    requires
        0 <= j,
    ensures
        j <= spec_scan_header(lines, j) <= lines.len() || (j > lines.len() && spec_scan_header(lines, j) == lines.len()),
        spec_scan_header(lines, j) < lines.len() ==> spec_is_arg_header(lines[spec_scan_header(lines, j)]),
    decreases lines.len() - j,
{
    if j < lines.len() && !spec_is_arg_header(lines[j]) {
        lemma_scan_header(lines, j + 1);
    }
}

/// The position of the first header line at or after `j`.
fn scan_header(lines: &Vec<String>, j: usize) -> (r: usize)
    ensures
        r == spec_scan_header(spec_string_views(lines@), j as int),
{
    let ghost v = spec_string_views(lines@);
    proof {
        reveal_strlit("* `");
    }
    let mut k = j;
    proof {
        assert(v.len() == lines@.len());
    }
    while k < lines.len()
        invariant
            v == spec_string_views(lines@),
            v.len() == lines@.len(),
            j <= k,
            spec_scan_header(v, j as int) == spec_scan_header(v, k as int),
        decreases lines@.len() - k,
    {
        if starts_with(lines[k].as_str(), "* `") {
            return k;
        }
        k = k + 1;
    }
    lines.len()
}

/// Parses the arguments section of a docstring: each line beginning with
/// "* `" names an argument, between the backquotes, and starts its
/// description after " - "; the lines up to the next such line continue
/// the description, trimmed.
pub fn parse_docstring_args(args: Vec<String>) -> (r: Vec<(String, Vec<String>)>)
    requires
        spec_args_parsable(args@),
    ensures
        spec_entry_views(r@) == spec_docstring_args(args@),
{
    proof {
        reveal_strlit("* `");
        reveal_strlit(" - ");
    }
    let ghost original = args@;
    let mut lines = args;
    lines.push(String::from_str("* `"));
    let ghost v = spec_string_views(lines@);
    proof {
        assert(v =~= spec_with_sentinel(original));
    }
    let n = lines.len();
    let mut h = scan_header(&lines, 0);
    let mut out: Vec<(String, Vec<String>)> = Vec::new();
    let ghost all = spec_arg_entries(v, spec_scan_header(v, 0));
    proof {
        lemma_scan_header(v, 0);
    }
    while h < n - 1
        invariant
            n == lines@.len() == v.len() == original.len() + 1,
            v == spec_string_views(lines@),
            v == spec_with_sentinel(original),
            spec_args_parsable(original),
            forall|i: int| 0 <= i < original.len() ==> lines@[i] == original[i],
            h <= n,
            h < n ==> spec_is_arg_header(v[h as int]),
            all == spec_arg_entries(v, spec_scan_header(v, 0)),
            spec_entry_views(out@) + spec_arg_entries(v, h as int) == all,
        decreases n - h,
    {
        let next = scan_header(&lines, h + 1);
        proof {
            reveal_strlit(" - ");
            lemma_scan_header(v, h + 1);
            assert(v[h as int] == lines@[h as int]@);
            assert(lines@[h as int] == original[h as int]);
            assert(spec_is_arg_header(original[h as int]@));
        }
        let (head, rest) = split_once(lines[h].as_str(), " - ");
        let head_len = head.unicode_len();
        let name = String::from_str(head.substring_char(3, head_len - 1));
        let mut description: Vec<String> = Vec::new();
        match rest {
            Some(x) => description.push(String::from_str(x)),
            None => description.push(String::new()),
        }
        let mut k = h + 1;
        proof {
            assert(spec_string_views(description@) =~= spec_arg_description(v, h as int, next as int).take(1));
        }
        while k < next
            invariant
                h < k <= next <= n,
                n == lines@.len() == v.len(),
                v == spec_string_views(lines@),
                spec_string_views(description@) == spec_arg_description(v, h as int, next as int).take(k - h),
            decreases next - k,
        {
            let t = String::from_str(trim(lines[k].as_str()));
            proof {
                assert(v[k as int] == lines@[k as int]@);
                assert(spec_string_views(description@.push(t)) == spec_string_views(description@).push(t@));
                assert(spec_arg_description(v, h as int, next as int).take(k - h + 1) =~= spec_arg_description(
                    v,
                    h as int,
                    next as int,
                ).take(k - h).push(t@));
            }
            description.push(t);
            k = k + 1;
        }
        proof {
            assert(spec_arg_description(v, h as int, next as int).take(next - h) == spec_arg_description(
                v,
                h as int,
                next as int,
            ));
            let entry = (name, description);
            assert(spec_entry_views(out@.push(entry)) == spec_entry_views(out@).push((name@, spec_string_views(description@))));
            assert(name@ == spec_arg_name(v[h as int]));
            assert(spec_arg_entries(v, h as int) == seq![(spec_arg_name(v[h as int]), spec_arg_description(v, h as int, next as int))]
                + spec_arg_entries(v, next as int));
        }
        out.push((name, description));
        h = next;
    }
    proof {
        assert(spec_arg_entries(v, h as int) == Seq::<(Seq<char>, Seq<Seq<char>>)>::empty());
    }
    out
}

} // verus!
