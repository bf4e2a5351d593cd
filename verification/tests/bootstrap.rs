use opendp::bootstrap::{indent, make_proof_link, parse_docstring_args, runtimetype_first, version_label, OptionRuntimeType, RuntimeType};

fn name(s: &str) -> RuntimeType {
    RuntimeType::Name(s.to_string())
}

#[test]
fn test_to_python_name() {
    assert_eq!(name("i32").to_python(), "i32");
}

#[test]
fn test_to_python_nest() {
    let rt = RuntimeType::Nest { origin: "Vec".to_string(), args: vec![name("i32")] };
    assert_eq!(rt.to_python(), "RuntimeType(origin='Vec', args=[i32])");
}

#[test]
fn test_to_python_function() {
    let rt = RuntimeType::Function { function: "get_atom".to_string(), params: vec![name("T"), RuntimeType::Absent] };
    assert_eq!(rt.to_python(), "get_atom(T, None)");
}

#[test]
fn test_to_python_nested() {
    let inner = RuntimeType::Nest { origin: "Vec".to_string(), args: vec![name("f64")] };
    let rt = RuntimeType::Nest { origin: "Tuple".to_string(), args: vec![inner, name("u32")] };
    assert_eq!(rt.to_python(), "RuntimeType(origin='Tuple', args=[RuntimeType(origin='Vec', args=[f64]), u32])");
}

#[test]
fn test_runtimetype_first() {
    let rt = RuntimeType::Nest { origin: "Vec".to_string(), args: vec![name("i32"), name("u8")] };
    let first = runtimetype_first(OptionRuntimeType(Some(rt)));
    assert_eq!(first.0.unwrap().to_python(), "i32");
    assert!(runtimetype_first(OptionRuntimeType(None)).0.is_none());
    let f = RuntimeType::Function { function: "f".to_string(), params: vec![name("u8")] };
    assert_eq!(runtimetype_first(OptionRuntimeType(Some(f))).0.unwrap().to_python(), "u8");
}

#[test]
fn test_version_label() {
    assert_eq!(version_label("0.0.0+development"), "latest");
    assert_eq!(version_label("0.5.0"), "0.5.0");
}

#[test]
fn test_make_proof_link() {
    assert_eq!(
        make_proof_link("latest", "rust/src/trans/sum/make_bounded_sum.tex"),
        "[Link to proof.](https://docs.opendp.org/en/latest/proofs/rust/src/trans/sum/make_bounded_sum.tex)"
    );
}

#[test]
fn test_indent() {
    assert_eq!(indent("a\nb".to_string()), "    a\n    b");
    assert_eq!(indent("".to_string()), "    ");
    assert_eq!(indent("x\n".to_string()), "    x\n    ");
}

#[test]
fn test_parse_docstring_args() {
    let args = vec![
        "* `lower` - Lower bound.".to_string(),
        "   continues here  ".to_string(),
        "* `upper` - Upper bound.".to_string(),
        "* `flag`".to_string(),
    ];
    let parsed = parse_docstring_args(args);
    assert_eq!(parsed, vec![
        ("lower".to_string(), vec!["Lower bound.".to_string(), "continues here".to_string()]),
        ("upper".to_string(), vec!["Upper bound.".to_string()]),
        ("flag".to_string(), vec!["".to_string()]),
    ]);
}

#[test]
fn test_parse_docstring_args_skips_preamble() {
    let args = vec!["preamble".to_string(), "* `x` - the x".to_string()];
    let parsed = parse_docstring_args(args);
    assert_eq!(parsed, vec![("x".to_string(), vec!["the x".to_string()])]);
    assert!(parse_docstring_args(vec!["no headers".to_string()]).is_empty());
}
