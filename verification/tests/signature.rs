use opendp::bootstrap::{Argument, DefaultGenerics, DerivedTypes, Docstring, Features, OptionRuntimeType, RuntimeType, Value};
use opendp::reconcile::{
    pat_name, reconcile_function, runtime_type_of, Bootstrap, BootstrapType, BootstrapTypes, FnArgModel,
    GenericParamModel, PatModel, SignatureModel,
};
use opendp::signature::{c_type_of, GenericArgModel, PathArgsModel, TypeModel};

fn plain(name: &str) -> TypeModel {
    TypeModel::Path { name: name.to_string(), args: PathArgsModel::Plain }
}

fn angle(name: &str, args: Vec<TypeModel>) -> TypeModel {
    TypeModel::Path {
        name: name.to_string(),
        args: PathArgsModel::Angle(args.into_iter().map(GenericArgModel::Type).collect()),
    }
}

fn generics(v: &[&str]) -> Vec<String> {
    v.iter().map(|s| s.to_string()).collect()
}

#[test]
fn test_c_type_scalars() {
    let g = generics(&[]);
    assert_eq!(c_type_of(&plain("i32"), &g).unwrap(), "int32_t");
    assert_eq!(c_type_of(&plain("u64"), &g).unwrap(), "uint64_t");
    assert_eq!(c_type_of(&plain("f64"), &g).unwrap(), "double");
    assert_eq!(c_type_of(&plain("usize"), &g).unwrap(), "size_t");
    assert_eq!(c_type_of(&plain("bool"), &g).unwrap(), "bool");
    assert_eq!(c_type_of(&plain("String"), &g).unwrap(), "AnyObject *");
    assert_eq!(c_type_of(&plain("Measurement"), &g).unwrap(), "AnyMeasurement *");
}

#[test]
fn test_c_type_compound() {
    let g = generics(&["T"]);
    assert_eq!(c_type_of(&angle("Option", vec![plain("T")]), &g).unwrap(), "AnyObject *");
    assert_eq!(c_type_of(&angle("Option", vec![plain("i32")]), &g).unwrap(), "void *");
    assert_eq!(
        c_type_of(&angle("Fallible", vec![plain("Transformation")]), &g).unwrap(),
        "FfiResult<AnyTransformation *>"
    );
    assert_eq!(c_type_of(&TypeModel::Reference(Box::new(plain("u8"))), &g).unwrap(), "uint8_t");
    assert_eq!(c_type_of(&TypeModel::Tuple(vec![plain("u8")]), &g).unwrap(), "AnyObject *");
    assert!(c_type_of(&plain("U"), &g).is_err());
    assert!(c_type_of(&angle("Fallible", vec![plain("i8"), plain("i8")]), &g).is_err());
    assert!(c_type_of(&TypeModel::Other, &g).is_err());
}

#[test]
fn test_runtime_type_of() {
    let rt = runtime_type_of(&angle("Vec", vec![plain("i32")])).unwrap();
    assert_eq!(rt.to_python(), "RuntimeType(origin='Vec', args=[i32])");
    let tuple = runtime_type_of(&TypeModel::Reference(Box::new(TypeModel::Tuple(vec![plain("u8"), plain("f64")])))).unwrap();
    assert_eq!(tuple.to_python(), "RuntimeType(origin='Tuple', args=[u8, f64])");
    assert!(runtime_type_of(&TypeModel::Path { name: "F".to_string(), args: PathArgsModel::Parenthesized }).is_err());
}

#[test]
fn test_pat_name() {
    let p = PatModel::Wrapped(Box::new(PatModel::Ident("lower".to_string())));
    assert_eq!(pat_name(&p).unwrap(), "lower");
    assert!(pat_name(&PatModel::Other).is_err());
}

fn argument(c_type: Option<&str>, rust_type: Option<RuntimeType>, is_type: bool) -> Argument {
    Argument {
        name: None,
        c_type: c_type.map(|s| s.to_string()),
        rust_type,
        hint: None,
        description: None,
        default: None,
        generics: vec![],
        is_type,
        do_not_convert: false,
        example: None,
    }
}

#[test]
fn test_python_type_hint() {
    let hierarchy = vec![
        ("integer".to_string(), generics(&["int32_t", "uint8_t"])),
        ("float".to_string(), generics(&["double"])),
    ];
    assert_eq!(argument(Some("int32_t"), None, false).python_type_hint(&hierarchy).unwrap(), "int");
    assert_eq!(argument(Some("FfiResult<double>"), None, false).python_type_hint(&hierarchy).unwrap(), "float");
    assert_eq!(
        argument(Some("FfiResult<AnyTransformation *>"), None, false).python_type_hint(&hierarchy).unwrap(),
        "Transformation"
    );
    assert_eq!(argument(Some("AnyObject *"), None, false).python_type_hint(&hierarchy).unwrap(), "Any");
    assert_eq!(argument(None, None, true).python_type_hint(&hierarchy).unwrap(), "RuntimeTypeDescriptor");
    let tuple = RuntimeType::Nest { origin: "Tuple".to_string(), args: vec![] };
    let tuple2 = RuntimeType::Nest {
        origin: "Tuple".to_string(),
        args: vec![RuntimeType::Name("i32".to_string()), RuntimeType::Name("f64".to_string())],
    };
    assert_eq!(argument(Some("AnyObject *"), Some(tuple), false).python_type_hint(&hierarchy).unwrap(), "Tuple[]");
    assert_eq!(argument(Some("AnyObject *"), Some(tuple2), false).python_type_hint(&hierarchy).unwrap(), "Tuple[Any, Any]");
    assert!(argument(Some("char *"), None, false).python_type_hint(&hierarchy).is_none());
    assert!(argument(None, None, false).python_type_hint(&hierarchy).is_none());
}

#[test]
fn test_argument_c_type() {
    assert_eq!(argument(None, None, true).c_type(), "char *");
    assert_eq!(argument(Some("FfiResult<void *>"), None, false).c_type_origin(), "FfiResult");
}

fn empty_boot() -> Bootstrap {
    Bootstrap {
        proof: None,
        features: Features(vec!["contrib".to_string()]),
        generics: BootstrapTypes(vec![]),
        arguments: BootstrapTypes(vec![]),
        derived_types: None,
        returns: None,
    }
}

fn boot_type(c_type: Option<&str>, default: Option<Value>) -> BootstrapType {
    BootstrapType {
        c_type: c_type.map(|s| s.to_string()),
        rust_type: OptionRuntimeType(None),
        hint: None,
        default,
        generics: DefaultGenerics(vec![]),
        do_not_convert: false,
        example: OptionRuntimeType(None),
    }
}

#[test]
fn test_reconcile_function() {
    let mut boot = empty_boot();
    boot.arguments = BootstrapTypes(vec![("bounds".to_string(), boot_type(Some("AnyObject *"), Some(Value::Integer(3))))]);
    let doc = Docstring {
        description: vec!["Makes a sum.".to_string(), "  ".to_string()],
        arguments: vec![("bounds".to_string(), vec!["the bounds".to_string()])],
        generics: vec![("T".to_string(), vec!["atom type".to_string()])],
        ret: vec![],
    };
    let sig = SignatureModel {
        inputs: vec![
            FnArgModel::Typed { pat: PatModel::Ident("bounds".to_string()), ty: angle("Vec", vec![plain("T")]) },
            FnArgModel::Typed { pat: PatModel::Ident("size".to_string()), ty: plain("usize") },
        ],
        generics: vec![GenericParamModel::Type("T".to_string())],
        output: Some(angle("Fallible", vec![plain("Transformation")])),
    };
    let f = reconcile_function(boot, doc, sig).unwrap();
    assert_eq!(f.description.as_deref(), Some("Makes a sum."));
    assert_eq!(f.features, vec!["contrib".to_string()]);
    assert_eq!(f.args.len(), 3);
    assert_eq!(f.args[0].name.as_deref(), Some("bounds"));
    assert_eq!(f.args[0].c_type.as_deref(), Some("AnyObject *"));
    assert_eq!(f.args[0].rust_type.as_ref().unwrap().to_python(), "RuntimeType(origin='Vec', args=[T])");
    assert_eq!(f.args[0].description.as_deref(), Some("the bounds"));
    assert!(matches!(f.args[0].default, Some(Value::Integer(3))));
    assert_eq!(f.args[1].c_type.as_deref(), Some("size_t"));
    assert!(f.args[1].description.is_none());
    assert!(f.args[2].is_type);
    assert_eq!(f.args[2].name.as_deref(), Some("T"));
    assert_eq!(f.args[2].description.as_deref(), Some("atom type"));
    assert_eq!(f.ret.c_type.as_deref(), Some("FfiResult<AnyTransformation *>"));
    assert!(f.derived_types.is_empty());
}

#[test]
fn test_reconcile_function_errors() {
    let doc = || Docstring { description: vec![], arguments: vec![], generics: vec![], ret: vec![] };
    let no_return = SignatureModel { inputs: vec![], generics: vec![], output: None };
    assert!(reconcile_function(empty_boot(), doc(), no_return).is_err());
    let receiver = SignatureModel { inputs: vec![FnArgModel::Receiver], generics: vec![], output: Some(plain("bool")) };
    assert!(reconcile_function(empty_boot(), doc(), receiver).is_err());
    let lifetime = SignatureModel { inputs: vec![], generics: vec![GenericParamModel::Lifetime], output: Some(plain("bool")) };
    assert!(reconcile_function(empty_boot(), doc(), lifetime).is_err());
    let mut boot = empty_boot();
    boot.derived_types = Some(DerivedTypes(vec![("D".to_string(), RuntimeType::Name("i32".to_string()))]));
    let derived = SignatureModel { inputs: vec![], generics: vec![], output: Some(plain("D")) };
    let f = reconcile_function(boot, doc(), derived).unwrap();
    assert_eq!(f.ret.c_type.as_deref(), Some("AnyObject *"));
    assert_eq!(f.derived_types.len(), 1);
}
