use hiko::builtins::{
    builtin_meta, builtin_type_signature, builtin_type_signatures, builtins,
    capability_path_for_builtin, core_builtin_names, internal_builtin_module,
    internal_builtin_modules, is_internal_builtin_package, is_public_builtin,
    process_await_result_constructors, process_join_error_constructors, public_builtin_names,
    unrestricted_runtime_builtin_names, BuiltinSurface,
};

#[test]
fn every_enabled_builtin_has_a_type_signature() {
    let missing: Vec<_> = builtins()
        .into_iter()
        .filter(|meta| builtin_type_signature(meta.name).is_none())
        .map(|meta| meta.name)
        .collect();
    assert!(missing.is_empty(), "missing builtin signatures: {missing:?}");
}

#[test]
fn process_constructor_tags_match_declared_abi() {
    assert_eq!(process_await_result_constructors(), vec![("Ok", 0, 1), ("Err", 1, 1)]);
    assert_eq!(
        process_join_error_constructors(),
        vec![
            ("RuntimeError", 0, 1),
            ("Cancelled", 1, 0),
            ("FuelExhausted", 2, 0),
            ("AlreadyJoined", 3, 0),
            ("HeapObjectLimitExceeded", 4, 1),
        ]
    );
}

#[test]
fn builtin_meta_finds_by_name() {
    let m = builtin_meta("sqrt").unwrap();
    assert_eq!(m.name, "sqrt");
    assert_eq!(m.capability_path, Some("capabilities.math.sqrt"));
    assert!(m.in_core_default);
    assert_eq!(m.surface, BuiltinSurface::Public);
    assert!(builtin_meta("no_such_builtin").is_none());
}

#[test]
fn capability_paths() {
    assert_eq!(capability_path_for_builtin("print"), Some("capabilities.stdio.print"));
    assert_eq!(capability_path_for_builtin("no_such_builtin"), None);
}

#[test]
fn name_lists_follow_the_flags() {
    let all = builtins();
    let core = core_builtin_names();
    assert_eq!(core.len(), all.iter().filter(|m| m.in_core_default).count());
    assert!(core.contains(&"print"));
    assert!(!core.contains(&"exec"));
    let public = public_builtin_names();
    assert!(public.contains(&"println"));
    for name in unrestricted_runtime_builtin_names() {
        let m = builtin_meta(name).unwrap();
        assert!(m.in_core_default);
        assert_eq!(m.surface, BuiltinSurface::RuntimeOnly);
        assert!(m.capability_path.is_none());
    }
    assert!(is_public_builtin("println"));
    assert!(!is_public_builtin("no_such_builtin"));
}

#[test]
fn type_signatures() {
    let s = builtin_type_signature("print").unwrap();
    assert!(s.vars.is_empty());
    assert_eq!(s.ty, "string -> unit");
    let p = builtin_type_signature("panic").unwrap();
    assert_eq!(p.vars, vec!["a"]);
    assert_eq!(p.ty, "string -> 'a");
    assert!(builtin_type_signature("no_such_builtin").is_none());
    assert_eq!(builtin_type_signatures().len(), builtins().len());
}

#[test]
fn internal_modules() {
    assert!(is_internal_builtin_package("__Builtin"));
    assert!(!is_internal_builtin_package("Builtin"));
    let mods = internal_builtin_modules();
    assert_eq!(mods.len(), 13);
    let path = internal_builtin_module("Path").unwrap();
    assert_eq!(path.import_name, "__Builtin.Path");
    assert_eq!(path.feature_name, "builtin-path");
    assert!(path.source.contains("val join_raw = path_join"));
    assert!(internal_builtin_module("Nope").is_none());
}
