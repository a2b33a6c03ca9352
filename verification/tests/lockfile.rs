use hiko::compile::error::CompileError;
use hiko::compile::imports::{split_import_name, validate_lockfile, validate_package_name, ImportLockfile, LockedPackage};
use hiko::lockfile::{
    lock_verification_outcome, lockfile_name, module_url, normalize_blake3, parse_verify_args,
    validate_dependency_source, validate_module_lockfile, validate_module_lockfile_against_manifest,
    validate_remote_base_url, verify_locked_module, LockDependency, LockManifestDefaults,
    LockProjectManifest, LockRegistry, ModuleLockPackage, ModuleLockfile,
};

fn package(version: &str, base_url: &str, modules: &[(&str, &str)]) -> ModuleLockPackage {
    ModuleLockPackage {
        version: version.to_string(),
        base_url: base_url.to_string(),
        modules: modules.iter().map(|(m, h)| (m.to_string(), h.to_string())).collect(),
    }
}

fn lockfile(packages: Vec<(&str, ModuleLockPackage)>) -> ModuleLockfile {
    ModuleLockfile { schema_version: 1, packages: packages.into_iter().map(|(n, p)| (n.to_string(), p)).collect() }
}

fn manifest(deps: &[(&str, &str, &str)], registries: &[(&str, &str)]) -> LockProjectManifest {
    LockProjectManifest {
        defaults: LockManifestDefaults { lockfile: None },
        registries: registries.iter().map(|(n, u)| (n.to_string(), LockRegistry { url: u.to_string() })).collect(),
        dependencies: deps
            .iter()
            .map(|(n, v, r)| (n.to_string(), LockDependency { version: v.to_string(), registry: r.to_string() }))
            .collect(),
    }
}

fn codegen(e: CompileError) -> String {
    match e {
        CompileError::Codegen(m) => m,
        CompileError::Type(t) => panic!("unexpected type error: {}", t.message),
    }
}

#[test]
fn https_and_local_http_base_urls_are_accepted() {
    assert!(validate_remote_base_url("p", "https://example.com/p", "hiko.lock.toml").is_ok());
    assert!(validate_remote_base_url("p", "  http://localhost:8080/p ", "hiko.lock.toml").is_ok());
    assert!(validate_remote_base_url("p", "http://user@127.0.0.1/p", "hiko.lock.toml").is_ok());
    assert!(validate_remote_base_url("p", "http://[::1]:9000/p", "hiko.lock.toml").is_ok());
}

#[test]
fn remote_http_base_url_is_insecure() {
    let err = validate_remote_base_url("std", " http://example.com/std ", "hiko.lock.toml").unwrap_err();
    assert_eq!(
        err,
        "package 'std' in 'hiko.lock.toml' uses insecure base_url 'http://example.com/std'; use https:// or local http://127.0.0.1/localhost for development"
    );
    assert!(validate_remote_base_url("p", "http://localhost.evil.com/", "x").is_err());
    assert!(validate_remote_base_url("p", "ftp://localhost/", "x").is_err());
}

#[test]
fn lockfile_with_wrong_schema_is_refused() {
    let mut lf = lockfile(vec![]);
    lf.schema_version = 2;
    assert_eq!(
        validate_module_lockfile(&lf, "a/hiko.lock.toml").unwrap_err(),
        "unsupported module lockfile schema_version 2 in 'a/hiko.lock.toml'; expected 1"
    );
}

#[test]
fn lockfile_packages_need_version_and_module_hashes() {
    let lf = lockfile(vec![("a", package(" ", "https://r/a", &[]))]);
    assert_eq!(validate_module_lockfile(&lf, "l").unwrap_err(), "package 'a' in 'l' is missing version");
    let lf = lockfile(vec![("a", package("1.0", "https://r/a", &[("m", "  ")]))]);
    assert_eq!(validate_module_lockfile(&lf, "l").unwrap_err(), "package 'a' in 'l' has an empty module name or hash");
    let lf = lockfile(vec![("a", package("1.0", "https://r/a", &[("m", "blake3:ab")]))]);
    assert!(validate_module_lockfile(&lf, "l").is_ok());
}

#[test]
fn manifest_without_dependencies_accepts_any_lockfile() {
    let lf = lockfile(vec![("a", package("1.0", "https://r/a-v1.0", &[]))]);
    assert!(validate_module_lockfile_against_manifest(&lf, "l", &manifest(&[], &[]), "m").is_ok());
}

#[test]
fn locked_package_must_be_declared() {
    let lf = lockfile(vec![("a", package("1.0", "https://r/a-v1.0", &[])), ("b", package("1.0", "https://r/b-v1.0", &[]))]);
    let m = manifest(&[("a", "1.0", "main")], &[("main", "https://r/")]);
    assert_eq!(
        validate_module_lockfile_against_manifest(&lf, "l", &m, "m").unwrap_err(),
        "package 'b' in 'l' is not declared in project manifest 'm'"
    );
}

#[test]
fn declared_dependency_must_be_locked() {
    let lf = lockfile(vec![]);
    let m = manifest(&[("a", "1.0", "main")], &[("main", "https://r")]);
    assert_eq!(
        validate_module_lockfile_against_manifest(&lf, "l", &m, "m").unwrap_err(),
        "dependency 'a' declared in project manifest 'm' is missing from module lockfile 'l'"
    );
}

#[test]
fn dependency_source_follows_registry_name_and_version() {
    let m = manifest(&[("a", "1.0", "main")], &[("main", "https://r//")]);
    let good = package("1.0", "https://r/a-v1.0/", &[]);
    let dep = LockDependency { version: "1.0".to_string(), registry: "main".to_string() };
    assert!(validate_dependency_source("a", &dep, &good, &m, "m", "l").is_ok());
    let moved = package("1.0", "https://elsewhere/a-v1.0", &[]);
    assert_eq!(
        validate_dependency_source("a", &dep, &moved, &m, "m", "l").unwrap_err(),
        "dependency 'a' source mismatch: project manifest 'm' expects 'https://r/a-v1.0', but module lockfile 'l' resolves 'https://elsewhere/a-v1.0'"
    );
    let old = package("0.9", "https://r/a-v0.9", &[]);
    assert_eq!(
        validate_dependency_source("a", &dep, &old, &m, "m", "l").unwrap_err(),
        "dependency 'a' version mismatch: project manifest 'm' requires 1.0, but module lockfile 'l' resolves 0.9"
    );
    let lost = LockDependency { version: "1.0".to_string(), registry: "other".to_string() };
    assert_eq!(
        validate_dependency_source("a", &lost, &good, &m, "m", "l").unwrap_err(),
        "dependency 'a' references unknown registry 'other' in project manifest 'm'"
    );
}

#[test]
fn consistent_lockfile_and_manifest_pass() {
    let lf = lockfile(vec![("a", package("1.0", "https://r/a-v1.0", &[("m", "h")]))]);
    let m = manifest(&[("a", "1.0", "main")], &[("main", "https://r")]);
    assert!(validate_module_lockfile_against_manifest(&lf, "l", &m, "m").is_ok());
}

#[test]
fn lockfile_name_defaults() {
    assert_eq!(lockfile_name(&manifest(&[], &[])), "hiko.lock.toml");
    let mut m = manifest(&[], &[]);
    m.defaults.lockfile = Some("locks/mine.toml".to_string());
    assert_eq!(lockfile_name(&m), "locks/mine.toml");
}

#[test]
fn module_urls_and_hashes() {
    assert_eq!(module_url("https://r/a-v1.0//", "List"), "https://r/a-v1.0/modules/List.hml");
    assert_eq!(normalize_blake3("  blake3:ABCdef "), "abcdef");
    assert_eq!(normalize_blake3("ABC"), "abc");
}

#[test]
fn locked_module_hash_is_compared_normalized() {
    assert!(verify_locked_module("a", "M", "u", "blake3:AB", Ok("ab".to_string())).is_ok());
    assert_eq!(
        verify_locked_module("a", "M", "u", "blake3:AB", Ok("cd".to_string())).unwrap_err(),
        "BLAKE3 mismatch for a.M; expected ab, got cd; url u"
    );
    assert_eq!(
        verify_locked_module("a", "M", "u", "ab", Err("timeout".to_string())).unwrap_err(),
        "cannot fetch 'u': timeout"
    );
    assert_eq!(lock_verification_outcome(0), Ok(()));
    assert_eq!(lock_verification_outcome(3), Err("lock verification failed for 3 module(s)".to_string()));
}

#[test]
fn verify_args_take_the_last_config() {
    let usage = "Usage: hiko lock verify [--config <hiko.toml>]";
    let args = vec!["--config".to_string(), "a.toml".to_string(), "--config=b.toml".to_string()];
    assert_eq!(parse_verify_args(&args, usage), Ok(Some("b.toml".to_string())));
    assert_eq!(parse_verify_args(&[], usage), Ok(None));
    assert_eq!(parse_verify_args(&["--config".to_string()], usage), Err(usage.to_string()));
    assert_eq!(parse_verify_args(&["--verbose".to_string()], usage), Err(usage.to_string()));
}

#[test]
fn package_names_must_be_present_and_unreserved() {
    assert!(validate_package_name("Std", "ctx").is_ok());
    assert_eq!(codegen(validate_package_name(" ", "ctx").unwrap_err()), "ctx has an empty package name");
    assert_eq!(
        codegen(validate_package_name("__X", "ctx").unwrap_err()),
        "ctx uses reserved package name '__X'; names starting with '__' are reserved"
    );
}

#[test]
fn named_imports_split_into_package_and_module() {
    let (p, m) = split_import_name("Std.List").unwrap();
    assert_eq!((p.as_str(), m.as_str()), ("Std", "List"));
    let (p, _) = split_import_name("__Builtin.Process").unwrap();
    assert_eq!(p, "__Builtin");
    assert_eq!(
        codegen(split_import_name("List").unwrap_err()),
        "named import 'List' must use the shape Package.Module"
    );
    assert_eq!(
        codegen(split_import_name("A.B.C").unwrap_err()),
        "named import 'A.B.C' must use the shape Package.Module"
    );
    assert_eq!(
        codegen(split_import_name("__Mine.M").unwrap_err()),
        "named import '__Mine.M' uses reserved package name '__Mine'; names starting with '__' are reserved"
    );
}

#[test]
fn import_lockfile_checks_each_entry() {
    let locked = |v: &str, u: &str, ms: &[(&str, &str)]| LockedPackage {
        version: v.to_string(),
        base_url: u.to_string(),
        modules: ms.iter().map(|(m, h)| (m.to_string(), h.to_string())).collect(),
    };
    let lf = |pkgs: Vec<(&str, LockedPackage)>| ImportLockfile {
        schema_version: 1,
        packages: pkgs.into_iter().map(|(n, p)| (n.to_string(), p)).collect(),
    };
    assert!(validate_lockfile(&lf(vec![("Std", locked("1", "https://r", &[("List", "h")]))]), "p").is_ok());
    assert_eq!(
        codegen(validate_lockfile(&lf(vec![("__S", locked("1", "u", &[]))]), "p").unwrap_err()),
        "package entry in 'p' uses reserved package name '__S'; names starting with '__' are reserved"
    );
    assert_eq!(
        codegen(validate_lockfile(&lf(vec![("S", locked("1", " ", &[]))]), "p").unwrap_err()),
        "package 'S' in 'p' is missing base_url"
    );
    assert_eq!(
        codegen(validate_lockfile(&lf(vec![("S", locked("1", "u", &[("A.B", "h")]))]), "p").unwrap_err()),
        "module 'S.A.B' in 'p' must be a single identifier"
    );
    assert_eq!(
        codegen(validate_lockfile(&lf(vec![("S", locked("1", "u", &[("A", "")]))]), "p").unwrap_err()),
        "module 'S.A' in 'p' is missing a BLAKE3 hash"
    );
    let mut bad = lf(vec![]);
    bad.schema_version = 0;
    assert_eq!(
        codegen(validate_lockfile(&bad, "p").unwrap_err()),
        "unsupported module lockfile schema_version 0 in 'p'; expected 1"
    );
}
