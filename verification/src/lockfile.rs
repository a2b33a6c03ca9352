//! Checking a module lockfile: each package's source must be secure and
//! complete, and agree with the dependencies the project manifest declares.
use vstd::prelude::*;
use crate::syntax::format::{push_trimmed, trim};
use crate::syntax::pretty::{digits, push_digits};
use crate::text::{
    ascii_lower, char_index_from, char_rindex, chars_of, find_char, has_prefix, push_str,
    rfind_char, starts_with, str_eq, string_between, string_eq, to_ascii_lowercase, to_string,
    trim_end_char, trim_end_matches_char, trim_prefixes, trim_start_matches, without_prefix,
};

verus! {

/// A package pinned by the lockfile.
#[derive(Debug, Clone, PartialEq, Eq)]
pub struct ModuleLockPackage {
    pub version: String,
    pub base_url: String,
    /// Each module's name with its expected hash, in the order of the names.
    pub modules: Vec<(String, String)>,
}

/// A module lockfile: its packages in the order of their names.
#[derive(Debug, Clone, PartialEq, Eq)]
pub struct ModuleLockfile {
    pub schema_version: u32,
    pub packages: Vec<(String, ModuleLockPackage)>,
}

/// A registry the project manifest names.
#[derive(Debug, Clone, PartialEq, Eq)]
pub struct LockRegistry {
    pub url: String,
}

/// A dependency the project manifest declares.
#[derive(Debug, Clone, PartialEq, Eq)]
pub struct LockDependency {
    pub version: String,
    pub registry: String,
}

/// The defaults section of the project manifest.
#[derive(Debug, Clone, PartialEq, Eq)]
pub struct LockManifestDefaults {
    pub lockfile: Option<String>,
}

/// What lock checking reads of the project manifest; registries and
/// dependencies in the order of their names.
#[derive(Debug, Clone, PartialEq, Eq)]
pub struct LockProjectManifest {
    pub defaults: LockManifestDefaults,
    pub registries: Vec<(String, LockRegistry)>,
    pub dependencies: Vec<(String, LockDependency)>,
}

// ── Base URLs ────────────────────────────────────────────────────────────

/// The part of `s` before the first `c`, or all of it.
pub open spec fn before_first(s: Seq<char>, c: char) -> Seq<char> {
    match char_index_from(s, c, 0) {
        Some(i) => s.take(i),
        None => s,
    }
}

/// The host that an `http://` URL names, its scheme removed: the authority
/// (up to the first `/`), after the last `@`, then inside brackets where it
/// opens with one that closes, else up to the first `:`.
pub open spec fn url_host(rest: Seq<char>) -> Seq<char> {
    let authority = before_first(rest, '/');
    let host = match char_rindex(authority, '@', authority.len() as int) {
        Some(i) => authority.skip(i + 1),
        None => authority,
    };
    if host.len() > 0 && host[0] == '[' && char_index_from(host.skip(1), ']', 0) is Some {
        host.skip(1).take(char_index_from(host.skip(1), ']', 0)->0)
    } else {
        before_first(host, ':')
    }
}

/// A host that plain `http` may reach.
pub open spec fn is_local_host(h: Seq<char>) -> bool {
    h == "localhost"@ || h == "127.0.0.1"@ || h == "::1"@
}

/// A base URL that is secure: `https`, or `http` to this machine.
pub open spec fn base_url_ok(base: Seq<char>) -> bool {
    let b = trim(base);
    has_prefix(b, "https://"@) || (has_prefix(b, "http://"@) && is_local_host(url_host(b.skip(7))))
}

pub open spec fn insecure_message(name: Seq<char>, path: Seq<char>, base: Seq<char>) -> Seq<char> {
    "package '"@ + name + "' in '"@ + path + "' uses insecure base_url '"@ + trim(base)
        + "'; use https:// or local http://127.0.0.1/localhost for development"@
}

/// `s` without white space at either end.
fn trimmed(s: &String) -> (r: String)
    ensures
        r@ == trim(s@),
{
    let mut out = String::new();
    push_trimmed(&mut out, s);
    out
}

/// The host named by an `http://` URL without its scheme.
fn host_of(rest: &String) -> (r: String)
    ensures
        r@ == url_host(rest@),
{
    let cs = chars_of(rest.as_str());
    let auth_end = match find_char(&cs, '/', 0) {
        Some(i) => i,
        None => cs.len(),
    };
    let auth = string_between(&cs, 0, auth_end);
    let ghost authority = before_first(rest@, '/');
    assert(auth@ == authority) by {
        if char_index_from(rest@, '/', 0) is None {
            assert(cs@.subrange(0, cs@.len() as int) =~= cs@);
        }
    }
    let acs = chars_of(auth.as_str());
    let host_start = match rfind_char(&acs, '@') {
        Some(i) => i + 1,
        None => 0,
    };
    let host = string_between(&acs, host_start, acs.len());
    let ghost h = match char_rindex(authority, '@', authority.len() as int) {
        Some(i) => authority.skip(i + 1),
        None => authority,
    };
    assert(host@ == h) by {
        assert(acs@.subrange(0, acs@.len() as int) =~= acs@);
    }
    let hcs = chars_of(host.as_str());
    if hcs.len() > 0 && hcs[0] == '[' {
        let inner = string_between(&hcs, 1, hcs.len());
        let ics = chars_of(inner.as_str());
        assert(ics@ =~= h.skip(1));
        match find_char(&ics, ']', 0) {
            Some(j) => {
                return string_between(&ics, 0, j);
            },
            None => {},
        }
    }
    let colon = match find_char(&hcs, ':', 0) {
        Some(i) => i,
        None => hcs.len(),
    };
    proof {
        if char_index_from(h, ':', 0) is None {
            assert(hcs@.subrange(0, hcs@.len() as int) =~= hcs@);
        }
    }
    string_between(&hcs, 0, colon)
}

/// Accepts a secure base URL; any other is an error naming the package and
/// the lockfile.
pub fn validate_remote_base_url(package_name: &str, base_url: &str, path: &str) -> (r: Result<(), String>)
    ensures
        base_url_ok(base_url@) ==> r is Ok,
        !base_url_ok(base_url@) ==> (r matches Err(m) && m@ == insecure_message(package_name@, path@, base_url@)),
{
    let b = trimmed(&to_string(base_url));
    if starts_with(b.as_str(), "https://") {
        return Ok(());
    }
    if starts_with(b.as_str(), "http://") {
        let bcs = chars_of(b.as_str());
        proof {
            reveal_strlit("http://");
        }
        let rest = string_between(&bcs, 7, bcs.len());
        assert(rest@ =~= b@.skip(7));
        let host = host_of(&rest);
        if str_eq(host.as_str(), "localhost") || str_eq(host.as_str(), "127.0.0.1") || str_eq(host.as_str(), "::1") {
            return Ok(());
        }
    }
    let mut m = to_string("package '");
    push_str(&mut m, package_name);
    push_str(&mut m, "' in '");
    push_str(&mut m, path);
    push_str(&mut m, "' uses insecure base_url '");
    push_str(&mut m, b.as_str());
    push_str(&mut m, "'; use https:// or local http://127.0.0.1/localhost for development");
    Err(m)
}

// ── The lockfile alone ───────────────────────────────────────────────────

pub open spec fn schema_message(v: u32, path: Seq<char>) -> Seq<char> {
    "unsupported module lockfile schema_version "@ + digits(v as nat) + " in '"@ + path + "'; expected 1"@
}

/// What is wrong with one package entry, if anything.
pub open spec fn package_error(name: Seq<char>, pkg: ModuleLockPackage, path: Seq<char>) -> Option<Seq<char>> {
    if !base_url_ok(pkg.base_url@) {
        Some(insecure_message(name, path, pkg.base_url@))
    } else if trim(pkg.version@).len() == 0 {
        Some("package '"@ + name + "' in '"@ + path + "' is missing version"@)
    } else if exists|j: int|
        0 <= j < pkg.modules@.len() && (trim((#[trigger] pkg.modules@[j]).0@).len() == 0 || trim(pkg.modules@[j].1@).len() == 0) {
        Some("package '"@ + name + "' in '"@ + path + "' has an empty module name or hash"@)
    } else {
        None
    }
}

/// The first error among the first `n` packages.
pub open spec fn packages_error(pkgs: Seq<(String, ModuleLockPackage)>, n: int, path: Seq<char>) -> Option<Seq<char>>
    decreases n,
{
    if n <= 0 || n > pkgs.len() {
        None
    } else {
        match packages_error(pkgs, n - 1, path) {
            Some(e) => Some(e),
            None => package_error(pkgs[n - 1].0@, pkgs[n - 1].1, path),
        }
    }
}

/// What is wrong with a lockfile, if anything: its schema, then its
/// packages in order.
pub open spec fn lockfile_error(lf: ModuleLockfile, path: Seq<char>) -> Option<Seq<char>> {
    if lf.schema_version != 1 {
        Some(schema_message(lf.schema_version, path))
    } else {
        packages_error(lf.packages@, lf.packages@.len() as int, path)
    }
}

/// Whether some module of `pkg` has an empty name or hash.
fn has_empty_module(pkg: &ModuleLockPackage) -> (r: bool)
    ensures
        r == exists|j: int|
            0 <= j < pkg.modules@.len() && (trim((#[trigger] pkg.modules@[j]).0@).len() == 0 || trim(pkg.modules@[j].1@).len() == 0),
{
    let mut i: usize = 0;
    while i < pkg.modules.len()
        invariant
            i <= pkg.modules@.len(),
            forall|j: int| 0 <= j < i ==> !(trim((#[trigger] pkg.modules@[j]).0@).len() == 0 || trim(pkg.modules@[j].1@).len() == 0),
        decreases pkg.modules@.len() - i,
    {
        let n = trimmed(&pkg.modules[i].0);
        let h = trimmed(&pkg.modules[i].1);
        if chars_of(n.as_str()).len() == 0 || chars_of(h.as_str()).len() == 0 {
            assert(trim(pkg.modules@[i as int].0@).len() == 0 || trim(pkg.modules@[i as int].1@).len() == 0);
            return true;
        }
        i = i + 1;
    }
    false
}

/// Checks the schema, and that each package has a secure base URL, a
/// version, and modules with names and hashes; the first failure is the
/// error.
pub fn validate_module_lockfile(lockfile: &ModuleLockfile, path: &str) -> (r: Result<(), String>)
    ensures
        match lockfile_error(*lockfile, path@) {
            None => r is Ok,
            Some(m) => r matches Err(e) && e@ == m,
        },
{
    if lockfile.schema_version != 1 {
        let mut m = to_string("unsupported module lockfile schema_version ");
        push_digits(&mut m, lockfile.schema_version as u64);
        push_str(&mut m, " in '");
        push_str(&mut m, path);
        push_str(&mut m, "'; expected 1");
        return Err(m);
    }
    let mut i: usize = 0;
    while i < lockfile.packages.len()
        invariant
            i <= lockfile.packages@.len(),
            lockfile.schema_version == 1,
            packages_error(lockfile.packages@, i as int, path@) is None,
        decreases lockfile.packages@.len() - i,
    {
        let name = &lockfile.packages[i].0;
        let pkg = &lockfile.packages[i].1;
        match validate_remote_base_url(name.as_str(), pkg.base_url.as_str(), path) {
            Ok(()) => {},
            Err(m) => {
                proof {
                    lemma_packages_error_stays(lockfile.packages@, i as int + 1, path@);
                }
                return Err(m);
            },
        }
        let v = trimmed(&pkg.version);
        if chars_of(v.as_str()).len() == 0 {
            let mut m = to_string("package '");
            push_str(&mut m, name.as_str());
            push_str(&mut m, "' in '");
            push_str(&mut m, path);
            push_str(&mut m, "' is missing version");
            proof {
                lemma_packages_error_stays(lockfile.packages@, i as int + 1, path@);
            }
            return Err(m);
        }
        if has_empty_module(pkg) {
            let mut m = to_string("package '");
            push_str(&mut m, name.as_str());
            push_str(&mut m, "' in '");
            push_str(&mut m, path);
            push_str(&mut m, "' has an empty module name or hash");
            proof {
                lemma_packages_error_stays(lockfile.packages@, i as int + 1, path@);
            }
            return Err(m);
        }
        i = i + 1;
    }
    Ok(())
}

/// An error among the first `n` packages is the error of them all.
pub proof fn lemma_packages_error_stays(pkgs: Seq<(String, ModuleLockPackage)>, n: int, path: Seq<char>)
    requires
        0 <= n <= pkgs.len(),
        packages_error(pkgs, n, path) is Some,
    ensures
        packages_error(pkgs, pkgs.len() as int, path) == packages_error(pkgs, n, path),
    decreases pkgs.len() - n,
{
    if n < pkgs.len() {
        lemma_packages_error_stays(pkgs, n + 1, path);
    }
}

// ── The lockfile against the project manifest ────────────────────────────

/// The position of the first entry at or after `from` keyed `k`.
pub open spec fn key_index<V>(e: Seq<(String, V)>, k: Seq<char>, from: int) -> Option<int>
    decreases e.len() - from,
{
    if from < 0 || from >= e.len() {
        None
    } else if e[from].0@ == k {
        Some(from)
    } else {
        key_index(e, k, from + 1)
    }
}

pub proof fn lemma_key_index_found<V>(e: Seq<(String, V)>, k: Seq<char>, from: int, i: int)
    requires
        0 <= from <= i < e.len(),
        e[i].0@ == k,
        forall|j: int| from <= j < i ==> #[trigger] e[j].0@ != k,
    ensures
        key_index(e, k, from) == Some(i),
    decreases i - from,
{
    if from < i {
        lemma_key_index_found(e, k, from + 1, i);
    }
}

pub proof fn lemma_key_index_absent<V>(e: Seq<(String, V)>, k: Seq<char>, from: int)
    requires
        0 <= from,
        forall|j: int| from <= j < e.len() ==> #[trigger] e[j].0@ != k,
    ensures
        key_index(e, k, from) is None,
    decreases e.len() - from,
{
    if from < e.len() {
        lemma_key_index_absent(e, k, from + 1);
    }
}

/// The position of the first entry keyed `k`.
fn lookup_key<V>(e: &Vec<(String, V)>, k: &str) -> (r: Option<usize>)
    ensures
        match (r, key_index(e@, k@, 0)) {
            (Some(a), Some(b)) => a == b,
            (None, None) => true,
            _ => false,
        },
        r matches Some(a) ==> a < e@.len(),
{
    let r = crate::types::assoc::find_key(e, k);
    proof {
        match r {
            Some(i) => lemma_key_index_found(e@, k@, 0, i as int),
            None => lemma_key_index_absent(e@, k@, 0),
        }
    }
    r
}

/// The base URL a dependency must resolve to: its registry's URL, then the
/// package name and version.
pub open spec fn expected_base_url(registry_url: Seq<char>, name: Seq<char>, version: Seq<char>) -> Seq<char> {
    trim_end_char(registry_url, '/') + "/"@ + name + "-v"@ + version
}

/// What is wrong with the source of one dependency, if anything.
pub open spec fn dependency_source_error(
    name: Seq<char>,
    dep: LockDependency,
    pkg: ModuleLockPackage,
    registries: Seq<(String, LockRegistry)>,
    manifest_path: Seq<char>,
    lockfile_path: Seq<char>,
) -> Option<Seq<char>> {
    if pkg.version@ != dep.version@ {
        Some(
            "dependency '"@ + name + "' version mismatch: project manifest '"@ + manifest_path + "' requires "@
                + dep.version@ + ", but module lockfile '"@ + lockfile_path + "' resolves "@ + pkg.version@,
        )
    } else {
        match key_index(registries, dep.registry@, 0) {
            None => Some(
                "dependency '"@ + name + "' references unknown registry '"@ + dep.registry@
                    + "' in project manifest '"@ + manifest_path + "'"@,
            ),
            Some(r) => {
                let expected = expected_base_url(registries[r].1.url@, name, dep.version@);
                if trim_end_char(pkg.base_url@, '/') != expected {
                    Some(
                        "dependency '"@ + name + "' source mismatch: project manifest '"@ + manifest_path
                            + "' expects '"@ + expected + "', but module lockfile '"@ + lockfile_path
                            + "' resolves '"@ + pkg.base_url@ + "'"@,
                    )
                } else {
                    None
                }
            },
        }
    }
}

/// The name of the first of the first `n` packages that no dependency
/// declares.
pub open spec fn undeclared(pkgs: Seq<(String, ModuleLockPackage)>, deps: Seq<(String, LockDependency)>, n: int) -> Option<Seq<char>>
    decreases n,
{
    if n <= 0 || n > pkgs.len() {
        None
    } else {
        match undeclared(pkgs, deps, n - 1) {
            Some(x) => Some(x),
            None => if key_index(deps, pkgs[n - 1].0@, 0) is None {
                Some(pkgs[n - 1].0@)
            } else {
                None
            },
        }
    }
}

/// The first error among the first `n` dependencies: one the lockfile
/// lacks, or one whose source disagrees.
pub open spec fn dependencies_error(
    pkgs: Seq<(String, ModuleLockPackage)>,
    m: LockProjectManifest,
    n: int,
    manifest_path: Seq<char>,
    lockfile_path: Seq<char>,
) -> Option<Seq<char>>
    decreases n,
{
    if n <= 0 || n > m.dependencies@.len() {
        None
    } else {
        match dependencies_error(pkgs, m, n - 1, manifest_path, lockfile_path) {
            Some(e) => Some(e),
            None => {
                let (name, dep) = m.dependencies@[n - 1];
                match key_index(pkgs, name@, 0) {
                    None => Some(
                        "dependency '"@ + name@ + "' declared in project manifest '"@ + manifest_path
                            + "' is missing from module lockfile '"@ + lockfile_path + "'"@,
                    ),
                    Some(i) => dependency_source_error(name@, dep, pkgs[i].1, m.registries@, manifest_path, lockfile_path),
                }
            },
        }
    }
}

/// What is wrong with the lockfile against the manifest, if anything: with
/// no dependencies declared, nothing; else a package the manifest does not
/// declare, then the dependencies in order.
pub open spec fn manifest_error(
    lf: ModuleLockfile,
    lockfile_path: Seq<char>,
    m: LockProjectManifest,
    manifest_path: Seq<char>,
) -> Option<Seq<char>> {
    if m.dependencies@.len() == 0 {
        None
    } else {
        match undeclared(lf.packages@, m.dependencies@, lf.packages@.len() as int) {
            Some(x) => Some(
                "package '"@ + x + "' in '"@ + lockfile_path + "' is not declared in project manifest '"@
                    + manifest_path + "'"@,
            ),
            None => dependencies_error(lf.packages@, m, m.dependencies@.len() as int, manifest_path, lockfile_path),
        }
    }
}

/// Checks that a dependency's locked package has its version and comes
/// from its registry.
pub fn validate_dependency_source(
    package_name: &str,
    dependency: &LockDependency,
    package: &ModuleLockPackage,
    manifest: &LockProjectManifest,
    manifest_path: &str,
    lockfile_path: &str,
) -> (r: Result<(), String>)
    ensures
        match dependency_source_error(package_name@, *dependency, *package, manifest.registries@, manifest_path@, lockfile_path@) {
            None => r is Ok,
            Some(m) => r matches Err(e) && e@ == m,
        },
{
    if !string_eq(&package.version, &dependency.version) {
        let mut m = to_string("dependency '");
        push_str(&mut m, package_name);
        push_str(&mut m, "' version mismatch: project manifest '");
        push_str(&mut m, manifest_path);
        push_str(&mut m, "' requires ");
        push_str(&mut m, dependency.version.as_str());
        push_str(&mut m, ", but module lockfile '");
        push_str(&mut m, lockfile_path);
        push_str(&mut m, "' resolves ");
        push_str(&mut m, package.version.as_str());
        return Err(m);
    }
    let reg = match lookup_key(&manifest.registries, dependency.registry.as_str()) {
        Some(i) => i,
        None => {
            let mut m = to_string("dependency '");
            push_str(&mut m, package_name);
            push_str(&mut m, "' references unknown registry '");
            push_str(&mut m, dependency.registry.as_str());
            push_str(&mut m, "' in project manifest '");
            push_str(&mut m, manifest_path);
            push_str(&mut m, "'");
            return Err(m);
        },
    };
    let mut expected = trim_end_matches_char(manifest.registries[reg].1.url.as_str(), '/');
    push_str(&mut expected, "/");
    push_str(&mut expected, package_name);
    push_str(&mut expected, "-v");
    push_str(&mut expected, dependency.version.as_str());
    let actual = trim_end_matches_char(package.base_url.as_str(), '/');
    if !string_eq(&actual, &expected) {
        let mut m = to_string("dependency '");
        push_str(&mut m, package_name);
        push_str(&mut m, "' source mismatch: project manifest '");
        push_str(&mut m, manifest_path);
        push_str(&mut m, "' expects '");
        push_str(&mut m, expected.as_str());
        push_str(&mut m, "', but module lockfile '");
        push_str(&mut m, lockfile_path);
        push_str(&mut m, "' resolves '");
        push_str(&mut m, package.base_url.as_str());
        push_str(&mut m, "'");
        return Err(m);
    }
    Ok(())
}

/// Checks the lockfile against the dependencies the manifest declares:
/// every locked package declared, every declared dependency locked, from
/// its registry, at its version. A manifest that declares none accepts any
/// lockfile.
pub fn validate_module_lockfile_against_manifest(
    lockfile: &ModuleLockfile,
    lockfile_path: &str,
    manifest: &LockProjectManifest,
    manifest_path: &str,
) -> (r: Result<(), String>)
    ensures
        match manifest_error(*lockfile, lockfile_path@, *manifest, manifest_path@) {
            None => r is Ok,
            Some(m) => r matches Err(e) && e@ == m,
        },
{
    if manifest.dependencies.len() == 0 {
        return Ok(());
    }
    let ghost pkgs = lockfile.packages@;
    let ghost deps = manifest.dependencies@;
    let mut i: usize = 0;
    while i < lockfile.packages.len()
        invariant
            i <= pkgs.len(),
            pkgs == lockfile.packages@,
            deps == manifest.dependencies@,
            deps.len() > 0,
            undeclared(pkgs, deps, i as int) is None,
        decreases pkgs.len() - i,
    {
        let name = &lockfile.packages[i].0;
        if lookup_key(&manifest.dependencies, name.as_str()).is_none() {
            let mut m = to_string("package '");
            push_str(&mut m, name.as_str());
            push_str(&mut m, "' in '");
            push_str(&mut m, lockfile_path);
            push_str(&mut m, "' is not declared in project manifest '");
            push_str(&mut m, manifest_path);
            push_str(&mut m, "'");
            proof {
                lemma_undeclared_stays(pkgs, deps, i + 1);
            }
            return Err(m);
        }
        i = i + 1;
    }
    let mut d: usize = 0;
    while d < manifest.dependencies.len()
        invariant
            d <= deps.len(),
            pkgs == lockfile.packages@,
            deps == manifest.dependencies@,
            deps.len() > 0,
            undeclared(pkgs, deps, pkgs.len() as int) is None,
            dependencies_error(pkgs, *manifest, d as int, manifest_path@, lockfile_path@) is None,
        decreases deps.len() - d,
    {
        let name = &manifest.dependencies[d].0;
        let dep = &manifest.dependencies[d].1;
        let p = match lookup_key(&lockfile.packages, name.as_str()) {
            Some(p) => p,
            None => {
                let mut m = to_string("dependency '");
                push_str(&mut m, name.as_str());
                push_str(&mut m, "' declared in project manifest '");
                push_str(&mut m, manifest_path);
                push_str(&mut m, "' is missing from module lockfile '");
                push_str(&mut m, lockfile_path);
                push_str(&mut m, "'");
                proof {
                    lemma_dependencies_error_stays(pkgs, *manifest, d + 1, manifest_path@, lockfile_path@);
                }
                return Err(m);
            },
        };
        match validate_dependency_source(name.as_str(), dep, &lockfile.packages[p].1, manifest, manifest_path, lockfile_path) {
            Ok(()) => {},
            Err(m) => {
                proof {
                    lemma_dependencies_error_stays(pkgs, *manifest, d + 1, manifest_path@, lockfile_path@);
                }
                return Err(m);
            },
        }
        d = d + 1;
    }
    Ok(())
}

pub proof fn lemma_undeclared_stays(
    pkgs: Seq<(String, ModuleLockPackage)>,
    deps: Seq<(String, LockDependency)>,
    n: int,
)
    requires
        0 <= n <= pkgs.len(),
        undeclared(pkgs, deps, n) is Some,
    ensures
        undeclared(pkgs, deps, pkgs.len() as int) == undeclared(pkgs, deps, n),
    decreases pkgs.len() - n,
{
    if n < pkgs.len() {
        lemma_undeclared_stays(pkgs, deps, n + 1);
    }
}

pub proof fn lemma_dependencies_error_stays(
    pkgs: Seq<(String, ModuleLockPackage)>,
    m: LockProjectManifest,
    n: int,
    manifest_path: Seq<char>,
    lockfile_path: Seq<char>,
)
    requires
        0 <= n <= m.dependencies@.len(),
        dependencies_error(pkgs, m, n, manifest_path, lockfile_path) is Some,
    ensures
        dependencies_error(pkgs, m, m.dependencies@.len() as int, manifest_path, lockfile_path)
            == dependencies_error(pkgs, m, n, manifest_path, lockfile_path),
    decreases m.dependencies@.len() - n,
{
    if n < m.dependencies@.len() {
        lemma_dependencies_error_stays(pkgs, m, n + 1, manifest_path, lockfile_path);
    }
}

// ── Verifying locked modules ─────────────────────────────────────────────

/// The lockfile the manifest names, by default `hiko.lock.toml`.
pub fn lockfile_name(manifest: &LockProjectManifest) -> (r: String)
    ensures
        r@ == match manifest.defaults.lockfile {
            Some(n) => n@,
            None => "hiko.lock.toml"@,
        },
{
    match &manifest.defaults.lockfile {
        Some(n) => crate::text::clone_string(n),
        None => to_string("hiko.lock.toml"),
    }
}

/// Where a locked module is fetched from.
pub open spec fn module_url_of(base_url: Seq<char>, module_name: Seq<char>) -> Seq<char> {
    trim_end_char(base_url, '/') + "/modules/"@ + module_name + ".hml"@
}

/// Where a locked module is fetched from: under `modules/` of its
/// package's base URL.
pub fn module_url(base_url: &str, module_name: &str) -> (r: String)
    ensures
        r@ == module_url_of(base_url@, module_name@),
{
    let mut u = trim_end_matches_char(base_url, '/');
    push_str(&mut u, "/modules/");
    push_str(&mut u, module_name);
    push_str(&mut u, ".hml");
    u
}

/// A hash as written in a lockfile, made comparable: trimmed, without a
/// `blake3:` prefix, in lower case.
pub open spec fn normalized_hash(hash: Seq<char>) -> Seq<char> {
    ascii_lower(
        match without_prefix(trim(hash), "blake3:"@) {
            Some(h) => h,
            None => trim(hash),
        },
    )
}

/// A hash as written in a lockfile, made comparable.
pub fn normalize_blake3(hash: &str) -> (r: String)
    ensures
        r@ == normalized_hash(hash@),
{
    let t = trimmed(&to_string(hash));
    let h = match crate::text::strip_prefix(t.as_str(), "blake3:") {
        Some(rest) => rest,
        None => t,
    };
    to_ascii_lowercase(h.as_str())
}

/// Checks a fetched module's hash against the locked one; `fetched` is the
/// hash of what was fetched, or why fetching failed.
pub fn verify_locked_module(
    package_name: &str,
    module_name: &str,
    module_url: &str,
    expected_hash: &str,
    fetched: Result<String, String>,
) -> (r: Result<(), String>)
    ensures
        match fetched {
            Err(e) => r matches Err(m) && m@ == "cannot fetch '"@ + module_url@ + "': "@ + e@,
            Ok(actual) => if actual@ == normalized_hash(expected_hash@) {
                r is Ok
            } else {
                r matches Err(m) && m@ == "BLAKE3 mismatch for "@ + package_name@ + "."@ + module_name@
                    + "; expected "@ + normalized_hash(expected_hash@) + ", got "@ + actual@ + "; url "@
                    + module_url@
            },
        },
{
    let actual = match fetched {
        Ok(a) => a,
        Err(e) => {
            let mut m = to_string("cannot fetch '");
            push_str(&mut m, module_url);
            push_str(&mut m, "': ");
            push_str(&mut m, e.as_str());
            return Err(m);
        },
    };
    let expected = normalize_blake3(expected_hash);
    if string_eq(&actual, &expected) {
        Ok(())
    } else {
        let mut m = to_string("BLAKE3 mismatch for ");
        push_str(&mut m, package_name);
        push_str(&mut m, ".");
        push_str(&mut m, module_name);
        push_str(&mut m, "; expected ");
        push_str(&mut m, expected.as_str());
        push_str(&mut m, ", got ");
        push_str(&mut m, actual.as_str());
        push_str(&mut m, "; url ");
        push_str(&mut m, module_url);
        Err(m)
    }
}

/// The outcome of verifying every locked module, given how many failed.
pub fn lock_verification_outcome(failures: usize) -> (r: Result<(), String>)
    ensures
        failures == 0 ==> r is Ok,
        failures > 0 ==> (r matches Err(m) && m@ == "lock verification failed for "@ + digits(failures as nat) + " module(s)"@),
{
    if failures == 0 {
        Ok(())
    } else {
        let mut m = to_string("lock verification failed for ");
        push_digits(&mut m, failures as u64);
        push_str(&mut m, " module(s)");
        Err(m)
    }
}

/// The manifest path the arguments of `lock verify` give from `i` on,
/// starting from `cur`; `None` where they do not parse.
pub open spec fn verify_args_from(args: Seq<Seq<char>>, i: int, cur: Option<Seq<char>>) -> Option<Option<Seq<char>>>
    decreases args.len() - i,
{
    if i < 0 || i >= args.len() {
        Some(cur)
    } else if args[i] == "--config"@ {
        if i + 1 < args.len() {
            verify_args_from(args, i + 2, Some(args[i + 1]))
        } else {
            None
        }
    } else if has_prefix(args[i], "--config="@) {
        verify_args_from(args, i + 1, Some(trim_prefixes(args[i], "--config="@)))
    } else {
        None
    }
}

/// The arguments as values.
pub open spec fn args_view(args: Seq<String>) -> Seq<Seq<char>> {
    args.map_values(|a: String| a@)
}

/// Parses the arguments of `lock verify`: `--config <path>` or
/// `--config=<path>`, the last one winning. Anything else is the usage
/// text as the error.
pub fn parse_verify_args(args: &[String], usage: &str) -> (r: Result<Option<String>, String>)
    ensures
        match verify_args_from(args_view(args@), 0, None) {
            Some(Some(p)) => r matches Ok(Some(q)) && q@ == p,
            Some(None) => r matches Ok(None),
            None => r matches Err(u) && u@ == usage@,
        },
{
    let ghost av = args_view(args@);
    let mut config_path: Option<String> = None;
    let mut i: usize = 0;
    while i < args.len()
        invariant
            av == args_view(args@),
            av.len() == args@.len(),
            i <= args@.len() + 1,
            verify_args_from(av, 0, None) == verify_args_from(av, i as int, match config_path {
                Some(p) => Some(p@),
                None => None,
            }),
        decreases args@.len() + 1 - i,
    {
        assert(av[i as int] == args@[i as int]@);
        if str_eq(args[i].as_str(), "--config") {
            if i + 1 < args.len() {
                assert(av[i + 1] == args@[i + 1]@);
                config_path = Some(crate::text::clone_string(&args[i + 1]));
                i = i + 2;
            } else {
                return Err(to_string(usage));
            }
        } else if starts_with(args[i].as_str(), "--config=") {
            config_path = Some(trim_start_matches(args[i].as_str(), "--config="));
            i = i + 1;
        } else {
            return Err(to_string(usage));
        }
    }
    Ok(config_path)
}

} // verus!
