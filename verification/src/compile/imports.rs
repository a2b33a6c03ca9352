//! Named imports: the shape of an import's name, package names, and the
//! lockfile that pins the packages imports come from.
use vstd::prelude::*;
use crate::builtins::{is_internal_builtin_package, INTERNAL_BUILTIN_PACKAGE};
use crate::compile::error::CompileError;
use crate::syntax::format::{push_trimmed, trim};
use crate::syntax::pretty::{digits, push_digits};
use crate::text::{
    char_index_from, chars_of, find_char, has_prefix, push_str, starts_with, string_between,
    to_string,
};

verus! {

/// A package pinned by the import lockfile.
#[derive(Debug, Clone, PartialEq, Eq)]
pub struct LockedPackage {
    pub version: String,
    pub base_url: String,
    /// Each module's name with its hash.
    pub modules: Vec<(String, String)>,
}

/// The import lockfile: its packages, in the order they are checked.
#[derive(Debug, Clone, PartialEq, Eq)]
pub struct ImportLockfile {
    pub schema_version: u32,
    pub packages: Vec<(String, LockedPackage)>,
}

/// The message of a code-generation error, if `e` is one.
pub open spec fn codegen_message(e: CompileError) -> Option<Seq<char>> {
    match e {
        CompileError::Codegen(m) => Some(m@),
        _ => None,
    }
}

/// What is wrong with a package name, if anything; `context` says where it
/// stands.
pub open spec fn package_name_error(name: Seq<char>, context: Seq<char>) -> Option<Seq<char>> {
    if trim(name).len() == 0 {
        Some(context + " has an empty package name"@)
    } else if has_prefix(name, "__"@) {
        Some(context + " uses reserved package name '"@ + name + "'; names starting with '__' are reserved"@)
    } else {
        None
    }
}

/// `s` without white space at either end.
fn trimmed(s: &str) -> (r: String)
    ensures
        r@ == trim(s@),
{
    let mut out = String::new();
    push_trimmed(&mut out, &to_string(s));
    out
}

/// Whether `s` is empty once trimmed.
fn blank(s: &str) -> (r: bool)
    ensures
        r == (trim(s@).len() == 0),
{
    let t = trimmed(s);
    chars_of(t.as_str()).len() == 0
}

/// Accepts a package name that is not blank and not reserved (names
/// starting with `__` are).
pub fn validate_package_name(package_name: &str, context: &str) -> (r: Result<(), CompileError>)
    ensures
        match package_name_error(package_name@, context@) {
            None => r is Ok,
            Some(m) => r matches Err(e) && codegen_message(e) == Some(m),
        },
{
    if blank(package_name) {
        let mut m = to_string(context);
        push_str(&mut m, " has an empty package name");
        return Err(CompileError::codegen(m));
    }
    if starts_with(package_name, "__") {
        let mut m = to_string(context);
        push_str(&mut m, " uses reserved package name '");
        push_str(&mut m, package_name);
        push_str(&mut m, "'; names starting with '__' are reserved");
        return Err(CompileError::codegen(m));
    }
    Ok(())
}

pub open spec fn shape_message(name: Seq<char>) -> Seq<char> {
    "named import '"@ + name + "' must use the shape Package.Module"@
}

/// How a named import splits: at its first dot into package and module,
/// with no dot in the module, and a valid package name unless it is the
/// internal builtin package.
pub open spec fn import_split(name: Seq<char>) -> Result<(Seq<char>, Seq<char>), Seq<char>> {
    match char_index_from(name, '.', 0) {
        None => Err(shape_message(name)),
        Some(d) => {
            let package = name.take(d);
            let module = name.skip(d + 1);
            if char_index_from(module, '.', 0) is Some {
                Err(shape_message(name))
            } else if package != INTERNAL_BUILTIN_PACKAGE@ && package_name_error(
                package,
                "named import '"@ + name + "'"@,
            ) is Some {
                Err(package_name_error(package, "named import '"@ + name + "'"@)->0)
            } else {
                Ok((package, module))
            }
        },
    }
}

/// Splits a named import `Package.Module` into its package and module.
pub fn split_import_name(module_name: &str) -> (r: Result<(String, String), CompileError>)
    ensures
        match (r, import_split(module_name@)) {
            (Ok((p, m)), Ok((sp, sm))) => p@ == sp && m@ == sm,
            (Err(e), Err(m)) => codegen_message(e) == Some(m),
            _ => false,
        },
{
    let cs = chars_of(module_name);
    let n = cs.len();
    let d = match find_char(&cs, '.', 0) {
        Some(d) => d,
        None => {
            let mut m = to_string("named import '");
            push_str(&mut m, module_name);
            push_str(&mut m, "' must use the shape Package.Module");
            return Err(CompileError::codegen(m));
        },
    };
    let package = string_between(&cs, 0, d);
    let module = string_between(&cs, d + 1, n);
    let mcs = chars_of(module.as_str());
    assert(mcs@ =~= module_name@.skip(d + 1));
    assert(package@ =~= module_name@.take(d as int));
    if find_char(&mcs, '.', 0).is_some() {
        let mut m = to_string("named import '");
        push_str(&mut m, module_name);
        push_str(&mut m, "' must use the shape Package.Module");
        return Err(CompileError::codegen(m));
    }
    if !is_internal_builtin_package(package.as_str()) {
        let mut context = to_string("named import '");
        push_str(&mut context, module_name);
        push_str(&mut context, "'");
        match validate_package_name(package.as_str(), context.as_str()) {
            Ok(()) => {},
            Err(e) => return Err(e),
        }
    }
    Ok((package, module))
}

/// What is wrong with one locked package, if anything.
pub open spec fn locked_package_error(name: Seq<char>, pkg: LockedPackage, path: Seq<char>) -> Option<Seq<char>> {
    let entry = "package entry in '"@ + path + "'"@;
    if package_name_error(name, entry) is Some {
        package_name_error(name, entry)
    } else if trim(name).len() == 0 {
        Some(entry + " has an empty name"@)
    } else if trim(pkg.version@).len() == 0 {
        Some("package '"@ + name + "' in '"@ + path + "' is missing version"@)
    } else if trim(pkg.base_url@).len() == 0 {
        Some("package '"@ + name + "' in '"@ + path + "' is missing base_url"@)
    } else {
        locked_modules_error(name, pkg.modules@, pkg.modules@.len() as int, path)
    }
}

/// The first error among the first `n` modules of a locked package.
pub open spec fn locked_modules_error(name: Seq<char>, modules: Seq<(String, String)>, n: int, path: Seq<char>) -> Option<Seq<char>>
    decreases n,
{
    if n <= 0 || n > modules.len() {
        None
    } else {
        match locked_modules_error(name, modules, n - 1, path) {
            Some(e) => Some(e),
            None => {
                let module = modules[n - 1].0@;
                if trim(module).len() == 0 {
                    Some("package '"@ + name + "' in '"@ + path + "' contains an empty module name"@)
                } else if char_index_from(module, '.', 0) is Some {
                    Some("module '"@ + name + "."@ + module + "' in '"@ + path + "' must be a single identifier"@)
                } else if trim(modules[n - 1].1@).len() == 0 {
                    Some("module '"@ + name + "."@ + module + "' in '"@ + path + "' is missing a BLAKE3 hash"@)
                } else {
                    None
                }
            },
        }
    }
}

/// The first error among the first `n` locked packages.
pub open spec fn locked_packages_error(pkgs: Seq<(String, LockedPackage)>, n: int, path: Seq<char>) -> Option<Seq<char>>
    decreases n,
{
    if n <= 0 || n > pkgs.len() {
        None
    } else {
        match locked_packages_error(pkgs, n - 1, path) {
            Some(e) => Some(e),
            None => locked_package_error(pkgs[n - 1].0@, pkgs[n - 1].1, path),
        }
    }
}

/// What is wrong with an import lockfile, if anything: its schema, then
/// its packages in order.
pub open spec fn import_lockfile_error(lf: ImportLockfile, path: Seq<char>) -> Option<Seq<char>> {
    if lf.schema_version != 1 {
        Some("unsupported module lockfile schema_version "@ + digits(lf.schema_version as nat) + " in '"@ + path
            + "'; expected 1"@)
    } else {
        locked_packages_error(lf.packages@, lf.packages@.len() as int, path)
    }
}

/// `prefix`, `name`, `middle`, `path` and `suffix` as one message.
fn message5(prefix: &str, name: &str, middle: &str, path: &str, suffix: &str) -> (r: CompileError)
    ensures
        codegen_message(r) == Some(prefix@ + name@ + middle@ + path@ + suffix@),
{
    let mut m = to_string(prefix);
    push_str(&mut m, name);
    push_str(&mut m, middle);
    push_str(&mut m, path);
    push_str(&mut m, suffix);
    CompileError::codegen(m)
}

/// Checks one locked package's modules: each named by one identifier and
/// carrying a hash.
fn validate_locked_modules(name: &str, pkg: &LockedPackage, path: &str) -> (r: Result<(), CompileError>)
    ensures
        match locked_modules_error(name@, pkg.modules@, pkg.modules@.len() as int, path@) {
            None => r is Ok,
            Some(m) => r matches Err(e) && codegen_message(e) == Some(m),
        },
{
    let mut i: usize = 0;
    while i < pkg.modules.len()
        invariant
            i <= pkg.modules@.len(),
            locked_modules_error(name@, pkg.modules@, i as int, path@) is None,
        decreases pkg.modules@.len() - i,
    {
        let module = pkg.modules[i].0.as_str();
        let hash = pkg.modules[i].1.as_str();
        let mut qualified = to_string(name);
        push_str(&mut qualified, ".");
        push_str(&mut qualified, module);
        let r = if blank(module) {
            Err(message5("package '", name, "' in '", path, "' contains an empty module name"))
        } else if find_char(&chars_of(module), '.', 0).is_some() {
            Err(message5("module '", qualified.as_str(), "' in '", path, "' must be a single identifier"))
        } else if blank(hash) {
            Err(message5("module '", qualified.as_str(), "' in '", path, "' is missing a BLAKE3 hash"))
        } else {
            Ok(())
        };
        match r {
            Ok(()) => {},
            Err(e) => {
                proof {
                    lemma_locked_modules_error_stays(name@, pkg.modules@, i + 1, path@);
                }
                return Err(e);
            },
        }
        i = i + 1;
    }
    Ok(())
}

/// Checks an import lockfile: the schema, then each package's name,
/// version, base URL and modules; the first failure is the error.
pub fn validate_lockfile(lockfile: &ImportLockfile, path: &str) -> (r: Result<(), CompileError>)
    ensures
        match import_lockfile_error(*lockfile, path@) {
            None => r is Ok,
            Some(m) => r matches Err(e) && codegen_message(e) == Some(m),
        },
{
    if lockfile.schema_version != 1 {
        let mut m = to_string("unsupported module lockfile schema_version ");
        push_digits(&mut m, lockfile.schema_version as u64);
        push_str(&mut m, " in '");
        push_str(&mut m, path);
        push_str(&mut m, "'; expected 1");
        return Err(CompileError::codegen(m));
    }
    let mut entry = to_string("package entry in '");
    push_str(&mut entry, path);
    push_str(&mut entry, "'");
    let mut i: usize = 0;
    while i < lockfile.packages.len()
        invariant
            i <= lockfile.packages@.len(),
            lockfile.schema_version == 1,
            entry@ == "package entry in '"@ + path@ + "'"@,
            locked_packages_error(lockfile.packages@, i as int, path@) is None,
        decreases lockfile.packages@.len() - i,
    {
        let name = lockfile.packages[i].0.as_str();
        let pkg = &lockfile.packages[i].1;
        let r = match validate_package_name(name, entry.as_str()) {
            Err(e) => Err(e),
            Ok(()) => if blank(name) {
                let mut m = to_string(entry.as_str());
                push_str(&mut m, " has an empty name");
                Err(CompileError::codegen(m))
            } else if blank(pkg.version.as_str()) {
                Err(message5("package '", name, "' in '", path, "' is missing version"))
            } else if blank(pkg.base_url.as_str()) {
                Err(message5("package '", name, "' in '", path, "' is missing base_url"))
            } else {
                validate_locked_modules(name, pkg, path)
            },
        };
        match r {
            Ok(()) => {},
            Err(e) => {
                proof {
                    lemma_locked_packages_error_stays(lockfile.packages@, i + 1, path@);
                }
                return Err(e);
            },
        }
        i = i + 1;
    }
    Ok(())
}

pub proof fn lemma_locked_modules_error_stays(name: Seq<char>, modules: Seq<(String, String)>, n: int, path: Seq<char>)
    requires
        0 <= n <= modules.len(),
        locked_modules_error(name, modules, n, path) is Some,
    ensures
        locked_modules_error(name, modules, modules.len() as int, path) == locked_modules_error(name, modules, n, path),
    decreases modules.len() - n,
{
    if n < modules.len() {
        lemma_locked_modules_error_stays(name, modules, n + 1, path);
    }
}

pub proof fn lemma_locked_packages_error_stays(pkgs: Seq<(String, LockedPackage)>, n: int, path: Seq<char>)
    requires
        0 <= n <= pkgs.len(),
        locked_packages_error(pkgs, n, path) is Some,
    ensures
        locked_packages_error(pkgs, pkgs.len() as int, path) == locked_packages_error(pkgs, n, path),
    decreases pkgs.len() - n,
{
    if n < pkgs.len() {
        lemma_locked_packages_error_stays(pkgs, n + 1, path);
    }
}

} // verus!
