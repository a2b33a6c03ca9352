//! The command line's own logic: reading the arguments of each command and
//! wording the errors shown to users. Printing and exiting are left to the
//! program around the library.
use vstd::prelude::*;
use crate::builtins::{builtin_meta, builtin_table, find_meta, BuiltinSurface};
use crate::syntax::span::Span;
use crate::text::{
    chars_of, has_prefix, push_str, starts_with, str_eq, strip_prefix, to_string,
    trim_prefixes, trim_start_matches, without_prefix,
};

verus! {

pub const RUN_USAGE: &'static str =
    "Usage: hiko run [--config <hiko.toml>] [--policy <name>] [--strict] [file.hml]";

pub const CHECK_USAGE: &'static str =
    "Usage: hiko check [--config <hiko.toml>] [--policy <name>] [--strict] <file.hml>";

pub const FMT_USAGE: &'static str = "Usage: hiko fmt [--check] [--recurse] <file.hml|dir>...";

pub const INSPECT_WORK_USAGE: &'static str = "Usage: hiko inspect-work <file.hml>";

/// What `run` and `check` were asked to do.
#[derive(Debug, Clone, PartialEq, Eq)]
pub struct ScriptOptions {
    pub config_path: Option<String>,
    pub policy_name: Option<String>,
    pub script_path: Option<String>,
    pub strict: bool,
}

/// What `fmt` was asked to do.
#[derive(Debug, Clone, PartialEq, Eq)]
pub struct FmtOptions {
    pub check: bool,
    pub recurse: bool,
    pub paths: Vec<String>,
}

/// The mathematical value of script options.
pub struct OptsV {
    pub config: Option<Seq<char>>,
    pub policy: Option<Seq<char>>,
    pub script: Option<Seq<char>>,
    pub strict: bool,
}

pub open spec fn opt_view(o: Option<String>) -> Option<Seq<char>> {
    match o {
        Some(s) => Some(s@),
        None => None,
    }
}

pub open spec fn opts_view(o: ScriptOptions) -> OptsV {
    OptsV {
        config: opt_view(o.config_path),
        policy: opt_view(o.policy_name),
        script: opt_view(o.script_path),
        strict: o.strict,
    }
}

pub open spec fn strs_of(v: Seq<String>) -> Seq<Seq<char>> {
    v.map_values(|s: String| s@)
}

/// The options read from `args[i..]`, having read `acc` so far, or the text
/// to show the user when the arguments are wrong.
pub open spec fn script_args(
    args: Seq<Seq<char>>,
    i: int,
    acc: OptsV,
    usage: Seq<char>,
    require_script: bool,
) -> Result<OptsV, Seq<char>>
    decreases args.len() - i,
{
    if i < 0 || i >= args.len() {
        if require_script && acc.script is None {
            Err(usage)
        } else {
            Ok(acc)
        }
    } else {
        let a = args[i];
        if a == "--config"@ {
            if i + 1 < args.len() {
                script_args(args, i + 2, OptsV { config: Some(args[i + 1]), ..acc }, usage, require_script)
            } else {
                Err(usage)
            }
        } else if has_prefix(a, "--config="@) {
            let p = trim_prefixes(a, "--config="@);
            if p.len() == 0 {
                Err(usage)
            } else {
                script_args(args, i + 1, OptsV { config: Some(p), ..acc }, usage, require_script)
            }
        } else if a == "--policy"@ {
            if i + 1 < args.len() {
                script_args(args, i + 2, OptsV { policy: Some(args[i + 1]), ..acc }, usage, require_script)
            } else {
                Err(usage)
            }
        } else if has_prefix(a, "--policy="@) {
            let p = trim_prefixes(a, "--policy="@);
            if p.len() == 0 {
                Err(usage)
            } else {
                script_args(args, i + 1, OptsV { policy: Some(p), ..acc }, usage, require_script)
            }
        } else if a == "--strict"@ {
            script_args(args, i + 1, OptsV { strict: true, ..acc }, usage, require_script)
        } else if a.len() > 0 && a[0] == '-' {
            Err("Unknown option: "@ + a + "\n"@ + usage)
        } else if acc.script is Some {
            Err("Unexpected extra argument: "@ + a + "\n"@ + usage)
        } else {
            script_args(args, i + 1, OptsV { script: Some(a), ..acc }, usage, require_script)
        }
    }
}

pub open spec fn no_opts() -> OptsV {
    OptsV { config: None, policy: None, script: None, strict: false }
}

/// Whether the argument is an option (starts with `-`).
fn is_option(a: &str) -> (r: bool)
    ensures
        r == (a@.len() > 0 && a@[0] == '-'),
{
    let cs = chars_of(a);
    cs.len() > 0 && cs[0] == '-'
}

fn usage_after(first: &str, arg: &str, usage: &str) -> (r: String)
    ensures
        r@ == first@ + arg@ + "\n"@ + usage@,
{
    let mut m = to_string(first);
    push_str(&mut m, arg);
    push_str(&mut m, "\n");
    push_str(&mut m, usage);
    m
}

/// Reads the arguments of a script command. On wrong arguments the error is
/// the text to show (the usage, after a line naming the bad argument when
/// there is one).
pub fn parse_script_args(args: &Vec<String>, usage: &str, require_script: bool) -> (r: Result<
    ScriptOptions,
    String,
>)
    ensures
        match (r, script_args(strs_of(args@), 0, no_opts(), usage@, require_script)) {
            (Ok(o), Ok(v)) => opts_view(o) == v,
            (Err(e), Err(m)) => e@ == m,
            _ => false,
        },
{
    let ghost av = strs_of(args@);
    let mut opts = ScriptOptions {
        config_path: None,
        policy_name: None,
        script_path: None,
        strict: false,
    };
    let mut i: usize = 0;
    while i < args.len()
        invariant
            i <= args@.len(),
            av == strs_of(args@),
            script_args(av, 0, no_opts(), usage@, require_script) == script_args(
                av,
                i as int,
                opts_view(opts),
                usage@,
                require_script,
            ),
        decreases args@.len() - i,
    {
        let a = args[i].as_str();
        assert(av[i as int] == a@);
        if str_eq(a, "--config") {
            if args.len() - i > 1 {
                assert(av[i + 1] == args@[i + 1]@);
                opts.config_path = Some(args[i + 1].clone());
                i = i + 2;
            } else {
                return Err(to_string(usage));
            }
        } else if starts_with(a, "--config=") {
            let p = trim_start_matches(a, "--config=");
            if chars_of(p.as_str()).len() == 0 {
                return Err(to_string(usage));
            }
            opts.config_path = Some(p);
            i = i + 1;
        } else if str_eq(a, "--policy") {
            if args.len() - i > 1 {
                assert(av[i + 1] == args@[i + 1]@);
                opts.policy_name = Some(args[i + 1].clone());
                i = i + 2;
            } else {
                return Err(to_string(usage));
            }
        } else if starts_with(a, "--policy=") {
            let p = trim_start_matches(a, "--policy=");
            if chars_of(p.as_str()).len() == 0 {
                return Err(to_string(usage));
            }
            opts.policy_name = Some(p);
            i = i + 1;
        } else if str_eq(a, "--strict") {
            opts.strict = true;
            i = i + 1;
        } else if is_option(a) {
            return Err(usage_after("Unknown option: ", a, usage));
        } else if opts.script_path.is_some() {
            return Err(usage_after("Unexpected extra argument: ", a, usage));
        } else {
            opts.script_path = Some(to_string(a));
            i = i + 1;
        }
    }
    if require_script && opts.script_path.is_none() {
        return Err(to_string(usage));
    }
    Ok(opts)
}

/// Reads the arguments of `run`.
pub fn parse_run_args(args: &Vec<String>) -> (r: Result<ScriptOptions, String>)
    ensures
        match (r, script_args(strs_of(args@), 0, no_opts(), RUN_USAGE@, false)) {
            (Ok(o), Ok(v)) => opts_view(o) == v,
            (Err(e), Err(m)) => e@ == m,
            _ => false,
        },
{
    parse_script_args(args, RUN_USAGE, false)
}

/// Reads the arguments of `check`, which needs a script.
pub fn parse_check_args(args: &Vec<String>) -> (r: Result<ScriptOptions, String>)
    ensures
        match (r, script_args(strs_of(args@), 0, no_opts(), CHECK_USAGE@, true)) {
            (Ok(o), Ok(v)) => opts_view(o) == v,
            (Err(e), Err(m)) => e@ == m,
            _ => false,
        },
{
    parse_script_args(args, CHECK_USAGE, true)
}

/// The mathematical value of `fmt` options.
pub struct FmtV {
    pub check: bool,
    pub recurse: bool,
    pub paths: Seq<Seq<char>>,
}

/// The `fmt` options read from `args[i..]` after `acc`.
pub open spec fn fmt_args(args: Seq<Seq<char>>, i: int, acc: FmtV) -> Result<FmtV, Seq<char>>
    decreases args.len() - i,
{
    if i < 0 || i >= args.len() {
        if acc.paths.len() == 0 {
            Err(FMT_USAGE@)
        } else {
            Ok(acc)
        }
    } else {
        let a = args[i];
        if a == "--check"@ {
            fmt_args(args, i + 1, FmtV { check: true, ..acc })
        } else if a == "--recurse"@ {
            fmt_args(args, i + 1, FmtV { recurse: true, ..acc })
        } else if a.len() > 0 && a[0] == '-' {
            Err("Unknown option: "@ + a + "\n"@ + FMT_USAGE@)
        } else {
            fmt_args(args, i + 1, FmtV { paths: acc.paths.push(a), ..acc })
        }
    }
}

pub open spec fn fmt_view(o: FmtOptions) -> FmtV {
    FmtV { check: o.check, recurse: o.recurse, paths: strs_of(o.paths@) }
}

/// Reads the arguments of `fmt`: flags and at least one path.
pub fn parse_fmt_args(args: &Vec<String>) -> (r: Result<FmtOptions, String>)
    ensures
        match (r, fmt_args(strs_of(args@), 0, FmtV { check: false, recurse: false, paths: Seq::empty() })) {
            (Ok(o), Ok(v)) => fmt_view(o) == v,
            (Err(e), Err(m)) => e@ == m,
            _ => false,
        },
{
    let ghost av = strs_of(args@);
    let mut opts = FmtOptions { check: false, recurse: false, paths: Vec::new() };
    assert(fmt_view(opts).paths =~= Seq::<Seq<char>>::empty());
    let mut i: usize = 0;
    while i < args.len()
        invariant
            i <= args@.len(),
            av == strs_of(args@),
            fmt_args(av, 0, FmtV { check: false, recurse: false, paths: Seq::empty() })
                == fmt_args(av, i as int, fmt_view(opts)),
        decreases args@.len() - i,
    {
        let a = args[i].as_str();
        assert(av[i as int] == a@);
        if str_eq(a, "--check") {
            opts.check = true;
        } else if str_eq(a, "--recurse") {
            opts.recurse = true;
        } else if is_option(a) {
            return Err(usage_after("Unknown option: ", a, FMT_USAGE));
        } else {
            let ghost before = opts.paths@;
            opts.paths.push(to_string(a));
            assert(strs_of(opts.paths@) =~= strs_of(before).push(a@));
        }
        i = i + 1;
    }
    if opts.paths.len() == 0 {
        return Err(to_string(FMT_USAGE));
    }
    Ok(opts)
}

/// Reads the arguments of `inspect-work`: exactly one path.
pub fn parse_inspect_work_args(args: &Vec<String>) -> (r: Result<String, String>)
    ensures
        (args@.len() == 1 && !(args@[0]@.len() > 0 && args@[0]@[0] == '-')) ==> (r matches Ok(
            p,
        ) && p@ == args@[0]@),
        !(args@.len() == 1 && !(args@[0]@.len() > 0 && args@[0]@[0] == '-')) ==> (r matches Err(
            e,
        ) && e@ == INSPECT_WORK_USAGE@),
{
    if args.len() != 1 || is_option(args[0].as_str()) {
        return Err(to_string(INSPECT_WORK_USAGE));
    }
    Ok(args[0].clone())
}

// ── Policies and error wording ───────────────────────────────────────

/// Where the project manifest came from.
#[derive(Debug, Clone, PartialEq, Eq)]
pub enum ManifestSource {
    ExplicitConfig,
    AutoDiscovered,
}

/// A policy chosen from a project manifest, with paths as text.
#[derive(Debug, Clone, PartialEq, Eq)]
pub struct ResolvedPolicy {
    pub manifest_path: String,
    pub manifest_source: ManifestSource,
    pub policy_name: String,
    pub policy_path: String,
}

/// Which builtins the runtime offers: the core alone, or those a policy allows.
#[derive(Debug, Clone, PartialEq, Eq)]
pub enum RuntimeSurface {
    CoreOnly,
    Policy(ResolvedPolicy),
}

/// A use of a builtin that the active runtime surface does not offer.
#[derive(Debug, Clone, PartialEq, Eq)]
pub struct StrictViolation {
    pub builtin: String,
    pub capability_path: Option<&'static str>,
    pub span: Option<Span>,
}

pub open spec fn source_label_text(s: ManifestSource) -> Seq<char> {
    match s {
        ManifestSource::ExplicitConfig => "--config"@,
        ManifestSource::AutoDiscovered => "auto-discovered hiko.toml"@,
    }
}

pub open spec fn policy_context_text(p: ResolvedPolicy) -> Seq<char> {
    "policy '"@ + p.policy_name@ + "' from '"@ + p.policy_path@ + "'"@
}

pub open spec fn policy_describe_text(p: ResolvedPolicy) -> Seq<char> {
    "using policy '"@ + p.policy_name@ + "' from '"@ + p.policy_path@ + "' (manifest: '"@
        + p.manifest_path@ + "', source: "@ + source_label_text(p.manifest_source) + ")"@
}

impl ResolvedPolicy {
    pub fn source_label(&self) -> (r: &'static str)
        ensures
            r@ == source_label_text(self.manifest_source),
    {
        match self.manifest_source {
            ManifestSource::ExplicitConfig => "--config",
            ManifestSource::AutoDiscovered => "auto-discovered hiko.toml",
        }
    }

    /// A sentence saying which policy is in use and where it came from.
    pub fn describe(&self) -> (r: String)
        ensures
            r@ == policy_describe_text(*self),
    {
        let mut m = to_string("using policy '");
        push_str(&mut m, self.policy_name.as_str());
        push_str(&mut m, "' from '");
        push_str(&mut m, self.policy_path.as_str());
        push_str(&mut m, "' (manifest: '");
        push_str(&mut m, self.manifest_path.as_str());
        push_str(&mut m, "', source: ");
        push_str(&mut m, self.source_label());
        push_str(&mut m, ")");
        m
    }

    /// The policy, as named in error messages.
    pub fn error_context(&self) -> (r: String)
        ensures
            r@ == policy_context_text(*self),
    {
        let mut m = to_string("policy '");
        push_str(&mut m, self.policy_name.as_str());
        push_str(&mut m, "' from '");
        push_str(&mut m, self.policy_path.as_str());
        push_str(&mut m, "'");
        m
    }
}

impl RuntimeSurface {
    /// A sentence saying which runtime surface is in use.
    pub fn describe(&self) -> (r: String)
        ensures
            r@ == match *self {
                RuntimeSurface::CoreOnly => "using core-only runtime surface (no hiko.toml resolved)"@,
                RuntimeSurface::Policy(p) => policy_describe_text(p),
            },
    {
        match self {
            RuntimeSurface::CoreOnly => to_string(
                "using core-only runtime surface (no hiko.toml resolved)",
            ),
            RuntimeSurface::Policy(p) => p.describe(),
        }
    }
}

/// The builtin called `name` is runtime-only.
pub open spec fn runtime_only(name: Seq<char>) -> bool {
    find_meta(builtin_table(), name) matches Some(m) && m.surface == BuiltinSurface::RuntimeOnly
}

/// The message for a use of a builtin the surface does not offer.
pub open spec fn strict_message_text(v: StrictViolation, surface: RuntimeSurface) -> Seq<char> {
    match v.capability_path {
        Some(path) => match surface {
            RuntimeSurface::CoreOnly => "builtin '"@ + v.builtin@
                + "' is not available in the core-only runtime surface (layer: VMBuilder::with_core; pass --config and enable ["@
                + path@ + "])"@,
            RuntimeSurface::Policy(p) => "builtin '"@ + v.builtin@
                + "' is not enabled by the active policy (layer: RunConfig::build_vm; "@
                + policy_context_text(p) + "; enable ["@ + path@ + "])"@,
        },
        None => if runtime_only(v.builtin@) {
            match surface {
                RuntimeSurface::CoreOnly => "builtin '"@ + v.builtin@
                    + "' is runtime-only and not part of the public core-only surface (layer: internal builtin alias)"@,
                RuntimeSurface::Policy(p) => "builtin '"@ + v.builtin@
                    + "' is runtime-only and not part of the public run-config surface (layer: internal builtin alias; "@
                    + policy_context_text(p) + ")"@,
            }
        } else {
            v.builtin@
        },
    }
}

/// Explains, with the layer and the capability involved, why a builtin is
/// not available.
pub fn strict_message(violation: &StrictViolation, surface: &RuntimeSurface) -> (r: String)
    ensures
        r@ == strict_message_text(*violation, *surface),
{
    match violation.capability_path {
        Some(path) => match surface {
            RuntimeSurface::CoreOnly => {
                let mut m = to_string("builtin '");
                push_str(&mut m, violation.builtin.as_str());
                push_str(
                    &mut m,
                    "' is not available in the core-only runtime surface (layer: VMBuilder::with_core; pass --config and enable [",
                );
                push_str(&mut m, path);
                push_str(&mut m, "])");
                m
            },
            RuntimeSurface::Policy(p) => {
                let mut m = to_string("builtin '");
                push_str(&mut m, violation.builtin.as_str());
                push_str(
                    &mut m,
                    "' is not enabled by the active policy (layer: RunConfig::build_vm; ",
                );
                let ctx = p.error_context();
                push_str(&mut m, ctx.as_str());
                push_str(&mut m, "; enable [");
                push_str(&mut m, path);
                push_str(&mut m, "])");
                m
            },
        },
        None => {
            let runtime = match builtin_meta(violation.builtin.as_str()) {
                Some(meta) => meta.surface == BuiltinSurface::RuntimeOnly,
                None => false,
            };
            if runtime {
                match surface {
                    RuntimeSurface::CoreOnly => {
                        let mut m = to_string("builtin '");
                        push_str(&mut m, violation.builtin.as_str());
                        push_str(
                            &mut m,
                            "' is runtime-only and not part of the public core-only surface (layer: internal builtin alias)",
                        );
                        m
                    },
                    RuntimeSurface::Policy(p) => {
                        let mut m = to_string("builtin '");
                        push_str(&mut m, violation.builtin.as_str());
                        push_str(
                            &mut m,
                            "' is runtime-only and not part of the public run-config surface (layer: internal builtin alias; ",
                        );
                        let ctx = p.error_context();
                        push_str(&mut m, ctx.as_str());
                        push_str(&mut m, ")");
                        m
                    },
                }
            } else {
                violation.builtin.clone()
            }
        },
    }
}

/// The message for a runtime error, explaining an undefined builtin global
/// by the layer that should have registered it.
pub open spec fn runtime_error_text(message: Seq<char>, surface: RuntimeSurface) -> Seq<char> {
    match without_prefix(message, "undefined global: "@) {
        None => message,
        Some(name) => match find_meta(builtin_table(), name) {
            None => message,
            Some(meta) => match meta.capability_path {
                Some(path) => match surface {
                    RuntimeSurface::CoreOnly => "builtin '"@ + name
                        + "' was not registered in the core-only VM (layer: VMBuilder::with_core; pass --config and enable ["@
                        + path + "])"@,
                    RuntimeSurface::Policy(p) => "builtin '"@ + name
                        + "' was not registered by the active policy-filtered VM (layer: RunConfig::build_vm; "@
                        + policy_context_text(p) + "; enable ["@ + path + "])"@,
                },
                None => if meta.surface == BuiltinSurface::RuntimeOnly {
                    match surface {
                        RuntimeSurface::CoreOnly => "runtime builtin '"@ + name
                            + "' was not registered in the core-only VM (layer: internal builtin alias / VMBuilder::with_core)"@,
                        RuntimeSurface::Policy(p) => "runtime builtin '"@ + name
                            + "' was not registered by the active policy-filtered VM (layer: internal builtin alias / RunConfig::build_vm; "@
                            + policy_context_text(p)
                            + "). This usually means the supporting public capability family is missing from the active policy."@,
                    }
                } else {
                    message
                },
            },
        },
    }
}

/// Explains a runtime error about an undefined builtin global.
pub fn runtime_error_message(message: &str, surface: &RuntimeSurface) -> (r: String)
    ensures
        r@ == runtime_error_text(message@, *surface),
{
    let name = match strip_prefix(message, "undefined global: ") {
        Some(n) => n,
        None => {
            return to_string(message);
        },
    };
    let meta = match builtin_meta(name.as_str()) {
        Some(m) => m,
        None => {
            return to_string(message);
        },
    };
    match meta.capability_path {
        Some(path) => match surface {
            RuntimeSurface::CoreOnly => {
                let mut m = to_string("builtin '");
                push_str(&mut m, name.as_str());
                push_str(
                    &mut m,
                    "' was not registered in the core-only VM (layer: VMBuilder::with_core; pass --config and enable [",
                );
                push_str(&mut m, path);
                push_str(&mut m, "])");
                m
            },
            RuntimeSurface::Policy(p) => {
                let mut m = to_string("builtin '");
                push_str(&mut m, name.as_str());
                push_str(
                    &mut m,
                    "' was not registered by the active policy-filtered VM (layer: RunConfig::build_vm; ",
                );
                let ctx = p.error_context();
                push_str(&mut m, ctx.as_str());
                push_str(&mut m, "; enable [");
                push_str(&mut m, path);
                push_str(&mut m, "])");
                m
            },
        },
        None => {
            if meta.surface == BuiltinSurface::RuntimeOnly {
                match surface {
                    RuntimeSurface::CoreOnly => {
                        let mut m = to_string("runtime builtin '");
                        push_str(&mut m, name.as_str());
                        push_str(
                            &mut m,
                            "' was not registered in the core-only VM (layer: internal builtin alias / VMBuilder::with_core)",
                        );
                        m
                    },
                    RuntimeSurface::Policy(p) => {
                        let mut m = to_string("runtime builtin '");
                        push_str(&mut m, name.as_str());
                        push_str(
                            &mut m,
                            "' was not registered by the active policy-filtered VM (layer: internal builtin alias / RunConfig::build_vm; ",
                        );
                        let ctx = p.error_context();
                        push_str(&mut m, ctx.as_str());
                        push_str(
                            &mut m,
                            "). This usually means the supporting public capability family is missing from the active policy.",
                        );
                        m
                    },
                }
            } else {
                to_string(message)
            }
        },
    }
}


// ── Project manifests ────────────────────────────────────────────────────

/// What the policy resolution reads of a project manifest: its default
/// policy and its named policies with their paths.
pub struct ProjectManifest {
    pub default_policy: Option<String>,
    pub policies: Vec<(String, String)>,
}

/// What `std::path::Path::parent` gives for a path.
pub uninterp spec fn path_parent_of(p: Seq<char>) -> Option<Seq<char>>;

/// What `std::path::Path::join` gives for a base and a path.
pub uninterp spec fn path_join_of(base: Seq<char>, rel: Seq<char>) -> Seq<char>;

/// `Path::parent`, the result as text.
#[verifier::external_body]
fn path_parent(p: &str) -> (r: Option<String>)
    ensures
        match r {
            Some(x) => path_parent_of(p@) == Some(x@),
            None => path_parent_of(p@) is None,
        },
{
    std::path::Path::new(p).parent().map(|q| q.display().to_string())
}

/// `Path::join`, the result as text.
#[verifier::external_body]
fn path_join(base: &str, rel: &str) -> (r: String)
    ensures
        r@ == path_join_of(base@, rel@),
{
    std::path::Path::new(base).join(rel).display().to_string()
}

/// The path of the first policy named `name`.
pub open spec fn policy_path_named(ps: Seq<(String, String)>, name: Seq<char>) -> Option<Seq<char>>
    decreases ps.len(),
{
    if ps.len() == 0 {
        None
    } else if ps[0].0@ == name {
        Some(ps[0].1@)
    } else {
        policy_path_named(ps.drop_first(), name)
    }
}

/// The policy a manifest gives for a run: the one named, else the
/// manifest's default; its path is read from the manifest's directory.
pub open spec fn manifest_resolution(
    manifest_path: Seq<char>,
    m: ProjectManifest,
    name: Option<Seq<char>>,
) -> Result<(Seq<char>, Seq<char>), Seq<char>> {
    let selected = match name {
        Some(n) => Some(n),
        None => match m.default_policy {
            Some(d) => Some(d@),
            None => None,
        },
    };
    match selected {
        None => Err("Project manifest '"@ + manifest_path
            + "' does not define defaults.policy; pass --policy <name>"@),
        Some(sel) => match policy_path_named(m.policies@, sel) {
            None => Err("Project manifest '"@ + manifest_path + "' does not define policy '"@ + sel
                + "'"@),
            Some(rel) => {
                let root = match path_parent_of(manifest_path) {
                    Some(r) => r,
                    None => "."@,
                };
                Ok((sel, path_join_of(root, rel)))
            },
        },
    }
}

/// Chooses the policy for a run from a parsed project manifest.
#[verifier::loop_isolation(false)]
pub fn resolve_policy_from_manifest(
    manifest_path: &str,
    manifest: &ProjectManifest,
    policy_name: Option<&str>,
) -> (r: Result<ResolvedPolicy, String>)
    ensures
        match (r, manifest_resolution(
            manifest_path@,
            *manifest,
            match policy_name {
                Some(n) => Some(n@),
                None => None,
            },
        )) {
            (Ok(p), Ok(v)) => p.manifest_path@ == manifest_path@ && p.manifest_source
                == ManifestSource::AutoDiscovered && p.policy_name@ == v.0 && p.policy_path@ == v.1,
            (Err(e), Err(x)) => e@ == x,
            _ => false,
        },
{
    let selected = match policy_name {
        Some(n) => to_string(n),
        None => match &manifest.default_policy {
            Some(d) => crate::text::clone_string(d),
            None => {
                let mut m = to_string("Project manifest '");
                push_str(&mut m, manifest_path);
                push_str(&mut m, "' does not define defaults.policy; pass --policy <name>");
                return Err(m);
            },
        },
    };
    let ps = &manifest.policies;
    let mut i: usize = 0;
    assert(ps@.subrange(0, ps@.len() as int) =~= ps@);
    while i < ps.len()
        invariant
            i <= ps@.len(),
            policy_path_named(ps@, selected@) == policy_path_named(
                ps@.subrange(i as int, ps@.len() as int),
                selected@,
            ),
        decreases ps@.len() - i,
    {
        let ghost rest = ps@.subrange(i as int, ps@.len() as int);
        assert(rest[0] == ps@[i as int]);
        assert(rest.drop_first() =~= ps@.subrange(i + 1, ps@.len() as int));
        if str_eq(ps[i].0.as_str(), selected.as_str()) {
            let root = match path_parent(manifest_path) {
                Some(r) => r,
                None => to_string("."),
            };
            let policy_path = path_join(root.as_str(), ps[i].1.as_str());
            return Ok(
                ResolvedPolicy {
                    manifest_path: to_string(manifest_path),
                    manifest_source: ManifestSource::AutoDiscovered,
                    policy_name: selected,
                    policy_path,
                },
            );
        }
        i = i + 1;
    }
    let mut m = to_string("Project manifest '");
    push_str(&mut m, manifest_path);
    push_str(&mut m, "' does not define policy '");
    push_str(&mut m, selected.as_str());
    push_str(&mut m, "'");
    Err(m)
}

} // verus!
