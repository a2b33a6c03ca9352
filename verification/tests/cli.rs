use hiko::cli::{
    resolve_policy_from_manifest, ProjectManifest,
    parse_check_args, parse_fmt_args, parse_inspect_work_args, parse_run_args,
    runtime_error_message, strict_message, FmtOptions, ManifestSource, ResolvedPolicy,
    RuntimeSurface, ScriptOptions, StrictViolation,
};

#[test]
fn parse_run_args_file_only() {
    let args = vec!["script.hml".to_string()];
    assert_eq!(
        parse_run_args(&args),
        Ok(ScriptOptions {
            config_path: None,
            policy_name: None,
            script_path: Some("script.hml".to_string()),
            strict: false,
        })
    );
}

#[test]
fn parse_run_args_config_and_file() {
    let args = vec![
        "--config".to_string(),
        "hiko.toml".to_string(),
        "tools/read.hml".to_string(),
    ];
    assert_eq!(
        parse_run_args(&args),
        Ok(ScriptOptions {
            config_path: Some("hiko.toml".to_string()),
            policy_name: None,
            script_path: Some("tools/read.hml".to_string()),
            strict: false,
        })
    );
}

#[test]
fn parse_run_args_inline_config() {
    let args = vec![
        "--config=hiko.toml".to_string(),
        "tools/read.hml".to_string(),
    ];
    assert_eq!(
        parse_run_args(&args),
        Ok(ScriptOptions {
            config_path: Some("hiko.toml".to_string()),
            policy_name: None,
            script_path: Some("tools/read.hml".to_string()),
            strict: false,
        })
    );
}

#[test]
fn parse_run_args_with_strict() {
    let args = vec![
        "--strict".to_string(),
        "--config=hiko.toml".to_string(),
        "tools/read.hml".to_string(),
    ];
    assert_eq!(
        parse_run_args(&args),
        Ok(ScriptOptions {
            config_path: Some("hiko.toml".to_string()),
            policy_name: None,
            script_path: Some("tools/read.hml".to_string()),
            strict: true,
        })
    );
}

#[test]
fn parse_check_args_with_config_and_strict() {
    let args = vec![
        "--config".to_string(),
        "hiko.toml".to_string(),
        "--strict".to_string(),
        "tools/read.hml".to_string(),
    ];
    assert_eq!(
        parse_check_args(&args),
        Ok(ScriptOptions {
            config_path: Some("hiko.toml".to_string()),
            policy_name: None,
            script_path: Some("tools/read.hml".to_string()),
            strict: true,
        })
    );
}

#[test]
fn parse_run_args_with_config_and_policy() {
    let args = vec![
        "--config".to_string(),
        "hiko.toml".to_string(),
        "--policy".to_string(),
        "docs-writer".to_string(),
        "tools/read.hml".to_string(),
    ];
    assert_eq!(
        parse_run_args(&args),
        Ok(ScriptOptions {
            config_path: Some("hiko.toml".to_string()),
            policy_name: Some("docs-writer".to_string()),
            script_path: Some("tools/read.hml".to_string()),
            strict: false,
        })
    );
}

#[test]
fn parse_run_args_with_policy() {
    let args = vec![
        "--policy".to_string(),
        "docs-writer".to_string(),
        "tools/read.hml".to_string(),
    ];
    assert_eq!(
        parse_run_args(&args),
        Ok(ScriptOptions {
            config_path: None,
            policy_name: Some("docs-writer".to_string()),
            script_path: Some("tools/read.hml".to_string()),
            strict: false,
        })
    );
}

#[test]
fn strict_message_includes_layer_and_policy_context() {
    let violation = StrictViolation {
        builtin: "exec".to_string(),
        capability_path: Some("capabilities.exec.exec"),
        span: None,
    };
    let surface = RuntimeSurface::Policy(ResolvedPolicy {
        manifest_path: "/tmp/hiko.toml".to_string(),
        manifest_source: ManifestSource::ExplicitConfig,
        policy_name: "dev".to_string(),
        policy_path: "/tmp/policies/dev.toml".to_string(),
    });
    let message = strict_message(&violation, &surface);
    assert!(message.contains("RunConfig::build_vm"), "got: {message}");
    assert!(message.contains("policy 'dev'"), "got: {message}");
    assert!(message.contains("capabilities.exec.exec"), "got: {message}");
}

#[test]
fn runtime_error_message_explains_core_only_surface() {
    let message = runtime_error_message("undefined global: exec", &RuntimeSurface::CoreOnly);
    assert!(message.contains("VMBuilder::with_core"), "got: {message}");
    assert!(message.contains("capabilities.exec.exec"), "got: {message}");
}

#[test]
fn parse_run_args_rejects_unknown_and_extra_arguments() {
    let args = vec!["--verbose".to_string()];
    let err = parse_run_args(&args).unwrap_err();
    assert!(err.starts_with("Unknown option: --verbose\nUsage: hiko run"));
    let args = vec!["a.hml".to_string(), "b.hml".to_string()];
    let err = parse_run_args(&args).unwrap_err();
    assert!(err.starts_with("Unexpected extra argument: b.hml\n"));
    let args = vec!["--config".to_string()];
    assert!(parse_run_args(&args).unwrap_err().starts_with("Usage: hiko run"));
    let args = vec!["--config=".to_string()];
    assert!(parse_run_args(&args).is_err());
}

#[test]
fn parse_check_args_requires_a_script() {
    let args = vec!["--strict".to_string()];
    assert!(parse_check_args(&args).unwrap_err().starts_with("Usage: hiko check"));
}

#[test]
fn parse_fmt_args_reads_flags_and_paths() {
    let args = vec!["--check".to_string(), "a.hml".to_string(), "dir".to_string()];
    assert_eq!(
        parse_fmt_args(&args),
        Ok(FmtOptions {
            check: true,
            recurse: false,
            paths: vec!["a.hml".to_string(), "dir".to_string()],
        })
    );
    assert!(parse_fmt_args(&vec!["--recurse".to_string()]).is_err());
    assert!(parse_fmt_args(&vec!["-x".to_string(), "a".to_string()]).is_err());
}

#[test]
fn parse_inspect_work_args_needs_one_path() {
    assert_eq!(parse_inspect_work_args(&vec!["a.hml".to_string()]), Ok("a.hml".to_string()));
    assert!(parse_inspect_work_args(&vec![]).is_err());
    assert!(parse_inspect_work_args(&vec!["-a".to_string()]).is_err());
}

#[test]
fn runtime_error_message_keeps_other_messages() {
    assert_eq!(
        runtime_error_message("division by zero", &RuntimeSurface::CoreOnly),
        "division by zero"
    );
    assert_eq!(
        runtime_error_message("undefined global: nothing_here", &RuntimeSurface::CoreOnly),
        "undefined global: nothing_here"
    );
}

#[test]
fn policy_descriptions() {
    let policy = ResolvedPolicy {
        manifest_path: "/p/hiko.toml".to_string(),
        manifest_source: ManifestSource::AutoDiscovered,
        policy_name: "dev".to_string(),
        policy_path: "/p/dev.toml".to_string(),
    };
    assert_eq!(
        policy.describe(),
        "using policy 'dev' from '/p/dev.toml' (manifest: '/p/hiko.toml', source: auto-discovered hiko.toml)"
    );
    assert_eq!(
        RuntimeSurface::CoreOnly.describe(),
        "using core-only runtime surface (no hiko.toml resolved)"
    );
}

#[test]
fn parse_fmt_args_file_list() {
    let args = vec!["examples/hello.hml".to_string(), "tools/read.hml".to_string()];
    let opts = parse_fmt_args(&args).unwrap();
    assert!(!opts.check);
    assert!(!opts.recurse);
    assert_eq!(
        opts.paths,
        vec!["examples/hello.hml".to_string(), "tools/read.hml".to_string()]
    );
}

#[test]
fn parse_fmt_args_with_check() {
    let args = vec![
        "--check".to_string(),
        "examples/hello.hml".to_string(),
        "tools/read.hml".to_string(),
    ];
    let opts = parse_fmt_args(&args).unwrap();
    assert!(opts.check);
    assert!(!opts.recurse);
    assert_eq!(
        opts.paths,
        vec!["examples/hello.hml".to_string(), "tools/read.hml".to_string()]
    );
}

#[test]
fn parse_fmt_args_with_recurse() {
    let args = vec!["--recurse".to_string(), "examples".to_string()];
    let opts = parse_fmt_args(&args).unwrap();
    assert!(!opts.check);
    assert!(opts.recurse);
    assert_eq!(opts.paths, vec!["examples".to_string()]);
}

#[test]
fn parse_inspect_work_args_file_only() {
    let args = vec!["examples/work_budget_demo.hml".to_string()];
    assert_eq!(
        parse_inspect_work_args(&args).unwrap(),
        "examples/work_budget_demo.hml".to_string()
    );
}

fn demo_manifest(default_policy: Option<&str>, policies: &[(&str, &str)]) -> ProjectManifest {
    ProjectManifest {
        default_policy: default_policy.map(|p| p.to_string()),
        policies: policies
            .iter()
            .map(|(name, path)| (name.to_string(), path.to_string()))
            .collect(),
    }
}

#[test]
fn resolve_policy_from_manifest_default_policy() {
    let manifest = demo_manifest(
        Some("software-developer-role"),
        &[("software-developer-role", "policies/user.toml")],
    );
    let resolved = resolve_policy_from_manifest("/tmp/demo/hiko.toml", &manifest, None)
        .expect("manifest resolution should succeed");
    assert_eq!(resolved.policy_name, "software-developer-role");
    assert_eq!(resolved.policy_path, "/tmp/demo/policies/user.toml");
    assert_eq!(resolved.manifest_source, ManifestSource::AutoDiscovered);
}

#[test]
fn resolve_policy_from_manifest_named_policy() {
    let manifest = demo_manifest(
        Some("software-developer-role"),
        &[
            ("software-developer-role", "policies/user.toml"),
            ("docs-writer", "policies/agent.toml"),
        ],
    );
    let resolved = resolve_policy_from_manifest("/tmp/demo/hiko.toml", &manifest, Some("docs-writer"))
        .expect("manifest resolution should succeed");
    assert_eq!(resolved.policy_name, "docs-writer");
    assert_eq!(resolved.policy_path, "/tmp/demo/policies/agent.toml");
}

#[test]
fn resolve_policy_from_manifest_without_default_errors() {
    let manifest = demo_manifest(None, &[]);
    let err = resolve_policy_from_manifest("/tmp/demo/hiko.toml", &manifest, None)
        .expect_err("manifest without default should require explicit --policy");
    assert!(err.contains("defaults.policy"));
}

#[test]
fn resolve_policy_from_manifest_reports_unknown_policies() {
    let manifest = demo_manifest(Some("dev"), &[("ops", "p/ops.toml")]);
    let err = resolve_policy_from_manifest("hiko.toml", &manifest, None).unwrap_err();
    assert_eq!(err, "Project manifest 'hiko.toml' does not define policy 'dev'");
    let manifest = demo_manifest(None, &[("ops", "p/ops.toml")]);
    let resolved = resolve_policy_from_manifest("hiko.toml", &manifest, Some("ops")).unwrap();
    assert_eq!(resolved.policy_path, "p/ops.toml");
}
