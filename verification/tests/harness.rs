use hiko::harness::{
    truncate, AgentConfig, Config, DefaultConfig, FunctionCall, HikoConfig, ModelAlias, Provider,
    StreamAccumulator, ToolCall,
};

fn provider(url: &str, key_env: &str) -> Provider {
    Provider { api_url: url.to_string(), api_key_env: key_env.to_string() }
}

fn config() -> Config {
    Config {
        default: DefaultConfig {
            model: "gpt-4o".to_string(),
            provider: "openai".to_string(),
            max_tokens: 4096,
            max_turns: 50,
        },
        hiko: HikoConfig::default(),
        providers: vec![
            ("openai".to_string(), provider("https://api.openai.com/v1", "OPENAI_API_KEY")),
            ("local".to_string(), provider("http://localhost:8080", "")),
        ],
        models: vec![(
            "fast".to_string(),
            ModelAlias { provider: "local".to_string(), id: "llama-3".to_string() },
        )],
        roles: vec![("coder".to_string(), "fast".to_string())],
    }
}

fn env() -> Vec<(String, String)> {
    vec![("OPENAI_API_KEY".to_string(), "sk-test".to_string())]
}

#[test]
fn roles_resolve_through_aliases() {
    let m = config().resolve_model("coder", &env()).unwrap();
    assert_eq!(m.api_url, "http://localhost:8080");
    assert_eq!(m.api_key, "");
    assert_eq!(m.model_id, "llama-3");
}

#[test]
fn provider_slash_model_names_both() {
    let m = config().resolve_model("openai/gpt-4.1", &env()).unwrap();
    assert_eq!(m.api_url, "https://api.openai.com/v1");
    assert_eq!(m.api_key, "sk-test");
    assert_eq!(m.model_id, "gpt-4.1");
    let err = config().resolve_model("nowhere/x", &env()).unwrap_err();
    assert_eq!(err, "provider 'nowhere' not found in config");
}

#[test]
fn plain_names_use_the_default_provider() {
    let m = config().resolve_model("gpt-4o-mini", &env()).unwrap();
    assert_eq!(m.model_id, "gpt-4o-mini");
    let err = config().resolve_model("gpt-4o-mini", &Vec::new()).unwrap_err();
    assert_eq!(err, "environment variable 'OPENAI_API_KEY' not set");
    let mut cfg = config();
    cfg.default.provider = "missing".to_string();
    let err = cfg.resolve_model("gpt-4o-mini", &env()).unwrap_err();
    assert_eq!(err, "default provider 'missing' not found");
}

#[test]
fn aliases_need_their_provider() {
    let mut cfg = config();
    cfg.models[0].1.provider = "gone".to_string();
    let err = cfg.resolve_model("fast", &env()).unwrap_err();
    assert_eq!(err, "provider 'gone' not found in config");
}

#[test]
fn defaults_match_the_documented_values() {
    let agent = AgentConfig::default();
    assert_eq!(agent.model, "gpt-4o");
    assert_eq!(agent.max_turns, 50);
    assert_eq!(agent.max_tokens, 4096);
    let hiko = HikoConfig::default();
    assert_eq!(hiko.bin, "hiko-cli");
    assert_eq!(hiko.config, "policies/harness-tools.policy.toml");
    assert!(hiko.strict);
}

fn call(id: &str, name: &str) -> ToolCall {
    ToolCall {
        id: id.to_string(),
        kind: "function".to_string(),
        function: FunctionCall { name: name.to_string(), arguments: "{}".to_string() },
    }
}

#[test]
fn tool_calls_need_an_id_and_a_name() {
    let mut acc = StreamAccumulator { text: String::new(), tool_calls: vec![], finish_reason: None };
    assert!(!acc.has_tool_calls());
    acc.tool_calls.push(call("", "read"));
    acc.tool_calls.push(call("call_1", ""));
    assert!(!acc.has_tool_calls());
    acc.tool_calls.push(call("call_2", "read"));
    assert!(acc.has_tool_calls());
}

#[test]
fn truncate_cuts_long_text_at_a_character() {
    assert_eq!(truncate("short", 10), "short");
    assert_eq!(truncate("abcdefgh", 3), "abc...");
    assert_eq!(truncate("héllo", 2), "hé...");
    assert_eq!(truncate("héllo", 3), "hé...");
}

#[test]
fn roles_may_name_provider_slash_model_or_raw_ids() {
    let mut cfg = config();
    cfg.providers.push(("ollama".to_string(), provider("http://localhost:11434", "")));
    cfg.roles.push(("local".to_string(), "ollama/qwen3:32b".to_string()));
    cfg.roles.push(("cheap".to_string(), "gpt-4o-mini".to_string()));
    let m = cfg.resolve_model("local", &env()).unwrap();
    assert_eq!(m.api_url, "http://localhost:11434");
    assert_eq!(m.model_id, "qwen3:32b");
    let m = cfg.resolve_model("cheap", &env()).unwrap();
    assert_eq!(m.api_url, "https://api.openai.com/v1");
    assert_eq!(m.model_id, "gpt-4o-mini");
}
