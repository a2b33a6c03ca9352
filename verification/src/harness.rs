//! The agent harness's settings: models and providers, how a model name is
//! resolved, and the messages exchanged with a model.
use vstd::prelude::*;
use crate::text::{
    chars_of, find, find_chars, lemma_find_from_bounds, push_char, push_str, str_eq, string_between,
    to_string, clone_string,
};

verus! {

/// The settings of one agent run.
pub struct AgentConfig {
    pub model: String,
    pub system_prompt: String,
    pub max_turns: usize,
    pub max_tokens: u32,
}

impl Default for AgentConfig {
    fn default() -> (r: Self)
        ensures
            r.model@ == "gpt-4o"@,
            r.system_prompt@.len() == 0,
            r.max_turns == 50,
            r.max_tokens == 4096,
    {
        AgentConfig {
            model: to_string("gpt-4o"),
            system_prompt: String::new(),
            max_turns: 50,
            max_tokens: 4096,
        }
    }
}

/// The harness configuration: defaults, the hiko tool runner, and the named
/// providers, model aliases and roles.
pub struct Config {
    pub default: DefaultConfig,
    pub hiko: HikoConfig,
    pub providers: Vec<(String, Provider)>,
    pub models: Vec<(String, ModelAlias)>,
    pub roles: Vec<(String, String)>,
}

/// The model and provider used when none is named, with the run limits.
pub struct DefaultConfig {
    pub model: String,
    pub provider: String,
    pub max_tokens: u32,
    pub max_turns: usize,
}

/// How the hiko tool runner is started.
pub struct HikoConfig {
    pub bin: String,
    pub config: String,
    pub strict: bool,
}

/// A model provider: its endpoint and the environment variable holding its
/// key (empty when it needs none).
pub struct Provider {
    pub api_url: String,
    pub api_key_env: String,
}

/// A model alias: a provider and the model's identifier there.
pub struct ModelAlias {
    pub provider: String,
    pub id: String,
}

/// A resolved model: where to send requests, with which key, for which
/// model.
#[derive(Debug)]
pub struct ResolvedModel {
    pub api_url: String,
    pub api_key: String,
    pub model_id: String,
}

/// The response-token limit when the configuration names none.
pub fn default_max_tokens() -> (r: u32)
    ensures
        r == 4096,
{
    4096
}

/// The turn limit when the configuration names none.
pub fn default_max_turns() -> (r: usize)
    ensures
        r == 50,
{
    50
}

/// The hiko executable when the configuration names none.
pub fn default_hiko_bin() -> (r: String)
    ensures
        r@ == "hiko-cli"@,
{
    to_string("hiko-cli")
}

/// The tool policy file when the configuration names none.
pub fn default_hiko_config() -> (r: String)
    ensures
        r@ == "policies/harness-tools.policy.toml"@,
{
    to_string("policies/harness-tools.policy.toml")
}

/// Whether tools run in strict mode when the configuration does not say.
pub fn default_hiko_strict() -> (r: bool)
    ensures
        r,
{
    true
}

impl Default for HikoConfig {
    fn default() -> (r: Self)
        ensures
            r.bin@ == "hiko-cli"@,
            r.config@ == "policies/harness-tools.policy.toml"@,
            r.strict,
    {
        HikoConfig { bin: default_hiko_bin(), config: default_hiko_config(), strict: default_hiko_strict() }
    }
}

/// The value of the first entry named `key`.
pub open spec fn lookup<V>(entries: Seq<(String, V)>, key: Seq<char>) -> Option<V>
    decreases entries.len(),
{
    if entries.len() == 0 {
        None
    } else if entries[0].0@ == key {
        Some(entries[0].1)
    } else {
        lookup(entries.drop_first(), key)
    }
}

/// The position of the first entry named `key`.
fn find_entry<V>(entries: &Vec<(String, V)>, key: &str) -> (r: Option<usize>)
    ensures
        match r {
            Some(i) => i < entries@.len() && lookup(entries@, key@) == Some(entries@[i as int].1),
            None => lookup(entries@, key@) is None,
        },
{
    let mut i: usize = 0;
    assert(entries@.subrange(0, entries@.len() as int) =~= entries@);
    while i < entries.len()
        invariant
            i <= entries@.len(),
            lookup(entries@, key@) == lookup(entries@.subrange(i as int, entries@.len() as int), key@),
        decreases entries@.len() - i,
    {
        let ghost rest = entries@.subrange(i as int, entries@.len() as int);
        assert(rest[0] == entries@[i as int]);
        assert(rest.drop_first() =~= entries@.subrange(i + 1, entries@.len() as int));
        if str_eq(entries[i].0.as_str(), key) {
            return Some(i);
        }
        i = i + 1;
    }
    None
}

/// The key held by the environment variable `env_var` (none needed when it
/// is empty), the environment given as its variables and values.
pub open spec fn api_key_of(env_var: Seq<char>, env: Seq<(String, String)>) -> Result<Seq<char>, Seq<char>> {
    if env_var.len() == 0 {
        Ok(Seq::empty())
    } else {
        match lookup(env, env_var) {
            Some(v) => Ok(v@),
            None => Err("environment variable '"@ + env_var + "' not set"@),
        }
    }
}

/// A model at a provider: its endpoint, key and identifier.
pub open spec fn resolved_from(p: Provider, id: Seq<char>, env: Seq<(String, String)>) -> Result<
    (Seq<char>, Seq<char>, Seq<char>),
    Seq<char>,
> {
    match api_key_of(p.api_key_env@, env) {
        Ok(k) => Ok((p.api_url@, k, id)),
        Err(e) => Err(e),
    }
}

/// How a model name resolves, in this order: a role names a model (and the
/// rest of the steps read that model); a model alias names a provider and an
/// identifier; `provider/model` names both; anything else is a model of the
/// default provider.
pub open spec fn resolution(cfg: Config, name: Seq<char>, env: Seq<(String, String)>) -> Result<
    (Seq<char>, Seq<char>, Seq<char>),
    Seq<char>,
> {
    let model_name = match lookup(cfg.roles@, name) {
        Some(m) => m@,
        None => name,
    };
    match lookup(cfg.models@, model_name) {
        Some(alias) => match lookup(cfg.providers@, alias.provider@) {
            Some(p) => resolved_from(p, alias.id@, env),
            None => Err("provider '"@ + alias.provider@ + "' not found in config"@),
        },
        None => match find(model_name, "/"@) {
            Some(i) => {
                let pn = model_name.subrange(0, i);
                match lookup(cfg.providers@, pn) {
                    Some(p) => resolved_from(p, model_name.subrange(i + 1, model_name.len() as int), env),
                    None => Err("provider '"@ + pn + "' not found in config"@),
                }
            },
            None => match lookup(cfg.providers@, cfg.default.provider@) {
                Some(p) => resolved_from(p, model_name, env),
                None => Err("default provider '"@ + cfg.default.provider@ + "' not found"@),
            },
        },
    }
}

/// The model a resolution gives, or its error.
pub open spec fn resolved_as(r: Result<ResolvedModel, String>, t: Result<(Seq<char>, Seq<char>, Seq<char>), Seq<char>>) -> bool {
    match (r, t) {
        (Ok(m), Ok(v)) => m.api_url@ == v.0 && m.api_key@ == v.1 && m.model_id@ == v.2,
        (Err(e), Err(x)) => e@ == x,
        _ => false,
    }
}

/// The key a provider needs, read from the environment given.
fn resolve_api_key(env_var: &str, env: &Vec<(String, String)>) -> (r: Result<String, String>)
    ensures
        match (r, api_key_of(env_var@, env@)) {
            (Ok(k), Ok(x)) => k@ == x,
            (Err(e), Err(x)) => e@ == x,
            _ => false,
        },
{
    if env_var.is_empty() {
        return Ok(String::new());
    }
    match find_entry(env, env_var) {
        Some(i) => Ok(clone_string(&env[i].1)),
        None => {
            let mut msg = to_string("environment variable '");
            push_str(&mut msg, env_var);
            push_str(&mut msg, "' not set");
            Err(msg)
        },
    }
}

impl ResolvedModel {
    /// The model `model_id` at `provider`, its key read from `env`.
    pub fn from_provider(provider: &Provider, model_id: String, env: &Vec<(String, String)>) -> (r: Result<Self, String>)
        ensures
            resolved_as(r, resolved_from(*provider, model_id@, env@)),
    {
        match resolve_api_key(provider.api_key_env.as_str(), env) {
            Ok(api_key) => Ok(ResolvedModel { api_url: clone_string(&provider.api_url), api_key, model_id }),
            Err(e) => Err(e),
        }
    }
}

impl Config {
    /// Resolves a model name (a role, an alias, `provider/model`, or a model
    /// of the default provider) to its endpoint, key and identifier, the
    /// environment given as its variables and values.
    pub fn resolve_model(&self, name: &str, env: &Vec<(String, String)>) -> (r: Result<ResolvedModel, String>)
        ensures
            resolved_as(r, resolution(*self, name@, env@)),
    {
        let model_name = match find_entry(&self.roles, name) {
            Some(i) => clone_string(&self.roles[i].1),
            None => to_string(name),
        };
        if let Some(a) = find_entry(&self.models, model_name.as_str()) {
            let alias = &self.models[a].1;
            return match find_entry(&self.providers, alias.provider.as_str()) {
                Some(p) => ResolvedModel::from_provider(&self.providers[p].1, clone_string(&alias.id), env),
                None => {
                    let mut msg = to_string("provider '");
                    push_str(&mut msg, alias.provider.as_str());
                    push_str(&mut msg, "' not found in config");
                    Err(msg)
                },
            };
        }
        let cs = chars_of(model_name.as_str());
        let slash = chars_of("/");
        proof {
            reveal_strlit("/");
        }
        let n = cs.len();
        match find_chars(&cs, &slash, 0) {
            Some(i) => {
                proof {
                    lemma_find_from_bounds(cs@, slash@, 0);
                    assert(find_from_is(cs@, slash@, i as int));
                }
                let provider_name = string_between(&cs, 0, i);
                let model_id = string_between(&cs, i + 1, n);
                match find_entry(&self.providers, provider_name.as_str()) {
                    Some(p) => ResolvedModel::from_provider(&self.providers[p].1, model_id, env),
                    None => {
                        let mut msg = to_string("provider '");
                        push_str(&mut msg, provider_name.as_str());
                        push_str(&mut msg, "' not found in config");
                        Err(msg)
                    },
                }
            },
            None => match find_entry(&self.providers, self.default.provider.as_str()) {
                Some(p) => ResolvedModel::from_provider(&self.providers[p].1, clone_string(&model_name), env),
                None => {
                    let mut msg = to_string("default provider '");
                    push_str(&mut msg, self.default.provider.as_str());
                    push_str(&mut msg, "' not found");
                    Err(msg)
                },
            },
        }
    }
}

/// `p` occurs in `s` first at `i`.
pub open spec fn find_from_is(s: Seq<char>, p: Seq<char>, i: int) -> bool {
    crate::text::find_from(s, p, 0) == Some(i) && i + p.len() <= s.len()
}

// ── Messages ─────────────────────────────────────────────────────────────

/// A chat message: its role, its text, the tool calls it makes and the tool
/// call it answers.
pub struct Message {
    pub role: String,
    pub content: Option<String>,
    pub tool_calls: Option<Vec<ToolCall>>,
    pub tool_call_id: Option<String>,
}

/// A call of a tool by the model.
pub struct ToolCall {
    pub id: String,
    pub kind: String,
    pub function: FunctionCall,
}

/// The tool a call names and its arguments (as JSON text).
pub struct FunctionCall {
    pub name: String,
    pub arguments: String,
}

/// What a streamed reply has delivered so far.
pub struct StreamAccumulator {
    pub text: String,
    pub tool_calls: Vec<ToolCall>,
    pub finish_reason: Option<String>,
}

/// A call with both an identifier and a tool name.
pub open spec fn complete_call(tc: ToolCall) -> bool {
    tc.id@.len() > 0 && tc.function.name@.len() > 0
}

impl StreamAccumulator {
    /// Whether some tool call has both an identifier and a tool name.
    pub fn has_tool_calls(&self) -> (r: bool)
        ensures
            r == exists|i: int| 0 <= i < self.tool_calls@.len() && complete_call(#[trigger] self.tool_calls@[i]),
    {
        let mut i: usize = 0;
        while i < self.tool_calls.len()
            invariant
                i <= self.tool_calls@.len(),
                forall|k: int| 0 <= k < i ==> !complete_call(#[trigger] self.tool_calls@[k]),
            decreases self.tool_calls@.len() - i,
        {
            let tc = &self.tool_calls[i];
            if !tc.id.as_str().is_empty() && !tc.function.name.as_str().is_empty() {
                assert(complete_call(self.tool_calls@[i as int]));
                return true;
            }
            i = i + 1;
        }
        false
    }
}

// ── Display ──────────────────────────────────────────────────────────────

/// The number of bytes UTF-8 takes for `c`.
pub open spec fn utf8_width(c: char) -> nat {
    if (c as u32) < 0x80 {
        1
    } else if (c as u32) < 0x800 {
        2
    } else if (c as u32) < 0x10000 {
        3
    } else {
        4
    }
}

/// The number of bytes UTF-8 takes for `s`.
pub open spec fn utf8_len(s: Seq<char>) -> nat
    decreases s.len(),
{
    if s.len() == 0 {
        0
    } else {
        utf8_len(s.drop_last()) + utf8_width(s.last())
    }
}

/// The characters of `s` that start before byte `max`.
pub open spec fn chars_before(s: Seq<char>, max: nat) -> nat
    decreases s.len(),
{
    if s.len() == 0 {
        0
    } else if utf8_len(s.drop_last()) < max {
        chars_before(s.drop_last(), max) + 1
    } else {
        chars_before(s.drop_last(), max)
    }
}

/// `s` cut for display: whole when it fits in `max` bytes, else the
/// characters that start before byte `max` and an ellipsis.
pub open spec fn truncated(s: Seq<char>, max: nat) -> Seq<char> {
    if utf8_len(s) <= max {
        s
    } else {
        s.take(chars_before(s, max) as int) + "..."@
    }
}

fn char_width(c: char) -> (r: usize)
    ensures
        r == utf8_width(c),
{
    let v = c as u32;
    if v < 0x80 {
        1
    } else if v < 0x800 {
        2
    } else if v < 0x10000 {
        3
    } else {
        4
    }
}

/// Cuts `s` for display to about `max` bytes.
pub fn truncate(s: &str, max: usize) -> (r: String)
    ensures
        r@ == truncated(s@, max as nat),
{
    let cs = chars_of(s);
    let mut total: u128 = 0;
    let mut count: usize = 0;
    let mut i: usize = 0;
    while i < cs.len()
        invariant
            i <= cs@.len(),
            cs@ == s@,
            total as nat == utf8_len(cs@.take(i as int)),
            total <= 4 * i,
            count as nat == chars_before(cs@.take(i as int), max as nat),
            count <= i,
        decreases cs@.len() - i,
    {
        let w = char_width(cs[i]);
        proof {
            let pre = cs@.take(i + 1);
            assert(pre.drop_last() =~= cs@.take(i as int));
        }
        if total < max as u128 {
            count = count + 1;
        }
        total = total + w as u128;
        i = i + 1;
    }
    assert(cs@.take(cs@.len() as int) =~= cs@);
    if total <= max as u128 {
        return to_string(s);
    }
    let mut out = string_between(&cs, 0, count);
    push_str(&mut out, "...");
    assert(cs@.subrange(0, count as int) =~= cs@.take(count as int));
    out
}

} // verus!
