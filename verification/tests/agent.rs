use hiko::agent::{Agent, AgentStep};
use hiko::harness::{AgentConfig, FunctionCall, StreamAccumulator, ToolCall};
use hiko::tools::{name_less, parse_tool_metadata, tool_guide, trim, Tool, ToolRunner};

fn config(prompt: &str, max_turns: usize) -> AgentConfig {
    AgentConfig {
        model: "m".to_string(),
        system_prompt: prompt.to_string(),
        max_turns,
        max_tokens: 100,
    }
}

fn call(id: &str, name: &str, args: &str) -> ToolCall {
    ToolCall {
        id: id.to_string(),
        kind: String::new(),
        function: FunctionCall { name: name.to_string(), arguments: args.to_string() },
    }
}

fn reply(text: &str, calls: Vec<ToolCall>) -> StreamAccumulator {
    StreamAccumulator { text: text.to_string(), tool_calls: calls, finish_reason: None }
}

#[test]
fn system_prompt_opens_the_conversation() {
    let a = Agent::new(config("be brief", 3));
    assert_eq!(a.messages().len(), 1);
    assert_eq!(a.messages()[0].role, "system");
    assert_eq!(a.messages()[0].content.as_deref(), Some("be brief"));
    let b = Agent::new(config("", 3));
    assert!(b.messages().is_empty());
}

#[test]
fn a_reply_without_tool_calls_is_the_answer() {
    let mut a = Agent::new(config("", 3));
    assert!(matches!(a.start("hi"), AgentStep::Ask));
    match a.on_reply(reply("hello", vec![])) {
        AgentStep::Done(t) => assert_eq!(t, "hello"),
        _ => panic!("expected the answer"),
    }
    let m = a.messages();
    assert_eq!(m.len(), 2);
    assert_eq!(m[0].role, "user");
    assert_eq!(m[0].content.as_deref(), Some("hi"));
    assert_eq!(m[1].role, "assistant");
    assert_eq!(m[1].content.as_deref(), Some("hello"));
}

#[test]
fn tool_calls_are_recorded_run_and_answered() {
    let mut a = Agent::new(config("", 3));
    a.start("read it");
    let calls = match a.on_reply(reply("", vec![call("c1", "read", "{\"path\":\"a\"}")])) {
        AgentStep::RunTools(calls) => calls,
        _ => panic!("expected tool calls"),
    };
    assert_eq!(calls.len(), 1);
    assert_eq!(calls[0].function.name, "read");
    {
        let m = a.messages();
        assert_eq!(m[1].role, "assistant");
        assert!(m[1].content.is_none());
        let recorded = m[1].tool_calls.as_ref().unwrap();
        assert_eq!(recorded[0].kind, "function");
        assert_eq!(recorded[0].id, "c1");
    }
    a.on_tool_result("c1", Err("no such file".to_string()));
    {
        let m = a.messages();
        assert_eq!(m[2].role, "tool");
        assert_eq!(m[2].content.as_deref(), Some("Error: no such file"));
        assert_eq!(m[2].tool_call_id.as_deref(), Some("c1"));
    }
    assert!(matches!(a.after_tools(), AgentStep::Ask));
}

#[test]
fn the_run_fails_when_turns_are_used_up() {
    let mut a = Agent::new(config("", 1));
    a.start("go");
    a.on_reply(reply("thinking", vec![call("c1", "t", "{}")]));
    a.on_tool_result("c1", Ok("done".to_string()));
    match a.after_tools() {
        AgentStep::Failed(m) => assert_eq!(m, "agent exceeded max turns (1)"),
        _ => panic!("expected failure"),
    }
    let mut b = Agent::new(config("", 0));
    match b.start("go") {
        AgentStep::Failed(m) => assert_eq!(m, "agent exceeded max turns (0)"),
        _ => panic!("expected failure"),
    }
}

#[test]
fn runner_arguments_follow_the_command_line() {
    let mut r = ToolRunner::standard();
    r.manifest_path = "/p/tool.policy.toml".to_string();
    let args = r.command_args("/p/echo_path.hml");
    assert_eq!(
        args,
        vec!["run", "--strict", "--config", "/p/tool.policy.toml", "--policy", "harness-tools", "/p/echo_path.hml"]
    );
    r.strict = false;
    assert_eq!(r.command_args("s.hml")[1], "--config");
}

fn tool(name: &str, description: &str, notes: &str) -> Tool {
    Tool {
        name: name.to_string(),
        description: description.to_string(),
        notes: notes.to_string(),
        script_path: format!("{name}.hml"),
    }
}

#[test]
fn tool_guide_includes_notes() {
    let tools = vec![tool("beta", "Beta tool", ""), tool("alpha", "Alpha tool", "Alpha notes here.")];
    let guide = tool_guide(&tools);
    assert!(guide.contains("### alpha"));
    assert!(guide.contains("Alpha notes here."));
    assert!(guide.contains("### beta"));
    assert!(guide.contains("Beta tool"));
    assert_eq!(
        guide,
        "## Tools\n\n### alpha\nAlpha tool\nAlpha notes here.\n\n### beta\nBeta tool\n"
    );
}

#[test]
fn names_order_by_character_then_length() {
    assert!(name_less(&"ab".to_string(), &"b".to_string()));
    assert!(name_less(&"a".to_string(), &"ab".to_string()));
    assert!(!name_less(&"b".to_string(), &"ab".to_string()));
    assert!(!name_less(&"a".to_string(), &"a".to_string()));
}

#[test]
fn parse_notes_from_tool_metadata() {
    let source = "\
(* tool: read
 * description: Read a file with anchors
 * param path: string - File path
 *
 * notes: Returns lines as LINE:HASH\\tCONTENT.
 * Use offset and limit for large files.
 *)
val _ = ()
";
    let meta = parse_tool_metadata(source, "read");
    assert_eq!(meta.description, "Read a file with anchors");
    assert!(meta.notes.contains("LINE:HASH"));
    assert!(meta.notes.contains("offset and limit"));
}

#[test]
fn tool_metadata_reads_parameters_and_defaults() {
    let source = "(* tool: t\n * param path: string - File path\n * param n: number - How many\n * param f: boolean - A flag\n * param bad line\n *)\n";
    let meta = parse_tool_metadata(source, "t");
    assert_eq!(meta.description, "Tool: t");
    assert_eq!(meta.notes, "");
    assert_eq!(meta.params.len(), 3);
    assert_eq!(meta.params[0].name, "path");
    assert_eq!(meta.params[0].json_type, "string");
    assert_eq!(meta.params[0].description, "File path");
    assert_eq!(meta.params[1].json_type, "integer");
    assert_eq!(meta.params[2].json_type, "boolean");
    let none = parse_tool_metadata("val x = 1", "plain");
    assert_eq!(none.description, "Tool: plain");
    assert!(none.params.is_empty());
}

#[test]
fn notes_keep_blank_lines_as_spaces_and_stop_at_a_field() {
    let source = "(*\n * notes: first\n *\n * second\n * description: D\n * after\n *)";
    let meta = parse_tool_metadata(source, "x");
    assert_eq!(meta.notes, "first  second");
    assert_eq!(meta.description, "D");
}

#[test]
fn trim_removes_unicode_white_space() {
    assert_eq!(trim("\u{3000} a b \t\n"), "a b");
    assert_eq!(trim("   "), "");
}
