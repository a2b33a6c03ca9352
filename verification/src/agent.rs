//! The agent's conversation loop, as the decisions between its outside steps:
//! the driver sends the conversation to the model when told to ask, runs the
//! tools the model calls, and hands back each reply and each tool result.
use vstd::prelude::*;
use crate::harness::{complete_call, AgentConfig, FunctionCall, Message, StreamAccumulator, ToolCall};
use crate::syntax::pretty::{digits, push_digits};
use crate::text::{clone_string, push_str, to_string};

verus! {

/// `m` carries only a role and a text.
pub open spec fn plain_message(m: Message, role: Seq<char>, content: Seq<char>) -> bool {
    &&& m.role@ == role
    &&& m.content matches Some(c) && c@ == content
    &&& m.tool_calls is None
    &&& m.tool_call_id is None
}

/// `b` is the call `a` as the conversation records it: a function call with
/// the same identifier, tool and arguments.
pub open spec fn recorded_call(a: ToolCall, b: ToolCall) -> bool {
    &&& b.id@ == a.id@
    &&& b.kind@ == "function"@
    &&& b.function.name@ == a.function.name@
    &&& b.function.arguments@ == a.function.arguments@
}

/// Whether a reply calls tools: some call has an identifier and a tool name.
pub open spec fn calls_tools(reply: StreamAccumulator) -> bool {
    exists|i: int| 0 <= i < reply.tool_calls@.len() && complete_call(#[trigger] reply.tool_calls@[i])
}

/// The error once the model has been asked `max` times without a final answer.
pub open spec fn turns_exceeded(max: usize) -> Seq<char> {
    "agent exceeded max turns ("@ + digits(max as nat) + ")"@
}

/// The text a tool result adds to the conversation.
pub open spec fn tool_reply_text(result: Result<String, String>) -> Seq<char> {
    match result {
        Ok(out) => out@,
        Err(e) => "Error: "@ + e@,
    }
}

/// What the driver is to do next.
pub enum AgentStep {
    /// Send the conversation to the model.
    Ask,
    /// Run these calls, in order, and hand back each result.
    RunTools(Vec<ToolCall>),
    /// The model's final answer.
    Done(String),
    /// The run failed with this message.
    Failed(String),
}

/// An agent: its settings, the conversation so far, and how many times the
/// model has answered with tool calls in the current run.
pub struct Agent {
    config: AgentConfig,
    messages: Vec<Message>,
    turns: usize,
}

impl Agent {
    /// The conversation so far.
    pub closed spec fn history(&self) -> Seq<Message> {
        self.messages@
    }

    /// The model replies of the current run that called tools.
    pub closed spec fn turns_taken(&self) -> nat {
        self.turns as nat
    }

    /// The agent's settings.
    pub closed spec fn settings(&self) -> AgentConfig {
        self.config
    }

    /// A run never takes more turns than the settings allow.
    pub open spec fn wf(&self) -> bool {
        self.turns_taken() <= self.settings().max_turns
    }

    /// A new agent; its conversation opens with the system prompt, if any.
    pub fn new(config: AgentConfig) -> (r: Agent)
        ensures
            r.wf(),
            r.settings() == config,
            r.turns_taken() == 0,
            config.system_prompt@.len() == 0 ==> r.history().len() == 0,
            config.system_prompt@.len() > 0 ==> r.history().len() == 1 && plain_message(
                r.history()[0],
                "system"@,
                config.system_prompt@,
            ),
    {
        let mut messages: Vec<Message> = Vec::new();
        if !config.system_prompt.as_str().is_empty() {
            messages.push(
                Message {
                    role: to_string("system"),
                    content: Some(clone_string(&config.system_prompt)),
                    tool_calls: None,
                    tool_call_id: None,
                },
            );
        }
        Agent { config, messages, turns: 0 }
    }

    /// The conversation to send to the model.
    pub fn messages(&self) -> (r: &Vec<Message>)
        ensures
            r@ == self.history(),
    {
        &self.messages
    }

    /// Ask, or fail once the turns are used up.
    fn ask_or_fail(&self) -> (r: AgentStep)
        ensures
            self.turns_taken() < self.settings().max_turns ==> r is Ask,
            self.turns_taken() >= self.settings().max_turns ==> (r matches AgentStep::Failed(m) && m@ == turns_exceeded(
                self.settings().max_turns,
            )),
    {
        if self.turns < self.config.max_turns {
            AgentStep::Ask
        } else {
            let mut m = to_string("agent exceeded max turns (");
            push_digits(&mut m, self.config.max_turns as u64);
            push_str(&mut m, ")");
            AgentStep::Failed(m)
        }
    }

    /// Starts a run with the user's message: it joins the conversation and the
    /// model is asked, unless no turn is allowed at all.
    pub fn start(&mut self, user_message: &str) -> (r: AgentStep)
        ensures
            final(self).wf(),
            final(self).settings() == old(self).settings(),
            final(self).turns_taken() == 0,
            final(self).history().len() == old(self).history().len() + 1,
            final(self).history().drop_last() == old(self).history(),
            plain_message(final(self).history().last(), "user"@, user_message@),
            old(self).settings().max_turns > 0 ==> r is Ask,
            old(self).settings().max_turns == 0 ==> (r matches AgentStep::Failed(m) && m@ == turns_exceeded(
                old(self).settings().max_turns,
            )),
    {
        self.messages.push(
            Message {
                role: to_string("user"),
                content: Some(to_string(user_message)),
                tool_calls: None,
                tool_call_id: None,
            },
        );
        self.turns = 0;
        self.ask_or_fail()
    }

    /// Takes the model's reply. One that calls tools is recorded with its
    /// calls, which the driver is then to run; any other is the final answer.
    pub fn on_reply(&mut self, reply: StreamAccumulator) -> (r: AgentStep)
        requires
            old(self).turns_taken() < old(self).settings().max_turns,
        ensures
            final(self).wf(),
            final(self).settings() == old(self).settings(),
            final(self).history().len() == old(self).history().len() + 1,
            final(self).history().drop_last() == old(self).history(),
            final(self).history().last().role@ == "assistant"@,
            final(self).history().last().tool_call_id is None,
            calls_tools(reply) ==> {
                &&& final(self).turns_taken() == old(self).turns_taken() + 1
                &&& reply.text@.len() == 0 ==> final(self).history().last().content is None
                &&& reply.text@.len() > 0 ==> (final(self).history().last().content matches Some(c) && c@
                    == reply.text@)
                &&& final(self).history().last().tool_calls matches Some(cs) && cs@.len() == reply.tool_calls@.len()
                    && forall|k: int|
                    0 <= k < cs@.len() ==> recorded_call(#[trigger] reply.tool_calls@[k], cs@[k])
                &&& r == AgentStep::RunTools(reply.tool_calls)
            },
            !calls_tools(reply) ==> {
                &&& final(self).turns_taken() == old(self).turns_taken()
                &&& plain_message(final(self).history().last(), "assistant"@, reply.text@)
                &&& r matches AgentStep::Done(t) && t@ == reply.text@
            },
    {
        if reply.has_tool_calls() {
            let mut recorded: Vec<ToolCall> = Vec::new();
            let mut i: usize = 0;
            while i < reply.tool_calls.len()
                invariant
                    i <= reply.tool_calls@.len(),
                    recorded@.len() == i,
                    forall|k: int| 0 <= k < i ==> recorded_call(#[trigger] reply.tool_calls@[k], recorded@[k]),
                decreases reply.tool_calls@.len() - i,
            {
                let tc = &reply.tool_calls[i];
                recorded.push(
                    ToolCall {
                        id: clone_string(&tc.id),
                        kind: to_string("function"),
                        function: FunctionCall {
                            name: clone_string(&tc.function.name),
                            arguments: clone_string(&tc.function.arguments),
                        },
                    },
                );
                i = i + 1;
            }
            let content = if reply.text.as_str().is_empty() {
                None
            } else {
                Some(clone_string(&reply.text))
            };
            self.messages.push(
                Message {
                    role: to_string("assistant"),
                    content,
                    tool_calls: Some(recorded),
                    tool_call_id: None,
                },
            );
            self.turns = self.turns + 1;
            AgentStep::RunTools(reply.tool_calls)
        } else {
            let text = clone_string(&reply.text);
            self.messages.push(
                Message {
                    role: to_string("assistant"),
                    content: Some(reply.text),
                    tool_calls: None,
                    tool_call_id: None,
                },
            );
            AgentStep::Done(text)
        }
    }

    /// Takes the result of the tool call `call_id`; an error is recorded as
    /// its message after "Error: ".
    pub fn on_tool_result(&mut self, call_id: &str, result: Result<String, String>)
        ensures
            final(self).wf() == old(self).wf(),
            final(self).settings() == old(self).settings(),
            final(self).turns_taken() == old(self).turns_taken(),
            final(self).history().len() == old(self).history().len() + 1,
            final(self).history().drop_last() == old(self).history(),
            final(self).history().last().role@ == "tool"@,
            final(self).history().last().content matches Some(c) && c@ == tool_reply_text(result),
            final(self).history().last().tool_calls is None,
            final(self).history().last().tool_call_id matches Some(id) && id@ == call_id@,
    {
        let ghost text = tool_reply_text(result);
        let content = match result {
            Ok(out) => out,
            Err(e) => {
                let mut m = to_string("Error: ");
                push_str(&mut m, e.as_str());
                m
            },
        };
        self.messages.push(
            Message {
                role: to_string("tool"),
                content: Some(content),
                tool_calls: None,
                tool_call_id: Some(to_string(call_id)),
            },
        );
    }

    /// After the tool results: ask the model again, or fail once the run has
    /// used all its turns.
    pub fn after_tools(&self) -> (r: AgentStep)
        ensures
            self.turns_taken() < self.settings().max_turns ==> r is Ask,
            self.turns_taken() >= self.settings().max_turns ==> (r matches AgentStep::Failed(m) && m@ == turns_exceeded(
                self.settings().max_turns,
            )),
    {
        self.ask_or_fail()
    }
}

} // verus!
