//! Conversation data model: chat messages, tool calls, tool definitions and
//! provider responses, in the OpenAI function-calling shape.

use vstd::prelude::*;

verus! {

/// The function name and arguments for a tool call.
#[derive(Clone, Debug)]
pub struct FunctionCall {
    pub name: String,
    /// JSON-encoded arguments string.
    pub arguments: String,
}

/// A tool call requested by the model. The `id` is opaque and assigned by
/// the provider; the kernel never rewrites it.
#[derive(Clone, Debug)]
pub struct ToolCall {
    pub id: String,
    pub function: FunctionCall,
}

/// A message in a multi-turn conversation with tool support.
#[derive(Clone, Debug)]
pub enum ChatMessage {
    System { content: String },
    User { content: String },
    Assistant { content: Option<String>, tool_calls: Option<Vec<ToolCall>> },
    Tool { tool_call_id: String, content: String },
}

/// Function metadata for a tool definition. `parameters` holds the
/// JSON-Schema object for the arguments, as JSON text.
#[derive(Clone, Debug)]
pub struct FunctionDef {
    pub name: String,
    pub description: String,
    pub parameters: String,
}

/// A tool definition sent to the API; `kind` is always `"function"`.
#[derive(Clone, Debug)]
pub struct ToolDefinition {
    pub kind: String,
    pub function: FunctionDef,
}

/// What a tool advertises to the registry: name, description and the
/// JSON-Schema text of its argument contract.
#[derive(Clone, Debug)]
pub struct ToolSpec {
    pub name: String,
    pub description: String,
    pub parameters: String,
}

/// The outcome of one tool invocation.
#[derive(Clone, Debug)]
pub struct ToolResult {
    pub success: bool,
    pub output: String,
    pub error: Option<String>,
}

/// Response from a provider that supports tool calling.
#[derive(Clone, Debug)]
pub enum ChatResponse {
    /// Pure text response (no tool calls).
    Text(String),
    /// Model wants to call one or more tools, with an optional preamble.
    ToolUse { tool_calls: Vec<ToolCall>, text: Option<String> },
}

/// Mathematical model of a tool call: the opaque id, the function name and
/// the JSON arguments text.
pub struct CallModel {
    pub id: Seq<char>,
    pub name: Seq<char>,
    pub arguments: Seq<char>,
}

/// Mathematical model of a chat message.
pub enum MsgModel {
    System { content: Seq<char> },
    User { content: Seq<char> },
    Assistant { content: Option<Seq<char>>, tool_calls: Option<Seq<CallModel>> },
    Tool { tool_call_id: Seq<char>, content: Seq<char> },
}

impl View for ToolCall {
    type V = CallModel;

    open spec fn view(&self) -> CallModel {
        CallModel { id: self.id@, name: self.function.name@, arguments: self.function.arguments@ }
    }
}

impl View for ChatMessage {
    type V = MsgModel;

    open spec fn view(&self) -> MsgModel {
        match self {
            ChatMessage::System { content } => MsgModel::System { content: content@ },
            ChatMessage::User { content } => MsgModel::User { content: content@ },
            ChatMessage::Assistant { content, tool_calls } => MsgModel::Assistant {
                content: match content {
                    Some(c) => Some(c@),
                    None => None,
                },
                tool_calls: match tool_calls {
                    Some(v) => Some(v@.map_values(|t: ToolCall| t@)),
                    None => None,
                },
            },
            ChatMessage::Tool { tool_call_id, content } => MsgModel::Tool {
                tool_call_id: tool_call_id@,
                content: content@,
            },
        }
    }
}

/// The model of a whole history.
pub open spec fn hist_model(h: Seq<ChatMessage>) -> Seq<MsgModel> {
    h.map_values(|m: ChatMessage| m@)
}

impl ToolCall {
    /// A copy whose model equals this call's model.
    pub fn duplicate(&self) -> (r: ToolCall)
        ensures
            r@ == self@,
    {
        ToolCall {
            id: self.id.clone(),
            function: FunctionCall {
                name: self.function.name.clone(),
                arguments: self.function.arguments.clone(),
            },
        }
    }
}

/// A copy of a tool-call list, equal in model to the original.
pub fn duplicate_calls(v: &Vec<ToolCall>) -> (r: Vec<ToolCall>)
    ensures
        r@.map_values(|t: ToolCall| t@) == v@.map_values(|t: ToolCall| t@),
{
    let mut r: Vec<ToolCall> = Vec::new();
    let mut i: usize = 0;
    while i < v.len()
        invariant
            i <= v@.len(),
            r@.len() == i,
            forall|j: int| 0 <= j < i ==> (#[trigger] r@[j])@ == v@[j]@,
        decreases v@.len() - i,
    {
        r.push(v[i].duplicate());
        i = i + 1;
    }
    proof {
        assert(r@.map_values(|t: ToolCall| t@) =~= v@.map_values(|t: ToolCall| t@));
    }
    r
}

impl ChatMessage {
    /// A copy whose model equals this message's model.
    pub fn duplicate(&self) -> (r: ChatMessage)
        ensures
            r@ == self@,
    {
        match self {
            ChatMessage::System { content } => ChatMessage::System { content: content.clone() },
            ChatMessage::User { content } => ChatMessage::User { content: content.clone() },
            ChatMessage::Assistant { content, tool_calls } => {
                let c = match content {
                    Some(s) => Some(s.clone()),
                    None => None,
                };
                let t = match tool_calls {
                    Some(v) => Some(duplicate_calls(v)),
                    None => None,
                };
                ChatMessage::Assistant { content: c, tool_calls: t }
            },
            ChatMessage::Tool { tool_call_id, content } => ChatMessage::Tool {
                tool_call_id: tool_call_id.clone(),
                content: content.clone(),
            },
        }
    }
}

/// Convert a `ToolSpec` (from the tool registry) into a `ToolDefinition`
/// (for the API).
pub fn tool_spec_to_definition(spec: &ToolSpec) -> (d: ToolDefinition)
    ensures
        d.kind@ == "function"@,
        d.function.name@ == spec.name@,
        d.function.description@ == spec.description@,
        d.function.parameters@ == spec.parameters@,
{
    ToolDefinition {
        kind: "function".to_owned(),
        function: FunctionDef {
            name: spec.name.clone(),
            description: spec.description.clone(),
            parameters: spec.parameters.clone(),
        },
    }
}

} // verus!
