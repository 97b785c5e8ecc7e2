//! The messages, tool calls and tool definitions of the OpenAI-compatible
//! chat-completions protocol.
use vstd::prelude::*;

verus! {

/// A function invocation requested by the model.
#[derive(Debug, Clone)]
pub struct FunctionCall {
    pub name: String,
    /// The call's arguments, a JSON object as text.
    pub arguments: String,
}

/// One tool call of an assistant message.
#[derive(Debug, Clone)]
pub struct ToolCall {
    pub id: String,
    pub function: FunctionCall,
}

pub struct ToolCallView {
    pub id: Seq<char>,
    pub name: Seq<char>,
    pub arguments: Seq<char>,
}

impl View for ToolCall {
    type V = ToolCallView;

    open spec fn view(&self) -> ToolCallView {
        ToolCallView { id: self.id@, name: self.function.name@, arguments: self.function.arguments@ }
    }
}

/// One message of a conversation.
#[derive(Debug, Clone)]
pub struct ChatMessage {
    /// "system", "user", "assistant" or "tool".
    pub role: String,
    pub content: Option<String>,
    pub tool_calls: Option<Vec<ToolCall>>,
    /// For a "tool" message, the id of the call it answers.
    pub tool_call_id: Option<String>,
}

pub struct MessageView {
    pub role: Seq<char>,
    pub content: Option<Seq<char>>,
    pub tool_calls: Option<Seq<ToolCallView>>,
    pub tool_call_id: Option<Seq<char>>,
}

pub open spec fn opt_string_view(s: Option<String>) -> Option<Seq<char>> {
    match s {
        Some(s) => Some(s@),
        None => None,
    }
}

/// The views of a sequence of tool calls.
pub open spec fn call_views(s: Seq<ToolCall>) -> Seq<ToolCallView> {
    s.map_values(|c: ToolCall| c@)
}

pub open spec fn tool_calls_view(calls: Option<Vec<ToolCall>>) -> Option<Seq<ToolCallView>> {
    match calls {
        Some(v) => Some(call_views(v@)),
        None => None,
    }
}

impl View for ChatMessage {
    type V = MessageView;

    open spec fn view(&self) -> MessageView {
        MessageView {
            role: self.role@,
            content: opt_string_view(self.content),
            tool_calls: tool_calls_view(self.tool_calls),
            tool_call_id: opt_string_view(self.tool_call_id),
        }
    }
}

pub open spec fn system_message_view(content: Seq<char>) -> MessageView {
    MessageView { role: "system"@, content: Some(content), tool_calls: None, tool_call_id: None }
}

pub open spec fn user_message_view(content: Seq<char>) -> MessageView {
    MessageView { role: "user"@, content: Some(content), tool_calls: None, tool_call_id: None }
}

pub open spec fn tool_result_view(call_id: Seq<char>, content: Seq<char>) -> MessageView {
    MessageView {
        role: "tool"@,
        content: Some(content),
        tool_calls: None,
        tool_call_id: Some(call_id),
    }
}

/// A copy of an optional string.
pub fn copy_opt_string(s: &Option<String>) -> (r: Option<String>)
    ensures
        opt_string_view(r) == opt_string_view(*s),
{
    match s {
        Some(t) => Some(t.clone()),
        None => None,
    }
}

impl ToolCall {
    /// A copy with the same view.
    pub fn copy(&self) -> (r: ToolCall)
        ensures
            r@ == self@,
    {
        ToolCall {
            id: self.id.clone(),
            function: FunctionCall {
                name: self.function.name.clone(),
                arguments: self.function.arguments.clone(),
            },
        }
    }
}

/// A copy of a list of tool calls.
pub fn copy_tool_calls(calls: &Vec<ToolCall>) -> (r: Vec<ToolCall>)
    ensures
        call_views(r@) == call_views(calls@),
{
    let mut r: Vec<ToolCall> = Vec::new();
    let n = calls.len();
    let mut i: usize = 0;
    while i < n
        invariant
            n == calls@.len(),
            i <= n,
            r@.len() == i,
            call_views(r@) == call_views(calls@.take(i as int)),
        decreases n - i,
    {
        let c = calls[i].copy();
        let ghost old_r = r@;
        r.push(c);
        proof {
            assert(calls@.take(i + 1) =~= calls@.take(i as int).push(calls@[i as int]));
            assert forall|j: int| 0 <= j < i + 1 implies #[trigger] call_views(r@)[j]
                == call_views(calls@.take(i + 1))[j] by {
                if j < i {
                    assert(r@[j] == old_r[j]);
                    assert(call_views(old_r)[j] == call_views(calls@.take(i as int))[j]);
                }
            }
            assert(call_views(r@) =~= call_views(calls@.take(i + 1)));
        }
        i = i + 1;
    }
    proof {
        assert(calls@.take(n as int) =~= calls@);
    }
    r
}

impl ChatMessage {
    pub fn system(content: String) -> (m: ChatMessage)
        ensures
            m@ == system_message_view(content@),
    {
        ChatMessage {
            role: String::from_str("system"),
            content: Some(content),
            tool_calls: None,
            tool_call_id: None,
        }
    }

    pub fn user(content: String) -> (m: ChatMessage)
        ensures
            m@ == user_message_view(content@),
    {
        ChatMessage {
            role: String::from_str("user"),
            content: Some(content),
            tool_calls: None,
            tool_call_id: None,
        }
    }

    pub fn tool_result(call_id: String, content: String) -> (m: ChatMessage)
        ensures
            m@ == tool_result_view(call_id@, content@),
    {
        ChatMessage {
            role: String::from_str("tool"),
            content: Some(content),
            tool_calls: None,
            tool_call_id: Some(call_id),
        }
    }

    /// A copy with the same view.
    pub fn copy(&self) -> (r: ChatMessage)
        ensures
            r@ == self@,
    {
        let calls = match &self.tool_calls {
            Some(v) => Some(copy_tool_calls(v)),
            None => None,
        };
        ChatMessage {
            role: self.role.clone(),
            content: copy_opt_string(&self.content),
            tool_calls: calls,
            tool_call_id: copy_opt_string(&self.tool_call_id),
        }
    }

    /// This message with its content replaced.
    pub fn with_content(&self, content: String) -> (r: ChatMessage)
        ensures
            r@ == (MessageView { content: Some(content@), ..self@ }),
    {
        let mut r = self.copy();
        r.content = Some(content);
        r
    }
}

/// One choice of a completion.
#[derive(Debug, Clone)]
pub struct Choice {
    pub message: ChatMessage,
}

/// A parsed chat-completions reply.
#[derive(Debug, Clone)]
pub struct ChatCompletionResponse {
    pub choices: Vec<Choice>,
}

/// A JSON value, as tool parameter schemas are written.
#[derive(Debug)]
pub enum JsonValue {
    Null,
    Bool(bool),
    Int(i64),
    Str(String),
    Array(Vec<JsonValue>),
    Object(Vec<(String, JsonValue)>),
}

/// `JsonValue` as mathematical values.
pub enum JsonView {
    Null,
    Bool(bool),
    Int(int),
    Str(Seq<char>),
    Array(Seq<JsonView>),
    Object(Seq<(Seq<char>, JsonView)>),
}

pub open spec fn json_view(j: JsonValue) -> JsonView
    decreases j,
{
    match j {
        JsonValue::Null => JsonView::Null,
        JsonValue::Bool(b) => JsonView::Bool(b),
        JsonValue::Int(i) => JsonView::Int(i as int),
        JsonValue::Str(s) => JsonView::Str(s@),
        JsonValue::Array(v) => JsonView::Array(
            Seq::new(v@.len(), |i: int| if 0 <= i < v@.len() { json_view(v@[i]) } else { JsonView::Null }),
        ),
        JsonValue::Object(v) => JsonView::Object(
            Seq::new(
                v@.len(),
                |i: int|
                    if 0 <= i < v@.len() {
                        (v@[i].0@, json_view(v@[i].1))
                    } else {
                        (Seq::empty(), JsonView::Null)
                    },
            ),
        ),
    }
}

/// The function part of a tool definition.
#[derive(Debug)]
pub struct FunctionDef {
    pub name: String,
    pub description: String,
    /// A JSON schema of the arguments.
    pub parameters: JsonValue,
}

/// A tool offered to the model (always of type "function").
#[derive(Debug)]
pub struct ToolDef {
    pub function: FunctionDef,
}

impl ToolDef {
    pub fn new(name: &str, description: &str, parameters: JsonValue) -> (t: ToolDef)
        ensures
            t.function.name@ == name@,
            t.function.description@ == description@,
            t.function.parameters == parameters,
    {
        ToolDef {
            function: FunctionDef {
                name: String::from_str(name),
                description: String::from_str(description),
                parameters,
            },
        }
    }
}

} // verus!
