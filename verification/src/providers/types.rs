use crate::json::{JsonSpec, JsonValue};
use vstd::prelude::*;

verus! {

/// The speaker of a conversation message.
#[derive(Debug, Clone, Copy, PartialEq, Eq, Structural)]
pub enum Role {
    System,
    User,
    Assistant,
    Tool,
}

/// One entry of a conversation: immutable once appended, ordered
/// chronologically.
#[derive(Debug)]
pub struct Message {
    pub role: Role,
    pub content: String,
    pub name: Option<String>,
    pub tool_calls: Option<Vec<ToolCall>>,
    pub tool_call_id: Option<String>,
}

/// A tool invocation requested by a provider response. The id correlates the
/// later tool-result message with this request.
#[derive(Debug)]
pub struct ToolCall {
    pub id: String,
    pub function: FunctionCall,
}

/// The function a tool call names, with its arguments as text encoding a
/// structured object.
#[derive(Debug)]
pub struct FunctionCall {
    pub name: String,
    pub arguments: String,
}

/// A tool advertised to the provider: a name, a description and a parameter
/// schema.
#[derive(Debug)]
pub struct Tool {
    pub name: String,
    pub description: String,
    pub parameters: JsonValue,
}

/// Descriptive data about a provider backend.
#[derive(Debug)]
pub struct ProviderMetadata {
    pub name: String,
    pub models: Vec<String>,
    pub capabilities: ProviderCapabilities,
}

/// What a provider backend supports.
#[derive(Debug, Clone, Copy, PartialEq, Eq, Structural)]
pub struct ProviderCapabilities {
    pub streaming: bool,
    pub tools: bool,
    pub vision: bool,
}

/// The mathematical model of a `Message`. Tool calls carry only strings, whose
/// abstract values determine them, so the sequence holds them directly.
pub struct MessageV {
    pub role: Role,
    pub content: Seq<char>,
    pub name: Option<Seq<char>>,
    pub tool_calls: Option<Seq<ToolCall>>,
    pub tool_call_id: Option<Seq<char>>,
}

/// The mathematical model of a `Tool`.
pub struct ToolV {
    pub name: Seq<char>,
    pub description: Seq<char>,
    pub parameters: JsonSpec,
}

impl View for Message {
    type V = MessageV;

    open spec fn view(&self) -> MessageV {
        MessageV {
            role: self.role,
            content: self.content@,
            name: match &self.name {
                Some(n) => Some(n@),
                None => None,
            },
            tool_calls: match &self.tool_calls {
                Some(calls) => Some(calls@),
                None => None,
            },
            tool_call_id: match &self.tool_call_id {
                Some(id) => Some(id@),
                None => None,
            },
        }
    }
}

impl View for Tool {
    type V = ToolV;

    open spec fn view(&self) -> ToolV {
        ToolV { name: self.name@, description: self.description@, parameters: self.parameters@ }
    }
}

/// The models of a message sequence, in order.
pub open spec fn msgs_view(msgs: Seq<Message>) -> Seq<MessageV> {
    msgs.map_values(|m: Message| m@)
}

/// The models of a tool sequence, in order.
pub open spec fn tools_view(tools: Seq<Tool>) -> Seq<ToolV> {
    tools.map_values(|t: Tool| t@)
}

impl Clone for FunctionCall {
    fn clone(&self) -> (r: Self)
        ensures
            r == *self,
    {
        FunctionCall { name: self.name.clone(), arguments: self.arguments.clone() }
    }
}

impl Clone for ToolCall {
    fn clone(&self) -> (r: Self)
        ensures
            r == *self,
    {
        ToolCall { id: self.id.clone(), function: self.function.clone() }
    }
}

impl Clone for Tool {
    fn clone(&self) -> (r: Self)
        ensures
            r@ == self@,
    {
        Tool {
            name: self.name.clone(),
            description: self.description.clone(),
            parameters: self.parameters.clone(),
        }
    }
}

impl Message {
    /// A plain message spoken by the given role, with no tool bookkeeping.
    pub open spec fn spec_plain(role: Role, content: Seq<char>) -> MessageV {
        MessageV { role, content, name: None, tool_calls: None, tool_call_id: None }
    }

    /// A system message holding the given text.
    pub fn system(content: &str) -> (r: Message)
        ensures
            r@ == Message::spec_plain(Role::System, content@),
    {
        Message {
            role: Role::System,
            content: content.to_owned(),
            name: None,
            tool_calls: None,
            tool_call_id: None,
        }
    }

    /// A user message holding the given text.
    pub fn user(content: &str) -> (r: Message)
        ensures
            r@ == Message::spec_plain(Role::User, content@),
    {
        Message {
            role: Role::User,
            content: content.to_owned(),
            name: None,
            tool_calls: None,
            tool_call_id: None,
        }
    }

    /// An assistant message holding the given text.
    pub fn assistant(content: &str) -> (r: Message)
        ensures
            r@ == Message::spec_plain(Role::Assistant, content@),
    {
        Message {
            role: Role::Assistant,
            content: content.to_owned(),
            name: None,
            tool_calls: None,
            tool_call_id: None,
        }
    }
}

} // verus!
