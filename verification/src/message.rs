//! The messages, tool definitions and call states of a prompt debugging
//! session.
use vstd::prelude::*;

verus! {

/// Who speaks a message.
#[derive(Debug, Clone, Copy, PartialEq, Eq, Structural)]
pub enum MessageRole {
    System,
    User,
    Assistant,
}

/// The label shown for a role.
pub open spec fn role_label(role: MessageRole) -> Seq<char> {
    match role {
        MessageRole::System => "System"@,
        MessageRole::User => "User"@,
        MessageRole::Assistant => "Assistant"@,
    }
}

/// The role name that chat-completion requests use.
pub open spec fn role_api_name(role: MessageRole) -> Seq<char> {
    match role {
        MessageRole::System => "system"@,
        MessageRole::User => "user"@,
        MessageRole::Assistant => "assistant"@,
    }
}

impl MessageRole {
    pub fn label(&self) -> (r: &'static str)
        ensures
            r@ == role_label(*self),
    {
        match self {
            MessageRole::System => "System",
            MessageRole::User => "User",
            MessageRole::Assistant => "Assistant",
        }
    }

    pub fn api_role(&self) -> (r: &'static str)
        ensures
            r@ == role_api_name(*self),
    {
        match self {
            MessageRole::System => "system",
            MessageRole::User => "user",
            MessageRole::Assistant => "assistant",
        }
    }

    /// Every role, in the order the role picker lists them.
    pub fn all() -> (r: &'static [MessageRole])
        ensures
            r@ == seq![MessageRole::System, MessageRole::User, MessageRole::Assistant],
    {
        let r: &'static [MessageRole] = &[MessageRole::System, MessageRole::User, MessageRole::Assistant];
        assert(r@ =~= seq![MessageRole::System, MessageRole::User, MessageRole::Assistant]);
        r
    }
}

/// One message of the conversation being debugged.
#[derive(Debug)]
pub struct DebugMessage {
    pub id: u64,
    pub role: MessageRole,
    pub content: String,
}

/// A tool (function call) definition offered to the model.
#[derive(Debug)]
pub struct ToolDefinition {
    pub id: u64,
    pub name: String,
    pub description: String,
    /// The JSON schema of the parameters, as the user typed it.
    pub parameters_json: String,
}

/// The state of a model call.
#[derive(Debug)]
pub enum CallState {
    Idle,
    Loading,
    Success(String),
    Error(String),
}


impl Clone for DebugMessage {
    fn clone(&self) -> (r: Self)
        ensures
            r == *self,
    {
        DebugMessage { id: self.id, role: self.role, content: self.content.clone() }
    }
}

impl Clone for ToolDefinition {
    fn clone(&self) -> (r: Self)
        ensures
            r == *self,
    {
        ToolDefinition {
            id: self.id,
            name: self.name.clone(),
            description: self.description.clone(),
            parameters_json: self.parameters_json.clone(),
        }
    }
}

impl Clone for CallState {
    fn clone(&self) -> (r: Self)
        ensures
            r == *self,
    {
        match self {
            CallState::Idle => CallState::Idle,
            CallState::Loading => CallState::Loading,
            CallState::Success(t) => CallState::Success(t.clone()),
            CallState::Error(e) => CallState::Error(e.clone()),
        }
    }
}

/// A copy of the messages.
pub fn clone_messages(v: &[DebugMessage]) -> (r: Vec<DebugMessage>)
    ensures
        r@ == v@,
{
    let mut out: Vec<DebugMessage> = Vec::new();
    let mut i: usize = 0;
    while i < v.len()
        invariant
            i <= v.len(),
            out@ == v@.subrange(0, i as int),
        decreases v.len() - i,
    {
        out.push(v[i].clone());
        i = i + 1;
        assert(out@ =~= v@.subrange(0, i as int));
    }
    assert(v@.subrange(0, v.len() as int) =~= v@);
    out
}

/// A copy of the tool definitions.
pub fn clone_tools(v: &[ToolDefinition]) -> (r: Vec<ToolDefinition>)
    ensures
        r@ == v@,
{
    let mut out: Vec<ToolDefinition> = Vec::new();
    let mut i: usize = 0;
    while i < v.len()
        invariant
            i <= v.len(),
            out@ == v@.subrange(0, i as int),
        decreases v.len() - i,
    {
        out.push(v[i].clone());
        i = i + 1;
        assert(out@ =~= v@.subrange(0, i as int));
    }
    assert(v@.subrange(0, v.len() as int) =~= v@);
    out
}

} // verus!
