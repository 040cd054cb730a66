//! The conversation that a chat call hands to the daemon.
use vstd::prelude::*;

verus! {

/// Who spoke a turn of the conversation.
#[derive(Clone, Copy, Debug, PartialEq, Eq, Structural)]
pub enum Role {
    System,
    User,
    Assistant,
    Tool,
}

/// One turn of the conversation history.
pub struct Turn {
    pub role: Role,
    pub content: String,
}

/// A chat request: the model to ask and the ordered conversation history.
pub struct ChatRequest {
    pub model: String,
    pub turns: Vec<Turn>,
}

impl Turn {
    pub fn new(role: Role, content: String) -> (t: Turn)
        ensures
            t.role == role,
            t.content@ == content@,
    {
        Turn { role, content }
    }
}

impl ChatRequest {
    pub fn new(model: String, turns: Vec<Turn>) -> (r: ChatRequest)
        ensures
            r.model@ == model@,
            r.turns@ == turns@,
    {
        ChatRequest { model, turns }
    }
}

} // verus!
