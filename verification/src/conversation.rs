//! The ordered, role-tagged message sequence sent to a backend.

use vstd::prelude::*;

verus! {

/// Who a message is attributed to.
#[derive(Clone, Copy, PartialEq, Eq, Structural, Debug)]
pub enum Role {
    System,
    User,
    Assistant,
}

/// The wire name of a role.
pub open spec fn role_name(r: Role) -> Seq<char> {
    match r {
        Role::System => "system"@,
        Role::User => "user"@,
        Role::Assistant => "assistant"@,
    }
}

/// One message of a conversation.
#[derive(Clone, Debug)]
pub struct Message {
    pub role: Role,
    pub text: String,
}

impl Message {
    pub fn new(role: Role, text: String) -> (r: Message)
        ensures
            r.role == role,
            r.text@ == text@,
    {
        Message { role, text }
    }
}

/// An ordered message sequence, built fresh per command invocation.
#[derive(Clone, Debug)]
pub struct Conversation {
    pub messages: Vec<Message>,
}

impl View for Conversation {
    type V = Seq<(Role, Seq<char>)>;

    /// A conversation is its sequence of role-tagged texts.
    open spec fn view(&self) -> Seq<(Role, Seq<char>)> {
        self.messages@.map_values(|m: Message| (m.role, m.text@))
    }
}

impl Conversation {
    pub fn new() -> (r: Conversation)
        ensures
            r.messages@.len() == 0,
    {
        Conversation { messages: Vec::new() }
    }

    pub fn push(&mut self, m: Message)
        ensures
            final(self).messages@ == old(self).messages@.push(m),
    {
        self.messages.push(m);
    }
}

} // verus!
