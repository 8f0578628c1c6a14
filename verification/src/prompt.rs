//! Deterministic mapping from a command's intent and a git entity to the
//! conversation sent to the backend: system message first, then one user
//! message embedding the patch text verbatim.

use vstd::prelude::*;
use crate::conversation::{Conversation, Message, Role};
use crate::git_entity::GitEntity;

verus! {

/// Which prompt template a conversation is built from. A selected commit
/// from the interactive list reuses the explain template.
#[derive(Clone, Debug)]
pub enum PromptKind {
    /// Explain the change; with an optional user question instead of a
    /// plain summary.
    Explain { query: Option<String> },
    /// Draft a commit message; with optional free-text context on intent.
    Draft { context: Option<String> },
}

/// The system message fixing the assistant's role.
pub open spec fn system_prompt(kind: PromptKind) -> Seq<char> {
    match kind {
        PromptKind::Explain { .. } =>
            "You are a helpful assistant that explains git changes clearly and concisely."@,
        PromptKind::Draft { .. } =>
            "You write a conventional commit message for the staged changes. Reply with the commit message only."@,
    }
}

/// The user message: the entity's text verbatim, never truncated, with
/// the question or context appended after it when present.
pub open spec fn user_prompt(entity: GitEntity, kind: PromptKind) -> Seq<char> {
    match kind {
        PromptKind::Explain { query } => match query {
            Some(q) => entity.spec_text() + "\n\nQuestion: "@ + q@,
            None => entity.spec_text(),
        },
        PromptKind::Draft { context } => match context {
            Some(c) => entity.spec_text() + "\n\nContext: "@ + c@,
            None => entity.spec_text(),
        },
    }
}

/// Builds the two-message conversation: the kind's system message, then
/// the user message embedding the entity's text verbatim.
pub fn build_conversation(entity: &GitEntity, kind: &PromptKind) -> (r: Conversation)
    ensures
        r.messages@.len() == 2,
        r.messages@[0].role == Role::System,
        r.messages@[0].text@ == system_prompt(*kind),
        r.messages@[1].role == Role::User,
        r.messages@[1].text@ == user_prompt(*entity, *kind),
{
    let system_text = match kind {
        PromptKind::Explain { .. } => String::from_str(
            "You are a helpful assistant that explains git changes clearly and concisely.",
        ),
        PromptKind::Draft { .. } => String::from_str(
            "You write a conventional commit message for the staged changes. Reply with the commit message only.",
        ),
    };
    let mut user_text = entity.text();
    match kind {
        PromptKind::Explain { query } => match query {
            Some(q) => {
                proof {
                    reveal_strlit("\n\nQuestion: ");
                }
                user_text.append("\n\nQuestion: ");
                user_text.append(q.as_str());
            },
            None => {},
        },
        PromptKind::Draft { context } => match context {
            Some(c) => {
                proof {
                    reveal_strlit("\n\nContext: ");
                }
                user_text.append("\n\nContext: ");
                user_text.append(c.as_str());
            },
            None => {},
        },
    }
    let mut conv = Conversation::new();
    conv.push(Message::new(Role::System, system_text));
    conv.push(Message::new(Role::User, user_text));
    conv
}

} // verus!
