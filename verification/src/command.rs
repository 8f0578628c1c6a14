//! The per-invocation command orchestration: validating the command's
//! arguments, choosing which git entity to fetch, and preparing the
//! provider request. All of it runs before any network interaction; the
//! caller performs the fetches and the HTTP exchange and feeds the reply
//! back through `stream::StreamParser`.

use vstd::prelude::*;
use crate::conversation::{Conversation, Role};
use crate::error::LumenError;
use crate::git_entity::GitEntity;
use crate::prompt::{PromptKind, build_conversation, system_prompt, user_prompt};
use crate::provider::{ProviderConfig, RequestSpec, build_request, spec_auth, spec_body,
    spec_endpoint};

verus! {

/// What the user asked for, as bound from the command line.
#[derive(Clone, Debug)]
pub enum CommandIntent {
    /// Explain one commit (by hash) or the current diff.
    Explain { sha: Option<String>, diff: bool, staged: bool, query: Option<String> },
    /// Pick a commit interactively, then explain it.
    List,
    /// Draft a commit message for the staged changes.
    Draft { context: Option<String> },
}

/// Which git entity the command needs from the version-control
/// collaborator before the provider flow can run.
#[derive(Clone, Debug)]
pub enum EntityRequest {
    /// Look this commit up by hash.
    Commit { sha: String },
    /// Take the current diff, staged or working-tree.
    WorkingDiff { staged: bool },
    /// Let the user pick a commit from the list, then look it up.
    PickCommit,
}

/// Two optional strings hold the same text.
pub open spec fn opt_text_eq(a: Option<String>, b: Option<String>) -> bool {
    match (a, b) {
        (Option::None, Option::None) => true,
        (Option::Some(x), Option::Some(y)) => x@ == y@,
        _ => false,
    }
}

/// First step of an invocation: which entity to resolve. Explain demands
/// exactly one of a commit hash and the diff flag; both or neither are
/// contradictory input, rejected before anything else happens.
pub fn plan_entity(intent: &CommandIntent) -> (r: Result<EntityRequest, LumenError>)
    ensures
        match *intent {
            CommandIntent::Explain { sha, diff, staged, .. } => {
                if sha is Some && diff {
                    r matches Err(e) && e matches LumenError::InvalidArguments(_)
                } else if sha is None && !diff {
                    r matches Err(e) && e matches LumenError::InvalidArguments(_)
                } else if diff {
                    r matches Ok(q) && q matches EntityRequest::WorkingDiff { staged: s } && s
                        == staged
                } else {
                    r matches Ok(q) && q matches EntityRequest::Commit { sha: h } && h@ == sha
                        ->0@
                }
            },
            CommandIntent::List => r matches Ok(q) && q is PickCommit,
            CommandIntent::Draft { .. } => r matches Ok(q) && q matches
                EntityRequest::WorkingDiff { staged: s } && s,
        },
{
    match intent {
        CommandIntent::Explain { sha, diff, staged, .. } => {
            if sha.is_some() && *diff {
                Err(
                    LumenError::InvalidArguments(
                        String::from_str("give either a commit hash or the diff flag, not both"),
                    ),
                )
            } else if *diff {
                Ok(EntityRequest::WorkingDiff { staged: *staged })
            } else {
                match sha {
                    Some(h) => Ok(EntityRequest::Commit { sha: h.clone() }),
                    None => Err(
                        LumenError::InvalidArguments(
                            String::from_str("expects a commit hash or the diff flag"),
                        ),
                    ),
                }
            }
        },
        CommandIntent::List => Ok(EntityRequest::PickCommit),
        CommandIntent::Draft { .. } => Ok(EntityRequest::WorkingDiff { staged: true }),
    }
}

/// The prompt template an intent selects; a commit chosen from the list
/// reuses the explain template with no question.
pub fn prompt_kind_of(intent: &CommandIntent) -> (r: PromptKind)
    ensures
        match *intent {
            CommandIntent::Explain { query, .. } => r matches PromptKind::Explain { query: q }
                && opt_text_eq(query, q),
            CommandIntent::List => r matches PromptKind::Explain { query: q } && q is None,
            CommandIntent::Draft { context } => r matches PromptKind::Draft { context: c }
                && opt_text_eq(context, c),
        },
{
    match intent {
        CommandIntent::Explain { query, .. } => PromptKind::Explain {
            query: match query {
                Some(q) => Some(q.clone()),
                None => None,
            },
        },
        CommandIntent::List => PromptKind::Explain { query: None },
        CommandIntent::Draft { context } => PromptKind::Draft {
            context: match context {
                Some(c) => Some(c.clone()),
                None => None,
            },
        },
    }
}

/// Drafting needs something to summarize: an empty patch is rejected as
/// invalid arguments before any network call. Otherwise the two-message
/// conversation is built.
pub fn prepare_conversation(entity: &GitEntity, kind: &PromptKind) -> (r: Result<
    Conversation,
    LumenError,
>)
    ensures
        match r {
            Ok(c) => {
                &&& !(kind is Draft && entity.spec_patch().len() == 0)
                &&& c.messages@.len() == 2
                &&& c.messages@[0].role == Role::System
                &&& c.messages@[0].text@ == system_prompt(*kind)
                &&& c.messages@[1].role == Role::User
                &&& c.messages@[1].text@ == user_prompt(*entity, *kind)
            },
            Err(e) => {
                &&& kind is Draft && entity.spec_patch().len() == 0
                &&& e matches LumenError::InvalidArguments(_)
                &&& e.is_pre_network()
            },
        },
{
    let is_draft = match kind {
        PromptKind::Draft { .. } => true,
        PromptKind::Explain { .. } => false,
    };
    if is_draft && entity.patch().as_str().unicode_len() == 0 {
        return Err(
            LumenError::InvalidArguments(
                String::from_str("the staged diff is empty; nothing to draft from"),
            ),
        );
    }
    Ok(build_conversation(entity, kind))
}

/// The conversation a command sends, at the specification level.
pub open spec fn spec_conversation(entity: GitEntity, kind: PromptKind) -> Seq<
    (Role, Seq<char>),
> {
    seq![(Role::System, system_prompt(kind)), (Role::User, user_prompt(entity, kind))]
}

/// Validates the command input and builds the full request for it: the
/// variant's endpoint, authentication and payload carrying the
/// two-message conversation. Pure — no network call happens here, so a
/// rejected input never causes one.
pub fn plan_request(entity: &GitEntity, kind: &PromptKind, config: &ProviderConfig) -> (r:
    Result<RequestSpec, LumenError>)
    requires
        config.wf(),
    ensures
        match r {
            Ok(req) => {
                &&& !(kind is Draft && entity.spec_patch().len() == 0)
                &&& req.url@ == spec_endpoint(config.variant)
                &&& req.body@ == spec_body(*config, spec_conversation(*entity, *kind))
                &&& match spec_auth(*config) {
                    Some(p) => req.auth matches Some(a) && a.0@ == p.0 && a.1@ == p.1,
                    None => req.auth is None,
                }
            },
            Err(e) => {
                &&& kind is Draft && entity.spec_patch().len() == 0
                &&& e matches LumenError::InvalidArguments(_)
                &&& e.is_pre_network()
            },
        },
{
    let conv = match prepare_conversation(entity, kind) {
        Ok(c) => c,
        Err(e) => {
            return Err(e);
        },
    };
    let req = build_request(&conv, config);
    proof {
        assert(conv@ =~= spec_conversation(*entity, *kind));
    }
    Ok(req)
}

} // verus!
