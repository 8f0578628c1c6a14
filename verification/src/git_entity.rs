//! Immutable representation of a commit or a diff, as the prompt layer
//! reads it. Resolving these from the version-control system is the work
//! of an outside collaborator; here they are plain values.

use vstd::prelude::*;

verus! {

/// A single commit, or a working-tree/staged diff.
#[derive(Clone, Debug)]
pub enum GitEntity {
    Commit { hash: String, author: String, message: String, patch: String },
    Diff { staged: bool, patch: String },
}

impl GitEntity {
    /// The raw patch text of the entity.
    pub open spec fn spec_patch(self) -> Seq<char> {
        match self {
            GitEntity::Commit { patch, .. } => patch@,
            GitEntity::Diff { patch, .. } => patch@,
        }
    }

    /// The textual form handed to the prompt layer: metadata first for a
    /// commit, a one-line origin marker for a diff, then the patch verbatim.
    pub open spec fn spec_text(self) -> Seq<char> {
        match self {
            GitEntity::Commit { hash, author, message, patch } => "commit "@ + hash@
                + "\nauthor: "@ + author@ + "\nmessage: "@ + message@ + "\n\n"@ + patch@,
            GitEntity::Diff { staged, patch } => if staged {
                "staged diff:\n"@ + patch@
            } else {
                "diff:\n"@ + patch@
            },
        }
    }

    pub fn patch(&self) -> (r: &String)
        ensures
            r@ == self.spec_patch(),
    {
        match self {
            GitEntity::Commit { patch, .. } => patch,
            GitEntity::Diff { patch, .. } => patch,
        }
    }

    /// Renders `spec_text`.
    pub fn text(&self) -> (r: String)
        ensures
            r@ == self.spec_text(),
    {
        proof {
            reveal_strlit("commit ");
            reveal_strlit("\nauthor: ");
            reveal_strlit("\nmessage: ");
            reveal_strlit("\n\n");
            reveal_strlit("staged diff:\n");
            reveal_strlit("diff:\n");
        }
        match self {
            GitEntity::Commit { hash, author, message, patch } => {
                let mut r = String::from_str("commit ");
                r.append(hash.as_str());
                r.append("\nauthor: ");
                r.append(author.as_str());
                r.append("\nmessage: ");
                r.append(message.as_str());
                r.append("\n\n");
                r.append(patch.as_str());
                r
            },
            GitEntity::Diff { staged, patch } => {
                let mut r = if *staged {
                    String::from_str("staged diff:\n")
                } else {
                    String::from_str("diff:\n")
                };
                r.append(patch.as_str());
                r
            },
        }
    }
}

} // verus!
