//! Deleting the node that a request names.
//!
//! The library decides and the caller acts: each step says what is needed
//! next from outside (a probe of the node's metadata, a removal), and the
//! caller hands back what came of it.

use vstd::prelude::*;
use crate::codec::{decode, decoded, strip_trailing_separator, without_trailing_separator};
use crate::error::{DecodeError, DeleteError, IoError, NASError, ResolveError};
use crate::file::{category_of, classify, NASFileCategory, Probe};
use crate::path::{AbsolutePath, PathResolver, RelativePath};
use crate::path_model::{is_canonical, render_absolute, resolved, scoped};

verus! {

/// How a node is to be removed.
#[derive(Debug, Clone, Copy, PartialEq, Eq, Structural)]
pub enum RemovalKind {
    /// The node and everything below it.
    Tree,
    /// The node alone.
    Node,
}

/// What came of a removal.
#[derive(Debug, Clone, Copy, PartialEq, Eq, Structural)]
pub enum Removal {
    /// The node is gone.
    Done,
    /// The node was not of the kind that the removal was meant for.
    WrongKind,
    /// The removal failed for any other reason.
    Refused,
}

/// The answer to a delete request.
#[derive(Debug, PartialEq, Eq)]
pub enum Reply {
    Deleted,
    Unauthorized,
    Failed(NASError),
}

/// A removal that has been decided on and not yet carried out.
#[derive(Debug)]
pub struct PendingRemoval {
    pub path: AbsolutePath,
    pub kind: RemovalKind,
}

/// A resolved request that waits for its node to be probed.
#[derive(Debug)]
pub struct PendingProbe {
    pub path: AbsolutePath,
}

/// What a delete request needs next.
#[derive(Debug)]
pub enum DeleteStep {
    /// The metadata of the node at the path.
    Probe(PendingProbe),
    /// The removal of the node at the path.
    Remove(PendingRemoval),
    /// Nothing: the request is answered.
    Reply(Reply),
}

/// The removal that a category calls for: a directory goes with all that is
/// below it, anything else goes alone.
pub open spec fn kind_for(category: NASFileCategory) -> RemovalKind {
    if category.is_directory() {
        RemovalKind::Tree
    } else {
        RemovalKind::Node
    }
}

/// The path string of a request by `user` for the raw segment `raw`: the
/// segment without its trailing separator, decoded, in the user's namespace.
pub open spec fn requested(user: Seq<char>, raw: Seq<char>) -> Result<Seq<char>, DecodeError> {
    match decoded(without_trailing_separator(raw)) {
        Ok(text) => Ok(scoped(user, text)),
        Err(e) => Err(e),
    }
}

/// The status code that goes with a reply: 200 for a deletion, 401 without
/// an identity, a code from 400 to 499 for what the request got wrong, and
/// 500 for what failed on this side.
pub open spec fn status_of(reply: Reply) -> u16 {
    match reply {
        Reply::Deleted => 200,
        Reply::Unauthorized => 401,
        Reply::Failed(NASError::Decode(_)) => 400,
        Reply::Failed(NASError::Resolve(ResolveError::InvalidPath)) => 400,
        Reply::Failed(NASError::Resolve(ResolveError::OutsideRoot)) => 403,
        Reply::Failed(NASError::Io(IoError::NotFound)) => 404,
        Reply::Failed(NASError::Io(IoError::Other)) => 500,
        Reply::Failed(NASError::Delete(_)) => 500,
    }
}

impl Reply {
    /// The status code that goes with the reply.
    pub fn status(&self) -> (code: u16)
        ensures
            code == status_of(*self),
    {
        match self {
            Reply::Deleted => 200,
            Reply::Unauthorized => 401,
            Reply::Failed(NASError::Decode(_)) => 400,
            Reply::Failed(NASError::Resolve(ResolveError::InvalidPath)) => 400,
            Reply::Failed(NASError::Resolve(ResolveError::OutsideRoot)) => 403,
            Reply::Failed(NASError::Io(IoError::NotFound)) => 404,
            Reply::Failed(NASError::Io(IoError::Other)) => 500,
            Reply::Failed(NASError::Delete(_)) => 500,
        }
    }
}

/// Decides how the node at `path` is removed, from its category alone.
pub fn plan_removal(path: AbsolutePath, category: NASFileCategory) -> (pending: PendingRemoval)
    ensures
        pending.path == path,
        pending.kind == kind_for(category),
{
    let kind = if category.is_dir() {
        RemovalKind::Tree
    } else {
        RemovalKind::Node
    };
    PendingRemoval { path, kind }
}

impl PendingRemoval {
    /// The path string of the node to remove.
    pub fn path_string(&self) -> (out: String)
        ensures
            out@ == render_absolute(self.path@),
    {
        self.path.absolute_string()
    }

    /// What the removal came to. A failure keeps the path and nothing of its
    /// cause.
    pub fn conclude(&self, outcome: Removal) -> (res: Result<(), DeleteError>)
        ensures
            (match outcome {
                Removal::Done => res == Ok::<(), DeleteError>(()),
                Removal::WrongKind => res == Err::<(), DeleteError>(DeleteError::TypeMismatch),
                Removal::Refused => (res matches Err(DeleteError::Failed { path }) && path@
                    == render_absolute(self.path@)),
            }),
    {
        match outcome {
            Removal::Done => Ok(()),
            Removal::WrongKind => Err(DeleteError::TypeMismatch),
            Removal::Refused => Err(DeleteError::Failed { path: self.path.absolute_string() }),
        }
    }

    /// Answers the request once the removal has been tried.
    pub fn removed(self, outcome: Removal) -> (reply: Reply)
        ensures
            (match outcome {
                Removal::Done => reply == Reply::Deleted,
                Removal::WrongKind => reply == Reply::Failed(
                    NASError::Delete(DeleteError::TypeMismatch),
                ),
                Removal::Refused => (reply matches Reply::Failed(
                    NASError::Delete(DeleteError::Failed { path }),
                ) && path@ == render_absolute(self.path@)),
            }),
            reply == Reply::Deleted <==> outcome == Removal::Done,
    {
        match self.conclude(outcome) {
            Ok(()) => Reply::Deleted,
            Err(e) => Reply::Failed(NASError::Delete(e)),
        }
    }
}

impl PendingProbe {
    /// The path string of the node to probe.
    pub fn path_string(&self) -> (out: String)
        ensures
            out@ == render_absolute(self.path@),
    {
        self.path.absolute_string()
    }

    /// Goes on once the node has been probed: a node that is there is
    /// classified and its removal decided; a node that is missing, or cannot
    /// be read, ends the request, and nothing is removed. No probe alone
    /// makes a deletion: only a removal that was carried out does.
    pub fn probed(self, probe: &Probe) -> (step: DeleteStep)
        ensures
            (match *probe {
                Probe::Missing => step == DeleteStep::Reply(
                    Reply::Failed(NASError::Io(IoError::NotFound)),
                ),
                Probe::Unreadable => step == DeleteStep::Reply(
                    Reply::Failed(NASError::Io(IoError::Other)),
                ),
                Probe::Found { is_dir, len } => step matches DeleteStep::Remove(pending)
                    && pending.path == self.path && pending.kind == kind_for(
                    category_of(self.path.base_name(), is_dir),
                ),
            }),
            step is Remove <==> *probe is Found,
            step != DeleteStep::Reply(Reply::Deleted),
    {
        match classify(&self.path, probe) {
            Ok(found) => DeleteStep::Remove(plan_removal(self.path, found.0)),
            Err(e) => DeleteStep::Reply(Reply::Failed(NASError::Io(e))),
        }
    }
}

/// Takes up a delete request. Without an identity the request is answered at
/// once and nothing is resolved. With one, the raw segment is decoded and
/// resolved in the user's namespace; what cannot be resolved under the root
/// is answered with its error, and what can waits for a probe.
pub fn delete(resolver: &PathResolver, identity: Option<&str>, raw_path: &str) -> (step:
    DeleteStep)
    ensures
        (match identity {
            None => step == DeleteStep::Reply(Reply::Unauthorized),
            Some(user) => match requested(user@, raw_path@) {
                Err(e) => step == DeleteStep::Reply(Reply::Failed(NASError::Decode(e))),
                Ok(relative) => match resolved(resolver.root@, relative) {
                    Err(e) => step == DeleteStep::Reply(Reply::Failed(NASError::Resolve(e))),
                    Ok(target) => step matches DeleteStep::Probe(pending) && pending.path@
                        == target && pending.path.root() == resolver.root@
                        && pending.path.root_len() == resolver.root@.len(),
                },
            },
        }),
        step matches DeleteStep::Probe(pending) ==> resolver.root@.is_prefix_of(pending.path@)
            && is_canonical(pending.path@),
        !(step is Remove),
        step != DeleteStep::Reply(Reply::Deleted),
{
    let user = match identity {
        Some(user) => user,
        None => {
            return DeleteStep::Reply(Reply::Unauthorized);
        },
    };
    let trimmed = strip_trailing_separator(raw_path);
    let text = match decode(trimmed.as_str()) {
        Ok(text) => text,
        Err(e) => {
            return DeleteStep::Reply(Reply::Failed(NASError::Decode(e)));
        },
    };
    let relative = RelativePath::new(text.as_str(), user);
    match resolver.resolve(&relative) {
        Ok(path) => DeleteStep::Probe(PendingProbe { path }),
        Err(e) => DeleteStep::Reply(Reply::Failed(NASError::Resolve(e))),
    }
}

/// The status codes fall into classes: only a deletion is answered with 200
/// and only a missing identity with 401; a request that cannot be decoded or
/// resolved, or that names a missing node, is the client's error, and an
/// attempt to leave the root is never answered as a server error; a probe or
/// a removal that failed is the server's.
pub proof fn lemma_status_classes(reply: Reply)
    ensures
        status_of(reply) == 200 <==> reply == Reply::Deleted,
        status_of(reply) == 401 <==> reply == Reply::Unauthorized,
        reply matches Reply::Failed(e) ==> (400 <= status_of(reply) < 500 <==> e is Decode || e
            is Resolve || e == NASError::Io(IoError::NotFound)),
        reply matches Reply::Failed(e) ==> (status_of(reply) == 500 <==> e is Delete || e
            == NASError::Io(IoError::Other)),
        reply matches Reply::Failed(e) ==> (e.is_traversal() ==> status_of(reply) == 403),
{
}

} // verus!
