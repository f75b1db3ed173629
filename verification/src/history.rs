//! The shape of a commit: every change is recorded as a snapshot of the whole
//! working directory, signed by the tool itself and placed on top of the
//! current head.

use vstd::prelude::*;

verus! {

/// What the repository is asked to record.
pub struct CommitRequest {
    /// The pattern of the paths to stage: all of them.
    pub pathspec: String,
    /// The reference that moves to the new commit.
    pub update_ref: String,
    /// The name that signs the commit as author and committer.
    pub author_name: String,
    /// The address that goes with the name.
    pub author_email: String,
    /// The commit's message.
    pub message: String,
    /// The new commit's parents: the head commit, or none in an empty
    /// repository.
    pub parents: Vec<String>,
}

/// The parents of a commit made on top of `head`.
pub open spec fn parents_for(head: Option<String>) -> Seq<String> {
    match head {
        Some(id) => seq![id],
        None => Seq::empty(),
    }
}

/// Prepares the commit that records the working directory under `message`.
/// `head` names the commit that the head points to, `None` in a repository
/// without commits: the new commit then has no parent.
pub fn commit(message: &str, head: Option<String>) -> (request: CommitRequest)
    ensures
        request.pathspec@ == "*"@,
        request.update_ref@ == "HEAD"@,
        request.author_name@ == "cru"@,
        request.author_email@ == "cru@xyz.net"@,
        request.message@ == message@,
        request.parents@ == parents_for(head),
{
    let mut parents: Vec<String> = Vec::new();
    match head {
        Some(id) => {
            parents.push(id);
        },
        None => {},
    }
    assert(parents@ =~= parents_for(head));
    CommitRequest {
        pathspec: "*".to_owned(),
        update_ref: "HEAD".to_owned(),
        author_name: "cru".to_owned(),
        author_email: "cru@xyz.net".to_owned(),
        message: message.to_owned(),
        parents,
    }
}

} // verus!
