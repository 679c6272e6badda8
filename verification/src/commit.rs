//! The commit flow's compute part: the conventional message for a branch
//! whose working-tree state changed.  Reading the repository's status and
//! running the version-control client are the caller's concern; it reduces
//! each status to a `ChangeKind` and takes the message from here.

use vstd::prelude::*;

use crate::branch::Branch;

verus! {

/// How a branch's source file changed in the working tree.
#[derive(Debug, Clone, Copy, PartialEq, Eq, Structural)]
pub enum ChangeKind {
    Added,
    Modified,
    Deleted,
}

/// The verb a change kind contributes to the commit message.
pub open spec fn change_verb_spec(kind: ChangeKind) -> Seq<char> {
    match kind {
        ChangeKind::Added => "new"@,
        ChangeKind::Modified => "update"@,
        ChangeKind::Deleted => "delete"@,
    }
}

/// The commit message for a changed branch:
/// `<verb>(<document type>): <name>`.
pub open spec fn commit_message_spec(kind: ChangeKind, b: Branch) -> Seq<char> {
    change_verb_spec(kind) + "("@ + b.doc_type.name_spec() + "): "@ + b.name@
}

/// Formats the commit message for a changed branch.
pub fn commit_message(kind: ChangeKind, b: &Branch) -> (msg: String)
    ensures
        msg@ == commit_message_spec(kind, *b),
{
    let mut msg = match kind {
        ChangeKind::Added => "new".to_owned(),
        ChangeKind::Modified => "update".to_owned(),
        ChangeKind::Deleted => "delete".to_owned(),
    };
    msg.append("(");
    let dt = b.doc_type.name();
    msg.append(dt.as_str());
    msg.append("): ");
    msg.append(b.name.as_str());
    msg
}

} // verus!
