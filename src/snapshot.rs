//! Operations of the snapshot provider, and the label each is reported under.
use vstd::prelude::*;

verus! {

#[derive(Clone, Copy, Debug, PartialEq, Eq, Hash)]
pub enum SnapshotProviderOperation {
    InitCursor,
    OpenWriter,
    Append,
    Prune,
    IncrementBlock,
    CommitWriter,
}

impl SnapshotProviderOperation {
    pub open spec fn label(self) -> Seq<char> {
        match self {
            SnapshotProviderOperation::InitCursor => "init-cursor"@,
            SnapshotProviderOperation::OpenWriter => "open-writer"@,
            SnapshotProviderOperation::Append => "append"@,
            SnapshotProviderOperation::Prune => "prune"@,
            SnapshotProviderOperation::IncrementBlock => "increment-block"@,
            SnapshotProviderOperation::CommitWriter => "commit-writer"@,
        }
    }

    /// The label of the operation.
    pub fn as_str(&self) -> (r: &'static str)
        ensures
            r@ == self.label(),
    {
        match self {
            SnapshotProviderOperation::InitCursor => "init-cursor",
            SnapshotProviderOperation::OpenWriter => "open-writer",
            SnapshotProviderOperation::Append => "append",
            SnapshotProviderOperation::Prune => "prune",
            SnapshotProviderOperation::IncrementBlock => "increment-block",
            SnapshotProviderOperation::CommitWriter => "commit-writer",
        }
    }
}

} // verus!
