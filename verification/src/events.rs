//! Classification of filesystem events.
//!
//! The watch mechanism itself is an external collaborator; the core only
//! consumes the kind of each notification, reduced to this enum.

use vstd::prelude::*;

verus! {

/// Fixed delay between a qualifying event and the submission, letting an
/// initial write burst begin before stability sampling starts counting.
pub const EVENT_DEBOUNCE_MS: u64 = 1000;

/// What kind of change a filesystem notification reports.
#[derive(Clone, Copy, PartialEq, Eq, Structural, Debug)]
pub enum FsEventKind {
    /// A new filesystem entry appeared.
    Create,
    /// The contents of a file changed.
    ModifyData,
    /// Metadata of a file (size, times, permissions) changed.
    ModifyMetadata,
    /// Some other modification (for example a rename).
    ModifyOther,
    /// An entry was removed.
    Remove,
    /// An entry was read or opened.
    Access,
    /// Anything else the watcher may report.
    Other,
}

/// Which event kinds may lead to a submission.
pub open spec fn spec_is_create_or_modify(kind: FsEventKind) -> bool {
    ||| kind == FsEventKind::Create
    ||| kind == FsEventKind::ModifyData
    ||| kind == FsEventKind::ModifyMetadata
}

/// Only creation events and data or metadata modifications on files are
/// forwarded to the queue; removals, accesses and other changes are ignored.
pub fn is_create_or_modify_event(kind: &FsEventKind) -> (r: bool)
    ensures
        r == spec_is_create_or_modify(*kind),
{
    matches!(kind, FsEventKind::Create | FsEventKind::ModifyData | FsEventKind::ModifyMetadata)
}

} // verus!
