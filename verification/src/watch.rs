//! Which file-system events the workbench hears about.
use vstd::prelude::*;

verus! {

/// A file or directory under the workspace changed.
pub enum WatchEvent {
    Changed(String),
}

/// The kinds of file-system event the watcher reports.
#[derive(Debug, Clone, Copy, PartialEq, Eq, Structural)]
pub enum FsEventKind {
    Any,
    Access,
    Create,
    Modify,
    Remove,
    Other,
}

/// Creations, changes and removals are passed on; the rest is not.
pub open spec fn passes(kind: FsEventKind) -> bool {
    kind == FsEventKind::Create || kind == FsEventKind::Modify || kind == FsEventKind::Remove
}

/// The events passed on for an event of `kind` on `paths`: one per path,
/// in order, when the kind is passed on; none otherwise.
pub fn changed_events(kind: FsEventKind, paths: Vec<String>) -> (r: Vec<WatchEvent>)
    ensures
        passes(kind) ==> r@.len() == paths@.len() && forall|i: int|
            0 <= i < r@.len() ==> (#[trigger] r@[i] matches WatchEvent::Changed(p) && p@ == paths@[i]@),
        !passes(kind) ==> r@.len() == 0,
{
    let mut out: Vec<WatchEvent> = Vec::new();
    let pass = match kind {
        FsEventKind::Create | FsEventKind::Modify | FsEventKind::Remove => true,
        _ => false,
    };
    if !pass {
        return out;
    }
    let mut i: usize = 0;
    while i < paths.len()
        invariant
            i <= paths@.len(),
            out@.len() == i,
            forall|k: int| 0 <= k < i ==> (#[trigger] out@[k] matches WatchEvent::Changed(p) && p@ == paths@[k]@),
        decreases paths@.len() - i,
    {
        out.push(WatchEvent::Changed(paths[i].clone()));
        i = i + 1;
    }
    out
}

} // verus!
