//! The change watcher's decision logic: which filesystem events lead to
//! processing a file, given the dedup ledger's state. Subscribing to native
//! notifications and running the loop is the caller's I/O.

use vstd::prelude::*;
use crate::cells::CellFilter;
use crate::latest::has_ipynb_ext;
use crate::ledger::{DedupLedger, ledger_after, should_process_spec};

verus! {

/// The kind of a filesystem notification, as far as the watcher cares.
#[derive(Clone, Copy, PartialEq, Eq, Structural, Debug)]
pub enum FsEventKind {
    Create,
    Modify,
    Other,
}

/// One watch session's fixed configuration: the watched directory, the
/// active filter, and whether a handled file is deleted afterwards.
pub struct WatchTarget {
    pub directory: String,
    pub filter: CellFilter,
    pub delete_after: bool,
}

/// Whether an event is worth the ledger's attention at all: a create or
/// modify event on a notebook path whose modification time could be read.
pub open spec fn event_relevant(kind: FsEventKind, path: Seq<char>, modified: Option<u64>) -> bool {
    &&& kind is Create || kind is Modify
    &&& has_ipynb_ext(path)
    &&& modified is Some
}

/// Whether an event triggers the pipeline: it is relevant and the ledger has
/// not seen this exact file version.
pub open spec fn event_triggers(
    m: Map<Seq<char>, u64>,
    kind: FsEventKind,
    path: Seq<char>,
    modified: Option<u64>,
) -> bool {
    event_relevant(kind, path, modified) && should_process_spec(m, path, modified->0)
}

/// Decides whether a notification event leads to processing, recording the
/// file version in the ledger when it does. Irrelevant events leave the
/// ledger untouched.
pub fn consider_event(
    ledger: &mut DedupLedger,
    kind: FsEventKind,
    path: &String,
    modified: Option<u64>,
) -> (r: bool)
    ensures
        r == event_triggers(old(ledger)@, kind, path@, modified),
        final(ledger)@ == if event_relevant(kind, path@, modified) {
            ledger_after(old(ledger)@, path@, modified->0)
        } else {
            old(ledger)@
        },
{
    let relevant = match kind {
        FsEventKind::Create => true,
        FsEventKind::Modify => true,
        FsEventKind::Other => false,
    };
    if !relevant {
        return false;
    }
    if !crate::latest::has_target_extension(path) {
        return false;
    }
    match modified {
        None => false,
        Some(t) => ledger.should_process(path, t),
    }
}

} // verus!
