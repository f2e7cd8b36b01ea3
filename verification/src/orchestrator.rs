//! Starting the threads and ending the process: one watcher per shard, and
//! one exit status for all.

use vstd::prelude::*;
use crate::shard::shard_root_of;
use crate::shutdown::SignalDeliveryError;
use crate::watcher::{WatchError, WatchPhase, Watcher};

verus! {

/// The exit status of a clean shutdown.
pub const EXIT_CLEAN: i32 = 0;

/// The exit status where any thread failed.
pub const EXIT_FAILURE: i32 = 1;

/// How a thread of the pipeline ended.
#[derive(Clone, Copy, Debug, PartialEq, Eq, Structural)]
pub enum ThreadOutcome {
    /// It returned without error.
    Completed,
    /// It was a watcher, and its watch failed.
    WatchFailed(WatchError),
    /// It was the relay, and a shutdown signal could not be delivered.
    RelayFailed(SignalDeliveryError),
    /// It panicked.
    Panicked,
}

/// Whether every thread returned without error.
pub open spec fn all_completed(outcomes: Seq<ThreadOutcome>) -> bool {
    forall|i: int| 0 <= i < outcomes.len() ==> outcomes[i] == ThreadOutcome::Completed
}

/// Whether `index` is the first thread in `outcomes` that did not complete.
pub open spec fn is_first_failure(outcomes: Seq<ThreadOutcome>, index: int) -> bool {
    &&& 0 <= index < outcomes.len()
    &&& outcomes[index] != ThreadOutcome::Completed
    &&& forall|i: int| 0 <= i < index ==> outcomes[i] == ThreadOutcome::Completed
}

/// The first thread that did not complete, if any.
pub fn first_failure(outcomes: &Vec<ThreadOutcome>) -> (found: Option<usize>)
    ensures
        found is None <==> all_completed(outcomes@),
        found matches Some(index) ==> is_first_failure(outcomes@, index as int),
{
    let mut i: usize = 0;
    while i < outcomes.len()
        invariant
            i <= outcomes.len(),
            forall|k: int| 0 <= k < i ==> outcomes[k] == ThreadOutcome::Completed,
        decreases outcomes.len() - i,
    {
        match outcomes[i] {
            ThreadOutcome::Completed => {},
            _ => {
                return Some(i);
            },
        }
        i = i + 1;
    }
    None
}

/// The exit status of the process: clean where every thread completed, a
/// failure where any one did not. The threads fail together.
pub fn exit_status(outcomes: &Vec<ThreadOutcome>) -> (status: i32)
    ensures
        status == if all_completed(outcomes@) {
            EXIT_CLEAN
        } else {
            EXIT_FAILURE
        },
{
    match first_failure(outcomes) {
        None => EXIT_CLEAN,
        Some(_) => EXIT_FAILURE,
    }
}

/// The watchers of a spool with `shards` shards: the watcher at index `i`
/// watches shard `i`, so every shard has exactly one.
pub fn plan_watchers(spool: &Vec<u8>, shards: u32) -> (watchers: Vec<Watcher>)
    ensures
        watchers.len() == shards,
        forall|i: int|
            0 <= i < shards ==> {
                &&& (#[trigger] watchers[i]).shard_id == i
                &&& watchers[i].shard_root@ == shard_root_of(spool@, i as nat)
                &&& watchers[i].phase == WatchPhase::Unarmed
            },
{
    let mut watchers: Vec<Watcher> = Vec::new();
    let mut id: u32 = 0;
    while id < shards
        invariant
            id <= shards,
            watchers.len() == id,
            forall|i: int|
                0 <= i < id ==> {
                    &&& (#[trigger] watchers[i]).shard_id == i
                    &&& watchers[i].shard_root@ == shard_root_of(spool@, i as nat)
                    &&& watchers[i].phase == WatchPhase::Unarmed
                },
        decreases shards - id,
    {
        watchers.push(Watcher::new(spool, id));
        id = id + 1;
    }
    watchers
}

} // verus!
