//! What travels from the watchers to the archiver.

use vstd::prelude::*;

verus! {

/// The discovery of one job script. A watcher makes it, the work queue
/// carries it, and the archiver consumes it once.
#[derive(Clone, Debug, PartialEq, Eq)]
pub struct JobScriptEvent {
    /// The shard in which the script was seen.
    pub shard_id: u32,
    /// Where the script lies.
    pub script_path: Vec<u8>,
    /// When it was seen, in seconds since the Unix epoch.
    pub discovered_at: i64,
}

impl JobScriptEvent {
    /// What tells one discovery from another: the shard, the path and the
    /// time.
    pub open spec fn key(self) -> (u32, Seq<u8>, i64) {
        (self.shard_id, self.script_path@, self.discovered_at)
    }
}

/// The keys of a sequence of events, in order.
pub open spec fn keys_of(events: Seq<JobScriptEvent>) -> Seq<(u32, Seq<u8>, i64)> {
    events.map_values(|e: JobScriptEvent| e.key())
}

} // verus!
