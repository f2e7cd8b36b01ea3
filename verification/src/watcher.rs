//! The watcher of one shard: what it does with each thing that the
//! notification backend reports.
//!
//! The caller owns the backend and the channels. It feeds the watcher one
//! input at a time and carries out the action that comes back.

use vstd::prelude::*;
use crate::event::JobScriptEvent;
use crate::shard::{
    is_job_script_path, lemma_shard_of_path_unique, names_job_script, shard_root, shard_root_of,
};

verus! {

/// What happened to a path, as far as a watcher cares.
#[derive(Clone, Copy, Debug, PartialEq, Eq, Structural)]
pub enum NoticeKind {
    /// A regular file came into being.
    FileCreated,
    /// A file that was open for writing has been closed.
    FileClosedAfterWrite,
    /// Anything else: directories, removals, renames, reads.
    Other,
}

/// One report of the notification backend.
#[derive(Debug, PartialEq, Eq)]
pub struct FsNotice {
    pub kind: NoticeKind,
    pub path: Vec<u8>,
}

/// Why the notification backend gave up on a shard.
#[derive(Clone, Copy, Debug, PartialEq, Eq, Structural)]
pub enum WatchFault {
    /// The shard directory is not there.
    PathNotFound,
    /// The shard directory may not be read.
    PermissionDenied,
    /// The backend itself failed.
    Backend,
}

/// The failure of a watcher, with the shard it was watching.
#[derive(Clone, Copy, Debug, PartialEq, Eq, Structural)]
pub struct WatchError {
    pub shard_id: u32,
    pub fault: WatchFault,
}

/// Where a watcher stands in its life.
#[derive(Clone, Copy, Debug, PartialEq, Eq, Structural)]
pub enum WatchPhase {
    /// The watch is not placed yet: the shard directory has not been seen.
    Unarmed,
    /// The watch is placed and notices are coming in.
    Armed,
    /// A shutdown signal arrived. The watcher has returned without error.
    Stopped,
    /// The backend failed for good. The watcher has returned this fault.
    Failed(WatchFault),
}

/// What the caller reports to a watcher.
#[derive(Debug, PartialEq, Eq)]
pub enum WatchInput {
    /// The watch was placed on the shard directory.
    ArmSucceeded,
    /// The backend reported a fault, while placing the watch or later.
    Fault(WatchFault),
    /// The backend reported a notice, at the given time in seconds since the
    /// Unix epoch.
    Notice { notice: FsNotice, seen_at: i64 },
    /// A shutdown signal arrived.
    Shutdown,
}

/// What a watcher asks of the caller.
#[derive(Debug, PartialEq, Eq)]
pub enum WatchAction {
    /// Try to place the watch on the shard directory.
    Arm,
    /// Wait for the next notice or signal.
    Wait,
    /// Publish this event on the work queue, then wait.
    Emit(JobScriptEvent),
    /// Return without error.
    Finish,
    /// Return this error.
    Fail(WatchError),
}

/// The watcher of one shard.
pub struct Watcher {
    pub shard_id: u32,
    pub shard_root: Vec<u8>,
    pub phase: WatchPhase,
}

impl Watcher {
    /// Whether `notice` announces a job script of this watcher's shard: a
    /// file was created or closed after writing, in a job directory directly
    /// below the shard directory.
    pub open spec fn announces(self, notice: FsNotice) -> bool {
        notice.kind != NoticeKind::Other && is_job_script_path(self.shard_root@, notice.path@)
    }

    /// The event that this watcher makes of a notice that announces a
    /// script.
    pub open spec fn event_for(self, notice: FsNotice, seen_at: i64) -> JobScriptEvent {
        JobScriptEvent {
            shard_id: self.shard_id,
            script_path: notice.path,
            discovered_at: seen_at,
        }
    }

    /// The phase that follows `input`.
    ///
    /// A shutdown signal stops a watcher that is still running. A missing
    /// shard directory is no failure while the watch is not placed: the
    /// scheduler makes the directory when it first needs it. Every other
    /// fault is final. A watcher that has stopped or failed stays as it is.
    pub open spec fn next_phase(self, input: WatchInput) -> WatchPhase {
        match self.phase {
            WatchPhase::Stopped => WatchPhase::Stopped,
            WatchPhase::Failed(fault) => WatchPhase::Failed(fault),
            WatchPhase::Unarmed => match input {
                WatchInput::ArmSucceeded => WatchPhase::Armed,
                WatchInput::Fault(WatchFault::PathNotFound) => WatchPhase::Unarmed,
                WatchInput::Fault(fault) => WatchPhase::Failed(fault),
                WatchInput::Notice { .. } => WatchPhase::Unarmed,
                WatchInput::Shutdown => WatchPhase::Stopped,
            },
            WatchPhase::Armed => match input {
                WatchInput::ArmSucceeded => WatchPhase::Armed,
                WatchInput::Fault(fault) => WatchPhase::Failed(fault),
                WatchInput::Notice { .. } => WatchPhase::Armed,
                WatchInput::Shutdown => WatchPhase::Stopped,
            },
        }
    }

    /// What the watcher asks for after `input`.
    pub open spec fn action_on(self, input: WatchInput) -> WatchAction {
        match self.next_phase(input) {
            WatchPhase::Stopped => WatchAction::Finish,
            WatchPhase::Failed(fault) => WatchAction::Fail(
                WatchError { shard_id: self.shard_id, fault },
            ),
            WatchPhase::Unarmed => WatchAction::Arm,
            WatchPhase::Armed => match input {
                WatchInput::Notice { notice, seen_at } => if self.phase == WatchPhase::Armed
                    && self.announces(notice) {
                    WatchAction::Emit(self.event_for(notice, seen_at))
                } else {
                    WatchAction::Wait
                },
                _ => WatchAction::Wait,
            },
        }
    }

    /// A watcher for shard `shard_id` of the spool at `spool`, with its watch
    /// not placed yet.
    pub fn new(spool: &Vec<u8>, shard_id: u32) -> (watcher: Watcher)
        ensures
            watcher.shard_id == shard_id,
            watcher.shard_root@ == shard_root_of(spool@, shard_id as nat),
            watcher.phase == WatchPhase::Unarmed,
    {
        Watcher { shard_id, shard_root: shard_root(spool, shard_id), phase: WatchPhase::Unarmed }
    }

    /// Whether the watcher has returned.
    pub fn is_done(&self) -> (done: bool)
        ensures
            done == (self.phase == WatchPhase::Stopped || self.phase is Failed),
    {
        match self.phase {
            WatchPhase::Stopped => true,
            WatchPhase::Failed(_) => true,
            _ => false,
        }
    }

    /// Takes one input and says what to do next. An event that comes out
    /// carries this watcher's shard and the path of the notice.
    pub fn step(&mut self, input: WatchInput) -> (action: WatchAction)
        ensures
            final(self).shard_id == old(self).shard_id,
            final(self).shard_root == old(self).shard_root,
            final(self).phase == old(self).next_phase(input),
            *final(self) == watcher_after(*old(self), input),
            action == old(self).action_on(input),
            action matches WatchAction::Emit(event) ==> event.shard_id == old(self).shard_id,
    {
        match self.phase {
            WatchPhase::Stopped => WatchAction::Finish,
            WatchPhase::Failed(fault) => WatchAction::Fail(
                WatchError { shard_id: self.shard_id, fault },
            ),
            WatchPhase::Unarmed => match input {
                WatchInput::ArmSucceeded => {
                    self.phase = WatchPhase::Armed;
                    WatchAction::Wait
                },
                WatchInput::Fault(WatchFault::PathNotFound) => WatchAction::Arm,
                WatchInput::Fault(fault) => {
                    self.phase = WatchPhase::Failed(fault);
                    WatchAction::Fail(WatchError { shard_id: self.shard_id, fault })
                },
                WatchInput::Notice { .. } => WatchAction::Arm,
                WatchInput::Shutdown => {
                    self.phase = WatchPhase::Stopped;
                    WatchAction::Finish
                },
            },
            WatchPhase::Armed => match input {
                WatchInput::ArmSucceeded => WatchAction::Wait,
                WatchInput::Fault(fault) => {
                    self.phase = WatchPhase::Failed(fault);
                    WatchAction::Fail(WatchError { shard_id: self.shard_id, fault })
                },
                WatchInput::Notice { notice, seen_at } => {
                    let wanted = match notice.kind {
                        NoticeKind::Other => false,
                        _ => names_job_script(&self.shard_root, &notice.path),
                    };
                    if wanted {
                        WatchAction::Emit(
                            JobScriptEvent {
                                shard_id: self.shard_id,
                                script_path: notice.path,
                                discovered_at: seen_at,
                            },
                        )
                    } else {
                        WatchAction::Wait
                    }
                },
                WatchInput::Shutdown => {
                    self.phase = WatchPhase::Stopped;
                    WatchAction::Finish
                },
            },
        }
    }
}

/// The watcher after `input`.
pub open spec fn watcher_after(watcher: Watcher, input: WatchInput) -> Watcher {
    Watcher { phase: watcher.next_phase(input), ..watcher }
}

/// The watcher after all of `inputs`.
pub open spec fn watcher_after_all(watcher: Watcher, inputs: Seq<WatchInput>) -> Watcher
    decreases inputs.len(),
{
    if inputs.len() == 0 {
        watcher
    } else {
        watcher_after_all(watcher_after(watcher, inputs[0]), inputs.drop_first())
    }
}

/// The events that `watcher` emits on `inputs`, in the order in which it
/// emits them.
pub open spec fn emitted(watcher: Watcher, inputs: Seq<WatchInput>) -> Seq<JobScriptEvent>
    decreases inputs.len(),
{
    if inputs.len() == 0 {
        Seq::empty()
    } else {
        let rest = emitted(watcher_after(watcher, inputs[0]), inputs.drop_first());
        match watcher.action_on(inputs[0]) {
            WatchAction::Emit(event) => seq![event] + rest,
            _ => rest,
        }
    }
}

/// A watcher emits in the order of the reports: what it emits on a run of
/// inputs stands, unchanged and in front, whatever is reported later.
pub proof fn lemma_emitted_in_report_order(
    watcher: Watcher,
    earlier: Seq<WatchInput>,
    later: Seq<WatchInput>,
)
    ensures
        emitted(watcher, earlier + later) == emitted(watcher, earlier) + emitted(
            watcher_after_all(watcher, earlier),
            later,
        ),
        watcher_after_all(watcher, earlier + later) == watcher_after_all(
            watcher_after_all(watcher, earlier),
            later,
        ),
    decreases earlier.len(),
{
    if earlier.len() == 0 {
        assert(earlier + later =~= later);
        assert(Seq::<JobScriptEvent>::empty() + emitted(watcher, later) =~= emitted(
            watcher,
            later,
        ));
    } else {
        let all = earlier + later;
        let next = watcher_after(watcher, earlier[0]);
        assert(all[0] == earlier[0]);
        assert(all.drop_first() =~= earlier.drop_first() + later);
        lemma_emitted_in_report_order(next, earlier.drop_first(), later);
        let tail = emitted(watcher_after_all(watcher, earlier), later);
        let rest = emitted(next, earlier.drop_first());
        match watcher.action_on(earlier[0]) {
            WatchAction::Emit(event) => {
                assert(seq![event] + (rest + tail) =~= (seq![event] + rest) + tail);
            },
            _ => {},
        }
    }
}

/// Every event that a watcher emits carries the watcher's own shard.
pub proof fn lemma_emitted_carry_own_shard(watcher: Watcher, inputs: Seq<WatchInput>)
    ensures
        forall|i: int|
            0 <= i < emitted(watcher, inputs).len() ==> (#[trigger] emitted(
                watcher,
                inputs,
            )[i]).shard_id == watcher.shard_id,
    decreases inputs.len(),
{
    if inputs.len() > 0 {
        let next = watcher_after(watcher, inputs[0]);
        let rest = emitted(next, inputs.drop_first());
        let all = emitted(watcher, inputs);
        lemma_emitted_carry_own_shard(next, inputs.drop_first());
        assert forall|i: int| 0 <= i < all.len() implies (#[trigger] all[i]).shard_id
            == watcher.shard_id by {
            match watcher.action_on(inputs[0]) {
                WatchAction::Emit(event) => {
                    if i > 0 {
                        assert(all[i] == rest[i - 1]);
                    }
                },
                _ => {},
            }
        }
    }
}

/// No script is attributed to two shards: where watchers of two shards of one
/// spool both take a notice for the announcement of a script, they watch the
/// same shard, and the events that they make of it carry that shard.
pub proof fn lemma_attribution_unique(
    spool: Seq<u8>,
    first: Watcher,
    second: Watcher,
    notice: FsNotice,
    seen_at: i64,
)
    requires
        first.shard_root@ == shard_root_of(spool, first.shard_id as nat),
        second.shard_root@ == shard_root_of(spool, second.shard_id as nat),
        first.announces(notice),
        second.announces(notice),
    ensures
        first.shard_id == second.shard_id,
        first.event_for(notice, seen_at) == second.event_for(notice, seen_at),
{
    lemma_shard_of_path_unique(
        spool,
        first.shard_id as nat,
        second.shard_id as nat,
        notice.path@,
    );
}

} // verus!
