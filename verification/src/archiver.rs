//! The archiver: the single consumer of the work queue.
//!
//! The caller owns the queue, the signal channel and the files. It reports
//! each arrival to the archiver, copies the script of every event that the
//! archiver accepts, and goes on until the archiver has stopped. Whether a
//! copy succeeds is never reported back, so a failed copy cannot stop the
//! archiver or touch its state.

use vstd::prelude::*;
use crate::event::{keys_of, JobScriptEvent};

verus! {

/// Where the archiver stands in its life.
#[derive(Clone, Copy, Debug, PartialEq, Eq, Structural)]
pub enum ArchivePhase {
    /// Taking events as they come.
    Running,
    /// A shutdown signal was seen. This many events were in the queue at
    /// that moment and are still to be taken.
    Draining { remaining: usize },
    /// The archiver has returned.
    Stopped,
}

/// What the caller reports to the archiver.
#[derive(Debug, PartialEq, Eq)]
pub enum Arrival {
    /// The next event of the work queue.
    Event(JobScriptEvent),
    /// A shutdown signal, with the length of the work queue at the moment
    /// the signal was seen.
    Shutdown { queued: usize },
    /// The work queue is closed and empty: no event will ever come.
    Closed,
}

/// The phase that follows `arrival`, for an archiver in `phase` that does or
/// does not drain its queue on shutdown.
///
/// On a shutdown signal a running archiver stops at once unless it drains
/// and events are queued. A draining archiver counts down with every event
/// and stops with the last one. A closed queue stops the archiver wherever
/// it stands.
pub open spec fn phase_after(phase: ArchivePhase, cleanup: bool, arrival: Arrival) -> ArchivePhase {
    match phase {
        ArchivePhase::Stopped => ArchivePhase::Stopped,
        ArchivePhase::Running => match arrival {
            Arrival::Event(_) => ArchivePhase::Running,
            Arrival::Shutdown { queued } => if cleanup && queued > 0 {
                ArchivePhase::Draining { remaining: queued }
            } else {
                ArchivePhase::Stopped
            },
            Arrival::Closed => ArchivePhase::Stopped,
        },
        ArchivePhase::Draining { remaining } => match arrival {
            Arrival::Event(_) => if remaining > 1 {
                ArchivePhase::Draining { remaining: (remaining - 1) as usize }
            } else {
                ArchivePhase::Stopped
            },
            Arrival::Shutdown { .. } => if remaining > 0 {
                phase
            } else {
                ArchivePhase::Stopped
            },
            Arrival::Closed => ArchivePhase::Stopped,
        },
    }
}

/// The event that an archiver in `phase` takes from `arrival` to archive it,
/// if any: every event while it runs, the queued ones while it drains, none
/// once it has stopped.
pub open spec fn accepted_in(phase: ArchivePhase, arrival: Arrival) -> Option<JobScriptEvent> {
    match (phase, arrival) {
        (ArchivePhase::Running, Arrival::Event(event)) => Some(event),
        (ArchivePhase::Draining { remaining }, Arrival::Event(event)) => if remaining > 0 {
            Some(event)
        } else {
            None
        },
        _ => None,
    }
}

/// The phase that an archiver in `phase` reaches through `arrivals`.
pub open spec fn phase_after_all(
    phase: ArchivePhase,
    cleanup: bool,
    arrivals: Seq<Arrival>,
) -> ArchivePhase
    decreases arrivals.len(),
{
    if arrivals.len() == 0 {
        phase
    } else {
        phase_after_all(phase_after(phase, cleanup, arrivals[0]), cleanup, arrivals.drop_first())
    }
}

/// The events that an archiver in `phase` archives of `arrivals`, in the
/// order in which it takes them.
pub open spec fn archived(phase: ArchivePhase, cleanup: bool, arrivals: Seq<Arrival>) -> Seq<
    JobScriptEvent,
>
    decreases arrivals.len(),
{
    if arrivals.len() == 0 {
        Seq::empty()
    } else {
        let rest = archived(
            phase_after(phase, cleanup, arrivals[0]),
            cleanup,
            arrivals.drop_first(),
        );
        match accepted_in(phase, arrivals[0]) {
            Some(event) => seq![event] + rest,
            None => rest,
        }
    }
}

/// The events among `arrivals`, in order.
pub open spec fn events_in(arrivals: Seq<Arrival>) -> Seq<JobScriptEvent>
    decreases arrivals.len(),
{
    if arrivals.len() == 0 {
        Seq::empty()
    } else {
        let rest = events_in(arrivals.drop_first());
        match arrivals[0] {
            Arrival::Event(event) => seq![event] + rest,
            _ => rest,
        }
    }
}

/// The arrivals that deliver `events` one by one.
pub open spec fn deliveries(events: Seq<JobScriptEvent>) -> Seq<Arrival> {
    events.map_values(|event: JobScriptEvent| Arrival::Event(event))
}

/// The archiver.
pub struct Archiver {
    /// Whether a shutdown signal lets the queued events through.
    pub cleanup: bool,
    pub phase: ArchivePhase,
}

impl Archiver {
    /// A running archiver.
    pub fn new(cleanup: bool) -> (archiver: Archiver)
        ensures
            archiver.cleanup == cleanup,
            archiver.phase == ArchivePhase::Running,
    {
        Archiver { cleanup, phase: ArchivePhase::Running }
    }

    /// Whether the archiver has returned.
    pub fn is_stopped(&self) -> (stopped: bool)
        ensures
            stopped == (self.phase == ArchivePhase::Stopped),
    {
        match self.phase {
            ArchivePhase::Stopped => true,
            _ => false,
        }
    }

    /// Takes one arrival. The event that comes back, if any, is to be
    /// archived now.
    pub fn step(&mut self, arrival: Arrival) -> (accepted: Option<JobScriptEvent>)
        ensures
            final(self).cleanup == old(self).cleanup,
            final(self).phase == phase_after(old(self).phase, old(self).cleanup, arrival),
            accepted == accepted_in(old(self).phase, arrival),
    {
        match self.phase {
            ArchivePhase::Stopped => None,
            ArchivePhase::Running => match arrival {
                Arrival::Event(event) => Some(event),
                Arrival::Shutdown { queued } => {
                    if self.cleanup && queued > 0 {
                        self.phase = ArchivePhase::Draining { remaining: queued };
                    } else {
                        self.phase = ArchivePhase::Stopped;
                    }
                    None
                },
                Arrival::Closed => {
                    self.phase = ArchivePhase::Stopped;
                    None
                },
            },
            ArchivePhase::Draining { remaining } => match arrival {
                Arrival::Event(event) => {
                    if remaining > 1 {
                        self.phase = ArchivePhase::Draining { remaining: remaining - 1 };
                    } else {
                        self.phase = ArchivePhase::Stopped;
                    }
                    if remaining > 0 {
                        Some(event)
                    } else {
                        None
                    }
                },
                Arrival::Shutdown { .. } => {
                    if remaining == 0 {
                        self.phase = ArchivePhase::Stopped;
                    }
                    None
                },
                Arrival::Closed => {
                    self.phase = ArchivePhase::Stopped;
                    None
                },
            },
        }
    }
}

/// An archiver that has stopped archives nothing more and stays stopped.
pub proof fn lemma_stopped_archives_nothing(cleanup: bool, arrivals: Seq<Arrival>)
    ensures
        archived(ArchivePhase::Stopped, cleanup, arrivals) == Seq::<JobScriptEvent>::empty(),
        phase_after_all(ArchivePhase::Stopped, cleanup, arrivals) == ArchivePhase::Stopped,
    decreases arrivals.len(),
{
    if arrivals.len() > 0 {
        lemma_stopped_archives_nothing(cleanup, arrivals.drop_first());
    }
}

/// An archiver that has `remaining` events to drain takes exactly the next
/// `remaining` events and then stops, whatever follows them.
pub proof fn lemma_draining_takes_remaining(
    cleanup: bool,
    remaining: usize,
    events: Seq<JobScriptEvent>,
)
    requires
        remaining >= 1,
        events.len() >= remaining,
    ensures
        archived(ArchivePhase::Draining { remaining }, cleanup, deliveries(events))
            == events.subrange(0, remaining as int),
        phase_after_all(ArchivePhase::Draining { remaining }, cleanup, deliveries(events))
            == ArchivePhase::Stopped,
    decreases events.len(),
{
    let arrivals = deliveries(events);
    let tail = events.drop_first();
    assert(arrivals.drop_first() =~= deliveries(tail));
    assert(arrivals[0] == Arrival::Event(events[0]));
    if remaining > 1 {
        lemma_draining_takes_remaining(cleanup, (remaining - 1) as usize, tail);
        assert(seq![events[0]] + tail.subrange(0, remaining - 1) =~= events.subrange(
            0,
            remaining as int,
        ));
    } else {
        lemma_stopped_archives_nothing(cleanup, deliveries(tail));
        assert(seq![events[0]] + Seq::<JobScriptEvent>::empty() =~= events.subrange(0, 1));
    }
}

/// Draining on shutdown: where `queued` events are in the queue at the
/// moment a running archiver that drains sees the signal, it archives those
/// `queued` events, in order, takes none of the events that follow them, and
/// stops.
pub proof fn lemma_shutdown_drains_queued(queued: usize, events: Seq<JobScriptEvent>)
    requires
        events.len() >= queued,
    ensures
        archived(
            ArchivePhase::Running,
            true,
            seq![Arrival::Shutdown { queued }] + deliveries(events),
        ) == events.subrange(0, queued as int),
        phase_after_all(
            ArchivePhase::Running,
            true,
            seq![Arrival::Shutdown { queued }] + deliveries(events),
        ) == ArchivePhase::Stopped,
{
    let arrivals = seq![Arrival::Shutdown { queued }] + deliveries(events);
    assert(arrivals.drop_first() =~= deliveries(events));
    assert(arrivals[0] == Arrival::Shutdown { queued });
    if queued > 0 {
        lemma_draining_takes_remaining(true, queued, events);
    } else {
        lemma_stopped_archives_nothing(true, deliveries(events));
        assert(events.subrange(0, 0) =~= Seq::<JobScriptEvent>::empty());
    }
}

/// Immediate shutdown: a running archiver that does not drain stops when it
/// sees the signal, and archives nothing of what is queued or comes later.
pub proof fn lemma_shutdown_discards_queue(queued: usize, later: Seq<Arrival>)
    ensures
        archived(ArchivePhase::Running, false, seq![Arrival::Shutdown { queued }] + later)
            == Seq::<JobScriptEvent>::empty(),
        phase_after_all(ArchivePhase::Running, false, seq![Arrival::Shutdown { queued }] + later)
            == ArchivePhase::Stopped,
{
    let arrivals = seq![Arrival::Shutdown { queued }] + later;
    assert(arrivals.drop_first() =~= later);
    assert(arrivals[0] == Arrival::Shutdown { queued });
    lemma_stopped_archives_nothing(false, later);
}

/// Until a shutdown signal or the end of the queue, a running archiver
/// archives every event, in the order of arrival.
pub proof fn lemma_running_archives_all(cleanup: bool, events: Seq<JobScriptEvent>)
    ensures
        archived(ArchivePhase::Running, cleanup, deliveries(events)) == events,
        phase_after_all(ArchivePhase::Running, cleanup, deliveries(events))
            == ArchivePhase::Running,
    decreases events.len(),
{
    if events.len() > 0 {
        let arrivals = deliveries(events);
        let tail = events.drop_first();
        assert(arrivals.drop_first() =~= deliveries(tail));
        assert(arrivals[0] == Arrival::Event(events[0]));
        lemma_running_archives_all(cleanup, tail);
        assert(seq![events[0]] + tail =~= events);
    } else {
        assert(events =~= Seq::<JobScriptEvent>::empty());
    }
}

/// The archiver works in the order of arrival: what it archives of a run of
/// arrivals stands, unchanged and in front, whatever arrives later.
pub proof fn lemma_archived_in_arrival_order(
    phase: ArchivePhase,
    cleanup: bool,
    earlier: Seq<Arrival>,
    later: Seq<Arrival>,
)
    ensures
        archived(phase, cleanup, earlier + later) == archived(phase, cleanup, earlier) + archived(
            phase_after_all(phase, cleanup, earlier),
            cleanup,
            later,
        ),
        phase_after_all(phase, cleanup, earlier + later) == phase_after_all(
            phase_after_all(phase, cleanup, earlier),
            cleanup,
            later,
        ),
    decreases earlier.len(),
{
    if earlier.len() == 0 {
        assert(earlier + later =~= later);
        assert(Seq::<JobScriptEvent>::empty() + archived(phase, cleanup, later) =~= archived(
            phase,
            cleanup,
            later,
        ));
    } else {
        let all = earlier + later;
        let next = phase_after(phase, cleanup, earlier[0]);
        assert(all[0] == earlier[0]);
        assert(all.drop_first() =~= earlier.drop_first() + later);
        lemma_archived_in_arrival_order(next, cleanup, earlier.drop_first(), later);
        let tail = archived(phase_after_all(phase, cleanup, earlier), cleanup, later);
        let rest = archived(next, cleanup, earlier.drop_first());
        match accepted_in(phase, earlier[0]) {
            Some(event) => {
                assert(seq![event] + (rest + tail) =~= (seq![event] + rest) + tail);
            },
            None => {},
        }
    }
}

/// Every archived event is one of the events that arrived, and no more
/// events are archived than arrived.
pub proof fn lemma_archived_from_arrivals(
    phase: ArchivePhase,
    cleanup: bool,
    arrivals: Seq<Arrival>,
)
    ensures
        archived(phase, cleanup, arrivals).len() <= events_in(arrivals).len(),
        forall|i: int|
            0 <= i < archived(phase, cleanup, arrivals).len() ==> events_in(arrivals).contains(
                #[trigger] archived(phase, cleanup, arrivals)[i],
            ),
    decreases arrivals.len(),
{
    if arrivals.len() > 0 {
        let next = phase_after(phase, cleanup, arrivals[0]);
        let rest = archived(next, cleanup, arrivals.drop_first());
        let rest_events = events_in(arrivals.drop_first());
        lemma_archived_from_arrivals(next, cleanup, arrivals.drop_first());
        let all = archived(phase, cleanup, arrivals);
        let all_events = events_in(arrivals);
        assert forall|i: int| 0 <= i < all.len() implies all_events.contains(#[trigger] all[i]) by {
            match accepted_in(phase, arrivals[0]) {
                Some(event) => {
                    if i == 0 {
                        assert(all_events[0] == event);
                    } else {
                        assert(all[i] == rest[i - 1]);
                        let k = choose|k: int| 0 <= k < rest_events.len() && rest_events[k] == rest[i - 1];
                        assert(all_events[k + 1] == rest_events[k]);
                    }
                },
                None => {
                    let k = choose|k: int| 0 <= k < rest_events.len() && rest_events[k] == rest[i];
                    match arrivals[0] {
                        Arrival::Event(_) => {
                            assert(all_events[k + 1] == rest_events[k]);
                        },
                        _ => {},
                    }
                },
            }
        }
    }
}

/// At most once: where the events that arrive differ pairwise in shard, path
/// or time of discovery, so do the events that are archived. No event is
/// archived twice.
pub proof fn lemma_archived_at_most_once(
    phase: ArchivePhase,
    cleanup: bool,
    arrivals: Seq<Arrival>,
)
    requires
        keys_of(events_in(arrivals)).no_duplicates(),
    ensures
        keys_of(archived(phase, cleanup, arrivals)).no_duplicates(),
    decreases arrivals.len(),
{
    if arrivals.len() > 0 {
        let next = phase_after(phase, cleanup, arrivals[0]);
        let tail = arrivals.drop_first();
        let rest = archived(next, cleanup, tail);
        let rest_events = events_in(tail);
        let all = archived(phase, cleanup, arrivals);
        let all_events = events_in(arrivals);
        let shift: int = if arrivals[0] is Event { 1 } else { 0 };
        assert(forall|k: int| 0 <= k < rest_events.len() ==> all_events[k + shift] == rest_events[k]);
        assert forall|i: int, j: int|
            0 <= i < rest_events.len() && 0 <= j < rest_events.len() && i != j implies keys_of(
            rest_events,
        )[i] != keys_of(rest_events)[j] by {
            assert(keys_of(all_events)[i + shift] == keys_of(rest_events)[i]);
            assert(keys_of(all_events)[j + shift] == keys_of(rest_events)[j]);
        }
        lemma_archived_at_most_once(next, cleanup, tail);
        lemma_archived_from_arrivals(next, cleanup, tail);
        match accepted_in(phase, arrivals[0]) {
            Some(event) => {
                assert(all_events[0] == event);
                assert forall|i: int, j: int|
                    0 <= i < all.len() && 0 <= j < all.len() && i != j implies keys_of(all)[i]
                    != keys_of(all)[j] by {
                    if i > 0 && j > 0 {
                        assert(keys_of(all)[i] == keys_of(rest)[i - 1]);
                        assert(keys_of(all)[j] == keys_of(rest)[j - 1]);
                    } else {
                        let other = if i == 0 { j } else { i };
                        assert(all[other] == rest[other - 1]);
                        assert(rest_events.contains(rest[other - 1]));
                        let k = choose|k: int|
                            0 <= k < rest_events.len() && rest_events[k] == rest[other - 1];
                        assert(keys_of(all_events)[k + 1] == rest[other - 1].key());
                        assert(keys_of(all_events)[0] == event.key());
                    }
                }
            },
            None => {},
        }
    }
}

} // verus!
