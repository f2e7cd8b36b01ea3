//! Relaying a termination signal to every consumer.
//!
//! The signal handler only raises a flag and wakes the relay. The relay,
//! an ordinary thread, checks the flag when it wakes and then puts one
//! shutdown signal per consumer on the signal channel.

use vstd::prelude::*;
use crate::channel::try_send_signal;

verus! {

/// The capacity of the signal channel. It leaves room for one signal per
/// consumer and some to spare.
pub const SIGNAL_CAPACITY: usize = 20;

/// The message that tells one consumer to shut down.
#[derive(Clone, Copy, Debug, PartialEq, Eq, Structural)]
pub struct ShutdownSignal;

/// How an attempt to put a signal on the channel ended.
#[derive(Clone, Copy, Debug, PartialEq, Eq, Structural)]
pub enum SendOutcome {
    /// The signal is on the channel.
    Delivered,
    /// The channel had no room.
    Full,
    /// Every receiver is gone.
    Closed,
}

/// Why the relay could not reach every consumer.
#[derive(Clone, Copy, Debug, PartialEq, Eq, Structural)]
pub enum SignalDeliveryError {
    /// The channel was full after this many signals.
    ChannelFull { delivered: usize },
    /// The channel was closed after this many signals.
    ChannelClosed { delivered: usize },
}

/// Where the relay stands in its life.
#[derive(Clone, Copy, Debug, PartialEq, Eq, Structural)]
pub enum RelayPhase {
    /// Waiting to be woken by the signal handler.
    Parked,
    /// The flag was seen raised. This many signals are on the channel.
    Dispatching { sent: usize },
    /// Every consumer has its signal.
    Done,
    /// A signal could not be delivered.
    Failed(SignalDeliveryError),
}

/// What the relay asks of the caller.
#[derive(Clone, Copy, Debug, PartialEq, Eq, Structural)]
pub enum RelayAction {
    /// Park until the signal handler wakes the relay.
    Park,
    /// Put one signal on the channel.
    Send,
    /// Return: all signals are out.
    Finish,
    /// Return this error.
    Fail(SignalDeliveryError),
}

/// The number of consumers that wait for a shutdown signal where `watchers`
/// watchers run: the watchers and the archiver.
pub open spec fn consumers_of(watchers: nat) -> nat {
    watchers + 1
}

/// What the relay asks for while it stands in `phase`.
pub open spec fn action_in(phase: RelayPhase) -> RelayAction {
    match phase {
        RelayPhase::Parked => RelayAction::Park,
        RelayPhase::Dispatching { .. } => RelayAction::Send,
        RelayPhase::Done => RelayAction::Finish,
        RelayPhase::Failed(error) => RelayAction::Fail(error),
    }
}

/// The phase after the relay woke and read `raised` from the flag. Only a
/// parked relay that finds the flag raised starts to dispatch: a wake-up
/// with the flag down is spurious, and later wake-ups change nothing.
pub open spec fn phase_after_wake(phase: RelayPhase, raised: bool) -> RelayPhase {
    if phase == RelayPhase::Parked && raised {
        RelayPhase::Dispatching { sent: 0 }
    } else {
        phase
    }
}

/// The phase after an attempt to send ended in `outcome`, where `consumers`
/// signals are due.
pub open spec fn phase_after_send(
    phase: RelayPhase,
    consumers: usize,
    outcome: SendOutcome,
) -> RelayPhase {
    match phase {
        RelayPhase::Dispatching { sent } => match outcome {
            SendOutcome::Delivered => if sent + 1 < consumers {
                RelayPhase::Dispatching { sent: (sent + 1) as usize }
            } else {
                RelayPhase::Done
            },
            SendOutcome::Full => RelayPhase::Failed(
                SignalDeliveryError::ChannelFull { delivered: sent },
            ),
            SendOutcome::Closed => RelayPhase::Failed(
                SignalDeliveryError::ChannelClosed { delivered: sent },
            ),
        },
        _ => phase,
    }
}

/// The phase after `count` signals in a row were delivered.
pub open spec fn phase_after_deliveries(phase: RelayPhase, consumers: usize, count: nat) -> RelayPhase
    decreases count,
{
    if count == 0 {
        phase
    } else {
        phase_after_deliveries(
            phase_after_send(phase, consumers, SendOutcome::Delivered),
            consumers,
            (count - 1) as nat,
        )
    }
}

/// The number of signals that a relay in `phase` still owes. A relay that
/// dispatches always owes at least one.
pub open spec fn signals_due(phase: RelayPhase, consumers: usize) -> nat {
    match phase {
        RelayPhase::Dispatching { sent } => if sent < consumers {
            (consumers - sent) as nat
        } else {
            1
        },
        _ => 0,
    }
}

/// The number of signals that were delivered before `error`.
pub open spec fn delivered_before(error: SignalDeliveryError) -> usize {
    match error {
        SignalDeliveryError::ChannelFull { delivered } => delivered,
        SignalDeliveryError::ChannelClosed { delivered } => delivered,
    }
}

/// The relay.
pub struct Relay {
    /// The number of signals that are due: one per consumer.
    pub consumers: usize,
    pub phase: RelayPhase,
}

impl Relay {
    /// The relay has at least one consumer, all of their signals fit on the
    /// channel together, and while it dispatches some signal is still due.
    pub open spec fn wf(self) -> bool {
        &&& 1 <= self.consumers <= SIGNAL_CAPACITY
        &&& self.phase matches RelayPhase::Dispatching { sent } ==> sent < self.consumers
    }

    /// A parked relay for `watchers` watchers and the archiver, or `None`
    /// where the signal channel cannot hold a signal for each of them.
    pub fn new(watchers: usize) -> (relay: Option<Relay>)
        ensures
            relay is Some <==> consumers_of(watchers as nat) <= SIGNAL_CAPACITY,
            relay matches Some(r) ==> r.wf() && r.consumers == consumers_of(watchers as nat)
                && r.phase == RelayPhase::Parked,
    {
        if watchers < SIGNAL_CAPACITY {
            Some(Relay { consumers: watchers + 1, phase: RelayPhase::Parked })
        } else {
            None
        }
    }

    /// What the relay asks for now.
    pub fn action(&self) -> (action: RelayAction)
        ensures
            action == action_in(self.phase),
    {
        match self.phase {
            RelayPhase::Parked => RelayAction::Park,
            RelayPhase::Dispatching { .. } => RelayAction::Send,
            RelayPhase::Done => RelayAction::Finish,
            RelayPhase::Failed(error) => RelayAction::Fail(error),
        }
    }

    /// The relay woke up and read `raised` from the flag.
    pub fn on_wake(&mut self, raised: bool) -> (action: RelayAction)
        ensures
            old(self).wf() ==> final(self).wf(),
            final(self).consumers == old(self).consumers,
            final(self).phase == phase_after_wake(old(self).phase, raised),
            action == action_in(final(self).phase),
    {
        match self.phase {
            RelayPhase::Parked => {
                if raised {
                    self.phase = RelayPhase::Dispatching { sent: 0 };
                }
            },
            _ => {},
        }
        self.action()
    }

    /// An attempt to put a signal on the channel ended in `outcome`.
    pub fn on_send(&mut self, outcome: SendOutcome) -> (action: RelayAction)
        ensures
            old(self).wf() ==> final(self).wf(),
            final(self).consumers == old(self).consumers,
            final(self).phase == phase_after_send(old(self).phase, old(self).consumers, outcome),
            action == action_in(final(self).phase),
    {
        match self.phase {
            RelayPhase::Dispatching { sent } => {
                match outcome {
                    SendOutcome::Delivered => {
                        if sent < self.consumers && sent + 1 < self.consumers {
                            self.phase = RelayPhase::Dispatching { sent: sent + 1 };
                        } else {
                            self.phase = RelayPhase::Done;
                        }
                    },
                    SendOutcome::Full => {
                        self.phase = RelayPhase::Failed(
                            SignalDeliveryError::ChannelFull { delivered: sent },
                        );
                    },
                    SendOutcome::Closed => {
                        self.phase = RelayPhase::Failed(
                            SignalDeliveryError::ChannelClosed { delivered: sent },
                        );
                    },
                }
            },
            _ => {},
        }
        self.action()
    }

    /// Puts the signals that are still due on the channel behind `sender`,
    /// one after the other, and stops at the first that is refused. A relay
    /// that is not dispatching sends nothing.
    ///
    /// Whether the channel takes a signal is for the channel to say, so the
    /// relay may end done or failed. Where it fails, the error tells how many
    /// consumers had their signal.
    pub fn dispatch(&mut self, sender: &crossbeam_channel::Sender<ShutdownSignal>) -> (action:
        RelayAction)
        ensures
            old(self).wf() ==> final(self).wf(),
            final(self).consumers == old(self).consumers,
            !(old(self).phase is Dispatching) ==> final(self).phase == old(self).phase,
            old(self).phase is Dispatching ==> {
                ||| final(self).phase is Done
                ||| final(self).phase is Failed
            },
            old(self).phase matches RelayPhase::Dispatching { sent } ==> (
            final(self).phase matches RelayPhase::Failed(error) ==> sent <= delivered_before(
                error,
            )),
            action == action_in(final(self).phase),
    {
        let ghost start = self.phase;
        loop
            invariant
                old(self).wf() ==> self.wf(),
                self.consumers == old(self).consumers,
                !(start is Dispatching) ==> self.phase == start,
                start is Dispatching ==> !(self.phase is Parked),
                start matches RelayPhase::Dispatching { sent } ==> (
                self.phase matches RelayPhase::Dispatching { sent: now } ==> sent <= now),
                start matches RelayPhase::Dispatching { sent } ==> (
                self.phase matches RelayPhase::Failed(error) ==> sent <= delivered_before(error)),
                start == old(self).phase,
            ensures
                !(self.phase is Dispatching),
            decreases signals_due(self.phase, self.consumers),
        {
            match self.phase {
                RelayPhase::Dispatching { .. } => {
                    let outcome = try_send_signal(sender);
                    self.on_send(outcome);
                },
                _ => {
                    break ;
                },
            }
        }
        self.action()
    }
}

/// One signal per consumer: a relay that starts to dispatch is done after
/// as many deliveries as there are consumers, and not before.
pub proof fn lemma_one_signal_per_consumer(consumers: usize, sent: usize, count: nat)
    requires
        sent < consumers,
        sent + count <= consumers,
    ensures
        phase_after_deliveries(RelayPhase::Dispatching { sent }, consumers, count) == if sent
            + count == consumers {
            RelayPhase::Done
        } else {
            RelayPhase::Dispatching { sent: (sent + count) as usize }
        },
    decreases count,
{
    if count > 0 {
        if sent + 1 < consumers {
            lemma_one_signal_per_consumer(consumers, (sent + 1) as usize, (count - 1) as nat);
        } else {
            assert(count == 1);
            assert(phase_after_deliveries(RelayPhase::Done, consumers, 0) == RelayPhase::Done);
        }
    }
}

} // verus!
