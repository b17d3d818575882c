//! The shutdown flag: one writer, many readers, one transition.
//!
//! The flag travels through a watch channel of tokio, which wakes the
//! readers. The writer keeps a record of its own that always agrees with
//! the channel, so that it writes to the channel once and never again.

use tokio::sync::watch::{Receiver, Sender};
use vstd::prelude::*;

verus! {

/// The sending half of tokio's watch channel. Nothing is known of what is
/// inside.
#[verifier::external_type_specification]
#[verifier::external_body]
#[verifier::reject_recursive_types(T)]
pub struct ExSender<T>(Sender<T>);

/// The receiving half of tokio's watch channel. Nothing is known of what is
/// inside.
#[verifier::external_type_specification]
#[verifier::external_body]
#[verifier::reject_recursive_types(T)]
pub struct ExReceiver<T>(Receiver<T>);

/// The value that the channel behind a sender holds: the value sent last,
/// or the one the channel was made with. This speaks of a sender that is
/// the only writer of its channel, as the one of a `ShutdownSignal` is: it
/// is never cloned and never handed out.
pub uninterp spec fn held(sender: Sender<bool>) -> bool;

/// The channel that a sender writes to.
pub uninterp spec fn channel_of(sender: Sender<bool>) -> int;

/// The channel that a receiver watches.
pub uninterp spec fn watched_by(receiver: Receiver<bool>) -> int;

/// Calls `Sender::new` of tokio's watch channel, which makes a channel
/// that holds the given value and that no receiver listens to yet.
#[verifier::external_body]
fn new_flag(value: bool) -> (sender: Sender<bool>)
    ensures
        held(sender) == value,
{
    Sender::new(value)
}

/// Calls `Sender::send_replace` of tokio's watch channel, which stores the
/// given value in the sender's channel, also when no receiver exists, and
/// wakes every receiver of that channel. The sender stays with its channel,
/// and the call does not panic.
#[verifier::external_body]
fn write_flag(sender: &mut Sender<bool>, value: bool)
    ensures
        held(*final(sender)) == value,
        channel_of(*final(sender)) == channel_of(*old(sender)),
    no_unwind
{
    sender.send_replace(value);
}

/// Calls `Sender::subscribe` of tokio's watch channel, which gives a new
/// receiver of the sender's channel. Nothing is claimed of what the
/// receiver has seen.
#[verifier::external_body]
fn subscribe(sender: &Sender<bool>) -> (receiver: Receiver<bool>)
    ensures
        watched_by(receiver) == channel_of(*sender),
{
    sender.subscribe()
}

/// Calls `Receiver::borrow` of tokio's watch channel and copies the value
/// out: the value sent last, which depends on what the writer has done by
/// now. Nothing is claimed of it.
#[verifier::external_body]
fn flag_value(receiver: &Receiver<bool>) -> bool {
    *receiver.borrow()
}

/// What a reader of the shutdown flag learns when it is woken.
#[derive(Clone, Copy, Debug, PartialEq, Eq, Structural)]
pub enum Notice {
    /// The flag was written; this is the value it holds now.
    Value(bool),
    /// The writer is gone, so the flag can never change again.
    Closed,
}

impl Notice {
    /// Whether a task that receives this notice must stop.
    pub open spec fn stops(self) -> bool {
        self != Notice::Value(false)
    }

    /// Whether a task that receives this notice must stop.
    pub fn is_stop(&self) -> (stop: bool)
        ensures
            stop == self.stops(),
    {
        match self {
            Notice::Value(stopping) => *stopping,
            Notice::Closed => true,
        }
    }

    /// The notice for a reader that has waited for a change: `changed`
    /// tells whether the wait ended with a change, and not with the loss of
    /// the writer, and `value` is what the flag holds.
    pub fn of(changed: bool, value: bool) -> (notice: Notice)
        ensures
            notice == if changed {
                Notice::Value(value)
            } else {
                Notice::Closed
            },
    {
        if changed {
            Notice::Value(value)
        } else {
            Notice::Closed
        }
    }
}

/// The notice for a reader that has waited for a change on this receiver:
/// `changed` tells whether the wait ended with a change, and not with the
/// loss of the writer. The flag is read only after a change.
pub fn notice(changed: bool, receiver: &Receiver<bool>) -> (notice: Notice)
    ensures
        changed ==> notice is Value,
        !changed ==> notice == Notice::Closed,
{
    if changed {
        Notice::of(true, flag_value(receiver))
    } else {
        Notice::of(false, false)
    }
}

/// The notice with which a reader begins, before it waits for anything:
/// the flag as it stands. A task that is given this notice first stops at
/// once where the flag was set before the task began.
pub fn first_notice(receiver: &Receiver<bool>) -> (notice: Notice)
    ensures
        notice is Value,
{
    Notice::of(true, flag_value(receiver))
}

/// The shutdown flag as plain values.
pub struct Flag {
    /// The writer's own record: whether it was asked to stop.
    pub stopping: bool,
    /// What the channel holds, which is what the readers see.
    pub written: bool,
    /// The channel that the flag travels through.
    pub channel: int,
}

impl Flag {
    /// The flag after a request to stop: set, in the writer's record and in
    /// the channel, and a flag that was set already is left as it is.
    pub open spec fn stopped(self) -> Flag {
        if self.stopping {
            self
        } else {
            Flag { stopping: true, written: true, channel: self.channel }
        }
    }
}

/// Sets the flag in both places at once, the writer's record and the
/// channel.
fn set(stopping: &mut bool, sender: &mut Sender<bool>)
    ensures
        *final(stopping),
        held(*final(sender)),
        channel_of(*final(sender)) == channel_of(*old(sender)),
    no_unwind
{
    write_flag(sender, true);
    *stopping = true;
}

/// The writer's side of the shutdown flag. It starts out running and can
/// only ever move to stopping.
#[derive(Debug)]
pub struct ShutdownSignal {
    stopping: bool,
    sender: Sender<bool>,
}

impl View for ShutdownSignal {
    type V = Flag;

    closed spec fn view(&self) -> Flag {
        Flag {
            stopping: self.stopping,
            written: held(self.sender),
            channel: channel_of(self.sender),
        }
    }
}

impl ShutdownSignal {
    #[verifier::type_invariant]
    spec fn wf(self) -> bool {
        self.stopping == held(self.sender)
    }

    /// Whether the flag has been set.
    pub open spec fn stopping(self) -> bool {
        self@.stopping
    }

    /// Whether the channel holds the set flag.
    pub open spec fn written(self) -> bool {
        self@.written
    }

    /// Whether a reader watches the channel of this flag.
    pub open spec fn read_by(self, reader: Receiver<bool>) -> bool {
        watched_by(reader) == self@.channel
    }

    /// The flag of a tunnel that is running, with no reader yet.
    pub fn new() -> (signal: ShutdownSignal)
        ensures
            !signal.stopping(),
            !signal.written(),
    {
        ShutdownSignal { stopping: false, sender: new_flag(false) }
    }

    /// Whether the flag has been set. The writer's record and the channel
    /// always agree.
    pub fn is_stopping(&self) -> (stopping: bool)
        ensures
            stopping == self.stopping(),
            stopping == self.written(),
    {
        proof {
            use_type_invariant(self);
        }
        self.stopping
    }

    /// Sets the flag. The call that makes the transition writes the set
    /// flag to the channel, which wakes the readers; every later call does
    /// nothing. The result tells whether this call made the transition.
    pub fn signal_stop(&mut self) -> (notify: bool)
        ensures
            final(self)@ == old(self)@.stopped(),
            final(self).stopping(),
            final(self).written(),
            notify == !old(self).stopping(),
    {
        proof {
            use_type_invariant(&*self);
        }
        if self.stopping {
            false
        } else {
            set(&mut self.stopping, &mut self.sender);
            true
        }
    }

    /// A new reader of the flag: a receiver of the channel that this flag
    /// is written to.
    pub fn observe(&self) -> (reader: Receiver<bool>)
        ensures
            self.read_by(reader),
    {
        subscribe(&self.sender)
    }
}

/// Asking to stop twice is the same as asking once: the flag is as the first
/// request left it, and the second request has nobody to wake.
pub proof fn lemma_signal_stop_idempotent(flag: Flag)
    ensures
        flag.stopped().stopped() == flag.stopped(),
        flag.stopped().stopping,
{
}

/// The flag never goes back: once stopping, a further request changes
/// nothing, in the writer's record, in the channel, or in which channel it
/// is.
pub proof fn lemma_stopping_is_final(flag: Flag)
    requires
        flag.stopping,
    ensures
        flag.stopped() == flag,
{
}

} // verus!
