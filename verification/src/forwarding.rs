//! The relay between one client socket and one stream to a pod.

use crate::shutdown::Notice;
use vstd::prelude::*;
use vstd::slice::slice_to_vec;

verus! {

/// How many bytes a relay asks for in one read. Any size will do; a larger
/// one trades latency for throughput.
pub const CHUNK: usize = 1024;

/// The operation on a socket that failed.
#[derive(Clone, Copy, Debug, PartialEq, Eq, Structural)]
pub enum IoOp {
    Read,
    Write,
}

/// Why a relay ended.
#[derive(Clone, Copy, Debug, PartialEq, Eq, Structural)]
pub enum E {
    /// The client closed its side in good order.
    ClientSocketClosed,
    /// The pod closed its side in good order.
    KubeSocketClosed,
    /// Reading from or writing to the client failed.
    ClientSocketErr(IoOp),
    /// Reading from or writing to the pod failed.
    KubeSocketErr(IoOp),
    /// Shutdown was signalled.
    Exit,
}

/// A relay, named by what it is waiting for.
#[derive(Clone, Debug, PartialEq, Eq)]
pub enum Relay {
    /// Waiting for whichever comes first: bytes from the client, bytes from
    /// the pod, or a change of the shutdown flag.
    Selecting,
    /// Waiting until these bytes, read from the client, are written to the
    /// pod in full.
    WritingKube(Vec<u8>),
    /// Waiting until these bytes, read from the pod, are written to the
    /// client in full.
    WritingClient(Vec<u8>),
    /// Ended. A relay that has ended does not start again.
    Finished(E),
}

/// A relay as plain mathematical values.
pub enum RelayView {
    Selecting,
    WritingKube(Seq<u8>),
    WritingClient(Seq<u8>),
    Finished(E),
}

impl View for Relay {
    type V = RelayView;

    open spec fn view(&self) -> RelayView {
        match self {
            Relay::Selecting => RelayView::Selecting,
            Relay::WritingKube(bytes) => RelayView::WritingKube(bytes@),
            Relay::WritingClient(bytes) => RelayView::WritingClient(bytes@),
            Relay::Finished(e) => RelayView::Finished(*e),
        }
    }
}

/// What happened on behalf of a relay.
pub enum RelayEvent<'a> {
    /// A read from the client returned these bytes; none means that the
    /// client has closed.
    ClientRead(&'a [u8]),
    ClientReadFailed,
    /// A read from the pod returned these bytes; none means that the pod has
    /// closed.
    KubeRead(&'a [u8]),
    KubeReadFailed,
    /// The shutdown flag changed, or its writer went away.
    Shutdown(Notice),
    /// The write to the pod ended; `true` if every byte was written.
    KubeWritten(bool),
    /// The write to the client ended; `true` if every byte was written.
    ClientWritten(bool),
}

/// An event of a relay as plain mathematical values.
pub enum RelayEventView {
    ClientRead(Seq<u8>),
    ClientReadFailed,
    KubeRead(Seq<u8>),
    KubeReadFailed,
    Shutdown(Notice),
    KubeWritten(bool),
    ClientWritten(bool),
}

impl<'a> View for RelayEvent<'a> {
    type V = RelayEventView;

    open spec fn view(&self) -> RelayEventView {
        match self {
            RelayEvent::ClientRead(bytes) => RelayEventView::ClientRead(bytes@),
            RelayEvent::ClientReadFailed => RelayEventView::ClientReadFailed,
            RelayEvent::KubeRead(bytes) => RelayEventView::KubeRead(bytes@),
            RelayEvent::KubeReadFailed => RelayEventView::KubeReadFailed,
            RelayEvent::Shutdown(notice) => RelayEventView::Shutdown(*notice),
            RelayEvent::KubeWritten(done) => RelayEventView::KubeWritten(*done),
            RelayEvent::ClientWritten(done) => RelayEventView::ClientWritten(*done),
        }
    }
}

/// The relay after an event. An event that does not answer what the relay is
/// waiting for leaves it as it is.
pub open spec fn relay_step(relay: RelayView, event: RelayEventView) -> RelayView {
    match (relay, event) {
        (RelayView::Selecting, RelayEventView::ClientRead(bytes)) => if bytes.len() == 0 {
            RelayView::Finished(E::ClientSocketClosed)
        } else {
            RelayView::WritingKube(bytes)
        },
        (RelayView::Selecting, RelayEventView::ClientReadFailed) => RelayView::Finished(
            E::ClientSocketErr(IoOp::Read),
        ),
        (RelayView::Selecting, RelayEventView::KubeRead(bytes)) => if bytes.len() == 0 {
            RelayView::Finished(E::KubeSocketClosed)
        } else {
            RelayView::WritingClient(bytes)
        },
        (RelayView::Selecting, RelayEventView::KubeReadFailed) => RelayView::Finished(
            E::KubeSocketErr(IoOp::Read),
        ),
        (RelayView::Selecting, RelayEventView::Shutdown(notice)) => if notice.stops() {
            RelayView::Finished(E::Exit)
        } else {
            RelayView::Selecting
        },
        (RelayView::WritingKube(_), RelayEventView::KubeWritten(done)) => if done {
            RelayView::Selecting
        } else {
            RelayView::Finished(E::KubeSocketErr(IoOp::Write))
        },
        (RelayView::WritingClient(_), RelayEventView::ClientWritten(done)) => if done {
            RelayView::Selecting
        } else {
            RelayView::Finished(E::ClientSocketErr(IoOp::Write))
        },
        _ => relay,
    }
}

impl Relay {
    /// A relay at its start: nothing read yet, nothing to write.
    pub fn new() -> (relay: Relay)
        ensures
            relay@ == RelayView::Selecting,
    {
        Relay::Selecting
    }

    /// Why the relay ended, once it has.
    pub fn outcome(&self) -> (outcome: Option<E>)
        ensures
            outcome == match self@ {
                RelayView::Finished(e) => Some(e),
                _ => None,
            },
    {
        match self {
            Relay::Finished(e) => Some(*e),
            _ => None,
        }
    }
}

/// Decides how a relay goes on after an event.
pub fn process_socket(relay: Relay, event: RelayEvent<'_>) -> (next: Relay)
    ensures
        next@ == relay_step(relay@, event@),
{
    match relay {
        Relay::Selecting => match event {
            RelayEvent::ClientRead(bytes) => {
                if bytes.len() == 0 {
                    Relay::Finished(E::ClientSocketClosed)
                } else {
                    Relay::WritingKube(slice_to_vec(bytes))
                }
            },
            RelayEvent::ClientReadFailed => Relay::Finished(E::ClientSocketErr(IoOp::Read)),
            RelayEvent::KubeRead(bytes) => {
                if bytes.len() == 0 {
                    Relay::Finished(E::KubeSocketClosed)
                } else {
                    Relay::WritingClient(slice_to_vec(bytes))
                }
            },
            RelayEvent::KubeReadFailed => Relay::Finished(E::KubeSocketErr(IoOp::Read)),
            RelayEvent::Shutdown(notice) => {
                if notice.is_stop() {
                    Relay::Finished(E::Exit)
                } else {
                    Relay::Selecting
                }
            },
            _ => Relay::Selecting,
        },
        Relay::WritingKube(bytes) => match event {
            RelayEvent::KubeWritten(done) => {
                if done {
                    Relay::Selecting
                } else {
                    Relay::Finished(E::KubeSocketErr(IoOp::Write))
                }
            },
            _ => Relay::WritingKube(bytes),
        },
        Relay::WritingClient(bytes) => match event {
            RelayEvent::ClientWritten(done) => {
                if done {
                    Relay::Selecting
                } else {
                    Relay::Finished(E::ClientSocketErr(IoOp::Write))
                }
            },
            _ => Relay::WritingClient(bytes),
        },
        Relay::Finished(e) => Relay::Finished(e),
    }
}

/// The bytes that a relay has taken in and handed on, each way.
pub struct Traffic {
    /// All bytes read from the client, in the order read.
    pub from_client: Seq<u8>,
    /// All bytes written to the pod in full, in the order written.
    pub to_kube: Seq<u8>,
    /// All bytes read from the pod, in the order read.
    pub from_kube: Seq<u8>,
    /// All bytes written to the client in full, in the order written.
    pub to_client: Seq<u8>,
}

/// The traffic after an event that reached the relay in the given state.
pub open spec fn traffic_step(relay: RelayView, event: RelayEventView, seen: Traffic) -> Traffic {
    match (relay, event) {
        (RelayView::Selecting, RelayEventView::ClientRead(bytes)) => Traffic {
            from_client: seen.from_client + bytes,
            ..seen
        },
        (RelayView::Selecting, RelayEventView::KubeRead(bytes)) => Traffic {
            from_kube: seen.from_kube + bytes,
            ..seen
        },
        (RelayView::WritingKube(bytes), RelayEventView::KubeWritten(true)) => Traffic {
            to_kube: seen.to_kube + bytes,
            ..seen
        },
        (RelayView::WritingClient(bytes), RelayEventView::ClientWritten(true)) => Traffic {
            to_client: seen.to_client + bytes,
            ..seen
        },
        _ => seen,
    }
}

/// A relay and its traffic after a sequence of events, from the start.
pub open spec fn relay_run(events: Seq<RelayEventView>) -> (RelayView, Traffic)
    decreases events.len(),
{
    if events.len() == 0 {
        (
            RelayView::Selecting,
            Traffic {
                from_client: Seq::empty(),
                to_kube: Seq::empty(),
                from_kube: Seq::empty(),
                to_client: Seq::empty(),
            },
        )
    } else {
        let (relay, seen) = relay_run(events.drop_last());
        (relay_step(relay, events.last()), traffic_step(relay, events.last(), seen))
    }
}

/// The bytes that were read from the client and not yet written to the pod.
pub open spec fn kube_backlog(relay: RelayView) -> Seq<u8> {
    match relay {
        RelayView::WritingKube(bytes) => bytes,
        _ => Seq::empty(),
    }
}

/// The bytes that were read from the pod and not yet written to the client.
pub open spec fn client_backlog(relay: RelayView) -> Seq<u8> {
    match relay {
        RelayView::WritingClient(bytes) => bytes,
        _ => Seq::empty(),
    }
}

/// What holds of a relay's traffic: each way, the bytes written are the first
/// of the bytes read, and while no write has failed every byte read is either
/// written or waiting in the relay.
pub open spec fn faithful(relay: RelayView, seen: Traffic) -> bool {
    &&& seen.to_kube.is_prefix_of(seen.from_client)
    &&& seen.to_client.is_prefix_of(seen.from_kube)
    &&& relay != RelayView::Finished(E::KubeSocketErr(IoOp::Write)) ==> seen.from_client
        == seen.to_kube + kube_backlog(relay)
    &&& relay != RelayView::Finished(E::ClientSocketErr(IoOp::Write)) ==> seen.from_kube
        == seen.to_client + client_backlog(relay)
}

/// No loss, no duplication, no reordering: whatever events reach a relay,
/// in whatever order, its traffic is faithful.
pub proof fn lemma_relay_faithful(events: Seq<RelayEventView>)
    ensures
        faithful(relay_run(events).0, relay_run(events).1),
    decreases events.len(),
{
    if events.len() > 0 {
        lemma_relay_faithful(events.drop_last());
    }
}

/// A relay that the client ended by closing has written to the pod every
/// byte that the client sent.
pub proof fn lemma_client_close_delivers_all(events: Seq<RelayEventView>)
    requires
        relay_run(events).0 == RelayView::Finished(E::ClientSocketClosed),
    ensures
        relay_run(events).1.to_kube == relay_run(events).1.from_client,
{
    lemma_relay_faithful(events);
}

/// A relay that the pod ended by closing has written to the client every
/// byte that the pod sent.
pub proof fn lemma_kube_close_delivers_all(events: Seq<RelayEventView>)
    requires
        relay_run(events).0 == RelayView::Finished(E::KubeSocketClosed),
    ensures
        relay_run(events).1.to_client == relay_run(events).1.from_kube,
{
    lemma_relay_faithful(events);
}

/// A relay that has ended stays as it ended, whatever reaches it.
pub proof fn lemma_finished_is_final(e: E, event: RelayEventView)
    ensures
        relay_step(RelayView::Finished(e), event) == RelayView::Finished(e),
{
}

/// A relay that is given a notice to stop before anything else, because the
/// flag was set before the relay began, ends with `Exit` and has relayed
/// nothing.
pub proof fn lemma_stop_at_start(notice: Notice)
    requires
        notice.stops(),
    ensures
        relay_run(seq![RelayEventView::Shutdown(notice)]).0 == RelayView::Finished(E::Exit),
        relay_run(seq![RelayEventView::Shutdown(notice)]).1.from_client.len() == 0,
        relay_run(seq![RelayEventView::Shutdown(notice)]).1.from_kube.len() == 0,
{
    reveal_with_fuel(relay_run, 2);
}

/// A relay that waits on its three sources ends with `Exit` as soon as a
/// notice to stop reaches it, whatever it has read before.
pub proof fn lemma_stop_ends_selecting(notice: Notice)
    requires
        notice.stops(),
    ensures
        relay_step(RelayView::Selecting, RelayEventView::Shutdown(notice)) == RelayView::Finished(
            E::Exit,
        ),
{
}

} // verus!
