//! One forwarded connection, from the opening of the stream to the pod until
//! both sides are closed.

use crate::config::Config;
use crate::forwarding::{
    process_socket, relay_step, Relay, RelayEvent, RelayEventView, RelayView, E,
};
use vstd::prelude::*;

verus! {

/// What is done with the two sides of a connection once its relay has ended.
#[derive(Clone, Copy, Debug, PartialEq, Eq, Structural)]
pub enum Disposition {
    /// The stream to the pod is closed. Nothing more is done to the client
    /// socket, which is closed already or failing.
    CloseRemote,
    /// The write side of the client socket is shut down, so that the client
    /// sees the end of the stream, and then the socket is closed.
    HalfCloseClient,
    /// The connection is left at once, with no further signalling.
    Abandon,
}

impl E {
    /// The disposition that each outcome of a relay calls for.
    pub open spec fn disposition_of(self) -> Disposition {
        match self {
            E::ClientSocketClosed => Disposition::CloseRemote,
            E::ClientSocketErr(_) => Disposition::CloseRemote,
            E::KubeSocketClosed => Disposition::HalfCloseClient,
            E::KubeSocketErr(_) => Disposition::HalfCloseClient,
            E::Exit => Disposition::Abandon,
        }
    }

    /// What is to be done with the two sides after this outcome.
    pub fn disposition(&self) -> (disposition: Disposition)
        ensures
            disposition == self.disposition_of(),
    {
        match self {
            E::ClientSocketClosed => Disposition::CloseRemote,
            E::ClientSocketErr(_) => Disposition::CloseRemote,
            E::KubeSocketClosed => Disposition::HalfCloseClient,
            E::KubeSocketErr(_) => Disposition::HalfCloseClient,
            E::Exit => Disposition::Abandon,
        }
    }
}

/// The pod and port that a connection's stream leads to.
#[derive(Clone, Copy, Debug, PartialEq, Eq)]
pub struct StreamTarget<'a> {
    pub namespace: &'a str,
    pub pod: &'a str,
    pub port: u16,
}

impl Config {
    /// Where the stream of a connection accepted for this forward is opened to.
    pub fn stream_target(&self) -> (target: StreamTarget<'_>)
        ensures
            target.namespace@ == self@.namespace,
            target.pod@ == self@.pod,
            target.port == self@.pod_port,
    {
        StreamTarget {
            namespace: self.0.namespace.as_str(),
            pod: self.0.pod.as_str(),
            port: self.0.pod_port,
        }
    }
}

/// How a connection ended.
#[derive(Clone, Copy, Debug, PartialEq, Eq, Structural)]
pub enum End {
    /// The stream to the pod could not be opened; the client socket was
    /// dropped and nothing was relayed.
    OpenFailed,
    /// The relay ran and ended like this.
    Relayed(E),
}

/// A connection, named by what it is waiting for.
#[derive(Clone, Debug, PartialEq, Eq)]
pub enum Connection {
    /// Waiting for the stream to the pod to be opened.
    Opening,
    /// Waiting for whatever its relay is waiting for.
    Relaying(Relay),
    /// Waiting for the write side of the client socket to be shut down, after
    /// the relay ended like this.
    HalfClosing(E),
    /// Over. Both sides are closed by dropping them.
    Closed(End),
}

/// A connection as plain mathematical values.
pub enum ConnectionView {
    Opening,
    Relaying(RelayView),
    HalfClosing(E),
    Closed(End),
}

impl View for Connection {
    type V = ConnectionView;

    open spec fn view(&self) -> ConnectionView {
        match self {
            Connection::Opening => ConnectionView::Opening,
            Connection::Relaying(relay) => ConnectionView::Relaying(relay@),
            Connection::HalfClosing(e) => ConnectionView::HalfClosing(*e),
            Connection::Closed(end) => ConnectionView::Closed(*end),
        }
    }
}

/// What happened on behalf of a connection.
pub enum ConnectionEvent<'a> {
    /// The attempt to open the stream to the pod ended; `true` if the stream
    /// is there.
    Opened(bool),
    /// Something happened to the relay.
    Relay(RelayEvent<'a>),
    /// The attempt to shut down the write side of the client socket ended,
    /// well or not.
    HalfClosed,
}

/// An event of a connection as plain mathematical values.
pub enum ConnectionEventView {
    Opened(bool),
    Relay(RelayEventView),
    HalfClosed,
}

impl<'a> View for ConnectionEvent<'a> {
    type V = ConnectionEventView;

    open spec fn view(&self) -> ConnectionEventView {
        match self {
            ConnectionEvent::Opened(open) => ConnectionEventView::Opened(*open),
            ConnectionEvent::Relay(event) => ConnectionEventView::Relay(event@),
            ConnectionEvent::HalfClosed => ConnectionEventView::HalfClosed,
        }
    }
}

/// The connection that carries a relay in the given state.
pub open spec fn with_relay(relay: RelayView) -> ConnectionView {
    match relay {
        RelayView::Finished(e) => if e.disposition_of() == Disposition::HalfCloseClient {
            ConnectionView::HalfClosing(e)
        } else {
            ConnectionView::Closed(End::Relayed(e))
        },
        _ => ConnectionView::Relaying(relay),
    }
}

/// The connection after an event. An event that does not answer what the
/// connection is waiting for leaves it as it is.
pub open spec fn connection_step(
    connection: ConnectionView,
    event: ConnectionEventView,
) -> ConnectionView {
    match (connection, event) {
        (ConnectionView::Opening, ConnectionEventView::Opened(open)) => if open {
            ConnectionView::Relaying(RelayView::Selecting)
        } else {
            ConnectionView::Closed(End::OpenFailed)
        },
        (ConnectionView::Relaying(relay), ConnectionEventView::Relay(happened)) => with_relay(
            relay_step(relay, happened),
        ),
        (ConnectionView::HalfClosing(e), ConnectionEventView::HalfClosed) => ConnectionView::Closed(
            End::Relayed(e),
        ),
        _ => connection,
    }
}

impl Connection {
    /// The connection of a client that was just accepted: the stream to the
    /// pod is still to be opened.
    pub fn new() -> (connection: Connection)
        ensures
            connection@ == ConnectionView::Opening,
    {
        Connection::Opening
    }

    /// Decides how the connection goes on after an event.
    pub fn step(self, event: ConnectionEvent<'_>) -> (next: Connection)
        ensures
            next@ == connection_step(self@, event@),
    {
        match self {
            Connection::Opening => match event {
                ConnectionEvent::Opened(open) => {
                    if open {
                        Connection::Relaying(Relay::new())
                    } else {
                        Connection::Closed(End::OpenFailed)
                    }
                },
                _ => Connection::Opening,
            },
            Connection::Relaying(relay) => match event {
                ConnectionEvent::Relay(happened) => {
                    let relay = process_socket(relay, happened);
                    match relay.outcome() {
                        Some(e) => match e.disposition() {
                            Disposition::HalfCloseClient => Connection::HalfClosing(e),
                            _ => Connection::Closed(End::Relayed(e)),
                        },
                        None => Connection::Relaying(relay),
                    }
                },
                _ => Connection::Relaying(relay),
            },
            Connection::HalfClosing(e) => match event {
                ConnectionEvent::HalfClosed => Connection::Closed(End::Relayed(e)),
                _ => Connection::HalfClosing(e),
            },
            Connection::Closed(end) => Connection::Closed(end),
        }
    }
}

/// The connection after a sequence of events, from the start.
pub open spec fn connection_run(events: Seq<ConnectionEventView>) -> ConnectionView
    decreases events.len(),
{
    if events.len() == 0 {
        ConnectionView::Opening
    } else {
        connection_step(connection_run(events.drop_last()), events.last())
    }
}

/// How many attempts to open the stream to the pod were made over a
/// sequence of events: those whose end was reported while the connection
/// was waiting for it.
pub open spec fn openings(events: Seq<ConnectionEventView>) -> nat
    decreases events.len(),
{
    if events.len() == 0 {
        0
    } else if connection_run(events.drop_last()) is Opening && events.last() is Opened {
        openings(events.drop_last()) + 1
    } else {
        openings(events.drop_last())
    }
}

/// The stream to the pod is opened exactly once for a connection: no
/// attempt was made while the connection is still waiting for it, and one,
/// never more, once it has gone on.
pub proof fn lemma_opens_once(events: Seq<ConnectionEventView>)
    ensures
        openings(events) == if connection_run(events) is Opening {
            0nat
        } else {
            1nat
        },
    decreases events.len(),
{
    if events.len() > 0 {
        lemma_opens_once(events.drop_last());
    }
}

/// When the client closes first, whatever was relayed before, the
/// connection is over at once with the outcome `ClientSocketClosed`: the
/// stream to the pod is closed, and the client socket is not half-closed.
pub proof fn lemma_client_closes_first(events: Seq<ConnectionEventView>)
    requires
        connection_run(events) == ConnectionView::Relaying(RelayView::Selecting),
    ensures
        connection_run(
            events.push(ConnectionEventView::Relay(RelayEventView::ClientRead(Seq::empty()))),
        ) == ConnectionView::Closed(End::Relayed(E::ClientSocketClosed)),
        E::ClientSocketClosed.disposition_of() == Disposition::CloseRemote,
{
    let closing = ConnectionEventView::Relay(RelayEventView::ClientRead(Seq::empty()));
    assert(events.push(closing).drop_last() =~= events);
}

/// When the pod closes first, whatever was relayed before, the outcome is
/// `KubeSocketClosed` and the connection waits for the half-close of the
/// client socket; it is over when that was done, and not before.
pub proof fn lemma_kube_closes_first(events: Seq<ConnectionEventView>, then: ConnectionEventView)
    requires
        connection_run(events) == ConnectionView::Relaying(RelayView::Selecting),
    ensures
        connection_run(
            events.push(ConnectionEventView::Relay(RelayEventView::KubeRead(Seq::empty()))),
        ) == ConnectionView::HalfClosing(E::KubeSocketClosed),
        connection_run(
            events.push(ConnectionEventView::Relay(RelayEventView::KubeRead(Seq::empty()))).push(
                then,
            ),
        ) == if then is HalfClosed {
            ConnectionView::Closed(End::Relayed(E::KubeSocketClosed))
        } else {
            ConnectionView::HalfClosing(E::KubeSocketClosed)
        },
{
    let closing = ConnectionEventView::Relay(RelayEventView::KubeRead(Seq::empty()));
    assert(events.push(closing).drop_last() =~= events);
    assert(events.push(closing).push(then).drop_last() =~= events.push(closing));
}

/// A connection that is over because the pod's side ended its relay was
/// waiting for the half-close of the client socket just before, and the
/// half-close was done.
pub proof fn lemma_half_close_precedes_close(events: Seq<ConnectionEventView>, e: E) -> (at: int)
    requires
        connection_run(events) == ConnectionView::Closed(End::Relayed(e)),
        e.disposition_of() == Disposition::HalfCloseClient,
    ensures
        0 <= at < events.len(),
        connection_run(events.take(at)) == ConnectionView::HalfClosing(e),
        events[at] is HalfClosed,
    decreases events.len(),
{
    let before = connection_run(events.drop_last());
    if before is Closed {
        let at = lemma_half_close_precedes_close(events.drop_last(), e);
        assert(events.drop_last().take(at) =~= events.take(at));
        at
    } else {
        events.len() - 1
    }
}

/// A connection whose relay waits on its three sources is over with the
/// outcome `Exit` as soon as a notice to stop reaches it, whatever was
/// relayed before, and is abandoned.
pub proof fn lemma_stop_abandons(events: Seq<ConnectionEventView>, notice: crate::shutdown::Notice)
    requires
        connection_run(events) == ConnectionView::Relaying(RelayView::Selecting),
        notice.stops(),
    ensures
        connection_run(events.push(ConnectionEventView::Relay(RelayEventView::Shutdown(notice))))
            == ConnectionView::Closed(End::Relayed(E::Exit)),
        E::Exit.disposition_of() == Disposition::Abandon,
{
    let stop = ConnectionEventView::Relay(RelayEventView::Shutdown(notice));
    assert(events.push(stop).drop_last() =~= events);
}

/// A connection that is over stays over, and no stream is opened for it
/// any more.
pub proof fn lemma_closed_is_final(
    events: Seq<ConnectionEventView>,
    later: Seq<ConnectionEventView>,
)
    requires
        connection_run(events) is Closed,
    ensures
        connection_run(events + later) == connection_run(events),
        openings(events + later) == openings(events),
    decreases later.len(),
{
    if later.len() > 0 {
        lemma_closed_is_final(events, later.drop_last());
        assert((events + later).drop_last() =~= events + later.drop_last());
    }
}

} // verus!
