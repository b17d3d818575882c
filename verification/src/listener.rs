//! The listeners of one forward: where they bind and how they accept.

use crate::config::Config;
use crate::shutdown::Notice;
use vstd::prelude::*;

verus! {

/// The two loopback addresses. A forward listens on both, so that a client
/// reaches it whichever of them `localhost` resolves to.
#[derive(Clone, Copy, Debug, PartialEq, Eq, Structural)]
pub enum Loopback {
    V6,
    V4,
}

impl Loopback {
    /// The address in text.
    pub open spec fn host_of(self) -> Seq<char> {
        match self {
            Loopback::V6 => "::1"@,
            Loopback::V4 => "127.0.0.1"@,
        }
    }

    /// The address in text, as a socket address is parsed from.
    pub fn host(&self) -> (host: &'static str)
        ensures
            host@ == self.host_of(),
    {
        match self {
            Loopback::V6 => "::1",
            Loopback::V4 => "127.0.0.1",
        }
    }
}

/// An address to listen on.
#[derive(Clone, Copy, Debug, PartialEq, Eq)]
pub struct BindAddr {
    pub family: Loopback,
    pub port: u16,
}

/// The address on which a forward listens in the given family: the
/// loopback address of that family, at the local port of the forward.
pub fn bind_addr(config: &Config, family: Loopback) -> (addr: BindAddr)
    ensures
        addr == (BindAddr { family, port: config@.local_port }),
{
    BindAddr { family, port: config.0.local_port }
}

/// The accept loop of one listener, named by what it is waiting for.
#[derive(Clone, Copy, Debug, PartialEq, Eq, Structural)]
pub enum Listener {
    /// Waiting for whichever comes first: a client, or a change of the
    /// shutdown flag.
    Accepting,
    /// Waiting until the client that was just accepted is handed to a
    /// connection task of its own.
    Dispatching,
    /// Stopped. A listener that has stopped accepts nobody.
    Stopped,
}

/// What happened on behalf of a listener.
#[derive(Clone, Copy, Debug, PartialEq, Eq, Structural)]
pub enum ListenerEvent {
    /// The shutdown flag changed, or its writer went away.
    Shutdown(Notice),
    /// Accepting failed.
    AcceptFailed,
    /// A client was accepted. `nodelay` tells whether its socket could be
    /// set to send small writes without delay.
    Accepted { nodelay: bool },
    /// The accepted client was handed to its connection task.
    Dispatched,
}

/// The listener after an event. A failure to accept, or to configure the
/// accepted socket, costs that one client and is otherwise passed over. An
/// event that does not answer what the listener is waiting for leaves it as
/// it is.
pub open spec fn listener_step(listener: Listener, event: ListenerEvent) -> Listener {
    match (listener, event) {
        (Listener::Accepting, ListenerEvent::Shutdown(notice)) => if notice.stops() {
            Listener::Stopped
        } else {
            Listener::Accepting
        },
        (Listener::Accepting, ListenerEvent::Accepted { nodelay }) => if nodelay {
            Listener::Dispatching
        } else {
            Listener::Accepting
        },
        (Listener::Dispatching, ListenerEvent::Dispatched) => Listener::Accepting,
        _ => listener,
    }
}

impl Listener {
    /// A listener that was just bound.
    pub fn new() -> (listener: Listener)
        ensures
            listener == Listener::Accepting,
    {
        Listener::Accepting
    }

    /// Decides how the accept loop goes on after an event.
    pub fn step(self, event: ListenerEvent) -> (next: Listener)
        ensures
            next == listener_step(self, event),
    {
        match self {
            Listener::Accepting => match event {
                ListenerEvent::Shutdown(notice) => {
                    if notice.is_stop() {
                        Listener::Stopped
                    } else {
                        Listener::Accepting
                    }
                },
                ListenerEvent::Accepted { nodelay } => {
                    if nodelay {
                        Listener::Dispatching
                    } else {
                        Listener::Accepting
                    }
                },
                _ => Listener::Accepting,
            },
            Listener::Dispatching => match event {
                ListenerEvent::Dispatched => Listener::Accepting,
                _ => Listener::Dispatching,
            },
            Listener::Stopped => Listener::Stopped,
        }
    }
}

/// The listener after a sequence of events, from the start.
pub open spec fn listener_run(events: Seq<ListenerEvent>) -> Listener
    decreases events.len(),
{
    if events.len() == 0 {
        Listener::Accepting
    } else {
        listener_step(listener_run(events.drop_last()), events.last())
    }
}

/// How many clients a listener has handed to connection tasks over a
/// sequence of events.
pub open spec fn dispatched(events: Seq<ListenerEvent>) -> nat
    decreases events.len(),
{
    if events.len() == 0 {
        0
    } else if listener_run(events.drop_last()) == Listener::Dispatching && events.last()
        == ListenerEvent::Dispatched {
        dispatched(events.drop_last()) + 1
    } else {
        dispatched(events.drop_last())
    }
}

/// How many clients a listener has taken in over a sequence of events:
/// those accepted, with a socket that could be configured, while the
/// listener was accepting.
pub open spec fn admitted(events: Seq<ListenerEvent>) -> nat
    decreases events.len(),
{
    if events.len() == 0 {
        0
    } else if listener_run(events.drop_last()) == Listener::Accepting && events.last()
        == (ListenerEvent::Accepted { nodelay: true }) {
        admitted(events.drop_last()) + 1
    } else {
        admitted(events.drop_last())
    }
}

/// Each client taken in is handed to exactly one connection task: the
/// clients dispatched are the clients admitted, but for the one that the
/// listener may be dispatching right now.
pub proof fn lemma_one_task_per_client(events: Seq<ListenerEvent>)
    ensures
        admitted(events) == dispatched(events) + if listener_run(events) == Listener::Dispatching {
            1nat
        } else {
            0nat
        },
    decreases events.len(),
{
    if events.len() > 0 {
        lemma_one_task_per_client(events.drop_last());
    }
}

/// A listener that has stopped stays stopped and takes in nobody.
pub proof fn lemma_stopped_is_final(events: Seq<ListenerEvent>, later: Seq<ListenerEvent>)
    requires
        listener_run(events) == Listener::Stopped,
    ensures
        listener_run(events + later) == Listener::Stopped,
        admitted(events + later) == admitted(events),
        dispatched(events + later) == dispatched(events),
    decreases later.len(),
{
    if later.len() > 0 {
        lemma_stopped_is_final(events, later.drop_last());
        assert((events + later).drop_last() =~= events + later.drop_last());
    }
}

/// A listener that is given a notice to stop before anything else, because
/// the flag was set before the listener began, stops and takes in nobody.
pub proof fn lemma_stop_at_start(notice: Notice)
    requires
        notice.stops(),
    ensures
        listener_run(seq![ListenerEvent::Shutdown(notice)]) == Listener::Stopped,
        admitted(seq![ListenerEvent::Shutdown(notice)]) == 0,
{
    reveal_with_fuel(listener_run, 2);
    reveal_with_fuel(admitted, 2);
}

/// A listener that is accepting stops at the first notice to stop.
pub proof fn lemma_stop_ends_accepting(notice: Notice)
    requires
        notice.stops(),
    ensures
        listener_step(Listener::Accepting, ListenerEvent::Shutdown(notice)) == Listener::Stopped,
{
}

} // verus!
