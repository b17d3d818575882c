//! The orchestrator: which clients to create, which listeners to bind, and
//! when to stop.

use crate::config::{Config, ForwardSpec};
use crate::contexts::{
    contexts_of, distinct, distinct_contexts, find_context, lemma_distinct, lemma_index_of_unique,
};
use crate::listener::Loopback;
use crate::shutdown::{Notice, ShutdownSignal};
use vstd::prelude::*;

verus! {

/// How far a forward has come.
#[derive(Clone, Copy, Debug, PartialEq, Eq, Structural)]
pub enum Status {
    /// Not yet decided.
    Pending,
    /// No client could be created for its context: it will not listen.
    ClientFailed,
    /// One of its two addresses could not be bound: it will not listen.
    BindFailed,
    /// Both listeners are bound and accepting.
    Serving,
}

/// An orchestrator's stage, named by what it is waiting for.
#[derive(Clone, Copy, Debug, PartialEq, Eq, Structural)]
pub enum Stage {
    /// Waiting for the client of the context with this number.
    CreateClient(usize),
    /// Waiting for the forward with this number to be bound on this address.
    Bind(usize, Loopback),
    /// Waiting until the accept loops of both listeners of the forward with
    /// this number are started.
    Launch(usize),
    /// Waiting until the one listener that was bound for the forward with
    /// this number is closed again.
    Release(usize),
    /// Waiting for the shutdown flag.
    AwaitShutdown,
    /// Waiting until every accept loop and every connection has ended.
    Drain,
    /// Over.
    Done,
}

/// What happened on behalf of the orchestrator.
#[derive(Clone, Copy, Debug, PartialEq, Eq, Structural)]
pub enum OrchestratorEvent {
    /// The attempt to create a client ended; `true` if the client is there.
    ClientCreated(bool),
    /// The attempt to bind an address ended; `true` if the listener is there.
    Bound(bool),
    /// The accept loops are running.
    Launched,
    /// The listener is closed.
    Released,
    /// The shutdown flag changed, or its writer went away.
    Shutdown(Notice),
    /// Every task has ended.
    Drained,
}

/// An orchestrator as plain mathematical values.
pub struct OrchestratorView {
    /// The forwards, in the order given.
    pub specs: Seq<ForwardSpec>,
    /// The distinct contexts of the forwards.
    pub contexts: Seq<Seq<char>>,
    /// For each context whose client was tried, whether it was created.
    pub clients: Seq<bool>,
    /// For each forward, how far it has come.
    pub status: Seq<Status>,
    pub stage: Stage,
}

/// Whether the client for the context of the forward with this number was
/// created.
pub open spec fn client_ok(o: OrchestratorView, forward: int) -> bool {
    let at = o.contexts.index_of(o.specs[forward].context);
    0 <= at < o.clients.len() && o.clients[at]
}

/// The orchestrator with one more forward decided.
pub open spec fn decide(o: OrchestratorView, forward: int, status: Status) -> OrchestratorView {
    OrchestratorView { status: o.status.update(forward, status), ..o }
}

/// Goes on to the first forward, from the given number on, whose client is
/// there, and gives up those before it whose client is not. With no such
/// forward left, all that remains is to wait for shutdown.
pub open spec fn advance(o: OrchestratorView, from: int) -> OrchestratorView
    decreases o.specs.len() - from,
{
    if 0 <= from < o.specs.len() {
        if client_ok(o, from) {
            OrchestratorView { stage: Stage::Bind(from as usize, Loopback::V6), ..o }
        } else {
            advance(decide(o, from, Status::ClientFailed), from + 1)
        }
    } else {
        OrchestratorView { stage: Stage::AwaitShutdown, ..o }
    }
}

/// Settles the forward with this number and goes on to the next.
pub open spec fn settle(o: OrchestratorView, forward: usize, status: Status) -> OrchestratorView {
    advance(decide(o, forward as int, status), forward + 1)
}

/// The orchestrator at its start.
pub open spec fn initial(specs: Seq<ForwardSpec>) -> OrchestratorView {
    let contexts = distinct(contexts_of(specs));
    OrchestratorView {
        specs,
        contexts,
        clients: Seq::empty(),
        status: Seq::new(specs.len(), |k: int| Status::Pending),
        stage: if contexts.len() > 0 {
            Stage::CreateClient(0)
        } else {
            Stage::AwaitShutdown
        },
    }
}

/// The orchestrator after an event. A client that cannot be created costs
/// the forwards of its context, an address that cannot be bound costs its
/// forward, and neither costs anything else. An event that does not answer
/// what the orchestrator is waiting for leaves it as it is.
pub open spec fn orchestrator_step(
    o: OrchestratorView,
    event: OrchestratorEvent,
) -> OrchestratorView {
    match (o.stage, event) {
        (Stage::CreateClient(at), OrchestratorEvent::ClientCreated(created)) => {
            let tried = OrchestratorView { clients: o.clients.push(created), ..o };
            if at + 1 < o.contexts.len() {
                OrchestratorView { stage: Stage::CreateClient((at + 1) as usize), ..tried }
            } else {
                advance(tried, 0)
            }
        },
        (Stage::Bind(forward, Loopback::V6), OrchestratorEvent::Bound(bound)) => if bound {
            OrchestratorView { stage: Stage::Bind(forward, Loopback::V4), ..o }
        } else {
            settle(o, forward, Status::BindFailed)
        },
        (Stage::Bind(forward, Loopback::V4), OrchestratorEvent::Bound(bound)) => if bound {
            OrchestratorView { stage: Stage::Launch(forward), ..o }
        } else {
            OrchestratorView { stage: Stage::Release(forward), ..o }
        },
        (Stage::Launch(forward), OrchestratorEvent::Launched) => settle(
            o,
            forward,
            Status::Serving,
        ),
        (Stage::Release(forward), OrchestratorEvent::Released) => settle(
            o,
            forward,
            Status::BindFailed,
        ),
        (Stage::AwaitShutdown, OrchestratorEvent::Shutdown(notice)) => if notice.stops() {
            OrchestratorView { stage: Stage::Drain, ..o }
        } else {
            o
        },
        (Stage::Drain, OrchestratorEvent::Drained) => OrchestratorView { stage: Stage::Done, ..o },
        _ => o,
    }
}

/// Every forward before the given number is decided, and given up for want
/// of a client exactly if its context has none.
pub open spec fn decided_before(o: OrchestratorView, forward: int) -> bool {
    forall|k: int|
        0 <= k < forward ==> #[trigger] o.status[k] != Status::Pending && (o.status[k]
            == Status::ClientFailed <==> !client_ok(o, k))
}

/// Every forward from the given number on is undecided.
pub open spec fn pending_from(o: OrchestratorView, forward: int) -> bool {
    forall|k: int| forward <= k < o.status.len() ==> #[trigger] o.status[k] == Status::Pending
}

/// The orchestrator is at work on the forward with this number.
pub open spec fn working_on(o: OrchestratorView, forward: int) -> bool {
    &&& o.clients.len() == o.contexts.len()
    &&& 0 <= forward < o.specs.len()
    &&& client_ok(o, forward)
    &&& decided_before(o, forward)
    &&& pending_from(o, forward)
}

/// What holds of every orchestrator.
pub open spec fn inv(o: OrchestratorView) -> bool {
    &&& o.contexts == distinct(contexts_of(o.specs))
    &&& o.status.len() == o.specs.len()
    &&& o.specs.len() <= usize::MAX
    &&& match o.stage {
        Stage::CreateClient(at) => {
            &&& o.clients.len() == at
            &&& at < o.contexts.len()
            &&& pending_from(o, 0)
        },
        Stage::Bind(forward, _) => working_on(o, forward as int),
        Stage::Launch(forward) => working_on(o, forward as int),
        Stage::Release(forward) => working_on(o, forward as int),
        _ => o.clients.len() == o.contexts.len() && decided_before(o, o.specs.len() as int),
    }
}

/// The orchestrator: the forwards, the clients tried so far, and how far
/// each forward has come.
#[derive(Debug)]
pub struct Orchestrator {
    configs: Vec<Config>,
    contexts: Vec<String>,
    clients: Vec<bool>,
    status: Vec<Status>,
    stage: Stage,
}

impl View for Orchestrator {
    type V = OrchestratorView;

    closed spec fn view(&self) -> OrchestratorView {
        OrchestratorView {
            specs: self.configs.deep_view(),
            contexts: self.contexts.deep_view(),
            clients: self.clients@,
            status: self.status@,
            stage: self.stage,
        }
    }
}

/// Once the next undecided forward is decided, the forwards before the one
/// after it are decided and those from there on are undecided.
pub(crate) proof fn lemma_decide(o: OrchestratorView, forward: int, status: Status)
    requires
        0 <= forward < o.status.len(),
        decided_before(o, forward),
        pending_from(o, forward),
        status != Status::Pending,
        status == Status::ClientFailed <==> !client_ok(o, forward),
    ensures
        decided_before(decide(o, forward, status), forward + 1),
        pending_from(decide(o, forward, status), forward + 1),
        forall|k: int| client_ok(decide(o, forward, status), k) == client_ok(o, k),
{
    let decided = decide(o, forward, status);
    assert forall|k: int| client_ok(decided, k) == client_ok(o, k) by {}
    assert forall|k: int| 0 <= k < forward + 1 implies #[trigger] decided.status[k]
        != Status::Pending && (decided.status[k] == Status::ClientFailed <==> !client_ok(
        decided,
        k,
    )) by {}
    assert forall|k: int|
        forward + 1 <= k < decided.status.len() implies #[trigger] decided.status[k]
        == Status::Pending by {}
}

/// Going on to the next forward keeps what was decided before and leaves
/// the orchestrator in order.
pub(crate) proof fn lemma_advance(o: OrchestratorView, from: int)
    requires
        o.contexts == distinct(contexts_of(o.specs)),
        o.status.len() == o.specs.len(),
        o.specs.len() <= usize::MAX,
        o.clients.len() == o.contexts.len(),
        0 <= from <= o.specs.len(),
        decided_before(o, from),
        pending_from(o, from),
    ensures
        inv(advance(o, from)),
        advance(o, from).specs == o.specs,
        advance(o, from).contexts == o.contexts,
        advance(o, from).clients == o.clients,
        advance(o, from).status.len() == o.status.len(),
        forall|k: int| 0 <= k < from ==> #[trigger] advance(o, from).status[k] == o.status[k],
        advance(o, from).stage is AwaitShutdown || advance(o, from).stage is Bind,
    decreases o.specs.len() - from,
{
    if from < o.specs.len() && !client_ok(o, from) {
        lemma_decide(o, from, Status::ClientFailed);
        lemma_advance(decide(o, from, Status::ClientFailed), from + 1);
    }
}

/// Every step leaves the orchestrator in order.
pub proof fn lemma_step_keeps_inv(o: OrchestratorView, event: OrchestratorEvent)
    requires
        inv(o),
    ensures
        inv(orchestrator_step(o, event)),
        orchestrator_step(o, event).specs == o.specs,
        orchestrator_step(o, event).contexts == o.contexts,
{
    match (o.stage, event) {
        (Stage::CreateClient(at), OrchestratorEvent::ClientCreated(created)) => {
            lemma_distinct(contexts_of(o.specs));
            if at + 1 >= o.contexts.len() {
                lemma_advance(OrchestratorView { clients: o.clients.push(created), ..o }, 0);
            }
        },
        (Stage::Bind(forward, Loopback::V6), OrchestratorEvent::Bound(false)) => {
            lemma_settle(o, forward, Status::BindFailed);
        },
        (Stage::Launch(forward), OrchestratorEvent::Launched) => {
            lemma_settle(o, forward, Status::Serving);
        },
        (Stage::Release(forward), OrchestratorEvent::Released) => {
            lemma_settle(o, forward, Status::BindFailed);
        },
        _ => {},
    }
}

/// Settling the forward at work leaves the orchestrator in order.
pub(crate) proof fn lemma_settle(o: OrchestratorView, forward: usize, status: Status)
    requires
        inv(o),
        working_on(o, forward as int),
        status == Status::BindFailed || status == Status::Serving,
    ensures
        inv(settle(o, forward, status)),
        settle(o, forward, status).specs == o.specs,
        settle(o, forward, status).contexts == o.contexts,
        settle(o, forward, status).clients == o.clients,
        settle(o, forward, status).status.len() == o.status.len(),
        settle(o, forward, status).status[forward as int] == status,
        forall|k: int|
            0 <= k < forward ==> #[trigger] settle(o, forward, status).status[k] == o.status[k],
        settle(o, forward, status).stage is AwaitShutdown || settle(o, forward, status).stage
            is Bind,
{
    lemma_decide(o, forward as int, status);
    lemma_advance(decide(o, forward as int, status), forward + 1);
}

/// The orchestrator that holds these parts and waits for shutdown.
spec fn of_parts(
    configs: Vec<Config>,
    contexts: Vec<String>,
    clients: Vec<bool>,
    status: Vec<Status>,
) -> OrchestratorView {
    OrchestratorView {
        specs: configs.deep_view(),
        contexts: contexts.deep_view(),
        clients: clients@,
        status: status@,
        stage: Stage::AwaitShutdown,
    }
}

/// Goes on to the first forward, from the given number on, whose client is
/// there.
fn go_on(
    configs: Vec<Config>,
    contexts: Vec<String>,
    clients: Vec<bool>,
    decided: Vec<Status>,
    from: usize,
) -> (next: Orchestrator)
    requires
        contexts.deep_view() == distinct(contexts_of(configs.deep_view())),
        clients.len() == contexts.len(),
        decided.len() == configs.len(),
        from <= configs.len(),
        decided_before(of_parts(configs, contexts, clients, decided), from as int),
        pending_from(of_parts(configs, contexts, clients, decided), from as int),
    ensures
        next@ == advance(of_parts(configs, contexts, clients, decided), from as int),
{
    let ghost start = of_parts(configs, contexts, clients, decided);
    let mut status = decided;
    let mut at: usize = from;
    proof {
        lemma_distinct(contexts_of(configs.deep_view()));
        lemma_advance(start, from as int);
    }
    while at < configs.len()
        invariant
            from <= at <= configs.len(),
            start == of_parts(configs, contexts, clients, decided),
            start.specs == configs.deep_view(),
            start.contexts == contexts.deep_view(),
            start.clients == clients@,
            start.stage == Stage::AwaitShutdown,
            contexts.deep_view().no_duplicates(),
            forall|k: int|
                0 <= k < configs.len() ==> contexts.deep_view().contains(
                    #[trigger] contexts_of(configs.deep_view())[k],
                ),
            clients.len() == contexts.len(),
            status.len() == configs.len(),
            advance(OrchestratorView { status: status@, ..start }, at as int) == advance(
                start,
                from as int,
            ),
            inv(advance(start, from as int)),
        decreases configs.len() - at,
    {
        let ghost name = configs[at as int]@.context;
        let created = match find_context(&contexts, &configs[at].0.context) {
            Some(found) => {
                proof {
                    lemma_index_of_unique(contexts.deep_view(), name, found as int);
                }
                clients[found]
            },
            None => {
                assert(contexts.deep_view().contains(contexts_of(configs.deep_view())[at as int]));
                false
            },
        };
        if created {
            return Orchestrator {
                configs,
                contexts,
                clients,
                status,
                stage: Stage::Bind(at, Loopback::V6),
            };
        }
        status.set(at, Status::ClientFailed);
        at += 1;
    }
    Orchestrator { configs, contexts, clients, status, stage: Stage::AwaitShutdown }
}

impl Orchestrator {
    #[verifier::type_invariant]
    spec fn wf(self) -> bool {
        inv(self@)
    }

    /// What the orchestrator is waiting for.
    pub fn stage(&self) -> (stage: Stage)
        ensures
            stage == self@.stage,
    {
        self.stage
    }

    /// The forwards, in the order given at the start.
    pub fn configs(&self) -> (configs: &Vec<Config>)
        ensures
            configs.deep_view() == self@.specs,
    {
        &self.configs
    }

    /// The distinct contexts; a stage `CreateClient` counts in these.
    pub fn contexts(&self) -> (contexts: &Vec<String>)
        ensures
            contexts.deep_view() == self@.contexts,
    {
        &self.contexts
    }

    /// How far each forward has come, in the order of the forwards.
    pub fn status(&self) -> (status: &Vec<Status>)
        ensures
            status@ == self@.status,
    {
        &self.status
    }

    /// The number, among the distinct contexts, of the context of the
    /// forward with this number: the client that its connections use.
    pub fn client_of(&self, forward: usize) -> (at: Option<usize>)
        ensures
            inv(self@),
            at == if forward < self@.specs.len() {
                Some(self@.contexts.index_of(self@.specs[forward as int].context) as usize)
            } else {
                None
            },
            at matches Some(found) ==> found < self@.contexts.len() && self@.contexts[found as int]
                == self@.specs[forward as int].context,
    {
        proof {
            use_type_invariant(self);
            lemma_distinct(contexts_of(self@.specs));
        }
        if forward < self.configs.len() {
            let found = find_context(&self.contexts, &self.configs[forward].0.context);
            proof {
                let name = self@.specs[forward as int].context;
                assert(self@.contexts.contains(contexts_of(self@.specs)[forward as int]));
                lemma_index_of_unique(self@.contexts, name, found.unwrap() as int);
            }
            found
        } else {
            None
        }
    }

    fn settle(self, forward: usize, status: Status) -> (next: Orchestrator)
        requires
            working_on(self@, forward as int),
            status == Status::BindFailed || status == Status::Serving,
        ensures
            next@ == settle(self@, forward, status),
    {
        proof {
            use_type_invariant(&self);
            lemma_decide(self@, forward as int, status);
        }
        let ghost settled = decide(self@, forward as int, status);
        let Orchestrator { configs, contexts, clients, status: mut all, stage } = self;
        all.set(forward, status);
        proof {
            lemma_same_but_stage(settled, of_parts(configs, contexts, clients, all), forward + 1);
        }
        go_on(configs, contexts, clients, all, forward + 1)
    }

    /// Decides how the orchestrator goes on after an event.
    pub fn step(self, event: OrchestratorEvent) -> (next: Orchestrator)
        ensures
            next@ == orchestrator_step(self@, event),
            inv(self@),
            inv(next@),
    {
        proof {
            use_type_invariant(&self);
            lemma_step_keeps_inv(self@, event);
        }
        match self.stage {
            Stage::CreateClient(at) => match event {
                OrchestratorEvent::ClientCreated(created) => {
                    proof {
                        lemma_distinct(contexts_of(self@.specs));
                    }
                    let ghost tried = OrchestratorView {
                        clients: self@.clients.push(created),
                        ..self@
                    };
                    let Orchestrator { configs, contexts, mut clients, status, stage } = self;
                    clients.push(created);
                    if at + 1 < contexts.len() {
                        Orchestrator {
                            configs,
                            contexts,
                            clients,
                            status,
                            stage: Stage::CreateClient(at + 1),
                        }
                    } else {
                        proof {
                            let parts = of_parts(configs, contexts, clients, status);
                            lemma_same_but_stage(tried, parts, 0);
                        }
                        go_on(configs, contexts, clients, status, 0)
                    }
                },
                _ => self,
            },
            Stage::Bind(forward, family) => match event {
                OrchestratorEvent::Bound(bound) => match family {
                    Loopback::V6 => {
                        if bound {
                            Orchestrator { stage: Stage::Bind(forward, Loopback::V4), ..self }
                        } else {
                            self.settle(forward, Status::BindFailed)
                        }
                    },
                    Loopback::V4 => {
                        if bound {
                            Orchestrator { stage: Stage::Launch(forward), ..self }
                        } else {
                            Orchestrator { stage: Stage::Release(forward), ..self }
                        }
                    },
                },
                _ => self,
            },
            Stage::Launch(forward) => match event {
                OrchestratorEvent::Launched => self.settle(forward, Status::Serving),
                _ => self,
            },
            Stage::Release(forward) => match event {
                OrchestratorEvent::Released => self.settle(forward, Status::BindFailed),
                _ => self,
            },
            Stage::AwaitShutdown => match event {
                OrchestratorEvent::Shutdown(notice) => {
                    if notice.is_stop() {
                        Orchestrator { stage: Stage::Drain, ..self }
                    } else {
                        self
                    }
                },
                _ => self,
            },
            Stage::Drain => match event {
                OrchestratorEvent::Drained => Orchestrator { stage: Stage::Done, ..self },
                _ => self,
            },
            Stage::Done => self,
        }
    }
}

/// Going on to the next forward does not look at the stage it starts from.
proof fn lemma_same_but_stage(o: OrchestratorView, other: OrchestratorView, from: int)
    requires
        other == (OrchestratorView { stage: other.stage, ..o }),
    ensures
        advance(other, from) == advance(o, from),
        decided_before(o, from) ==> decided_before(other, from),
        pending_from(o, from) ==> pending_from(other, from),
    decreases o.specs.len() - from,
{
    assert forall|k: int| client_ok(other, k) == client_ok(o, k) by {}
    if 0 <= from < o.specs.len() && !client_ok(o, from) {
        lemma_same_but_stage(
            decide(o, from, Status::ClientFailed),
            decide(other, from, Status::ClientFailed),
            from + 1,
        );
    }
}

/// The orchestrator at its start is in order.
pub proof fn lemma_initial_inv(specs: Seq<ForwardSpec>)
    requires
        specs.len() <= usize::MAX,
    ensures
        inv(initial(specs)),
{
    lemma_distinct(contexts_of(specs));
}

/// Starts the tunnel for these forwards. The result is the orchestrator at
/// its start, which says what is to be done first, and the shutdown flag
/// with which the tunnel is stopped.
pub fn start(configs: Vec<Config>) -> (started: (Orchestrator, ShutdownSignal))
    ensures
        started.0@ == initial(configs.deep_view()),
        inv(started.0@),
        !started.1.stopping(),
        !started.1.written(),
{
    let contexts = distinct_contexts(&configs);
    let mut status: Vec<Status> = Vec::new();
    while status.len() < configs.len()
        invariant
            status.len() <= configs.len(),
            forall|k: int| 0 <= k < status.len() ==> status[k] == Status::Pending,
        decreases configs.len() - status.len(),
    {
        status.push(Status::Pending);
    }
    let stage = if contexts.len() > 0 {
        Stage::CreateClient(0)
    } else {
        Stage::AwaitShutdown
    };
    let clients: Vec<bool> = Vec::new();
    proof {
        let specs = configs.deep_view();
        lemma_initial_inv(specs);
        assert(status@ =~= initial(specs).status);
    }
    let orchestrator = Orchestrator { configs, contexts, clients, status, stage };
    (orchestrator, ShutdownSignal::new())
}

} // verus!
