//! What becomes of the forwards while the orchestrator sets them up.

use crate::config::ForwardSpec;
use crate::contexts::{contexts_of, distinct, lemma_distinct};
use crate::listener::Loopback;
use crate::orchestrator::{
    advance, client_ok, decide, decided_before, initial, inv, lemma_advance, lemma_decide,
    lemma_initial_inv, lemma_settle, lemma_step_keeps_inv, orchestrator_step, pending_from,
    settle, working_on, OrchestratorEvent, OrchestratorView, Stage, Status,
};
use vstd::prelude::*;

verus! {

/// How the world answers an orchestrator that is setting up: whether the
/// client of a context can be created, and whether a forward can be bound
/// on an address.
pub struct Outcomes {
    pub client: spec_fn(Seq<char>) -> bool,
    pub bind: spec_fn(int, Loopback) -> bool,
}

/// Whether the orchestrator is still setting up.
pub open spec fn setting_up(stage: Stage) -> bool {
    stage is CreateClient || stage is Bind || stage is Launch || stage is Release
}

/// The event with which the world answers what the orchestrator is waiting
/// for while it is setting up.
pub open spec fn answer(o: OrchestratorView, world: Outcomes) -> OrchestratorEvent {
    match o.stage {
        Stage::CreateClient(at) => OrchestratorEvent::ClientCreated(
            (world.client)(o.contexts[at as int]),
        ),
        Stage::Bind(forward, family) => OrchestratorEvent::Bound(
            (world.bind)(forward as int, family),
        ),
        Stage::Launch(_) => OrchestratorEvent::Launched,
        _ => OrchestratorEvent::Released,
    }
}

/// The orchestrator after it was answered until it is set up, or else the
/// given number of times.
pub open spec fn set_up(o: OrchestratorView, world: Outcomes, steps: nat) -> OrchestratorView
    decreases steps,
{
    if steps == 0 || !setting_up(o.stage) {
        o
    } else {
        set_up(orchestrator_step(o, answer(o, world)), world, (steps - 1) as nat)
    }
}

/// A number of answers that is enough to set up these forwards: one for
/// each context, and three for each forward.
pub open spec fn enough(specs: Seq<ForwardSpec>) -> nat {
    distinct(contexts_of(specs)).len() + 3 * specs.len()
}

/// What becomes of a forward in a given world.
pub open spec fn fate(specs: Seq<ForwardSpec>, world: Outcomes, forward: int) -> Status {
    if !(world.client)(specs[forward].context) {
        Status::ClientFailed
    } else if (world.bind)(forward, Loopback::V6) && (world.bind)(forward, Loopback::V4) {
        Status::Serving
    } else {
        Status::BindFailed
    }
}

/// How many answers the orchestrator needs at most until it is set up.
spec fn remaining(o: OrchestratorView) -> int {
    match o.stage {
        Stage::CreateClient(at) => o.contexts.len() - at + 3 * o.specs.len(),
        Stage::Bind(forward, Loopback::V6) => 3 * (o.specs.len() - forward),
        Stage::Bind(forward, Loopback::V4) => 3 * (o.specs.len() - forward) - 1,
        Stage::Launch(forward) => 3 * (o.specs.len() - forward) - 2,
        Stage::Release(forward) => 3 * (o.specs.len() - forward) - 2,
        _ => 0,
    }
}

/// What the orchestrator holds agrees with the world.
spec fn agrees(o: OrchestratorView, world: Outcomes) -> bool {
    &&& forall|at: int|
        0 <= at < o.clients.len() ==> #[trigger] o.clients[at] == (world.client)(o.contexts[at])
    &&& forall|k: int|
        0 <= k < o.status.len() && #[trigger] o.status[k] != Status::Pending ==> o.status[k]
            == fate(o.specs, world, k)
}

/// The orchestrator is in order, and what it holds agrees with the world.
spec fn consistent(o: OrchestratorView, world: Outcomes) -> bool {
    &&& inv(o)
    &&& agrees(o, world)
    &&& match o.stage {
        Stage::Bind(forward, Loopback::V4) => (world.bind)(forward as int, Loopback::V6),
        Stage::Launch(forward) => (world.bind)(forward as int, Loopback::V6) && (world.bind)(
            forward as int,
            Loopback::V4,
        ),
        Stage::Release(forward) => (world.bind)(forward as int, Loopback::V6) && !(world.bind)(
            forward as int,
            Loopback::V4,
        ),
        _ => true,
    }
}

/// Once every client was tried, a forward has a client exactly if the world
/// grants one to its context.
proof fn lemma_client_ok_agrees(o: OrchestratorView, world: Outcomes, forward: int)
    requires
        o.contexts == distinct(contexts_of(o.specs)),
        o.clients.len() == o.contexts.len(),
        agrees(o, world),
        0 <= forward < o.specs.len(),
    ensures
        client_ok(o, forward) == (world.client)(o.specs[forward].context),
{
    lemma_distinct(contexts_of(o.specs));
    assert(o.contexts.contains(contexts_of(o.specs)[forward]));
}

/// Deciding a forward as the world has it keeps what the orchestrator holds
/// in agreement with the world.
proof fn lemma_decide_agrees(o: OrchestratorView, world: Outcomes, forward: int, status: Status)
    requires
        agrees(o, world),
        0 <= forward < o.status.len(),
        status == fate(o.specs, world, forward),
    ensures
        agrees(decide(o, forward, status), world),
{
    let decided = decide(o, forward, status);
    assert forall|k: int|
        0 <= k < decided.status.len() && #[trigger] decided.status[k]
            != Status::Pending implies decided.status[k] == fate(decided.specs, world, k) by {
        if k != forward {
            assert(decided.status[k] == o.status[k]);
        }
    }
}

/// Going on to the next forward keeps the orchestrator consistent with the
/// world, and leaves no more to do than the forwards from there on need.
proof fn lemma_advance_agrees(o: OrchestratorView, world: Outcomes, from: int)
    requires
        o.contexts == distinct(contexts_of(o.specs)),
        o.status.len() == o.specs.len(),
        o.specs.len() <= usize::MAX,
        o.clients.len() == o.contexts.len(),
        0 <= from <= o.specs.len(),
        decided_before(o, from),
        pending_from(o, from),
        agrees(o, world),
    ensures
        consistent(advance(o, from), world),
        remaining(advance(o, from)) <= 3 * (o.specs.len() - from),
    decreases o.specs.len() - from,
{
    lemma_advance(o, from);
    if from < o.specs.len() && !client_ok(o, from) {
        lemma_client_ok_agrees(o, world, from);
        lemma_decide(o, from, Status::ClientFailed);
        lemma_decide_agrees(o, world, from, Status::ClientFailed);
        lemma_advance_agrees(decide(o, from, Status::ClientFailed), world, from + 1);
    }
}

/// Settling the forward at work as the world has it keeps the orchestrator
/// consistent with the world.
proof fn lemma_settle_agrees(o: OrchestratorView, world: Outcomes, forward: usize, status: Status)
    requires
        consistent(o, world),
        working_on(o, forward as int),
        status == Status::BindFailed || status == Status::Serving,
        status == fate(o.specs, world, forward as int),
    ensures
        consistent(settle(o, forward, status), world),
        remaining(settle(o, forward, status)) <= 3 * (o.specs.len() - forward) - 3,
{
    lemma_decide(o, forward as int, status);
    lemma_decide_agrees(o, world, forward as int, status);
    lemma_advance_agrees(decide(o, forward as int, status), world, forward + 1);
}

/// An answer from the world keeps the orchestrator consistent with it and
/// brings the end of the setting up nearer.
proof fn lemma_answer_agrees(o: OrchestratorView, world: Outcomes)
    requires
        consistent(o, world),
        setting_up(o.stage),
    ensures
        consistent(orchestrator_step(o, answer(o, world)), world),
        remaining(orchestrator_step(o, answer(o, world))) < remaining(o),
        orchestrator_step(o, answer(o, world)).specs == o.specs,
{
    lemma_step_keeps_inv(o, answer(o, world));
    lemma_distinct(contexts_of(o.specs));
    match o.stage {
        Stage::CreateClient(at) => {
            let tried = OrchestratorView {
                clients: o.clients.push((world.client)(o.contexts[at as int])),
                ..o
            };
            assert(agrees(tried, world)) by {
                assert forall|i: int|
                    0 <= i < tried.clients.len() implies #[trigger] tried.clients[i] == (
                    world.client)(tried.contexts[i]) by {
                    if i < at {
                        assert(tried.clients[i] == o.clients[i]);
                    }
                }
            }
            if at + 1 >= o.contexts.len() {
                lemma_advance_agrees(tried, world, 0);
            }
        },
        Stage::Bind(forward, family) => {
            lemma_client_ok_agrees(o, world, forward as int);
            if family == Loopback::V6 && !(world.bind)(forward as int, family) {
                lemma_settle_agrees(o, world, forward, Status::BindFailed);
            }
        },
        Stage::Launch(forward) => {
            lemma_client_ok_agrees(o, world, forward as int);
            lemma_settle_agrees(o, world, forward, Status::Serving);
        },
        Stage::Release(forward) => {
            lemma_client_ok_agrees(o, world, forward as int);
            lemma_settle_agrees(o, world, forward, Status::BindFailed);
        },
        _ => {},
    }
}

/// With answers enough, the orchestrator comes to wait for shutdown with
/// every forward decided as the world has it.
proof fn lemma_set_up_agrees(o: OrchestratorView, world: Outcomes, steps: nat)
    requires
        consistent(o, world),
        setting_up(o.stage) || o.stage is AwaitShutdown,
        steps >= remaining(o),
    ensures
        consistent(set_up(o, world, steps), world),
        set_up(o, world, steps).stage is AwaitShutdown,
        set_up(o, world, steps).specs == o.specs,
        set_up(o, world, steps).status.len() == o.specs.len(),
        forall|k: int|
            0 <= k < o.specs.len() ==> #[trigger] set_up(o, world, steps).status[k] == fate(
                o.specs,
                world,
                k,
            ),
    decreases steps,
{
    if setting_up(o.stage) {
        let next = orchestrator_step(o, answer(o, world));
        lemma_answer_agrees(o, world);
        lemma_step_stays_on_course(o, answer(o, world));
        lemma_set_up_agrees(next, world, (steps - 1) as nat);
    } else {
        assert forall|k: int| 0 <= k < o.specs.len() implies #[trigger] o.status[k] == fate(
            o.specs,
            world,
            k,
        ) by {
            assert(o.status[k] != Status::Pending);
        }
    }
}

/// While it is setting up, the orchestrator goes on setting up or comes to
/// wait for shutdown: it neither drains nor ends before it was told to stop.
pub proof fn lemma_step_stays_on_course(o: OrchestratorView, event: OrchestratorEvent)
    requires
        inv(o),
        setting_up(o.stage),
    ensures
        setting_up(orchestrator_step(o, event).stage) || orchestrator_step(o, event).stage
            is AwaitShutdown,
{
    match (o.stage, event) {
        (Stage::CreateClient(at), OrchestratorEvent::ClientCreated(created)) => {
            let tried = OrchestratorView { clients: o.clients.push(created), ..o };
            if at + 1 >= o.contexts.len() {
                lemma_advance(tried, 0);
            }
        },
        (Stage::Bind(forward, Loopback::V6), OrchestratorEvent::Bound(false)) => {
            lemma_settle(o, forward, Status::BindFailed);
        },
        (Stage::Launch(forward), OrchestratorEvent::Launched) => {
            lemma_settle(o, forward, Status::Serving);
        },
        (Stage::Release(forward), OrchestratorEvent::Released) => {
            lemma_settle(o, forward, Status::BindFailed);
        },
        _ => {},
    }
}

/// The orchestrator when these forwards are set up in the given world.
pub open spec fn outcome(specs: Seq<ForwardSpec>, world: Outcomes) -> OrchestratorView {
    set_up(initial(specs), world, enough(specs))
}

/// Setting up always comes to an end, and what has become of each forward
/// by then depends on its own context and its own two addresses alone: it
/// is given up for want of a client exactly if its context has none, and is
/// serving exactly if its context has one and both its addresses could be
/// bound.
pub proof fn lemma_outcome(specs: Seq<ForwardSpec>, world: Outcomes, forward: int)
    requires
        specs.len() <= usize::MAX,
        0 <= forward < specs.len(),
    ensures
        outcome(specs, world).stage == Stage::AwaitShutdown,
        outcome(specs, world).specs == specs,
        outcome(specs, world).status.len() == specs.len(),
        outcome(specs, world).status[forward] == fate(specs, world, forward),
{
    lemma_initial_inv(specs);
    let o = initial(specs);
    lemma_set_up_agrees(o, world, enough(specs));
}

/// One client is tried for each distinct context, no more and no fewer,
/// whatever the forwards and whatever fails: when the forwards are set up,
/// the orchestrator holds for each distinct context what the world
/// answered for it.
pub proof fn lemma_one_client_per_context(specs: Seq<ForwardSpec>, world: Outcomes)
    requires
        specs.len() <= usize::MAX,
    ensures
        outcome(specs, world).contexts == distinct(contexts_of(specs)),
        outcome(specs, world).contexts.no_duplicates(),
        outcome(specs, world).clients.len() == outcome(specs, world).contexts.len(),
        forall|at: int|
            0 <= at < outcome(specs, world).clients.len() ==> #[trigger] outcome(
                specs,
                world,
            ).clients[at] == (world.client)(outcome(specs, world).contexts[at]),
{
    lemma_initial_inv(specs);
    lemma_distinct(contexts_of(specs));
    lemma_set_up_agrees(initial(specs), world, enough(specs));
}

/// Forwards do not stand in each other's way: in two worlds that treat one
/// forward alike, its context and its two addresses, the same becomes of
/// it, whatever fails or succeeds for the others.
pub proof fn lemma_forwards_independent(
    specs: Seq<ForwardSpec>,
    world: Outcomes,
    other: Outcomes,
    forward: int,
)
    requires
        specs.len() <= usize::MAX,
        0 <= forward < specs.len(),
        (world.client)(specs[forward].context) == (other.client)(specs[forward].context),
        (world.bind)(forward, Loopback::V6) == (other.bind)(forward, Loopback::V6),
        (world.bind)(forward, Loopback::V4) == (other.bind)(forward, Loopback::V4),
    ensures
        outcome(specs, world).status[forward] == outcome(specs, other).status[forward],
{
    lemma_outcome(specs, world, forward);
    lemma_outcome(specs, other, forward);
}

} // verus!
