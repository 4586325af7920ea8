//! What holds of the model for all inputs.

use crate::gossip::{DeedView, InfoView, InformView, RecipientsView};
use crate::ledger::{AgentId, Variable};
use crate::system::{AgentBehavior, ConsortiumBehavior, Engine};
use crate::world::{ends_scenario, occurrences, receive, receive_times, World};
use vstd::prelude::*;

verus! {

/// A world extends itself.
pub proof fn lemma_extends_refl(w: World)
    ensures
        w.extends(w),
{
}

/// Extension is transitive: growth over several steps is growth.
pub proof fn lemma_extends_trans(a: World, b: World, c: World)
    requires
        b.extends(a),
        c.extends(b),
    ensures
        c.extends(a),
{
    assert forall|id: AgentId| #[trigger] a.stores.contains_key(id) implies c.stores[id].extends(
        a.stores[id],
    ) by {
        assert(b.stores.contains_key(id));
        assert(b.stores[id].extends(a.stores[id]));
        assert(c.stores[id].extends(b.stores[id]));
    }
}

/// Registering a new agent keeps the roster valid.
pub proof fn lemma_register_valid(w: World, id: AgentId)
    requires
        w.wf(),
        !w.stores.contains_key(id),
    ensures
        w.register(id).wf(),
{
    let after = w.register(id);
    assert(!w.roster.contains(id));
    assert forall|a: int, b: int|
        0 <= a < after.roster.len() && 0 <= b < after.roster.len() && a != b implies after.roster[a]
        != after.roster[b] by {
        if a < w.roster.len() {
            assert(w.roster.contains(after.roster[a]));
        }
        if b < w.roster.len() {
            assert(w.roster.contains(after.roster[b]));
        }
    }
    assert forall|k: AgentId| after.stores.contains_key(k) <==> after.roster.contains(k) by {
        if w.roster.contains(k) {
            let j = choose|j: int| 0 <= j < w.roster.len() && w.roster[j] == k;
            assert(after.roster[j] == k);
        }
        if k == id {
            assert(after.roster[after.roster.len() - 1] == k);
        }
    }
}

/// Setting an asset keeps the roster valid.
pub proof fn lemma_set_asset_valid(w: World, id: AgentId, v: Variable, data: Seq<u8>)
    ensures
        w.wf() ==> w.set_asset(id, v, data).wf(),
{
    assert(w.set_asset(id, v, data).stores.dom() =~= w.stores.dom());
}

/// One delivery only appends: the world after it extends the world before,
/// and keeps the roster valid.
pub proof fn lemma_deliver_extends(w: World, id: AgentId, info: InfoView)
    ensures
        w.deliver(id, info).extends(w),
        w.wf() ==> w.deliver(id, info).wf(),
{
    let after = w.deliver(id, info);
    assert(after.stores.dom() =~= w.stores.dom());
}

/// Delivery to a list only appends, and keeps the roster valid.
pub proof fn lemma_deliver_listed_extends(w: World, ids: Seq<AgentId>, info: InfoView)
    ensures
        w.deliver_listed(ids, info).extends(w),
        w.wf() ==> w.deliver_listed(ids, info).wf(),
    decreases ids.len(),
{
    if ids.len() > 0 {
        let mid = w.deliver_listed(ids.drop_last(), info);
        lemma_deliver_listed_extends(w, ids.drop_last(), info);
        lemma_deliver_extends(mid, ids.last(), info);
        lemma_extends_trans(w, mid, mid.deliver(ids.last(), info));
    }
}

/// Broadcast completeness: after an inform to all agents, every registered
/// agent has received the fact exactly once, and no agent has come or gone.
pub proof fn lemma_broadcast_complete(w: World, info: InfoView)
    ensures
        w.deliver_all(info).stores.dom() == w.stores.dom(),
        forall|id: AgentId| #[trigger]
            w.stores.contains_key(id) ==> w.deliver_all(info).stores[id] == receive(
                w.stores[id],
                info,
            ),
        w.deliver_all(info).extends(w),
        w.wf() ==> w.deliver_all(info).wf(),
{
    assert(w.deliver_all(info).stores.dom() =~= w.stores.dom());
}

/// Listed delivery is exclusive: an agent that is not in the list keeps its
/// store as it was, and registered agents stay registered.
pub proof fn lemma_listed_exclusive(w: World, ids: Seq<AgentId>, info: InfoView, z: AgentId)
    requires
        !ids.contains(z),
    ensures
        w.deliver_listed(ids, info).stores.contains_key(z) == w.stores.contains_key(z),
        w.stores.contains_key(z) ==> w.deliver_listed(ids, info).stores[z] == w.stores[z],
    decreases ids.len(),
{
    if ids.len() > 0 {
        assert forall|j: int| 0 <= j < ids.drop_last().len() implies ids.drop_last()[j] != z by {
            assert(ids[j] != z);
        }
        lemma_listed_exclusive(w, ids.drop_last(), info, z);
        assert(ids[ids.len() - 1] != z);
    }
}

/// Listed delivery gives one copy for each time an agent is named: a
/// registered agent that stands `k` times in the list receives the fact `k`
/// times.
pub proof fn lemma_listed_receives_each_time(
    w: World,
    ids: Seq<AgentId>,
    info: InfoView,
    id: AgentId,
)
    requires
        w.stores.contains_key(id),
    ensures
        w.deliver_listed(ids, info).stores.contains_key(id),
        w.deliver_listed(ids, info).stores[id] == receive_times(
            w.stores[id],
            info,
            occurrences(ids, id),
        ),
    decreases ids.len(),
{
    if ids.len() > 0 {
        lemma_listed_receives_each_time(w, ids.drop_last(), info, id);
    }
}

/// A registered agent that is named once in the list receives the fact
/// once, whatever else the list holds.
pub proof fn lemma_listed_receives(w: World, ids: Seq<AgentId>, info: InfoView, id: AgentId)
    requires
        w.stores.contains_key(id),
        occurrences(ids, id) == 1,
    ensures
        w.deliver_listed(ids, info).stores.contains_key(id),
        w.deliver_listed(ids, info).stores[id] == receive(w.stores[id], info),
{
    lemma_listed_receives_each_time(w, ids, info, id);
    reveal_with_fuel(receive_times, 2);
}

/// An id that is not in a list stands in it no times.
pub proof fn lemma_absent_occurs_never(ids: Seq<AgentId>, id: AgentId)
    requires
        !ids.contains(id),
    ensures
        occurrences(ids, id) == 0,
    decreases ids.len(),
{
    if ids.len() > 0 {
        assert(ids[ids.len() - 1] != id);
        assert forall|j: int| 0 <= j < ids.drop_last().len() implies ids.drop_last()[j] != id by {
            assert(ids[j] != id);
        }
        lemma_absent_occurs_never(ids.drop_last(), id);
    }
}

/// In a list without duplicates every member stands once.
pub proof fn lemma_member_occurs_once(ids: Seq<AgentId>, k: int)
    requires
        ids.no_duplicates(),
        0 <= k < ids.len(),
    ensures
        occurrences(ids, ids[k]) == 1,
    decreases ids.len(),
{
    let front = ids.drop_last();
    if k == ids.len() - 1 {
        assert(!front.contains(ids[k])) by {
            if front.contains(ids[k]) {
                let j = choose|j: int| 0 <= j < front.len() && front[j] == ids[k];
                assert(ids[j] == ids[k]);
            }
        }
        lemma_absent_occurs_never(front, ids[k]);
    } else {
        assert(front.no_duplicates());
        assert(front[k] == ids[k]);
        lemma_member_occurs_once(front, k);
        assert(ids.last() != ids[k]);
    }
}

/// A broadcast does what a listed delivery to the whole roster does.
pub proof fn lemma_broadcast_is_listed_roster(w: World, info: InfoView)
    requires
        w.wf(),
    ensures
        w.deliver_all(info) == w.deliver_listed(w.roster, info),
{
    let listed = w.deliver_listed(w.roster, info);
    lemma_deliver_listed_extends(w, w.roster, info);
    lemma_deliver_listed_keeps_globals(w, w.roster, info);
    assert forall|id: AgentId| w.stores.contains_key(id) implies listed.stores[id] == receive(
        w.stores[id],
        info,
    ) by {
        assert(w.roster.contains(id));
        let k = choose|k: int| 0 <= k < w.roster.len() && w.roster[k] == id;
        lemma_member_occurs_once(w.roster, k);
        lemma_listed_receives(w, w.roster, info, id);
    }
    assert(listed.stores =~= w.deliver_all(info).stores);
}

/// One inform only appends, whichever recipients it names.
pub proof fn lemma_handle_inform_extends(w: World, inform: InformView)
    ensures
        w.handle_inform(inform).extends(w),
        w.wf() ==> w.handle_inform(inform).wf(),
{
    match inform.recipients {
        RecipientsView::AllAgents => lemma_broadcast_complete(w, inform.info),
        RecipientsView::ListedAgents(ids) => lemma_deliver_listed_extends(w, ids, inform.info),
    }
}

/// Append-only stores: a buffer of informs only appends.
pub proof fn lemma_disseminate_extends(w: World, informs: Seq<InformView>)
    ensures
        w.disseminate(informs).extends(w),
        w.wf() ==> w.disseminate(informs).wf(),
    decreases informs.len(),
{
    if informs.len() > 0 {
        let mid = w.disseminate(informs.drop_last());
        lemma_disseminate_extends(w, informs.drop_last());
        lemma_handle_inform_extends(mid, informs.last());
        lemma_extends_trans(w, mid, mid.handle_inform(informs.last()));
    }
}

/// Deeds never touch a store or the roster, and the agreement log only
/// grows.
pub proof fn lemma_apply_deeds_extends(w: World, deeds: Seq<DeedView>)
    ensures
        w.apply_deeds(deeds).stores == w.stores,
        w.apply_deeds(deeds).roster == w.roster,
        w.apply_deeds(deeds).extends(w),
        w.wf() ==> w.apply_deeds(deeds).wf(),
    decreases deeds.len(),
{
    if deeds.len() > 0 && deeds[0] != DeedView::EndScenario {
        let mid = w.handle_consortium_deed(deeds[0]);
        lemma_apply_deeds_extends(mid, deeds.skip(1));
        lemma_extends_trans(w, mid, mid.apply_deeds(deeds.skip(1)));
    }
}

/// Termination of a batch: the deeds after the first `EndScenario` have no
/// effect. The batch does what its part before that deed does.
pub proof fn lemma_apply_deeds_stops(w: World, deeds: Seq<DeedView>, k: int)
    requires
        0 <= k < deeds.len(),
        deeds[k] == DeedView::EndScenario,
        forall|j: int| 0 <= j < k ==> deeds[j] != DeedView::EndScenario,
    ensures
        ends_scenario(deeds),
        w.apply_deeds(deeds) == w.apply_deeds(deeds.take(k)),
    decreases k,
{
    if k > 0 {
        let mid = w.handle_consortium_deed(deeds[0]);
        assert(deeds.skip(1)[k - 1] == deeds[k]);
        lemma_apply_deeds_stops(mid, deeds.skip(1), k - 1);
        assert(deeds.take(k)[0] == deeds[0]);
        assert(deeds.take(k).skip(1) =~= deeds.skip(1).take(k - 1));
    } else {
        assert(deeds.take(0).len() == 0);
    }
}

/// Dissemination never touches the clock, the agreement log or the roster.
pub proof fn lemma_disseminate_keeps_globals(w: World, informs: Seq<InformView>)
    ensures
        w.disseminate(informs).current_time == w.current_time,
        w.disseminate(informs).agreed == w.agreed,
        w.disseminate(informs).roster == w.roster,
    decreases informs.len(),
{
    if informs.len() > 0 {
        let mid = w.disseminate(informs.drop_last());
        lemma_disseminate_keeps_globals(w, informs.drop_last());
        match informs.last().recipients {
            RecipientsView::AllAgents => {},
            RecipientsView::ListedAgents(ids) => {
                lemma_deliver_listed_keeps_globals(mid, ids, informs.last().info);
            },
        }
    }
}

/// Listed delivery never touches the clock, the agreement log or the roster.
pub proof fn lemma_deliver_listed_keeps_globals(w: World, ids: Seq<AgentId>, info: InfoView)
    ensures
        w.deliver_listed(ids, info).current_time == w.current_time,
        w.deliver_listed(ids, info).agreed == w.agreed,
        w.deliver_listed(ids, info).roster == w.roster,
    decreases ids.len(),
{
    if ids.len() > 0 {
        lemma_deliver_listed_keeps_globals(w, ids.drop_last(), info);
    }
}

/// Tick ordering: in a tick that does not end the run, phase one comes
/// wholly before phase two. The buffer is disseminated into the world that
/// the deeds left, and the clock and the agreement log that the deeds set
/// stand unchanged at the end of the tick.
pub proof fn lemma_phase_one_first(w: World, deeds: Seq<DeedView>, buffer: Seq<InformView>)
    requires
        !ends_scenario(deeds),
    ensures
        w.tick(deeds, buffer) == w.apply_deeds(deeds).disseminate(buffer),
        w.tick(deeds, buffer).current_time == w.apply_deeds(deeds).current_time,
        w.tick(deeds, buffer).agreed == w.apply_deeds(deeds).agreed,
{
    lemma_disseminate_keeps_globals(w.apply_deeds(deeds), buffer);
}

/// Termination: in a tick whose deeds end the run, phase two does not run.
/// The buffer has no effect and every store is as it was before the tick.
pub proof fn lemma_end_skips_phase_two(w: World, deeds: Seq<DeedView>, buffer: Seq<InformView>)
    requires
        ends_scenario(deeds),
    ensures
        w.tick(deeds, buffer) == w.apply_deeds(deeds),
        w.tick(deeds, buffer).stores == w.stores,
{
    lemma_apply_deeds_extends(w, deeds);
}

/// A tick only appends, whatever the behaviors returned.
pub proof fn lemma_tick_extends(w: World, deeds: Seq<DeedView>, buffer: Seq<InformView>)
    ensures
        w.tick(deeds, buffer).extends(w),
        w.wf() ==> w.tick(deeds, buffer).wf(),
{
    let mid = w.apply_deeds(deeds);
    lemma_apply_deeds_extends(w, deeds);
    lemma_disseminate_extends(mid, buffer);
    lemma_extends_trans(w, mid, mid.disseminate(buffer));
}

/// Tick ordering: the consortium is asked on the state before the tick,
/// and in a tick that goes on every agent is asked on the state that the
/// deeds left. The buffer is disseminated into that state, and the clock and
/// the agreement log that the deeds set stand at the end of the tick.
pub proof fn lemma_tick_order<C: ConsortiumBehavior, B: AgentBehavior>(e: Engine<C, B>)
    requires
        !e.tick_ends(),
    ensures
        e.tick().world == e.after_deeds().world.disseminate(e.after_deeds().poll()),
        e.after_deeds().world == e.world.apply_deeds(e.consortium.decides(e.world)),
        e.tick().world.current_time == e.after_deeds().world.current_time,
        e.tick().world.agreed == e.after_deeds().world.agreed,
{
    lemma_phase_one_first(e.world, e.deeds(), e.after_deeds().poll());
}

/// Simultaneity: what an agent answers in a tick is its behavior on its own
/// store as it was before the tick. No deed and no inform of the same tick
/// is seen by it.
pub proof fn lemma_simultaneity<C: ConsortiumBehavior, B: AgentBehavior>(e: Engine<C, B>, b: int)
    requires
        e.has_agent(b),
        0 <= b < e.behaviors.len(),
    ensures
        e.after_deeds().answers()[b] == e.behaviors[b].emits(e.world.stores[e.world.roster[b]]),
{
    lemma_apply_deeds_extends(e.world, e.deeds());
}

/// Simultaneity, between agents: what agent `b` answers in a tick does not
/// depend on what any other agent `a` does in that tick.
pub proof fn lemma_answers_independent<C: ConsortiumBehavior, B: AgentBehavior>(
    e: Engine<C, B>,
    a: int,
    other: B,
    b: int,
)
    requires
        0 <= a < e.behaviors.len(),
        0 <= b < e.behaviors.len(),
        a != b,
    ensures
        (Engine { behaviors: e.behaviors.update(a, other), ..e }).after_deeds().answers()[b]
            == e.after_deeds().answers()[b],
{
}

/// What one tick delivers is seen in the next: the store on which an agent
/// is asked in the following tick is its store after this tick's
/// dissemination.
pub proof fn lemma_next_tick_sees<C: ConsortiumBehavior, B: AgentBehavior>(e: Engine<C, B>, b: int)
    requires
        e.wf(),
        0 <= b < e.behaviors.len(),
    ensures
        e.tick().has_agent(b),
        e.tick().after_deeds().answers()[b] == e.behaviors[b].emits(
            e.tick().world.stores[e.world.roster[b]],
        ),
{
    lemma_engine_tick_extends(e);
    assert(e.world.roster.contains(e.world.roster[b]));
    lemma_simultaneity(e.tick(), b);
}

/// Termination of a tick: when the controller's deeds hold `EndScenario`,
/// the tick applies the deeds before it and nothing else. No agent is asked
/// and every store is as it was.
pub proof fn lemma_tick_ends<C: ConsortiumBehavior, B: AgentBehavior>(e: Engine<C, B>)
    requires
        e.tick_ends(),
    ensures
        e.tick().world == e.world.apply_deeds(e.consortium.decides(e.world)),
        e.tick().world.stores == e.world.stores,
        forall|n: nat| n > 0 ==> #[trigger] e.run(n) == (e.tick(), true),
{
    lemma_end_skips_phase_two(e.world, e.deeds(), e.after_deeds().poll());
}

/// A tick of the simulation only appends, and keeps it valid.
pub proof fn lemma_engine_tick_extends<C: ConsortiumBehavior, B: AgentBehavior>(e: Engine<C, B>)
    ensures
        e.tick().world.extends(e.world),
        e.tick().behaviors == e.behaviors,
        e.tick().consortium == e.consortium,
        e.wf() ==> e.tick().wf(),
{
    lemma_tick_extends(e.world, e.deeds(), e.after_deeds().poll());
}

/// Append-only stores: over any number of ticks, every agent's recorded
/// statements and enacted actions stay where they are, so their numbers
/// never go down; the same holds of the agreement log.
pub proof fn lemma_run_extends<C: ConsortiumBehavior, B: AgentBehavior>(e: Engine<C, B>, n: nat)
    ensures
        e.run(n).0.world.extends(e.world),
        e.wf() ==> e.run(n).0.wf(),
        forall|id: AgentId| #[trigger]
            e.world.stores.contains_key(id) ==> e.world.stores[id].stated.len() <= e.run(
                n,
            ).0.world.stores[id].stated.len() && e.world.stores[id].enacted.len() <= e.run(
                n,
            ).0.world.stores[id].enacted.len(),
    decreases n,
{
    lemma_engine_tick_extends(e);
    if n > 0 && !e.tick_ends() {
        lemma_run_extends(e.tick(), (n - 1) as nat);
        lemma_extends_trans(e.world, e.tick().world, e.run(n).0.world);
    }
    assert forall|id: AgentId| #[trigger] e.world.stores.contains_key(id) implies e.world.stores[id].stated.len()
        <= e.run(n).0.world.stores[id].stated.len() && e.world.stores[id].enacted.len() <= e.run(
        n,
    ).0.world.stores[id].enacted.len() by {
        assert(e.run(n).0.world.stores[id].extends(e.world.stores[id]));
    }
}

/// Termination of a run: when the tick after `k` full ticks is the first
/// that ends the run, and the limit allows it, the run is those `k` ticks
/// followed by that tick's deeds up to `EndScenario`, and it reports the
/// end.
pub proof fn lemma_run_halts<C: ConsortiumBehavior, B: AgentBehavior>(
    e: Engine<C, B>,
    k: nat,
    n: nat,
)
    requires
        k < n,
        forall|j: nat| j < k ==> !(#[trigger] e.ticks(j)).tick_ends(),
        e.ticks(k).tick_ends(),
    ensures
        e.run(n) == (e.ticks(k).tick(), true),
        e.ticks(k).tick().world == e.ticks(k).world.apply_deeds(e.ticks(k).deeds()),
    decreases k,
{
    lemma_tick_ends(e.ticks(k));
    if k > 0 {
        assert(!e.ticks(0).tick_ends());
        assert forall|j: nat| j < k - 1 implies !(#[trigger] e.tick().ticks(j)).tick_ends() by {
            assert(e.ticks(j + 1) == e.tick().ticks(j));
            assert(!e.ticks(j + 1).tick_ends());
        }
        assert(e.ticks(k) == e.tick().ticks((k - 1) as nat));
        lemma_run_halts(e.tick(), (k - 1) as nat, (n - 1) as nat);
    }
}

/// A run in which no tick ends the run is all its ticks, one after another,
/// and it reports no end.
pub proof fn lemma_run_exhausts<C: ConsortiumBehavior, B: AgentBehavior>(e: Engine<C, B>, n: nat)
    requires
        forall|j: nat| j < n ==> !(#[trigger] e.ticks(j)).tick_ends(),
    ensures
        e.run(n) == (e.ticks(n), false),
    decreases n,
{
    if n > 0 {
        assert(!e.ticks(0).tick_ends());
        assert forall|j: nat| j < n - 1 implies !(#[trigger] e.tick().ticks(j)).tick_ends() by {
            assert(e.ticks(j + 1) == e.tick().ticks(j));
            assert(!e.ticks(j + 1).tick_ends());
        }
        lemma_run_exhausts(e.tick(), (n - 1) as nat);
    }
}

} // verus!
