//! The state that the simulation loop owns: every agent's store, the
//! agreement log and the global clock. All cross-agent effects pass through
//! the dissemination functions here.

use crate::gossip::{deed_views, inform_views, ConsortiumDeed, Info, Inform, Recipients};
use crate::ledger::{agreement_views, AgentId, Agreement, AssetData, Time, Variable};
use crate::store::{Store, StoreView};
use crate::world::{ends_scenario, World};
use std::collections::HashMap;
use vstd::prelude::*;

verus! {

broadcast use vstd::std_specs::hash::group_hash_axioms;

/// The exclusive owner of all agent stores.
pub struct Society {
    stores: HashMap<AgentId, Store>,
    roster: Vec<AgentId>,
    agreed: Vec<Agreement>,
    current_time: Time,
}

impl View for Society {
    type V = World;

    closed spec fn view(&self) -> World {
        World {
            stores: self.stores@.map_values(|s: Store| s@),
            roster: self.roster@,
            agreed: agreement_views(self.agreed@),
            current_time: self.current_time,
        }
    }
}

impl Society {
    /// A society without agents or agreements, its clock at `current_time`.
    pub fn new(current_time: Time) -> (out: Society)
        ensures
            out@ == World::start(current_time),
            out@.wf(),
    {
        let out = Society {
            stores: HashMap::new(),
            roster: Vec::new(),
            agreed: Vec::new(),
            current_time,
        };
        assert(out@.stores =~= Map::empty());
        assert(out@.agreed =~= Seq::empty());
        out
    }

    /// Registers agent `id` with an empty store, last in the roster. An id
    /// that is already registered is refused and nothing changes.
    pub fn register(&mut self, id: AgentId) -> (added: bool)
        ensures
            added == !old(self)@.stores.contains_key(id),
            added ==> final(self)@ == old(self)@.register(id),
            !added ==> final(self)@ == old(self)@,
            old(self)@.wf() ==> final(self)@.wf(),
    {
        if self.stores.contains_key(&id) {
            return false;
        }
        self.stores.insert(id, Store::new());
        self.roster.push(id);
        assert(self@.stores =~= old(self)@.stores.insert(id, StoreView::empty()));
        assert(self@.roster == old(self)@.roster.push(id));
        proof {
            if old(self)@.wf() {
                crate::laws::lemma_register_valid(old(self)@, id);
            }
        }
        true
    }

    /// The global clock.
    pub fn current_time(&self) -> (t: Time)
        ensures
            t == self@.current_time,
    {
        self.current_time
    }

    /// How many agents are registered.
    pub fn agent_count(&self) -> (n: usize)
        ensures
            n == self@.roster.len(),
    {
        self.roster.len()
    }

    /// The `i`-th registered agent.
    pub fn agent_id(&self, i: usize) -> (out: Option<AgentId>)
        ensures
            out == if i < self@.roster.len() {
                Some(self@.roster[i as int])
            } else {
                None
            },
    {
        if i < self.roster.len() {
            Some(self.roster[i])
        } else {
            None
        }
    }

    /// The store of agent `id`, if it is registered.
    pub fn store(&self, id: AgentId) -> (out: Option<&Store>)
        ensures
            match out {
                Some(s) => self@.stores.contains_key(id) && s@ == self@.stores[id],
                None => !self@.stores.contains_key(id),
            },
    {
        self.stores.get(&id)
    }

    /// How many agreements have been recorded.
    pub fn agreed_len(&self) -> (n: usize)
        ensures
            n == self@.agreed.len(),
    {
        self.agreed.len()
    }

    /// The `i`-th recorded agreement, oldest first.
    pub fn agreed_at(&self, i: usize) -> (out: Option<&Agreement>)
        ensures
            match out {
                Some(a) => i < self@.agreed.len() && a@ == self@.agreed[i as int],
                None => i >= self@.agreed.len(),
            },
    {
        if i < self.agreed.len() {
            Some(&self.agreed[i])
        } else {
            None
        }
    }

    /// Puts `data` under `v` in the asset table of agent `id`, replacing
    /// what was there; an unknown `id` changes nothing.
    pub fn set_asset(&mut self, id: AgentId, v: Variable, data: AssetData) -> (known: bool)
        ensures
            known == old(self)@.stores.contains_key(id),
            final(self)@ == old(self)@.set_asset(id, v, data@),
            old(self)@.wf() ==> final(self)@.wf(),
    {
        proof {
            crate::laws::lemma_set_asset_valid(old(self)@, id, v, data@);
        }
        match self.stores.remove(&id) {
            Some(store) => {
                let mut store = store;
                store.set_asset(v, data);
                self.stores.insert(id, store);
                assert(self@.stores =~= old(self)@.set_asset(id, v, data@).stores);
                true
            },
            None => {
                assert(self@.stores =~= old(self)@.stores);
                false
            },
        }
    }

    fn deliver(&mut self, id: AgentId, info: &Info)
        ensures
            final(self)@ == old(self)@.deliver(id, info@),
    {
        match self.stores.remove(&id) {
            Some(store) => {
                let mut store = store;
                match info {
                    Info::GossipStated(s) => store.record_statement(s.duplicate()),
                    Info::GossipEnacted(e) => store.record_enacted(e.duplicate()),
                }
                self.stores.insert(id, store);
                assert(self@.stores =~= old(self)@.deliver(id, info@).stores);
            },
            None => {
                assert(self@.stores =~= old(self)@.stores);
            },
        }
    }

    fn deliver_listed(&mut self, ids: &Vec<AgentId>, info: &Info)
        ensures
            final(self)@ == old(self)@.deliver_listed(ids@, info@),
    {
        let ghost before = self@;
        let mut i: usize = 0;
        while i < ids.len()
            invariant
                i <= ids.len(),
                self@ == before.deliver_listed(ids@.take(i as int), info@),
            decreases ids.len() - i,
        {
            self.deliver(ids[i], info);
            assert(ids@.take(i + 1).drop_last() =~= ids@.take(i as int));
            i += 1;
        }
        assert(ids@.take(ids.len() as int) =~= ids@);
    }

    fn deliver_all(&mut self, info: &Info)
        requires
            old(self)@.wf(),
        ensures
            final(self)@ == old(self)@.deliver_all(info@),
    {
        let ghost before = self@;
        let n = self.roster.len();
        let mut i: usize = 0;
        while i < n
            invariant
                i <= n,
                n == before.roster.len(),
                before.wf(),
                self@.roster == before.roster,
                self@.agreed == before.agreed,
                self@.current_time == before.current_time,
                self@.stores.dom() == before.stores.dom(),
                forall|j: int|
                    0 <= j < i ==> #[trigger] self@.stores[before.roster[j]] == crate::world::receive(
                        before.stores[before.roster[j]],
                        info@,
                    ),
                forall|j: int|
                    i <= j < n ==> #[trigger] self@.stores[before.roster[j]]
                        == before.stores[before.roster[j]],
            decreases n - i,
        {
            let id = self.roster[i];
            assert(before.roster.contains(id));
            self.deliver(id, info);
            i += 1;
        }
        assert forall|id: AgentId| before.stores.contains_key(id) implies self@.stores[id]
            == crate::world::receive(before.stores[id], info@) by {
            assert(before.roster.contains(id));
            let j = choose|j: int| 0 <= j < before.roster.len() && before.roster[j] == id;
            assert(self@.stores[before.roster[j]] == crate::world::receive(
                before.stores[before.roster[j]],
                info@,
            ));
        }
        assert(self@.stores =~= before.deliver_all(info@).stores);
    }

    fn inform(&mut self, inform: &Inform)
        requires
            old(self)@.wf(),
        ensures
            final(self)@ == old(self)@.handle_inform(inform@),
    {
        match &inform.recipients {
            Recipients::AllAgents => self.deliver_all(&inform.info),
            Recipients::ListedAgents(ids) => self.deliver_listed(ids, &inform.info),
        }
    }

    /// Turns one inform into store mutations: every registered agent, or
    /// each listed agent that is registered, has the carried fact appended
    /// to its store. Nothing else changes.
    pub fn handle_inform(&mut self, inform: Inform)
        requires
            old(self)@.wf(),
        ensures
            final(self)@ == old(self)@.handle_inform(inform@),
            final(self)@.wf(),
            final(self)@.extends(old(self)@),
    {
        self.inform(&inform);
        proof {
            crate::laws::lemma_handle_inform_extends(old(self)@, inform@);
        }
    }

    /// Applies a buffer of informs, one after another in buffer order.
    pub fn disseminate(&mut self, informs: Vec<Inform>)
        requires
            old(self)@.wf(),
        ensures
            final(self)@ == old(self)@.disseminate(inform_views(informs@)),
            final(self)@.wf(),
            final(self)@.extends(old(self)@),
    {
        let ghost before = self@;
        let ghost views = inform_views(informs@);
        let mut i: usize = 0;
        while i < informs.len()
            invariant
                i <= informs.len(),
                views == inform_views(informs@),
                before.wf(),
                self@.wf(),
                self@ == before.disseminate(views.take(i as int)),
            decreases informs.len() - i,
        {
            proof {
                crate::laws::lemma_handle_inform_extends(self@, informs@[i as int]@);
            }
            self.inform(&informs[i]);
            assert(views.take(i + 1).drop_last() =~= views.take(i as int));
            i += 1;
        }
        assert(views.take(informs.len() as int) =~= views);
        proof {
            crate::laws::lemma_disseminate_extends(before, views);
        }
    }

    fn deed(&mut self, deed: &ConsortiumDeed)
        ensures
            final(self)@ == old(self)@.handle_consortium_deed(deed@),
    {
        match deed {
            ConsortiumDeed::Agree(a) => {
                self.agreed.push(a.duplicate());
                assert(self@.agreed =~= old(self)@.agreed.push(a@));
            },
            ConsortiumDeed::ChangeCurrentTime(t) => {
                self.current_time = *t;
            },
            ConsortiumDeed::EndScenario => {},
        }
    }

    /// Applies one deed to the global state: an agreement is appended to the
    /// log, a time overwrites the clock, `EndScenario` changes nothing.
    pub fn handle_consortium_deed(&mut self, deed: ConsortiumDeed)
        ensures
            final(self)@ == old(self)@.handle_consortium_deed(deed@),
            old(self)@.wf() ==> final(self)@.wf(),
            final(self)@.extends(old(self)@),
    {
        self.deed(&deed);
    }

    /// Applies a batch of deeds in order and stops at the first
    /// `EndScenario`: what follows it is not applied. Says whether the batch
    /// ended the run.
    pub fn apply_deeds(&mut self, deeds: Vec<ConsortiumDeed>) -> (ended: bool)
        ensures
            final(self)@ == old(self)@.apply_deeds(deed_views(deeds@)),
            ended == ends_scenario(deed_views(deeds@)),
            old(self)@.wf() ==> final(self)@.wf(),
            final(self)@.extends(old(self)@),
    {
        let ghost before = self@;
        let ghost views = deed_views(deeds@);
        let mut i: usize = 0;
        assert(views.skip(0) =~= views);
        while i < deeds.len()
            invariant
                i <= deeds.len(),
                views == deed_views(deeds@),
                before == old(self)@,
                before.apply_deeds(views) == self@.apply_deeds(views.skip(i as int)),
                forall|j: int| 0 <= j < i ==> views[j] != crate::gossip::DeedView::EndScenario,
            decreases deeds.len() - i,
        {
            assert(views.skip(i as int)[0] == views[i as int]);
            assert(views.skip(i as int).skip(1) =~= views.skip(i + 1));
            assert(views[i as int] == deeds@[i as int]@);
            let current = &deeds[i];
            if let ConsortiumDeed::EndScenario = current {
                proof {
                    assert(views[i as int] == crate::gossip::DeedView::EndScenario);
                    assert(self@.apply_deeds(views.skip(i as int)) == self@);
                    crate::laws::lemma_apply_deeds_extends(before, views);
                }
                return true;
            }
            self.deed(current);
            i += 1;
        }
        proof {
            crate::laws::lemma_apply_deeds_extends(before, views);
        }
        false
    }
}

} // verus!
