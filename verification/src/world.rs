//! The mathematical model of the whole simulated society, and what the two
//! kinds of effect do to it.

use crate::gossip::{DeedView, InfoView, InformView, RecipientsView};
use crate::ledger::{AgentId, AgreementView, Time, Variable};
use crate::store::StoreView;
use vstd::prelude::*;

verus! {

/// Every agent's store, the order in which the agents were registered, the
/// agreement log and the global clock.
pub struct World {
    pub stores: Map<AgentId, StoreView>,
    pub roster: Seq<AgentId>,
    pub agreed: Seq<AgreementView>,
    pub current_time: Time,
}

/// A batch of deeds ends the run when `EndScenario` is among them.
pub open spec fn ends_scenario(deeds: Seq<DeedView>) -> bool {
    exists|i: int| 0 <= i < deeds.len() && deeds[i] == DeedView::EndScenario
}

/// What a store holds after it has received `info`.
pub open spec fn receive(store: StoreView, info: InfoView) -> StoreView {
    match info {
        InfoView::GossipStated(s) => store.with_statement(s),
        InfoView::GossipEnacted(e) => store.with_enacted(e),
    }
}

/// What a store holds after it has received `info` `k` times.
pub open spec fn receive_times(store: StoreView, info: InfoView, k: nat) -> StoreView
    decreases k,
{
    if k == 0 {
        store
    } else {
        receive(receive_times(store, info, (k - 1) as nat), info)
    }
}

/// How often `id` stands in `ids`.
pub open spec fn occurrences(ids: Seq<AgentId>, id: AgentId) -> nat
    decreases ids.len(),
{
    if ids.len() == 0 {
        0
    } else if ids.last() == id {
        occurrences(ids.drop_last(), id) + 1
    } else {
        occurrences(ids.drop_last(), id)
    }
}

impl World {
    /// The roster lists each registered agent once, and nobody else.
    pub open spec fn wf(self) -> bool {
        &&& self.roster.no_duplicates()
        &&& forall|id: AgentId| self.stores.contains_key(id) <==> self.roster.contains(id)
    }

    /// Agent `id` holds `data` under `v`; an unknown `id` changes nothing.
    pub open spec fn set_asset(self, id: AgentId, v: Variable, data: Seq<u8>) -> World {
        if self.stores.contains_key(id) {
            World {
                stores: self.stores.insert(
                    id,
                    StoreView { assets: self.stores[id].assets.insert(v, data), ..self.stores[id] },
                ),
                ..self
            }
        } else {
            self
        }
    }

    /// One delivery: `id`'s store receives `info`; an unknown `id` changes
    /// nothing.
    pub open spec fn deliver(self, id: AgentId, info: InfoView) -> World {
        if self.stores.contains_key(id) {
            World { stores: self.stores.insert(id, receive(self.stores[id], info)), ..self }
        } else {
            self
        }
    }

    /// Delivery to the listed agents, one after another in list order. An id
    /// listed twice receives twice.
    pub open spec fn deliver_listed(self, ids: Seq<AgentId>, info: InfoView) -> World
        decreases ids.len(),
    {
        if ids.len() == 0 {
            self
        } else {
            self.deliver_listed(ids.drop_last(), info).deliver(ids.last(), info)
        }
    }

    /// Delivery to every registered agent, once each.
    pub open spec fn deliver_all(self, info: InfoView) -> World {
        World {
            stores: Map::new(
                |id: AgentId| self.stores.contains_key(id),
                |id: AgentId| receive(self.stores[id], info),
            ),
            ..self
        }
    }

    /// The effect of one inform.
    pub open spec fn handle_inform(self, inform: InformView) -> World {
        match inform.recipients {
            RecipientsView::AllAgents => self.deliver_all(inform.info),
            RecipientsView::ListedAgents(ids) => self.deliver_listed(ids, inform.info),
        }
    }

    /// The effect of a buffer of informs, applied in buffer order.
    pub open spec fn disseminate(self, informs: Seq<InformView>) -> World
        decreases informs.len(),
    {
        if informs.len() == 0 {
            self
        } else {
            self.disseminate(informs.drop_last()).handle_inform(informs.last())
        }
    }

    /// The effect of one deed on the global state. `EndScenario` changes
    /// nothing.
    pub open spec fn handle_consortium_deed(self, deed: DeedView) -> World {
        match deed {
            DeedView::Agree(a) => World { agreed: self.agreed.push(a), ..self },
            DeedView::ChangeCurrentTime(t) => World { current_time: t, ..self },
            DeedView::EndScenario => self,
        }
    }

    /// The effect of a batch of deeds, applied in order up to the first
    /// `EndScenario`; what follows it is not applied.
    pub open spec fn apply_deeds(self, deeds: Seq<DeedView>) -> World
        decreases deeds.len(),
    {
        if deeds.len() == 0 || deeds[0] == DeedView::EndScenario {
            self
        } else {
            self.handle_consortium_deed(deeds[0]).apply_deeds(deeds.skip(1))
        }
    }

    /// One tick, given what the behaviors returned. Phase one applies the
    /// deeds; if they end the run, nothing more happens in this tick.
    /// Otherwise phase two disseminates the buffer.
    pub open spec fn tick(self, deeds: Seq<DeedView>, buffer: Seq<InformView>) -> World {
        let mid = self.apply_deeds(deeds);
        if ends_scenario(deeds) {
            mid
        } else {
            mid.disseminate(buffer)
        }
    }

    /// The world before anyone is registered.
    pub open spec fn start(current_time: Time) -> World {
        World { stores: Map::empty(), roster: Seq::empty(), agreed: Seq::empty(), current_time }
    }

    /// Registration of one agent with an empty store, last in the roster.
    pub open spec fn register(self, id: AgentId) -> World {
        World {
            stores: self.stores.insert(id, StoreView::empty()),
            roster: self.roster.push(id),
            ..self
        }
    }

    /// This world has the same agents as `earlier`, every store and the
    /// agreement log hold all that they held then, in the same places, and
    /// every asset table is as it was.
    pub open spec fn extends(self, earlier: World) -> bool {
        &&& self.roster == earlier.roster
        &&& self.stores.dom() == earlier.stores.dom()
        &&& forall|id: AgentId| #[trigger]
            earlier.stores.contains_key(id) ==> self.stores[id].extends(earlier.stores[id])
        &&& earlier.agreed.is_prefix_of(self.agreed)
    }
}

} // verus!
