//! The simulation loop: a society, one behavior per agent and the
//! consortium's controller, driven tick by tick in two phases.

use crate::gossip::{
    answer_views, deed_views, inform_views, joined, ConsortiumDeed, DeedView, Inform, InformView,
};
use crate::ledger::{AgentId, AssetData, Time, Variable};
use crate::society::Society;
use crate::store::{Store, StoreView};
use crate::world::{ends_scenario, World};
use vstd::prelude::*;

verus! {

/// What an agent does, given what it currently knows. It reads its store
/// and cannot change it: all effects pass through dissemination. Its answer
/// is a function of itself and of what the store holds, and of nothing else.
pub trait AgentBehavior {
    /// The informs that this agent emits when its store holds `local`. An
    /// implementation that gives no definition says of its answer only that
    /// it is some function of the agent and of `local`.
    open spec fn emits(&self, local: StoreView) -> Seq<InformView> {
        (arbitrary::<spec_fn(&Self, StoreView) -> Seq<InformView>>())(self, local)
    }

    /// Decides what to emit this tick.
    fn act(&self, local: &Store) -> (out: Vec<Inform>)
        ensures
            inform_views(out@) == self.emits(local@),
    ;
}

/// What the consortium decides, given the whole society. Its answer is a
/// function of itself and of what the society holds, and of nothing else.
pub trait ConsortiumBehavior {
    /// The deeds that the consortium returns when the society is `world`. An
    /// implementation that gives no definition says of its answer only that
    /// it is some function of the controller and of `world`.
    open spec fn decides(&self, world: World) -> Seq<DeedView> {
        (arbitrary::<spec_fn(&Self, World) -> Seq<DeedView>>())(self, world)
    }

    /// Decides this tick's deeds.
    fn decide(&self, society: &Society) -> (out: Vec<ConsortiumDeed>)
        ensures
            deed_views(out@) == self.decides(society@),
    ;
}

/// An agent's key material. The engine carries it and never reads it.
#[derive(Debug, Clone, Copy, PartialEq, Eq)]
pub struct Keypair {
    pub public: u64,
    pub private: u64,
}

/// What the wiring layer supplies for one agent.
pub struct AgentInit<B> {
    pub agent_id: AgentId,
    pub agent_do: B,
    pub keypair: Keypair,
}

/// The model of a simulation: the society, the behavior of each agent in
/// roster order, and the consortium's controller.
pub struct Engine<C, B> {
    pub world: World,
    pub behaviors: Seq<B>,
    pub consortium: C,
}

impl<C, B> Engine<C, B> {
    /// Every registered agent has exactly one behavior.
    pub open spec fn wf(self) -> bool {
        &&& self.world.wf()
        &&& self.behaviors.len() == self.world.roster.len()
    }

    /// The simulation before anyone is registered.
    pub open spec fn start(consortium: C, current_time: Time) -> Engine<C, B> {
        Engine { world: World::start(current_time), behaviors: Seq::empty(), consortium }
    }

    /// Registration of one agent with an empty store; an id that is already
    /// there is refused.
    pub open spec fn register(self, id: AgentId, behavior: B) -> Engine<C, B> {
        if self.world.stores.contains_key(id) {
            self
        } else {
            Engine {
                world: self.world.register(id),
                behaviors: self.behaviors.push(behavior),
                ..self
            }
        }
    }

    /// Registration of a list of agents, in list order.
    pub open spec fn enroll(self, inits: Seq<AgentInit<B>>) -> Engine<C, B>
        decreases inits.len(),
    {
        if inits.len() == 0 {
            self
        } else {
            self.register(inits[0].agent_id, inits[0].agent_do).enroll(inits.skip(1))
        }
    }

    /// Whether the `i`-th behavior belongs to a registered agent, so that
    /// there is a store to poll it on.
    pub open spec fn has_agent(self, i: int) -> bool {
        0 <= i < self.world.roster.len() && self.world.stores.contains_key(self.world.roster[i])
    }

    /// The same agents and controller around another world.
    pub open spec fn with_world(self, world: World) -> Engine<C, B> {
        Engine { world, ..self }
    }
}

impl<C: ConsortiumBehavior, B: AgentBehavior> Engine<C, B> {
    /// What the `i`-th agent answers when polled in this state: its
    /// behavior on its own store as it is now. A behavior without a
    /// registered store is not asked.
    pub open spec fn emissions(self, i: int) -> Seq<InformView> {
        if self.has_agent(i) {
            self.behaviors[i].emits(self.world.stores[self.world.roster[i]])
        } else {
            Seq::empty()
        }
    }

    /// The answers of all agents, in roster order, all on this same state.
    pub open spec fn answers(self) -> Seq<Seq<InformView>> {
        Seq::new(self.behaviors.len(), |i: int| self.emissions(i))
    }

    /// The buffer of phase two: agent order, then emission order.
    pub open spec fn poll(self) -> Seq<InformView> {
        joined(self.answers())
    }

    /// The deeds that the consortium returns in this state.
    pub open spec fn deeds(self) -> Seq<DeedView> {
        self.consortium.decides(self.world)
    }

    /// Whether the next tick ends the run.
    pub open spec fn tick_ends(self) -> bool {
        ends_scenario(self.deeds())
    }

    /// The state after phase one of the next tick.
    pub open spec fn after_deeds(self) -> Engine<C, B> {
        self.with_world(self.world.apply_deeds(self.deeds()))
    }

    /// The state after the next tick: the consortium is asked on this
    /// state, and the agents on the state that its deeds left.
    pub open spec fn tick(self) -> Engine<C, B> {
        self.with_world(self.world.tick(self.deeds(), self.after_deeds().poll()))
    }

    /// The state after `k` ticks, one after another.
    pub open spec fn ticks(self, k: nat) -> Engine<C, B>
        decreases k,
    {
        if k == 0 {
            self
        } else {
            self.tick().ticks((k - 1) as nat)
        }
    }

    /// The state after running until a tick ends the run or `max_ticks`
    /// ticks have passed, and whether the run was ended.
    pub open spec fn run(self, max_ticks: nat) -> (Engine<C, B>, bool)
        decreases max_ticks,
    {
        if max_ticks == 0 {
            (self, false)
        } else if self.tick_ends() {
            (self.tick(), true)
        } else {
            self.tick().run((max_ticks - 1) as nat)
        }
    }
}

/// The simulation: it owns all agent stores, the agreement log and the
/// clock, and drives the ticks.
pub struct System<C, B> {
    society: Society,
    behaviors: Vec<B>,
    consortium_do: C,
}

impl<C, B> View for System<C, B> {
    type V = Engine<C, B>;

    closed spec fn view(&self) -> Engine<C, B> {
        Engine {
            world: self.society@,
            behaviors: self.behaviors@,
            consortium: self.consortium_do,
        }
    }
}

impl<C: ConsortiumBehavior, B: AgentBehavior> System<C, B> {
    /// A system without agents, its clock at `current_time`.
    pub fn new(consortium_do: C, current_time: Time) -> (out: System<C, B>)
        ensures
            out@ == Engine::<C, B>::start(consortium_do, current_time),
            out@.wf(),
    {
        System { society: Society::new(current_time), behaviors: Vec::new(), consortium_do }
    }

    /// Registers agent `id` with an empty store and the given behavior. An
    /// id that is already registered is refused and nothing changes.
    pub fn add_agent(&mut self, id: AgentId, behavior: B) -> (added: bool)
        ensures
            added == !old(self)@.world.stores.contains_key(id),
            final(self)@ == old(self)@.register(id, behavior),
            old(self)@.wf() ==> final(self)@.wf(),
    {
        if self.society.register(id) {
            self.behaviors.push(behavior);
            true
        } else {
            false
        }
    }

    /// The society as it is now.
    pub fn society(&self) -> (out: &Society)
        ensures
            out@ == self@.world,
    {
        &self.society
    }

    /// Puts `data` under `v` in the asset table of agent `id`, replacing
    /// what was there; an unknown `id` changes nothing.
    pub fn set_asset(&mut self, id: AgentId, v: Variable, data: AssetData) -> (known: bool)
        ensures
            known == old(self)@.world.stores.contains_key(id),
            final(self)@ == old(self)@.with_world(old(self)@.world.set_asset(id, v, data@)),
            old(self)@.wf() ==> final(self)@.wf(),
    {
        self.society.set_asset(id, v, data)
    }

    /// Turns one inform into store mutations: every registered agent, or
    /// each listed agent that is registered, has the carried fact appended
    /// to its store.
    pub fn handle_inform(&mut self, inform: Inform)
        requires
            old(self)@.wf(),
        ensures
            final(self)@ == old(self)@.with_world(old(self)@.world.handle_inform(inform@)),
            final(self)@.wf(),
            final(self)@.world.extends(old(self)@.world),
    {
        self.society.handle_inform(inform);
    }

    /// Applies one deed to the global state: an agreement is appended to the
    /// log, a time overwrites the clock, `EndScenario` changes nothing.
    pub fn handle_consortium_deed(&mut self, deed: ConsortiumDeed)
        ensures
            final(self)@ == old(self)@.with_world(
                old(self)@.world.handle_consortium_deed(deed@),
            ),
            old(self)@.wf() ==> final(self)@.wf(),
            final(self)@.world.extends(old(self)@.world),
    {
        self.society.handle_consortium_deed(deed);
    }

    /// Polls every agent once, in roster order, each on its own store as it
    /// is now, and collects what they emit into one buffer. Nothing is
    /// delivered meanwhile: the system is only read.
    fn poll(&self) -> (buffer: Vec<Inform>)
        ensures
            inform_views(buffer@) == self@.poll(),
    {
        let mut answers: Vec<Vec<Inform>> = Vec::new();
        let n = self.behaviors.len();
        let mut i: usize = 0;
        while i < n
            invariant
                i <= n,
                n == self@.behaviors.len(),
                answers@.len() == i,
                forall|k: int| 0 <= k < i ==> #[trigger] answer_views(answers@)[k] == self@.emissions(k),
            decreases n - i,
        {
            let mut answer: Vec<Inform> = Vec::new();
            assert(inform_views(answer@) =~= Seq::empty());
            if let Some(id) = self.society.agent_id(i) {
                if let Some(local) = self.society.store(id) {
                    answer = self.behaviors[i].act(local);
                }
            }
            assert(inform_views(answer@) == self@.emissions(i as int));
            let ghost before = answer_views(answers@);
            answers.push(answer);
            assert(answer_views(answers@) =~= before.push(self@.emissions(i as int)));
            i += 1;
        }
        assert(answer_views(answers@) =~= self@.answers());
        gather(answers)
    }

    /// One tick. Phase one: the consortium is asked once, on the system as
    /// it is, and its deeds are applied in order, up to the first
    /// `EndScenario`. If there is one, the tick ends there. Phase two: every
    /// agent is asked once, on its own store as the deeds left it, all
    /// before anything is delivered; then the buffer is disseminated in
    /// order. Says whether the run was ended.
    pub fn tick(&mut self) -> (ended: bool)
        requires
            old(self)@.wf(),
        ensures
            final(self)@ == old(self)@.tick(),
            ended == old(self)@.tick_ends(),
            final(self)@.wf(),
            final(self)@.world.extends(old(self)@.world),
    {
        let deeds = self.consortium_do.decide(&self.society);
        let ended = self.society.apply_deeds(deeds);
        if ended {
            return true;
        }
        let ghost mid = self.society@;
        let buffer = self.poll();
        self.society.disseminate(buffer);
        proof {
            crate::laws::lemma_extends_trans(old(self)@.world, mid, self@.world);
        }
        false
    }

    /// Runs ticks until one ends the run, or until `max_ticks` ticks have
    /// passed. Says whether the run was ended.
    pub fn run(&mut self, max_ticks: u64) -> (ended: bool)
        requires
            old(self)@.wf(),
        ensures
            (final(self)@, ended) == old(self)@.run(max_ticks as nat),
            final(self)@.wf(),
            final(self)@.world.extends(old(self)@.world),
    {
        let ghost before = self@;
        let mut done: u64 = 0;
        proof {
            crate::laws::lemma_extends_refl(before.world);
        }
        while done < max_ticks
            invariant
                done <= max_ticks,
                before == old(self)@,
                self@.wf(),
                self@.world.extends(before.world),
                before.run(max_ticks as nat) == self@.run((max_ticks - done) as nat),
            decreases max_ticks - done,
        {
            let ghost here = self@;
            let ended = self.tick();
            proof {
                crate::laws::lemma_extends_trans(before.world, here.world, self@.world);
            }
            if ended {
                return true;
            }
            done += 1;
        }
        false
    }
}

/// Joins the agents' answers into one buffer: answer order, then emission
/// order within an answer.
pub fn gather(answers: Vec<Vec<Inform>>) -> (buffer: Vec<Inform>)
    ensures
        inform_views(buffer@) == joined(answer_views(answers@)),
{
    let mut buffer: Vec<Inform> = Vec::new();
    let mut rest = answers;
    assert(inform_views(buffer@) =~= Seq::empty());
    assert(inform_views(buffer@) + joined(answer_views(rest@)) =~= joined(answer_views(answers@)));
    while rest.len() > 0
        invariant
            inform_views(buffer@) + joined(answer_views(rest@)) == joined(answer_views(answers@)),
        decreases rest.len(),
    {
        let ghost so_far = buffer@;
        let ghost pending = rest@;
        let mut answer = rest.remove(0);
        let ghost first = answer@;
        buffer.append(&mut answer);
        proof {
            assert(answer_views(rest@) =~= answer_views(pending).skip(1));
            assert(answer_views(pending)[0] == inform_views(first));
            assert(inform_views(so_far + first) =~= inform_views(so_far) + inform_views(first));
            assert((inform_views(so_far) + inform_views(first)) + joined(answer_views(rest@))
                =~= inform_views(so_far) + (inform_views(first) + joined(answer_views(rest@))));
        }
    }
    assert(joined(answer_views(rest@)) =~= Seq::empty());
    assert(inform_views(buffer@) + Seq::<InformView>::empty() =~= inform_views(buffer@));
    buffer
}

/// Sets a scenario up: a system whose clock stands at 1, with the given
/// agents registered in list order, each with an empty store, and with no
/// agreements. Of two entries with one id the first is kept.
pub fn scenario<C: ConsortiumBehavior, B: AgentBehavior>(
    agent_inits: Vec<AgentInit<B>>,
    consortium_do: C,
) -> (system: System<C, B>)
    ensures
        system@ == Engine::<C, B>::start(consortium_do, 1).enroll(agent_inits@),
        system@.wf(),
{
    let mut system: System<C, B> = System::new(consortium_do, 1);
    let mut rest = agent_inits;
    let ghost begin = system@;
    while rest.len() > 0
        invariant
            system@.wf(),
            begin.enroll(agent_inits@) == system@.enroll(rest@),
        decreases rest.len(),
    {
        let ghost pending = rest@;
        let init = rest.remove(0);
        assert(rest@ =~= pending.skip(1));
        system.add_agent(init.agent_id, init.agent_do);
    }
    system
}

} // verus!
