//! Ready-made behaviors: an agent that repeats one inform or keeps silent,
//! and a consortium that counts the clock up to a time and then ends the
//! run.

use crate::gossip::{deed_views, inform_views, ConsortiumDeed, DeedView, Inform, InformView};
use crate::ledger::Time;
use crate::society::Society;
use crate::store::{Store, StoreView};
use crate::system::{AgentBehavior, ConsortiumBehavior};
use crate::world::World;
use vstd::prelude::*;

verus! {

/// An agent that does the same every tick, whatever it knows.
pub enum Gossiper {
    /// Emits nothing.
    Silent,
    /// Emits this one inform.
    Telling(Inform),
}

impl AgentBehavior for Gossiper {
    open spec fn emits(&self, local: StoreView) -> Seq<InformView> {
        match self {
            Gossiper::Silent => Seq::empty(),
            Gossiper::Telling(inform) => seq![inform@],
        }
    }

    fn act(&self, local: &Store) -> (out: Vec<Inform>) {
        let mut out: Vec<Inform> = Vec::new();
        match self {
            Gossiper::Silent => {},
            Gossiper::Telling(inform) => {
                out.push(inform.duplicate());
            },
        }
        assert(inform_views(out@) =~= self.emits(local@));
        out
    }
}

/// A consortium that moves the clock one step per tick and ends the run
/// once the clock has reached `end_at`.
pub struct Clockwork {
    pub end_at: Time,
}

impl ConsortiumBehavior for Clockwork {
    open spec fn decides(&self, world: World) -> Seq<DeedView> {
        if world.current_time >= self.end_at {
            seq![DeedView::EndScenario]
        } else {
            seq![DeedView::ChangeCurrentTime((world.current_time + 1) as Time)]
        }
    }

    fn decide(&self, society: &Society) -> (out: Vec<ConsortiumDeed>) {
        let now = society.current_time();
        let mut out: Vec<ConsortiumDeed> = Vec::new();
        if now >= self.end_at {
            out.push(ConsortiumDeed::EndScenario);
        } else {
            out.push(ConsortiumDeed::ChangeCurrentTime(now + 1));
        }
        assert(deed_views(out@) =~= self.decides(society@));
        out
    }
}

} // verus!
