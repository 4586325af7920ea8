//! The units of effect: what an agent emits (an inform) and what the
//! consortium decides (a deed).

use crate::ledger::{
    AgentId, Agreement, AgreementView, Enacted, EnactedView, Statement, StatementView, Time,
};
use vstd::prelude::*;

verus! {

/// The fact that an inform carries.
#[derive(Debug, Clone, PartialEq, Eq)]
pub enum Info {
    GossipStated(Statement),
    GossipEnacted(Enacted),
}

pub enum InfoView {
    GossipStated(StatementView),
    GossipEnacted(EnactedView),
}

impl View for Info {
    type V = InfoView;

    open spec fn view(&self) -> InfoView {
        match self {
            Info::GossipStated(s) => InfoView::GossipStated(s@),
            Info::GossipEnacted(e) => InfoView::GossipEnacted(e@),
        }
    }
}

/// Who is to receive an inform.
#[derive(Debug, Clone, PartialEq, Eq)]
pub enum Recipients {
    /// Every registered agent, the sender included.
    AllAgents,
    /// The named agents only; unknown ids are skipped.
    ListedAgents(Vec<AgentId>),
}

pub enum RecipientsView {
    AllAgents,
    ListedAgents(Seq<AgentId>),
}

impl View for Recipients {
    type V = RecipientsView;

    open spec fn view(&self) -> RecipientsView {
        match self {
            Recipients::AllAgents => RecipientsView::AllAgents,
            Recipients::ListedAgents(ids) => RecipientsView::ListedAgents(ids@),
        }
    }
}

impl Info {
    /// A copy that carries the same fact.
    pub fn duplicate(&self) -> (out: Info)
        ensures
            out@ == self@,
    {
        match self {
            Info::GossipStated(s) => Info::GossipStated(s.duplicate()),
            Info::GossipEnacted(e) => Info::GossipEnacted(e.duplicate()),
        }
    }
}

impl Recipients {
    /// A copy that names the same recipients, in the same order.
    pub fn duplicate(&self) -> (out: Recipients)
        ensures
            out@ == self@,
    {
        match self {
            Recipients::AllAgents => Recipients::AllAgents,
            Recipients::ListedAgents(ids) => {
                let mut copy: Vec<AgentId> = Vec::new();
                let mut i: usize = 0;
                while i < ids.len()
                    invariant
                        i <= ids.len(),
                        copy@ == ids@.take(i as int),
                    decreases ids.len() - i,
                {
                    copy.push(ids[i]);
                    assert(ids@.take(i + 1) =~= ids@.take(i as int).push(ids@[i as int]));
                    i += 1;
                }
                assert(ids@.take(ids.len() as int) =~= ids@);
                Recipients::ListedAgents(copy)
            },
        }
    }
}

/// One unit of gossip: a fact and its intended recipients.
#[derive(Debug, Clone, PartialEq, Eq)]
pub struct Inform {
    pub info: Info,
    pub recipients: Recipients,
}

pub struct InformView {
    pub info: InfoView,
    pub recipients: RecipientsView,
}

impl View for Inform {
    type V = InformView;

    open spec fn view(&self) -> InformView {
        InformView { info: self.info@, recipients: self.recipients@ }
    }
}

impl Inform {
    /// A copy with the same fact and recipients.
    pub fn duplicate(&self) -> (out: Inform)
        ensures
            out@ == self@,
    {
        Inform { info: self.info.duplicate(), recipients: self.recipients.duplicate() }
    }
}

/// One unit of consortium-level effect.
#[derive(Debug, Clone, PartialEq, Eq)]
pub enum ConsortiumDeed {
    /// Ratify an agreement.
    Agree(Agreement),
    /// Overwrite the global clock; it may move backward.
    ChangeCurrentTime(Time),
    /// End the run.
    EndScenario,
}

pub enum DeedView {
    Agree(AgreementView),
    ChangeCurrentTime(Time),
    EndScenario,
}

impl View for ConsortiumDeed {
    type V = DeedView;

    open spec fn view(&self) -> DeedView {
        match self {
            ConsortiumDeed::Agree(a) => DeedView::Agree(a@),
            ConsortiumDeed::ChangeCurrentTime(t) => DeedView::ChangeCurrentTime(*t),
            ConsortiumDeed::EndScenario => DeedView::EndScenario,
        }
    }
}

/// The views of a sequence of informs, in order.
pub open spec fn inform_views(s: Seq<Inform>) -> Seq<InformView> {
    s.map_values(|x: Inform| x@)
}

/// The views of a sequence of answers, one buffer of informs each.
pub open spec fn answer_views(s: Seq<Vec<Inform>>) -> Seq<Seq<InformView>> {
    s.map_values(|x: Vec<Inform>| inform_views(x@))
}

/// The answers joined into one buffer: answer order, then emission order
/// within an answer.
pub open spec fn joined(answers: Seq<Seq<InformView>>) -> Seq<InformView>
    decreases answers.len(),
{
    if answers.len() == 0 {
        Seq::empty()
    } else {
        answers[0] + joined(answers.skip(1))
    }
}

/// The views of a sequence of deeds, in order.
pub open spec fn deed_views(s: Seq<ConsortiumDeed>) -> Seq<DeedView> {
    s.map_values(|x: ConsortiumDeed| x@)
}

} // verus!
