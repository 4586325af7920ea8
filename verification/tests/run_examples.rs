use consortium_sim::behaviors::{Clockwork, Gossiper};
use consortium_sim::gossip::{ConsortiumDeed, Info, Inform, Recipients};
use consortium_sim::ledger::{Agreement, Message, Statement};
use consortium_sim::society::Society;
use consortium_sim::system::{ConsortiumBehavior, System};

fn said(id: u64) -> Statement {
    Statement { msg: Message { message_id: id, payload: vec![9] }, author_signature: 3 }
}

fn telling(id: u64, recipients: Recipients) -> Gossiper {
    Gossiper::Telling(Inform { info: Info::GossipStated(said(id)), recipients })
}

fn agreement(id: u64) -> Agreement {
    Agreement { content: Message { message_id: id, payload: vec![] }, in_effect: id }
}

/// Returns the same six deeds every time it is asked.
struct SixDeeds;

impl ConsortiumBehavior for SixDeeds {
    fn decide(&self, _society: &Society) -> Vec<ConsortiumDeed> {
        vec![
            ConsortiumDeed::ChangeCurrentTime(4),
            ConsortiumDeed::Agree(agreement(1)),
            ConsortiumDeed::ChangeCurrentTime(5),
            ConsortiumDeed::EndScenario,
            ConsortiumDeed::ChangeCurrentTime(9),
            ConsortiumDeed::Agree(agreement(2)),
        ]
    }
}

#[test]
fn clock_counts_up_and_the_third_tick_ends_the_run() {
    let mut system = System::new(Clockwork { end_at: 3 }, 1);
    assert!(system.add_agent(1, Gossiper::Silent));
    assert!(system.run(u64::MAX));
    assert_eq!(system.society().current_time(), 3);
    assert_eq!(system.society().agreed_len(), 0);
    assert_eq!(system.society().store(1).unwrap().stated_len(), 0);
    assert_eq!(system.society().store(1).unwrap().enacted_len(), 0);
}

#[test]
fn broadcaster_hears_itself_twice_before_the_third_tick_ends() {
    let mut system = System::new(Clockwork { end_at: 3 }, 1);
    assert!(system.add_agent(1, telling(7, Recipients::AllAgents)));
    assert!(system.run(100));
    let store = system.society().store(1).unwrap();
    assert_eq!(store.stated_len(), 2);
    assert_eq!(store.stated_at(0), Some(&said(7)));
    assert_eq!(store.stated_at(1), Some(&said(7)));
    assert_eq!(store.enacted_len(), 0);
}

#[test]
fn listed_recipient_holds_one_copy_per_tick() {
    let mut system = System::new(Clockwork { end_at: 3 }, 1);
    assert!(system.add_agent(10, telling(7, Recipients::ListedAgents(vec![20]))));
    assert!(system.add_agent(20, Gossiper::Silent));
    assert!(!system.tick());
    assert_eq!(system.society().store(20).unwrap().stated_len(), 1);
    assert!(!system.tick());
    assert!(system.tick());
    let receiver = system.society().store(20).unwrap();
    assert_eq!(receiver.stated_len(), 2);
    assert_eq!(receiver.stated_at(0), Some(&said(7)));
    assert_eq!(receiver.stated_at(1), Some(&said(7)));
    assert_eq!(receiver.enacted_len(), 0);
    let sender = system.society().store(10).unwrap();
    assert_eq!(sender.stated_len(), 0);
    assert_eq!(sender.enacted_len(), 0);
}

#[test]
fn immediate_end_asks_no_agent() {
    let mut system = System::new(Clockwork { end_at: 0 }, 1);
    assert!(system.add_agent(1, telling(7, Recipients::AllAgents)));
    assert!(system.run(5));
    assert_eq!(system.society().current_time(), 1);
    assert_eq!(system.society().agreed_len(), 0);
    assert_eq!(system.society().store(1).unwrap().stated_len(), 0);
    assert_eq!(system.society().store(1).unwrap().enacted_len(), 0);
}

#[test]
fn deeds_around_end_scenario() {
    let mut system: System<SixDeeds, Gossiper> = System::new(SixDeeds, 1);
    assert!(system.run(3));
    assert_eq!(system.society().current_time(), 5);
    assert_eq!(system.society().agreed_len(), 1);
    assert_eq!(system.society().agreed_at(0), Some(&agreement(1)));
}

#[test]
fn run_without_ticks_changes_nothing() {
    let mut system = System::new(Clockwork { end_at: 0 }, 8);
    assert!(system.add_agent(1, telling(7, Recipients::AllAgents)));
    assert!(!system.run(0));
    assert_eq!(system.society().current_time(), 8);
    assert_eq!(system.society().store(1).unwrap().stated_len(), 0);
}

#[test]
fn inform_duplicates_equal_their_source() {
    let listed = Inform {
        info: Info::GossipStated(said(1)),
        recipients: Recipients::ListedAgents(vec![3, 1, 3]),
    };
    assert_eq!(listed.duplicate(), listed);
    assert_eq!(listed.recipients.duplicate(), Recipients::ListedAgents(vec![3, 1, 3]));
    assert_eq!(Recipients::AllAgents.duplicate(), Recipients::AllAgents);
    assert_eq!(listed.info.duplicate(), Info::GossipStated(said(1)));
}
