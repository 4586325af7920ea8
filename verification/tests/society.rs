use consortium_sim::gossip::{ConsortiumDeed, Info, Inform, Recipients};
use consortium_sim::ledger::{Action, Agreement, Enacted, Message, Statement};
use consortium_sim::society::Society;

fn message(id: u64) -> Message {
    Message { message_id: id, payload: vec![id as u8, 1] }
}

fn statement(id: u64) -> Statement {
    Statement { msg: message(id), author_signature: 1000 + id as u128 }
}

fn enacted(id: u64) -> Enacted {
    Enacted {
        action: Action {
            basis: message(id),
            enacts: message(id + 100),
            justification: message(id + 200),
            at: 3,
        },
        actor_signature: 77,
    }
}

fn society_of(ids: &[u64]) -> Society {
    let mut society = Society::new(1);
    for id in ids {
        assert!(society.register(*id));
    }
    society
}

fn stated_ids(society: &Society, agent: u64) -> Vec<u64> {
    let store = society.store(agent).unwrap();
    (0..store.stated_len()).map(|i| store.stated_at(i).unwrap().msg.message_id).collect()
}

#[test]
fn new_society_has_nothing() {
    let society = Society::new(42);
    assert_eq!(society.current_time(), 42);
    assert_eq!(society.agent_count(), 0);
    assert_eq!(society.agent_id(0), None);
    assert_eq!(society.agreed_len(), 0);
    assert!(society.agreed_at(0).is_none());
    assert!(society.store(1).is_none());
}

#[test]
fn register_keeps_order_and_refuses_a_second_time() {
    let mut society = Society::new(1);
    assert!(society.register(5));
    assert!(society.register(2));
    assert!(!society.register(5));
    assert_eq!(society.agent_count(), 2);
    assert_eq!(society.agent_id(0), Some(5));
    assert_eq!(society.agent_id(1), Some(2));
    assert_eq!(society.agent_id(2), None);
    assert_eq!(society.store(5).unwrap().stated_len(), 0);
}

#[test]
fn broadcast_reaches_every_agent_exactly_once() {
    let mut society = society_of(&[1, 2, 3]);
    society.handle_inform(Inform {
        info: Info::GossipStated(statement(9)),
        recipients: Recipients::AllAgents,
    });
    for id in [1u64, 2, 3] {
        let store = society.store(id).unwrap();
        assert_eq!(store.stated_len(), 1);
        assert_eq!(store.stated_at(0), Some(&statement(9)));
        assert_eq!(store.enacted_len(), 0);
    }
    assert_eq!(society.agent_count(), 3);
}

#[test]
fn broadcast_to_nobody_changes_nothing() {
    let mut society = Society::new(1);
    society.handle_inform(Inform {
        info: Info::GossipEnacted(enacted(1)),
        recipients: Recipients::AllAgents,
    });
    assert_eq!(society.agent_count(), 0);
    assert_eq!(society.agreed_len(), 0);
    assert_eq!(society.current_time(), 1);
}

#[test]
fn listed_delivery_leaves_the_others_untouched() {
    let mut society = society_of(&[1, 2, 3]);
    society.handle_inform(Inform {
        info: Info::GossipStated(statement(4)),
        recipients: Recipients::ListedAgents(vec![1, 2]),
    });
    assert_eq!(stated_ids(&society, 1), vec![4]);
    assert_eq!(stated_ids(&society, 2), vec![4]);
    assert_eq!(stated_ids(&society, 3), Vec::<u64>::new());
    assert_eq!(society.store(3).unwrap().enacted_len(), 0);
}

#[test]
fn unknown_recipient_is_skipped() {
    let mut society = society_of(&[1]);
    society.handle_inform(Inform {
        info: Info::GossipStated(statement(4)),
        recipients: Recipients::ListedAgents(vec![8, 1, 9]),
    });
    assert_eq!(stated_ids(&society, 1), vec![4]);
    assert_eq!(society.agent_count(), 1);
    assert!(society.store(8).is_none());
    assert!(society.store(9).is_none());
}

#[test]
fn empty_list_delivers_to_nobody() {
    let mut society = society_of(&[1, 2]);
    society.handle_inform(Inform {
        info: Info::GossipStated(statement(4)),
        recipients: Recipients::ListedAgents(vec![]),
    });
    assert_eq!(stated_ids(&society, 1), Vec::<u64>::new());
    assert_eq!(stated_ids(&society, 2), Vec::<u64>::new());
}

#[test]
fn agent_listed_twice_receives_twice() {
    let mut society = society_of(&[1, 2]);
    society.handle_inform(Inform {
        info: Info::GossipStated(statement(4)),
        recipients: Recipients::ListedAgents(vec![2, 2]),
    });
    assert_eq!(stated_ids(&society, 2), vec![4, 4]);
    assert_eq!(stated_ids(&society, 1), Vec::<u64>::new());
}

#[test]
fn enacted_gossip_goes_to_the_enacted_sequence() {
    let mut society = society_of(&[1, 2]);
    society.handle_inform(Inform {
        info: Info::GossipEnacted(enacted(6)),
        recipients: Recipients::ListedAgents(vec![2]),
    });
    let store = society.store(2).unwrap();
    assert_eq!(store.enacted_len(), 1);
    assert_eq!(store.enacted_at(0), Some(&enacted(6)));
    assert_eq!(store.stated_len(), 0);
    assert_eq!(society.store(1).unwrap().enacted_len(), 0);
}

#[test]
fn disseminate_applies_the_buffer_in_order() {
    let mut society = society_of(&[1, 2]);
    society.disseminate(vec![
        Inform { info: Info::GossipStated(statement(1)), recipients: Recipients::AllAgents },
        Inform {
            info: Info::GossipStated(statement(2)),
            recipients: Recipients::ListedAgents(vec![2]),
        },
        Inform { info: Info::GossipStated(statement(3)), recipients: Recipients::AllAgents },
    ]);
    assert_eq!(stated_ids(&society, 1), vec![1, 3]);
    assert_eq!(stated_ids(&society, 2), vec![1, 2, 3]);
}

#[test]
fn agree_appends_to_the_log() {
    let mut society = society_of(&[1]);
    let first = Agreement { content: message(1), in_effect: 10 };
    let second = Agreement { content: message(2), in_effect: 0 };
    society.handle_consortium_deed(ConsortiumDeed::Agree(first.clone()));
    society.handle_consortium_deed(ConsortiumDeed::Agree(second.clone()));
    assert_eq!(society.agreed_len(), 2);
    assert_eq!(society.agreed_at(0), Some(&first));
    assert_eq!(society.agreed_at(1), Some(&second));
    assert!(society.agreed_at(2).is_none());
    assert_eq!(society.current_time(), 1);
}

#[test]
fn change_current_time_overwrites_and_may_rewind() {
    let mut society = Society::new(10);
    society.handle_consortium_deed(ConsortiumDeed::ChangeCurrentTime(50));
    assert_eq!(society.current_time(), 50);
    society.handle_consortium_deed(ConsortiumDeed::ChangeCurrentTime(3));
    assert_eq!(society.current_time(), 3);
    assert_eq!(society.agreed_len(), 0);
}

#[test]
fn end_scenario_deed_changes_nothing() {
    let mut society = society_of(&[1]);
    society.handle_consortium_deed(ConsortiumDeed::EndScenario);
    assert_eq!(society.current_time(), 1);
    assert_eq!(society.agreed_len(), 0);
    assert_eq!(society.store(1).unwrap().stated_len(), 0);
}

#[test]
fn deeds_after_end_scenario_are_not_applied() {
    let mut society = Society::new(1);
    let ended = society.apply_deeds(vec![
        ConsortiumDeed::ChangeCurrentTime(5),
        ConsortiumDeed::Agree(Agreement { content: message(1), in_effect: 5 }),
        ConsortiumDeed::EndScenario,
        ConsortiumDeed::ChangeCurrentTime(8),
        ConsortiumDeed::Agree(Agreement { content: message(2), in_effect: 8 }),
    ]);
    assert!(ended);
    assert_eq!(society.current_time(), 5);
    assert_eq!(society.agreed_len(), 1);
    assert_eq!(society.agreed_at(0).unwrap().content.message_id, 1);
}

#[test]
fn deeds_without_end_scenario_are_all_applied() {
    let mut society = Society::new(1);
    let ended = society.apply_deeds(vec![
        ConsortiumDeed::ChangeCurrentTime(5),
        ConsortiumDeed::ChangeCurrentTime(8),
    ]);
    assert!(!ended);
    assert_eq!(society.current_time(), 8);
    assert!(!society.apply_deeds(vec![]));
    assert_eq!(society.current_time(), 8);
}

#[test]
fn set_asset_reaches_only_the_named_agent() {
    let mut society = society_of(&[1, 2]);
    assert!(society.set_asset(1, 30, vec![4, 5]));
    assert!(!society.set_asset(9, 30, vec![4, 5]));
    assert_eq!(society.store(1).unwrap().get_asset(30), Some(vec![4, 5]));
    assert_eq!(society.store(2).unwrap().get_asset(30), None);
    assert_eq!(society.store(1).unwrap().stated_len(), 0);
}
