use agner::actor_id::ActorID;
use agner::child_spec::{ChildSpec, ChildType, DEFAULT_KILL_TIMEOUT_MS, DEFAULT_SHUTDOWN_TIMEOUT_MS};
use agner::escalator::ShutdownEscalator;
use agner::exit::{BackendFailure, Exit};
use agner::frequency::{FrequencyPolicy, FrequencyStats};
use agner::one_for_one::{Action, OneForOne, OneForOneDecider};
use agner::uniform::UniformSup;

fn aid(slot: usize, generation: u64) -> ActorID {
    ActorID { system_id: 1, slot, generation }
}

fn decider(max_failures: usize, within: u64) -> (ActorID, Vec<ActorID>, OneForOneDecider) {
    let sup = aid(0, 0);
    let children = vec![aid(1, 0), aid(2, 0), aid(3, 0)];
    let strategy = OneForOne {
        frequency_policy: FrequencyPolicy { max_failures, within },
    };
    let d = strategy.new_decider(sup, &children);
    (sup, children, d)
}

#[test]
fn frequency_window_slides() {
    let policy = FrequencyPolicy { max_failures: 2, within: 100 };
    let mut stats: FrequencyStats = policy.new_stats();
    assert!(!stats.report(0));
    assert!(!stats.report(50));
    // Third failure inside the window exceeds max_failures = 2.
    assert!(stats.report(100));
    // Much later, the old failures slid out of the window.
    assert!(!stats.report(1000));
}

#[test]
fn one_for_one_restart() {
    // A supervisor with three permanent children; child #1 crashes once
    // within a generous budget: only child #1 is restarted, its siblings
    // are untouched and the supervisor keeps running (no Exit action).
    let (_sup, children, mut d) = decider(3, 5000);
    d.actor_down(10, children[1], Exit::custom("boom".to_string()));
    assert_eq!(d.next_action(), Some(Action::Start(1)));
    assert_eq!(d.next_action(), None);
    // The restarted child comes up under a new id.
    d.child_up(20, 1, aid(2, 1));
    assert_eq!(d.children, vec![aid(1, 0), aid(2, 1), aid(3, 0)]);
}

#[test]
fn one_for_one_escalates_over_budget() {
    // With a budget of zero failures, the first crash winds the tree
    // down: stop every child in reverse order, then exit.
    let (_sup, children, mut d) = decider(0, 5000);
    let boom = Exit::custom("boom".to_string());
    d.actor_down(10, children[1], boom.clone());
    let stop_reason = Exit::shutdown_with_source(Exit::shutdown_with_source(boom.clone()));
    assert_eq!(d.next_action(), Some(Action::Stop(2, children[2], stop_reason.clone())));
    assert_eq!(d.next_action(), Some(Action::Stop(1, children[1], stop_reason.clone())));
    assert_eq!(d.next_action(), Some(Action::Stop(0, children[0], stop_reason)));
    assert_eq!(d.next_action(), Some(Action::Exit(Exit::shutdown_with_source(boom))));
    assert_eq!(d.next_action(), None);
}

#[test]
fn one_for_one_absorbs_expected_exits() {
    let (_sup, children, mut d) = decider(0, 5000);
    // The first crash escalates and marks every child as expected to
    // exit; their subsequent exits must be absorbed silently.
    d.actor_down(10, children[0], Exit::custom("boom".to_string()));
    while d.next_action().is_some() {}
    d.actor_down(11, children[1], Exit::shutdown());
    assert_eq!(d.next_action(), None);
    d.actor_down(12, children[2], Exit::shutdown());
    assert_eq!(d.next_action(), None);
}

#[test]
fn one_for_one_supervisor_down_initiates_shutdown() {
    let (sup, children, mut d) = decider(3, 5000);
    d.actor_down(10, sup, Exit::shutdown());
    let stop_reason = Exit::shutdown_with_source(Exit::shutdown());
    assert_eq!(d.next_action(), Some(Action::Stop(2, children[2], stop_reason.clone())));
    assert_eq!(d.next_action(), Some(Action::Stop(1, children[1], stop_reason.clone())));
    assert_eq!(d.next_action(), Some(Action::Stop(0, children[0], stop_reason)));
    assert_eq!(d.next_action(), Some(Action::Exit(Exit::shutdown())));
    assert_eq!(d.next_action(), None);
}

#[test]
fn one_for_one_unknown_actor_initiates_shutdown() {
    let (_sup, _children, mut d) = decider(3, 5000);
    let stranger = aid(9, 4);
    d.actor_down(10, stranger, Exit::custom("linked".to_string()));
    match d.next_action() {
        Some(Action::Stop(2, _, _)) => {},
        other => panic!("expected a Stop of the last child, got {:?}", other),
    }
}

#[test]
fn child_spec_defaults_and_builders() {
    let spec = ChildSpec::new("worker", 17u32);
    assert!(matches!(spec.child_type, ChildType::Permanent));
    assert_eq!(
        spec.shutdown,
        vec![
            (Exit::shutdown(), DEFAULT_SHUTDOWN_TIMEOUT_MS),
            (Exit::kill(), DEFAULT_KILL_TIMEOUT_MS),
        ],
    );
    let spec = spec
        .with_child_type(ChildType::Transient)
        .with_shutdown(vec![(Exit::shutdown(), 100), (Exit::kill(), 100)]);
    assert!(matches!(spec.child_type, ChildType::Transient));
    assert_eq!(spec.shutdown, vec![(Exit::shutdown(), 100), (Exit::kill(), 100)]);
    assert_eq!(spec.id, "worker");
    assert_eq!(spec.produce, 17u32);
}

#[test]
fn escalator_walks_steps_then_gives_up() {
    let mut esc = ShutdownEscalator::new(vec![(Exit::shutdown(), 100), (Exit::kill(), 100)]);
    assert_eq!(esc.next_demand(), Some((Exit::shutdown(), 100)));
    assert_eq!(esc.next_demand(), Some((Exit::kill(), 100)));
    assert_eq!(esc.next_demand(), None);
    assert_eq!(
        esc.give_up_reason(),
        Exit::BackendFailure(BackendFailure::ShutdownFailed),
    );
}

#[test]
fn uniform_sup_tracks_children_without_restart() {
    let mut sup = UniformSup::new(aid(0, 0));
    sup.child_started(aid(1, 0));
    sup.child_started(aid(2, 0));
    sup.child_started(aid(3, 0));
    // Starting a child twice keeps one entry.
    sup.child_started(aid(2, 0));
    assert_eq!(sup.children, vec![aid(1, 0), aid(2, 0), aid(3, 0)]);
    // A child going down is forgotten, not restarted.
    sup.child_down(aid(2, 0));
    assert_eq!(sup.children, vec![aid(1, 0), aid(3, 0)]);
    // An unknown exit changes nothing.
    sup.child_down(aid(9, 9));
    assert_eq!(sup.children, vec![aid(1, 0), aid(3, 0)]);
    // Own shutdown stops the live children in reverse start order.
    assert_eq!(sup.shutdown_order(), vec![aid(3, 0), aid(1, 0)]);
}
