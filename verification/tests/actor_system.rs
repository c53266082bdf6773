use agner::actor_id::ActorID;
use agner::exit::Exit;
use agner::spawn_opts::{InitAckTx, SpawnOpts};
use agner::sys_msg::{CallMsg, Event, Signal};
use agner::escalator::ShutdownEscalator;
use agner::system::{CallOutcome, Notification, QueueStep, SysStep, System, SystemConfig};

#[derive(Debug, PartialEq, Clone, Copy)]
enum Msg {
    Ping(u32),
    Pong(u32),
}

fn new_system() -> System<Msg> {
    System::new(1, SystemConfig { max_actors: 8 })
}

fn spawn(sys: &mut System<Msg>, opts: SpawnOpts) -> ActorID {
    sys.spawn(opts).expect("spawn should find a free slot")
}

/// Drives one accepted user message into the inbox and hands it to the
/// behaviour.
fn receive(sys: &mut System<Msg>, id: ActorID) -> Option<Msg> {
    while sys.step_user(id) == QueueStep::Progressed {}
    sys.ctx_next_message(id)
}

#[test]
fn send_then_next_message_round_trip() {
    let mut sys = new_system();
    let a = spawn(&mut sys, SpawnOpts::new());
    sys.send(a, Msg::Ping(5));
    assert_eq!(sys.step_user(a), QueueStep::Progressed);
    assert_eq!(sys.ctx_next_message(a), Some(Msg::Ping(5)));
    assert_eq!(sys.ctx_next_message(a), None);
}

#[test]
fn per_sender_order_is_kept() {
    let mut sys = new_system();
    let a = spawn(&mut sys, SpawnOpts::new());
    for i in 0..5 {
        sys.send(a, Msg::Ping(i));
    }
    for i in 0..5 {
        assert_eq!(receive(&mut sys, a), Some(Msg::Ping(i)));
    }
}

#[test]
fn ping_pong() {
    // Two linked actors; A sends Ping(i) for i = 0..9 to B, B replies
    // Pong(i). A collects ten pongs in order; both exit normally and the
    // normal exit only dissolves the link on the other side.
    let mut sys = new_system();
    let a = spawn(&mut sys, SpawnOpts::new());
    let b = spawn(&mut sys, SpawnOpts::new().with_link(a));
    assert_eq!(sys.step_sys(a), SysStep::Progressed);  // a handles Link(b)

    let mut pongs = Vec::new();
    for i in 0..10 {
        sys.send(b, Msg::Ping(i));
        match receive(&mut sys, b) {
            Some(Msg::Ping(n)) => sys.send(a, Msg::Pong(n)),
            other => panic!("b expected a ping, got {:?}", other),
        }
        if let Some(Msg::Pong(n)) = receive(&mut sys, a) {
            pongs.push(n);
        }
    }
    assert_eq!(pongs, (0..10).collect::<Vec<_>>());

    // Both exit normally: B's exit notifies A, which being unlinked by a
    // normal reason keeps running, then exits normally itself.
    let n = sys.terminate(b, Exit::normal());
    assert!(n.is_empty());
    assert_eq!(sys.step_sys(a), SysStep::Progressed);
    let n = sys.terminate(a, Exit::normal());
    assert!(n.is_empty());
    assert!(sys.all_actors().is_empty());
}

#[test]
fn non_normal_exit_propagates_to_linked_peer() {
    let mut sys = new_system();
    let a = spawn(&mut sys, SpawnOpts::new());
    let b = spawn(&mut sys, SpawnOpts::new());
    sys.link(a, b);
    assert_eq!(sys.step_sys(a), SysStep::Progressed);
    assert_eq!(sys.step_sys(b), SysStep::Progressed);

    let boom = Exit::custom("boom".to_string());
    sys.terminate(a, boom.clone());
    // B receives exactly one exit signal and, not trapping, terminates
    // with the same reason.
    assert_eq!(sys.step_sys(b), SysStep::ExitDecision(boom));
    assert_eq!(sys.step_sys(b), SysStep::Idle);
}

#[test]
fn trap_exit_turns_signal_into_event() {
    let mut sys = new_system();
    let a = spawn(&mut sys, SpawnOpts::new());
    let b = spawn(&mut sys, SpawnOpts::new());
    sys.link(a, b);
    assert_eq!(sys.step_sys(a), SysStep::Progressed);
    assert_eq!(sys.step_sys(b), SysStep::Progressed);
    assert!(sys.ctx_trap_exit(b, true));

    let boom = Exit::custom("boom".to_string());
    sys.terminate(a, boom.clone());
    assert_eq!(sys.step_sys(b), SysStep::Progressed);
    assert_eq!(sys.ctx_next_event(b), Some(Event::Signal(Signal::Exited(a, boom))));
}

#[test]
fn kill_overrides_trap_exit() {
    // A sets trap_exit(true); the system delivers an exit signal with
    // reason Kill. A terminates with Kill and its signal inbox never
    // observes the kill.
    let mut sys = new_system();
    let a = spawn(&mut sys, SpawnOpts::new());
    assert!(sys.ctx_trap_exit(a, true));
    sys.exit(a, Exit::kill());
    assert_eq!(sys.step_sys(a), SysStep::ExitDecision(Exit::Kill));
    assert_eq!(sys.ctx_next_event(a), None);
    sys.terminate(a, Exit::kill());
    assert!(sys.actor_info(a).is_none());
}

#[test]
fn link_race_compensated_once() {
    // A spawns with an initial link to an already-terminated B: the link
    // cannot be established, so A observes exactly one
    // SigExit(B, NoActor) and, not trapping, goes down with NoActor.
    let mut sys = new_system();
    let b = spawn(&mut sys, SpawnOpts::new());
    sys.terminate(b, Exit::normal());
    let a = spawn(&mut sys, SpawnOpts::new().with_link(b));
    assert_eq!(sys.step_sys(a), SysStep::ExitDecision(Exit::NoActor));
    assert_eq!(sys.step_sys(a), SysStep::Idle);
}

#[test]
fn wait_after_exit_resolves_no_actor() {
    let mut sys = new_system();
    let a = spawn(&mut sys, SpawnOpts::new());
    sys.terminate(a, Exit::normal());
    // The slot has been recycled: a later wait resolves immediately.
    assert_eq!(sys.wait(a, 1), Some(Exit::NoActor));
}

#[test]
fn wait_is_honored_at_termination() {
    let mut sys = new_system();
    let a = spawn(&mut sys, SpawnOpts::new());
    assert_eq!(sys.wait(a, 77), None);
    assert_eq!(sys.step_sys(a), SysStep::Progressed);  // registers the waiter
    let boom = Exit::custom("boom".to_string());
    let notifications = sys.terminate(a, boom.clone());
    assert_eq!(notifications, vec![Notification::WaiterNotified(77, boom)]);
}

#[test]
fn no_message_reaches_a_stale_id() {
    let mut sys = new_system();
    let a = spawn(&mut sys, SpawnOpts::new());
    sys.terminate(a, Exit::normal());
    sys.send(a, Msg::Ping(1));
    // The slot is recycled under a new generation; the new incarnation
    // must not see mail addressed to the old one.
    let a2 = spawn(&mut sys, SpawnOpts::new());
    assert_eq!(a2.slot, a.slot);
    assert_ne!(a2.generation, a.generation);
    assert_eq!(sys.step_user(a2), QueueStep::Idle);
    assert_eq!(sys.ctx_next_message(a2), None);
}

#[test]
fn actor_info_until_termination() {
    let mut sys = new_system();
    let a = spawn(&mut sys, SpawnOpts::new().with_msg_inbox_size(4));
    let info = sys.actor_info(a).expect("live actor has info");
    assert_eq!(info.actor_id, a);
    assert_eq!(info.m_queue_len, (0, 4));
    assert_eq!(info.trap_exit, false);
    assert_eq!(info.waits_len, 0);
    sys.send(a, Msg::Ping(0));
    sys.step_user(a);
    let info = sys.actor_info(a).expect("live actor has info");
    assert_eq!(info.m_queue_len, (1, 4));
    sys.terminate(a, Exit::normal());
    assert!(sys.actor_info(a).is_none());
}

#[test]
fn link_is_idempotent_and_unlink_of_non_link_is_noop() {
    let mut sys = new_system();
    let a = spawn(&mut sys, SpawnOpts::new());
    let b = spawn(&mut sys, SpawnOpts::new());
    // Link twice: a single entry in each link set.
    sys.link(a, b);
    sys.link(a, b);
    for _ in 0..2 {
        assert_eq!(sys.step_sys(a), SysStep::Progressed);
        assert_eq!(sys.step_sys(b), SysStep::Progressed);
    }
    let info = sys.actor_info(a).unwrap();
    assert_eq!(info.links, vec![b]);
    let info = sys.actor_info(b).unwrap();
    assert_eq!(info.links, vec![a]);
    // Unlink of a non-link is a no-op.
    let c = spawn(&mut sys, SpawnOpts::new());
    assert!(sys.ctx_unlink(a, c));
    let info = sys.actor_info(a).unwrap();
    assert_eq!(info.links, vec![b]);
}

#[test]
fn init_ack_fires_once_after_links_are_established() {
    let mut sys = new_system();
    let b = spawn(&mut sys, SpawnOpts::new());
    let a = spawn(&mut sys, SpawnOpts::new().with_link(b).with_init_ack(InitAckTx(9)));
    // The initial link set is in place while the acknowledgement is
    // still pending.
    assert_eq!(sys.actor_info(a).unwrap().links, vec![b]);
    assert_eq!(sys.ctx_init_ack(a), Some(Notification::InitAckFired(InitAckTx(9), a)));
    assert_eq!(sys.ctx_init_ack(a), None);
}

#[test]
fn spawn_exhausts_slots() {
    let mut sys: System<Msg> = System::new(1, SystemConfig { max_actors: 2 });
    let _ = spawn(&mut sys, SpawnOpts::new());
    let b = spawn(&mut sys, SpawnOpts::new());
    assert!(sys.spawn(SpawnOpts::new()).is_err());
    // Terminating one frees its slot for the next spawn.
    sys.terminate(b, Exit::normal());
    assert!(sys.spawn(SpawnOpts::new()).is_ok());
}

#[test]
fn attached_future_output_enters_inbox() {
    let mut sys = new_system();
    let a = spawn(&mut sys, SpawnOpts::new());
    assert!(sys.ctx_future_to_inbox(a, Msg::Pong(3)));
    assert_eq!(sys.step_task(a, 0), QueueStep::Progressed);
    assert_eq!(sys.ctx_next_message(a), Some(Msg::Pong(3)));
}

#[test]
fn backpressure_blocks_forwarding() {
    let mut sys = new_system();
    let a = spawn(&mut sys, SpawnOpts::new().with_msg_inbox_size(1));
    sys.send(a, Msg::Ping(0));
    sys.send(a, Msg::Ping(1));
    assert_eq!(sys.step_user(a), QueueStep::Progressed);
    // The bounded inbox is full: the runner suspends instead of pushing.
    assert_eq!(sys.step_user(a), QueueStep::Blocked);
    assert_eq!(sys.ctx_next_message(a), Some(Msg::Ping(0)));
    assert_eq!(sys.step_user(a), QueueStep::Progressed);
    assert_eq!(sys.ctx_next_message(a), Some(Msg::Ping(1)));
}

#[test]
fn shutdown_escalates_to_kill() {
    // A child whose shutdown sequence is [(Shutdown, 100ms), (Kill, 100ms)]
    // traps exits and ignores the polite request; after the first step
    // times out, the escalator demands Kill, which the child cannot trap.
    let mut sys = new_system();
    let child = spawn(&mut sys, SpawnOpts::new());
    assert!(sys.ctx_trap_exit(child, true));

    let mut esc = ShutdownEscalator::new(vec![(Exit::shutdown(), 100), (Exit::kill(), 100)]);
    let mut observed = None;
    while let Some((reason, _timeout)) = esc.next_demand() {
        sys.exit(child, reason);
        match sys.step_sys(child) {
            SysStep::Progressed => {
                // The child trapped the request and keeps running: the
                // driver's wait runs out and the escalator moves on.
                continue;
            },
            SysStep::ExitDecision(final_reason) => {
                sys.terminate(child, final_reason.clone());
                observed = Some(final_reason);
                break;
            },
            other => panic!("unexpected step outcome {:?}", other),
        }
    }
    // The supervisor observes Kill as the final reason.
    assert_eq!(observed, Some(Exit::Kill));
    assert!(sys.actor_info(child).is_none());
}

#[test]
fn behaviour_calls_are_dispatched() {
    let mut sys = new_system();
    let a = spawn(&mut sys, SpawnOpts::new());
    let b = spawn(&mut sys, SpawnOpts::new());
    assert_eq!(sys.handle_call(a, CallMsg::TrapExit(true)), CallOutcome::Done);
    assert!(sys.actor_info(a).unwrap().trap_exit);
    assert_eq!(sys.handle_call(a, CallMsg::Link(b)), CallOutcome::Done);
    assert_eq!(sys.actor_info(a).unwrap().links, vec![b]);
    assert_eq!(sys.handle_call(a, CallMsg::FutureToInbox(Msg::Ping(4))), CallOutcome::Done);
    assert_eq!(sys.actor_info(a).unwrap().tasks_count, 1);
    assert_eq!(
        sys.handle_call(a, CallMsg::Exit(Exit::normal())),
        CallOutcome::ExitDecision(Exit::Normal),
    );
    sys.terminate(a, Exit::normal());
    assert_eq!(sys.handle_call(a, CallMsg::TrapExit(true)), CallOutcome::Ignored);
}
