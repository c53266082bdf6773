use agner::actor_id::ActorID;
use agner::exit::{BackendFailure, ChannelKind, Exit};
use agner::pipe::Pipe;
use agner::spawn_opts::{InitAckTx, SpawnOpts, DEFAULT_MSG_INBOX_SIZE, DEFAULT_SIG_INBOX_SIZE};

fn aid(slot: usize, generation: u64) -> ActorID {
    ActorID { system_id: 7, slot, generation }
}

#[test]
fn exit_equality_and_predicates() {
    assert!(Exit::normal().is_normal());
    assert!(!Exit::kill().is_normal());
    assert!(Exit::kill().is_kill());
    assert_eq!(Exit::normal(), Exit::Normal);
    assert_eq!(Exit::custom("boom".to_string()), Exit::custom("boom".to_string()));
    assert_ne!(Exit::custom("boom".to_string()), Exit::custom("bang".to_string()));
    assert_ne!(Exit::normal(), Exit::no_actor());
    let chained = Exit::shutdown_with_source(Exit::custom("boom".to_string()));
    assert_eq!(chained.clone(), chained);
    assert_ne!(chained, Exit::shutdown());
    assert_eq!(
        Exit::BackendFailure(BackendFailure::RxClosed(ChannelKind::Messages)),
        Exit::BackendFailure(BackendFailure::RxClosed(ChannelKind::Messages)),
    );
    assert_ne!(
        Exit::BackendFailure(BackendFailure::RxClosed(ChannelKind::Messages)),
        Exit::BackendFailure(BackendFailure::InboxFull(ChannelKind::Messages)),
    );
}

#[test]
fn pipe_is_fifo_and_bounded() {
    let mut p: Pipe<u32> = Pipe::new(2);
    assert_eq!(p.len(), (0, 2));
    assert_eq!(p.send(1), None);
    assert_eq!(p.send(2), None);
    assert_eq!(p.len(), (2, 2));
    // Full: the value is handed back.
    assert_eq!(p.send(3), Some(3));
    assert_eq!(p.recv(), Some(1));
    assert_eq!(p.send(3), None);
    assert_eq!(p.recv(), Some(2));
    assert_eq!(p.recv(), Some(3));
    assert_eq!(p.recv(), None);
    assert_eq!(p.len(), (0, 2));
}

#[test]
fn spawn_opts_defaults() {
    let opts = SpawnOpts::new();
    assert_eq!(opts.msg_inbox_size(), DEFAULT_MSG_INBOX_SIZE);
    assert_eq!(opts.sig_inbox_size(), DEFAULT_SIG_INBOX_SIZE);
    assert_eq!(opts.msg_inbox_size(), 1024);
    assert_eq!(opts.sig_inbox_size(), 16);
    assert!(opts.links().is_empty());
}

#[test]
fn spawn_opts_builders() {
    let mut opts = SpawnOpts::new()
        .with_msg_inbox_size(8)
        .with_sig_inbox_size(2)
        .with_link(aid(3, 0))
        .with_init_ack(InitAckTx(42));
    assert_eq!(opts.msg_inbox_size(), 8);
    assert_eq!(opts.sig_inbox_size(), 2);
    assert_eq!(opts.links(), vec![aid(3, 0)]);
    assert_eq!(opts.take_init_ack(), Some(InitAckTx(42)));
    assert_eq!(opts.take_init_ack(), None);
}

#[test]
fn spawn_opts_link_twice_keeps_single_entry() {
    let opts = SpawnOpts::new().with_link(aid(3, 0)).with_link(aid(4, 1)).with_link(aid(3, 0));
    assert_eq!(opts.links(), vec![aid(3, 0), aid(4, 1)]);
}
