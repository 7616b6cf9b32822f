use wl_overlay::channel::{
    after_try_send, enqueue, ensure_started, forward, shutdown, CommandKind, CommandReceiver,
    CommandSender, Delivery, Forwarded, OverlayCommand, OverlayMsg, Received, SendStep, TrySend,
    WlOverlayCmd, QUEUE_CAPACITY,
};

fn start() -> (Option<CommandSender>, CommandReceiver) {
    let mut slot = None;
    let rx = ensure_started(&mut slot).unwrap();
    (slot, rx)
}

fn command(kind: CommandKind, payload: u64) -> OverlayMsg {
    OverlayMsg::Cmd(OverlayCommand { kind, payload })
}

#[test]
fn starting_twice_changes_nothing() {
    let (mut slot, mut rx) = start();
    assert!(slot.is_some());
    assert!(matches!(forward(&mut slot, &OverlayMsg::Remove), Forwarded::Handed(Delivery::Queued)));
    assert!(ensure_started(&mut slot).is_none());
    assert!(slot.is_some());
    assert!(matches!(rx.poll(), Received::Got(WlOverlayCmd::Remove)));
    assert!(matches!(rx.poll(), Received::Empty));
}

#[test]
fn commands_arrive_in_order() {
    let (mut slot, mut rx) = start();
    assert!(forward(&mut slot, &command(CommandKind::MoveTo, 5)).accepted());
    assert!(forward(&mut slot, &OverlayMsg::Remove).accepted());
    assert!(forward(&mut slot, &command(CommandKind::Other, 6)).accepted());
    match rx.poll() {
        Received::Got(WlOverlayCmd::Cmd { cmd }) => {
            assert_eq!(cmd.kind, CommandKind::MoveTo);
            assert_eq!(cmd.payload, 5);
        }
        other => panic!("{other:?}"),
    }
    assert!(matches!(rx.poll(), Received::Got(WlOverlayCmd::Remove)));
    match rx.poll() {
        Received::Got(WlOverlayCmd::Cmd { cmd }) => {
            assert_eq!(cmd.kind, CommandKind::Other);
            assert_eq!(cmd.payload, 6);
        }
        other => panic!("{other:?}"),
    }
    assert!(matches!(rx.poll(), Received::Empty));
}

#[test]
fn focus_rectangles_are_not_forwarded() {
    let (mut slot, mut rx) = start();
    let r = forward(&mut slot, &command(CommandKind::ShowFocusRect, 1));
    assert!(matches!(r, Forwarded::Ignored));
    assert!(!r.accepted());
    assert!(matches!(rx.poll(), Received::Empty));
    for kind in [CommandKind::MoveTo, CommandKind::SnapTo, CommandKind::ClickPulse] {
        assert!(forward(&mut slot, &command(kind, 1)).accepted());
    }
    assert!(command(CommandKind::ShowFocusRect, 1).queued().is_none());
    assert!(matches!(OverlayMsg::Remove.queued(), Some(WlOverlayCmd::Remove)));
}

#[test]
fn nothing_is_forwarded_before_the_start() {
    let mut slot: Option<CommandSender> = None;
    let r = forward(&mut slot, &OverlayMsg::Remove);
    assert!(matches!(r, Forwarded::NotStarted));
    assert!(!r.accepted());
    assert!(shutdown(&mut slot).is_none());
    assert!(slot.is_none());
}

#[test]
fn full_queue_hands_the_command_back_after_a_wait() {
    let (mut slot, mut rx) = start();
    let tx = slot.as_mut().unwrap();
    for _ in 0..QUEUE_CAPACITY {
        assert!(matches!(enqueue(tx, WlOverlayCmd::Remove), Delivery::Queued));
    }
    let begin = std::time::Instant::now();
    let r = enqueue(tx, WlOverlayCmd::Shutdown);
    assert!(begin.elapsed() >= std::time::Duration::from_millis(100));
    assert!(matches!(r, Delivery::TimedOut(WlOverlayCmd::Shutdown)));
    assert!(matches!(rx.poll(), Received::Got(WlOverlayCmd::Remove)));
    assert!(matches!(enqueue(tx, WlOverlayCmd::Shutdown), Delivery::Queued));
    for _ in 1..QUEUE_CAPACITY {
        assert!(matches!(rx.poll(), Received::Got(WlOverlayCmd::Remove)));
    }
    assert!(matches!(rx.poll(), Received::Got(WlOverlayCmd::Shutdown)));
    assert!(matches!(rx.poll(), Received::Empty));
}

#[test]
fn commands_come_back_when_the_owner_is_gone() {
    let (mut slot, rx) = start();
    drop(rx);
    let tx = slot.as_mut().unwrap();
    assert!(matches!(
        enqueue(tx, WlOverlayCmd::Remove),
        Delivery::Disconnected(WlOverlayCmd::Remove)
    ));
    let r = forward(&mut slot, &OverlayMsg::Remove);
    assert!(matches!(r, Forwarded::Handed(Delivery::Disconnected(WlOverlayCmd::Remove))));
    assert!(r.accepted());
    assert!(matches!(
        shutdown(&mut slot),
        Some(Delivery::Disconnected(WlOverlayCmd::Shutdown))
    ));
}

#[test]
fn shutdown_reaches_the_owner() {
    let (mut slot, mut rx) = start();
    assert!(matches!(shutdown(&mut slot), Some(Delivery::Queued)));
    assert!(matches!(rx.poll(), Received::Got(WlOverlayCmd::Shutdown)));
    drop(slot);
    assert!(matches!(rx.poll(), Received::Disconnected));
}

#[test]
fn handles_share_the_queue() {
    let (slot, mut rx) = start();
    let mut second = Some(slot.as_ref().unwrap().handle());
    drop(slot);
    assert!(forward(&mut second, &command(CommandKind::SnapTo, 9)).accepted());
    match rx.poll() {
        Received::Got(WlOverlayCmd::Cmd { cmd }) => assert_eq!(cmd.payload, 9),
        other => panic!("{other:?}"),
    }
    assert!(matches!(rx.poll(), Received::Empty));
    drop(second);
    assert!(matches!(rx.poll(), Received::Disconnected));
}

#[test]
fn only_a_full_queue_is_waited_for() {
    assert!(matches!(
        after_try_send(TrySend::Sent),
        SendStep::Finished(Delivery::Queued)
    ));
    assert!(matches!(
        after_try_send(TrySend::Full(WlOverlayCmd::Remove)),
        SendStep::Wait(WlOverlayCmd::Remove)
    ));
    assert!(matches!(
        after_try_send(TrySend::Disconnected(WlOverlayCmd::Shutdown)),
        SendStep::Finished(Delivery::Disconnected(WlOverlayCmd::Shutdown))
    ));
}

#[test]
fn moves_and_clicks_have_a_target() {
    assert!(CommandKind::MoveTo.has_target());
    assert!(CommandKind::SnapTo.has_target());
    assert!(CommandKind::ClickPulse.has_target());
    assert!(!CommandKind::ShowFocusRect.has_target());
    assert!(!CommandKind::Other.has_target());
}

#[test]
fn handles_send_behind_one_another() {
    let (mut slot, mut rx) = start();
    let mut second = Some(slot.as_ref().unwrap().handle());
    assert!(forward(&mut second, &command(CommandKind::MoveTo, 1)).accepted());
    assert!(slot.as_mut().unwrap().follow(second.as_ref().unwrap()));
    assert!(forward(&mut slot, &command(CommandKind::MoveTo, 2)).accepted());
    let mut third = Some(slot.as_ref().unwrap().handle());
    assert!(forward(&mut third, &command(CommandKind::MoveTo, 3)).accepted());
    for payload in 1..4 {
        let cmd = OverlayCommand { kind: CommandKind::MoveTo, payload };
        assert_eq!(rx.poll(), Received::Got(WlOverlayCmd::Cmd { cmd }));
    }
    assert_eq!(rx.poll(), Received::Empty);
}

#[test]
fn queues_are_told_apart() {
    let (mut slot, mut rx) = start();
    let (other, mut other_rx) = start();
    assert!(!slot.as_mut().unwrap().follow(other.as_ref().unwrap()));
    assert!(forward(&mut slot, &OverlayMsg::Remove).accepted());
    assert_eq!(other_rx.poll(), Received::Empty);
    assert_eq!(rx.poll(), Received::Got(WlOverlayCmd::Remove));
}
