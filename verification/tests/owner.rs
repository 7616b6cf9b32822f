use wl_overlay::channel::{
    ensure_started, forward, shutdown, CommandKind, Delivery, OverlayCommand, OverlayMsg, Received,
    WlOverlayCmd,
};
use wl_overlay::error::SetupError;
use wl_overlay::owner::{tick_nanos, Action, Event, Motion, Owner, OwnerError, Phase};
use wl_overlay::state::{MappedBuffer, OverlayState};

const STILL: Motion =
    Motion { arrived: false, path: false, spring: false, click: false, fading: false };

const BUFFER: MappedBuffer = MappedBuffer { addr: 0, size: 4, fd: 3 };

fn ready() -> OverlayState {
    let mut s = OverlayState::default();
    for interface in ["wl_compositor", "wl_shm", "wl_output", "zwlr_layer_shell_v1"] {
        s.on_global(1, interface, 1);
    }
    s.on_configure(0, 0);
    s.on_mode(640, 480);
    s
}

fn at(phase: Phase) -> Owner {
    Owner { phase }
}

fn go(owner: &mut Owner, state: &mut OverlayState, event: Event) -> Action {
    assert!(owner.awaits(&event));
    owner.step(state, event)
}

fn polled(received: Received) -> Event {
    Event::Polled { received, offscreen: false }
}

#[test]
fn whole_run() {
    let mut s = ready();
    s.on_global(2, "wp_viewporter", 1);
    let (mut o, first): (Owner, Action) = Owner::start();
    assert!(matches!(first, Action::Roundtrip));
    for _ in 0..3 {
        assert!(matches!(go(&mut o, &mut s, Event::Done), Action::Roundtrip));
    }
    let build = go(&mut o, &mut s, Event::Done);
    assert!(matches!(build, Action::Build { viewport: true, fractional: false }));
    assert!(matches!(go(&mut o, &mut s, Event::Done), Action::Roundtrip));
    assert!(s.surface && s.layer_surface && s.viewport && !s.fractional);
    assert!(matches!(go(&mut o, &mut s, Event::Done), Action::Redraw));
    s.attach(5, BUFFER);
    assert!(matches!(go(&mut o, &mut s, Event::Done), Action::Roundtrip));
    assert!(matches!(go(&mut o, &mut s, Event::Done), Action::Poll));
    assert!(matches!(
        go(&mut o, &mut s, polled(Received::Got(WlOverlayCmd::Remove))),
        Action::Hide
    ));
    assert!(matches!(go(&mut o, &mut s, Event::Done), Action::Poll));
    assert!(matches!(go(&mut o, &mut s, polled(Received::Empty)), Action::Clock));
    let tick = go(&mut o, &mut s, Event::Elapsed(16_000_000));
    assert!(matches!(tick, Action::Tick { nanos: 16_000_000 }));
    assert!(matches!(go(&mut o, &mut s, Event::Ticked(STILL)), Action::Redraw));
    assert!(matches!(go(&mut o, &mut s, Event::Failed), Action::Pump));
    assert!(matches!(go(&mut o, &mut s, Event::Done), Action::Measure));
    let rest = go(&mut o, &mut s, Event::Elapsed(4_000_000));
    assert!(matches!(rest, Action::Sleep { nanos: 12_000_000 }));
    assert!(matches!(go(&mut o, &mut s, Event::Done), Action::Poll));
    let down = go(&mut o, &mut s, polled(Received::Got(WlOverlayCmd::Shutdown)));
    assert_eq!(down, Action::DestroyLayerSurface);
    assert!(s.surface && !s.layer_surface);
    assert_eq!(go(&mut o, &mut s, Event::Done), Action::DestroySurface);
    assert!(!s.surface && !s.layer_surface);
    assert!(matches!(go(&mut o, &mut s, Event::Done), Action::Roundtrip));
    assert!(matches!(go(&mut o, &mut s, Event::Done), Action::Exit(Ok(()))));
    assert_eq!(o.phase, Phase::Stopped);
    assert!(!o.awaits(&Event::Done));
}

fn setup_error(s: &mut OverlayState) -> SetupError {
    let (mut o, _): (Owner, Action) = Owner::start();
    let mut sleeps = 0;
    let mut roundtrips = 1;
    loop {
        match go(&mut o, s, Event::Done) {
            Action::Sleep { nanos } => {
                assert_eq!(nanos, 50_000_000);
                sleeps += 1;
            }
            Action::Roundtrip => roundtrips += 1,
            Action::Build { .. } => {}
            Action::Exit(Err(OwnerError::Setup(error))) => {
                if sleeps > 0 {
                    assert_eq!((sleeps, roundtrips), (10, 14));
                } else {
                    assert_eq!(roundtrips, 4);
                }
                return error;
            }
            other => panic!("{other:?}"),
        }
    }
}

#[test]
fn setup_errors_in_order() {
    let mut s = OverlayState::default();
    assert_eq!(setup_error(&mut s), SetupError::NoCompositor);
    s.on_global(1, "wl_compositor", 1);
    assert_eq!(setup_error(&mut s), SetupError::NoShm);
    s.on_global(1, "wl_shm", 1);
    assert_eq!(setup_error(&mut s), SetupError::NoLayerShell);
    s.on_global(1, "zwlr_layer_shell_v1", 1);
    assert_eq!(setup_error(&mut s), SetupError::NoOutput);
    s.on_global(1, "wl_output", 1);
    assert_eq!(setup_error(&mut s), SetupError::NeverConfigured);
    s.on_configure(70, 0);
    assert_eq!(
        setup_error(&mut s),
        SetupError::NoUsableSize { surface_w: 70, surface_h: 0, mode_w: 0, mode_h: 0 }
    );
}

#[test]
fn late_configure_is_waited_for() {
    let mut s = ready();
    s.configured = false;
    let mut o = at(Phase::Configure { left: 1 });
    assert!(matches!(go(&mut o, &mut s, Event::Done), Action::Sleep { nanos: 50_000_000 }));
    assert!(matches!(go(&mut o, &mut s, Event::Done), Action::Roundtrip));
    s.on_configure(0, 0);
    assert!(matches!(go(&mut o, &mut s, Event::Done), Action::Redraw));
    assert_eq!(o.phase, Phase::FirstFrame);
}

#[test]
fn failures_in_the_setup_stop_the_owner() {
    for phase in [
        Phase::Discover { left: 2 },
        Phase::Configure { left: 2 },
        Phase::FirstFrame,
        Phase::FirstFlush,
        Phase::LastFlush,
    ] {
        let mut o = at(phase);
        let mut s = ready();
        let r = go(&mut o, &mut s, Event::Failed);
        assert!(matches!(r, Action::Exit(Err(OwnerError::Action))));
        assert_eq!(o.phase, Phase::Stopped);
    }
}

#[test]
fn failures_in_the_loop_do_not_stop_the_owner() {
    for phase in [
        Phase::Draw,
        Phase::Relieve { had_cmd: false },
        Phase::RelieveAgain { had_cmd: false },
        Phase::Relieve { had_cmd: true },
        Phase::RelieveAgain { had_cmd: true },
    ] {
        let mut o = at(phase);
        let mut s = ready();
        assert!(matches!(go(&mut o, &mut s, Event::Failed), Action::Pump | Action::Redraw));
    }
}

#[test]
fn cursor_off_the_screen_is_seeded() {
    for (kind, offscreen, expected) in [
        (CommandKind::MoveTo, true, true),
        (CommandKind::SnapTo, true, true),
        (CommandKind::ClickPulse, true, true),
        (CommandKind::MoveTo, false, false),
        (CommandKind::Other, true, false),
        (CommandKind::ShowFocusRect, true, false),
    ] {
        let mut o = at(Phase::Drain { had_cmd: false });
        let mut s = ready();
        let cmd = WlOverlayCmd::Cmd { cmd: OverlayCommand { kind, payload: 4 } };
        let event = Event::Polled { received: Received::Got(cmd), offscreen };
        match go(&mut o, &mut s, event) {
            Action::Apply { cmd, seed } => {
                assert_eq!((cmd.kind, cmd.payload, seed), (kind, 4, expected));
            }
            other => panic!("{other:?}"),
        }
        assert!(matches!(go(&mut o, &mut s, Event::Done), Action::Poll));
        assert_eq!(o.phase, Phase::Drain { had_cmd: true });
        assert!(matches!(go(&mut o, &mut s, polled(Received::Empty)), Action::Clock));
        assert_eq!(o.phase, Phase::Clock { had_cmd: true });
        assert!(matches!(go(&mut o, &mut s, Event::Elapsed(1)), Action::Tick { nanos: 1 }));
        assert_eq!(o.phase, Phase::Animate { had_cmd: true });
    }
}

#[test]
fn lost_senders_end_the_loop() {
    let mut o = at(Phase::Drain { had_cmd: true });
    let mut s = ready();
    let r = go(&mut o, &mut s, polled(Received::Disconnected));
    assert_eq!(r, Action::Roundtrip);
    assert_eq!(o.phase, Phase::LastFlush);
    s.surface = true;
    let mut o = at(Phase::Drain { had_cmd: true });
    assert_eq!(go(&mut o, &mut s, polled(Received::Disconnected)), Action::DestroySurface);
    assert_eq!(go(&mut o, &mut s, Event::Done), Action::Roundtrip);
}

#[test]
fn frames_are_drawn_only_when_something_changed() {
    let mut s = ready();
    let mut o = at(Phase::Animate { had_cmd: false });
    assert!(matches!(go(&mut o, &mut s, Event::Ticked(STILL)), Action::Pump));
    let moving = [
        Motion { arrived: true, ..STILL },
        Motion { path: true, ..STILL },
        Motion { spring: true, ..STILL },
        Motion { click: true, ..STILL },
        Motion { fading: true, ..STILL },
    ];
    for motion in moving {
        assert!(motion.moves());
        let mut o = at(Phase::Animate { had_cmd: false });
        assert!(matches!(go(&mut o, &mut s, Event::Ticked(motion)), Action::Redraw));
        s.configured = false;
        let mut o = at(Phase::Animate { had_cmd: true });
        assert!(matches!(go(&mut o, &mut s, Event::Ticked(motion)), Action::Pump));
        s.configured = true;
    }
}

#[test]
fn released_current_buffer_is_redrawn() {
    let mut s = ready();
    s.attach(8, BUFFER);
    let mut o = at(Phase::Animate { had_cmd: false });
    assert!(matches!(go(&mut o, &mut s, Event::Ticked(STILL)), Action::Pump));
    s.on_release(8);
    let mut o = at(Phase::Animate { had_cmd: false });
    assert!(matches!(go(&mut o, &mut s, Event::Ticked(STILL)), Action::Redraw));
}

fn congested() -> OverlayState {
    let mut s = ready();
    for id in [1, 2, 3] {
        s.attach(id, BUFFER);
    }
    s
}

#[test]
fn congestion_skips_frames_without_a_command() {
    let mut s = congested();
    let motion = Motion { path: true, ..STILL };
    let mut o = at(Phase::Animate { had_cmd: false });
    assert!(matches!(go(&mut o, &mut s, Event::Ticked(motion)), Action::Relieve));
    let pause = go(&mut o, &mut s, Event::Done);
    assert!(matches!(pause, Action::Sleep { nanos: 1_000_000 }));
    assert!(matches!(go(&mut o, &mut s, Event::Done), Action::Relieve));
    assert!(matches!(go(&mut o, &mut s, Event::Done), Action::Pump));
}

#[test]
fn congestion_never_skips_a_command() {
    let mut s = congested();
    let mut o = at(Phase::Animate { had_cmd: true });
    assert!(matches!(go(&mut o, &mut s, Event::Ticked(STILL)), Action::Relieve));
    assert!(matches!(go(&mut o, &mut s, Event::Done), Action::Sleep { .. }));
    assert!(matches!(go(&mut o, &mut s, Event::Done), Action::Relieve));
    assert!(matches!(go(&mut o, &mut s, Event::Done), Action::Redraw));
    let mut o = at(Phase::Relieve { had_cmd: true });
    assert!(matches!(go(&mut o, &mut s, Event::Failed), Action::Redraw));
}

#[test]
fn relieved_congestion_draws_at_once() {
    let mut s = congested();
    let mut o = at(Phase::Relieve { had_cmd: false });
    s.on_release(1);
    assert!(matches!(go(&mut o, &mut s, Event::Done), Action::Redraw));
    s.attach(9, BUFFER);
    assert_eq!(s.pending(), 3);
    let mut o = at(Phase::RelieveAgain { had_cmd: false });
    s.on_release(2);
    assert!(matches!(go(&mut o, &mut s, Event::Done), Action::Redraw));
}

#[test]
fn frames_are_paced() {
    let mut s = ready();
    for (elapsed, rest) in [(0u64, 16_000_000u64), (15_999_999, 1)] {
        let mut o = at(Phase::Measure);
        match go(&mut o, &mut s, Event::Elapsed(elapsed)) {
            Action::Sleep { nanos } => assert_eq!(nanos, rest),
            other => panic!("{other:?}"),
        }
    }
    for elapsed in [16_000_000u64, u64::MAX] {
        let mut o = at(Phase::Measure);
        assert!(matches!(go(&mut o, &mut s, Event::Elapsed(elapsed)), Action::Poll));
    }
}

#[test]
fn ticks_are_limited() {
    assert_eq!(tick_nanos(0), 0);
    assert_eq!(tick_nanos(16_000_000), 16_000_000);
    assert_eq!(tick_nanos(50_000_000), 50_000_000);
    assert_eq!(tick_nanos(60_000_000_000), 50_000_000);
    let clamped = std::time::Duration::from_nanos(tick_nanos(u64::MAX)).as_secs_f64();
    assert_eq!(clamped, 0.05);
}

#[test]
fn events_out_of_turn_are_recognised() {
    let o = at(Phase::Drain { had_cmd: false });
    assert!(!o.awaits(&Event::Done));
    assert!(!o.awaits(&Event::Ticked(STILL)));
    assert!(o.awaits(&polled(Received::Empty)));
    assert!(!at(Phase::Build { viewport: true, fractional: true }).awaits(&Event::Failed));
    assert!(!at(Phase::Measure).awaits(&Event::Done));
    assert!(!at(Phase::Clock { had_cmd: true }).awaits(&Event::Ticked(STILL)));
    assert!(at(Phase::Clock { had_cmd: true }).awaits(&Event::Elapsed(3)));
    assert!(at(Phase::Measure).awaits(&Event::Elapsed(3)));
}

#[test]
fn each_turn_ticks_once_by_a_limited_time() {
    for (elapsed, expected) in [
        (0u64, 0u64),
        (16_000_000, 16_000_000),
        (49_999_999, 49_999_999),
        (50_000_000, 50_000_000),
        (50_000_001, 50_000_000),
        (u64::MAX, 50_000_000),
    ] {
        let mut s = ready();
        let mut o = at(Phase::Drain { had_cmd: false });
        let mut ticks = 0;
        assert!(matches!(go(&mut o, &mut s, polled(Received::Empty)), Action::Clock));
        let mut action = go(&mut o, &mut s, Event::Elapsed(elapsed));
        loop {
            let event = match action {
                Action::Tick { nanos } => {
                    assert_eq!(nanos, expected);
                    ticks += 1;
                    Event::Ticked(Motion { path: true, ..STILL })
                }
                Action::Redraw => {
                    assert_eq!(ticks, 1);
                    Event::Done
                }
                Action::Pump | Action::Sleep { .. } => Event::Done,
                Action::Measure => Event::Elapsed(1),
                Action::Poll => break,
                other => panic!("{other:?}"),
            };
            action = go(&mut o, &mut s, event);
        }
        assert_eq!(ticks, 1);
    }
}

#[test]
fn commands_are_carried_out_up_to_the_shutdown() {
    let mut slot = None;
    let mut rx = ensure_started(&mut slot).unwrap();
    for payload in [5, 6] {
        let cmd = OverlayCommand { kind: CommandKind::MoveTo, payload };
        assert!(forward(&mut slot, &OverlayMsg::Cmd(cmd)).accepted());
    }
    assert!(forward(&mut slot, &OverlayMsg::Remove).accepted());
    assert!(matches!(shutdown(&mut slot), Some(Delivery::Queued)));
    let late = OverlayCommand { kind: CommandKind::MoveTo, payload: 7 };
    assert!(forward(&mut slot, &OverlayMsg::Cmd(late)).accepted());

    let mut s = ready();
    s.surface = true;
    s.layer_surface = true;
    let mut o = at(Phase::Drain { had_cmd: false });
    let mut carried_out = Vec::new();
    loop {
        match o.poll(&mut s, &mut rx, true) {
            Action::Apply { cmd, seed } => {
                assert!(seed);
                carried_out.push(Some(cmd.payload));
            }
            Action::Hide => carried_out.push(None),
            Action::DestroyLayerSurface => break,
            other => panic!("{other:?}"),
        }
        assert!(matches!(go(&mut o, &mut s, Event::Done), Action::Poll));
    }
    assert_eq!(carried_out, vec![Some(5), Some(6), None]);
    assert_eq!(go(&mut o, &mut s, Event::Done), Action::DestroySurface);
    assert!(!s.surface && !s.layer_surface);
    assert!(matches!(go(&mut o, &mut s, Event::Done), Action::Roundtrip));
    assert!(matches!(go(&mut o, &mut s, Event::Done), Action::Exit(Ok(()))));
    match rx.poll() {
        Received::Got(WlOverlayCmd::Cmd { cmd }) => assert_eq!(cmd.payload, 7),
        other => panic!("{other:?}"),
    }
}

#[test]
fn looks_step_the_owner() {
    let mut slot = None;
    let mut rx = ensure_started(&mut slot).unwrap();
    let mut s = ready();
    let mut o = at(Phase::Drain { had_cmd: true });
    let empty: Action = o.poll(&mut s, &mut rx, false);
    assert!(matches!(empty, Action::Clock));
    assert_eq!(o.phase, Phase::Clock { had_cmd: true });
    drop(slot);
    let mut o = at(Phase::Drain { had_cmd: false });
    s.layer_surface = true;
    assert_eq!(o.poll(&mut s, &mut rx, false), Action::DestroyLayerSurface);
    assert_eq!(o.phase, Phase::CloseLayer);
}

#[test]
fn lost_senders_leave_no_command_behind() {
    let mut slot = None;
    let mut rx = ensure_started(&mut slot).unwrap();
    let mut second = Some(slot.as_ref().unwrap().handle());
    let first = OverlayCommand { kind: CommandKind::MoveTo, payload: 1 };
    let last = OverlayCommand { kind: CommandKind::Other, payload: 2 };
    assert!(forward(&mut slot, &OverlayMsg::Cmd(first)).accepted());
    assert!(forward(&mut second, &OverlayMsg::Cmd(last)).accepted());
    drop(slot);
    drop(second);
    let mut s = ready();
    let mut o = at(Phase::Drain { had_cmd: false });
    assert_eq!(o.poll(&mut s, &mut rx, false), Action::Apply { cmd: first, seed: false });
    assert_eq!(go(&mut o, &mut s, Event::Done), Action::Poll);
    assert_eq!(o.poll(&mut s, &mut rx, false), Action::Apply { cmd: last, seed: false });
    assert_eq!(go(&mut o, &mut s, Event::Done), Action::Poll);
    assert_eq!(o.poll(&mut s, &mut rx, false), Action::Roundtrip);
    assert_eq!(o.phase, Phase::LastFlush);
}
