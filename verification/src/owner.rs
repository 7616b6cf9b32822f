//! The owner of the overlay: one loop that sets the surface up, drains the
//! command queue, animates, draws, and tears the surface down.
//!
//! [`Owner::step`] takes what came of the last action and says what to do
//! next. Performing the action (talking to the compositor, sleeping, ticking
//! the render core) is left to the caller.

use vstd::prelude::*;

use crate::channel::{
    CommandReceiver, CommandSender, OverlayCommand, Received, WlOverlayCmd,
};
use crate::error::SetupError;
use crate::redraw::logical_surface_size;
use crate::state::{Global, MappedBuffer, OverlayState, OverlayView};

verus! {

/// Round trips after the first one, in which the compositor announces its
/// globals and these report their state.
pub const EXTRA_ROUNDTRIPS: u32 = 3;

/// How often the owner looks for the first configure event.
pub const CONFIGURE_ATTEMPTS: u32 = 10;

/// The pause between two looks for the first configure event: 50 ms.
pub const CONFIGURE_PAUSE_NANOS: u64 = 50_000_000;

/// How many unreleased buffers hold back a frame that carries no command.
pub const MAX_PENDING: usize = 3;

/// The pause before the second attempt to get buffers back: 1 ms.
pub const RELEASE_PAUSE_NANOS: u64 = 1_000_000;

/// The length of a frame: 16 ms.
pub const FRAME_NANOS: u64 = 16_000_000;

/// The longest time by which the animation advances at once: 50 ms.
pub const MAX_TICK_NANOS: u64 = 50_000_000;

/// What the render core reports after a tick.
#[derive(Clone, Copy, Debug, PartialEq, Eq, Structural)]
pub struct Motion {
    /// The cursor arrived at its target.
    pub arrived: bool,
    /// The cursor follows a path.
    pub path: bool,
    /// The cursor swings on its spring.
    pub spring: bool,
    /// A click pulse is running.
    pub click: bool,
    /// The cursor is not fully opaque.
    pub fading: bool,
}

/// What the owner waits for.
#[derive(Clone, Copy, Debug, PartialEq, Eq, Structural)]
pub enum Phase {
    /// A round trip for globals, with `left` more to come.
    Discover { left: u32 },
    /// The surface being built.
    Build { viewport: bool, fractional: bool },
    /// A round trip for the configure event, with `left` more attempts.
    Configure { left: u32 },
    /// The pause after such a round trip.
    Settle { left: u32 },
    /// The first frame.
    FirstFrame,
    /// The round trip after the first frame.
    FirstFlush,
    /// A look into the queue.
    Drain { had_cmd: bool },
    /// A command being applied.
    Apply,
    /// The time since the last tick.
    Clock { had_cmd: bool },
    /// A tick of the render core.
    Animate { had_cmd: bool },
    /// Events being read, so that buffers come back.
    Relieve { had_cmd: bool },
    /// The pause before events are read once more.
    Yield { had_cmd: bool },
    /// Events being read once more.
    RelieveAgain { had_cmd: bool },
    /// A frame.
    Draw,
    /// Events being read at the end of a tick.
    Pump,
    /// The time since the tick began.
    Measure,
    /// The rest of the frame's time.
    Rest,
    /// The layer surface being destroyed.
    CloseLayer,
    /// The surface being destroyed.
    CloseSurface,
    /// The round trip after that.
    LastFlush,
    /// Nothing: the owner has stopped.
    Stopped,
}

/// What came of an action.
#[derive(Clone, Copy, Debug, PartialEq, Eq, Structural)]
pub enum Event {
    Done,
    Failed,
    /// What a look into the queue brought, and whether the cursor is still off
    /// the screen, where it starts.
    Polled { received: Received, offscreen: bool },
    Ticked(Motion),
    /// The nanoseconds that were asked for.
    Elapsed(u64),
}

/// Why the owner stopped.
#[derive(Clone, Copy, Debug, PartialEq, Eq, Structural)]
pub enum OwnerError {
    Setup(SetupError),
    /// The last action failed.
    Action,
}

/// What to do next.
#[derive(Clone, Copy, Debug, PartialEq, Eq)]
pub enum Action {
    /// Make a round trip to the compositor.
    Roundtrip,
    /// Build the layer surface, with the optional objects asked for.
    Build { viewport: bool, fractional: bool },
    Sleep { nanos: u64 },
    /// Draw and commit a frame.
    Redraw,
    /// Look into the queue.
    Poll,
    /// Apply a command, after moving the cursor near its target if `seed`.
    Apply { cmd: OverlayCommand, seed: bool },
    /// Hide the cursor.
    Hide,
    /// Take the time since the last tick began, and begin the next one.
    Clock,
    /// Advance the animation by this time.
    Tick { nanos: u64 },
    /// Read events without waiting, and dispatch them in any case.
    Relieve,
    /// Read events without waiting, and dispatch what was read.
    Pump,
    /// Take the time since the tick began.
    Measure,
    /// Destroy the layer surface.
    DestroyLayerSurface,
    /// Destroy the surface.
    DestroySurface,
    Exit(Result<(), OwnerError>),
}

/// The first global that the overlay needs and does not have.
pub open spec fn missing(state: OverlayView) -> Option<SetupError> {
    if !state.compositor {
        Some(SetupError::NoCompositor)
    } else if !state.shm {
        Some(SetupError::NoShm)
    } else if !state.layer_shell {
        Some(SetupError::NoLayerShell)
    } else if !state.output {
        Some(SetupError::NoOutput)
    } else {
        None
    }
}

/// What keeps the surface from being drawn on.
pub open spec fn unusable(state: OverlayView) -> Option<SetupError> {
    if !state.configured {
        Some(SetupError::NeverConfigured)
    } else if !state.has_size() {
        Some(
            SetupError::NoUsableSize {
                surface_w: state.surface_w,
                surface_h: state.surface_h,
                mode_w: state.mode_w,
                mode_h: state.mode_h,
            },
        )
    } else {
        None
    }
}

impl Motion {
    /// Whether the cursor can look different from the last frame.
    pub open spec fn spec_moves(self) -> bool {
        self.arrived || self.path || self.spring || self.click || self.fading
    }

    /// Whether the cursor can look different from the last frame.
    #[verifier::when_used_as_spec(spec_moves)]
    pub fn moves(self) -> (r: bool)
        ensures
            r == self.spec_moves(),
    {
        self.arrived || self.path || self.spring || self.click || self.fading
    }
}

/// Whether a tick ends with a frame: the surface is configured, and pixels can
/// have changed or the surface has lost its buffer.
pub open spec fn wants_frame(state: OverlayView, motion: Motion, had_cmd: bool) -> bool {
    state.configured && (motion.spec_moves() || had_cmd || state.needs_reattach)
}

/// Whether the compositor holds as many buffers as a frame may wait for.
pub open spec fn is_congested(state: OverlayView) -> bool {
    state.pending_buffers.len() >= MAX_PENDING
}

/// The end of a round trip, or of a frame, that must not fail.
pub open spec fn checked(event: Event, next: (Phase, Action)) -> (Phase, Action) {
    if event is Failed {
        (Phase::Stopped, Action::Exit(Err(OwnerError::Action)))
    } else {
        next
    }
}

/// The start of the loop's next turn.
pub open spec fn next_turn() -> (Phase, Action) {
    (Phase::Drain { had_cmd: false }, Action::Poll)
}

/// The first frame, where the surface can be drawn on.
pub open spec fn first_frame(state: OverlayView) -> (Phase, Action) {
    match unusable(state) {
        Some(error) => (Phase::Stopped, Action::Exit(Err(OwnerError::Setup(error)))),
        None => (Phase::FirstFrame, Action::Redraw),
    }
}

/// A frame, unless the compositor is congested and no command asks for it.
pub open spec fn draw_or_skip(state: OverlayView, had_cmd: bool) -> (Phase, Action) {
    if !is_congested(state) || had_cmd {
        (Phase::Draw, Action::Redraw)
    } else {
        (Phase::Pump, Action::Pump)
    }
}

/// The end of the surface, where there is one, and then the last round trip.
pub open spec fn close_surface(state: OverlayView) -> (Phase, Action) {
    if state.surface {
        (Phase::CloseSurface, Action::DestroySurface)
    } else {
        (Phase::LastFlush, Action::Roundtrip)
    }
}

/// The end of the loop: the layer surface goes first, where there is one.
pub open spec fn close(state: OverlayView) -> (Phase, Action) {
    if state.layer_surface {
        (Phase::CloseLayer, Action::DestroyLayerSurface)
    } else {
        close_surface(state)
    }
}

/// What follows a look into the queue.
pub open spec fn after_poll(
    state: OverlayView,
    had_cmd: bool,
    received: Received,
    offscreen: bool,
) -> (Phase, Action) {
    match received {
        Received::Got(WlOverlayCmd::Shutdown) | Received::Disconnected => close(state),
        Received::Got(WlOverlayCmd::Cmd { cmd }) => (
            Phase::Apply,
            Action::Apply { cmd, seed: cmd.kind.spec_has_target() && offscreen },
        ),
        Received::Got(WlOverlayCmd::Remove) => (Phase::Apply, Action::Hide),
        Received::Empty => (Phase::Clock { had_cmd }, Action::Clock),
    }
}

/// The time by which the animation advances, given the time since the last
/// tick, in nanoseconds.
pub open spec fn tick_time(elapsed: u64) -> u64 {
    if elapsed < MAX_TICK_NANOS {
        elapsed
    } else {
        MAX_TICK_NANOS
    }
}

/// What the owner waits for next, and what it does, once `event` came of its
/// last action.
pub open spec fn transition(phase: Phase, state: OverlayView, event: Event) -> (
    Phase,
    Action,
) {
    match phase {
        Phase::Discover { left } => checked(
            event,
            if left > 0 {
                (Phase::Discover { left: (left - 1) as u32 }, Action::Roundtrip)
            } else {
                match missing(state) {
                    Some(error) => (
                        Phase::Stopped,
                        Action::Exit(Err(OwnerError::Setup(error))),
                    ),
                    None => (
                        Phase::Build {
                            viewport: state.viewporter,
                            fractional: state.fractional_mgr,
                        },
                        Action::Build {
                            viewport: state.viewporter,
                            fractional: state.fractional_mgr,
                        },
                    ),
                }
            },
        ),
        Phase::Build { viewport, fractional } => (
            Phase::Configure { left: (CONFIGURE_ATTEMPTS - 1) as u32 },
            Action::Roundtrip,
        ),
        Phase::Configure { left } => checked(
            event,
            if unusable(state) is None {
                (Phase::FirstFrame, Action::Redraw)
            } else {
                (Phase::Settle { left }, Action::Sleep { nanos: CONFIGURE_PAUSE_NANOS })
            },
        ),
        Phase::Settle { left } => if left > 0 {
            (Phase::Configure { left: (left - 1) as u32 }, Action::Roundtrip)
        } else {
            first_frame(state)
        },
        Phase::FirstFrame => checked(event, (Phase::FirstFlush, Action::Roundtrip)),
        Phase::FirstFlush => checked(event, next_turn()),
        Phase::Drain { had_cmd } => match event {
            Event::Polled { received, offscreen } => after_poll(
                state,
                had_cmd,
                received,
                offscreen,
            ),
            _ => arbitrary(),
        },
        Phase::Apply => (Phase::Drain { had_cmd: true }, Action::Poll),
        Phase::Clock { had_cmd } => match event {
            Event::Elapsed(elapsed) => (
                Phase::Animate { had_cmd },
                Action::Tick { nanos: tick_time(elapsed) },
            ),
            _ => arbitrary(),
        },
        Phase::Animate { had_cmd } => match event {
            Event::Ticked(motion) => if !wants_frame(state, motion, had_cmd) {
                (Phase::Pump, Action::Pump)
            } else if is_congested(state) {
                (Phase::Relieve { had_cmd }, Action::Relieve)
            } else {
                (Phase::Draw, Action::Redraw)
            },
            _ => arbitrary(),
        },
        Phase::Relieve { had_cmd } => if event is Done && is_congested(state) {
            (Phase::Yield { had_cmd }, Action::Sleep { nanos: RELEASE_PAUSE_NANOS })
        } else {
            draw_or_skip(state, had_cmd)
        },
        Phase::Yield { had_cmd } => (Phase::RelieveAgain { had_cmd }, Action::Relieve),
        Phase::RelieveAgain { had_cmd } => draw_or_skip(state, had_cmd),
        Phase::Draw => (Phase::Pump, Action::Pump),
        Phase::Pump => (Phase::Measure, Action::Measure),
        Phase::Measure => match event {
            Event::Elapsed(nanos) => if nanos < FRAME_NANOS {
                (Phase::Rest, Action::Sleep { nanos: (FRAME_NANOS - nanos) as u64 })
            } else {
                next_turn()
            },
            _ => arbitrary(),
        },
        Phase::Rest => next_turn(),
        Phase::CloseLayer => close_surface(state),
        Phase::CloseSurface => (Phase::LastFlush, Action::Roundtrip),
        Phase::LastFlush => checked(event, (Phase::Stopped, Action::Exit(Ok(())))),
        Phase::Stopped => arbitrary(),
    }
}

impl Phase {
    /// Whether `event` can come of the action that the phase waits for.
    pub open spec fn accepts(self, event: Event) -> bool {
        match self {
            Phase::Discover { .. }
            | Phase::Configure { .. }
            | Phase::FirstFrame
            | Phase::FirstFlush
            | Phase::Relieve { .. }
            | Phase::RelieveAgain { .. }
            | Phase::Draw
            | Phase::LastFlush => event is Done || event is Failed,
            Phase::Build { .. }
            | Phase::Settle { .. }
            | Phase::Apply
            | Phase::Yield { .. }
            | Phase::Pump
            | Phase::Rest
            | Phase::CloseLayer
            | Phase::CloseSurface => event is Done,
            Phase::Drain { .. } => event is Polled,
            Phase::Animate { .. } => event is Ticked,
            Phase::Clock { .. } | Phase::Measure => event is Elapsed,
            Phase::Stopped => false,
        }
    }
}

/// What a step from one phase to the next does to the state: once the surface
/// is built its objects exist, and once one is to be destroyed it does not.
pub open spec fn settled_between(phase: Phase, next: Phase, state: OverlayView) -> OverlayView {
    match (phase, next) {
        (Phase::Build { viewport, fractional }, _) => OverlayView {
            surface: true,
            layer_surface: true,
            viewport,
            fractional,
            ..state
        },
        (_, Phase::CloseLayer) => OverlayView { layer_surface: false, ..state },
        (_, Phase::CloseSurface) => OverlayView { surface: false, ..state },
        _ => state,
    }
}

/// What the step that takes `event` does to the state.
pub open spec fn settled(phase: Phase, state: OverlayView, event: Event) -> OverlayView {
    settled_between(phase, transition(phase, state, event).0, state)
}

/// The owner's place in its loop.
#[derive(Clone, Copy, Debug, PartialEq, Eq, Structural)]
pub struct Owner {
    pub phase: Phase,
}

/// The first global that the overlay needs and does not have.
fn find_missing(state: &OverlayState) -> (r: Option<SetupError>)
    ensures
        r == missing(state@),
{
    if !state.compositor {
        Some(SetupError::NoCompositor)
    } else if !state.shm {
        Some(SetupError::NoShm)
    } else if !state.layer_shell {
        Some(SetupError::NoLayerShell)
    } else if !state.output {
        Some(SetupError::NoOutput)
    } else {
        None
    }
}

/// What keeps the surface from being drawn on.
fn find_unusable(state: &OverlayState) -> (r: Option<SetupError>)
    requires
        state@.wf(),
    ensures
        r == unusable(state@),
{
    if !state.configured {
        return Some(SetupError::NeverConfigured);
    }
    let (lw, lh): (u32, u32) = logical_surface_size(state);
    if lw == 0 || lh == 0 {
        return Some(
            SetupError::NoUsableSize {
                surface_w: state.surface_w,
                surface_h: state.surface_h,
                mode_w: state.mode_w,
                mode_h: state.mode_h,
            },
        );
    }
    None
}

/// The time by which the animation advances, given the time since the last
/// tick, in nanoseconds.
pub fn tick_nanos(elapsed: u64) -> (r: u64)
    ensures
        r == tick_time(elapsed),
{
    if elapsed < MAX_TICK_NANOS {
        elapsed
    } else {
        MAX_TICK_NANOS
    }
}

impl Owner {
    /// An owner that makes its first round trip.
    pub fn start() -> (r: (Owner, Action))
        ensures
            r.0.phase == (Phase::Discover { left: EXTRA_ROUNDTRIPS }),
            r.1 == Action::Roundtrip,
    {
        (Owner { phase: Phase::Discover { left: EXTRA_ROUNDTRIPS } }, Action::Roundtrip)
    }

    /// Whether `event` can come of the action that the owner waits for.
    pub fn awaits(&self, event: &Event) -> (r: bool)
        ensures
            r == self.phase.accepts(*event),
    {
        let done: bool = matches!(event, Event::Done);
        let failed: bool = matches!(event, Event::Failed);
        match self.phase {
            Phase::Discover { .. }
            | Phase::Configure { .. }
            | Phase::FirstFrame
            | Phase::FirstFlush
            | Phase::Relieve { .. }
            | Phase::RelieveAgain { .. }
            | Phase::Draw
            | Phase::LastFlush => done || failed,
            Phase::Build { .. }
            | Phase::Settle { .. }
            | Phase::Apply
            | Phase::Yield { .. }
            | Phase::Pump
            | Phase::Rest
            | Phase::CloseLayer
            | Phase::CloseSurface => done,
            Phase::Drain { .. } => matches!(event, Event::Polled { .. }),
            Phase::Animate { .. } => matches!(event, Event::Ticked(_)),
            Phase::Clock { .. } | Phase::Measure => matches!(event, Event::Elapsed(_)),
            Phase::Stopped => false,
        }
    }

    /// What the owner waits for next, and what it does.
    fn decide(phase: Phase, state: &OverlayState, event: Event) -> (r: (Phase, Action))
        requires
            state@.wf(),
            phase.accepts(event),
        ensures
            r == transition(phase, state@, event),
    {
        let failed: bool = matches!(event, Event::Failed);
        match phase {
            Phase::Discover { left } => {
                if failed {
                    (Phase::Stopped, Action::Exit(Err(OwnerError::Action)))
                } else if left > 0 {
                    (Phase::Discover { left: left - 1 }, Action::Roundtrip)
                } else {
                    match find_missing(state) {
                        Some(error) => (
                            Phase::Stopped,
                            Action::Exit(Err(OwnerError::Setup(error))),
                        ),
                        None => {
                            let viewport: bool = state.viewporter;
                            let fractional: bool = state.fractional_mgr;
                            (
                                Phase::Build { viewport, fractional },
                                Action::Build { viewport, fractional },
                            )
                        },
                    }
                }
            },
            Phase::Build { .. } => (
                Phase::Configure { left: CONFIGURE_ATTEMPTS - 1 },
                Action::Roundtrip,
            ),
            Phase::Configure { left } => {
                if failed {
                    (Phase::Stopped, Action::Exit(Err(OwnerError::Action)))
                } else {
                    match find_unusable(state) {
                        None => (Phase::FirstFrame, Action::Redraw),
                        Some(_) => (
                            Phase::Settle { left },
                            Action::Sleep { nanos: CONFIGURE_PAUSE_NANOS },
                        ),
                    }
                }
            },
            Phase::Settle { left } => {
                if left > 0 {
                    (Phase::Configure { left: left - 1 }, Action::Roundtrip)
                } else {
                    match find_unusable(state) {
                        Some(error) => (
                            Phase::Stopped,
                            Action::Exit(Err(OwnerError::Setup(error))),
                        ),
                        None => (Phase::FirstFrame, Action::Redraw),
                    }
                }
            },
            Phase::FirstFrame => {
                if failed {
                    (Phase::Stopped, Action::Exit(Err(OwnerError::Action)))
                } else {
                    (Phase::FirstFlush, Action::Roundtrip)
                }
            },
            Phase::FirstFlush => {
                if failed {
                    (Phase::Stopped, Action::Exit(Err(OwnerError::Action)))
                } else {
                    (Phase::Drain { had_cmd: false }, Action::Poll)
                }
            },
            Phase::Drain { had_cmd } => match event {
                Event::Polled { received, offscreen } => Self::take_polled(
                    state,
                    had_cmd,
                    received,
                    offscreen,
                ),
                _ => (Phase::Drain { had_cmd }, Action::Poll),
            },
            Phase::Apply => (Phase::Drain { had_cmd: true }, Action::Poll),
            Phase::Clock { had_cmd } => {
                let elapsed: u64 = match event {
                    Event::Elapsed(elapsed) => elapsed,
                    _ => 0,
                };
                (Phase::Animate { had_cmd }, Action::Tick { nanos: tick_nanos(elapsed) })
            },
            Phase::Animate { had_cmd } => {
                let motion: Motion = match event {
                    Event::Ticked(motion) => motion,
                    _ => Motion {
                        arrived: false,
                        path: false,
                        spring: false,
                        click: false,
                        fading: false,
                    },
                };
                if !(state.configured && (motion.moves() || had_cmd || state.needs_reattach)) {
                    (Phase::Pump, Action::Pump)
                } else if state.pending() >= MAX_PENDING {
                    (Phase::Relieve { had_cmd }, Action::Relieve)
                } else {
                    (Phase::Draw, Action::Redraw)
                }
            },
            Phase::Relieve { had_cmd } => {
                if !failed && state.pending() >= MAX_PENDING {
                    (Phase::Yield { had_cmd }, Action::Sleep { nanos: RELEASE_PAUSE_NANOS })
                } else {
                    Self::draw_unless_congested(state, had_cmd)
                }
            },
            Phase::Yield { had_cmd } => (Phase::RelieveAgain { had_cmd }, Action::Relieve),
            Phase::RelieveAgain { had_cmd } => Self::draw_unless_congested(state, had_cmd),
            Phase::Draw => (Phase::Pump, Action::Pump),
            Phase::Pump => (Phase::Measure, Action::Measure),
            Phase::Measure => {
                let nanos: u64 = match event {
                    Event::Elapsed(nanos) => nanos,
                    _ => 0,
                };
                if nanos < FRAME_NANOS {
                    (Phase::Rest, Action::Sleep { nanos: FRAME_NANOS - nanos })
                } else {
                    (Phase::Drain { had_cmd: false }, Action::Poll)
                }
            },
            Phase::Rest => (Phase::Drain { had_cmd: false }, Action::Poll),
            Phase::CloseLayer => Self::close_surface_of(state),
            Phase::CloseSurface => (Phase::LastFlush, Action::Roundtrip),
            Phase::LastFlush => {
                if failed {
                    (Phase::Stopped, Action::Exit(Err(OwnerError::Action)))
                } else {
                    (Phase::Stopped, Action::Exit(Ok(())))
                }
            },
            Phase::Stopped => (Phase::Stopped, Action::Poll),
        }
    }

    /// Notes in the state which objects come and go.
    fn settle(phase: Phase, next: Phase, state: &mut OverlayState)
        requires
            old(state)@.wf(),
        ensures
            final(state)@.wf(),
            final(state)@ == settled_between(phase, next, old(state)@),
    {
        if let Phase::Build { viewport, fractional } = phase {
            state.surface = true;
            state.layer_surface = true;
            state.viewport = viewport;
            state.fractional = fractional;
        } else if matches!(next, Phase::CloseLayer) {
            state.layer_surface = false;
        } else if matches!(next, Phase::CloseSurface) {
            state.surface = false;
        }
    }

    /// Takes what came of the last action and returns the next one.
    pub fn step(&mut self, state: &mut OverlayState, event: Event) -> (action: Action)
        requires
            old(state)@.wf(),
            old(self).phase.accepts(event),
        ensures
            final(state)@.wf(),
            (final(self).phase, action) == transition(old(self).phase, old(state)@, event),
            final(state)@ == settled(old(self).phase, old(state)@, event),
    {
        let (next, action): (Phase, Action) = Self::decide(self.phase, state, event);
        Self::settle(self.phase, next, state);
        self.phase = next;
        action
    }

    /// Looks into the queue and steps on what the look brought. `offscreen`
    /// says whether the cursor is still off the screen, where it starts.
    pub fn poll(
        &mut self,
        state: &mut OverlayState,
        rx: &mut CommandReceiver,
        offscreen: bool,
    ) -> (action: Action)
        requires
            old(state)@.wf(),
            old(self).phase is Drain,
        ensures
            final(state)@.wf(),
            old(rx).wf() ==> final(rx).wf(),
            exists|received: Received| #[trigger]
                old(rx).is_looked(received, *final(rx)) && ({
                    let event = Event::Polled { received, offscreen };
                    &&& (final(self).phase, action) == transition(
                        old(self).phase,
                        old(state)@,
                        event,
                    )
                    &&& final(state)@ == settled(old(self).phase, old(state)@, event)
                }),
    {
        let received: Received = rx.poll();
        self.step(state, Event::Polled { received, offscreen })
    }

    /// What follows a look into the queue.
    fn take_polled(
        state: &OverlayState,
        had_cmd: bool,
        received: Received,
        offscreen: bool,
    ) -> (r: (Phase, Action))
        ensures
            r == after_poll(state@, had_cmd, received, offscreen),
    {
        match received {
            Received::Empty => (Phase::Clock { had_cmd }, Action::Clock),
            Received::Disconnected => Self::close_all(state),
            Received::Got(cmd) => match cmd {
                WlOverlayCmd::Shutdown => Self::close_all(state),
                WlOverlayCmd::Remove => (Phase::Apply, Action::Hide),
                WlOverlayCmd::Cmd { cmd } => {
                    let seed: bool = cmd.kind.has_target() && offscreen;
                    (Phase::Apply, Action::Apply { cmd, seed })
                },
            },
        }
    }

    /// The end of the loop.
    fn close_all(state: &OverlayState) -> (r: (Phase, Action))
        ensures
            r == close(state@),
    {
        if state.layer_surface {
            (Phase::CloseLayer, Action::DestroyLayerSurface)
        } else {
            Self::close_surface_of(state)
        }
    }

    /// The end of the surface.
    fn close_surface_of(state: &OverlayState) -> (r: (Phase, Action))
        ensures
            r == close_surface(state@),
    {
        if state.surface {
            (Phase::CloseSurface, Action::DestroySurface)
        } else {
            (Phase::LastFlush, Action::Roundtrip)
        }
    }

    /// A frame, unless the compositor is congested and no command asks for it.
    fn draw_unless_congested(state: &OverlayState, had_cmd: bool) -> (r: (Phase, Action))
        requires
            state@.wf(),
        ensures
            r == draw_or_skip(state@, had_cmd),
    {
        if state.pending() < MAX_PENDING || had_cmd {
            (Phase::Draw, Action::Redraw)
        } else {
            (Phase::Pump, Action::Pump)
        }
    }
}

impl Phase {
    /// The owner is setting the surface up.
    pub open spec fn is_setup(self) -> bool {
        match self {
            Phase::Discover { .. }
            | Phase::Build { .. }
            | Phase::Configure { .. }
            | Phase::Settle { .. }
            | Phase::FirstFrame
            | Phase::FirstFlush => true,
            _ => false,
        }
    }

    /// The owner is in its loop.
    pub open spec fn is_running(self) -> bool {
        match self {
            Phase::Drain { .. }
            | Phase::Apply
            | Phase::Clock { .. }
            | Phase::Animate { .. }
            | Phase::Relieve { .. }
            | Phase::Yield { .. }
            | Phase::RelieveAgain { .. }
            | Phase::Draw
            | Phase::Pump
            | Phase::Measure
            | Phase::Rest => true,
            _ => false,
        }
    }

    /// The owner has left its loop, or has stopped.
    pub open spec fn is_closing(self) -> bool {
        match self {
            Phase::CloseLayer | Phase::CloseSurface | Phase::LastFlush | Phase::Stopped => true,
            _ => false,
        }
    }

    /// How many steps can follow at most, once the owner has left its loop.
    pub open spec fn closing_rank(self) -> nat {
        match self {
            Phase::CloseLayer => 3,
            Phase::CloseSurface => 2,
            Phase::LastFlush => 1,
            _ => 0,
        }
    }

    /// How many steps of the setup can follow at most.
    pub open spec fn setup_rank(self) -> nat {
        match self {
            Phase::Discover { left } => 26 + left as nat,
            Phase::Build { .. } => 25,
            Phase::Configure { left } => 2 * left as nat + 4,
            Phase::Settle { left } => 2 * left as nat + 3,
            Phase::FirstFrame => 2,
            Phase::FirstFlush => 1,
            _ => 0,
        }
    }

    /// How many steps of the turn can follow at most, once the queue is
    /// drained.
    pub open spec fn turn_rank(self) -> nat {
        match self {
            Phase::Clock { .. } => 9,
            Phase::Animate { .. } => 8,
            Phase::Relieve { .. } => 7,
            Phase::Yield { .. } => 6,
            Phase::RelieveAgain { .. } => 5,
            Phase::Draw => 4,
            Phase::Pump => 3,
            Phase::Measure => 2,
            Phase::Rest => 1,
            _ => 0,
        }
    }

    /// The turn carries a command.
    pub open spec fn carries_command(self) -> bool {
        match self {
            Phase::Drain { had_cmd }
            | Phase::Clock { had_cmd }
            | Phase::Animate { had_cmd }
            | Phase::Relieve { had_cmd }
            | Phase::Yield { had_cmd }
            | Phase::RelieveAgain { had_cmd } => had_cmd,
            Phase::Apply => true,
            _ => false,
        }
    }
}

/// Whatever the compositor does, a frame is drawn after at most `n` more steps
/// that are no frame.
pub open spec fn draws_within(phase: Phase, n: nat) -> bool
    decreases n,
{
    forall|state: OverlayView, event: Event| #[trigger]
        transition(phase, state, event).1 is Redraw || !phase.accepts(event) || (n > 0
            && draws_within(transition(phase, state, event).0, (n - 1) as nat))
}

/// The setup takes a bounded number of steps: each one that is not the last
/// leaves fewer. It ends in the loop, or in an error.
pub proof fn law_setup_ends(phase: Phase, state: OverlayView, event: Event)
    requires
        phase.is_setup(),
        phase.accepts(event),
    ensures
        ({
            let (next, action) = transition(phase, state, event);
            ||| next.is_setup() && next.setup_rank() < phase.setup_rank()
            ||| next == (Phase::Drain { had_cmd: false }) && action == Action::Poll
            ||| next == Phase::Stopped && action matches Action::Exit(Err(_))
        }),
{
}

/// The setup stops on the first thing that is missing, and on nothing else
/// unless an action fails.
pub proof fn law_setup_errors(phase: Phase, state: OverlayView, event: Event)
    requires
        phase.is_setup(),
        phase.accepts(event),
        event is Done,
    ensures
        transition(phase, state, event).0 is Stopped ==> {
            ||| phase == (Phase::Discover { left: 0 }) && missing(state) is Some && transition(
                phase,
                state,
                event,
            ).1 == Action::Exit(Err(OwnerError::Setup(missing(state)->0)))
            ||| phase == (Phase::Settle { left: 0 }) && unusable(state) is Some && transition(
                phase,
                state,
                event,
            ).1 == Action::Exit(Err(OwnerError::Setup(unusable(state)->0)))
        },
{
}

/// The first frame is drawn only on a surface that is configured and has a
/// size, and every later one only on a configured surface.
pub proof fn law_draws_on_configured_surface(phase: Phase, state: OverlayView, event: Event)
    requires
        phase.accepts(event),
    ensures
        transition(phase, state, event).0 is FirstFrame ==> state.configured && state.has_size(),
        phase is Animate && (transition(phase, state, event).0 is Draw || transition(
            phase,
            state,
            event,
        ).0 is Relieve) ==> state.configured,
{
}

/// In the loop no failure stops the owner, neither of a frame nor of reading
/// events: it goes on, or it is told to tear the surface down.
pub proof fn law_failures_do_not_stop_the_loop(
    phase: Phase,
    state: OverlayView,
    event: Event,
)
    requires
        phase.is_running(),
        phase.accepts(event),
    ensures
        transition(phase, state, event).1 !is Exit,
        transition(phase, state, event).0.is_running() || transition(
            phase,
            state,
            event,
        ).0.is_closing(),
        phase is Draw ==> transition(phase, state, event) == transition(
            phase,
            state,
            Event::Done,
        ),
{
}

/// The event is a look into the queue that brought a shutdown or found that no
/// sender is left.
pub open spec fn asks_to_stop(event: Event) -> bool {
    match event {
        Event::Polled { received, .. } => match received {
            Received::Disconnected | Received::Got(WlOverlayCmd::Shutdown) => true,
            _ => false,
        },
        _ => false,
    }
}

/// The loop ends exactly when a look into the queue brings a shutdown or finds
/// that no sender is left; the queue is not looked into again.
pub proof fn law_loop_ends_when_asked(phase: Phase, state: OverlayView, event: Event)
    requires
        phase.accepts(event),
    ensures
        phase.is_running() ==> (transition(phase, state, event).0.is_closing() <==> phase is Drain
            && asks_to_stop(event)),
        phase.is_closing() ==> transition(phase, state, event).1 !is Poll && transition(
            phase,
            state,
            event,
        ).0.is_closing(),
        transition(phase, state, event).1 == Action::Exit(Ok(())) ==> phase is LastFlush,
{
}

/// A command or a removal marks its turn, and the mark stays until the queue
/// is drained and the frame decided.
pub proof fn law_command_marks_turn(phase: Phase, state: OverlayView, event: Event)
    requires
        phase.accepts(event),
    ensures
        phase.carries_command() && !(transition(phase, state, event).1 is Redraw) && !transition(
            phase,
            state,
            event,
        ).0.is_closing() && (phase is Animate ==> state.configured) ==> transition(
            phase,
            state,
            event,
        ).0.carries_command(),
        transition(phase, state, event).0 is Apply ==> transition(phase, state, event).1 is Apply
            || transition(phase, state, event).1 is Hide,
{
}

/// The frame that carries a command is never skipped, however many buffers the
/// compositor holds.
pub proof fn law_command_frame_is_drawn(state: OverlayView, event: Event)
    requires
        state.configured,
        event is Ticked,
    ensures
        ({
            let (next, action) = transition(Phase::Animate { had_cmd: true }, state, event);
            action is Redraw || draws_within(next, 2)
        }),
{
    assert(draws_within(Phase::RelieveAgain { had_cmd: true }, 0));
    assert(draws_within(Phase::Yield { had_cmd: true }, 1));
    assert forall|s: OverlayView, e: Event|
        (#[trigger] transition(Phase::Relieve { had_cmd: true }, s, e)).1 is Redraw
            || !(Phase::Relieve { had_cmd: true }).accepts(e) || draws_within(
            transition(Phase::Relieve { had_cmd: true }, s, e).0,
            1,
        ) by {
        if e is Done && is_congested(s) {
            assert(transition(Phase::Relieve { had_cmd: true }, s, e).0 == (Phase::Yield {
                had_cmd: true,
            }));
        }
    }
    assert(draws_within(Phase::Relieve { had_cmd: true }, 2));
}

/// A surface that lost its buffer gets a new frame on the next tick, though
/// nothing moves, unless too many other buffers are held.
pub proof fn law_lost_buffer_forces_frame(
    state: OverlayView,
    id: u32,
    motion: Motion,
    had_cmd: bool,
)
    requires
        state.configured,
        state.current_buffer_id == Some(id),
    ensures
        ({
            let after = state.after_release(id);
            transition(Phase::Animate { had_cmd }, after, Event::Ticked(motion)) == if is_congested(
                after,
            ) {
                (Phase::Relieve { had_cmd }, Action::Relieve)
            } else {
                (Phase::Draw, Action::Redraw)
            }
        }),
{
}

/// Nothing is drawn while nothing moves, no command came and the surface has
/// its buffer.
pub proof fn law_idle_draws_nothing(state: OverlayView, motion: Motion)
    requires
        !motion.spec_moves(),
        !state.needs_reattach,
    ensures
        transition(Phase::Animate { had_cmd: false }, state, Event::Ticked(motion)) == (
            Phase::Pump,
            Action::Pump,
        ),
{
}

/// A frame without a command is drawn only while fewer than [`MAX_PENDING`]
/// buffers are held, so its own buffer makes no more than that.
pub proof fn law_idle_frames_are_capped(
    phase: Phase,
    state: OverlayView,
    event: Event,
    id: u32,
    buffer: MappedBuffer,
)
    requires
        phase.is_running(),
        phase.accepts(event),
        !phase.carries_command(),
        state.wf(),
        transition(phase, state, event).1 is Redraw,
    ensures
        !is_congested(state),
        state.after_attach(id, buffer).pending_buffers.len() <= MAX_PENDING,
{
    let held = state.pending_buffers;
    if held.contains_key(id) {
        assert(held.insert(id, buffer).dom() =~= held.dom());
    } else {
        assert(held.insert(id, buffer).dom() =~= held.dom().insert(id));
    }
}

/// Once the queue is drained, a turn takes a bounded number of steps: it waits
/// for buffers at most twice, and then returns to the queue.
pub proof fn law_turn_ends(phase: Phase, state: OverlayView, event: Event)
    requires
        phase.turn_rank() > 0,
        phase.accepts(event),
    ensures
        ({
            let (next, action) = transition(phase, state, event);
            ||| 0 < next.turn_rank() < phase.turn_rank()
            ||| next == (Phase::Drain { had_cmd: false }) && action == Action::Poll
        }),
{
}

/// A turn lasts at least [`FRAME_NANOS`]: the owner sleeps for what is left of
/// it, and not at all where nothing is.
pub proof fn law_frame_pacing(state: OverlayView, elapsed: u64)
    ensures
        transition(Phase::Measure, state, Event::Elapsed(elapsed)).1 matches Action::Sleep { nanos }
            ==> elapsed + nanos == FRAME_NANOS,
        transition(Phase::Measure, state, Event::Elapsed(elapsed)).1 is Sleep <==> elapsed
            < FRAME_NANOS,
{
}

/// What holds of the state in every phase: the surface and its layer surface
/// exist from the time they were built until each is destroyed, the layer
/// surface first, and from the first frame on the surface is configured and has
/// a size.
pub open spec fn is_sound(phase: Phase, state: OverlayView) -> bool {
    let built = phase is Configure || phase is Settle || phase is FirstFrame || phase is FirstFlush
        || phase.is_running();
    let drawn = phase is FirstFrame || phase is FirstFlush || phase.is_running();
    &&& built ==> state.surface && state.layer_surface
    &&& phase is CloseLayer ==> state.surface && !state.layer_surface
    &&& phase is CloseSurface || phase is LastFlush ==> !state.surface && !state.layer_surface
    &&& drawn ==> state.configured && state.has_size()
}

/// Soundness holds at the start, and every step of the owner keeps it.
pub proof fn law_steps_are_sound(phase: Phase, state: OverlayView, event: Event)
    ensures
        is_sound(Phase::Discover { left: EXTRA_ROUNDTRIPS }, OverlayView::initial()),
        phase.accepts(event) && is_sound(phase, state) ==> is_sound(
            transition(phase, state, event).0,
            settled(phase, state, event),
        ),
{
}

/// Every event of the compositor, and every buffer that is attached, keeps
/// soundness.
pub proof fn law_events_are_sound(
    phase: Phase,
    state: OverlayView,
    width: i32,
    height: i32,
    surface_w: u32,
    surface_h: u32,
    id: u32,
    buffer: MappedBuffer,
    global: Global,
    factor: i32,
    scale: u32,
    scaled: OverlayView,
    preferred: OverlayView,
)
    requires
        is_sound(phase, state),
        state.scale_step(factor, scaled),
        state.preferred_scale_step(scale, preferred),
    ensures
        is_sound(phase, state.after_mode(width, height)),
        is_sound(phase, state.after_configure(surface_w, surface_h)),
        is_sound(phase, state.after_release(id)),
        is_sound(phase, state.after_attach(id, buffer)),
        is_sound(phase, state.with_global(global)),
        is_sound(phase, scaled),
        is_sound(phase, preferred),
{
}

/// Whenever the owner asks for a frame, there is one to draw.
pub proof fn law_every_frame_can_be_drawn(phase: Phase, state: OverlayView, event: Event)
    requires
        is_sound(phase, state),
        phase.accepts(event),
        transition(phase, state, event).1 is Redraw,
    ensures
        settled(phase, state, event).frame() is Some,
{
    law_steps_are_sound(phase, state, event);
}

/// One step of a run: the state in which it was taken, and its event.
pub struct Step {
    pub state: OverlayView,
    pub event: Event,
}

/// What the owner waits for after the steps of a run.
pub open spec fn phase_after(phase: Phase, steps: Seq<Step>) -> Phase
    decreases steps.len(),
{
    if steps.len() == 0 {
        phase
    } else {
        transition(phase_after(phase, steps.drop_last()), steps.last().state, steps.last().event).0
    }
}

/// The action that the last step of a run ends with.
pub open spec fn last_action(phase: Phase, steps: Seq<Step>) -> Action {
    transition(phase_after(phase, steps.drop_last()), steps.last().state, steps.last().event).1
}

/// Whether each event of a run can come of the action before it. Between two
/// steps the state may change in any way.
pub open spec fn is_run(phase: Phase, steps: Seq<Step>) -> bool
    decreases steps.len(),
{
    steps.len() == 0 || {
        &&& is_run(phase, steps.drop_last())
        &&& phase_after(phase, steps.drop_last()).accepts(steps.last().event)
    }
}

/// The commands that looks into the queue bring in a run, in order.
pub open spec fn polled(steps: Seq<Step>) -> Seq<WlOverlayCmd>
    decreases steps.len(),
{
    if steps.len() == 0 {
        Seq::empty()
    } else {
        match steps.last().event {
            Event::Polled { received: Received::Got(cmd), .. } => polled(steps.drop_last()).push(
                cmd,
            ),
            _ => polled(steps.drop_last()),
        }
    }
}

/// The commands that the actions of a run carry out, in order: applying one, or
/// hiding the cursor for a removal.
pub open spec fn carried_out(phase: Phase, steps: Seq<Step>) -> Seq<WlOverlayCmd>
    decreases steps.len(),
{
    if steps.len() == 0 {
        Seq::empty()
    } else {
        match last_action(phase, steps) {
            Action::Apply { cmd, .. } => carried_out(phase, steps.drop_last()).push(
                WlOverlayCmd::Cmd { cmd },
            ),
            Action::Hide => carried_out(phase, steps.drop_last()).push(WlOverlayCmd::Remove),
            _ => carried_out(phase, steps.drop_last()),
        }
    }
}

/// How many looks of a run find the queue empty, and so end the draining of it.
pub open spec fn turns(steps: Seq<Step>) -> nat
    decreases steps.len(),
{
    if steps.len() == 0 {
        0
    } else {
        turns(steps.drop_last()) + match steps.last().event {
            Event::Polled { received: Received::Empty, .. } => 1nat,
            _ => 0,
        }
    }
}

/// The times by which a run advances the animation, in order.
pub open spec fn ticks(phase: Phase, steps: Seq<Step>) -> Seq<u64>
    decreases steps.len(),
{
    if steps.len() == 0 {
        Seq::empty()
    } else {
        match last_action(phase, steps) {
            Action::Tick { nanos } => ticks(phase, steps.drop_last()).push(nanos),
            _ => ticks(phase, steps.drop_last()),
        }
    }
}

/// In any run, the commands that are carried out are those that came out of the
/// queue, each exactly once and in order, but for a shutdown, which is the last
/// one to come out and is followed by nothing.
pub proof fn law_commands_are_carried_out(phase: Phase, steps: Seq<Step>)
    requires
        is_run(phase, steps),
        !phase.is_closing(),
    ensures
        ({
            ||| polled(steps) == carried_out(phase, steps)
            ||| phase_after(phase, steps).is_closing() && polled(steps) == carried_out(
                phase,
                steps,
            ).push(WlOverlayCmd::Shutdown)
        }),
        forall|k: int|
            0 <= k < carried_out(phase, steps).len() ==> #[trigger] carried_out(phase, steps)[k]
                !is Shutdown,
    decreases steps.len(),
{
    if steps.len() > 0 {
        law_commands_are_carried_out(phase, steps.drop_last());
    }
}

/// Once the owner has left its loop it does not return: it looks into the queue
/// no more, carries out no command and draws nothing, and exits after at most
/// three steps.
pub proof fn law_nothing_follows_the_end(phase: Phase, state: OverlayView, event: Event)
    requires
        phase.is_closing(),
        phase.accepts(event),
    ensures
        ({
            let (next, action) = transition(phase, state, event);
            &&& next.is_closing()
            &&& next.closing_rank() < phase.closing_rank() <= 3
            &&& action is DestroySurface || action is Roundtrip || action is Exit
            &&& action is Exit <==> next is Stopped
        }),
{
}

/// The end of the loop destroys the layer surface, then the surface, and then
/// makes a last round trip.
pub proof fn law_end_destroys_the_surface(phase: Phase, state: OverlayView, event: Event)
    requires
        is_sound(phase, state),
        phase.accepts(event),
    ensures
        ({
            let (next, action) = transition(phase, state, event);
            let after = settled(phase, state, event);
            &&& phase.is_running() && next.is_closing() ==> {
                &&& (next, action) == (Phase::CloseLayer, Action::DestroyLayerSurface)
                &&& after == (OverlayView { layer_surface: false, ..state })
            }
            &&& phase is CloseLayer ==> {
                &&& (next, action) == (Phase::CloseSurface, Action::DestroySurface)
                &&& after == (OverlayView { surface: false, ..state })
            }
            &&& phase is CloseSurface ==> (next, action) == (Phase::LastFlush, Action::Roundtrip)
            &&& action is DestroyLayerSurface ==> phase.is_running()
            &&& action is DestroySurface ==> phase is CloseLayer
        }),
{
}

/// Where each look of a run goes through the same receiving handle, the run's
/// commands are what came out of the queue through it: a step on a look keeps
/// the two equal, and so does any other step.
pub proof fn law_looks_feed_the_run(
    steps: Seq<Step>,
    step: Step,
    before: CommandReceiver,
    after: CommandReceiver,
)
    requires
        polled(steps) == before@,
        match step.event {
            Event::Polled { received, .. } => before.is_looked(received, after),
            _ => after == before,
        },
    ensures
        polled(steps.push(step)) == after@,
{
    assert(steps.push(step).drop_last() =~= steps);
}

/// A shutdown that was queued is honoured: the owner carries out what was
/// queued before it and nothing that was queued after it. Once the shutdown
/// comes out, all that was queued before it has been carried out, and the owner
/// has left its loop.
pub proof fn law_shutdown_is_honoured(
    tx: CommandSender,
    rx: CommandReceiver,
    i: int,
    phase: Phase,
    steps: Seq<Step>,
)
    requires
        tx.wf(),
        rx.wf(),
        tx.queue() == rx.queue(),
        0 <= i < tx@.len(),
        tx@[i] is Shutdown,
        is_run(phase, steps),
        !phase.is_closing(),
        polled(steps) == rx@,
    ensures
        rx@.len() <= tx.places()[i] + 1,
        carried_out(phase, steps).len() <= tx.places()[i],
        carried_out(phase, steps) == rx@.take(carried_out(phase, steps).len() as int),
        rx@.len() == tx.places()[i] + 1 ==> {
            &&& carried_out(phase, steps) == rx@.take(tx.places()[i] as int)
            &&& phase_after(phase, steps).is_closing()
        },
{
    law_commands_are_carried_out(phase, steps);
    let place = tx.places()[i];
    let done = carried_out(phase, steps);
    assert(tx@[i] == rx.queue().history[place]);
    if rx@.len() > place {
        assert(rx@[place as int] is Shutdown);
        if place < done.len() {
            assert(done[place as int] == rx@[place as int]);
        }
    }
    assert(done =~= rx@.take(done.len() as int));
}

/// Where the loop ends because no sender is left, everything that was ever
/// queued, through whichever handle, has been carried out.
pub proof fn law_lost_senders_leave_nothing(
    tx: CommandSender,
    rx: CommandReceiver,
    i: int,
    phase: Phase,
    steps: Seq<Step>,
)
    requires
        tx.wf(),
        rx.wf(),
        tx.queue() == rx.queue(),
        0 <= i < tx@.len(),
        is_run(phase, steps),
        !phase.is_closing(),
        polled(steps) == rx@,
        steps.len() > 0,
        steps.last().event is Polled,
        steps.last().event->received is Disconnected,
        rx.is_drained(),
    ensures
        carried_out(phase, steps) == rx@,
        tx.places()[i] < carried_out(phase, steps).len(),
        carried_out(phase, steps)[tx.places()[i] as int] == tx@[i],
        phase_after(phase, steps).is_closing(),
{
    law_commands_are_carried_out(phase, steps.drop_last());
    assert(rx.queue().history.contains_key(tx.places()[i]));
    assert(rx@[tx.places()[i] as int] == tx@[i]);
}

/// The animation advances exactly once in each turn that is not the last: after
/// the queue was found empty, with all commands of the turn carried out, and
/// before any frame. It advances by the time since the last tick, and by
/// [`MAX_TICK_NANOS`] at most.
pub proof fn law_tick_in_each_turn(phase: Phase, state: OverlayView, event: Event)
    requires
        phase.accepts(event),
    ensures
        transition(phase, state, event).0 is Clock <==> phase is Drain
            && event->received is Empty,
        transition(phase, state, event).1 is Clock <==> transition(phase, state, event).0 is Clock,
        transition(phase, state, event).1 is Tick <==> phase is Clock,
        transition(phase, state, event).0 is Animate <==> phase is Clock,
        phase is Clock ==> event is Elapsed,
        phase is Clock ==> transition(phase, state, event).1 == (Action::Tick {
            nanos: tick_time(event->Elapsed_0),
        }),
        phase.is_running() && transition(phase, state, event).1 is Redraw ==> phase is Animate
            || phase is Relieve || phase is RelieveAgain,
{
}

/// A run ticks once for each time that it found the queue empty, but for a tick
/// that is about to begin, and never by more than [`MAX_TICK_NANOS`].
pub proof fn law_one_tick_per_turn(phase: Phase, steps: Seq<Step>)
    requires
        is_run(phase, steps),
        phase !is Clock,
    ensures
        turns(steps) == ticks(phase, steps).len() + if phase_after(phase, steps) is Clock {
            1nat
        } else {
            0
        },
        forall|k: int|
            0 <= k < ticks(phase, steps).len() ==> #[trigger] ticks(phase, steps)[k]
                <= MAX_TICK_NANOS,
    decreases steps.len(),
{
    if steps.len() > 0 {
        law_one_tick_per_turn(phase, steps.drop_last());
    }
}

/// What the owner waits for next is what its action brings: a look into the
/// queue, a tick, a time, or that the action is done. Only round trips, frames
/// and reading events can fail. After the end nothing is waited for.
pub proof fn law_actions_are_answered(
    phase: Phase,
    state: OverlayView,
    event: Event,
    answer: Event,
)
    requires
        phase.accepts(event),
    ensures
        ({
            let (next, action) = transition(phase, state, event);
            &&& action is Poll ==> (next.accepts(answer) <==> answer is Polled)
            &&& action is Tick ==> (next.accepts(answer) <==> answer is Ticked)
            &&& action is Clock || action is Measure ==> (next.accepts(answer) <==> answer
                is Elapsed)
            &&& action is Roundtrip || action is Redraw || action is Relieve ==> (next.accepts(
                answer,
            ) <==> answer is Done || answer is Failed)
            &&& action is Build || action is Sleep || action is Apply || action is Hide || action
                is Pump || action is DestroyLayerSurface || action is DestroySurface ==> (
            next.accepts(answer) <==> answer is Done)
            &&& action is Exit ==> !next.accepts(answer)
        }),
{
}

/// Discovery makes the round trips that are left, one by one. After the last
/// one it stops on the first global that is missing, in the order compositor,
/// shared memory, layer shell, output; where none is, the surface is built with
/// a viewport exactly if a viewporter is bound, and with a fractional-scale
/// object exactly if its manager is.
pub proof fn law_discovery_ends_in_building(state: OverlayView, left: u32)
    ensures
        left > 0 ==> transition(Phase::Discover { left }, state, Event::Done) == (
            Phase::Discover { left: (left - 1) as u32 },
            Action::Roundtrip,
        ),
        ({
            let (next, action) = transition(Phase::Discover { left: 0 }, state, Event::Done);
            &&& action == Action::Exit(Err(OwnerError::Setup(SetupError::NoCompositor)))
                <==> !state.compositor
            &&& action == Action::Exit(Err(OwnerError::Setup(SetupError::NoShm)))
                <==> state.compositor && !state.shm
            &&& action == Action::Exit(Err(OwnerError::Setup(SetupError::NoLayerShell)))
                <==> state.compositor && state.shm && !state.layer_shell
            &&& action == Action::Exit(Err(OwnerError::Setup(SetupError::NoOutput)))
                <==> state.compositor && state.shm && state.layer_shell && !state.output
            &&& action is Exit <==> next is Stopped
            &&& state.compositor && state.shm && state.layer_shell && state.output ==> action == (
            Action::Build { viewport: state.viewporter, fractional: state.fractional_mgr })
        }),
{
}

/// Once the surface is built, whatever happened meanwhile, it and its layer
/// surface exist, with a viewport exactly if a viewporter was bound and with a
/// fractional-scale object exactly if its manager was. Ten round trips are then
/// made at most for the configure event.
pub proof fn law_built_surface_has_its_objects(found: OverlayView, state: OverlayView)
    requires
        found.compositor,
        found.shm,
        found.layer_shell,
        found.output,
    ensures
        ({
            let building = transition(Phase::Discover { left: 0 }, found, Event::Done).0;
            let built = settled(building, state, Event::Done);
            &&& built.viewport == found.viewporter
            &&& built.fractional == found.fractional_mgr
            &&& built.surface && built.layer_surface
            &&& built.same_globals(state) && built.same_sizes(state)
            &&& built.same_scales(state) && built.same_buffers(state)
            &&& transition(building, state, Event::Done) == (
                Phase::Configure { left: 9 },
                Action::Roundtrip,
            )
        }),
{
}

/// The first frame is drawn as soon as a round trip finds the surface configured
/// and with a size. Until then the owner pauses for 50 ms and tries again, as
/// often as is left; then it draws after all, or stops and says what is missing.
pub proof fn law_configure_is_waited_for(state: OverlayView, left: u32)
    ensures
        ({
            let sized = (state.surface_w > 0 && state.surface_h > 0) || (state.mode_w > 0
                && state.mode_h > 0);
            let tried = transition(Phase::Configure { left }, state, Event::Done);
            let paused = transition(Phase::Settle { left }, state, Event::Done);
            &&& state.configured && sized ==> tried == (Phase::FirstFrame, Action::Redraw)
            &&& !(state.configured && sized) ==> tried == (
                Phase::Settle { left },
                Action::Sleep { nanos: 50_000_000 },
            )
            &&& left > 0 ==> paused == (
                Phase::Configure { left: (left - 1) as u32 },
                Action::Roundtrip,
            )
            &&& left == 0 && state.configured && sized ==> paused == (
                Phase::FirstFrame,
                Action::Redraw,
            )
            &&& left == 0 && !state.configured ==> paused == (
                Phase::Stopped,
                Action::Exit(Err(OwnerError::Setup(SetupError::NeverConfigured))),
            )
            &&& left == 0 && state.configured && !sized ==> paused == (
                Phase::Stopped,
                Action::Exit(
                    Err(
                        OwnerError::Setup(
                            SetupError::NoUsableSize {
                                surface_w: state.surface_w,
                                surface_h: state.surface_h,
                                mode_w: state.mode_w,
                                mode_h: state.mode_h,
                            },
                        ),
                    ),
                ),
            )
        }),
{
}

/// The first frame is followed by a round trip and then by the loop. Outside the
/// loop every failure stops the owner.
pub proof fn law_first_frame_starts_the_loop(phase: Phase, state: OverlayView)
    ensures
        transition(Phase::FirstFrame, state, Event::Done) == (Phase::FirstFlush, Action::Roundtrip),
        transition(Phase::FirstFlush, state, Event::Done) == (
            Phase::Drain { had_cmd: false },
            Action::Poll,
        ),
        transition(Phase::LastFlush, state, Event::Done) == (
            Phase::Stopped,
            Action::Exit(Ok(())),
        ),
        phase.accepts(Event::Failed) && !phase.is_running() ==> transition(
            phase,
            state,
            Event::Failed,
        ) == (Phase::Stopped, Action::Exit(Err(OwnerError::Action))),
{
}

/// Each command that a look brings is applied as it is, after the cursor was
/// moved near its target exactly where it is still off the screen and the
/// command is a move, a snap or a click; a removal hides the cursor. The queue
/// is then looked into again, until it is empty: the turn goes on, and it
/// carries a command exactly where one came.
pub proof fn law_looks_are_acted_on(
    state: OverlayView,
    had_cmd: bool,
    cmd: OverlayCommand,
    offscreen: bool,
)
    ensures
        ({
            let draining = Phase::Drain { had_cmd };
            let given = Event::Polled {
                received: Received::Got(WlOverlayCmd::Cmd { cmd }),
                offscreen,
            };
            let removed = Event::Polled { received: Received::Got(WlOverlayCmd::Remove), offscreen };
            let empty = Event::Polled { received: Received::Empty, offscreen };
            let seed = offscreen && (cmd.kind is MoveTo || cmd.kind is SnapTo || cmd.kind
                is ClickPulse);
            &&& transition(draining, state, given) == (Phase::Apply, Action::Apply { cmd, seed })
            &&& transition(draining, state, removed) == (Phase::Apply, Action::Hide)
            &&& transition(Phase::Apply, state, Event::Done) == (
                Phase::Drain { had_cmd: true },
                Action::Poll,
            )
            &&& transition(draining, state, empty) == (Phase::Clock { had_cmd }, Action::Clock)
        }),
{
}

/// A shutdown, or the loss of the last sender, destroys the layer surface if
/// there is one, then the surface if there is one, and then makes a round trip.
pub proof fn law_end_destroys_what_exists(state: OverlayView, had_cmd: bool, offscreen: bool)
    ensures
        ({
            let draining = Phase::Drain { had_cmd };
            let asked = transition(
                draining,
                state,
                Event::Polled { received: Received::Got(WlOverlayCmd::Shutdown), offscreen },
            );
            let lost = transition(
                draining,
                state,
                Event::Polled { received: Received::Disconnected, offscreen },
            );
            &&& asked == lost
            &&& state.layer_surface ==> asked == (Phase::CloseLayer, Action::DestroyLayerSurface)
            &&& !state.layer_surface && state.surface ==> asked == (
                Phase::CloseSurface,
                Action::DestroySurface,
            )
            &&& !state.layer_surface && !state.surface ==> asked == (
                Phase::LastFlush,
                Action::Roundtrip,
            )
            &&& state.surface ==> transition(Phase::CloseLayer, state, Event::Done) == (
                Phase::CloseSurface,
                Action::DestroySurface,
            )
            &&& !state.surface ==> transition(Phase::CloseLayer, state, Event::Done) == (
                Phase::LastFlush,
                Action::Roundtrip,
            )
            &&& transition(Phase::CloseSurface, state, Event::Done) == (
                Phase::LastFlush,
                Action::Roundtrip,
            )
        }),
{
}

/// The animation advances by the whole time since the last tick, up to 50 ms.
pub proof fn law_tick_takes_the_time_passed(state: OverlayView, had_cmd: bool, elapsed: u64)
    ensures
        ({
            let (next, action) = transition(
                Phase::Clock { had_cmd },
                state,
                Event::Elapsed(elapsed),
            );
            &&& next == (Phase::Animate { had_cmd })
            &&& elapsed <= 50_000_000 ==> action == (Action::Tick { nanos: elapsed })
            &&& elapsed > 50_000_000 ==> action == (Action::Tick { nanos: 50_000_000 })
        }),
{
}

/// After a tick a frame is wanted exactly where the surface is configured and
/// the cursor arrived, follows its path, swings, pulses or fades, or a command
/// came, or the surface lost its buffer, whatever buffer is on the surface. It
/// is drawn at once while fewer than three buffers are held; otherwise the owner
/// first tries to get some back. Where no frame is wanted, none is drawn.
pub proof fn law_motion_is_drawn(state: OverlayView, motion: Motion, had_cmd: bool)
    ensures
        ({
            let step = transition(Phase::Animate { had_cmd }, state, Event::Ticked(motion));
            let wanted = state.configured && (motion.arrived || motion.path || motion.spring
                || motion.click || motion.fading || had_cmd || state.needs_reattach);
            &&& wanted && state.pending_buffers.len() < 3 ==> step == (Phase::Draw, Action::Redraw)
            &&& wanted && state.pending_buffers.len() >= 3 ==> step == (
                Phase::Relieve { had_cmd },
                Action::Relieve,
            )
            &&& !wanted ==> step == (Phase::Pump, Action::Pump)
        }),
{
}

/// While three buffers or more are held the owner reads events, pauses for 1 ms
/// and reads once more. Then the frame is drawn if it carries a command or if a
/// buffer came back, and is skipped otherwise. A failure to read ends the wait.
pub proof fn law_congestion_is_waited_out_once(state: OverlayView, had_cmd: bool)
    ensures
        ({
            let held = state.pending_buffers.len() >= 3;
            let read = transition(Phase::Relieve { had_cmd }, state, Event::Done);
            let failed = transition(Phase::Relieve { had_cmd }, state, Event::Failed);
            let again = transition(Phase::RelieveAgain { had_cmd }, state, Event::Done);
            let failed_again = transition(Phase::RelieveAgain { had_cmd }, state, Event::Failed);
            &&& held ==> read == (Phase::Yield { had_cmd }, Action::Sleep { nanos: 1_000_000 })
            &&& !held ==> read == (Phase::Draw, Action::Redraw)
            &&& transition(Phase::Yield { had_cmd }, state, Event::Done) == (
                Phase::RelieveAgain { had_cmd },
                Action::Relieve,
            )
            &&& !held || had_cmd ==> again == (Phase::Draw, Action::Redraw)
            &&& held && !had_cmd ==> again == (Phase::Pump, Action::Pump)
            &&& failed == again && failed_again == again
        }),
{
}

/// A frame, drawn or failed, is followed by reading events and by the rest of
/// the frame's 16 ms, and then by a turn that carries no command yet.
pub proof fn law_turn_ends_with_its_time(state: OverlayView, elapsed: u64)
    ensures
        transition(Phase::Draw, state, Event::Done) == (Phase::Pump, Action::Pump),
        transition(Phase::Draw, state, Event::Failed) == (Phase::Pump, Action::Pump),
        transition(Phase::Pump, state, Event::Done) == (Phase::Measure, Action::Measure),
        elapsed < 16_000_000 ==> transition(Phase::Measure, state, Event::Elapsed(elapsed)) == (
            Phase::Rest,
            Action::Sleep { nanos: (16_000_000 - elapsed) as u64 },
        ),
        elapsed >= 16_000_000 ==> transition(Phase::Measure, state, Event::Elapsed(elapsed)) == (
            Phase::Drain { had_cmd: false },
            Action::Poll,
        ),
        transition(Phase::Rest, state, Event::Done) == (
            Phase::Drain { had_cmd: false },
            Action::Poll,
        ),
{
}

/// A step changes the state only where the surface was built or one of its
/// objects is to be destroyed, and then only which objects exist.
pub proof fn law_steps_change_only_objects(phase: Phase, state: OverlayView, event: Event)
    requires
        phase.accepts(event),
    ensures
        ({
            let action = transition(phase, state, event).1;
            let after = settled(phase, state, event);
            &&& after.same_globals(state) && after.same_sizes(state)
            &&& after.same_scales(state) && after.same_buffers(state)
            &&& phase !is Build ==> after.viewport == state.viewport && after.fractional
                == state.fractional
            &&& phase !is Build ==> after.surface == (state.surface && action !is DestroySurface)
            &&& phase !is Build ==> after.layer_surface == (state.layer_surface && action
                !is DestroyLayerSurface)
        }),
{
}

} // verus!
