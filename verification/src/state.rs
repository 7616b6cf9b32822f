//! What the overlay knows of its output, its surface and its buffers, and how
//! each event of the compositor changes it.

use vstd::prelude::*;
use std::collections::HashMap;

use crate::scale::{
    law_factor_determines_scale, law_integer_scale_multiplies, law_preferred_scale_counts_120ths,
    law_report_determines_scale, OutputScale, SCALE_UNIT,
};

verus! {

/// The shared memory behind a buffer: where it is mapped, how many bytes, and
/// the descriptor it was mapped from.
#[derive(Clone, Copy, Debug, PartialEq, Eq, Structural)]
pub struct MappedBuffer {
    pub addr: usize,
    pub size: usize,
    pub fd: i32,
}

/// A global of the compositor that the overlay binds.
#[derive(Clone, Copy, Debug, PartialEq, Eq, Structural)]
pub enum Global {
    Compositor,
    Shm,
    Output,
    Viewporter,
    FractionalScaleManager,
    LayerShell,
}

/// A request to bind the global announced under `name`.
#[derive(Clone, Copy, Debug, PartialEq, Eq, Structural)]
pub struct Bind {
    pub global: Global,
    pub name: u32,
    pub version: u32,
}

/// The overlay's knowledge of the compositor, without the protocol objects.
///
/// A flag says whether the object that it is named after exists.
pub struct OverlayState {
    pub compositor: bool,
    pub shm: bool,
    pub layer_shell: bool,
    pub output: bool,
    pub viewporter: bool,
    pub fractional_mgr: bool,
    /// Logical size from the last configure event that gave one, else zero.
    pub surface_w: u32,
    pub surface_h: u32,
    /// Physical size of the output's mode, else zero. Kept apart from the
    /// surface size, which a mode must not overwrite.
    pub mode_w: u32,
    pub mode_h: u32,
    /// Physical pixels per logical pixel.
    pub output_scale: OutputScale,
    /// The integer scale of the output, for surfaces without a viewport.
    pub output_scale_int: i32,
    pub viewport: bool,
    pub fractional: bool,
    pub surface: bool,
    pub layer_surface: bool,
    pub configured: bool,
    /// Buffers that the compositor has not released, by object id.
    pub pending_buffers: HashMap<u32, MappedBuffer>,
    /// The buffer that is on the surface.
    pub current_buffer_id: Option<u32>,
    /// The buffer on the surface was released and not replaced yet.
    pub needs_reattach: bool,
}

/// The mathematical value of an [`OverlayState`].
pub struct OverlayView {
    pub compositor: bool,
    pub shm: bool,
    pub layer_shell: bool,
    pub output: bool,
    pub viewporter: bool,
    pub fractional_mgr: bool,
    pub surface_w: u32,
    pub surface_h: u32,
    pub mode_w: u32,
    pub mode_h: u32,
    pub output_scale: OutputScale,
    pub output_scale_int: i32,
    pub viewport: bool,
    pub fractional: bool,
    pub surface: bool,
    pub layer_surface: bool,
    pub configured: bool,
    pub pending_buffers: Map<u32, MappedBuffer>,
    pub current_buffer_id: Option<u32>,
    pub needs_reattach: bool,
}

impl View for OverlayState {
    type V = OverlayView;

    open spec fn view(&self) -> OverlayView {
        OverlayView {
            compositor: self.compositor,
            shm: self.shm,
            layer_shell: self.layer_shell,
            output: self.output,
            viewporter: self.viewporter,
            fractional_mgr: self.fractional_mgr,
            surface_w: self.surface_w,
            surface_h: self.surface_h,
            mode_w: self.mode_w,
            mode_h: self.mode_h,
            output_scale: self.output_scale,
            output_scale_int: self.output_scale_int,
            viewport: self.viewport,
            fractional: self.fractional,
            surface: self.surface,
            layer_surface: self.layer_surface,
            configured: self.configured,
            pending_buffers: self.pending_buffers@,
            current_buffer_id: self.current_buffer_id,
            needs_reattach: self.needs_reattach,
        }
    }
}

/// The global that an interface name stands for, if the overlay binds it.
pub open spec fn global_of(interface: Seq<char>) -> Option<Global> {
    if interface == "wl_compositor"@ {
        Some(Global::Compositor)
    } else if interface == "wl_shm"@ {
        Some(Global::Shm)
    } else if interface == "wl_output"@ {
        Some(Global::Output)
    } else if interface == "wp_viewporter"@ {
        Some(Global::Viewporter)
    } else if interface == "wp_fractional_scale_manager_v1"@ {
        Some(Global::FractionalScaleManager)
    } else if interface == "zwlr_layer_shell_v1"@ {
        Some(Global::LayerShell)
    } else {
        None
    }
}

impl Global {
    /// The highest version of the global that the overlay speaks.
    pub open spec fn spec_max_version(self) -> u32 {
        match self {
            Global::Compositor => 6,
            Global::Shm => 1,
            Global::Output => 4,
            Global::Viewporter => 1,
            Global::FractionalScaleManager => 1,
            Global::LayerShell => 4,
        }
    }

    /// Whether the first announcement of the global wins over later ones.
    pub open spec fn spec_first_wins(self) -> bool {
        match self {
            Global::Output | Global::Viewporter | Global::FractionalScaleManager => true,
            _ => false,
        }
    }

    /// The highest version of the global that the overlay speaks.
    #[verifier::when_used_as_spec(spec_max_version)]
    pub fn max_version(self) -> (r: u32)
        ensures
            r == self.spec_max_version(),
    {
        match self {
            Global::Compositor => 6,
            Global::Shm => 1,
            Global::Output => 4,
            Global::Viewporter => 1,
            Global::FractionalScaleManager => 1,
            Global::LayerShell => 4,
        }
    }

    /// Whether the first announcement of the global wins over later ones.
    #[verifier::when_used_as_spec(spec_first_wins)]
    pub fn first_wins(self) -> (r: bool)
        ensures
            r == self.spec_first_wins(),
    {
        match self {
            Global::Output | Global::Viewporter | Global::FractionalScaleManager => true,
            _ => false,
        }
    }
}

impl OverlayView {
    /// The state before the first event.
    pub open spec fn initial() -> OverlayView {
        OverlayView {
            compositor: false,
            shm: false,
            layer_shell: false,
            output: false,
            viewporter: false,
            fractional_mgr: false,
            surface_w: 0,
            surface_h: 0,
            mode_w: 0,
            mode_h: 0,
            output_scale: OutputScale::unit(),
            output_scale_int: 1,
            viewport: false,
            fractional: false,
            surface: false,
            layer_surface: false,
            configured: false,
            pending_buffers: Map::empty(),
            current_buffer_id: None,
            needs_reattach: false,
        }
    }

    /// The scale is valid; the buffer on the surface, if there is one, has not
    /// been released; and a new frame is owed only to a surface without one.
    pub open spec fn wf(self) -> bool {
        &&& self.output_scale.wf()
        &&& self.pending_buffers.dom().finite()
        &&& self.current_buffer_id matches Some(id) ==> self.pending_buffers.contains_key(id)
        &&& self.needs_reattach ==> self.current_buffer_id is None
    }

    /// Whether `global` is bound.
    pub open spec fn has_global(self, global: Global) -> bool {
        match global {
            Global::Compositor => self.compositor,
            Global::Shm => self.shm,
            Global::Output => self.output,
            Global::Viewporter => self.viewporter,
            Global::FractionalScaleManager => self.fractional_mgr,
            Global::LayerShell => self.layer_shell,
        }
    }

    /// The state once `global` is bound.
    pub open spec fn with_global(self, global: Global) -> OverlayView {
        match global {
            Global::Compositor => OverlayView { compositor: true, ..self },
            Global::Shm => OverlayView { shm: true, ..self },
            Global::Output => OverlayView { output: true, ..self },
            Global::Viewporter => OverlayView { viewporter: true, ..self },
            Global::FractionalScaleManager => OverlayView { fractional_mgr: true, ..self },
            Global::LayerShell => OverlayView { layer_shell: true, ..self },
        }
    }

    /// What the announcement of a global asks to be bound.
    pub open spec fn wanted(self, interface: Seq<char>) -> Option<Global> {
        match global_of(interface) {
            Some(global) => if global.spec_first_wins() && self.has_global(global) {
                None
            } else {
                Some(global)
            },
            None => None,
        }
    }

    /// What the announcement of a global asks to be bound, and at which version.
    pub open spec fn bind_for(self, name: u32, interface: Seq<char>, version: u32) -> Option<Bind> {
        match self.wanted(interface) {
            Some(global) => Some(
                Bind {
                    global,
                    name,
                    version: if version < global.spec_max_version() {
                        version
                    } else {
                        global.spec_max_version()
                    },
                },
            ),
            None => None,
        }
    }

    /// The memory that the release of the buffer `id` gives back.
    pub open spec fn released(self, id: u32) -> Option<MappedBuffer> {
        if self.pending_buffers.contains_key(id) {
            Some(self.pending_buffers[id])
        } else {
            None
        }
    }

    /// The state after the output reported a mode: a mode without area is
    /// ignored.
    pub open spec fn after_mode(self, width: i32, height: i32) -> OverlayView {
        if width > 0 && height > 0 {
            OverlayView { mode_w: width as u32, mode_h: height as u32, ..self }
        } else {
            self
        }
    }

    /// Whether `after` is the state after the output reported an integer
    /// scale: a scale that is not positive is ignored, and one of a surface
    /// with a fractional-scale object is only kept as the fallback.
    pub open spec fn scale_step(self, factor: i32, after: OverlayView) -> bool {
        if factor <= 0 {
            after == self
        } else {
            &&& after == (OverlayView {
                output_scale_int: factor,
                output_scale: after.output_scale,
                ..self
            })
            &&& if self.fractional {
                after.output_scale == self.output_scale
            } else {
                after.output_scale.wf() && after.output_scale.is_factor(factor as nat)
            }
        }
    }

    /// Whether `after` is the state after the surface's fractional-scale
    /// object reported a scale in 120ths: zero is ignored.
    pub open spec fn preferred_scale_step(self, scale: u32, after: OverlayView) -> bool {
        if scale == 0 {
            after == self
        } else {
            &&& after == (OverlayView { output_scale: after.output_scale, ..self })
            &&& after.output_scale.wf()
            &&& after.output_scale.is_nearest_to(scale as nat, SCALE_UNIT as nat)
        }
    }

    /// The state after a configure event: a zero dimension leaves the known
    /// one.
    pub open spec fn after_configure(self, width: u32, height: u32) -> OverlayView {
        OverlayView {
            surface_w: if width > 0 {
                width
            } else {
                self.surface_w
            },
            surface_h: if height > 0 {
                height
            } else {
                self.surface_h
            },
            configured: true,
            ..self
        }
    }

    /// The state after the compositor released the buffer `id`.
    pub open spec fn after_release(self, id: u32) -> OverlayView {
        let kept = OverlayView { pending_buffers: self.pending_buffers.remove(id), ..self };
        if self.current_buffer_id == Some(id) {
            OverlayView { current_buffer_id: None, needs_reattach: true, ..kept }
        } else {
            kept
        }
    }

    /// The state after the buffer `id` was put on the surface.
    pub open spec fn after_attach(self, id: u32, buffer: MappedBuffer) -> OverlayView {
        OverlayView {
            pending_buffers: self.pending_buffers.insert(id, buffer),
            current_buffer_id: Some(id),
            needs_reattach: false,
            ..self
        }
    }
}

/// Whether two strings hold the same text.
fn same_text(a: &str, b: &str) -> (r: bool)
    ensures
        r == (a@ == b@),
{
    a.to_owned() == b.to_owned()
}

/// The global that an interface name stands for, if the overlay binds it.
pub fn find_global(interface: &str) -> (r: Option<Global>)
    ensures
        r == global_of(interface@),
{
    if same_text(interface, "wl_compositor") {
        Some(Global::Compositor)
    } else if same_text(interface, "wl_shm") {
        Some(Global::Shm)
    } else if same_text(interface, "wl_output") {
        Some(Global::Output)
    } else if same_text(interface, "wp_viewporter") {
        Some(Global::Viewporter)
    } else if same_text(interface, "wp_fractional_scale_manager_v1") {
        Some(Global::FractionalScaleManager)
    } else if same_text(interface, "zwlr_layer_shell_v1") {
        Some(Global::LayerShell)
    } else {
        None
    }
}

impl Default for OverlayState {
    fn default() -> (r: Self)
        ensures
            r@ == OverlayView::initial(),
            r@.wf(),
    {
        OverlayState {
            compositor: false,
            shm: false,
            layer_shell: false,
            output: false,
            viewporter: false,
            fractional_mgr: false,
            surface_w: 0,
            surface_h: 0,
            mode_w: 0,
            mode_h: 0,
            output_scale: OutputScale::one(),
            output_scale_int: 1,
            viewport: false,
            fractional: false,
            surface: false,
            layer_surface: false,
            configured: false,
            pending_buffers: HashMap::new(),
            current_buffer_id: None,
            needs_reattach: false,
        }
    }
}

impl OverlayState {
    /// Notes that `global` is bound.
    fn set_bound(&mut self, global: Global)
        ensures
            final(self)@ == old(self)@.with_global(global),
    {
        match global {
            Global::Compositor => {
                self.compositor = true;
            },
            Global::Shm => {
                self.shm = true;
            },
            Global::Output => {
                self.output = true;
            },
            Global::Viewporter => {
                self.viewporter = true;
            },
            Global::FractionalScaleManager => {
                self.fractional_mgr = true;
            },
            Global::LayerShell => {
                self.layer_shell = true;
            },
        }
    }

    /// The compositor announced a global. Returns what to bind, if anything,
    /// at no higher version than both sides speak.
    pub fn on_global(&mut self, name: u32, interface: &str, version: u32) -> (r: Option<Bind>)
        requires
            old(self)@.wf(),
        ensures
            final(self)@.wf(),
            r == old(self)@.bind_for(name, interface@, version),
            match old(self)@.wanted(interface@) {
                Some(global) => {
                    &&& r == Some(
                        Bind {
                            global,
                            name,
                            version: if version < global.spec_max_version() {
                                version
                            } else {
                                global.spec_max_version()
                            },
                        },
                    )
                    &&& final(self)@ == old(self)@.with_global(global)
                },
                None => r is None && final(self)@ == old(self)@,
            },
    {
        let global: Global = match find_global(interface) {
            Some(global) => global,
            None => {
                return None;
            },
        };
        let bound: bool = match global {
            Global::Compositor => self.compositor,
            Global::Shm => self.shm,
            Global::Output => self.output,
            Global::Viewporter => self.viewporter,
            Global::FractionalScaleManager => self.fractional_mgr,
            Global::LayerShell => self.layer_shell,
        };
        if global.first_wins() && bound {
            return None;
        }
        self.set_bound(global);
        let limit: u32 = global.max_version();
        let agreed: u32 = if version < limit {
            version
        } else {
            limit
        };
        Some(Bind { global, name, version: agreed })
    }

    /// The output reported its mode in physical pixels.
    pub fn on_mode(&mut self, width: i32, height: i32)
        requires
            old(self)@.wf(),
        ensures
            final(self)@.wf(),
            final(self)@ == old(self)@.after_mode(width, height),
    {
        if width > 0 && height > 0 {
            self.mode_w = width as u32;
            self.mode_h = height as u32;
        }
    }

    /// The output reported its integer scale. It becomes the scale of the
    /// overlay unless the surface has a fractional-scale object.
    pub fn on_scale(&mut self, factor: i32)
        requires
            old(self)@.wf(),
        ensures
            final(self)@.wf(),
            old(self)@.scale_step(factor, final(self)@),
    {
        if factor > 0 {
            self.output_scale_int = factor;
            if !self.fractional {
                self.output_scale = OutputScale::from_factor(factor);
            }
        }
    }

    /// The surface's fractional-scale object reported the preferred scale in
    /// 120ths.
    pub fn on_preferred_scale(&mut self, scale: u32)
        requires
            old(self)@.wf(),
        ensures
            final(self)@.wf(),
            old(self)@.preferred_scale_step(scale, final(self)@),
    {
        if scale > 0 {
            self.output_scale = OutputScale::from_preferred(scale);
        }
    }

    /// The layer surface was configured with a logical size, in which a zero
    /// leaves the choice to the client.
    pub fn on_configure(&mut self, width: u32, height: u32)
        requires
            old(self)@.wf(),
        ensures
            final(self)@.wf(),
            final(self)@ == old(self)@.after_configure(width, height),
    {
        if width > 0 {
            self.surface_w = width;
        }
        if height > 0 {
            self.surface_h = height;
        }
        self.configured = true;
    }

    /// The compositor released a buffer. Returns the memory to give back, if
    /// the buffer was pending.
    pub fn on_release(&mut self, id: u32) -> (r: Option<MappedBuffer>)
        requires
            old(self)@.wf(),
        ensures
            final(self)@.wf(),
            final(self)@ == old(self)@.after_release(id),
            r == old(self)@.released(id),
            r == if old(self)@.pending_buffers.contains_key(id) {
                Some(old(self)@.pending_buffers[id])
            } else {
                None
            },
    {
        broadcast use vstd::std_specs::hash::group_hash_axioms;

        let freed: Option<MappedBuffer> = self.pending_buffers.remove(&id);
        let current: bool = match self.current_buffer_id {
            Some(current) => current == id,
            None => false,
        };
        if current {
            self.current_buffer_id = None;
            self.needs_reattach = true;
        }
        freed
    }

    /// A buffer was created for the frame that is about to be committed.
    pub fn attach(&mut self, id: u32, buffer: MappedBuffer)
        requires
            old(self)@.wf(),
        ensures
            final(self)@.wf(),
            final(self)@ == old(self)@.after_attach(id, buffer),
    {
        broadcast use vstd::std_specs::hash::group_hash_axioms;

        self.pending_buffers.insert(id, buffer);
        self.current_buffer_id = Some(id);
        self.needs_reattach = false;
    }

    /// How many buffers the compositor holds.
    pub fn pending(&self) -> (r: usize)
        requires
            self@.wf(),
        ensures
            r == self@.pending_buffers.len(),
    {
        broadcast use vstd::std_specs::hash::group_hash_axioms;

        self.pending_buffers.len()
    }
}

/// The preferred scale of a surface overrides the integer scale of its output,
/// in whichever order the two arrive.
pub proof fn law_preferred_scale_overrides_integer(
    before: OverlayView,
    scale: u32,
    factor: i32,
    preferred: OverlayView,
    both: OverlayView,
    integer: OverlayView,
    swapped: OverlayView,
)
    requires
        before.wf(),
        before.fractional,
        scale > 0,
        before.preferred_scale_step(scale, preferred),
        preferred.scale_step(factor, both),
        before.scale_step(factor, integer),
        integer.preferred_scale_step(scale, swapped),
    ensures
        both.output_scale == preferred.output_scale,
        both.output_scale.is_nearest_to(scale as nat, SCALE_UNIT as nat),
        both == swapped,
{
    law_report_determines_scale(
        preferred.output_scale,
        swapped.output_scale,
        scale as nat,
        SCALE_UNIT as nat,
    );
}

/// A scale report has one outcome.
pub proof fn law_scale_reports_are_deterministic(
    before: OverlayView,
    factor: i32,
    scale: u32,
    a: OverlayView,
    b: OverlayView,
    c: OverlayView,
    d: OverlayView,
)
    requires
        before.scale_step(factor, a),
        before.scale_step(factor, b),
        before.preferred_scale_step(scale, c),
        before.preferred_scale_step(scale, d),
    ensures
        a == b,
        c == d,
{
    if factor > 0 && !before.fractional {
        law_factor_determines_scale(a.output_scale, b.output_scale, factor as nat);
    }
    if scale > 0 {
        law_report_determines_scale(
            c.output_scale,
            d.output_scale,
            scale as nat,
            SCALE_UNIT as nat,
        );
    }
}

/// The first output, viewporter and fractional-scale manager that are announced
/// are the ones that stay bound; the other globals follow the last
/// announcement.
pub proof fn law_first_announcement_wins(state: OverlayView, interface: Seq<char>, global: Global)
    requires
        global_of(interface) == Some(global),
    ensures
        state.with_global(global).has_global(global),
        global.spec_first_wins() ==> state.with_global(global).wanted(interface) is None,
        !global.spec_first_wins() ==> state.wanted(interface) == Some(global),
{
}

/// Once configured, the surface stays configured, whatever event follows.
pub proof fn law_configured_stays(
    state: OverlayView,
    width: i32,
    height: i32,
    surface_w: u32,
    surface_h: u32,
    id: u32,
    buffer: MappedBuffer,
    global: Global,
    factor: i32,
    scale: u32,
    scaled: OverlayView,
    preferred: OverlayView,
)
    requires
        state.configured,
        state.scale_step(factor, scaled),
        state.preferred_scale_step(scale, preferred),
    ensures
        state.after_mode(width, height).configured,
        state.after_configure(surface_w, surface_h).configured,
        state.after_release(id).configured,
        state.after_attach(id, buffer).configured,
        state.with_global(global).configured,
        scaled.configured,
        preferred.configured,
{
}

impl OverlayView {
    /// The same globals are bound.
    pub open spec fn same_globals(self, other: OverlayView) -> bool {
        &&& self.compositor == other.compositor
        &&& self.shm == other.shm
        &&& self.layer_shell == other.layer_shell
        &&& self.output == other.output
        &&& self.viewporter == other.viewporter
        &&& self.fractional_mgr == other.fractional_mgr
    }

    /// The same objects exist for the surface.
    pub open spec fn same_objects(self, other: OverlayView) -> bool {
        &&& self.viewport == other.viewport
        &&& self.fractional == other.fractional
        &&& self.surface == other.surface
        &&& self.layer_surface == other.layer_surface
    }

    /// The same sizes are known.
    pub open spec fn same_sizes(self, other: OverlayView) -> bool {
        &&& self.surface_w == other.surface_w
        &&& self.surface_h == other.surface_h
        &&& self.mode_w == other.mode_w
        &&& self.mode_h == other.mode_h
        &&& self.configured == other.configured
    }

    /// The same scales are known.
    pub open spec fn same_scales(self, other: OverlayView) -> bool {
        &&& self.output_scale == other.output_scale
        &&& self.output_scale_int == other.output_scale_int
    }

    /// The same buffers are held.
    pub open spec fn same_buffers(self, other: OverlayView) -> bool {
        &&& self.pending_buffers == other.pending_buffers
        &&& self.current_buffer_id == other.current_buffer_id
        &&& self.needs_reattach == other.needs_reattach
    }
}

/// The overlay starts with nothing: no global, no object, no size, no buffer,
/// and an unscaled output.
pub proof fn law_start_knows_nothing(global: Global, id: u32)
    ensures
        ({
            let start = OverlayView::initial();
            &&& !start.has_global(global)
            &&& !start.surface && !start.layer_surface && !start.viewport && !start.fractional
            &&& start.surface_w == 0 && start.surface_h == 0
            &&& start.mode_w == 0 && start.mode_h == 0
            &&& !start.configured
            &&& start.output_scale.is_factor(1)
            &&& start.output_scale_int == 1
            &&& start.released(id) is None
            &&& start.current_buffer_id is None && !start.needs_reattach
        }),
{
    vstd::arithmetic::power2::lemma2_to64();
    vstd::arithmetic::power2::lemma2_to64_rest();
}

/// Each interface that the overlay binds is known by its own name, and no other
/// name stands for any.
pub proof fn law_globals_are_known_by_name(interface: Seq<char>)
    ensures
        global_of(interface) == Some(Global::Compositor) <==> interface == "wl_compositor"@,
        global_of(interface) == Some(Global::Shm) <==> interface == "wl_shm"@,
        global_of(interface) == Some(Global::Output) <==> interface == "wl_output"@,
        global_of(interface) == Some(Global::Viewporter) <==> interface == "wp_viewporter"@,
        global_of(interface) == Some(Global::FractionalScaleManager) <==> interface
            == "wp_fractional_scale_manager_v1"@,
        global_of(interface) == Some(Global::LayerShell) <==> interface == "zwlr_layer_shell_v1"@,
{
    reveal_strlit("wl_compositor");
    reveal_strlit("wl_shm");
    reveal_strlit("wl_output");
    reveal_strlit("wp_viewporter");
    reveal_strlit("wp_fractional_scale_manager_v1");
    reveal_strlit("zwlr_layer_shell_v1");
    assert("wl_compositor"@.len() == 13);
    assert("wl_shm"@.len() == 6);
    assert("wl_output"@.len() == 9);
    assert("wp_viewporter"@.len() == 13);
    assert("wl_compositor"@[1] == 'l' && "wp_viewporter"@[1] == 'p');
    assert("wp_fractional_scale_manager_v1"@.len() == 30);
    assert("zwlr_layer_shell_v1"@.len() == 19);
}

/// An announced global is bound under the name that it was announced with, at
/// the highest version that both sides speak, unless the overlay does not know
/// it or already has the one output, viewporter or fractional-scale manager
/// that it uses.
pub proof fn law_announced_globals_are_bound(
    state: OverlayView,
    name: u32,
    interface: Seq<char>,
    version: u32,
)
    ensures
        state.bind_for(name, interface, version) is None <==> {
            ||| global_of(interface) is None
            ||| interface == "wl_output"@ && state.output
            ||| interface == "wp_viewporter"@ && state.viewporter
            ||| interface == "wp_fractional_scale_manager_v1"@ && state.fractional_mgr
        },
        state.bind_for(name, interface, version) matches Some(bind) ==> {
            let limit: u32 = if interface == "wl_compositor"@ {
                6
            } else if interface == "wl_output"@ || interface == "zwlr_layer_shell_v1"@ {
                4
            } else {
                1
            };
            &&& Some(bind.global) == global_of(interface)
            &&& bind.name == name
            &&& bind.version <= version && bind.version <= limit
            &&& bind.version == version || bind.version == limit
        },
{
    law_globals_are_known_by_name(interface);
}

/// Binding a global is noted of that global and of nothing else.
pub proof fn law_binding_notes_one_global(state: OverlayView, bound: Global, other: Global)
    ensures
        state.with_global(bound).has_global(other) == (other == bound || state.has_global(other)),
        state.with_global(bound).compositor == (state.compositor || bound is Compositor),
        state.with_global(bound).shm == (state.shm || bound is Shm),
        state.with_global(bound).layer_shell == (state.layer_shell || bound is LayerShell),
        state.with_global(bound).output == (state.output || bound is Output),
        state.with_global(bound).viewporter == (state.viewporter || bound is Viewporter),
        state.with_global(bound).fractional_mgr == (state.fractional_mgr || bound
            is FractionalScaleManager),
        state.with_global(bound).same_objects(state),
        state.with_global(bound).same_sizes(state),
        state.with_global(bound).same_scales(state),
        state.with_global(bound).same_buffers(state),
{
}

/// The last mode with area is the mode, whatever was known before; one without
/// area changes nothing. A mode changes nothing else.
pub proof fn law_last_mode_counts(state: OverlayView, width: i32, height: i32)
    ensures
        ({
            let after = state.after_mode(width, height);
            &&& width > 0 && height > 0 ==> after.mode_w == width && after.mode_h == height
            &&& width <= 0 || height <= 0 ==> after == state
            &&& after.surface_w == state.surface_w && after.surface_h == state.surface_h
            &&& after.configured == state.configured
            &&& after.same_globals(state) && after.same_objects(state)
            &&& after.same_scales(state) && after.same_buffers(state)
        }),
{
}

/// A configure event sets each dimension that it gives, whatever was known
/// before, and leaves the other. It changes nothing else.
pub proof fn law_last_configure_counts(state: OverlayView, width: u32, height: u32)
    ensures
        ({
            let after = state.after_configure(width, height);
            &&& after.configured
            &&& width > 0 ==> after.surface_w == width
            &&& width == 0 ==> after.surface_w == state.surface_w
            &&& height > 0 ==> after.surface_h == height
            &&& height == 0 ==> after.surface_h == state.surface_h
            &&& after.mode_w == state.mode_w && after.mode_h == state.mode_h
            &&& after.same_globals(state) && after.same_objects(state)
            &&& after.same_scales(state) && after.same_buffers(state)
        }),
{
}

/// The release of a buffer gives back the memory that the buffer was last
/// attached with, takes that buffer from those held and no other, and leaves
/// the surface without a buffer exactly where it was the one on it.
pub proof fn law_release_takes_one_buffer(
    state: OverlayView,
    id: u32,
    other: u32,
    buffer: MappedBuffer,
)
    ensures
        ({
            let after = state.after_release(id);
            &&& state.after_attach(id, buffer).released(id) == Some(buffer)
            &&& after.released(id) is None
            &&& other != id ==> after.released(other) == state.released(other)
            &&& after.current_buffer_id == if state.current_buffer_id == Some(id) {
                None
            } else {
                state.current_buffer_id
            }
            &&& after.needs_reattach <==> state.needs_reattach || state.current_buffer_id == Some(
                id,
            )
            &&& after.same_globals(state) && after.same_objects(state)
            &&& after.same_sizes(state) && after.same_scales(state)
        }),
{
}

/// A buffer that is attached is held with its memory, is the one on the surface,
/// and settles what was owed to it. The other buffers stay as they are.
pub proof fn law_attach_adds_one_buffer(
    state: OverlayView,
    id: u32,
    other: u32,
    buffer: MappedBuffer,
)
    ensures
        ({
            let after = state.after_attach(id, buffer);
            &&& after.released(id) == Some(buffer)
            &&& other != id ==> after.released(other) == state.released(other)
            &&& after.current_buffer_id == Some(id)
            &&& !after.needs_reattach
            &&& after.same_globals(state) && after.same_objects(state)
            &&& after.same_sizes(state) && after.same_scales(state)
        }),
{
}

/// A positive integer scale is always kept as the fallback, and is the scale of
/// the overlay unless the surface has a fractional-scale object: then a size
/// takes that many physical pixels per logical one.
pub proof fn law_integer_scale_counts(
    state: OverlayView,
    factor: i32,
    after: OverlayView,
    size: nat,
)
    requires
        state.scale_step(factor, after),
        1 <= size <= u32::MAX,
    ensures
        factor <= 0 ==> after == state,
        factor > 0 ==> after.output_scale_int == factor,
        factor > 0 && state.fractional ==> after.output_scale == state.output_scale,
        factor > 0 && !state.fractional ==> after.output_scale.physical(size) == if size * factor
            <= u32::MAX {
            (size * factor) as nat
        } else {
            u32::MAX as nat
        },
        after.same_globals(state) && after.same_objects(state),
        after.same_sizes(state) && after.same_buffers(state),
{
    if factor > 0 && !state.fractional {
        law_integer_scale_multiplies(after.output_scale, factor as nat, size);
    }
}

/// A positive preferred scale is the scale of the overlay: the binary64 number
/// nearest to that many 120ths. It leaves the fallback and all else.
pub proof fn law_preferred_scale_counts(state: OverlayView, scale: u32, after: OverlayView)
    requires
        state.preferred_scale_step(scale, after),
    ensures
        scale == 0 ==> after == state,
        scale > 0 ==> after.output_scale.wf() && -120 <= 2 * (after.output_scale.significand * 120
            - scale * vstd::arithmetic::power2::pow2(after.output_scale.shift as nat)) <= 120,
        after.output_scale_int == state.output_scale_int,
        after.same_globals(state) && after.same_objects(state),
        after.same_sizes(state) && after.same_buffers(state),
{
    if scale > 0 {
        law_preferred_scale_counts_120ths(after.output_scale, scale);
    }
}

} // verus!
