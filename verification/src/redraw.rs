//! The geometry of a frame: how large its buffer is and how the buffer is
//! mapped onto the surface.

use vstd::prelude::*;
use vstd::arithmetic::power2::pow2;

use crate::scale::{
    law_integer_scale_divides, law_integer_scale_multiplies, law_only_the_unit_is_one,
    law_physical_covers_logical, law_scales_below_one_are_raised, law_unit_scale_keeps_sizes,
    OutputScale,
};
use crate::state::{MappedBuffer, OverlayState, OverlayView};

verus! {

/// How the compositor is told to map a buffer onto the surface.
#[derive(Clone, Copy, Debug, PartialEq, Eq, Structural)]
pub enum SurfaceMapping {
    /// A viewport shows the whole buffer in the logical rectangle.
    Viewport { source_w: u32, source_h: u32, destination_w: u32, destination_h: u32 },
    /// The buffer has an integer scale.
    BufferScale { scale: i32 },
}

/// One frame: the logical size of the surface, the physical size of its
/// buffer, the scale between them, and the mapping.
#[derive(Clone, Copy, Debug, PartialEq, Eq, Structural)]
pub struct FramePlan {
    pub logical_w: u32,
    pub logical_h: u32,
    pub width: u32,
    pub height: u32,
    pub scale: OutputScale,
    pub mapping: SurfaceMapping,
}

impl OverlayView {
    /// The logical size of the surface: the configured size where it has area,
    /// else the mode divided by the scale, else zero.
    pub open spec fn logical_size(self) -> (nat, nat) {
        if self.surface_w > 0 && self.surface_h > 0 {
            (self.surface_w as nat, self.surface_h as nat)
        } else if self.mode_w == 0 || self.mode_h == 0 {
            (0, 0)
        } else {
            let scale = self.output_scale.at_least_one();
            (scale.logical(self.mode_w as nat), scale.logical(self.mode_h as nat))
        }
    }

    /// Whether the surface or the mode gives the overlay a size.
    pub open spec fn has_size(self) -> bool {
        (self.surface_w > 0 && self.surface_h > 0) || (self.mode_w > 0 && self.mode_h > 0)
    }

    /// The mapping of a buffer of `width` by `height` onto the surface.
    pub open spec fn mapping(self, width: u32, height: u32) -> SurfaceMapping {
        if self.output_scale.at_least_one() == OutputScale::unit() {
            SurfaceMapping::BufferScale { scale: 1 }
        } else if self.viewport {
            SurfaceMapping::Viewport {
                source_w: width,
                source_h: height,
                destination_w: self.logical_size().0 as u32,
                destination_h: self.logical_size().1 as u32,
            }
        } else {
            SurfaceMapping::BufferScale {
                scale: if self.output_scale_int > 1 {
                    self.output_scale_int
                } else {
                    1
                },
            }
        }
    }

    /// The next frame, where there is a surface with a size to draw on.
    pub open spec fn frame(self) -> Option<FramePlan> {
        let scale = self.output_scale.at_least_one();
        let (lw, lh) = self.logical_size();
        if !self.surface || !self.has_size() {
            None
        } else {
            let width = scale.physical(lw) as u32;
            let height = scale.physical(lh) as u32;
            Some(
                FramePlan {
                    logical_w: lw as u32,
                    logical_h: lh as u32,
                    width,
                    height,
                    scale,
                    mapping: self.mapping(width, height),
                },
            )
        }
    }
}

/// The logical size used for buffer sizing and as the viewport destination.
pub fn logical_surface_size(state: &OverlayState) -> (r: (u32, u32))
    requires
        state@.wf(),
    ensures
        r.0 == state@.logical_size().0,
        r.1 == state@.logical_size().1,
        state@.has_size() ==> r.0 > 0 && r.1 > 0,
        !state@.has_size() ==> r.0 == 0 && r.1 == 0,
{
    if state.surface_w > 0 && state.surface_h > 0 {
        return (state.surface_w, state.surface_h);
    }
    if state.mode_w == 0 || state.mode_h == 0 {
        return (0, 0);
    }
    let scale: OutputScale = state.output_scale.effective();
    (scale.to_logical(state.mode_w), scale.to_logical(state.mode_h))
}

/// The next frame, or `None` where nothing can be drawn yet.
pub fn plan_frame(state: &OverlayState) -> (r: Option<FramePlan>)
    requires
        state@.wf(),
    ensures
        r == state@.frame(),
{
    if !state.surface {
        return None;
    }
    let (lw, lh): (u32, u32) = logical_surface_size(state);
    if lw == 0 || lh == 0 {
        return None;
    }
    let scale: OutputScale = state.output_scale.effective();
    let width: u32 = scale.to_physical(lw);
    let height: u32 = scale.to_physical(lh);
    let mapping: SurfaceMapping = if !scale.is_one() {
        if state.viewport {
            SurfaceMapping::Viewport {
                source_w: width,
                source_h: height,
                destination_w: lw,
                destination_h: lh,
            }
        } else {
            SurfaceMapping::BufferScale {
                scale: if state.output_scale_int > 1 {
                    state.output_scale_int
                } else {
                    1
                },
            }
        }
    } else {
        SurfaceMapping::BufferScale { scale: 1 }
    };
    Some(FramePlan { logical_w: lw, logical_h: lh, width, height, scale, mapping })
}

/// Whether a buffer of this size can be laid out: the bytes of a row are an
/// `i32`, and those of the whole buffer a `usize`.
pub open spec fn fits(width: u32, height: u32) -> bool {
    &&& width * 4 <= i32::MAX
    &&& width * 4 * height <= usize::MAX
}

/// The bytes of one row and of the whole buffer, at four bytes per pixel.
pub fn buffer_layout(width: u32, height: u32) -> (r: (i32, usize))
    requires
        fits(width, height),
    ensures
        r.0 == width * 4,
        r.1 == width * 4 * height,
{
    let stride: i32 = (width as i32) * 4;
    (stride, (stride as usize) * (height as usize))
}

/// The bytes of one row and of the whole buffer, or `None` exactly for sizes
/// that do not fit.
pub fn checked_layout(width: u32, height: u32) -> (r: Option<(i32, usize)>)
    ensures
        r is Some <==> fits(width, height),
        r matches Some(layout) ==> layout.0 == width * 4 && layout.1 == width * 4 * height,
{
    let row: u64 = (width as u64) * 4;
    if row > i32::MAX as u64 {
        return None;
    }
    proof {
        assert(0 <= row * height <= 0x7FFF_FFFF * 0xFFFF_FFFF) by (nonlinear_arith)
            requires
                0 <= row <= 0x7FFF_FFFF,
                0 <= height <= 0xFFFF_FFFF,
        ;
    }
    if row * (height as u64) > usize::MAX as u64 {
        return None;
    }
    Some(buffer_layout(width, height))
}

/// A configure event that gave a size decides it: no later mode changes it.
pub proof fn law_mode_keeps_configured_size(state: OverlayView, width: i32, height: i32)
    requires
        state.surface_w > 0,
        state.surface_h > 0,
    ensures
        state.after_mode(width, height).logical_size() == state.logical_size(),
        state.after_mode(width, height).surface_w == state.surface_w,
        state.after_mode(width, height).surface_h == state.surface_h,
{
}

/// An empty configure event leaves the size as it was, so a surface that is
/// anchored to all edges takes the mode divided by the scale.
pub proof fn law_empty_configure_keeps_size(state: OverlayView)
    ensures
        state.after_configure(0, 0).configured,
        state.after_configure(0, 0).logical_size() == state.logical_size(),
        state.surface_w == 0 && state.mode_w > 0 && state.mode_h > 0
            ==> state.after_configure(0, 0).logical_size() == (
            state.output_scale.at_least_one().logical(state.mode_w as nat),
            state.output_scale.at_least_one().logical(state.mode_h as nat),
        ),
{
}

/// On an unscaled output the buffer has the logical size of the surface, and
/// a surface without a configured size covers the mode.
pub proof fn law_unscaled_frame(state: OverlayView)
    requires
        state.wf(),
        state.surface,
        state.has_size(),
        state.output_scale == OutputScale::unit(),
    ensures
        state.frame() matches Some(plan) && {
            &&& plan.width == plan.logical_w
            &&& plan.height == plan.logical_h
            &&& plan.mapping == (SurfaceMapping::BufferScale { scale: 1 })
            &&& (state.surface_w == 0 || state.surface_h == 0) ==> plan.width == state.mode_w
                && plan.height == state.mode_h
        },
{
    vstd::arithmetic::power2::lemma2_to64();
    vstd::arithmetic::power2::lemma2_to64_rest();
    if state.mode_w > 0 && state.mode_h > 0 {
        law_unit_scale_keeps_sizes(state.mode_w as nat);
        law_unit_scale_keeps_sizes(state.mode_h as nat);
    }
    law_unit_scale_keeps_sizes(state.logical_size().0);
    law_unit_scale_keeps_sizes(state.logical_size().1);
}

/// Under an integer scale that divides the mode, the frame of a surface without
/// a configured size has exactly the pixels of the mode.
pub proof fn law_integer_scale_frame_is_mode(state: OverlayView, factor: nat, w: nat, h: nat)
    requires
        state.wf(),
        state.surface,
        state.surface_w == 0 || state.surface_h == 0,
        state.output_scale.is_factor(factor),
        state.mode_w == w * factor,
        state.mode_h == h * factor,
        state.mode_w > 0,
        state.mode_h > 0,
    ensures
        state.frame() matches Some(plan) && {
            &&& plan.logical_w == w
            &&& plan.logical_h == h
            &&& plan.width == state.mode_w
            &&& plan.height == state.mode_h
        },
{
    let scale = state.output_scale;
    let p = vstd::arithmetic::power2::pow2(scale.shift as nat);
    vstd::arithmetic::power2::lemma_pow2_pos(scale.shift as nat);
    assert(factor >= 1) by (nonlinear_arith)
        requires
            factor * p > 0,
            p > 0,
            factor >= 0,
    ;
    assert(factor * p >= p) by (nonlinear_arith)
        requires
            factor >= 1,
            p > 0,
    ;
    law_integer_scale_divides(scale, factor, w);
    law_integer_scale_divides(scale, factor, h);
    assert(w <= w * factor && h <= h * factor) by (nonlinear_arith)
        requires
            factor >= 1,
            w >= 0,
            h >= 0,
    ;
}

/// A frame is never empty, and its buffer covers the surface at no less than
/// one physical pixel per logical one.
pub proof fn law_frame_covers_surface(state: OverlayView)
    requires
        state.wf(),
        state.frame() is Some,
    ensures
        1 <= state.frame()->0.logical_w <= state.frame()->0.width,
        1 <= state.frame()->0.logical_h <= state.frame()->0.height,
{
    let (lw, lh) = state.logical_size();
    law_physical_covers_logical(state.output_scale, lw);
    law_physical_covers_logical(state.output_scale, lh);
}

/// A fractional scale is only ever submitted through a viewport that shows the
/// whole buffer in the whole surface.
pub proof fn law_scaled_frame_uses_viewport(state: OverlayView)
    requires
        state.wf(),
        state.viewport,
        state.frame() is Some,
        state.output_scale.at_least_one() != OutputScale::unit(),
    ensures
        state.frame()->0.mapping == (SurfaceMapping::Viewport {
            source_w: state.frame()->0.width,
            source_h: state.frame()->0.height,
            destination_w: state.frame()->0.logical_w,
            destination_h: state.frame()->0.logical_h,
        }),
{
}

/// The memory of a buffer is given back exactly once: by the first release of
/// the buffer after it was attached.
pub proof fn law_release_returns_memory_once(state: OverlayView, id: u32, buffer: MappedBuffer)
    ensures
        state.after_attach(id, buffer).pending_buffers.contains_key(id),
        state.after_attach(id, buffer).pending_buffers[id] == buffer,
        !state.after_attach(id, buffer).after_release(id).pending_buffers.contains_key(id),
        state.after_attach(id, buffer).after_release(id).pending_buffers
            == state.pending_buffers.remove(id),
{
    assert(state.pending_buffers.insert(id, buffer).remove(id) =~= state.pending_buffers.remove(
        id,
    ));
}

/// The release of the buffer on the surface leaves the surface without one and
/// asks for a new frame; the next attached buffer settles that. The release of
/// any other buffer changes neither.
pub proof fn law_release_asks_for_reattach(
    state: OverlayView,
    id: u32,
    other: u32,
    buffer: MappedBuffer,
)
    requires
        state.current_buffer_id == Some(id),
        other != id,
    ensures
        state.after_release(id).needs_reattach,
        state.after_release(id).current_buffer_id is None,
        !state.after_release(id).after_attach(other, buffer).needs_reattach,
        state.after_release(id).after_attach(other, buffer).current_buffer_id == Some(other),
        state.after_release(other).needs_reattach == state.needs_reattach,
        state.after_release(other).current_buffer_id == Some(id),
{
}

/// A configure event with a width and a height decides the logical size,
/// whatever was known before.
pub proof fn law_configure_decides_size(state: OverlayView, width: u32, height: u32)
    requires
        width > 0,
        height > 0,
    ensures
        state.after_configure(width, height).logical_size() == (width as nat, height as nat),
        state.after_configure(width, height).has_size(),
{
}

/// The overlay has a size exactly where the surface or the mode has area, and
/// then neither dimension is zero. A configured area is the size; without one
/// the size is the share of the mode that the scale leaves, where a scale below
/// one counts as one.
pub proof fn law_size_comes_from_surface_or_mode(state: OverlayView)
    requires
        state.wf(),
    ensures
        state.has_size() <==> (state.surface_w > 0 && state.surface_h > 0) || (state.mode_w > 0
            && state.mode_h > 0),
        state.has_size() <==> state.logical_size().0 > 0 && state.logical_size().1 > 0,
        !state.has_size() ==> state.logical_size() == (0nat, 0nat),
        state.surface_w > 0 && state.surface_h > 0 ==> state.logical_size() == (
            state.surface_w as nat,
            state.surface_h as nat,
        ),
        (state.surface_w == 0 || state.surface_h == 0) && state.mode_w > 0 && state.mode_h > 0 ==> {
            let scale = state.output_scale;
            if scale.significand >= pow2(scale.shift as nat) {
                state.logical_size() == (
                    scale.logical(state.mode_w as nat),
                    scale.logical(state.mode_h as nat),
                )
            } else {
                state.logical_size() == (state.mode_w as nat, state.mode_h as nat)
            }
        },
{
    law_scales_below_one_are_raised(state.output_scale);
    law_only_the_unit_is_one(state.output_scale.at_least_one());
    if state.mode_w > 0 && state.mode_h > 0 {
        law_unit_scale_keeps_sizes(state.mode_w as nat);
        law_unit_scale_keeps_sizes(state.mode_h as nat);
    }
}

/// There is a frame to draw exactly where there is a surface with a size. Its
/// logical size is that of the surface. Its scale, by which the cursor's
/// position is multiplied too, is the number by which the logical size is
/// multiplied to get the size of the buffer: the scale of the output, or one
/// where that is below one.
pub proof fn law_frame_scale_relates_sizes(state: OverlayView)
    requires
        state.wf(),
    ensures
        state.frame() is Some <==> state.surface && ((state.surface_w > 0 && state.surface_h > 0)
            || (state.mode_w > 0 && state.mode_h > 0)),
        state.frame() matches Some(plan) ==> {
            let output = state.output_scale;
            &&& plan.logical_w == state.logical_size().0
            &&& plan.logical_h == state.logical_size().1
            &&& plan.width == plan.scale.physical(plan.logical_w as nat)
            &&& plan.height == plan.scale.physical(plan.logical_h as nat)
            &&& output.significand >= pow2(output.shift as nat) ==> plan.scale == output
            &&& output.significand < pow2(output.shift as nat) ==> plan.scale.is_factor(1)
            &&& plan.scale.wf()
        },
{
    law_size_comes_from_surface_or_mode(state);
    law_scales_below_one_are_raised(state.output_scale);
    if state.frame() is Some {
        law_frame_covers_surface(state);
        let scale = state.output_scale.at_least_one();
        assert(scale.physical(state.logical_size().0) <= u32::MAX);
        assert(scale.physical(state.logical_size().1) <= u32::MAX);
        if state.surface_w == 0 || state.surface_h == 0 {
            assert(scale.logical(state.mode_w as nat) <= u32::MAX);
            assert(scale.logical(state.mode_h as nat) <= u32::MAX);
        }
    }
}

/// On an output with an integer scale the cursor and the buffer are scaled by
/// that number: `factor` physical pixels stand for each logical one.
pub proof fn law_integer_scale_frame(state: OverlayView, factor: nat)
    requires
        state.wf(),
        state.frame() is Some,
        state.output_scale.is_factor(factor),
    ensures
        state.frame()->0.scale.is_factor(factor),
        state.frame()->0.width == if state.frame()->0.logical_w * factor <= u32::MAX {
            state.frame()->0.logical_w * factor
        } else {
            u32::MAX as int
        },
        state.frame()->0.height == if state.frame()->0.logical_h * factor <= u32::MAX {
            state.frame()->0.logical_h * factor
        } else {
            u32::MAX as int
        },
{
    let scale = state.output_scale;
    let p = pow2(scale.shift as nat);
    vstd::arithmetic::power2::lemma_pow2_pos(scale.shift as nat);
    assert(factor * p >= p) by (nonlinear_arith)
        requires
            factor * p > 0,
            p > 0,
            factor >= 0,
    ;
    law_frame_scale_relates_sizes(state);
    law_frame_covers_surface(state);
    law_integer_scale_multiplies(scale, factor, state.frame()->0.logical_w as nat);
    law_integer_scale_multiplies(scale, factor, state.frame()->0.logical_h as nat);
}

/// A buffer is shown through the viewport exactly where there is one and the
/// scale is above one: the whole buffer in the whole surface. Otherwise the
/// buffer has an integer scale: one on an output that is not scaled up, else
/// the fallback, which is one at least.
pub proof fn law_buffer_is_mapped_onto_surface(state: OverlayView)
    requires
        state.wf(),
        state.frame() is Some,
    ensures
        ({
            let plan = state.frame()->0;
            let up = state.output_scale.significand > pow2(state.output_scale.shift as nat);
            &&& plan.mapping is Viewport <==> state.viewport && up
            &&& plan.mapping matches SurfaceMapping::Viewport {
                source_w,
                source_h,
                destination_w,
                destination_h,
            } ==> {
                &&& source_w == plan.width && source_h == plan.height
                &&& destination_w == plan.logical_w && destination_h == plan.logical_h
            }
            &&& plan.mapping matches SurfaceMapping::BufferScale { scale } ==> {
                &&& scale >= 1
                &&& !up ==> scale == 1
                &&& up && state.output_scale_int >= 1 ==> scale == state.output_scale_int
                &&& state.output_scale_int < 1 ==> scale == 1
            }
        }),
{
    law_scales_below_one_are_raised(state.output_scale);
    law_only_the_unit_is_one(state.output_scale);
    law_only_the_unit_is_one(state.output_scale.at_least_one());
}

/// A buffer fits exactly where its rows are of fewer than two to the power 29
/// pixels and all its bytes can be counted, so every smaller buffer fits too.
pub proof fn law_smaller_buffers_fit(width: u32, height: u32, smaller_w: u32, smaller_h: u32)
    requires
        smaller_w <= width,
        smaller_h <= height,
    ensures
        fits(width, height) <==> width < 0x2000_0000 && 4 * (width * height) <= usize::MAX,
        fits(width, height) ==> fits(smaller_w, smaller_h),
{
    assert(width * 4 * height == 4 * (width * height)) by (nonlinear_arith);
    assert(smaller_w * 4 * smaller_h <= width * 4 * height) by (nonlinear_arith)
        requires
            0 <= smaller_w <= width,
            0 <= smaller_h <= height,
    ;
}

} // verus!
