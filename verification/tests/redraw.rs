use wl_overlay::redraw::{
    buffer_layout, checked_layout, logical_surface_size, plan_frame, FramePlan, SurfaceMapping,
};
use wl_overlay::scale::OutputScale;
use wl_overlay::state::OverlayState;

fn drawable() -> OverlayState {
    let mut s = OverlayState::default();
    s.surface = true;
    s
}

#[test]
fn configured_size_wins_over_the_mode() {
    let mut s = OverlayState::default();
    assert_eq!(logical_surface_size(&s), (0, 0));
    s.on_mode(3840, 2160);
    s.on_scale(2);
    assert_eq!(logical_surface_size(&s), (1920, 1080));
    s.on_configure(0, 0);
    assert_eq!(logical_surface_size(&s), (1920, 1080));
    s.on_configure(1600, 0);
    assert_eq!(logical_surface_size(&s), (1920, 1080));
    s.on_configure(1600, 900);
    assert_eq!(logical_surface_size(&s), (1600, 900));
    s.on_mode(800, 600);
    assert_eq!(logical_surface_size(&s), (1600, 900));
}

#[test]
fn fractional_scale_divides_the_mode() {
    let mut s = OverlayState::default();
    s.on_mode(2880, 1801);
    s.on_preferred_scale(180);
    assert_eq!(logical_surface_size(&s), (1920, 1201));
    s.on_preferred_scale(60);
    assert_eq!(logical_surface_size(&s), (2880, 1801));
}

#[test]
fn nothing_is_planned_without_surface_or_size() {
    let mut s = OverlayState::default();
    s.on_configure(800, 600);
    assert_eq!(plan_frame(&s), None);
    assert_eq!(plan_frame(&drawable()), None);
}

#[test]
fn unscaled_frame() {
    let mut s = drawable();
    s.viewport = true;
    s.on_mode(1920, 1080);
    assert_eq!(
        plan_frame(&s),
        Some(FramePlan {
            logical_w: 1920,
            logical_h: 1080,
            width: 1920,
            height: 1080,
            scale: OutputScale::one(),
            mapping: SurfaceMapping::BufferScale { scale: 1 },
        })
    );
}

#[test]
fn scaled_frame_through_a_viewport() {
    let mut s = drawable();
    s.viewport = true;
    s.fractional = true;
    s.on_configure(1280, 721);
    s.on_preferred_scale(180);
    let plan = plan_frame(&s).unwrap();
    assert_eq!((plan.width, plan.height), (1920, 1082));
    assert_eq!(
        plan.mapping,
        SurfaceMapping::Viewport {
            source_w: 1920,
            source_h: 1082,
            destination_w: 1280,
            destination_h: 721,
        }
    );
}

#[test]
fn scaled_frame_without_a_viewport() {
    let mut s = drawable();
    s.on_configure(1280, 720);
    s.on_scale(2);
    let plan = plan_frame(&s).unwrap();
    assert_eq!((plan.width, plan.height), (2560, 1440));
    assert_eq!(plan.mapping, SurfaceMapping::BufferScale { scale: 2 });
    s.fractional = true;
    s.on_preferred_scale(180);
    s.output_scale_int = 0;
    assert_eq!(plan_frame(&s).unwrap().mapping, SurfaceMapping::BufferScale { scale: 1 });
}

#[test]
fn integer_scaled_frame_is_the_mode() {
    let mut s = drawable();
    s.on_configure(0, 0);
    s.on_mode(3840, 2160);
    s.on_scale(3);
    let plan = plan_frame(&s).unwrap();
    assert_eq!((plan.logical_w, plan.logical_h), (1280, 720));
    assert_eq!((plan.width, plan.height), (3840, 2160));
}

#[test]
fn frame_covers_the_surface() {
    let mut s = drawable();
    s.on_configure(801, 599);
    for n in 1..500u32 {
        s.on_preferred_scale(n);
        let plan = plan_frame(&s).unwrap();
        assert!(plan.width >= 801 && plan.height >= 599);
    }
}

#[test]
fn layout_counts_four_bytes_per_pixel() {
    assert_eq!(buffer_layout(1920, 1080), (7680, 8_294_400));
    assert_eq!(buffer_layout(0, 5), (0, 0));
    assert_eq!(buffer_layout(536_870_911, 1), (2_147_483_644, 2_147_483_644));
}

#[test]
fn sizes_that_do_not_fit_have_no_layout() {
    assert_eq!(checked_layout(1920, 1080), Some((7680, 8_294_400)));
    assert_eq!(checked_layout(0, u32::MAX), Some((0, 0)));
    assert_eq!(checked_layout(536_870_911, 1), Some((2_147_483_644, 2_147_483_644)));
    assert_eq!(checked_layout(536_870_912, 1), None);
    assert_eq!(checked_layout(536_870_912, 0), None);
    assert_eq!(checked_layout(u32::MAX, u32::MAX), None);
}
