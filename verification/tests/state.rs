use wl_overlay::scale::OutputScale;
use wl_overlay::state::{find_global, Bind, Global, MappedBuffer, OverlayState};

const BUFFER: MappedBuffer = MappedBuffer { addr: 4096, size: 16, fd: 7 };

#[test]
fn initial_state() {
    let s = OverlayState::default();
    assert!(!s.compositor && !s.shm && !s.layer_shell && !s.output);
    assert!(!s.viewporter && !s.fractional_mgr && !s.viewport && !s.fractional);
    assert!(!s.surface && !s.layer_surface && !s.configured && !s.needs_reattach);
    assert_eq!((s.surface_w, s.surface_h, s.mode_w, s.mode_h), (0, 0, 0, 0));
    assert_eq!(s.output_scale, OutputScale::one());
    assert_eq!(s.output_scale_int, 1);
    assert_eq!(s.pending(), 0);
    assert_eq!(s.current_buffer_id, None);
}

#[test]
fn interfaces_are_told_apart() {
    assert_eq!(find_global("wl_compositor"), Some(Global::Compositor));
    assert_eq!(find_global("wl_shm"), Some(Global::Shm));
    assert_eq!(find_global("wl_output"), Some(Global::Output));
    assert_eq!(find_global("wp_viewporter"), Some(Global::Viewporter));
    assert_eq!(
        find_global("wp_fractional_scale_manager_v1"),
        Some(Global::FractionalScaleManager)
    );
    assert_eq!(find_global("zwlr_layer_shell_v1"), Some(Global::LayerShell));
    assert_eq!(find_global("wl_seat"), None);
    assert_eq!(find_global("wl_shm_pool"), None);
    assert_eq!(find_global(""), None);
}

#[test]
fn globals_are_bound_at_the_agreed_version() {
    let mut s = OverlayState::default();
    assert_eq!(
        s.on_global(1, "wl_compositor", 9),
        Some(Bind { global: Global::Compositor, name: 1, version: 6 })
    );
    assert_eq!(
        s.on_global(2, "wl_compositor", 3),
        Some(Bind { global: Global::Compositor, name: 2, version: 3 })
    );
    assert_eq!(
        s.on_global(3, "wl_shm", 2),
        Some(Bind { global: Global::Shm, name: 3, version: 1 })
    );
    assert_eq!(
        s.on_global(4, "zwlr_layer_shell_v1", 5),
        Some(Bind { global: Global::LayerShell, name: 4, version: 4 })
    );
    assert_eq!(s.on_global(5, "wl_seat", 5), None);
    assert!(s.compositor && s.shm && s.layer_shell && !s.output);
}

#[test]
fn first_output_wins() {
    let mut s = OverlayState::default();
    assert_eq!(
        s.on_global(1, "wl_output", 4),
        Some(Bind { global: Global::Output, name: 1, version: 4 })
    );
    assert_eq!(s.on_global(2, "wl_output", 4), None);
    assert!(s.on_global(3, "wp_viewporter", 1).is_some());
    assert!(s.on_global(4, "wp_viewporter", 1).is_none());
    assert!(s.on_global(5, "wp_fractional_scale_manager_v1", 1).is_some());
    assert!(s.on_global(6, "wp_fractional_scale_manager_v1", 1).is_none());
    assert!(s.output && s.viewporter && s.fractional_mgr);
}

#[test]
fn modes_without_area_are_ignored() {
    let mut s = OverlayState::default();
    s.on_mode(1920, 1080);
    s.on_mode(0, 1080);
    s.on_mode(1920, -1);
    assert_eq!((s.mode_w, s.mode_h), (1920, 1080));
    s.on_mode(3840, 2160);
    assert_eq!((s.mode_w, s.mode_h), (3840, 2160));
    assert_eq!((s.surface_w, s.surface_h), (0, 0));
}

#[test]
fn integer_scale_drives_a_surface_without_fractional_scale() {
    let mut s = OverlayState::default();
    s.on_scale(2);
    assert_eq!(s.output_scale_int, 2);
    assert_eq!(s.output_scale, OutputScale::from_factor(2));
    s.on_scale(0);
    s.on_scale(-3);
    assert_eq!(s.output_scale_int, 2);
}

#[test]
fn preferred_scale_overrides_integer_scale() {
    let mut s = OverlayState::default();
    s.fractional = true;
    s.on_preferred_scale(180);
    s.on_scale(2);
    assert_eq!(s.output_scale_int, 2);
    assert_eq!(f64::from_bits(s.output_scale.bits()), 1.5);
    s.on_preferred_scale(0);
    assert_eq!(f64::from_bits(s.output_scale.bits()), 1.5);
    s.on_preferred_scale(210);
    assert_eq!(f64::from_bits(s.output_scale.bits()), 1.75);
}

#[test]
fn configure_keeps_a_known_dimension() {
    let mut s = OverlayState::default();
    s.on_configure(0, 0);
    assert!(s.configured);
    assert_eq!((s.surface_w, s.surface_h), (0, 0));
    s.on_configure(800, 0);
    assert_eq!((s.surface_w, s.surface_h), (800, 0));
    s.on_configure(0, 600);
    assert_eq!((s.surface_w, s.surface_h), (800, 600));
    s.on_mode(100, 100);
    s.on_release(3);
    assert!(s.configured);
}

#[test]
fn memory_is_returned_once() {
    let mut s = OverlayState::default();
    s.attach(11, BUFFER);
    assert_eq!(s.pending(), 1);
    assert_eq!(s.on_release(12), None);
    assert_eq!(s.on_release(11), Some(BUFFER));
    assert_eq!(s.on_release(11), None);
    assert_eq!(s.pending(), 0);
}

#[test]
fn release_of_the_current_buffer_asks_for_a_frame() {
    let mut s = OverlayState::default();
    s.attach(11, BUFFER);
    s.attach(12, BUFFER);
    assert_eq!(s.current_buffer_id, Some(12));
    s.on_release(11);
    assert!(!s.needs_reattach);
    s.on_release(12);
    assert!(s.needs_reattach);
    assert_eq!(s.current_buffer_id, None);
    s.attach(13, BUFFER);
    assert!(!s.needs_reattach);
    assert_eq!(s.current_buffer_id, Some(13));
}
