use wl_overlay::error::{decimal_text, SetupError};
use wl_overlay::frame::Frame;

#[test]
fn numbers_in_decimal() {
    for n in [0u32, 1, 9, 10, 11, 99, 100, 1080, 65535, u32::MAX] {
        assert_eq!(decimal_text(n), n.to_string());
    }
}

#[test]
fn setup_errors_are_worded() {
    assert_eq!(SetupError::NoCompositor.message(), "compositor does not expose wl_compositor");
    assert_eq!(SetupError::NoShm.message(), "compositor does not expose wl_shm");
    assert_eq!(
        SetupError::NoLayerShell.message(),
        "compositor does not expose zwlr_layer_shell_v1"
    );
    assert_eq!(SetupError::NoOutput.message(), "compositor exposed no wl_output");
    assert_eq!(
        SetupError::NeverConfigured.message(),
        "layer surface never received configure event"
    );
    let error = SetupError::NoUsableSize { surface_w: 800, surface_h: 0, mode_w: 0, mode_h: 17 };
    assert_eq!(
        error.message(),
        "layer surface configured but no usable size (configure=800/0 mode=0/17)"
    );
}

#[test]
fn frame_error_is_worded() {
    let error = Frame::new(0, 12).err().unwrap();
    assert_eq!(
        error.message(),
        "tiny_skia::Pixmap::new(0, 12) failed \u{2014} out of memory for the overlay buffer"
    );
}
