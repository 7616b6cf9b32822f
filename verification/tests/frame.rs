use wl_overlay::frame::{copy_swapped, paint_marker, Frame};

#[test]
fn new_frame_is_transparent() {
    let frame = Frame::new(3, 2).unwrap();
    assert_eq!((frame.width, frame.height), (3, 2));
    assert_eq!(frame.pixmap.width(), 3);
    assert_eq!(frame.pixmap.height(), 2);
    assert_eq!(frame.pixmap.data(), &[0u8; 24]);
    let mut out = vec![9u8; 24];
    frame.copy_to(&mut out);
    assert_eq!(out, vec![0u8; 24]);
}

#[test]
fn sizes_that_cannot_be_laid_out() {
    for (w, h) in [(0u32, 5u32), (5, 0), (0, 0), (536_870_912, 1), (u32::MAX, 1)] {
        let error = Frame::new(w, h).err().unwrap();
        assert_eq!((error.width, error.height), (w, h));
    }
}

#[test]
fn red_and_blue_change_places() {
    let mut out = vec![0u8; 8];
    copy_swapped(&[1, 2, 3, 4, 5, 6, 7, 8], &mut out);
    assert_eq!(out, vec![3, 2, 1, 4, 7, 6, 5, 8]);
    let mut back = vec![0u8; 8];
    copy_swapped(&out, &mut back);
    assert_eq!(back, vec![1, 2, 3, 4, 5, 6, 7, 8]);
    let mut none: Vec<u8> = Vec::new();
    copy_swapped(&[], &mut none);
    assert!(none.is_empty());
}

fn naive_marker(w: u32, h: u32, cx: i32, cy: i32) -> Vec<u8> {
    let mut data = vec![1u8; (w * h * 4) as usize];
    for dy in -30i32..30 {
        for dx in -30i32..30 {
            let px = cx.wrapping_add(dx);
            let py = cy.wrapping_add(dy);
            if px < 0 || py < 0 || px >= w as i32 || py >= h as i32 {
                continue;
            }
            let off = ((py as usize) * (w as usize) + (px as usize)) * 4;
            data[off] = 0xFF;
            data[off + 1] = 0x00;
            data[off + 2] = 0xFF;
            data[off + 3] = 0xFF;
        }
    }
    data
}

#[test]
fn marker_is_clipped_to_the_raster() {
    for (w, h) in [(100u32, 80u32), (7, 200), (1, 1), (61, 60)] {
        for (cx, cy) in [
            (50i32, 40i32),
            (0, 0),
            (-29, 5),
            (-30, 5),
            (5, -31),
            (99, 79),
            (129, 109),
            (130, 40),
            (i32::MAX, 3),
            (i32::MIN, 3),
            (3, i32::MAX),
            (3, i32::MIN),
        ] {
            let mut data = vec![1u8; (w * h * 4) as usize];
            paint_marker(&mut data, w, h, cx, cy);
            assert_eq!(data, naive_marker(w, h, cx, cy), "{w} {h} {cx} {cy}");
        }
    }
    let mut none: Vec<u8> = Vec::new();
    paint_marker(&mut none, 0, 9, 0, 0);
    paint_marker(&mut none, 9, 0, 0, 0);
}

#[test]
fn marked_frame_is_copied_with_its_marker() {
    let mut frame = Frame::new(64, 2).unwrap();
    frame.mark(0, 1);
    let mut out = vec![0u8; 64 * 2 * 4];
    frame.copy_to(&mut out);
    assert_eq!(&out[0..4], &[0xFF, 0x00, 0xFF, 0xFF]);
    assert_eq!(&out[29 * 4..30 * 4], &[0xFF, 0x00, 0xFF, 0xFF]);
    assert_eq!(&out[30 * 4..31 * 4], &[0, 0, 0, 0]);
    assert_eq!(&out[64 * 4..65 * 4], &[0xFF, 0x00, 0xFF, 0xFF]);
}

#[test]
fn painted_pixels_are_copied() {
    let mut frame = Frame::new(2, 1).unwrap();
    frame.pixmap.data_mut().copy_from_slice(&[10, 20, 30, 40, 50, 60, 70, 80]);
    let mut out = vec![0u8; 8];
    frame.copy_to(&mut out);
    assert_eq!(out, vec![30, 20, 10, 40, 70, 60, 50, 80]);
}

#[test]
fn exchanged_raster_is_noticed() {
    let mut frame = Frame::new(3, 2).unwrap();
    assert!(frame.is_intact());
    frame.pixmap = tiny_skia::Pixmap::new(3, 3).unwrap();
    assert!(!frame.is_intact());
    frame.height = 3;
    assert!(frame.is_intact());
    frame.width = 0;
    assert!(!frame.is_intact());
    frame.width = u32::MAX;
    assert!(!frame.is_intact());
}
