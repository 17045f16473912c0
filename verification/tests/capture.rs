use screeny_core::capture::{accept_frame, downscale_for_llm, encode, looks_blank, select_monitor, Frame};
use screeny_core::ImageFormat;

fn frame_from_fn(w: u32, h: u32, f: impl Fn(u32, u32) -> [u8; 4]) -> Frame {
    let mut rgba = Vec::with_capacity((w * h * 4) as usize);
    for y in 0..h {
        for x in 0..w {
            rgba.extend_from_slice(&f(x, y));
        }
    }
    Frame { width: w, height: h, rgba, monitor: "M".into() }
}

#[test]
fn encode_jpeg_and_png_produce_nonempty_output() {
    let img = frame_from_fn(64, 48, |x, y| [(x * 4) as u8, (y * 5) as u8, 128, 255]);
    let jpeg = encode(&img, ImageFormat::Jpeg, 80).unwrap();
    let png = encode(&img, ImageFormat::Png, 80).unwrap();
    assert!(!jpeg.is_empty());
    assert!(!png.is_empty());
    // JPEG magic bytes / PNG signature
    assert_eq!(&jpeg[..2], &[0xFF, 0xD8]);
    assert_eq!(&png[..4], &[0x89, b'P', b'N', b'G']);
}

#[test]
fn downscale_shrinks_large_images_and_passes_small_ones() {
    let large = frame_from_fn(2560, 1440, |_, _| [120, 120, 120, 255]);
    let bytes = encode(&large, ImageFormat::Jpeg, 80).unwrap();
    let shrunk = downscale_for_llm(&bytes, 1280).unwrap();
    let reloaded = image::load_from_memory(&shrunk).unwrap();
    assert_eq!(reloaded.width().max(reloaded.height()), 1280);

    let small = frame_from_fn(640, 480, |_, _| [9, 9, 9, 255]);
    let small_bytes = encode(&small, ImageFormat::Jpeg, 80).unwrap();
    assert_eq!(downscale_for_llm(&small_bytes, 1280).unwrap(), small_bytes);
}

#[test]
fn downscale_rejects_undecodable_bytes() {
    let e = downscale_for_llm(b"not an image", 1280).unwrap_err();
    assert!(e.message().starts_with("image encoding failed: "));
}

#[test]
fn blank_detection_flags_black_frames_only() {
    let black = frame_from_fn(100, 100, |_, _| [0, 0, 0, 255]);
    assert!(looks_blank(&black));
    // (0,0) is always on the sampling grid
    let almost = frame_from_fn(100, 100, |x, y| {
        if x == 0 && y == 0 {
            [200, 10, 10, 255]
        } else {
            [0, 0, 0, 255]
        }
    });
    assert!(!looks_blank(&almost));
}

#[test]
fn off_grid_pixels_are_not_sampled_and_empty_frames_are_blank() {
    // 100 / 16 = 6, so pixel (1, 1) is between grid points.
    let speck = frame_from_fn(100, 100, |x, y| if x == 1 && y == 1 { [255, 255, 255, 255] } else { [2, 2, 2, 255] });
    assert!(looks_blank(&speck));
    let empty = Frame { width: 0, height: 5, rgba: vec![], monitor: "M".into() };
    assert!(looks_blank(&empty));
}

#[test]
fn blank_frames_are_refused() {
    let black = frame_from_fn(4, 4, |_, _| [0, 0, 0, 255]);
    let e = accept_frame(black).err().unwrap();
    assert_eq!(
        e.message(),
        "screen capture failed: capture came back blank (missing screen permission?)"
    );
    let lit = frame_from_fn(4, 4, |_, _| [50, 50, 50, 255]);
    assert_eq!(accept_frame(lit).ok().unwrap().width, 4);
}

#[test]
fn primary_monitor_is_preferred() {
    assert_eq!(select_monitor(&vec![false, true, true]), Some(1));
    assert_eq!(select_monitor(&vec![false, false]), Some(0));
    assert_eq!(select_monitor(&vec![]), None);
}

#[test]
fn encoders_refuse_sizes_they_cannot_hold() {
    let wide = frame_from_fn(70_000, 1, |_, _| [1, 2, 3, 255]);
    assert!(encode(&wide, ImageFormat::Jpeg, 80).unwrap_err().message().starts_with("image encoding failed: "));
    assert!(encode(&wide, ImageFormat::Png, 80).is_ok());
    let empty = Frame { width: 0, height: 3, rgba: vec![], monitor: "M".into() };
    assert!(encode(&empty, ImageFormat::Png, 80).is_err());
    assert!(encode(&empty, ImageFormat::Jpeg, 80).is_err());
}

#[test]
fn encoded_frames_decode_back_to_their_size() {
    let img = frame_from_fn(33, 17, |x, y| [x as u8, y as u8, 7, 255]);
    for format in [ImageFormat::Png, ImageFormat::Jpeg] {
        let bytes = encode(&img, format, 90).unwrap();
        let back = image::load_from_memory(&bytes).unwrap();
        assert_eq!((back.width(), back.height()), (33, 17));
    }
}

#[test]
fn downscale_keeps_the_aspect_ratio() {
    let large = frame_from_fn(2560, 1440, |_, _| [120, 120, 120, 255]);
    let bytes = encode(&large, ImageFormat::Jpeg, 80).unwrap();
    let shrunk = image::load_from_memory(&downscale_for_llm(&bytes, 1280).unwrap()).unwrap();
    assert_eq!((shrunk.width(), shrunk.height()), (1280, 720));
}
