use ascii_video::decode::{decode_frame, image_to_ascii, DecodeError};
use ascii_video::dither::dither_weight_at;
use ascii_video::gray::GrayImage;
use ascii_video::pacing::sleep_ms_for;
use ascii_video::render::render;

const RAMP: &str = " .'`^\",:;Il!i><~+_-?][}{1)(|\\/tfjrxnuvczXYUJCLQ0OZmwqpdbkhao*#MW&8%B@$";

fn gray(width: u32, height: u32, pixels: Vec<u8>) -> GrayImage {
    GrayImage::new(width, height, pixels).unwrap()
}

#[test]
fn gray_image_new_checks_dimensions() {
    assert!(GrayImage::new(2, 2, vec![0; 4]).is_some());
    assert!(GrayImage::new(0, 2, vec![]).is_none());
    assert!(GrayImage::new(2, 0, vec![]).is_none());
    assert!(GrayImage::new(2, 2, vec![0; 3]).is_none());
    assert!(GrayImage::new(2, 2, vec![0; 5]).is_none());
}

#[test]
fn output_shape_matches_target() {
    let img = gray(3, 5, vec![128; 15]);
    let out = render(&img, 7, 4);
    let lines: Vec<&str> = out.split_terminator('\n').collect();
    assert_eq!(lines.len(), 4);
    for line in lines {
        assert_eq!(line.chars().count(), 7);
        for c in line.chars() {
            assert!(RAMP.contains(c));
        }
    }
    assert!(out.ends_with('\n'));
}

#[test]
fn render_is_deterministic() {
    let pixels: Vec<u8> = (0..64u32).map(|k| (k * 4) as u8).collect();
    let img = gray(8, 8, pixels.clone());
    let img2 = gray(8, 8, pixels);
    let a = render(&img, 5, 3);
    let b = render(&img2, 5, 3);
    assert_eq!(a, b);
}

#[test]
fn black_image_renders_first_glyph_only() {
    for (tw, th) in [(1u16, 1u16), (4, 3), (9, 2)] {
        let img = gray(6, 4, vec![0; 24]);
        let out = render(&img, tw, th);
        for line in out.split_terminator('\n') {
            assert!(line.chars().all(|c| c == ' '));
        }
        assert_eq!(out.chars().filter(|&c| c == ' ').count(), (tw * th) as usize);
    }
}

#[test]
fn white_image_renders_last_glyph_only() {
    for (tw, th) in [(1u16, 1u16), (4, 3), (9, 2)] {
        let img = gray(6, 4, vec![255; 24]);
        let out = render(&img, tw, th);
        for line in out.split_terminator('\n') {
            assert!(line.chars().all(|c| c == '$'));
        }
        assert_eq!(out.chars().filter(|&c| c == '$').count(), (tw * th) as usize);
    }
}

#[test]
fn four_by_four_to_two_by_two_samples_nearest() {
    // Quadrants: dark, bright / bright, dark.  With scale 2 the four
    // cells sample (0,0)=0, (2,0)=255, (0,2)=255, (2,2)=0; thresholds
    // are 51, 153, 204, 102, so the bright samples exceed theirs and
    // the dark ones do not.
    let rows: [[u8; 4]; 4] = [
        [0, 0, 255, 255],
        [0, 0, 255, 255],
        [255, 255, 0, 0],
        [255, 255, 0, 0],
    ];
    let pixels: Vec<u8> = rows.iter().flatten().copied().collect();
    let img = gray(4, 4, pixels);
    let out = render(&img, 2, 2);
    assert_eq!(out, " $\n$ \n");
}

#[test]
fn mid_gray_follows_thresholds() {
    // Sample 120 exceeds thresholds 51 and 102 but not 153 and 204:
    // bright at (even,even) and (odd,odd), dark at the other parities.
    let img = gray(4, 4, vec![120; 16]);
    let out = render(&img, 4, 4);
    assert_eq!(out, "$ $ \n $ $\n$ $ \n $ $\n");
}

#[test]
fn dither_weights_depend_on_parity_only() {
    assert_eq!(dither_weight_at(0, 0), 1);
    assert_eq!(dither_weight_at(0, 1), 3);
    assert_eq!(dither_weight_at(1, 0), 4);
    assert_eq!(dither_weight_at(1, 1), 2);
    for row in 0..6u16 {
        for col in 0..6u16 {
            assert_eq!(dither_weight_at(row, col), dither_weight_at(row % 2, col % 2));
        }
    }
}

#[test]
fn boundary_luminance_values_at_thresholds() {
    // At (0,0) the threshold is 51: sample 51 stays dark, 52 turns bright.
    let at51 = render(&gray(1, 1, vec![51]), 1, 1);
    assert_eq!(at51, " \n");
    let at52 = render(&gray(1, 1, vec![52]), 1, 1);
    assert_eq!(at52, "$\n");
}

#[test]
fn wide_image_clamps_sampling() {
    // Image 8x2, target 2x2: scale is max(8/2, 2/2) = 4; the second
    // row samples source row min(4, 1) = 1, clamped into the image.
    let mut pixels = vec![0u8; 16];
    for x in 0..8 {
        pixels[8 + x] = 255;
    }
    let img = gray(8, 2, pixels);
    let out = render(&img, 2, 2);
    assert_eq!(out, "  \n$$\n");
}

#[test]
fn sleep_pacing_is_budget_remainder_with_floor() {
    assert_eq!(sleep_ms_for(0), 33);
    assert_eq!(sleep_ms_for(10), 23);
    assert_eq!(sleep_ms_for(32), 1);
    assert_eq!(sleep_ms_for(33), 1);
    assert_eq!(sleep_ms_for(1000), 1);
}

#[test]
fn decode_frame_reads_pgm_samples() {
    let bytes = b"P5\n2 2\n255\n\x00\xff\x80\x33";
    let img = decode_frame(bytes).unwrap();
    assert_eq!(img.width, 2);
    assert_eq!(img.height, 2);
    assert_eq!(img.pixels, vec![0x00, 0xff, 0x80, 0x33]);
}

#[test]
fn decode_frame_rejects_garbage() {
    let r = decode_frame(b"not an image at all");
    assert!(matches!(r, Err(DecodeError::Undecodable)));
}

#[test]
fn decoded_frame_renders_end_to_end() {
    // 2x2 PGM, bright top-left pixel only; rendered 2x2 it must be
    // bright exactly there.
    let bytes = b"P5\n2 2\n255\n\xff\x00\x00\x00";
    let img = decode_frame(bytes).unwrap();
    let out = render(&img, 2, 2);
    assert_eq!(out, "$ \n  \n");
    let composed = image_to_ascii(bytes, 2, 2).unwrap();
    assert_eq!(composed, "$ \n  \n");
    assert!(matches!(
        image_to_ascii(b"not an image at all", 2, 2),
        Err(DecodeError::Undecodable)
    ));
}
