use std::io::Read;

use kroma::decoded::{
    crc32_of, from_decoded, insert_iccp_chunk, jpeg_bytes, load_from_memory, png16_bytes, png_bytes, test_chart, thumbnail, with_icc_jpeg, with_icc_png, DecodedImage, IoError,
};

fn srgb_to_linear(v: u8) -> f32 {
    let s = v as f32 / 255.0;
    if s <= 0.04045 {
        s / 12.92
    } else {
        ((s + 0.055) / 1.055).powf(2.4)
    }
}

fn linear_to_srgb(v: f32) -> u8 {
    let v = v.clamp(0.0, 1.0);
    let s = if v <= 0.003_130_8 { v * 12.92 } else { 1.055 * v.powf(1.0 / 2.4) - 0.055 };
    (s * 255.0).round() as u8
}

/// The average of a block of pixels, taken in linear light.
fn linear_mean(img: &DecodedImage, x0: u32, x1: u32, y0: u32, y1: u32) -> (u8, u8, u8) {
    let mut sum = [0.0f32; 3];
    let mut n = 0.0f32;
    for sy in y0..y1 {
        for sx in x0..x1 {
            let p = img.pixel(sx, sy);
            for c in 0..3 {
                sum[c] += srgb_to_linear(p[c]);
            }
            n += 1.0;
        }
    }
    let n = n.max(1.0);
    (linear_to_srgb(sum[0] / n), linear_to_srgb(sum[1] / n), linear_to_srgb(sum[2] / n))
}

/// The thumbnail size for `long_edge`, worked out in single precision.
fn fitted(width: u32, height: u32, long_edge: u32) -> (u32, u32) {
    let long_edge = long_edge.max(1);
    let scale = (long_edge as f32 / width.max(height).max(1) as f32).min(1.0);
    (((width as f32 * scale).round() as u32).max(1), ((height as f32 * scale).round() as u32).max(1))
}

fn thumb(img: &DecodedImage, long_edge: u32) -> DecodedImage {
    let (w, h) = fitted(img.width, img.height, long_edge);
    thumbnail(img, w, h, linear_mean)
}

fn hsv_to_rgb(h: f32, s: f32, v: f32) -> (f32, f32, f32) {
    let i = h.floor() as i32 % 6;
    let f = h - h.floor();
    let p = v * (1.0 - s);
    let q = v * (1.0 - s * f);
    let t = v * (1.0 - s * (1.0 - f));
    match i {
        0 => (v, t, p),
        1 => (q, v, p),
        2 => (p, v, t),
        3 => (p, q, v),
        4 => (t, p, v),
        _ => (v, p, q),
    }
}

/// The chart's colours: a neutral ramp across the top quarter, a hue sweep
/// at falling value below it.
fn chart_colour(x: u32, y: u32, width: u32, height: u32) -> (u8, u8, u8) {
    let u = x as f32 / (width.max(2) - 1) as f32;
    let v = y as f32 / (height.max(2) - 1) as f32;
    let (r, g, b) = if v < 0.25 {
        (u, u, u)
    } else {
        let h = u * 6.0;
        let s = 1.0 - (v - 0.25) / 0.75 * 0.4;
        hsv_to_rgb(h, s, 0.2 + 0.8 * (1.0 - (v - 0.25) / 0.75))
    };
    (
        (r.clamp(0.0, 1.0) * 255.0).round() as u8,
        (g.clamp(0.0, 1.0) * 255.0).round() as u8,
        (b.clamp(0.0, 1.0) * 255.0).round() as u8,
    )
}

fn chart(width: u32, height: u32) -> DecodedImage {
    test_chart(width, height, chart_colour)
}

fn flat(w: u32, h: u32, c: [u8; 3]) -> DecodedImage {
    let px: Vec<u8> = std::iter::repeat_n([c[0], c[1], c[2], 255], (w * h) as usize).flatten().collect();
    DecodedImage::new(w, h, px).unwrap()
}

#[test]
fn a_thumbnail_fits_the_long_edge_and_keeps_the_shape() {
    let t = thumb(&flat(4000, 3000, [90, 90, 90]), 128);
    assert_eq!(t.size(), (128, 96));
}

#[test]
fn a_portrait_frame_fits_its_own_long_edge() {
    let t = thumb(&flat(1000, 2000, [90, 90, 90]), 100);
    assert_eq!(t.size(), (50, 100));
}

#[test]
fn reducing_averages_in_linear_light() {
    let mut px = Vec::new();
    for y in 0..64u32 {
        for x in 0..64u32 {
            let v = if (x + y).is_multiple_of(2) { 255u8 } else { 0 };
            px.extend_from_slice(&[v, v, v, 255]);
        }
    }
    let src = DecodedImage::new(64, 64, px).unwrap();
    let t = thumb(&src, 8);
    assert_eq!(t.size(), (8, 8));
    for y in 0..8 {
        for x in 0..8 {
            let v = t.pixel(x, y)[0] as i32;
            assert!(
                (v - 188).abs() <= 2,
                "a checkerboard averaged to {v}, not 188: the reduction is happening in the encoding rather than in the light"
            );
        }
    }
}

#[test]
fn a_flat_colour_survives_intact() {
    let t = thumb(&flat(300, 200, [200, 40, 90]), 50);
    for y in 0..t.height {
        for x in 0..t.width {
            let p = t.pixel(x, y);
            assert!(
                (p[0] as i32 - 200).abs() <= 1
                    && (p[1] as i32 - 40).abs() <= 1
                    && (p[2] as i32 - 90).abs() <= 1,
                "{p:?} at {x},{y}"
            );
        }
    }
}

#[test]
fn something_already_smaller_is_left_alone() {
    let src = flat(60, 40, [10, 20, 30]);
    assert_eq!(thumb(&src, 128), src);
}

#[test]
fn an_awkward_ratio_still_covers_the_whole_frame() {
    let mut px = Vec::new();
    for _ in 0..30u32 {
        for x in 0..101u32 {
            let v = if x < 50 { 0u8 } else { 255 };
            px.extend_from_slice(&[v, v, v, 255]);
        }
    }
    let src = DecodedImage::new(101, 30, px).unwrap();
    let t = thumb(&src, 7);
    assert_eq!(t.pixel(0, 0)[0], 0, "the dark end went missing");
    assert_eq!(t.pixel(t.width - 1, 0)[0], 255, "so did the bright end");
}

#[test]
fn each_thumbnail_cell_averages_its_own_block() {
    // Record the blocks asked for: four columns of two cover eight.
    let src = flat(8, 2, [0, 0, 0]);
    let t = thumbnail(&src, 4, 1, |_img: &DecodedImage, x0: u32, x1: u32, y0: u32, y1: u32| {
        (x0 as u8, x1 as u8, (y1 - y0) as u8)
    });
    assert_eq!(t.size(), (4, 1));
    for x in 0..4u32 {
        assert_eq!(t.pixel(x, 0), [(2 * x) as u8, (2 * x + 2) as u8, 2, 255]);
    }
    assert_eq!(t.space, None);
}

#[test]
fn a_mismatched_buffer_is_rejected() {
    assert!(DecodedImage::new(4, 4, vec![0; 10]).is_err());
    assert!(DecodedImage::new(4, 4, vec![0; 64]).is_ok());
}

#[test]
fn a_mismatched_buffer_says_what_was_expected() {
    match DecodedImage::new(4, 4, vec![0; 10]) {
        Err(IoError::PixelCountMismatch { expected, found }) => {
            assert_eq!((expected, found), (64, 10));
        }
        _ => panic!("a short buffer was accepted"),
    }
}

#[test]
fn a_pixel_is_read_row_by_row() {
    let img = DecodedImage::new(2, 2, (0..16u8).collect()).unwrap();
    assert_eq!(img.pixel(0, 0), [0, 1, 2, 3]);
    assert_eq!(img.pixel(1, 0), [4, 5, 6, 7]);
    assert_eq!(img.pixel(0, 1), [8, 9, 10, 11]);
    assert_eq!(img.space, None);
}

#[test]
fn the_largest_difference_is_found() {
    let a = DecodedImage::new(1, 2, vec![10, 20, 30, 255, 0, 0, 0, 255]).unwrap();
    let b = DecodedImage::new(1, 2, vec![12, 20, 25, 255, 0, 9, 0, 255]).unwrap();
    assert_eq!(a.max_channel_delta(&b), Some(9));
    assert_eq!(b.max_channel_delta(&a), Some(9));
    assert_eq!(a.max_channel_delta(&a), Some(0));
}

#[test]
fn the_test_chart_is_deterministic() {
    assert_eq!(chart(32, 32), chart(32, 32));
}

#[test]
fn the_test_chart_spans_black_to_white() {
    let c = chart(64, 64);
    let ramp: Vec<u8> = (0..64).map(|x| c.pixel(x, 0)[0]).collect();
    assert_eq!(ramp.first(), Some(&0));
    assert_eq!(ramp.last(), Some(&255));
    assert!(ramp.windows(2).all(|w| w[0] <= w[1]), "ramp not monotonic");
}

#[test]
fn the_neutral_ramp_is_actually_neutral() {
    let c = chart(64, 64);
    for x in 0..64 {
        let [r, g, b, _] = c.pixel(x, 0);
        assert_eq!((r, g), (g, b), "column {x} is not neutral");
    }
}

#[test]
fn delta_against_a_different_size_is_none() {
    assert!(chart(8, 8).max_channel_delta(&chart(9, 9)).is_none());
}

#[test]
fn the_test_chart_is_built_in_srgb() {
    let c = chart(4, 4);
    assert_eq!(c.space, Some("sRGB"));
    assert_eq!(c.pixels.len(), 64);
    assert!(c.pixels.chunks(4).all(|p| p[3] == 255));
}

fn fake_png() -> Vec<u8> {
    let mut png = vec![0x89, b'P', b'N', b'G', 0x0d, 0x0a, 0x1a, 0x0a];
    png.extend_from_slice(&13u32.to_be_bytes());
    png.extend_from_slice(b"IHDR");
    png.extend_from_slice(&[0, 0, 0, 1, 0, 0, 0, 1, 8, 6, 0, 0, 0]);
    png.extend_from_slice(&[1, 2, 3, 4]);
    png.extend_from_slice(&0u32.to_be_bytes());
    png.extend_from_slice(b"IEND");
    png.extend_from_slice(&[0xae, 0x42, 0x60, 0x82]);
    png
}

#[test]
fn a_png_carries_its_profile_straight_after_the_header() {
    let png = fake_png();
    let profile: Vec<u8> = (0..200u32).map(|i| (i % 7) as u8).collect();
    let out = with_icc_png(png.clone(), &profile);
    assert_eq!(&out[..33], &png[..33]);
    assert_eq!(&out[out.len() - 12..], &png[33..]);
    let len = u32::from_be_bytes([out[33], out[34], out[35], out[36]]) as usize;
    assert_eq!(&out[37..41], b"iCCP");
    let data = &out[41..41 + len];
    assert_eq!(&data[..13], b"ICC profile\0\0");
    let mut inflated = Vec::new();
    flate2::read::ZlibDecoder::new(&data[13..]).read_to_end(&mut inflated).unwrap();
    assert_eq!(inflated, profile, "the profile did not come back out of the stream");
    let mut crc = flate2::Crc::new();
    crc.update(&out[37..41 + len]);
    let stored = u32::from_be_bytes([out[41 + len], out[42 + len], out[43 + len], out[44 + len]]);
    assert_eq!(stored, crc.sum(), "the chunk's CRC does not cover its type and data");
    assert_eq!(out.len(), png.len() + 12 + len);
}

#[test]
fn a_compressed_profile_goes_in_as_an_iccp_chunk() {
    let png = fake_png();
    let out = insert_iccp_chunk(png.clone(), &[1, 2, 3]);
    let mut want = png[..33].to_vec();
    want.extend_from_slice(&[0, 0, 0, 16]);
    want.extend_from_slice(b"iCCP");
    want.extend_from_slice(b"ICC profile\0\0");
    want.extend_from_slice(&[1, 2, 3]);
    want.extend_from_slice(&[0x76, 0xed, 0x5a, 0x63]);
    want.extend_from_slice(&png[33..]);
    assert_eq!(out, want);
}

#[test]
fn a_compressed_profile_leaves_other_bytes_alone() {
    let not_png = vec![1u8; 40];
    assert_eq!(insert_iccp_chunk(not_png.clone(), &[1, 2, 3]), not_png);
    assert_eq!(insert_iccp_chunk(vec![0; 10], &[9]), vec![0; 10]);
}

#[test]
fn bytes_that_are_not_a_png_are_left_alone() {
    let not_png = vec![1u8; 40];
    assert_eq!(with_icc_png(not_png.clone(), &[1, 2, 3]), not_png);
    assert_eq!(with_icc_png(vec![0; 10], &[1, 2, 3]), vec![0; 10]);
}

#[test]
fn a_jpeg_carries_its_profile_in_app2_segments() {
    let jpeg = vec![0xff, 0xd8, 0xff, 0xd9];
    let profile = vec![7u8; 10];
    let out = with_icc_jpeg(jpeg.clone(), &profile);
    let mut expected = vec![0xff, 0xd8, 0xff, 0xe2, 0, 26];
    expected.extend_from_slice(b"ICC_PROFILE\0");
    expected.extend_from_slice(&[1, 1]);
    expected.extend_from_slice(&profile);
    expected.extend_from_slice(&[0xff, 0xd9]);
    assert_eq!(out, expected);
}

#[test]
fn a_long_profile_is_split_and_numbered() {
    let jpeg = vec![0xff, 0xd8, 0xff, 0xd9];
    let profile: Vec<u8> = (0..70000u32).map(|i| (i % 251) as u8).collect();
    let out = with_icc_jpeg(jpeg, &profile);
    assert_eq!(&out[2..4], &[0xff, 0xe2]);
    let first = u16::from_be_bytes([out[4], out[5]]) as usize;
    assert_eq!(first, 65519 + 16);
    assert_eq!(&out[18..20], &[1, 2]);
    let second_at = 4 + first;
    assert_eq!(&out[second_at..second_at + 2], &[0xff, 0xe2]);
    let second = u16::from_be_bytes([out[second_at + 2], out[second_at + 3]]) as usize;
    assert_eq!(second, 70000 - 65519 + 16);
    assert_eq!(&out[second_at + 16..second_at + 18], &[2, 2]);
    assert_eq!(out.len(), 4 + 2 * 18 + 70000);
}

#[test]
fn bytes_that_are_not_a_jpeg_are_left_alone() {
    assert_eq!(with_icc_jpeg(vec![0x89, 0x50], &[1, 2]), vec![0x89, 0x50]);
    assert_eq!(with_icc_jpeg(vec![], &[1, 2]), Vec::<u8>::new());
}

fn encoded_png(width: u32, height: u32, pixels: Vec<u8>) -> Vec<u8> {
    let buf = image::RgbaImage::from_raw(width, height, pixels).unwrap();
    let mut bytes = Vec::new();
    buf.write_to(&mut std::io::Cursor::new(&mut bytes), image::ImageFormat::Png).unwrap();
    bytes
}

#[test]
fn a_png_decodes_to_its_pixels() {
    let pixels = vec![10, 20, 30, 255, 40, 50, 60, 128, 1, 2, 3, 4, 250, 251, 252, 253];
    let (img, profile) = load_from_memory(&encoded_png(2, 2, pixels.clone())).unwrap();
    assert_eq!((img.width, img.height), (2, 2));
    assert_eq!(img.pixels, pixels);
    assert_eq!(img.space, None);
    assert_eq!(profile, None);
}

#[test]
fn a_decoded_png_hands_back_the_profile_it_carries() {
    let profile: Vec<u8> = (0..300u32).map(|i| (i % 11) as u8).collect();
    let tagged = with_icc_png(encoded_png(1, 1, vec![9, 8, 7, 6]), &profile);
    let (img, found) = load_from_memory(&tagged).unwrap();
    assert_eq!(img.pixels, vec![9, 8, 7, 6]);
    assert_eq!(found, Some(profile));
}

#[test]
fn bytes_that_are_no_image_are_refused() {
    let r = load_from_memory(&[1, 2, 3, 4, 5, 6, 7, 8]);
    assert!(matches!(r, Err(IoError::Image(_)) | Err(IoError::Fs(_))));
}

#[test]
fn an_encoded_png_reads_back_with_its_profile() {
    let img = DecodedImage::new(2, 1, vec![1, 2, 3, 255, 200, 100, 50, 7]).unwrap();
    let profile = vec![5u8; 40];
    let bytes = png_bytes(&img, &profile).unwrap();
    let (back, found) = load_from_memory(&bytes).unwrap();
    assert_eq!(back.pixels, img.pixels);
    assert_eq!((back.width, back.height), (2, 1));
    assert_eq!(found, Some(profile));
}

#[test]
fn a_short_buffer_is_refused_before_encoding() {
    let img = DecodedImage { width: 2, height: 2, pixels: vec![0; 12], space: None };
    assert!(matches!(
        png_bytes(&img, &[1]),
        Err(IoError::PixelCountMismatch { expected: 16, found: 12 })
    ));
}

#[test]
fn sixteen_bit_samples_must_match_the_size() {
    assert!(matches!(
        png16_bytes(1, 1, &[1, 2, 3], &[1]),
        Err(IoError::PixelCountMismatch { expected: 4, found: 3 })
    ));
    let bytes = png16_bytes(1, 1, &[65535, 0, 65535, 65535], &[4, 4, 4]).unwrap();
    let (back, found) = load_from_memory(&bytes).unwrap();
    assert_eq!(back.pixels, vec![255, 0, 255, 255]);
    assert_eq!(found, Some(vec![4, 4, 4]));
}

#[test]
fn an_encoded_jpeg_carries_its_profile() {
    let img = DecodedImage::new(8, 8, vec![128; 256]).unwrap();
    let profile: Vec<u8> = (0..100u32).map(|i| i as u8).collect();
    let bytes = jpeg_bytes(&img, 0, &profile).unwrap();
    assert_eq!(&bytes[..2], &[0xff, 0xd8]);
    let (back, found) = load_from_memory(&bytes).unwrap();
    assert_eq!((back.width, back.height), (8, 8));
    assert_eq!(found, Some(profile));
    assert!(back.pixels.chunks(4).all(|p| p[0].abs_diff(128) <= 2 && p[3] == 255));
}

#[test]
fn a_thumbnail_is_the_size_asked_for() {
    let t = thumbnail(&flat(10, 10, [1, 2, 3]), 3, 7, linear_mean);
    assert_eq!(t.size(), (3, 7));
    assert_eq!(t.pixels.len(), 3 * 7 * 4);
}

#[test]
fn a_longer_buffer_is_reduced_from_the_image_it_holds() {
    let mut img = flat(4, 4, [50, 60, 70]);
    img.pixels.extend_from_slice(&[255; 8]);
    let t = thumbnail(&img, 2, 2, linear_mean);
    assert!(t.pixels.chunks(4).all(|p| p == [50, 60, 70, 255]));
}

#[test]
fn the_crc_is_the_standard_one() {
    assert_eq!(crc32_of(b"123456789"), 0xCBF4_3926);
    assert_eq!(crc32_of(&[]), 0);
    let data: Vec<u8> = (0..1000u32).map(|i| (i * 7 % 256) as u8).collect();
    let mut crc = flate2::Crc::new();
    crc.update(&data);
    assert_eq!(crc32_of(&data), crc.sum());
}

#[test]
fn decoded_parts_of_the_right_length_make_an_image() {
    let (img, profile) = from_decoded(1, 2, vec![1, 2, 3, 4, 5, 6, 7, 8], Some(vec![9])).unwrap();
    assert_eq!((img.width, img.height, img.space), (1, 2, None));
    assert_eq!(img.pixels, vec![1, 2, 3, 4, 5, 6, 7, 8]);
    assert_eq!(profile, Some(vec![9]));
    assert!(matches!(
        from_decoded(2, 2, vec![0; 15], None),
        Err(IoError::PixelCountMismatch { expected: 16, found: 15 })
    ));
}

#[test]
fn an_empty_image_cannot_be_encoded() {
    let img = DecodedImage { width: 0, height: 3, pixels: vec![], space: None };
    assert!(matches!(png_bytes(&img, &[1]), Err(IoError::Image(_))));
    assert!(matches!(png16_bytes(3, 0, &[], &[1]), Err(IoError::Image(_))));
    assert!(matches!(jpeg_bytes(&img, 90, &[1]), Err(IoError::Image(_))));
}
