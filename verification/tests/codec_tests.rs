use rsdiff::{diff_bytes, diff_rgba, DiffError, DiffOptions};
use std::io::Cursor;

fn opts(threshold: u32, include_aa: bool, alpha: u32) -> DiffOptions {
    DiffOptions {
        threshold,
        include_aa,
        alpha,
        aa_color: [255, 255, 0],
        diff_color: [255, 0, 255],
        diff_color_alt: None,
    }
}

/// Encode a raw RGBA8 buffer as a PNG byte stream.
fn encode_png(raw: &[u8], w: u32, h: u32) -> Vec<u8> {
    let img: image::RgbaImage = image::ImageBuffer::from_raw(w, h, raw.to_vec()).unwrap();
    let mut cursor = Cursor::new(Vec::new());
    img.write_to(&mut cursor, image::ImageOutputFormat::Png).unwrap();
    cursor.into_inner()
}

#[test]
fn garbage_bytes_fail_to_decode() {
    let r = diff_bytes(b"not an image at all", b"neither is this", None);
    assert!(matches!(r, Err(DiffError::Decode(_))));
}

#[test]
fn second_buffer_failing_to_decode_is_reported() {
    let good = encode_png(&[0, 0, 0, 255], 1, 1);
    let r = diff_bytes(&good, b"broken", None);
    assert!(matches!(r, Err(DiffError::Decode(_))));
}

#[test]
fn dimension_mismatch_is_reported_with_both_sizes() {
    let one = encode_png(&[0, 0, 0, 255], 1, 1);
    let two = encode_png(&[0, 0, 0, 255, 255, 255, 255, 255], 2, 1);
    match diff_bytes(&one, &two, None) {
        Err(DiffError::DimensionMismatch { width1, height1, width2, height2 }) => {
            assert_eq!((width1, height1), (1, 1));
            assert_eq!((width2, height2), (2, 1));
        }
        other => panic!("expected a dimension mismatch, got {:?}", other),
    }
}

#[test]
fn diff_bytes_matches_diff_rgba_on_decoded_pixels() {
    let raw1: Vec<u8> = vec![
        10, 20, 30, 255, 0, 0, 0, 255, 255, 255, 255, 255, 100, 150, 200, 128,
    ];
    let mut raw2 = raw1.clone();
    raw2[4..8].copy_from_slice(&[255, 255, 255, 255]);
    let png1 = encode_png(&raw1, 2, 2);
    let png2 = encode_png(&raw2, 2, 2);
    let o = Some(opts(1000, false, 1000));
    let from_bytes = diff_bytes(&png1, &png2, o).unwrap();
    let from_raw = diff_rgba(&raw1, &raw2, 2, 2, o);
    assert_eq!(from_bytes.diff_count, from_raw.diff_count);
    assert_eq!(from_bytes.output, from_raw.output);
    assert_eq!(from_bytes.width, 2);
    assert_eq!(from_bytes.height, 2);
    assert_eq!(from_bytes.diff_count, 1);
}

#[test]
fn identical_encodings_diff_to_nothing() {
    let raw: Vec<u8> = vec![5, 6, 7, 255, 8, 9, 10, 255];
    let png = encode_png(&raw, 2, 1);
    let r = diff_bytes(&png, &png, None).unwrap();
    assert_eq!(r.diff_count, 0);
}
