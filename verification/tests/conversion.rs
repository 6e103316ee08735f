//! End-to-end tests of the conversion pipeline: channel separation,
//! compression round trips, and decoding through the image crate.

use std::io::Cursor;
use std::io::Write;

use img2pdf::channels::separate_rgb_and_alpha;
use img2pdf::img2pdf_from_bytes;
use img2pdf::recover_channels;
use img2pdf::PdfError;

fn find(hay: &[u8], needle: &[u8]) -> Option<usize> {
    if needle.len() > hay.len() {
        return None;
    }
    (0..=hay.len() - needle.len()).find(|&i| &hay[i..i + needle.len()] == needle)
}

fn png_bytes(width: u32, height: u32, rgba: Vec<u8>) -> Vec<u8> {
    let img = image::RgbaImage::from_raw(width, height, rgba).expect("bad test pixel buffer");
    let mut out = Cursor::new(Vec::new());
    img.write_to(&mut out, image::ImageFormat::Png)
        .expect("png encoding failed");
    out.into_inner()
}

#[test]
fn test_img2pdf_from_bytes() {
    let png = png_bytes(3, 2, vec![100; 3 * 2 * 4]);
    let pdf_data = img2pdf_from_bytes(&png).expect("Failed to convert image to PDF");
    assert!(pdf_data.starts_with(b"%PDF"));
    assert!(pdf_data.ends_with(b"%%EOF\n"));
}

#[test]
fn test_empty_input_fails_decode() {
    let r = img2pdf_from_bytes(&[]);
    assert_eq!(r, Err(PdfError::Decode));
}

#[test]
fn test_garbage_input_fails_decode() {
    let r = img2pdf_from_bytes(b"not an image at all");
    assert_eq!(r, Err(PdfError::Decode));
}

#[test]
fn test_separate_channel_lengths() {
    // 3 pixels: rgb holds three bytes per pixel, alpha one
    let rgba: Vec<u8> = vec![
        1, 2, 3, 4, //
        5, 6, 7, 8, //
        9, 10, 11, 12,
    ];
    let (rgb, alpha) = separate_rgb_and_alpha(&rgba);
    assert_eq!(rgb.len(), 3 * alpha.len());
    assert_eq!(alpha.len(), 3);
    assert_eq!(rgb, vec![1, 2, 3, 5, 6, 7, 9, 10, 11]);
    assert_eq!(alpha, vec![4, 8, 12]);
}

#[test]
fn test_round_trip_channels() {
    let rgb: Vec<u8> = (0..=255u8).cycle().take(300).collect();
    let alpha: Vec<u8> = (0..100u8).collect();
    let (out_rgb, out_alpha) = recover_channels(10, 10, &rgb, &alpha).expect("round trip failed");
    assert_eq!(out_rgb, rgb);
    assert_eq!(out_alpha, alpha);
}

#[test]
fn test_opaque_two_by_two() {
    // a 2x2 fully opaque image: MediaBox [0 0 2 2], mask of four 255s
    let rgba: Vec<u8> = vec![
        10, 20, 30, 255, //
        40, 50, 60, 255, //
        70, 80, 90, 255, //
        11, 12, 13, 255,
    ];
    let png = png_bytes(2, 2, rgba.clone());
    let pdf = img2pdf_from_bytes(&png).expect("conversion failed");
    assert!(find(&pdf, b"/MediaBox [0 0 2 2]").is_some());

    let (rgb, alpha) = separate_rgb_and_alpha(&rgba);
    assert_eq!(alpha, vec![255, 255, 255, 255]);
    let (out_rgb, out_alpha) = recover_channels(2, 2, &rgb, &alpha).expect("round trip failed");
    assert_eq!(out_alpha, vec![255, 255, 255, 255]);
    assert_eq!(out_rgb, rgb);
}

#[test]
fn test_single_transparent_pixel() {
    // a 1x1 image with alpha 0: one-byte mask, three-byte rgb stream
    let rgba: Vec<u8> = vec![200, 150, 100, 0];
    let (rgb, alpha) = separate_rgb_and_alpha(&rgba);
    assert_eq!(rgb, vec![200, 150, 100]);
    assert_eq!(alpha, vec![0]);
    let (out_rgb, out_alpha) = recover_channels(1, 1, &rgb, &alpha).expect("round trip failed");
    assert_eq!(out_rgb, vec![200, 150, 100]);
    assert_eq!(out_alpha, vec![0]);
}

#[test]
fn test_embedded_streams_inflate_to_pixels() {
    // decode a png through the real pipeline, then inflate the two
    // streams found in the document and compare with the pixels
    let rgba: Vec<u8> = vec![
        1, 2, 3, 128, //
        4, 5, 6, 200,
    ];
    let png = png_bytes(2, 1, rgba.clone());
    let pdf = img2pdf_from_bytes(&png).expect("conversion failed");

    let (rgb, alpha) = separate_rgb_and_alpha(&rgba);
    let mut enc =
        flate2::write::ZlibEncoder::new(Vec::new(), flate2::Compression::best());
    enc.write_all(&rgb).unwrap();
    let rz = enc.finish().unwrap();
    let s2 = find(&pdf, b"2 0 obj").expect("no image object");
    let body = s2 + find(&pdf[s2..], b"stream\n").expect("no stream") + 7;
    assert_eq!(&pdf[body..body + rz.len()], &rz[..]);

    let mut dec = flate2::write::ZlibDecoder::new(Vec::new());
    dec.write_all(&pdf[body..body + rz.len()]).unwrap();
    assert_eq!(dec.finish().unwrap(), rgb);
    assert_eq!(alpha, vec![128, 200]);
}
