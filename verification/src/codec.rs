//! The trusted boundary to the outside crates: image decoding and zlib
//! compression.
//!
//! Each function here is believed, not verified: its contract states
//! only what the outside crate's source and documentation show.  All
//! logic that builds on the results is verified elsewhere.

use crate::PdfError;
use image::GenericImageView;
use std::io::Write;
use vstd::prelude::*;

verus! {

/// What decoding an image byte buffer yields: nothing when the bytes
/// are not a recognizable image, otherwise the width, the height, and
/// the RGBA pixel bytes, four per pixel in row-major order.  Decoding
/// depends on the input bytes alone.
pub uninterp spec fn decoded_image(data: Seq<u8>) -> Option<(nat, nat, Seq<u8>)>;

/// The zlib stream that compressing `data` at the highest compression
/// level produces.  The output depends on the input bytes alone.
pub uninterp spec fn zlib_of(data: Seq<u8>) -> Seq<u8>;

/// Relies on image::load_from_memory, DynamicImage::dimensions and
/// DynamicImage::to_rgba8: decoding depends on the input bytes alone,
/// and the RGBA buffer holds exactly `4 * width * height` bytes, four
/// per pixel, pixels in row-major order.
#[verifier::external_body]
pub fn decode_rgba(data: &[u8]) -> (r: Result<(u32, u32, Vec<u8>), PdfError>)
    ensures
        match r {
            Ok(t) => decoded_image(data@) == Some((t.0 as nat, t.1 as nat, t.2@)) && t.2@.len() == 4
                * (t.0 as nat) * (t.1 as nat),
            Err(e) => decoded_image(data@) is None && e == PdfError::Decode,
        },
{
    match image::load_from_memory(data) {
        Ok(img) => {
            let (w, h) = img.dimensions();
            Ok((w, h, img.to_rgba8().into_raw()))
        },
        Err(_) => Err(PdfError::Decode),
    }
}

/// Relies on flate2::write::ZlibEncoder at Compression::best: the
/// compressed stream depends on the input bytes alone, and compressing
/// into a `Vec` sink cannot fail — the encoder reports an error only
/// when the sink does, and writing to a `Vec` is infallible.
#[verifier::external_body]
pub fn zlib_compress(data: &Vec<u8>) -> (r: Result<Vec<u8>, PdfError>)
    ensures
        r is Ok,
        r matches Ok(v) ==> v@ == zlib_of(data@),
{
    let mut enc = flate2::write::ZlibEncoder::new(Vec::new(), flate2::Compression::best());
    if enc.write_all(data.as_slice()).is_err() {
        return Err(PdfError::Compress);
    }
    match enc.finish() {
        Ok(v) => Ok(v),
        Err(_) => Err(PdfError::Compress),
    }
}

/// Relies on flate2::write::ZlibDecoder: inflating a zlib stream
/// recovers exactly the bytes it was compressed from, so decompression
/// succeeds on everything `zlib_of` can produce.
#[verifier::external_body]
pub fn zlib_decompress(data: &Vec<u8>) -> (r: Result<Vec<u8>, PdfError>)
    ensures
        r is Err ==> forall|orig: Seq<u8>| data@ != #[trigger] zlib_of(orig),
        r matches Ok(v) ==> forall|orig: Seq<u8>| data@ == #[trigger] zlib_of(orig) ==> v@ == orig,
{
    let mut dec = flate2::write::ZlibDecoder::new(Vec::new());
    if dec.write_all(data.as_slice()).is_err() {
        return Err(PdfError::Compress);
    }
    match dec.finish() {
        Ok(v) => Ok(v),
        Err(_) => Err(PdfError::Compress),
    }
}

} // verus!
