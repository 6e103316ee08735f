//! Conversion of raster images into minimal single-page PDF 1.4
//! documents.
//!
//! The core of the crate is the document assembler: it lays out the PDF
//! objects of a one-image document, records the exact byte offset of
//! each object, and emits a classical cross-reference table and trailer
//! whose entries are proved to match those offsets byte for byte.  The
//! image is embedded as an RGB XObject with a grayscale soft mask
//! carrying the alpha channel, both streams zlib-compressed.
//!
//! Image decoding and zlib compression are done by outside crates
//! behind the trusted boundary in [`codec`]; everything built on their
//! results is verified.

pub mod channels;
pub mod codec;
pub mod layout;
pub mod numfmt;

use crate::channels::{alpha_of, rgb_of, separate_rgb_and_alpha};
use crate::codec::{decode_rgba, decoded_image, zlib_compress, zlib_decompress, zlib_of};
use crate::layout::{assemble, spec_pdf};
use vstd::prelude::*;

verus! {

/// The ways a conversion can fail.
#[derive(Clone, Copy, Debug, PartialEq, Eq, Structural)]
pub enum PdfError {
    /// The input bytes are not a recognizable image.
    Decode,
    /// The compression backend reported a failure.
    Compress,
}

/// Converts encoded image bytes into the bytes of a complete PDF
/// document holding that image as its only page.
///
/// Succeeds exactly when the input is a recognizable image, failing
/// with [`PdfError::Decode`] otherwise; on success the output is byte
/// for byte the document that [`spec_pdf`] describes for the decoded
/// dimensions and the compressed channel streams.
pub fn img2pdf_from_bytes(img_data: &[u8]) -> (r: Result<Vec<u8>, PdfError>)
    ensures
        r is Ok <==> decoded_image(img_data@) is Some,
        r == Err::<Vec<u8>, PdfError>(PdfError::Decode) <==> decoded_image(img_data@) is None,
        r matches Ok(pdf) ==> {
            &&& decoded_image(img_data@) matches Some(t)
            &&& pdf@ == spec_pdf(t.0, t.1, zlib_of(rgb_of(t.2)), zlib_of(alpha_of(t.2)))
        },
{
    let (width, height, rgba) = match decode_rgba(img_data) {
        Ok(t) => t,
        Err(e) => {
            return Err(e);
        },
    };
    proof {
        assert(rgba@.len() == 4 * ((width as nat) * (height as nat))) by (nonlinear_arith)
            requires
                rgba@.len() == 4 * (width as nat) * (height as nat),
        ;
        vstd::arithmetic::div_mod::lemma_mod_multiples_basic(
            (width as nat * height as nat) as int,
            4,
        );
    }
    let (rgb, alpha) = separate_rgb_and_alpha(&rgba);
    let rz = match zlib_compress(&rgb) {
        Ok(v) => v,
        Err(_) => {
            return Err(PdfError::Compress);
        },
    };
    let az = match zlib_compress(&alpha) {
        Ok(v) => v,
        Err(_) => {
            return Err(PdfError::Compress);
        },
    };
    let (pdf, _, _) = assemble(width, height, &rz, &az);
    Ok(pdf)
}

/// Recovers the channel bytes embedded in an assembled document:
/// compresses the two channels, assembles the document, slices the two
/// stream payloads back out of it, and inflates them.
///
/// The recovery always succeeds, and the recovered channels equal the
/// given ones exactly: the document embeds the pixel data losslessly.
pub fn recover_channels(width: u32, height: u32, rgb: &Vec<u8>, alpha: &Vec<u8>) -> (r: Result<
    (Vec<u8>, Vec<u8>),
    PdfError,
>)
    ensures
        r is Ok,
        r matches Ok(p) ==> p.0@ == rgb@ && p.1@ == alpha@,
{
    let rz = match zlib_compress(rgb) {
        Ok(v) => v,
        Err(e) => {
            return Err(e);
        },
    };
    let az = match zlib_compress(alpha) {
        Ok(v) => v,
        Err(e) => {
            return Err(e);
        },
    };
    let (pdf, s2, s3) = assemble(width, height, &rz, &az);
    let n = pdf.len();
    proof {
        assert(s2 + rz@.len() <= n && s3 + az@.len() <= n);
    }
    let sl2 = vstd::slice::slice_subrange(pdf.as_slice(), s2, s2 + rz.len());
    let v2 = vstd::slice::slice_to_vec(sl2);
    let sl3 = vstd::slice::slice_subrange(pdf.as_slice(), s3, s3 + az.len());
    let v3 = vstd::slice::slice_to_vec(sl3);
    proof {
        assert(v2@ == zlib_of(rgb@));
        assert(v3@ == zlib_of(alpha@));
    }
    let out_rgb = match zlib_decompress(&v2) {
        Ok(v) => v,
        Err(e) => {
            return Err(e);
        },
    };
    let out_alpha = match zlib_decompress(&v3) {
        Ok(v) => v,
        Err(e) => {
            return Err(e);
        },
    };
    Ok((out_rgb, out_alpha))
}

} // verus!
