//! The byte layout of the produced PDF document.
//!
//! The document holds six objects with fixed numbers: 1 the page-tree
//! root, 2 the image XObject, 3 the soft-mask XObject, 4 the page, 5 the
//! content stream and 6 the catalog.  They are emitted in the order
//! 2, 3, 5, 4, 1, 6, each at a recorded byte offset, and the closing
//! cross-reference table lists those offsets in object-number order.
//!
//! Every spec function below gives the exact bytes of one piece of the
//! file; `spec_pdf` is their concatenation, and `assemble` is proved to
//! return exactly those bytes.

use crate::numfmt::{dec_pad10, dec_rep, lemma_dec_pad10_len, pow10, push_dec, push_dec_pad10};
use vstd::prelude::*;
use vstd::string::StringSliceAdditionalSpecFns;

verus! {

/// The UTF-8 bytes of a literal piece of the layout.
pub open spec fn lit(s: &str) -> Seq<u8> {
    s.spec_bytes()
}

/// The file header line.
pub open spec fn header() -> Seq<u8> {
    lit("%PDF-1.4\n")
}

/// Object 2 up to and including the `stream` keyword line; `rz_len` is
/// the compressed RGB stream's byte count, declared as `/Length`.
pub open spec fn obj2_head(w: nat, h: nat, rz_len: nat) -> Seq<u8> {
    lit("2 0 obj") + lit("\n<< /Type /XObject /Subtype /Image /Width ") + dec_rep(w) + lit(
        " /Height ",
    ) + dec_rep(h) + lit(
        " /ColorSpace /DeviceRGB /BitsPerComponent 8 /Filter /FlateDecode /Length ",
    ) + dec_rep(rz_len) + lit(" /SMask 3 0 R >>\nstream\n")
}

/// Object 2, the image XObject: its dictionary, the compressed RGB
/// stream verbatim, and the closing keywords.
pub open spec fn obj2(w: nat, h: nat, rz: Seq<u8>) -> Seq<u8> {
    obj2_head(w, h, rz.len()) + rz + lit("endstream\nendobj\n")
}

/// Object 3 up to and including the `stream` keyword line; `az_len` is
/// the compressed alpha stream's byte count, declared as `/Length`.
pub open spec fn obj3_head(w: nat, h: nat, az_len: nat) -> Seq<u8> {
    lit("3 0 obj") + lit("\n<< /Type /XObject /Subtype /Image /Width ") + dec_rep(w) + lit(
        " /Height ",
    ) + dec_rep(h) + lit(
        " /ColorSpace /DeviceGray /BitsPerComponent 8 /Filter /FlateDecode /Length ",
    ) + dec_rep(az_len) + lit(" >>\nstream\n")
}

/// Object 3, the soft-mask XObject: its dictionary, the compressed alpha
/// stream verbatim, and the closing keywords.
pub open spec fn obj3(w: nat, h: nat, az: Seq<u8>) -> Seq<u8> {
    obj3_head(w, h, az.len()) + az + lit("endstream\nendobj\n")
}

/// The page-drawing operators: one placement of the image, scaled to the
/// pixel dimensions.
pub open spec fn content_ops(w: nat, h: nat) -> Seq<u8> {
    lit("q\n") + dec_rep(w) + lit(" 0 0 ") + dec_rep(h) + lit(" 0 0 cm\n/Im2 Do\nQ")
}

/// Object 5 up to and including the `stream` keyword line; the declared
/// `/Length` is the operator text's byte count.
pub open spec fn obj5_head(w: nat, h: nat) -> Seq<u8> {
    lit("5 0 obj") + lit("\n<< /Length ") + dec_rep(content_ops(w, h).len()) + lit(" >>\nstream\n")
}

/// Object 5, the content stream.
pub open spec fn obj5(w: nat, h: nat) -> Seq<u8> {
    obj5_head(w, h) + content_ops(w, h) + lit("\nendstream\nendobj\n")
}

/// Object 4, the page: its size equals the image's pixel dimensions.
pub open spec fn obj4(w: nat, h: nat) -> Seq<u8> {
    lit("4 0 obj") + lit("\n<< /Type /Page /Parent 1 0 R /MediaBox [0 0 ") + dec_rep(w) + lit(" ")
        + dec_rep(h) + lit(
        "] /Contents 5 0 R /Resources << /XObject << /Im2 2 0 R >> >> >>\n",
    ) + lit("endobj\n")
}

/// Object 1, the page-tree root.
pub open spec fn obj1() -> Seq<u8> {
    lit("1 0 obj") + lit("\n<< /Type /Pages /Kids [ 4 0 R ] /Count 1 >>\n") + lit("endobj\n")
}

/// Object 6, the catalog.
pub open spec fn obj6() -> Seq<u8> {
    lit("6 0 obj") + lit("\n<< /Type /Catalog /Pages 1 0 R >>\n") + lit("endobj\n")
}

/// The byte offset at which object 2's `2 0 obj` token begins.
pub open spec fn off2(w: nat, h: nat, rz: Seq<u8>, az: Seq<u8>) -> nat {
    header().len()
}

/// The byte offset at which object 3's `3 0 obj` token begins.
pub open spec fn off3(w: nat, h: nat, rz: Seq<u8>, az: Seq<u8>) -> nat {
    off2(w, h, rz, az) + obj2(w, h, rz).len()
}

/// The byte offset at which object 5's `5 0 obj` token begins.
pub open spec fn off5(w: nat, h: nat, rz: Seq<u8>, az: Seq<u8>) -> nat {
    off3(w, h, rz, az) + obj3(w, h, az).len()
}

/// The byte offset at which object 4's `4 0 obj` token begins.
pub open spec fn off4(w: nat, h: nat, rz: Seq<u8>, az: Seq<u8>) -> nat {
    off5(w, h, rz, az) + obj5(w, h).len()
}

/// The byte offset at which object 1's `1 0 obj` token begins.
pub open spec fn off1(w: nat, h: nat, rz: Seq<u8>, az: Seq<u8>) -> nat {
    off4(w, h, rz, az) + obj4(w, h).len()
}

/// The byte offset at which object 6's `6 0 obj` token begins.
pub open spec fn off6(w: nat, h: nat, rz: Seq<u8>, az: Seq<u8>) -> nat {
    off1(w, h, rz, az) + obj1().len()
}

/// The byte offset of the `xref` keyword, recorded as `startxref`.
pub open spec fn xref_off(w: nat, h: nat, rz: Seq<u8>, az: Seq<u8>) -> nat {
    off6(w, h, rz, az) + obj6().len()
}

/// One in-use cross-reference entry: a ten-digit zero-padded offset,
/// generation `00000`, flag `n`.
pub open spec fn xref_entry(off: nat) -> Seq<u8> {
    dec_pad10(off) + lit(" 00000 n \n")
}

/// A cross-reference table for objects 1 through 6 at the six given
/// offsets: the free-list head followed by one entry per object, in
/// object-number order.
pub open spec fn xref_sec_of(a1: nat, a2: nat, a3: nat, a4: nat, a5: nat, a6: nat) -> Seq<u8> {
    lit("xref\n") + lit("0 7\n") + lit("0000000000 65535 f \n") + xref_entry(a1) + xref_entry(a2)
        + xref_entry(a3) + xref_entry(a4) + xref_entry(a5) + xref_entry(a6)
}

/// The document's cross-reference table: its entries hold the offsets
/// at which the six objects were emitted.
pub open spec fn xref_sec(w: nat, h: nat, rz: Seq<u8>, az: Seq<u8>) -> Seq<u8> {
    xref_sec_of(
        off1(w, h, rz, az),
        off2(w, h, rz, az),
        off3(w, h, rz, az),
        off4(w, h, rz, az),
        off5(w, h, rz, az),
        off6(w, h, rz, az),
    )
}

/// A trailer recording the document size, the catalog, and the given
/// `startxref` offset, closed by the end-of-file marker.
pub open spec fn trailer_of(x: nat) -> Seq<u8> {
    lit("trailer\n<< /Size 7 /Root 6 0 R >>\n") + lit("startxref\n") + dec_rep(x) + lit("\n") + lit(
        "%%EOF\n",
    )
}

/// The document's trailer: its `startxref` value is the offset of the
/// `xref` keyword.
pub open spec fn trailer_sec(w: nat, h: nat, rz: Seq<u8>, az: Seq<u8>) -> Seq<u8> {
    trailer_of(xref_off(w, h, rz, az))
}

/// The complete document produced for an image of `w` by `h` pixels
/// whose compressed RGB and alpha streams are `rz` and `az`.
#[verifier::opaque]
pub open spec fn spec_pdf(w: nat, h: nat, rz: Seq<u8>, az: Seq<u8>) -> Seq<u8> {
    header() + obj2(w, h, rz) + obj3(w, h, az) + obj5(w, h) + obj4(w, h) + obj1() + obj6()
        + xref_sec(w, h, rz, az) + trailer_sec(w, h, rz, az)
}

/// The byte offset at which object 2's stream payload (the compressed
/// RGB bytes) begins.
pub open spec fn stream2_off(w: nat, h: nat, rz: Seq<u8>, az: Seq<u8>) -> nat {
    off2(w, h, rz, az) + obj2_head(w, h, rz.len()).len()
}

/// The byte offset at which object 3's stream payload (the compressed
/// alpha bytes) begins.
pub open spec fn stream3_off(w: nat, h: nat, rz: Seq<u8>, az: Seq<u8>) -> nat {
    off3(w, h, rz, az) + obj3_head(w, h, az.len()).len()
}

/// The byte offset at which object 5's stream payload (the content
/// operators) begins.
pub open spec fn content5_off(w: nat, h: nat, rz: Seq<u8>, az: Seq<u8>) -> nat {
    off5(w, h, rz, az) + obj5_head(w, h).len()
}

/// Each stream payload occupies, verbatim, exactly the bytes between
/// its `stream` and `endstream` keywords: the compressed RGB stream of
/// declared `/Length rz.len()` at `stream2_off`, the compressed alpha
/// stream of declared `/Length az.len()` at `stream3_off`, and the
/// content operators, whose declared `/Length` is their exact byte
/// count, at `content5_off`.
pub proof fn lemma_stream_slices(w: nat, h: nat, rz: Seq<u8>, az: Seq<u8>)
    ensures
        stream2_off(w, h, rz, az) + rz.len() <= spec_pdf(w, h, rz, az).len(),
        spec_pdf(w, h, rz, az).subrange(
            stream2_off(w, h, rz, az) as int,
            stream2_off(w, h, rz, az) + rz.len() as int,
        ) == rz,
        stream3_off(w, h, rz, az) + az.len() <= spec_pdf(w, h, rz, az).len(),
        spec_pdf(w, h, rz, az).subrange(
            stream3_off(w, h, rz, az) as int,
            stream3_off(w, h, rz, az) + az.len() as int,
        ) == az,
        content5_off(w, h, rz, az) + content_ops(w, h).len() <= spec_pdf(w, h, rz, az).len(),
        spec_pdf(w, h, rz, az).subrange(
            content5_off(w, h, rz, az) as int,
            content5_off(w, h, rz, az) + content_ops(w, h).len() as int,
        ) == content_ops(w, h),
{
    let p1 = header();
    let p2 = p1 + obj2(w, h, rz);
    let p3 = p2 + obj3(w, h, az);
    let p4 = p3 + obj5(w, h);
    let p5 = p4 + obj4(w, h);
    let p6 = p5 + obj1();
    let p7 = p6 + obj6();
    let p8 = p7 + xref_sec(w, h, rz, az);
    let p9 = p8 + trailer_sec(w, h, rz, az);
    assert(spec_pdf(w, h, rz, az) == p9) by {
        reveal(spec_pdf);
    }

    let s2 = stream2_off(w, h, rz, az) as int;
    let b2 = obj2_head(w, h, rz.len());
    lemma_slice_mid(obj2(w, h, rz), b2, rz, lit("endstream\nendobj\n"));
    lemma_subrange_shift(p1, obj2(w, h, rz), b2.len() as int, b2.len() + rz.len() as int);
    assert(p2.subrange(s2, s2 + rz.len()) == rz);
    lemma_subrange_prefix(p2, obj3(w, h, az), s2, s2 + rz.len());
    lemma_subrange_prefix(p3, obj5(w, h), s2, s2 + rz.len());
    lemma_subrange_prefix(p4, obj4(w, h), s2, s2 + rz.len());
    lemma_subrange_prefix(p5, obj1(), s2, s2 + rz.len());
    lemma_subrange_prefix(p6, obj6(), s2, s2 + rz.len());
    lemma_subrange_prefix(p7, xref_sec(w, h, rz, az), s2, s2 + rz.len());
    lemma_subrange_prefix(p8, trailer_sec(w, h, rz, az), s2, s2 + rz.len());

    let s3 = stream3_off(w, h, rz, az) as int;
    let b3 = obj3_head(w, h, az.len());
    lemma_slice_mid(obj3(w, h, az), b3, az, lit("endstream\nendobj\n"));
    lemma_subrange_shift(p2, obj3(w, h, az), b3.len() as int, b3.len() + az.len() as int);
    assert(p3.subrange(s3, s3 + az.len()) == az);
    lemma_subrange_prefix(p3, obj5(w, h), s3, s3 + az.len());
    lemma_subrange_prefix(p4, obj4(w, h), s3, s3 + az.len());
    lemma_subrange_prefix(p5, obj1(), s3, s3 + az.len());
    lemma_subrange_prefix(p6, obj6(), s3, s3 + az.len());
    lemma_subrange_prefix(p7, xref_sec(w, h, rz, az), s3, s3 + az.len());
    lemma_subrange_prefix(p8, trailer_sec(w, h, rz, az), s3, s3 + az.len());

    let s5 = content5_off(w, h, rz, az) as int;
    let c = content_ops(w, h);
    lemma_slice_mid(obj5(w, h), obj5_head(w, h), c, lit("\nendstream\nendobj\n"));
    lemma_subrange_shift(p3, obj5(w, h), obj5_head(w, h).len() as int, obj5_head(w, h).len() + c.len() as int);
    assert(p4.subrange(s5, s5 + c.len()) == c);
    lemma_subrange_prefix(p4, obj4(w, h), s5, s5 + c.len());
    lemma_subrange_prefix(p5, obj1(), s5, s5 + c.len());
    lemma_subrange_prefix(p6, obj6(), s5, s5 + c.len());
    lemma_subrange_prefix(p7, xref_sec(w, h, rz, az), s5, s5 + c.len());
    lemma_subrange_prefix(p8, trailer_sec(w, h, rz, az), s5, s5 + c.len());
}

/// In a concatenation, the middle part occupies exactly the bytes
/// between the prefix and the suffix.
proof fn lemma_slice_mid(s: Seq<u8>, pre: Seq<u8>, mid: Seq<u8>, post: Seq<u8>)
    requires
        s =~= pre + mid + post,
    ensures
        pre.len() + mid.len() <= s.len(),
        s.subrange(pre.len() as int, pre.len() + mid.len() as int) == mid,
{
    assert(s.subrange(pre.len() as int, pre.len() + mid.len() as int) =~= mid);
}

/// A subrange of the second part of a concatenation, addressed from the
/// whole.
proof fn lemma_subrange_shift(a: Seq<u8>, b: Seq<u8>, i: int, j: int)
    requires
        0 <= i <= j <= b.len(),
    ensures
        (a + b).subrange(a.len() + i, a.len() + j) == b.subrange(i, j),
{
    assert((a + b).subrange(a.len() + i, a.len() + j) =~= b.subrange(i, j));
}

/// Appending bytes leaves every subrange of the existing bytes as it
/// was.
proof fn lemma_subrange_prefix(a: Seq<u8>, b: Seq<u8>, i: int, j: int)
    requires
        0 <= i <= j <= a.len(),
    ensures
        (a + b).subrange(i, j) == a.subrange(i, j),
{
    assert((a + b).subrange(i, j) =~= a.subrange(i, j));
}

/// Appends the bytes of a literal piece of the layout to `buf`.
fn push_str(buf: &mut Vec<u8>, s: &str)
    ensures
        final(buf)@ == old(buf)@ + lit(s),
{
    let bytes = s.as_bytes();
    let mut i: usize = 0;
    while i < bytes.len()
        invariant
            i <= bytes@.len(),
            bytes@ == lit(s),
            buf@ == old(buf)@ + bytes@.take(i as int),
        decreases bytes@.len() - i,
    {
        let b = *vstd::slice::slice_index_get(bytes, i);
        buf.push(b);
        proof {
            assert(buf@ =~= old(buf)@ + bytes@.take(i as int + 1));
        }
        i = i + 1;
    }
    proof {
        assert(bytes@.take(bytes@.len() as int) =~= bytes@);
    }
}

/// Appends a whole byte buffer to `buf`.
fn push_vec(buf: &mut Vec<u8>, data: &Vec<u8>)
    ensures
        final(buf)@ == old(buf)@ + data@,
{
    let mut i: usize = 0;
    while i < data.len()
        invariant
            i <= data@.len(),
            buf@ == old(buf)@ + data@.take(i as int),
        decreases data@.len() - i,
    {
        let b = data[i];
        buf.push(b);
        proof {
            assert(buf@ =~= old(buf)@ + data@.take(i as int + 1));
        }
        i = i + 1;
    }
    proof {
        assert(data@.take(data@.len() as int) =~= data@);
    }
}

/// Emits object 2, the image XObject, and returns the offset, relative
/// to the bytes already in `buf`, at which its stream payload begins.
fn emit_obj2(buf: &mut Vec<u8>, width: u32, height: u32, rz: &Vec<u8>) -> (s: usize)
    ensures
        final(buf)@ == old(buf)@ + obj2(width as nat, height as nat, rz@),
        s == old(buf)@.len() + obj2_head(width as nat, height as nat, rz@.len()).len(),
{
    push_str(buf, "2 0 obj");
    push_str(buf, "\n<< /Type /XObject /Subtype /Image /Width ");
    push_dec(buf, width as u64);
    push_str(buf, " /Height ");
    push_dec(buf, height as u64);
    push_str(buf, " /ColorSpace /DeviceRGB /BitsPerComponent 8 /Filter /FlateDecode /Length ");
    push_dec(buf, rz.len() as u64);
    push_str(buf, " /SMask 3 0 R >>\nstream\n");
    proof {
        assert(buf@ =~= old(buf)@ + obj2_head(width as nat, height as nat, rz@.len()));
    }
    let s = buf.len();
    push_vec(buf, rz);
    push_str(buf, "endstream\nendobj\n");
    proof {
        assert(buf@ =~= old(buf)@ + obj2(width as nat, height as nat, rz@));
    }
    s
}

/// Emits object 3, the soft-mask XObject, and returns the offset,
/// relative to the bytes already in `buf`, at which its stream payload
/// begins.
fn emit_obj3(buf: &mut Vec<u8>, width: u32, height: u32, az: &Vec<u8>) -> (s: usize)
    ensures
        final(buf)@ == old(buf)@ + obj3(width as nat, height as nat, az@),
        s == old(buf)@.len() + obj3_head(width as nat, height as nat, az@.len()).len(),
{
    push_str(buf, "3 0 obj");
    push_str(buf, "\n<< /Type /XObject /Subtype /Image /Width ");
    push_dec(buf, width as u64);
    push_str(buf, " /Height ");
    push_dec(buf, height as u64);
    push_str(buf, " /ColorSpace /DeviceGray /BitsPerComponent 8 /Filter /FlateDecode /Length ");
    push_dec(buf, az.len() as u64);
    push_str(buf, " >>\nstream\n");
    proof {
        assert(buf@ =~= old(buf)@ + obj3_head(width as nat, height as nat, az@.len()));
    }
    let s = buf.len();
    push_vec(buf, az);
    push_str(buf, "endstream\nendobj\n");
    proof {
        assert(buf@ =~= old(buf)@ + obj3(width as nat, height as nat, az@));
    }
    s
}

/// Emits object 5, the content stream.
fn emit_obj5(buf: &mut Vec<u8>, width: u32, height: u32)
    ensures
        final(buf)@ == old(buf)@ + obj5(width as nat, height as nat),
{
    let mut content: Vec<u8> = Vec::new();
    push_str(&mut content, "q\n");
    push_dec(&mut content, width as u64);
    push_str(&mut content, " 0 0 ");
    push_dec(&mut content, height as u64);
    push_str(&mut content, " 0 0 cm\n/Im2 Do\nQ");
    proof {
        assert(content@ =~= content_ops(width as nat, height as nat));
    }
    push_str(buf, "5 0 obj");
    push_str(buf, "\n<< /Length ");
    push_dec(buf, content.len() as u64);
    push_str(buf, " >>\nstream\n");
    push_vec(buf, &content);
    push_str(buf, "\nendstream\nendobj\n");
    proof {
        assert(buf@ =~= old(buf)@ + obj5(width as nat, height as nat));
    }
}

/// Emits object 4, the page.
fn emit_obj4(buf: &mut Vec<u8>, width: u32, height: u32)
    ensures
        final(buf)@ == old(buf)@ + obj4(width as nat, height as nat),
{
    push_str(buf, "4 0 obj");
    push_str(buf, "\n<< /Type /Page /Parent 1 0 R /MediaBox [0 0 ");
    push_dec(buf, width as u64);
    push_str(buf, " ");
    push_dec(buf, height as u64);
    push_str(buf, "] /Contents 5 0 R /Resources << /XObject << /Im2 2 0 R >> >> >>\n");
    push_str(buf, "endobj\n");
    proof {
        assert(buf@ =~= old(buf)@ + obj4(width as nat, height as nat));
    }
}

/// Emits object 1, the page-tree root.
fn emit_obj1(buf: &mut Vec<u8>)
    ensures
        final(buf)@ == old(buf)@ + obj1(),
{
    push_str(buf, "1 0 obj");
    push_str(buf, "\n<< /Type /Pages /Kids [ 4 0 R ] /Count 1 >>\n");
    push_str(buf, "endobj\n");
    proof {
        assert(buf@ =~= old(buf)@ + obj1());
    }
}

/// Emits object 6, the catalog.
fn emit_obj6(buf: &mut Vec<u8>)
    ensures
        final(buf)@ == old(buf)@ + obj6(),
{
    push_str(buf, "6 0 obj");
    push_str(buf, "\n<< /Type /Catalog /Pages 1 0 R >>\n");
    push_str(buf, "endobj\n");
    proof {
        assert(buf@ =~= old(buf)@ + obj6());
    }
}

/// Emits one in-use cross-reference entry for the given offset.
fn emit_entry(buf: &mut Vec<u8>, off: usize)
    ensures
        final(buf)@ == old(buf)@ + xref_entry(off as nat),
{
    push_dec_pad10(buf, off as u64);
    push_str(buf, " 00000 n \n");
    proof {
        assert(buf@ =~= old(buf)@ + xref_entry(off as nat));
    }
}

/// Emits the cross-reference table listing the six recorded offsets.
fn emit_xref(buf: &mut Vec<u8>, o1: usize, o2: usize, o3: usize, o4: usize, o5: usize, o6: usize)
    ensures
        final(buf)@ == old(buf)@ + xref_sec_of(
            o1 as nat,
            o2 as nat,
            o3 as nat,
            o4 as nat,
            o5 as nat,
            o6 as nat,
        ),
{
    push_str(buf, "xref\n");
    push_str(buf, "0 7\n");
    push_str(buf, "0000000000 65535 f \n");
    emit_entry(buf, o1);
    emit_entry(buf, o2);
    emit_entry(buf, o3);
    emit_entry(buf, o4);
    emit_entry(buf, o5);
    emit_entry(buf, o6);
    proof {
        assert(buf@ =~= old(buf)@ + xref_sec_of(
            o1 as nat,
            o2 as nat,
            o3 as nat,
            o4 as nat,
            o5 as nat,
            o6 as nat,
        ));
    }
}

/// Emits the trailer, recording `xref_pos` as the `startxref` value.
fn emit_trailer(buf: &mut Vec<u8>, xref_pos: usize)
    ensures
        final(buf)@ == old(buf)@ + trailer_of(xref_pos as nat),
{
    push_str(buf, "trailer\n<< /Size 7 /Root 6 0 R >>\n");
    push_str(buf, "startxref\n");
    push_dec(buf, xref_pos as u64);
    push_str(buf, "\n");
    push_str(buf, "%%EOF\n");
    proof {
        assert(buf@ =~= old(buf)@ + trailer_of(xref_pos as nat));
    }
}

/// Builds the complete PDF document for a `width` by `height` image
/// whose compressed RGB and alpha streams are `rz` and `az`.
///
/// Returns the document bytes together with the byte offsets at which
/// the two stream payloads begin, so that callers can locate the
/// embedded streams without re-deriving the layout.
pub fn assemble(width: u32, height: u32, rz: &Vec<u8>, az: &Vec<u8>) -> (r: (Vec<u8>, usize, usize))
    ensures
        r.0@ == spec_pdf(width as nat, height as nat, rz@, az@),
        r.1 == stream2_off(width as nat, height as nat, rz@, az@),
        r.1 + rz@.len() <= r.0@.len(),
        r.0@.subrange(r.1 as int, r.1 + rz@.len() as int) == rz@,
        r.2 == stream3_off(width as nat, height as nat, rz@, az@),
        r.2 + az@.len() <= r.0@.len(),
        r.0@.subrange(r.2 as int, r.2 + az@.len() as int) == az@,
{
    let ghost w = width as nat;
    let ghost h = height as nat;
    let mut buf: Vec<u8> = Vec::new();

    push_str(&mut buf, "%PDF-1.4\n");
    proof {
        assert(buf@ =~= header());
    }

    let o2 = buf.len();
    let s2 = emit_obj2(&mut buf, width, height, rz);
    let o3 = buf.len();
    let s3 = emit_obj3(&mut buf, width, height, az);
    let o5 = buf.len();
    emit_obj5(&mut buf, width, height);
    let o4 = buf.len();
    emit_obj4(&mut buf, width, height);
    let o1 = buf.len();
    emit_obj1(&mut buf);
    let o6 = buf.len();
    emit_obj6(&mut buf);
    let xref_pos = buf.len();
    proof {
        assert(o2 == off2(w, h, rz@, az@));
        assert(o3 == off3(w, h, rz@, az@));
        assert(o5 == off5(w, h, rz@, az@));
        assert(o4 == off4(w, h, rz@, az@));
        assert(o1 == off1(w, h, rz@, az@));
        assert(o6 == off6(w, h, rz@, az@));
        assert(xref_pos == xref_off(w, h, rz@, az@));
        assert(s2 == stream2_off(w, h, rz@, az@));
        assert(s3 == stream3_off(w, h, rz@, az@));
    }
    emit_xref(&mut buf, o1, o2, o3, o4, o5, o6);
    emit_trailer(&mut buf, xref_pos);
    proof {
        assert(buf@ == spec_pdf(w, h, rz@, az@)) by {
            reveal(spec_pdf);
        }
        lemma_stream_slices(w, h, rz@, az@);
    }
    (buf, s2, s3)
}


/// Lengths and relations of the fixed literals that the sentinel and
/// cross-reference laws speak of.
proof fn lemma_lit_facts()
    ensures
        lit("%PDF-1.4\n").len() == 9,
        lit("%PDF").len() == 4,
        lit("%%EOF\n").len() == 6,
        lit(" 00000 n \n").len() == 10,
        lit("%PDF-1.4\n").subrange(0, 4) == lit("%PDF"),
{
    broadcast use vstd::string::is_ascii_spec_bytes;

    reveal_strlit("%PDF-1.4\n");
    reveal_strlit("%PDF");
    reveal_strlit("%%EOF\n");
    reveal_strlit(" 00000 n \n");
    assert(vstd::string::is_ascii("%PDF-1.4\n"));
    assert(vstd::string::is_ascii("%PDF"));
    assert(vstd::string::is_ascii("%%EOF\n"));
    assert(vstd::string::is_ascii(" 00000 n \n"));
    assert(lit("%PDF-1.4\n").subrange(0, 4) =~= lit("%PDF"));
}

/// Every produced document starts with `%PDF` and ends with `%%EOF`
/// followed by a single newline.
pub proof fn lemma_pdf_sentinels(w: nat, h: nat, rz: Seq<u8>, az: Seq<u8>)
    ensures
        spec_pdf(w, h, rz, az).len() >= 10,
        spec_pdf(w, h, rz, az).subrange(0, 4) == lit("%PDF"),
        spec_pdf(w, h, rz, az).subrange(
            spec_pdf(w, h, rz, az).len() - 6,
            spec_pdf(w, h, rz, az).len() as int,
        ) == lit("%%EOF\n"),
{
    lemma_lit_facts();
    let p1 = header();
    let p2 = p1 + obj2(w, h, rz);
    let p3 = p2 + obj3(w, h, az);
    let p4 = p3 + obj5(w, h);
    let p5 = p4 + obj4(w, h);
    let p6 = p5 + obj1();
    let p7 = p6 + obj6();
    let p8 = p7 + xref_sec(w, h, rz, az);
    let p9 = p8 + trailer_sec(w, h, rz, az);
    assert(spec_pdf(w, h, rz, az) == p9) by {
        reveal(spec_pdf);
    }
    lemma_subrange_prefix(p1, obj2(w, h, rz), 0, 4);
    lemma_subrange_prefix(p2, obj3(w, h, az), 0, 4);
    lemma_subrange_prefix(p3, obj5(w, h), 0, 4);
    lemma_subrange_prefix(p4, obj4(w, h), 0, 4);
    lemma_subrange_prefix(p5, obj1(), 0, 4);
    lemma_subrange_prefix(p6, obj6(), 0, 4);
    lemma_subrange_prefix(p7, xref_sec(w, h, rz, az), 0, 4);
    lemma_subrange_prefix(p8, trailer_sec(w, h, rz, az), 0, 4);
    assert(p1.subrange(0, 4) == lit("%PDF"));
    lemma_slice_mid(
        trailer_sec(w, h, rz, az),
        lit("trailer\n<< /Size 7 /Root 6 0 R >>\n") + lit("startxref\n") + dec_rep(
            xref_off(w, h, rz, az),
        ) + lit("\n"),
        lit("%%EOF\n"),
        Seq::empty(),
    );
    lemma_subrange_shift(
        p8,
        trailer_sec(w, h, rz, az),
        trailer_sec(w, h, rz, az).len() - 6,
        trailer_sec(w, h, rz, az).len() as int,
    );
}

/// The `<id> 0 obj` token of object 2 stands at the start of its bytes.
proof fn lemma_tok_obj2(w: nat, h: nat, rz: Seq<u8>)
    ensures
        lit("2 0 obj").len() <= obj2(w, h, rz).len(),
        obj2(w, h, rz).subrange(0, lit("2 0 obj").len() as int) == lit("2 0 obj"),
{
    assert(obj2(w, h, rz).subrange(0, lit("2 0 obj").len() as int) =~= lit("2 0 obj"));
}

/// The `<id> 0 obj` token of object 3 stands at the start of its bytes.
proof fn lemma_tok_obj3(w: nat, h: nat, az: Seq<u8>)
    ensures
        lit("3 0 obj").len() <= obj3(w, h, az).len(),
        obj3(w, h, az).subrange(0, lit("3 0 obj").len() as int) == lit("3 0 obj"),
{
    assert(obj3(w, h, az).subrange(0, lit("3 0 obj").len() as int) =~= lit("3 0 obj"));
}

/// The `<id> 0 obj` token of object 5 stands at the start of its bytes.
proof fn lemma_tok_obj5(w: nat, h: nat)
    ensures
        lit("5 0 obj").len() <= obj5(w, h).len(),
        obj5(w, h).subrange(0, lit("5 0 obj").len() as int) == lit("5 0 obj"),
{
    assert(obj5(w, h).subrange(0, lit("5 0 obj").len() as int) =~= lit("5 0 obj"));
}

/// The `<id> 0 obj` token of object 4 stands at the start of its bytes.
proof fn lemma_tok_obj4(w: nat, h: nat)
    ensures
        lit("4 0 obj").len() <= obj4(w, h).len(),
        obj4(w, h).subrange(0, lit("4 0 obj").len() as int) == lit("4 0 obj"),
{
    assert(obj4(w, h).subrange(0, lit("4 0 obj").len() as int) =~= lit("4 0 obj"));
}

/// The `<id> 0 obj` token of object 1 stands at the start of its bytes.
proof fn lemma_tok_obj1()
    ensures
        lit("1 0 obj").len() <= obj1().len(),
        obj1().subrange(0, lit("1 0 obj").len() as int) == lit("1 0 obj"),
{
    assert(obj1().subrange(0, lit("1 0 obj").len() as int) =~= lit("1 0 obj"));
}

/// The `<id> 0 obj` token of object 6 stands at the start of its bytes.
proof fn lemma_tok_obj6()
    ensures
        lit("6 0 obj").len() <= obj6().len(),
        obj6().subrange(0, lit("6 0 obj").len() as int) == lit("6 0 obj"),
{
    assert(obj6().subrange(0, lit("6 0 obj").len() as int) =~= lit("6 0 obj"));
}

/// Every offset recorded in the cross-reference table is the literal
/// byte index, within the document, at which the corresponding
/// object's `<id> 0 obj` token begins; and in a document small enough
/// for the ten-digit offset format, every entry is exactly twenty bytes.
///
/// The entries themselves are fixed by construction: the entry for
/// object `k` is `dec_pad10(off_k)` followed by `\x20 00000 n \n`, as
/// `xref_sec` and `xref_entry` spell out.
pub proof fn lemma_xref_offsets(w: nat, h: nat, rz: Seq<u8>, az: Seq<u8>)
    ensures
        spec_pdf(w, h, rz, az).subrange(
            off1(w, h, rz, az) as int,
            off1(w, h, rz, az) + lit("1 0 obj").len() as int,
        ) == lit("1 0 obj"),
        spec_pdf(w, h, rz, az).subrange(
            off2(w, h, rz, az) as int,
            off2(w, h, rz, az) + lit("2 0 obj").len() as int,
        ) == lit("2 0 obj"),
        spec_pdf(w, h, rz, az).subrange(
            off3(w, h, rz, az) as int,
            off3(w, h, rz, az) + lit("3 0 obj").len() as int,
        ) == lit("3 0 obj"),
        spec_pdf(w, h, rz, az).subrange(
            off4(w, h, rz, az) as int,
            off4(w, h, rz, az) + lit("4 0 obj").len() as int,
        ) == lit("4 0 obj"),
        spec_pdf(w, h, rz, az).subrange(
            off5(w, h, rz, az) as int,
            off5(w, h, rz, az) + lit("5 0 obj").len() as int,
        ) == lit("5 0 obj"),
        spec_pdf(w, h, rz, az).subrange(
            off6(w, h, rz, az) as int,
            off6(w, h, rz, az) + lit("6 0 obj").len() as int,
        ) == lit("6 0 obj"),
        xref_off(w, h, rz, az) < pow10(10) ==> xref_entry(off1(w, h, rz, az)).len() == 20
            && xref_entry(off2(w, h, rz, az)).len() == 20 && xref_entry(
            off3(w, h, rz, az),
        ).len() == 20 && xref_entry(off4(w, h, rz, az)).len() == 20 && xref_entry(
            off5(w, h, rz, az),
        ).len() == 20 && xref_entry(off6(w, h, rz, az)).len() == 20,
{
    let p1 = header();
    let p2 = p1 + obj2(w, h, rz);
    let p3 = p2 + obj3(w, h, az);
    let p4 = p3 + obj5(w, h);
    let p5 = p4 + obj4(w, h);
    let p6 = p5 + obj1();
    let p7 = p6 + obj6();
    let p8 = p7 + xref_sec(w, h, rz, az);
    let p9 = p8 + trailer_sec(w, h, rz, az);
    assert(spec_pdf(w, h, rz, az) == p9) by {
        reveal(spec_pdf);
    }

    let t2 = lit("2 0 obj").len() as int;
    lemma_tok_obj2(w, h, rz);
    lemma_subrange_shift(p1, obj2(w, h, rz), 0, t2);
    lemma_subrange_prefix(p2, obj3(w, h, az), off2(w, h, rz, az) as int, off2(w, h, rz, az) + t2);
    lemma_subrange_prefix(p3, obj5(w, h), off2(w, h, rz, az) as int, off2(w, h, rz, az) + t2);
    lemma_subrange_prefix(p4, obj4(w, h), off2(w, h, rz, az) as int, off2(w, h, rz, az) + t2);
    lemma_subrange_prefix(p5, obj1(), off2(w, h, rz, az) as int, off2(w, h, rz, az) + t2);
    lemma_subrange_prefix(p6, obj6(), off2(w, h, rz, az) as int, off2(w, h, rz, az) + t2);
    lemma_subrange_prefix(
        p7,
        xref_sec(w, h, rz, az),
        off2(w, h, rz, az) as int,
        off2(w, h, rz, az) + t2,
    );
    lemma_subrange_prefix(
        p8,
        trailer_sec(w, h, rz, az),
        off2(w, h, rz, az) as int,
        off2(w, h, rz, az) + t2,
    );

    let t3 = lit("3 0 obj").len() as int;
    lemma_tok_obj3(w, h, az);
    lemma_subrange_shift(p2, obj3(w, h, az), 0, t3);
    lemma_subrange_prefix(p3, obj5(w, h), off3(w, h, rz, az) as int, off3(w, h, rz, az) + t3);
    lemma_subrange_prefix(p4, obj4(w, h), off3(w, h, rz, az) as int, off3(w, h, rz, az) + t3);
    lemma_subrange_prefix(p5, obj1(), off3(w, h, rz, az) as int, off3(w, h, rz, az) + t3);
    lemma_subrange_prefix(p6, obj6(), off3(w, h, rz, az) as int, off3(w, h, rz, az) + t3);
    lemma_subrange_prefix(
        p7,
        xref_sec(w, h, rz, az),
        off3(w, h, rz, az) as int,
        off3(w, h, rz, az) + t3,
    );
    lemma_subrange_prefix(
        p8,
        trailer_sec(w, h, rz, az),
        off3(w, h, rz, az) as int,
        off3(w, h, rz, az) + t3,
    );

    let t5 = lit("5 0 obj").len() as int;
    lemma_tok_obj5(w, h);
    lemma_subrange_shift(p3, obj5(w, h), 0, t5);
    lemma_subrange_prefix(p4, obj4(w, h), off5(w, h, rz, az) as int, off5(w, h, rz, az) + t5);
    lemma_subrange_prefix(p5, obj1(), off5(w, h, rz, az) as int, off5(w, h, rz, az) + t5);
    lemma_subrange_prefix(p6, obj6(), off5(w, h, rz, az) as int, off5(w, h, rz, az) + t5);
    lemma_subrange_prefix(
        p7,
        xref_sec(w, h, rz, az),
        off5(w, h, rz, az) as int,
        off5(w, h, rz, az) + t5,
    );
    lemma_subrange_prefix(
        p8,
        trailer_sec(w, h, rz, az),
        off5(w, h, rz, az) as int,
        off5(w, h, rz, az) + t5,
    );

    let t4 = lit("4 0 obj").len() as int;
    lemma_tok_obj4(w, h);
    lemma_subrange_shift(p4, obj4(w, h), 0, t4);
    lemma_subrange_prefix(p5, obj1(), off4(w, h, rz, az) as int, off4(w, h, rz, az) + t4);
    lemma_subrange_prefix(p6, obj6(), off4(w, h, rz, az) as int, off4(w, h, rz, az) + t4);
    lemma_subrange_prefix(
        p7,
        xref_sec(w, h, rz, az),
        off4(w, h, rz, az) as int,
        off4(w, h, rz, az) + t4,
    );
    lemma_subrange_prefix(
        p8,
        trailer_sec(w, h, rz, az),
        off4(w, h, rz, az) as int,
        off4(w, h, rz, az) + t4,
    );

    let t1 = lit("1 0 obj").len() as int;
    lemma_tok_obj1();
    lemma_subrange_shift(p5, obj1(), 0, t1);
    lemma_subrange_prefix(p6, obj6(), off1(w, h, rz, az) as int, off1(w, h, rz, az) + t1);
    lemma_subrange_prefix(
        p7,
        xref_sec(w, h, rz, az),
        off1(w, h, rz, az) as int,
        off1(w, h, rz, az) + t1,
    );
    lemma_subrange_prefix(
        p8,
        trailer_sec(w, h, rz, az),
        off1(w, h, rz, az) as int,
        off1(w, h, rz, az) + t1,
    );

    let t6 = lit("6 0 obj").len() as int;
    lemma_tok_obj6();
    lemma_subrange_shift(p6, obj6(), 0, t6);
    lemma_subrange_prefix(
        p7,
        xref_sec(w, h, rz, az),
        off6(w, h, rz, az) as int,
        off6(w, h, rz, az) + t6,
    );
    lemma_subrange_prefix(
        p8,
        trailer_sec(w, h, rz, az),
        off6(w, h, rz, az) as int,
        off6(w, h, rz, az) + t6,
    );

    if xref_off(w, h, rz, az) < pow10(10) {
        lemma_lit_facts();
        lemma_dec_pad10_len(off1(w, h, rz, az));
        lemma_dec_pad10_len(off2(w, h, rz, az));
        lemma_dec_pad10_len(off3(w, h, rz, az));
        lemma_dec_pad10_len(off4(w, h, rz, az));
        lemma_dec_pad10_len(off5(w, h, rz, az));
        lemma_dec_pad10_len(off6(w, h, rz, az));
    }
}

} // verus!
