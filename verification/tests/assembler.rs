//! Tests of the document assembler on hand-chosen stream bytes: the
//! byte layout, the cross-reference offsets and the declared lengths.

use img2pdf::layout::assemble;

fn find(hay: &[u8], needle: &[u8]) -> Option<usize> {
    if needle.len() > hay.len() {
        return None;
    }
    (0..=hay.len() - needle.len()).find(|&i| &hay[i..i + needle.len()] == needle)
}

fn parse_usize(digits: &[u8]) -> usize {
    let mut n: usize = 0;
    for &d in digits {
        assert!(d.is_ascii_digit(), "not a digit: {}", d);
        n = n * 10 + (d - b'0') as usize;
    }
    n
}

#[test]
fn test_header_and_eof_markers() {
    let rz: Vec<u8> = vec![1, 2, 3];
    let az: Vec<u8> = vec![9];
    let (pdf, _, _) = assemble(4, 7, &rz, &az);
    assert!(pdf.starts_with(b"%PDF"));
    assert!(pdf.ends_with(b"%%EOF\n"));
    // a single trailing newline: the byte before the final one is 'F'
    assert_eq!(pdf[pdf.len() - 2], b'F');
}

#[test]
fn test_xref_offsets_match_objects() {
    let rz: Vec<u8> = b"some compressed rgb bytes".to_vec();
    let az: Vec<u8> = b"mask".to_vec();
    let (pdf, _, _) = assemble(640, 480, &rz, &az);

    // startxref names the position of the `xref` keyword
    let sx = find(&pdf, b"startxref\n").expect("no startxref");
    let nl = sx + 10 + find(&pdf[sx + 10..], b"\n").expect("no newline after startxref");
    let xref_pos = parse_usize(&pdf[sx + 10..nl]);
    assert_eq!(&pdf[xref_pos..xref_pos + 5], b"xref\n");

    // the subsection header announces entries 0 to 6
    assert_eq!(&pdf[xref_pos + 5..xref_pos + 9], b"0 7\n");
    assert_eq!(&pdf[xref_pos + 9..xref_pos + 29], b"0000000000 65535 f \n");

    // every in-use entry is 20 bytes and points at its object token
    for id in 1..=6usize {
        let e = xref_pos + 29 + 20 * (id - 1);
        let entry = &pdf[e..e + 20];
        assert_eq!(&entry[10..], b" 00000 n \n");
        let off = parse_usize(&entry[..10]);
        let token = format!("{} 0 obj", id);
        assert_eq!(&pdf[off..off + 7], token.as_bytes());
    }
}

#[test]
fn test_stream_payloads_at_returned_offsets() {
    let rz: Vec<u8> = vec![0, 1, 2, 3, 4, 5, 250, 251, 252];
    let az: Vec<u8> = vec![42, 43];
    let (pdf, s2, s3) = assemble(3, 1, &rz, &az);
    assert_eq!(&pdf[s2..s2 + rz.len()], &rz[..]);
    assert_eq!(&pdf[s3..s3 + az.len()], &az[..]);
    // the payloads are bracketed by the stream keywords
    assert_eq!(&pdf[s2 - 7..s2], b"stream\n");
    assert_eq!(&pdf[s2 + rz.len()..s2 + rz.len() + 9], b"endstream");
    assert_eq!(&pdf[s3 - 7..s3], b"stream\n");
    assert_eq!(&pdf[s3 + az.len()..s3 + az.len() + 9], b"endstream");
}

#[test]
fn test_declared_lengths_match_payloads() {
    let rz: Vec<u8> = vec![7; 123];
    let az: Vec<u8> = vec![8; 45];
    let (pdf, _, _) = assemble(10, 20, &rz, &az);
    // image and mask dictionaries declare the exact compressed sizes
    assert!(find(&pdf, b"/Filter /FlateDecode /Length 123 /SMask 3 0 R").is_some());
    assert!(find(&pdf, b"/Filter /FlateDecode /Length 45 >>").is_some());
    // the content stream declares the exact byte count of its operators
    let ops = b"q\n10 0 0 20 0 0 cm\n/Im2 Do\nQ";
    let decl = find(&pdf, b"5 0 obj\n<< /Length 28 >>\nstream\n").expect("content head");
    let body = decl + b"5 0 obj\n<< /Length 28 >>\nstream\n".len();
    assert_eq!(&pdf[body..body + ops.len()], ops);
    assert_eq!(ops.len(), 28);
}

#[test]
fn test_fixed_object_dictionaries() {
    let rz: Vec<u8> = vec![1];
    let az: Vec<u8> = vec![2];
    let (pdf, _, _) = assemble(2, 2, &rz, &az);
    assert!(find(&pdf, b"/MediaBox [0 0 2 2]").is_some());
    assert!(find(&pdf, b"1 0 obj\n<< /Type /Pages /Kids [ 4 0 R ] /Count 1 >>\nendobj\n").is_some());
    assert!(find(&pdf, b"6 0 obj\n<< /Type /Catalog /Pages 1 0 R >>\nendobj\n").is_some());
    assert!(find(&pdf, b"trailer\n<< /Size 7 /Root 6 0 R >>\n").is_some());
    assert!(find(&pdf, b"/ColorSpace /DeviceRGB").is_some());
    assert!(find(&pdf, b"/ColorSpace /DeviceGray").is_some());
}
