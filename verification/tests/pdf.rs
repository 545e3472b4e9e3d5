use tessera::chunking::ChunkLocation;
use tessera::parse::pdf::{from_extraction, from_text, is_encrypted};
use tessera::parse::ParseError;

#[test]
fn the_word_encrypt_deep_in_a_stream_is_not_a_declaration() {
    let mut bytes = b"%PDF-1.4\n".to_vec();
    bytes.extend(std::iter::repeat_n(b' ', 4_000));
    bytes.extend_from_slice(b"/Encrypt");
    assert!(!is_encrypted(&bytes));
}

#[test]
fn a_protected_pdf_says_so_rather_than_calling_itself_damaged() {
    assert!(is_encrypted(b"%PDF-1.7\n/Encrypt 1 0 R\ntrailer<<>>"));
    let out = from_extraction("locked.pdf", Some(Err("the file is encrypted".to_string())));
    assert!(matches!(out, Err(ParseError::Protected(p)) if p == "locked.pdf"));
}

#[test]
fn a_corrupt_pdf_is_an_error_and_never_a_panic() {
    let out = from_extraction("corrupt.pdf", None);
    match out {
        Err(ParseError::Malformed { format, detail }) => {
            assert_eq!(format, "pdf");
            assert_eq!(detail, "the pdf parser could not read this file");
        }
        other => panic!("unexpected {other:?}"),
    }
    let out = from_extraction("bad.pdf", Some(Err("unexpected end of file".to_string())));
    assert!(matches!(out, Err(ParseError::Malformed { format: "pdf", .. })));
}

#[test]
fn a_thin_text_layer_needs_ocr() {
    let out = from_text("scan.pdf", "  a  b \n c ");
    assert!(matches!(out, Err(ParseError::NeedsOcr(p)) if p == "scan.pdf"));
}

#[test]
fn pages_are_numbered_from_one_and_empty_pages_skipped() {
    let page = "The leverage ratio floor is three point four percent of exposure.";
    let text = format!("{page}\u{c}   \u{c}{page}");
    let out = from_text("doc.pdf", &text).expect("has a text layer");
    assert_eq!(out.len(), 2);
    assert_eq!(out[0].location, ChunkLocation::Page { page: 1 });
    assert_eq!(out[1].location, ChunkLocation::Page { page: 3 });
    assert_eq!(out[0].sequence, 0);
    assert_eq!(out[1].sequence, 1);
}
