use tessera::parse::{format_by_extension, format_of, is_supported, sniff, Format, ParseError};

#[test]
fn a_pdf_wearing_a_docx_extension_is_read_as_a_pdf() {
    let bytes = b"%PDF-1.3\nnot really a word document";
    assert_eq!(sniff(bytes), Some(Format::Pdf));
    assert_eq!(format_by_extension("mislabelled.docx"), Some(Format::Docx));
    assert!(matches!(format_of("mislabelled.docx", bytes), Ok(Format::Pdf)));
}

#[test]
fn a_text_format_falls_back_to_its_extension() {
    let bytes = b"# A heading\n\nThe buffer is 2.5 percent.\n";
    assert_eq!(sniff(bytes), None, "markdown has no signature to find");
    assert!(matches!(format_of("note.md", bytes), Ok(Format::Markdown)));
}

#[test]
fn a_file_that_is_neither_is_refused_by_name() {
    let bytes = b"\xff\xd8\xff\xe0 jpeg bytes";
    assert!(matches!(format_of("photo.jpeg", bytes), Err(ParseError::UnsupportedFormat(e)) if e == "jpeg"));
    assert!(!is_supported("photo.jpeg", bytes));
}

#[test]
fn an_empty_file_is_not_mistaken_for_a_format() {
    assert_eq!(sniff(b""), None);
}

#[test]
fn an_extension_is_read_as_the_path_reads_it() {
    assert_eq!(format_by_extension("a/b/REPORT.PDF"), Some(Format::Pdf));
    assert_eq!(format_by_extension("notes.markdown"), Some(Format::Markdown));
    assert_eq!(format_by_extension("page.htm"), Some(Format::Html));
    assert_eq!(format_by_extension(".md"), None);
    assert_eq!(format_by_extension("dir.md/file"), None);
    assert_eq!(format_by_extension("dir/file.txt/"), Some(Format::Text));
    assert!(matches!(format_of("README", b"plain"), Err(ParseError::UnsupportedFormat(e)) if e == "no extension"));
}

#[test]
fn a_parse_error_reads_as_a_sentence() {
    let e = ParseError::Malformed { format: "pdf", detail: "broken".to_string() };
    assert_eq!(e.message(), "pdf could not be read: broken");
    assert_eq!(ParseError::Protected("x.pdf".to_string()).message(), "x.pdf is protected and was not opened");
    assert_eq!(ParseError::Io("gone".to_string()).message(), "io: gone");
}

#[test]
fn each_parse_error_is_recorded_under_its_kind() {
    assert_eq!(ParseError::Io("denied".to_string()).kind(), "io");
    assert_eq!(
        ParseError::Malformed { format: "pdf", detail: "bad xref".to_string() }.kind(),
        "malformed"
    );
    assert_eq!(ParseError::Protected("a.pdf".to_string()).kind(), "protected");
    assert_eq!(ParseError::NeedsOcr("scan.pdf".to_string()).kind(), "needs_ocr");
    assert_eq!(ParseError::UnsupportedFormat("jpeg".to_string()).kind(), "unsupported");
}
