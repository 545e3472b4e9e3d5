use std::io::Write;

use tessera::chunking::ChunkLocation;
use tessera::parse::docx::{chunks_from_xml, parse};
use tessera::parse::ParseError;

#[test]
fn runs_inside_one_paragraph_are_joined() {
    let xml = r#"<w:document><w:body>
        <w:p><w:r><w:t>The minimum own funds </w:t></w:r><w:r><w:t>requirement is 8.4 %.</w:t></w:r></w:p>
    </w:body></w:document>"#;
    let out = chunks_from_xml(xml);
    assert_eq!(out.len(), 1);
    assert_eq!(out[0].text, "The minimum own funds requirement is 8.4 %.");
}

#[test]
fn paragraphs_stay_separate() {
    let xml = r#"<w:document><w:body>
        <w:p><w:r><w:t>First paragraph.</w:t></w:r></w:p>
        <w:p><w:r><w:t>Second paragraph.</w:t></w:r></w:p>
    </w:body></w:document>"#;
    let out = chunks_from_xml(xml);
    assert!(out[0].text.contains("First paragraph."));
    assert!(out[0].text.contains("Second paragraph."));
    assert!(out[0].text.contains('\n'), "paragraphs were welded together");
}

#[test]
fn a_tab_becomes_a_space_rather_than_nothing() {
    let xml = r#"<w:document><w:body>
        <w:p><w:r><w:t>Buffer</w:t><w:tab/><w:t>2.5 %</w:t></w:r></w:p>
    </w:body></w:document>"#;
    let out = chunks_from_xml(xml);
    assert_eq!(out[0].text, "Buffer 2.5 %", "a tab welded two tokens together");
}

#[test]
fn an_unprefixed_document_parses_the_same() {
    let xml = "<document><body><p><r><t>Plain namespaces.</t></r></p></body></document>";
    assert_eq!(chunks_from_xml(xml)[0].text, "Plain namespaces.");
}

#[test]
fn truncated_xml_yields_what_was_read_rather_than_panicking() {
    let xml = "<w:document><w:body><w:p><w:r><w:t>A sentence that surviv";
    let _ = chunks_from_xml(xml);
}

#[test]
fn a_file_that_is_not_a_zip_is_an_error_not_a_panic() {
    assert!(matches!(parse(b"this is not a zip archive at all"), Err(ParseError::Malformed { .. })));
}

#[test]
fn an_escaped_ampersand_is_an_ampersand_in_the_index() {
    let xml = "<w:document><w:body><w:p><w:r><w:t>Risk &amp; capital</w:t></w:r></w:p></w:body></w:document>";
    assert_eq!(chunks_from_xml(xml)[0].text, "Risk & capital");
}

#[test]
fn text_outside_a_run_is_not_read() {
    let xml = "<w:document><w:body><w:p>stray<w:r><w:t>kept</w:t></w:r></w:p></w:body></w:document>";
    let out = chunks_from_xml(xml);
    assert_eq!(out[0].text, "kept");
    assert_eq!(out[0].location, ChunkLocation::Whole);
}

fn zip_with(name: &str, contents: &str) -> Vec<u8> {
    let mut bytes = Vec::new();
    {
        let mut writer = zip::ZipWriter::new(std::io::Cursor::new(&mut bytes));
        writer.start_file(name, zip::write::SimpleFileOptions::default()).expect("entry");
        writer.write_all(contents.as_bytes()).expect("write");
        writer.finish().expect("finish");
    }
    bytes
}

#[test]
fn a_docx_is_read_from_its_document_entry() {
    let bytes = zip_with(
        "word/document.xml",
        "<w:document><w:body><w:p><w:r><w:t>Inside the archive.</w:t></w:r></w:p></w:body></w:document>",
    );
    let out = parse(&bytes).expect("parses");
    assert_eq!(out.len(), 1);
    assert_eq!(out[0].text, "Inside the archive.");
}

#[test]
fn an_archive_without_a_document_says_so() {
    let bytes = zip_with("other.xml", "<x/>");
    match parse(&bytes) {
        Err(ParseError::Malformed { format, detail }) => {
            assert_eq!(format, "docx");
            assert_eq!(detail, "no word/document.xml in the archive");
        }
        other => panic!("unexpected {other:?}"),
    }
}
