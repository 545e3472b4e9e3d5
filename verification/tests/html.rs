use tessera::chunking::ChunkLocation;
use tessera::parse::html::{meta, parse};

const PAGE: &str = r#"<!doctype html>
<html lang="en"><head>
<meta charset="utf-8">
<title>What Outsourcing Guidelines 2025 means for you</title>
<meta name="issuer" content="clearpath-systems.invalid">
<meta name="published" content="2025-05-22">
<style>.nav{color:red}</style>
</head><body>
<nav><a href="/">Home</a><a href="/about">About us today</a></nav>
<h1>What Outsourcing Guidelines 2025 means for you</h1>
<p>A plain reading of the rules, without the article numbers.</p>
<h2>Point 1</h2>
<p>In practice the notification period before an outsourcing starts comes to 85 days.</p>
<script>var tracking = "capital buffer requirement analytics";</script>
</body></html>"#;

#[test]
fn headings_open_sections_and_text_lands_under_them() {
    let out = parse(PAGE);
    let point_one = out
        .iter()
        .find(|c| matches!(&c.location, ChunkLocation::Heading { title, .. } if title == "Point 1"))
        .expect("the Point 1 section");
    assert!(point_one.text.contains("85 days"), "{:?}", point_one.text);
}

#[test]
fn script_and_style_and_nav_never_reach_the_index() {
    let out = parse(PAGE);
    let all: String = out.iter().map(|c| c.text.as_str()).collect::<Vec<_>>().join(" ");
    assert!(!all.contains("tracking"), "script text was indexed");
    assert!(!all.contains("capital buffer requirement analytics"), "script text was indexed");
    assert!(!all.contains("About us today"), "nav text was indexed");
}

#[test]
fn metadata_is_recovered_for_the_source_row() {
    let m = meta(PAGE);
    assert_eq!(m.issuer.as_deref(), Some("clearpath-systems.invalid"));
    assert_eq!(m.published_at.as_deref(), Some("2025-05-22"));
    assert!(m.title.as_deref().unwrap_or_default().contains("Outsourcing Guidelines"));
}

#[test]
fn malformed_html_yields_what_it_can_rather_than_failing() {
    let out = parse("<html><body><p>An unclosed paragraph<p>and another</body>");
    let all: String = out.iter().map(|c| c.text.as_str()).collect::<Vec<_>>().join(" ");
    assert!(all.contains("unclosed paragraph"));
}

#[test]
fn an_empty_document_yields_nothing() {
    assert!(parse("").is_empty());
    assert!(parse("<html><body></body></html>").is_empty());
}

#[test]
fn a_heading_level_comes_from_the_element() {
    let out = parse("<body><h3>Deep</h3><p>Under it.</p></body>");
    assert!(out.iter().any(|c| matches!(
        &c.location,
        ChunkLocation::Heading { title, level: 3 } if title == "Deep"
    )));
}

#[test]
fn a_page_without_metadata_has_none() {
    let m = meta("<html><head><meta name=\"issuer\" content=\"   \"></head><body></body></html>");
    assert_eq!(m.issuer, None);
    assert_eq!(m.published_at, None);
    assert_eq!(m.title, None);
}

#[test]
fn boilerplate_inside_a_paragraph_never_reaches_the_index() {
    let out = parse(
        "<html><body><p>Buffer <script>var x = 1;</script>rules <style>p{}</style>apply.</p>\
         <li>Item <svg><text>chart label</text></svg>one</li></body></html>",
    );
    assert_eq!(out.len(), 1);
    assert_eq!(out[0].text, "Buffer rules apply.\nItem one");
}
