use tessera::contract::{Doctrine, TrustRank};
use tessera::parse::html::HtmlMeta;
use tessera::web::{body_hash, links_within, note_source, page_has_prose, passage_id, web_source, Discovery, MAX_CANDIDATES};

#[test]
fn a_listing_is_links_and_a_page_is_prose() {
    let listing = r#"<html><body><ul><li><a href="a.html">a.html</a></li><li><a href="b.html">b.html</a></li></ul></body></html>"#;
    assert!(!page_has_prose(listing));
    let page = "<html><body><p>The notification period comes to 85 days in practice.</p></body></html>";
    assert!(page_has_prose(page));
}

#[test]
fn links_stay_on_the_host_they_were_found_on() {
    let body = r##"<a href="one.html">1</a><a href="http://other.invalid/x">x</a><a href="#top">t</a><a href="../">up</a><a href="/root.html">r</a>"##;
    let links = links_within("http://h.invalid/docs/index.html", body);
    assert_eq!(links, vec!["http://h.invalid/docs/one.html", "http://h.invalid/root.html"]);
}

#[test]
fn one_page_under_two_urls_is_one_candidate() {
    let mut d = Discovery::new();
    let links = vec![
        "https://h.invalid/a".to_string(),
        "http://www.h.invalid/a/".to_string(),
        "https://h.invalid/b".to_string(),
    ];
    d.read_seed(&links, "https://h.invalid/", false);
    assert_eq!(d.candidates, vec!["https://h.invalid/a".to_string(), "https://h.invalid/b".to_string()]);
    d.read_seed(&[], "https://h.invalid/b?utm_source=x", true);
    assert_eq!(d.candidates.len(), 2, "the seed was the page already taken");
}

#[test]
fn discovery_stops_at_its_candidate_cap() {
    let mut d = Discovery::new();
    let links: Vec<String> = (0..100).map(|i| format!("https://h.invalid/p{i}")).collect();
    d.read_seed(&links, "https://h.invalid/", false);
    assert_eq!(d.candidates.len(), MAX_CANDIDATES);
}

#[test]
fn a_denial_is_recorded_once() {
    let mut d = Discovery::new();
    d.deny("denied_domain".to_string());
    d.deny("denied_domain".to_string());
    d.fetch_failed();
    assert_eq!(d.denied, vec!["denied_domain".to_string()]);
    assert_eq!(d.fetch_errors, 1);
}

#[test]
fn a_page_source_takes_its_rank_from_doctrine() {
    let doctrine = Doctrine {
        trust_ranks: vec![TrustRank { class: Some("web".to_string()), issuer_pattern: None, rank: 6 }],
        denied_domains: Vec::new(),
    };
    let meta = HtmlMeta { title: None, issuer: None, published_at: Some("2025-05-22".to_string()) };
    let s = web_source("https://H.invalid/guides/capital-buffers.html", &meta, &doctrine, None, "abc".to_string());
    assert_eq!(s.class, "web");
    assert_eq!(s.issuer.as_deref(), Some("h.invalid"));
    assert_eq!(s.title, "capital buffers");
    assert_eq!(s.trust_rank, 6);
    assert_eq!(s.freshness_class, "web_page");
    assert_eq!(s.published_at.as_deref(), Some("2025-05-22"));
}

#[test]
fn a_passage_id_is_the_page_hash_and_place() {
    assert_eq!(passage_id("abc", 12), "abc#12");
    assert_eq!(passage_id("abc", 0), "abc#0");
}

#[test]
fn the_same_bytes_give_the_same_hash() {
    assert_eq!(body_hash("hello"), body_hash("hello"));
    assert_eq!(body_hash("abc"), "ba7816bf8f01cfea414140de5dae2223b00361a396177a9cb410ff61f20015ad");
}

#[test]
fn a_mirror_is_noted_as_a_duplicate() {
    let mut keys = Vec::new();
    assert!(note_source(&mut keys, "https://h.invalid/a"));
    assert!(!note_source(&mut keys, "http://www.h.invalid/a/"));
    assert!(note_source(&mut keys, "https://h.invalid/b"));
    assert_eq!(keys.len(), 2);
}
