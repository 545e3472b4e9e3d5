use tessera::chunking::ChunkLocation;
use tessera::parse::markdown::{article_number, parse};

const REGULATION: &str = "# Capital Adequacy Regulation 3 (v1)\n\n\
Issued by the Central Authority for Prudential Oversight.\n\n\
## Article 3\n\n\
This Article applies to institutions authorised under this Regulation.\n\n\
1. The minimum own funds requirement is 8.4 %. An institution shall document the assumptions.\n\n\
2. An institution shall keep an inventory of every model in regulatory use.\n";

fn paragraphs(source: &str) -> Vec<(String, usize, String)> {
    parse(source)
        .into_iter()
        .filter_map(|c| match c.location {
            ChunkLocation::ArticleParagraph { article, paragraph } => Some((article, paragraph, c.text)),
            _ => None,
        })
        .collect()
}

#[test]
fn a_numbered_item_keeps_the_number_the_regulation_gave_it() {
    let found = paragraphs(REGULATION);
    let one = found.iter().find(|(_, p, _)| *p == 1).expect("paragraph 1");
    assert_eq!(one.0, "3");
    assert!(one.2.contains("8.4 %"), "the planted value is missing: {:?}", one.2);
    let two = found.iter().find(|(_, p, _)| *p == 2).expect("paragraph 2");
    assert!(two.2.contains("inventory"), "{:?}", two.2);
}

#[test]
fn the_chapeau_is_paragraph_zero_and_never_collides_with_paragraph_one() {
    let found = paragraphs(REGULATION);
    let zero = found.iter().find(|(_, p, _)| *p == 0).expect("the chapeau");
    assert!(zero.2.contains("applies to institutions"), "{:?}", zero.2);
    assert_eq!(
        found.iter().filter(|(_, p, _)| *p == 1).count(),
        1,
        "two passages both claim to be paragraph 1"
    );
}

#[test]
fn prose_outside_an_article_keeps_its_heading() {
    assert!(parse(REGULATION).iter().any(|c| matches!(
        &c.location,
        ChunkLocation::Heading { title, .. } if title.contains("Capital Adequacy")
    )));
}

#[test]
fn a_heading_that_merely_mentions_an_article_is_not_one() {
    let out = parse("## Articles of association\n\nSome prose about the company.\n");
    assert!(
        out.iter().all(|c| !matches!(c.location, ChunkLocation::ArticleParagraph { .. })),
        "a section was mistaken for a regulation article"
    );
}

#[test]
fn an_empty_document_yields_nothing_rather_than_failing() {
    assert!(parse("").is_empty());
    assert!(parse("   \n\n  ").is_empty());
}

#[test]
fn sequence_numbers_are_unique_across_a_document() {
    let out = parse(REGULATION);
    let mut seen: Vec<usize> = out.iter().map(|c| c.sequence).collect();
    let before = seen.len();
    seen.sort_unstable();
    seen.dedup();
    assert_eq!(seen.len(), before, "two chunks share a sequence number");
}

#[test]
fn every_chunk_is_numbered_by_its_position() {
    for (i, c) in parse(REGULATION).iter().enumerate() {
        assert_eq!(c.sequence, i);
    }
}

#[test]
fn an_article_number_is_read_from_the_heading() {
    assert_eq!(article_number("Article 12").as_deref(), Some("12"));
    assert_eq!(article_number("  article 7a  ").as_deref(), Some("7"));
    assert_eq!(article_number("Articles of association"), None);
    assert_eq!(article_number("Article x"), None);
    assert_eq!(article_number("See Article 3"), None);
}

#[test]
fn an_unnumbered_block_after_an_item_stays_with_that_paragraph() {
    let source = "## Article 9\n\n1. First item.\n\n   A continuation inside it.\n\nA loose paragraph.\n";
    let found = paragraphs(source);
    assert!(!found.is_empty());
    assert!(found.iter().all(|(a, p, _)| a == "9" && *p == 1), "{found:?}");
}

#[test]
fn an_ordered_list_may_start_anywhere() {
    let found = paragraphs("## Article 4\n\n5. Fifth.\n6. Sixth.\n");
    let numbers: Vec<usize> = found.iter().map(|(_, p, _)| *p).collect();
    assert_eq!(numbers, vec![5, 6]);
}
