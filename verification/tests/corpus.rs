use tessera::chunking::{Chunk, ChunkLocation};
use tessera::parse::markdown::parse;

/// A regulation in the corpus's shape: twenty articles, each with a lead in
/// and three numbered paragraphs.
fn regulation() -> String {
    let mut text = String::from("# Capital Adequacy Regulation 3 (v1)\n\nIssued by the Central Authority.\n\n");
    for article in 1..=20 {
        text.push_str(&format!("## Article {article}\n\nThis Article sets out rule {article}.\n\n"));
        for paragraph in 1..=3 {
            text.push_str(&format!(
                "{paragraph}. Paragraph {paragraph} of Article {article} sets a requirement of {article}.{paragraph} %.\n\n"
            ));
        }
    }
    text
}

fn articles(chunks: &[Chunk]) -> Vec<(String, usize)> {
    chunks
        .iter()
        .filter_map(|c| match &c.location {
            ChunkLocation::ArticleParagraph { article, paragraph } => Some((article.clone(), *paragraph)),
            _ => None,
        })
        .collect()
}

#[test]
fn every_regulatory_article_is_citable() {
    let chunks = parse(&regulation());
    let found = articles(&chunks);
    assert!(found.len() > 50, "only {} article paragraphs came out of the regulation", found.len());
    assert!(found.iter().any(|(a, p)| a == "3" && *p == 1), "article 3 paragraph 1 is missing");
}
