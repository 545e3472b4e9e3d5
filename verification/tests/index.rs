use sha2::{Digest, Sha256};
use tessera::chunking::{Chunk, ChunkLocation};
use tessera::index::{chunk_hash, fts_query};

#[test]
fn a_chunk_is_addressed_by_its_document_place_and_text() {
    let chunk = Chunk::new("The buffer is 2.5 percent.".to_string(), ChunkLocation::Whole, 3);
    let mut input: Vec<u8> = Vec::new();
    input.extend_from_slice(b"int-capital-01.md");
    input.push(0);
    input.extend_from_slice(&3u64.to_le_bytes());
    input.push(0);
    input.extend_from_slice(b"The buffer is 2.5 percent.");
    let expected: String = Sha256::digest(&input).iter().map(|b| format!("{b:02x}")).collect();
    assert_eq!(chunk_hash("int-capital-01.md", &chunk), expected);
}

#[test]
fn an_unchanged_chunk_keeps_its_address_and_a_changed_one_does_not() {
    let a = Chunk::new("same".to_string(), ChunkLocation::Whole, 0);
    let b = Chunk::new("same".to_string(), ChunkLocation::Page { page: 2 }, 0);
    let c = Chunk::new("other".to_string(), ChunkLocation::Whole, 0);
    assert_eq!(chunk_hash("d.md", &a), chunk_hash("d.md", &b));
    assert_ne!(chunk_hash("d.md", &a), chunk_hash("d.md", &c));
    assert_ne!(chunk_hash("d.md", &a), chunk_hash("e.md", &a));
    assert_eq!(chunk_hash("d.md", &a).len(), 64);
}

#[test]
fn a_question_with_punctuation_becomes_quoted_words() {
    assert_eq!(
        fts_query("What's the CET1 ratio? (2024)"),
        "\"what\" OR \"the\" OR \"cet1\" OR \"ratio\" OR \"2024\""
    );
}

#[test]
fn an_empty_query_asks_for_nothing() {
    assert_eq!(fts_query(""), "");
    assert_eq!(fts_query("a ? b"), "");
}
