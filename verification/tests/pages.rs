use tessera::chunking::ChunkLocation;
use tessera::indexed::IndexedConfig;
use tessera::pages::{page_chunks, page_source, VAULT_FOLDER};

#[test]
fn a_page_is_indexed_under_its_own_class() {
    let config = IndexedConfig::pages(vec![VAULT_FOLDER.to_string()]);
    assert_eq!(config.source_class, "page");
    assert_eq!(
        config.folder_ids,
        vec![VAULT_FOLDER.to_string()],
        "the vault is one folder, and it is not the person's documents"
    );
}

#[test]
fn a_page_leads_with_its_title() {
    assert_eq!(page_source("Liquidity risk", "Body text."), "# Liquidity risk\n\nBody text.");
    let chunks = page_chunks("Liquidity risk", "The buffer holds for thirty days.");
    assert_eq!(chunks.len(), 1);
    assert!(matches!(
        &chunks[0].location,
        ChunkLocation::Heading { title, level: 1 } if title == "Liquidity risk"
    ));
    assert!(chunks[0].text.contains("thirty days"));
}
