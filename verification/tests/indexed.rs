use tessera::contract::{coverage_for, Coverage, Doctrine, TrustRank};
use tessera::indexed::{
    indexed_source, locator_of, narrow_folders, passage_limit, title_of, IndexedConfig,
    BOARDS_MAX_PASSAGES,
};

#[test]
fn a_folder_filter_narrows_to_the_folder_it_names() {
    let folders = vec!["local".to_string(), "other".to_string()];
    assert_eq!(narrow_folders(&folders, Some("other")), vec!["other".to_string()]);
    assert_eq!(narrow_folders(&folders, None), folders);
}

#[test]
fn a_folder_filter_never_widens() {
    let folders = vec!["local".to_string()];
    assert!(narrow_folders(&folders, Some("sensitive")).is_empty());
}

#[test]
fn prior_cards_never_return_more_than_three_passages() {
    assert_eq!(passage_limit(&IndexedConfig::boards(), 12), BOARDS_MAX_PASSAGES);
    assert_eq!(passage_limit(&IndexedConfig::boards(), 2), 2);
    assert_eq!(passage_limit(&IndexedConfig::local(vec!["local".to_string()]), 12), 12);
}

#[test]
fn the_locator_is_the_document_and_not_the_chunk() {
    assert_eq!(locator_of("int-capital-01.md#3"), "int-capital-01.md");
    assert_eq!(locator_of("no-sequence.md"), "no-sequence.md");
}

#[test]
fn a_title_is_the_file_name_without_its_extension() {
    assert_eq!(title_of("policies/int-capital_01.md"), "int capital 01");
    assert_eq!(title_of("README"), "README");
}

#[test]
fn a_passage_carries_the_class_and_rank_its_configuration_says() {
    let config = IndexedConfig::regulatory("car3".to_string());
    let doctrine = Doctrine {
        trust_ranks: vec![
            TrustRank { class: Some("regulatory".to_string()), issuer_pattern: None, rank: 2 },
            TrustRank {
                class: Some("regulatory".to_string()),
                issuer_pattern: Some("OSFI".to_string()),
                rank: 1,
            },
        ],
        denied_domains: Vec::new(),
    };
    let s = indexed_source(
        &config,
        "reg-car3-v1.md",
        Some("OSFI CAR".to_string()),
        &doctrine,
        Some("v1".to_string()),
        "abc".to_string(),
    );
    assert_eq!(s.class, "regulatory");
    assert_eq!(s.freshness_class, "regulation");
    assert_eq!(s.title, "reg car3 v1");
    assert_eq!(s.locator, "reg-car3-v1.md");
    assert_eq!(s.trust_rank, 1);
    assert_eq!(s.published_at, None);
    assert_eq!(s.version_ref, Some("v1".to_string()));
    assert_eq!(s.content_hash, "abc");

    let unlabelled = indexed_source(&config, "reg.md", None, &doctrine, None, "d".to_string());
    assert_eq!(unlabelled.trust_rank, 2);
}

#[test]
fn nothing_found_is_coverage_none_and_not_an_error() {
    assert_eq!(coverage_for(0, 5), Coverage::Nothing);
    assert_eq!(coverage_for(2, 5), Coverage::Partial);
    assert_eq!(coverage_for(5, 5), Coverage::Full);
}
