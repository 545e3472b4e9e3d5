use tessera::chunking::MAX_PASSAGE_CHARS;
use tessera::contract::{
    cap, confidence_percent, coverage_for, dedupe_key, Coverage, Doctrine, TrustRank, UNRANKED,
};

fn doctrine() -> Doctrine {
    Doctrine {
        trust_ranks: vec![
            TrustRank {
                class: Some("regulatory".to_string()),
                issuer_pattern: Some("Central Authority".to_string()),
                rank: 1,
            },
            TrustRank { class: Some("regulatory".to_string()), issuer_pattern: None, rank: 2 },
            TrustRank { class: Some("local_document".to_string()), issuer_pattern: None, rank: 4 },
        ],
        denied_domains: Vec::new(),
    }
}

#[test]
fn the_more_specific_doctrine_rule_wins() {
    let d = doctrine();
    assert_eq!(d.rank_for("regulatory", Some("Central Authority for Prudential Oversight")), 1);
    assert_eq!(d.rank_for("regulatory", Some("Some Other Regulator")), 2);
    assert_eq!(d.rank_for("local_document", None), 4);
}

#[test]
fn an_unranked_source_sorts_last_rather_than_first() {
    assert_eq!(doctrine().rank_for("web", None), 9);
    assert_eq!(UNRANKED, 9);
}

#[test]
fn mirrored_locators_share_one_dedupe_key() {
    let expected = "ledgerline.invalid/capital/buffers";
    for locator in [
        "https://ledgerline.invalid/capital/buffers",
        "http://www.ledgerline.invalid/capital/buffers/",
        "HTTPS://Ledgerline.Invalid/capital/buffers?utm_source=news",
        "https://ledgerline.invalid/capital/buffers#section-2",
    ] {
        assert_eq!(dedupe_key(locator), expected, "{locator} did not normalise");
    }
}

#[test]
fn different_pages_keep_different_keys() {
    assert_ne!(dedupe_key("https://a.invalid/one"), dedupe_key("https://a.invalid/two"));
}

#[test]
fn confidence_follows_the_published_weights_exactly() {
    // Full coverage, a source of rank 1, no errors, no rewrite.
    assert_eq!(confidence_percent(Coverage::Full, true, 0, false), 100);
    // The same with no trusted source: the rank-7 passage earns nothing.
    assert_eq!(confidence_percent(Coverage::Full, false, 0, false), 70);
    // Coverage none, no sources, but no errors and no rewrite either.
    assert_eq!(confidence_percent(Coverage::Nothing, false, 0, false), 30);
}

#[test]
fn a_fetch_error_and_a_rewrite_each_cost_their_share() {
    assert_eq!(confidence_percent(Coverage::Full, false, 0, false), 70);
    assert_eq!(confidence_percent(Coverage::Full, false, 1, false), 50);
    assert_eq!(confidence_percent(Coverage::Full, false, 0, true), 60);
}

#[test]
fn passage_text_is_capped_centrally() {
    let long = "x".repeat(MAX_PASSAGE_CHARS + 500);
    assert_eq!(cap(&long).chars().count(), MAX_PASSAGE_CHARS);
    assert_eq!(cap("short"), "short");
}

#[test]
fn capping_twice_is_capping_once() {
    let long = "é".repeat(MAX_PASSAGE_CHARS * 2);
    let once = cap(&long);
    assert_eq!(cap(&once), once);
}

#[test]
fn coverage_is_full_only_when_the_request_was_filled() {
    assert_eq!(coverage_for(0, 5), Coverage::Nothing);
    assert_eq!(coverage_for(3, 5), Coverage::Partial);
    assert_eq!(coverage_for(5, 5), Coverage::Full);
    assert_eq!(coverage_for(6, 5), Coverage::Full);
}

#[test]
fn an_issuer_pattern_never_matches_a_source_without_an_issuer() {
    assert_eq!(doctrine().rank_for("regulatory", None), 2);
}
