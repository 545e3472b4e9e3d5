use tessera::event::check_event_type;
use tessera::repo::{concept_term, flag_status_for, kept_text, other_cards, score_mastery, Retained};
use tessera::store_error::StoreError;

#[test]
fn a_decision_sets_the_flag_status_it_names() {
    assert_eq!(flag_status_for("accept"), "accepted");
    assert_eq!(flag_status_for("dismiss"), "dismissed");
    assert_eq!(flag_status_for("rerun"), "open");
    assert_eq!(flag_status_for("edit"), "open");
}

#[test]
fn a_bulk_decision_reaches_each_other_card_once() {
    let pair = |c: &str, b: &str| (c.to_string(), b.to_string());
    let cards = vec![pair("c1", "b1"), pair("c2", "b1"), pair("c1", "b1"), pair("c3", "b2"), pair("c2", "b1")];
    assert_eq!(other_cards(&cards), vec![pair("c2", "b1"), pair("c3", "b2")]);
    assert!(other_cards(&[pair("c1", "b1")]).is_empty());
}

#[test]
fn retrieval_accounting_lists_each_source_once() {
    let mut r = Retained::default();
    r.account("s1".to_string(), true, None, "p1".to_string());
    r.account("s1".to_string(), false, Some("stale".to_string()), "p2".to_string());
    r.account("s2".to_string(), true, None, "p3".to_string());
    assert_eq!(r.source_ids, vec!["s1".to_string(), "s2".to_string()]);
    assert_eq!(r.passage_ids.len(), 3);
    assert_eq!(r.sources_created, 2);
    assert_eq!(r.sources_deduplicated, 1);
    assert_eq!(r.stale, vec![None, Some("stale".to_string()), None]);
}

#[test]
fn a_withheld_passage_keeps_no_text() {
    assert_eq!(kept_text("secret", true), None);
    assert_eq!(kept_text("open", false).as_deref(), Some("open"));
}

#[test]
fn a_concept_term_is_trimmed_and_sized() {
    assert_eq!(concept_term("  capital buffer ").as_deref(), Some("capital buffer"));
    assert_eq!(concept_term(" x "), None);
    assert_eq!(concept_term(&"y".repeat(121)), None);
    assert_eq!(concept_term(&"y".repeat(120)).map(|t| t.len()), Some(120));
}

#[test]
fn an_event_outside_the_vocabulary_is_refused() {
    assert!(check_event_type("card.requested.v1").is_ok());
    match check_event_type("card.requsted.v1") {
        Err(StoreError::UnknownEventType(t)) => assert_eq!(t, "card.requsted.v1"),
        other => panic!("unexpected {other:?}"),
    }
}

#[test]
fn a_store_error_reads_as_a_sentence() {
    assert_eq!(
        StoreError::SchemaVersion { found: 3, expected: -1 }.message(),
        "no migration path from schema version 3 to -1"
    );
    assert_eq!(
        StoreError::BlobCorrupt { expected: "aa".to_string(), actual: "bb".to_string() }.message(),
        "blob aa does not hash to its content (got bb)"
    );
}

#[test]
fn a_check_moves_each_concept_one_step_and_never_below_zero() {
    let start = vec![("c1".to_string(), 2i64), ("c2".to_string(), 0i64)];
    let ids = vec!["c1".to_string(), "c3".to_string()];
    assert_eq!(
        score_mastery(start.clone(), &ids, true),
        vec![("c1".to_string(), 3), ("c2".to_string(), 0), ("c3".to_string(), 1)]
    );
    let ids = vec!["c1".to_string(), "c2".to_string(), "c3".to_string()];
    assert_eq!(
        score_mastery(start, &ids, false),
        vec![("c1".to_string(), 1), ("c2".to_string(), 0), ("c3".to_string(), 0)]
    );
}
