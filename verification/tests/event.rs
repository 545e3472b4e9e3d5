use tessera::event::{is_known_event_type, parse_source, Source, EVENT_VOCABULARY};

#[test]
fn vocabulary_has_no_duplicates() {
    let mut seen: Vec<&str> = Vec::new();
    for t in EVENT_VOCABULARY.iter() {
        assert!(!seen.contains(t), "duplicate event type in the vocabulary: {t}");
        seen.push(t);
    }
}

#[test]
fn every_event_type_is_versioned() {
    for t in EVENT_VOCABULARY.iter() {
        assert!(t.ends_with(".v1"), "{t} carries no version suffix");
        assert!(t.split('.').count() >= 3, "{t} is not <domain>.<name>.<version>");
    }
}

#[test]
fn replay_and_test_do_not_fire_policy_hooks() {
    assert!(!Source::Replay.fires_policy_hooks());
    assert!(!Source::Test.fires_policy_hooks());
    assert!(Source::Live.fires_policy_hooks());
}

#[test]
fn a_typo_is_not_an_event_type() {
    assert!(is_known_event_type("card.requested.v1"));
    assert!(!is_known_event_type("card.requsted.v1"));
}

#[test]
fn a_source_reads_back_from_its_name() {
    for s in [Source::Live, Source::Test, Source::Replay, Source::Healthcheck, Source::Harness] {
        assert_eq!(parse_source(s.as_str()), s);
    }
}

#[test]
fn every_vocabulary_entry_is_versioned_and_listed_once() {
    for (i, t) in tessera::event::EVENT_VOCABULARY.iter().enumerate() {
        assert!(t.ends_with(".v1"), "{t}");
        assert!(t.split('.').count() >= 3, "{t}");
        assert!(!tessera::event::EVENT_VOCABULARY[i + 1..].contains(t), "{t} twice");
    }
}
