use tessera::boards::{digest, reference};

#[test]
fn the_digest_carries_the_cards_own_citations() {
    let text = digest(
        "What is the buffer?",
        Some("The buffer is 2.5 %."),
        Some("[{\"text\":\"It applies from 2026.\"}]"),
        &["CAR3 v1 (reg-car3-v1.md)".to_string()],
    );
    assert!(text.contains("context only"), "{text}");
    assert!(text.contains("CAR3 v1"), "the original citation is missing: {text}");
    assert!(text.contains("It applies from 2026."));
}

#[test]
fn a_card_that_cited_nothing_says_so() {
    let text = digest("A question", Some("An answer."), None, &[]);
    assert!(text.contains("supports nothing"), "{text}");
}

#[test]
fn a_digest_reads_in_its_fixed_order() {
    let text = digest(
        "Q?",
        None,
        Some("[{\"text\":\"one\"},{\"note\":\"no text\"},{\"text\":\"two\"}]"),
        &["A (a.md)".to_string(), "B (b.md)".to_string()],
    );
    assert_eq!(
        text,
        "Prior work on this profile's own board, for context only.\n\
         Question: Q?\n\
         Finding: one\n\
         Finding: two\n\
         It was built from: A (a.md); B (b.md)\n"
    );
}

#[test]
fn findings_that_are_not_a_json_array_add_nothing() {
    let text = digest("Q?", Some("A."), Some("not json"), &[]);
    assert_eq!(
        text,
        "Prior work on this profile's own board, for context only.\n\
         Question: Q?\n\
         Answer: A.\n\
         This card cited nothing, so it supports nothing.\n"
    );
}

#[test]
fn a_prior_card_is_named_by_its_board_and_id() {
    assert_eq!(reference("b-1", "c-9"), "b-1/c-9");
}
