use tessera::chunking::{enforce_cap, windows, Chunk, ChunkLocation, MAX_PASSAGE_CHARS, WINDOW};

fn heading() -> ChunkLocation {
    ChunkLocation::Heading { title: "A section".to_string(), level: 2 }
}

#[test]
fn short_text_is_one_chunk() {
    let out = windows("The buffer is 2.5 percent.", &heading(), 0);
    assert_eq!(out.len(), 1);
    assert_eq!(out[0].text, "The buffer is 2.5 percent.");
}

#[test]
fn empty_text_yields_nothing() {
    assert!(windows("   \n  ", &heading(), 0).is_empty());
}

#[test]
fn long_text_splits_with_overlap() {
    let sentence = "The capital conservation buffer is two point five percent of assets. ";
    let text = sentence.repeat(40);
    let out = windows(&text, &heading(), 0);
    assert!(out.len() > 1, "long text did not split");
    for chunk in &out {
        assert!(chunk.text.chars().count() <= WINDOW, "a window ran over");
    }
    for (i, chunk) in out.iter().enumerate() {
        assert_eq!(chunk.sequence, i);
    }
}

#[test]
fn a_fact_on_a_window_boundary_survives_in_one_piece() {
    let filler = "Words that carry nothing in particular. ".repeat(19);
    let text = format!("{filler}The leverage ratio floor is 3.4 percent.{filler}");
    let out = windows(&text, &heading(), 0);
    assert!(
        out.iter().any(|c| c.text.contains("3.4 percent")),
        "the value was lost at a boundary"
    );
}

#[test]
fn the_hard_cap_is_enforced_even_when_windows_are_not_used() {
    let long = Chunk::new("x".repeat(3_000), ChunkLocation::Whole, 0);
    let out = enforce_cap(vec![long]);
    assert_eq!(out.len(), 3);
    for chunk in &out {
        assert!(chunk.text.chars().count() <= MAX_PASSAGE_CHARS);
    }
}

#[test]
fn splitting_prefers_a_sentence_end_over_mid_word() {
    let text = format!("{} Final sentence here.", "Filler sentence. ".repeat(60));
    let out = windows(&text, &heading(), 0);
    for chunk in &out {
        let t = chunk.text.trim_end();
        assert!(
            t.ends_with('.') || t.ends_with("here.") || chunk.sequence == out.len() - 1,
            "chunk ended mid sentence: {t:?}"
        );
    }
}

#[test]
fn windows_number_from_the_start_they_are_given() {
    let text = "One sentence here. ".repeat(100);
    let out = windows(&text, &heading(), 7);
    assert!(out.len() > 1);
    for (i, chunk) in out.iter().enumerate() {
        assert_eq!(chunk.sequence, 7 + i);
        assert_eq!(chunk.location, heading());
    }
}

#[test]
fn consecutive_windows_overlap() {
    let words: Vec<String> = (0..400).map(|i| format!("w{i}")).collect();
    let text = words.join(" ");
    let out = windows(&text, &heading(), 0);
    assert!(out.len() > 1);
    for pair in out.windows(2) {
        let last_word = pair[0].text.split_whitespace().last().unwrap_or_default().to_string();
        assert!(pair[1].text.contains(&last_word), "no overlap between windows");
    }
}

#[test]
fn a_capped_chunk_keeps_its_place_and_numbers_its_pieces() {
    let long = Chunk::new("y".repeat(2_500), ChunkLocation::Page { page: 4 }, 10);
    let short = Chunk::new("short".to_string(), ChunkLocation::Whole, 11);
    let out = enforce_cap(vec![long, short]);
    assert_eq!(out.len(), 4);
    assert_eq!(out[0].text.chars().count(), MAX_PASSAGE_CHARS);
    assert_eq!(out[1].text.chars().count(), MAX_PASSAGE_CHARS);
    assert_eq!(out[2].text.chars().count(), 100);
    assert_eq!(out[0].sequence, 10);
    assert_eq!(out[1].sequence, 11);
    assert_eq!(out[2].sequence, 12);
    assert_eq!(out[2].location, ChunkLocation::Page { page: 4 });
    assert_eq!(out[3].text, "short");
    assert_eq!(out[3].sequence, 11);
}

#[test]
fn a_location_duplicates_to_an_equal_one() {
    let l = ChunkLocation::RowRange { sheet: "S".to_string(), from: 2, to: 13 };
    assert_eq!(l.duplicate(), l);
}

#[test]
fn numbering_may_start_at_the_last_sequence_number() {
    let out = windows("a", &heading(), usize::MAX);
    assert_eq!(out.len(), 1);
    assert_eq!(out[0].sequence, usize::MAX);
}

#[test]
fn an_over_long_chunk_is_cut_into_numbered_pieces_once() {
    let long = Chunk::new("x".repeat(2 * MAX_PASSAGE_CHARS + 5), ChunkLocation::Page { page: 2 }, 4);
    let short = Chunk::new("short".to_string(), ChunkLocation::Whole, 9);
    let once = enforce_cap(vec![long.clone(), short]);
    assert_eq!(once.len(), 4);
    assert_eq!(once.iter().map(|c| c.sequence).collect::<Vec<_>>(), vec![4, 5, 6, 9]);
    assert_eq!(once[0].text.chars().count(), MAX_PASSAGE_CHARS);
    assert_eq!(once[2].text.chars().count(), 5);
    assert_eq!(once[..3].iter().map(|c| c.text.as_str()).collect::<String>(), long.text);
    assert_eq!(enforce_cap(once.clone()), once);
}
