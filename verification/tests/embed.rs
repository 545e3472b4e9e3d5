use tessera::embed::{EmbedError, HashEmbedder};

fn cosine(a: &[usize], b: &[usize]) -> f64 {
    let dot: f64 = a.iter().zip(b).map(|(x, y)| (*x as f64) * (*y as f64)).sum();
    let na: f64 = a.iter().map(|x| (*x as f64) * (*x as f64)).sum::<f64>().sqrt();
    let nb: f64 = b.iter().map(|x| (*x as f64) * (*x as f64)).sum::<f64>().sqrt();
    if na == 0.0 || nb == 0.0 {
        0.0
    } else {
        dot / (na * nb)
    }
}

#[test]
fn the_test_embedder_puts_similar_wording_closer_than_unrelated_wording() {
    let e = HashEmbedder::default();
    let a = e.trigram_counts("the minimum own funds requirement");
    let b = e.trigram_counts("the minimum own funds requirement is 8.4 percent");
    let c = e.trigram_counts("why do cats purr");
    let near = cosine(&a, &b);
    let far = cosine(&a, &c);
    assert!(near > far, "near {near} was not closer than far {far}");
}

#[test]
fn the_test_embedder_is_deterministic() {
    let e = HashEmbedder::default();
    assert_eq!(e.trigram_counts("a sentence"), e.trigram_counts("a sentence"));
}

#[test]
fn the_default_width_is_sixty_four_and_a_zero_width_is_one() {
    assert_eq!(HashEmbedder::default().dimensions(), 64);
    assert_eq!(HashEmbedder::with_dimensions(0).dimensions(), 1);
    assert_eq!(HashEmbedder::with_dimensions(7).trigram_counts("anything").len(), 7);
}

#[test]
fn trigrams_ignore_case_and_white_space() {
    let e = HashEmbedder::with_dimensions(16);
    assert_eq!(e.trigram_counts("A B c"), e.trigram_counts("abc"));
    let counts = e.trigram_counts("abcd");
    assert_eq!(counts.iter().sum::<usize>(), 2);
    assert_eq!(e.trigram_counts("ab").iter().sum::<usize>(), 0);
}

#[test]
fn one_trigram_lands_in_its_hashed_slot() {
    let mut hash: u64 = 1469598103934665603;
    for c in ['a', 'b', 'c'] {
        hash ^= c as u64;
        hash = hash.wrapping_mul(1099511628211);
    }
    let slot = (hash % 64) as usize;
    let counts = HashEmbedder::default().trigram_counts("abc");
    assert_eq!(counts[slot], 1);
    assert_eq!(counts.iter().sum::<usize>(), 1);
}

#[test]
fn embed_errors_read_as_sentences() {
    assert_eq!(
        EmbedError::Unavailable("no model".to_string()).message(),
        "the embedding model could not be prepared: no model"
    );
    assert_eq!(EmbedError::Failed("oom".to_string()).message(), "embedding failed: oom");
}

#[test]
fn the_test_embedder_names_its_model() {
    assert_eq!(HashEmbedder::default().model_id(), "hash-trigram-test");
}
