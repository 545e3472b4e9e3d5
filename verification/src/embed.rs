//! The deterministic test embedder's arithmetic.
//!
//! Hashed character trigrams into a fixed width. It is not semantic and does
//! not pretend to be: two texts sharing wording land near each other, and
//! nothing else does. The vector is the count of trigrams per slot; turning the
//! counts into floating point numbers is the caller's.
use vstd::prelude::*;

use crate::chars::{append_str, chars_of, is_white_space, lowercase, to_lowercase, white_space};

verus! {

#[derive(Debug, Clone, PartialEq, Eq)]
pub enum EmbedError {
    /// The embedding model could not be prepared.
    Unavailable(String),
    /// Embedding failed.
    Failed(String),
}

impl EmbedError {
    /// What the error says to a person.
    pub fn message(&self) -> (m: String)
        ensures
            m@ == match self {
                EmbedError::Unavailable(d) => "the embedding model could not be prepared: "@ + d@,
                EmbedError::Failed(d) => "embedding failed: "@ + d@,
            },
    {
        let mut m = String::new();
        match self {
            EmbedError::Unavailable(d) => {
                append_str(&mut m, "the embedding model could not be prepared: ");
                append_str(&mut m, d.as_str());
            },
            EmbedError::Failed(d) => {
                append_str(&mut m, "embedding failed: ");
                append_str(&mut m, d.as_str());
            },
        }
        m
    }
}

/// A deterministic stand in, for tests that are not about embedding quality.
pub struct HashEmbedder {
    dimensions: usize,
}

pub const FNV_OFFSET: u64 = 1469598103934665603;

pub const FNV_PRIME: u64 = 1099511628211;

/// FNV-1a over the characters of a window.
pub open spec fn fnv(w: Seq<char>) -> u64
    decreases w.len(),
{
    if w.len() == 0 {
        FNV_OFFSET
    } else {
        (fnv(w.drop_last()) ^ ((w.last() as u32) as u64)).wrapping_mul(FNV_PRIME)
    }
}

/// The characters a text is hashed over: lowercased, white space dropped.
pub open spec fn embed_chars(text: Seq<char>) -> Seq<char> {
    lowercase(text).filter(|c: char| !white_space(c))
}

/// The slot the trigram starting at `i` lands in.
pub open spec fn slot_at(chars: Seq<char>, i: int, dims: nat) -> int {
    (fnv(chars.subrange(i, i + 3)) as nat % dims) as int
}

/// How many of the first `upto` trigrams of `chars` land in `slot`.
pub open spec fn count_in_slot(chars: Seq<char>, dims: nat, slot: int, upto: int) -> nat
    decreases upto,
{
    if upto <= 0 {
        0
    } else {
        count_in_slot(chars, dims, slot, upto - 1) + if slot_at(chars, upto - 1, dims) == slot {
            1nat
        } else {
            0nat
        }
    }
}

/// How many trigrams a sequence of this length has.
pub open spec fn trigrams(len: nat) -> int {
    if len >= 3 {
        len - 2
    } else {
        0
    }
}

/// The counts of the first `k` slots, added up.
pub open spec fn slots_total(chars: Seq<char>, dims: nat, upto: int, k: int) -> nat
    decreases k,
{
    if k <= 0 {
        0
    } else {
        slots_total(chars, dims, upto, k - 1) + count_in_slot(chars, dims, k - 1, upto)
    }
}

proof fn lemma_slots_total_empty(chars: Seq<char>, dims: nat, k: int)
    ensures
        slots_total(chars, dims, 0, k) == 0,
    decreases k,
{
    if k > 0 {
        lemma_slots_total_empty(chars, dims, k - 1);
    }
}

proof fn lemma_slots_total_step(chars: Seq<char>, dims: nat, upto: int, k: int)
    requires
        upto >= 1,
        dims >= 1,
    ensures
        slots_total(chars, dims, upto, k) == slots_total(chars, dims, upto - 1, k) + if 0
            <= slot_at(chars, upto - 1, dims) < k {
            1nat
        } else {
            0nat
        },
    decreases k,
{
    if k > 0 {
        lemma_slots_total_step(chars, dims, upto, k - 1);
    }
}

/// Every trigram lands in exactly one slot: the counts of all the slots add
/// up to the number of trigrams.
pub proof fn lemma_counts_add_up(chars: Seq<char>, dims: nat, upto: int)
    requires
        dims >= 1,
        upto >= 0,
    ensures
        slots_total(chars, dims, upto, dims as int) == upto,
    decreases upto,
{
    if upto == 0 {
        lemma_slots_total_empty(chars, dims, dims as int);
    } else {
        lemma_counts_add_up(chars, dims, upto - 1);
        lemma_slots_total_step(chars, dims, upto, dims as int);
        let x = fnv(chars.subrange(upto - 1, upto + 2)) as nat;
        assert(x % dims < dims) by (nonlinear_arith)
            requires
                dims >= 1,
        ;
    }
}

impl HashEmbedder {
    #[verifier::type_invariant]
    spec fn has_width(self) -> bool {
        self.dimensions >= 1
    }

    pub closed spec fn width(self) -> nat {
        self.dimensions as nat
    }

    /// An embedder of the given width, at least one.
    pub fn with_dimensions(dimensions: usize) -> (e: Self)
        ensures
            e.width() == if dimensions >= 1 {
                dimensions as nat
            } else {
                1
            },
    {
        HashEmbedder { dimensions: if dimensions >= 1 { dimensions } else { 1 } }
    }

    /// The width of every vector this embedder returns.
    pub fn dimensions(&self) -> (d: usize)
        ensures
            d == self.width(),
            d >= 1,
    {
        proof {
            use_type_invariant(self);
        }
        self.dimensions
    }

    /// What goes into the index, so a later change of model is detectable.
    pub fn model_id(&self) -> (m: &'static str)
        ensures
            m@ == "hash-trigram-test"@,
    {
        "hash-trigram-test"
    }

    /// The trigram counts of a text, one per slot.
    pub fn trigram_counts(&self, text: &str) -> (counts: Vec<usize>)
        ensures
            counts@.len() == self.width(),
            forall|s: int|
                0 <= s < counts@.len() ==> #[trigger] counts@[s] == count_in_slot(
                    embed_chars(text@),
                    self.width(),
                    s,
                    trigrams(embed_chars(text@).len()),
                ),
    {
        proof {
            use_type_invariant(self);
        }
        let dims = self.dimensions;
        let lower = to_lowercase(text);
        let all = chars_of(lower.as_str());
        let mut chars: Vec<char> = Vec::new();
        let mut k: usize = 0;
        while k < all.len()
            invariant
                k <= all@.len(),
                chars@ == all@.take(k as int).filter(|c: char| !white_space(c)),
            decreases all@.len() - k,
        {
            let c = all[k];
            proof {
                reveal(Seq::filter);
                assert(all@.take(k + 1).drop_last() == all@.take(k as int));
            }
            if !is_white_space(c) {
                chars.push(c);
            }
            k += 1;
        }
        assert(all@.take(all@.len() as int) == all@);
        let mut counts: Vec<usize> = vec![0usize; dims];
        let n = chars.len();
        let windows: usize = if n >= 3 {
            n - 2
        } else {
            0
        };
        let mut i: usize = 0;
        while i < windows
            invariant
                i <= windows,
                windows == trigrams(chars@.len()),
                n == chars@.len(),
                dims >= 1,
                counts@.len() == dims,
                forall|s: int|
                    0 <= s < dims ==> #[trigger] counts@[s] == count_in_slot(
                        chars@,
                        dims as nat,
                        s,
                        i as int,
                    ),
                forall|s: int| 0 <= s < dims ==> #[trigger] counts@[s] <= i,
            decreases windows - i,
        {
            let mut hash: u64 = FNV_OFFSET;
            let mut j: usize = 0;
            while j < 3
                invariant
                    j <= 3,
                    i + 3 <= n,
                    n == chars@.len(),
                    hash == fnv(chars@.subrange(i as int, i + j)),
                decreases 3 - j,
            {
                assert(chars@.subrange(i as int, i + j + 1).drop_last() == chars@.subrange(
                    i as int,
                    i + j,
                ));
                hash = (hash ^ (chars[i + j] as u32 as u64)).wrapping_mul(FNV_PRIME);
                j += 1;
            }
            let slot = (hash % (dims as u64)) as usize;
            assert(slot == slot_at(chars@, i as int, dims as nat));
            let ghost before = counts@;
            counts.set(slot, counts[slot] + 1);
            assert forall|s: int| 0 <= s < dims implies #[trigger] counts@[s] == count_in_slot(
                chars@,
                dims as nat,
                s,
                i + 1,
            ) && counts@[s] <= i + 1 by {
                assert(before[s] == count_in_slot(chars@, dims as nat, s, i as int));
            }
            i += 1;
        }
        counts
    }
}

impl Default for HashEmbedder {
    fn default() -> (e: Self)
        ensures
            e.width() == 64,
    {
        HashEmbedder { dimensions: 64 }
    }
}

} // verus!
