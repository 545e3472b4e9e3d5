//! The hybrid index's pure parts: the content address of a chunk and the
//! lexical query a natural question becomes.
use vstd::prelude::*;

use crate::chars::{
    chars_of, join, join_chars, longer_than, lowercase, runs, runs_of, string_of, to_lowercase,
    views_of,
};
use crate::chunking::Chunk;
use crate::digest::{extend_bytes, hex, le_bytes, le_bytes_u64, sha256, sha256_hex};

verus! {

/// The bytes a chunk's content address is the hash of: the document
/// reference, a zero byte, the sequence as eight little-endian bytes, a zero
/// byte, and the chunk text, both texts in UTF-8.
pub open spec fn chunk_hash_input(document_ref: Seq<char>, sequence: nat, text: Seq<char>) -> Seq<
    u8,
> {
    vstd::utf8::encode_utf8(document_ref) + seq![0u8] + le_bytes(sequence, 8) + seq![0u8]
        + vstd::utf8::encode_utf8(text)
}

/// Content addressed id for a chunk, so re-indexing an unchanged file is a
/// no-op and a changed file replaces exactly what changed.
pub fn chunk_hash(document_ref: &str, chunk: &Chunk) -> (h: String)
    ensures
        h@ == hex(sha256(chunk_hash_input(document_ref@, chunk.sequence as nat, chunk.text@))),
{
    let mut input: Vec<u8> = Vec::new();
    let d = document_ref.as_bytes();
    extend_bytes(&mut input, d);
    input.push(0u8);
    let seq_bytes = le_bytes_u64(chunk.sequence as u64);
    extend_bytes(&mut input, seq_bytes.as_slice());
    input.push(0u8);
    let t = chunk.text.as_str().as_bytes();
    extend_bytes(&mut input, t);
    assert(d@ == vstd::utf8::encode_utf8(document_ref@));
    assert(t@ == vstd::utf8::encode_utf8(chunk.text@));
    assert(input@ == chunk_hash_input(document_ref@, chunk.sequence as nat, chunk.text@));
    sha256_hex(input.as_slice())
}

/// A term in double quotes.
pub open spec fn quoted(term: Seq<char>) -> Seq<char> {
    seq!['"'] + term + seq!['"']
}

/// The FTS5 query for a question: every word of more than one character,
/// lowercased and quoted, joined by `OR`.
pub open spec fn fts_query_of(text: Seq<char>) -> Seq<char> {
    join(
        longer_than(runs(text, true), 1).map_values(|t: Seq<char>| quoted(lowercase(t))),
        " OR "@,
    )
}

/// Turn a natural question into something FTS5 will accept.
///
/// FTS5 reads plenty of ordinary punctuation as syntax, so every term is
/// quoted and the terms are OR'ed: a passage matching more of them ranks
/// higher through bm25 anyway, and requiring all of them would return nothing
/// for most real questions.
pub fn fts_query(text: &str) -> (q: String)
    ensures
        q@ == fts_query_of(text@),
{
    let chars = chars_of(text);
    let words = runs_of(&chars, true);
    let ghost all = views_of(words@);
    let mut terms: Vec<Vec<char>> = Vec::new();
    let mut i: usize = 0;
    while i < words.len()
        invariant
            i <= words@.len(),
            all == views_of(words@),
            all == runs(text@, true),
            views_of(terms@) == longer_than(all.take(i as int), 1).map_values(
                |t: Seq<char>| quoted(lowercase(t)),
            ),
        decreases words@.len() - i,
    {
        assert(all.take(i + 1).drop_last() == all.take(i as int));
        assert(all.take(i + 1).last() == words@[i as int]@);
        if words[i].len() > 1 {
            let lower = to_lowercase(string_of(&words[i]).as_str());
            let lower_chars = chars_of(lower.as_str());
            let mut term: Vec<char> = Vec::new();
            term.push('"');
            let mut j: usize = 0;
            while j < lower_chars.len()
                invariant
                    j <= lower_chars@.len(),
                    term@ == seq!['"'] + lower_chars@.take(j as int),
                decreases lower_chars@.len() - j,
            {
                term.push(lower_chars[j]);
                assert(lower_chars@.take(j + 1) == lower_chars@.take(j as int).push(
                    lower_chars@[j as int],
                ));
                j += 1;
            }
            term.push('"');
            assert(lower_chars@.take(lower_chars@.len() as int) == lower_chars@);
            let ghost before = terms@;
            terms.push(term);
            assert(terms@.drop_last() == before);
            assert(views_of(terms@) == views_of(before).push(terms@.last()@));
            assert(longer_than(all.take(i + 1), 1) == longer_than(all.take(i as int), 1).push(
                all.take(i + 1).last(),
            ));
            assert(term@ == quoted(lowercase(words@[i as int]@)));
            assert(longer_than(all.take(i + 1), 1).map_values(|t: Seq<char>| quoted(lowercase(t)))
                == longer_than(all.take(i as int), 1).map_values(
                |t: Seq<char>| quoted(lowercase(t)),
            ).push(quoted(lowercase(words@[i as int]@))));
        }
        i += 1;
    }
    assert(all.take(words@.len() as int) == all);
    join_chars(&terms, " OR ")
}

} // verus!
