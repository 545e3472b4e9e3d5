//! Plain text. No structure to find, so none is invented.
use vstd::prelude::*;

use crate::chunking::{append_windows, numbered_in_order, within_window, placed, placements, window_texts, Chunk, ChunkLocation, Place};

verus! {

/// The windows of a plain text file, at no location, numbered in order.
pub fn parse(source: &str) -> (out: Vec<Chunk>)
    ensures
        numbered_in_order(out@),
        within_window(out@),
        placements(out@) == placed(window_texts(source@), Place::Whole),
{
    let mut out: Vec<Chunk> = Vec::new();
    assert(placements(out@) == Seq::<(Seq<char>, Place)>::empty());
    append_windows(&mut out, source, &ChunkLocation::Whole);
    out
}

} // verus!
