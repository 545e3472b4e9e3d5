//! The vault retriever's own parts.
//!
//! The local retriever indexes the vault like any folder, so pages are
//! retrievable with no new retriever; their source class is `page`. What the
//! vault needs of its own is the folder id, because one configuration carries
//! one source class, and a page is context while the passages it carries are
//! the evidence.
//!
//! The text indexed is the page's body from the row rather than the file on
//! disk, with the title leading: a page called "Liquidity risk" whose body
//! never repeats the phrase is still the page somebody asking about liquidity
//! risk wants, and a lexical index only knows what it was given.
use vstd::prelude::*;

use crate::chars::append_str;
use crate::chunking::{numbered_in_order, placements, within_window, Chunk};
use crate::parse::markdown::{document_passages, events_fit, markdown_events, parse, sections_of};

verus! {

/// The folder id the vault's pages are indexed under.
pub const VAULT_FOLDER: &'static str = "vault";

/// The markdown a page is indexed as: its title as a heading, then its body.
pub open spec fn page_source_spec(title: Seq<char>, text: Seq<char>) -> Seq<char> {
    "# "@ + title + "\n\n"@ + text
}

/// The markdown a page is indexed as.
pub fn page_source(title: &str, text: &str) -> (s: String)
    ensures
        s@ == page_source_spec(title@, text@),
{
    let mut s = String::new();
    append_str(&mut s, "# ");
    append_str(&mut s, title);
    append_str(&mut s, "\n\n");
    append_str(&mut s, text);
    s
}

/// The passages a page is indexed as. None at all means the page should be
/// taken out of the index rather than written.
pub fn page_chunks(title: &str, text: &str) -> (out: Vec<Chunk>)
    ensures
        ({
            let events = markdown_events(page_source_spec(title@, text@));
            &&& events_fit(events) ==> numbered_in_order(out@) && within_window(out@)
                && placements(out@) == document_passages(sections_of(events))
            &&& !events_fit(events) ==> out@.len() == 0
        }),
{
    let source = page_source(title, text);
    parse(source.as_str())
}

} // verus!
