//! What a prior card is remembered as.
//!
//! A prior card is context, never evidence, so the digest
//! it is indexed as carries the card's own citations: any number or rule a new
//! card takes from it must cite the original passage, which the digest names.
use vstd::prelude::*;

use crate::chars::{append_str, join, join_strings, string_views};

verus! {

/// The folder id every card is indexed under.
pub const BOARDS_FOLDER: &'static str = "boards";

/// `board_id/card_id`, which is what a prior card is named by and what
/// `Card.builds_on` records.
pub fn reference(board_id: &str, card_id: &str) -> (r: String)
    ensures
        r@ == board_id@ + "/"@ + card_id@,
{
    let mut r = String::new();
    append_str(&mut r, board_id);
    append_str(&mut r, "/");
    append_str(&mut r, card_id);
    r
}

/// What a findings document says: for each item of its top-level array, the
/// item's `text` when that is a string; `None` when the document is not JSON
/// or not an array.
pub uninterp spec fn json_item_texts(json: Seq<char>) -> Option<Seq<Option<Seq<char>>>>;

pub open spec fn option_views(v: Seq<Option<String>>) -> Seq<Option<Seq<char>>> {
    v.map_values(
        |o: Option<String>|
            match o {
                Some(s) => Some(s@),
                None => None,
            },
    )
}

/// `serde_json::from_str` read as a findings array.
///
/// Claims only that the result is the named reading of the text: the texts of
/// the array's items in order, or `None`.
#[verifier::external_body]
fn finding_texts(json: &str) -> (r: Option<Vec<Option<String>>>)
    ensures
        match r {
            Some(v) => json_item_texts(json@) == Some(option_views(v@)),
            None => json_item_texts(json@) is None,
        },
{
    match serde_json::from_str::<serde_json::Value>(json) {
        Ok(serde_json::Value::Array(items)) => Some(
            items.iter().map(|i| i.get("text").and_then(|t| t.as_str()).map(String::from)).collect(),
        ),
        _ => None,
    }
}

/// One `Finding:` line per item that has a text.
pub open spec fn finding_lines(items: Seq<Option<Seq<char>>>) -> Seq<char>
    decreases items.len(),
{
    if items.len() == 0 {
        seq![]
    } else {
        finding_lines(items.drop_last()) + match items.last() {
            Some(t) => "Finding: "@ + t + "\n"@,
            None => seq![],
        }
    }
}

/// The text a prior card is remembered as: a header saying it is context
/// only, the question, the answer if any, each finding, and the citations it
/// was built from, or a line saying it cited nothing and so supports nothing.
pub open spec fn digest_text(
    question: Seq<char>,
    answer: Option<Seq<char>>,
    findings: Option<Seq<Option<Seq<char>>>>,
    citations: Seq<Seq<char>>,
) -> Seq<char> {
    "Prior work on this profile's own board, for context only.\n"@ + "Question: "@ + question
        + "\n"@ + match answer {
        Some(a) => "Answer: "@ + a + "\n"@,
        None => seq![],
    } + match findings {
        Some(items) => finding_lines(items),
        None => seq![],
    } + if citations.len() == 0 {
        "This card cited nothing, so it supports nothing.\n"@
    } else {
        "It was built from: "@ + join(citations, "; "@) + "\n"@
    }
}

/// The findings a card's stored JSON carries, as `digest` reads them.
pub open spec fn findings_of(findings: Option<&str>) -> Option<Seq<Option<Seq<char>>>> {
    match findings {
        Some(f) => json_item_texts(f@),
        None => None,
    }
}

/// The text a prior card is remembered as: "a rendered
/// digest of the card with its own citations listed".
pub fn digest(
    question: &str,
    answer: Option<&str>,
    findings: Option<&str>,
    citations: &[String],
) -> (d: String)
    ensures
        d@ == digest_text(
            question@,
            crate::contract::opt_view(answer),
            findings_of(findings),
            string_views(citations@),
        ),
{
    let mut out = String::new();
    append_str(&mut out, "Prior work on this profile's own board, for context only.\n");
    append_str(&mut out, "Question: ");
    append_str(&mut out, question);
    append_str(&mut out, "\n");
    let ghost after_question = out@;
    if let Some(a) = answer {
        append_str(&mut out, "Answer: ");
        append_str(&mut out, a);
        append_str(&mut out, "\n");
    }
    let ghost after_answer = out@;
    let items = match findings {
        Some(f) => finding_texts(f),
        None => None,
    };
    if let Some(items) = items {
        let mut i: usize = 0;
        while i < items.len()
            invariant
                i <= items@.len(),
                out@ == after_answer + finding_lines(option_views(items@).take(i as int)),
            decreases items@.len() - i,
        {
            assert(option_views(items@).take(i + 1).drop_last() == option_views(items@).take(
                i as int,
            ));
            if let Some(text) = &items[i] {
                append_str(&mut out, "Finding: ");
                append_str(&mut out, text.as_str());
                append_str(&mut out, "\n");
            }
            i += 1;
        }
        assert(option_views(items@).take(items@.len() as int) == option_views(items@));
    }
    let ghost after_findings = out@;
    if citations.len() == 0 {
        append_str(&mut out, "This card cited nothing, so it supports nothing.\n");
    } else {
        append_str(&mut out, "It was built from: ");
        let joined = join_strings(citations, "; ");
        append_str(&mut out, joined.as_str());
        append_str(&mut out, "\n");
    }
    out
}

} // verus!
