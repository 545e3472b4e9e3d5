//! PDF, text layer only.
//!
//! A pdf with a text layer is read; a scanned pdf goes to the Reader's OCR
//! path, so a pdf with no text layer is an honest skip here rather than a
//! silent empty document, recorded as `NeedsOcr` so the Profile's Retrievers
//! page can say why rather than leaving a file that vanished.
//!
//! The text itself comes from `pdf-extract`, which panics on some malformed
//! files rather than returning an error; the caller catches that and hands the
//! outcome here.
use vstd::prelude::*;

use crate::chars::{
    ascii_lower, ascii_lower_vec, chars_of, contains_chars, contains_seq, split_chars, split_on,
    string_of, trim_seq, trim_string, views_of, white_space, is_white_space,
};
use crate::chunking::{
    append_windows, numbered_in_order, placed, placements, window_texts, within_window, Chunk,
    ChunkLocation, Place,
};
use crate::parse::ParseError;

verus! {

/// Below this many characters, a pdf that parsed "successfully" has no text
/// layer worth the name. A scanned page yields a handful of stray glyphs.
pub const TEXT_LAYER_FLOOR: usize = 40;

/// How much of the file's start is searched for an encryption declaration.
pub const HEADER_BYTES: usize = 2048;

/// `/Encrypt`, as bytes.
pub open spec fn encrypt_marker() -> Seq<u8> {
    seq![0x2fu8, 0x45u8, 0x6eu8, 0x63u8, 0x72u8, 0x79u8, 0x70u8, 0x74u8]
}

/// Whether `/Encrypt` occurs within the first `HEADER_BYTES` bytes.
pub open spec fn declares_encryption(bytes: Seq<u8>) -> bool {
    let end = if bytes.len() < HEADER_BYTES {
        bytes.len() as int
    } else {
        HEADER_BYTES as int
    };
    exists|i: int| 0 <= i && i + 8 <= end && #[trigger] bytes.subrange(i, i + 8) == encrypt_marker()
}

/// Whether the document declares an encryption dictionary.
///
/// Only the header region is scanned: `/Encrypt` appearing deep inside a
/// content stream is a coincidence, not a declaration.
pub fn is_encrypted(bytes: &[u8]) -> (b: bool)
    ensures
        b == declares_encryption(bytes@),
{
    let end = if bytes.len() < HEADER_BYTES {
        bytes.len()
    } else {
        HEADER_BYTES
    };
    let mut i: usize = 0;
    while i + 8 <= end
        invariant
            i <= end <= bytes@.len(),
            end <= HEADER_BYTES,
            end == if bytes@.len() < HEADER_BYTES {
                bytes@.len() as int
            } else {
                HEADER_BYTES as int
            },
            forall|j: int| 0 <= j < i ==> #[trigger] bytes@.subrange(j, j + 8) != encrypt_marker(),
        decreases end - i,
    {
        if bytes[i] == 0x2f && bytes[i + 1] == 0x45 && bytes[i + 2] == 0x6e && bytes[i + 3] == 0x63
            && bytes[i + 4] == 0x72 && bytes[i + 5] == 0x79 && bytes[i + 6] == 0x70 && bytes[i + 7]
            == 0x74 {
            assert(bytes@.subrange(i as int, i + 8) == encrypt_marker());
            return true;
        }
        assert(bytes@.subrange(i as int, i + 8)[0] == bytes@[i as int]);
        assert(bytes@.subrange(i as int, i + 8) != encrypt_marker()) by {
            if bytes@.subrange(i as int, i + 8) == encrypt_marker() {
                assert(bytes@.subrange(i as int, i + 8)[1] == bytes@[i + 1]);
                assert(bytes@.subrange(i as int, i + 8)[2] == bytes@[i + 2]);
                assert(bytes@.subrange(i as int, i + 8)[3] == bytes@[i + 3]);
                assert(bytes@.subrange(i as int, i + 8)[4] == bytes@[i + 4]);
                assert(bytes@.subrange(i as int, i + 8)[5] == bytes@[i + 5]);
                assert(bytes@.subrange(i as int, i + 8)[6] == bytes@[i + 6]);
                assert(bytes@.subrange(i as int, i + 8)[7] == bytes@[i + 7]);
            }
        }
        i += 1;
    }
    false
}

/// How many characters of `s` are not white space.
pub open spec fn visible(s: Seq<char>) -> nat
    decreases s.len(),
{
    if s.len() == 0 {
        0
    } else {
        visible(s.drop_last()) + if white_space(s.last()) {
            0nat
        } else {
            1nat
        }
    }
}

/// The pages of a text layer: the pieces between form feeds.
pub open spec fn pages_of(text: Seq<char>) -> Seq<Seq<char>> {
    split_on(trim_seq(text), |c: char| c == '\u{c}')
}

/// The passages of the pages, each page trimmed and cut into windows at its
/// number, counting from 1; an empty page yields nothing.
pub open spec fn page_passages(pages: Seq<Seq<char>>) -> Seq<(Seq<char>, Place)>
    decreases pages.len(),
{
    if pages.len() == 0 {
        seq![]
    } else {
        let page = trim_seq(pages.last());
        page_passages(pages.drop_last()) + if page.len() == 0 {
            seq![]
        } else {
            placed(window_texts(page), Place::Page(pages.len() as usize))
        }
    }
}

/// Whether the text layer is too thin to be one: fewer than
/// `TEXT_LAYER_FLOOR` characters that are not white space.
pub open spec fn needs_ocr(text: Seq<char>) -> bool {
    visible(trim_seq(text)) < TEXT_LAYER_FLOOR
}

/// The passages of a pdf's extracted text, by page.
///
/// Page breaks are the only structure a text layer reliably carries.
pub fn from_text(path: &str, text: &str) -> (r: Result<Vec<Chunk>, ParseError>)
    ensures
        needs_ocr(text@) ==> (r matches Err(ParseError::NeedsOcr(p)) && p@ == path@),
        !needs_ocr(text@) ==> (r matches Ok(out) && numbered_in_order(out@) && within_window(out@)
            && placements(out@) == page_passages(pages_of(text@))),
{
    let trimmed = chars_of(trim_string(text).as_str());
    let mut count: usize = 0;
    let mut i: usize = 0;
    assert(trimmed@.take(0) == Seq::<char>::empty());
    while i < trimmed.len()
        invariant
            i <= trimmed@.len(),
            count <= i,
            count == visible(trimmed@.take(i as int)),
        decreases trimmed@.len() - i,
    {
        assert(trimmed@.take(i + 1).drop_last() == trimmed@.take(i as int));
        if !is_white_space(trimmed[i]) {
            count += 1;
        }
        i += 1;
    }
    assert(trimmed@.take(trimmed@.len() as int) == trimmed@);
    if count < TEXT_LAYER_FLOOR {
        return Err(ParseError::NeedsOcr(String::from_str(path)));
    }
    let pages = split_chars(&trimmed, '\u{c}');
    let mut out: Vec<Chunk> = Vec::new();
    let mut k: usize = 0;
    assert(views_of(pages@).take(0) == Seq::<Seq<char>>::empty());
    assert(placements(out@) == Seq::<(Seq<char>, Place)>::empty());
    while k < pages.len()
        invariant
            k <= pages@.len(),
            views_of(pages@) == pages_of(text@),
            numbered_in_order(out@),
            within_window(out@),
            placements(out@) == page_passages(views_of(pages@).take(k as int)),
        decreases pages@.len() - k,
    {
        assert(views_of(pages@).take(k + 1).drop_last() == views_of(pages@).take(k as int));
        assert(views_of(pages@).take(k + 1).last() == pages@[k as int]@);
        let page_text = trim_string(string_of(&pages[k]).as_str());
        if !page_text.as_str().is_empty() {
            append_windows(&mut out, page_text.as_str(), &ChunkLocation::Page { page: k + 1 });
        } else {
            assert(placements(out@) == placements(out@) + Seq::<(Seq<char>, Place)>::empty());
        }
        k += 1;
    }
    assert(views_of(pages@).take(pages@.len() as int) == views_of(pages@));
    Ok(out)
}

/// Whether an extractor's error reads as a password problem.
pub open spec fn says_protected(detail: Seq<char>) -> bool {
    contains_seq(ascii_lower(detail), "encrypt"@) || contains_seq(ascii_lower(detail), "password"@)
}

/// What a pdf parser that panicked is reported as.
pub open spec fn unreadable_detail() -> Seq<char> {
    "the pdf parser could not read this file"@
}

/// The outcome of a pdf from what its text extraction gave: `None` when the
/// extractor panicked, `Some(Err(message))` when it refused the file, and
/// `Some(Ok(text))` for the text layer.
///
/// Encryption the extractor reports is "protected" rather than "damaged",
/// because the distinction reaches the user: "this file is protected" is
/// actionable and "this file is damaged" sends them looking for a corruption
/// that is not there.
pub fn from_extraction(path: &str, extraction: Option<Result<String, String>>) -> (r: Result<
    Vec<Chunk>,
    ParseError,
>)
    ensures
        match extraction {
            None => r matches Err(ParseError::Malformed { format, detail }) && format == "pdf"
                && detail@ == unreadable_detail(),
            Some(Err(message)) => if says_protected(message@) {
                r matches Err(ParseError::Protected(p)) && p@ == path@
            } else {
                r == Err::<Vec<Chunk>, ParseError>(
                    ParseError::Malformed { format: "pdf", detail: message },
                )
            },
            Some(Ok(text)) => {
                &&& needs_ocr(text@) ==> (r matches Err(ParseError::NeedsOcr(p)) && p@ == path@)
                &&& !needs_ocr(text@) ==> (r matches Ok(out) && numbered_in_order(out@)
                    && within_window(out@) && placements(out@) == page_passages(pages_of(text@)))
            },
        },
{
    match extraction {
        None => Err(
            ParseError::Malformed {
                format: "pdf",
                detail: String::from_str("the pdf parser could not read this file"),
            },
        ),
        Some(Err(message)) => {
            let lower = ascii_lower_vec(&chars_of(message.as_str()));
            if contains_chars(&lower, &chars_of("encrypt")) || contains_chars(
                &lower,
                &chars_of("password"),
            ) {
                Err(ParseError::Protected(String::from_str(path)))
            } else {
                Err(ParseError::Malformed { format: "pdf", detail: message })
            }
        },
        Some(Ok(text)) => from_text(path, text.as_str()),
    }
}

} // verus!
