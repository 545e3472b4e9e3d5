//! DOCX: a zip of XML.
//!
//! The text lives in `word/document.xml` as `w:t` runs inside `w:p`
//! paragraphs. Two details make a naive reader wrong. A single visible sentence
//! is often split across several runs, because a spell check mark or a change
//! of formatting starts a new one, so runs are joined within their paragraph
//! rather than treated as separate text. And `w:tab` and `w:br` carry no text
//! node at all, so without handling them words either side of a tab run
//! together into one token that no index will match.
use vstd::prelude::*;

use quick_xml::events::Event;
use quick_xml::Reader;

use crate::chars::{
    append_str, chars_of, join, join_strings, last_of, last_of_exec, lemma_last_of, push_char,
    same_text, string_of_range, string_views, trim_seq, trim_string,
};
use crate::chunking::{
    append_windows, numbered_in_order, placed, placements, window_texts, within_window, Chunk,
    ChunkLocation, Place,
};
use crate::parse::{zip_entry, zip_entry_text, ParseError, ZipEntry};

verus! {

/// The parts of an XML event stream the document text is read from.
#[derive(Debug, Clone, PartialEq, Eq)]
pub enum XmlEvent {
    /// A start tag, by its qualified name.
    Start(String),
    End(String),
    /// An element with no content, such as `<w:tab/>`.
    Empty(String),
    /// Character data, still escaped.
    Text(String),
    /// An entity or character reference such as `&amp;`, by what sits between
    /// the `&` and the `;`.
    Reference(String),
    Other,
}

/// The events quick-xml reads from `xml`, up to the end of the document or
/// the first error.
pub uninterp spec fn xml_events(xml: Seq<char>) -> Seq<XmlEvent>;

/// `Reader::from_str(xml)` read event by event with `read_event`, each event
/// reduced to what the text is read from, stopping at `Eof` or at the first
/// error, so a damaged file yields what was read before the damage.
#[verifier::external_body]
fn read_xml_events(xml: &str) -> (events: Vec<XmlEvent>)
    ensures
        events@ == xml_events(xml@),
{
    let mut reader = Reader::from_str(xml);
    let mut events = Vec::new();
    loop {
        events.push(match reader.read_event() {
            Ok(Event::Start(e)) => XmlEvent::Start(String::from(e.name().as_ref())),
            Ok(Event::End(e)) => XmlEvent::End(String::from(e.name().as_ref())),
            Ok(Event::Empty(e)) => XmlEvent::Empty(String::from(e.name().as_ref())),
            Ok(Event::Text(t)) => XmlEvent::Text(String::from(&*t)),
            Ok(Event::GeneralRef(r)) => XmlEvent::Reference(String::from(&*r)),
            Ok(Event::Eof) | Err(_) => return events,
            Ok(_) => XmlEvent::Other,
        });
    }
}

/// What `quick_xml::escape::unescape` makes of `raw`: the text with its
/// references resolved, or `None` when one does not resolve.
pub uninterp spec fn xml_unescape(raw: Seq<char>) -> Option<Seq<char>>;

/// Text with no `&`, so no reference to resolve.
pub open spec fn no_reference(raw: Seq<char>) -> bool {
    !raw.contains('&')
}

/// `quick_xml::escape::unescape(raw)`, `None` on its error. Text with no `&`
/// in it has nothing to resolve and comes back as it is.
#[verifier::external_body]
fn unescape(raw: &str) -> (r: Option<String>)
    ensures
        r matches Some(t) ==> xml_unescape(raw@) == Some(t@),
        r is None ==> xml_unescape(raw@) is None,
        r is None ==> !no_reference(raw@),
        r matches Some(t) ==> (no_reference(raw@) ==> t@ == raw@),
{
    quick_xml::escape::unescape(raw).ok().map(|t| t.into_owned())
}

/// Escaped text as the reader reads it: unescaped, or as written when it does
/// not unescape.
pub open spec fn readable(raw: Seq<char>) -> Seq<char> {
    match xml_unescape(raw) {
        Some(t) => t,
        None => raw,
    }
}

/// A name without its namespace prefix: `w:t` and `t` are the same element.
pub open spec fn local_name(name: Seq<char>) -> Seq<char> {
    name.skip(last_of(name, ':') + 1)
}

/// Where a read of the document stands: the paragraphs done, the one being
/// read, and whether a text run is open.
pub struct DocxRead {
    pub paragraphs: Seq<Seq<char>>,
    pub current: Seq<char>,
    pub in_text: bool,
}

/// What one event does to the read.
pub open spec fn docx_step(r: DocxRead, e: XmlEvent) -> DocxRead {
    match e {
        XmlEvent::Start(name) => {
            let local = local_name(name@);
            if local == "t"@ {
                DocxRead { in_text: true, ..r }
            } else if local == "p"@ {
                DocxRead { current: seq![], ..r }
            } else {
                r
            }
        },
        XmlEvent::End(name) => {
            let local = local_name(name@);
            if local == "t"@ {
                DocxRead { in_text: false, ..r }
            } else if local == "p"@ {
                let text = trim_seq(r.current);
                DocxRead {
                    paragraphs: if text.len() > 0 {
                        r.paragraphs.push(text)
                    } else {
                        r.paragraphs
                    },
                    current: seq![],
                    ..r
                }
            } else {
                r
            }
        },
        XmlEvent::Empty(name) => {
            let local = local_name(name@);
            if local == "tab"@ || local == "br"@ || local == "cr"@ {
                DocxRead { current: r.current.push(' '), ..r }
            } else {
                r
            }
        },
        XmlEvent::Text(raw) => {
            if r.in_text {
                DocxRead { current: r.current + readable(raw@), ..r }
            } else {
                r
            }
        },
        XmlEvent::Reference(name) => {
            if r.in_text {
                DocxRead { current: r.current + readable(seq!['&'] + name@ + seq![';']), ..r }
            } else {
                r
            }
        },
        XmlEvent::Other => r,
    }
}

pub open spec fn docx_read(events: Seq<XmlEvent>) -> DocxRead
    decreases events.len(),
{
    if events.len() == 0 {
        DocxRead { paragraphs: seq![], current: seq![], in_text: false }
    } else {
        docx_step(docx_read(events.drop_last()), events.last())
    }
}

/// The passages of a document: its paragraphs, joined by line breaks, cut
/// into windows at no particular location.
pub open spec fn docx_passages(events: Seq<XmlEvent>) -> Seq<(Seq<char>, Place)> {
    placed(window_texts(join(docx_read(events).paragraphs, "\n"@)), Place::Whole)
}

fn local_name_of(name: &str) -> (r: String)
    ensures
        r@ == local_name(name@),
{
    let v = chars_of(name);
    let n = v.len();
    proof {
        lemma_last_of(v@, ':');
    }
    let from = match last_of_exec(&v, ':') {
        Some(i) => i + 1,
        None => 0,
    };
    assert(v@.subrange(from as int, v@.len() as int) == v@.skip(from as int));
    string_of_range(&v, from, v.len())
}

fn readable_text(raw: &str) -> (r: String)
    ensures
        r@ == readable(raw@),
{
    match unescape(raw) {
        Some(t) => t,
        None => String::from_str(raw),
    }
}

/// The passages of `word/document.xml`, from its events, numbered in order.
pub fn passages_of(events: &[XmlEvent]) -> (out: Vec<Chunk>)
    ensures
        numbered_in_order(out@),
        within_window(out@),
        placements(out@) == docx_passages(events@),
{
    let mut paragraphs: Vec<String> = Vec::new();
    let mut current = String::new();
    let mut in_text = false;
    let mut i: usize = 0;
    assert(events@.take(0) == Seq::<XmlEvent>::empty());
    assert(string_views(paragraphs@) == Seq::<Seq<char>>::empty());
    while i < events.len()
        invariant
            i <= events@.len(),
            (DocxRead { paragraphs: string_views(paragraphs@), current: current@, in_text })
                == docx_read(events@.take(i as int)),
        decreases events@.len() - i,
    {
        assert(events@.take(i + 1).drop_last() == events@.take(i as int));
        assert(events@.take(i + 1).last() == events@[i as int]);
        match &events[i] {
            XmlEvent::Start(name) => {
                let local = local_name_of(name.as_str());
                if same_text(local.as_str(), "t") {
                    in_text = true;
                } else if same_text(local.as_str(), "p") {
                    current = String::new();
                }
            },
            XmlEvent::End(name) => {
                let local = local_name_of(name.as_str());
                if same_text(local.as_str(), "t") {
                    in_text = false;
                } else if same_text(local.as_str(), "p") {
                    let text = trim_string(current.as_str());
                    if !text.as_str().is_empty() {
                        let ghost before = paragraphs@;
                        paragraphs.push(text);
                        assert(paragraphs@.drop_last() == before);
                        assert(string_views(paragraphs@) == string_views(before).push(
                            paragraphs@.last()@,
                        ));
                    }
                    current = String::new();
                }
            },
            XmlEvent::Empty(name) => {
                let local = local_name_of(name.as_str());
                if same_text(local.as_str(), "tab") || same_text(local.as_str(), "br") || same_text(
                    local.as_str(),
                    "cr",
                ) {
                    push_char(&mut current, ' ');
                }
            },
            XmlEvent::Text(raw) => {
                if in_text {
                    let text = readable_text(raw.as_str());
                    append_str(&mut current, text.as_str());
                }
            },
            XmlEvent::Reference(name) => {
                if in_text {
                    let mut raw = String::new();
                    push_char(&mut raw, '&');
                    append_str(&mut raw, name.as_str());
                    push_char(&mut raw, ';');
                    assert(raw@ == seq!['&'] + name@ + seq![';']);
                    let text = readable_text(raw.as_str());
                    append_str(&mut current, text.as_str());
                }
            },
            XmlEvent::Other => {},
        }
        i += 1;
    }
    assert(events@.take(events@.len() as int) == events@);
    let body = join_strings(paragraphs.as_slice(), "\n");
    let mut out: Vec<Chunk> = Vec::new();
    assert(placements(out@) == Seq::<(Seq<char>, Place)>::empty());
    append_windows(&mut out, body.as_str(), &ChunkLocation::Whole);
    out
}

/// The passages of an XML document read as `word/document.xml`.
pub fn chunks_from_xml(xml: &str) -> (out: Vec<Chunk>)
    ensures
        numbered_in_order(out@),
        within_window(out@),
        placements(out@) == docx_passages(xml_events(xml@)),
{
    let events = read_xml_events(xml);
    passages_of(events.as_slice())
}

/// The detail reported when the archive has no document in it.
pub open spec fn no_document() -> Seq<char> {
    "no word/document.xml in the archive"@
}

/// Parse a docx file's bytes into passages.
///
/// Bytes that are not a zip archive, an archive with no
/// `word/document.xml`, or one whose document cannot be read, are malformed
/// docx.
pub fn parse(bytes: &[u8]) -> (r: Result<Vec<Chunk>, ParseError>)
    ensures
        match zip_entry(bytes@, "word/document.xml"@) {
            ZipEntry::Text(xml) => r matches Ok(out) && numbered_in_order(out@) && within_window(
                out@,
            ) && placements(out@) == docx_passages(xml_events(xml@)),
            ZipEntry::NotArchive(detail) => r == Err::<Vec<Chunk>, ParseError>(
                ParseError::Malformed { format: "docx", detail },
            ),
            ZipEntry::Missing => r matches Err(ParseError::Malformed { format, detail }) && format
                == "docx" && detail@ == no_document(),
            ZipEntry::Unreadable(detail) => r == Err::<Vec<Chunk>, ParseError>(
                ParseError::Malformed { format: "docx", detail },
            ),
        },
{
    match zip_entry_text(bytes, "word/document.xml") {
        ZipEntry::Text(xml) => Ok(chunks_from_xml(xml.as_str())),
        ZipEntry::NotArchive(detail) => Err(ParseError::Malformed { format: "docx", detail }),
        ZipEntry::Missing => Err(
            ParseError::Malformed {
                format: "docx",
                detail: String::from_str("no word/document.xml in the archive"),
            },
        ),
        ZipEntry::Unreadable(detail) => Err(ParseError::Malformed { format: "docx", detail }),
    }
}

} // verus!
