//! One module per format, all yielding `Vec<Chunk>`.
//!
//! Every parser here obeys the same rule: a file it cannot read is an error for
//! that file and never a panic and never the end of the index run. A corrupt
//! pdf, a password protected pdf, a scanned pdf with no text layer and an empty
//! document are all outcomes for one file.
//!
//! Format is decided by looking inside the file, not by trusting its name: a
//! watched folder is full of files renamed by hand, exported with the wrong
//! extension, or saved by a tool that had its own opinion. A retriever that
//! reads the extension and stops has to declare those unreadable.
use vstd::prelude::*;

pub mod docx;
pub mod html;
pub mod markdown;
pub mod pdf;
pub mod text;
pub mod xlsx;

use crate::chars::{
    append_str, ascii_lower, ascii_lower_vec, chars_of, last_of, last_of_exec, lemma_last_of,
    same_chars, same_text, starts_with, starts_with_chars, string_of_range,
};
use crate::chunking::{cap_windows, numbered_in_order, placed, placements, window_texts, within_window, Chunk, Place};

verus! {

/// Why one file was not indexed.
#[derive(Debug)]
pub enum ParseError {
    Io(String),
    /// The file is a format we know, and this copy of it is broken.
    Malformed { format: &'static str, detail: String },
    /// Encrypted, and we do not ask the user for passwords.
    Protected(String),
    /// A pdf with no text layer, which needs the Reader's OCR path.
    NeedsOcr(String),
    UnsupportedFormat(String),
}

impl ParseError {
    /// The sentence the Profile shows for this error.
    pub open spec fn message_spec(&self) -> Seq<char> {
        match self {
            ParseError::Io(d) => "io: "@ + d@,
            ParseError::Malformed { format, detail } => format@ + " could not be read: "@ + detail@,
            ParseError::Protected(p) => p@ + " is protected and was not opened"@,
            ParseError::NeedsOcr(p) => p@
                + " has no text layer; scanned documents need the Reader, which arrives at M10"@,
            ParseError::UnsupportedFormat(e) => "nothing here is a format we read: "@ + e@,
        }
    }

    pub fn message(&self) -> (m: String)
        ensures
            m@ == self.message_spec(),
    {
        let mut m = String::new();
        match self {
            ParseError::Io(d) => {
                append_str(&mut m, "io: ");
                append_str(&mut m, d.as_str());
            },
            ParseError::Malformed { format, detail } => {
                append_str(&mut m, format);
                append_str(&mut m, " could not be read: ");
                append_str(&mut m, detail.as_str());
            },
            ParseError::Protected(p) => {
                append_str(&mut m, p.as_str());
                append_str(&mut m, " is protected and was not opened");
            },
            ParseError::NeedsOcr(p) => {
                append_str(&mut m, p.as_str());
                append_str(
                    &mut m,
                    " has no text layer; scanned documents need the Reader, which arrives at M10",
                );
            },
            ParseError::UnsupportedFormat(e) => {
                append_str(&mut m, "nothing here is a format we read: ");
                append_str(&mut m, e.as_str());
            },
        }
        m
    }

    /// The kind an indexing pass records this error under.
    pub fn kind(&self) -> (k: &'static str)
        ensures
            k@ == match self {
                ParseError::Io(_) => "io"@,
                ParseError::Malformed { .. } => "malformed"@,
                ParseError::Protected(_) => "protected"@,
                ParseError::NeedsOcr(_) => "needs_ocr"@,
                ParseError::UnsupportedFormat(_) => "unsupported"@,
            },
    {
        match self {
            ParseError::Io(_) => "io",
            ParseError::Malformed { .. } => "malformed",
            ParseError::Protected(_) => "protected",
            ParseError::NeedsOcr(_) => "needs_ocr",
            ParseError::UnsupportedFormat(_) => "unsupported",
        }
    }
}

#[derive(Debug, Clone, Copy, PartialEq, Eq, Structural)]
pub enum Format {
    Markdown,
    Html,
    Text,
    Docx,
    Xlsx,
    Pdf,
}

/// What reading one entry of a zip archive gave.
#[derive(Debug, Clone, PartialEq, Eq)]
pub enum ZipEntry {
    /// The bytes are not a zip archive the reader accepts, and why.
    NotArchive(String),
    /// The archive gave no entry by that name: `by_name` failed, for any reason.
    Missing,
    /// The entry is there and could not be read as text, and why.
    Unreadable(String),
    Text(String),
}

/// What the zip crate makes of entry `name` in the archive `bytes`.
pub uninterp spec fn zip_entry(bytes: Seq<u8>, name: Seq<char>) -> ZipEntry;

/// `ZipArchive::new` over the bytes, then `by_name(name)` and
/// `read_to_string`. An `InvalidArchive` error gives its own detail, any other
/// error its message; a missing entry is `Missing`.
#[verifier::external_body]
pub(crate) fn zip_entry_text(bytes: &[u8], name: &str) -> (r: ZipEntry)
    ensures
        r == zip_entry(bytes@, name@),
{
    let mut archive = match zip::ZipArchive::new(std::io::Cursor::new(bytes)) {
        Ok(archive) => archive,
        Err(zip::result::ZipError::InvalidArchive(detail)) => return ZipEntry::NotArchive(detail.into_owned()),
        Err(other) => return ZipEntry::NotArchive(other.to_string()),
    };
    let Ok(mut entry) = archive.by_name(name) else { return ZipEntry::Missing };
    let mut text = String::new();
    match std::io::Read::read_to_string(&mut entry, &mut text) {
        Ok(_) => ZipEntry::Text(text),
        Err(e) => ZipEntry::Unreadable(e.to_string()),
    }
}

/// The names of the entries of the zip archive `bytes`, each `None` where
/// the name does not decode; `None` when the bytes are not an archive.
pub uninterp spec fn zip_file_names(bytes: Seq<u8>) -> Option<Seq<Option<String>>>;

/// `ZipArchive::new` over the bytes, then `file_names`.
#[verifier::external_body]
fn zip_names(bytes: &[u8]) -> (r: Option<Vec<Option<String>>>)
    ensures
        r matches Some(v) ==> zip_file_names(bytes@) == Some(v@),
        r is None ==> zip_file_names(bytes@) is None,
{
    let archive = zip::ZipArchive::new(std::io::Cursor::new(bytes)).ok()?;
    Some(archive.file_names().map(|n| n.ok().map(|n| n.into_owned())).collect())
}

/// What `String::from_utf8_lossy` makes of `bytes`.
pub uninterp spec fn lossy_text(bytes: Seq<u8>) -> Seq<char>;

/// `String::from_utf8_lossy(bytes)`: the bytes as UTF-8, with each invalid
/// sequence replaced. Lossy on purpose: a stray byte in the middle of a memo
/// is not a reason to lose the whole document.
#[verifier::external_body]
pub(crate) fn decode_lossy(bytes: &[u8]) -> (r: String)
    ensures
        r@ == lossy_text(bytes@),
{
    String::from_utf8_lossy(bytes).into_owned()
}

/// The last component of a path, as `Path::file_name` reads it on Unix: the
/// piece after the last `/`, skipping empty pieces and `.`, and none when
/// that piece is `..`.
pub open spec fn file_name(path: Seq<char>) -> Option<Seq<char>>
    decreases path.len(),
{
    let i = last_of(path, '/');
    let piece = path.skip(i + 1);
    if piece.len() == 0 || piece == "."@ {
        if i < 0 || i >= path.len() {
            None
        } else {
            file_name(path.take(i))
        }
    } else if piece == ".."@ {
        None
    } else {
        Some(piece)
    }
}

/// The extension of a file name, as `Path::extension` reads it: what follows
/// the last `.`, unless there is none or it is the first character.
pub open spec fn extension_of_name(name: Seq<char>) -> Option<Seq<char>> {
    let i = last_of(name, '.');
    if i <= 0 {
        None
    } else {
        Some(name.skip(i + 1))
    }
}

pub open spec fn extension(path: Seq<char>) -> Option<Seq<char>> {
    match file_name(path) {
        Some(name) => extension_of_name(name),
        None => None,
    }
}

/// The format an extension, ignoring ASCII case, claims.
pub open spec fn format_named(ext: Seq<char>) -> Option<Format> {
    let e = ascii_lower(ext);
    if e == "md"@ || e == "markdown"@ {
        Some(Format::Markdown)
    } else if e == "html"@ || e == "htm"@ {
        Some(Format::Html)
    } else if e == "txt"@ {
        Some(Format::Text)
    } else if e == "docx"@ {
        Some(Format::Docx)
    } else if e == "xlsx"@ {
        Some(Format::Xlsx)
    } else if e == "pdf"@ {
        Some(Format::Pdf)
    } else {
        None
    }
}

/// What the extension claims.
pub open spec fn format_by_extension_spec(path: Seq<char>) -> Option<Format> {
    match extension(path) {
        Some(e) => format_named(e),
        None => None,
    }
}

fn file_name_of(path: &Vec<char>, len: usize) -> (r: Option<(usize, usize)>)
    requires
        len <= path@.len(),
    ensures
        match r {
            Some((from, to)) => from <= to <= len && file_name(path@.take(len as int)) == Some(
                path@.subrange(from as int, to as int),
            ),
            None => file_name(path@.take(len as int)) is None,
        },
    decreases len,
{
    let ghost p = path@.take(len as int);
    let mut k = len;
    while k > 0 && path[k - 1] != '/'
        invariant
            k <= len <= path@.len(),
            p == path@.take(len as int),
            forall|j: int| k <= j < len ==> path@[j] != '/',
        decreases k,
    {
        k -= 1;
    }
    proof {
        lemma_last_of(p, '/');
        let i = last_of(p, '/');
        if i < k - 1 {
            assert(p[k - 1] == '/');
        }
        if i > k - 1 {
            assert(p[i] == path@[i]);
        }
        assert(i == k - 1);
        assert(p.skip(i + 1) == path@.subrange(k as int, len as int));
    }
    let piece = string_of_range(path, k, len);
    let dot = same_text(piece.as_str(), ".");
    if k == len || dot {
        proof {
            reveal_strlit(".");
        }
        if k == 0 {
            None
        } else {
            assert(path@.take(len as int).take(k - 1) == path@.take(k - 1));
            file_name_of(path, k - 1)
        }
    } else if same_text(piece.as_str(), "..") {
        None
    } else {
        Some((k, len))
    }
}

/// The extension of a path, if it has one.
pub fn extension_of(path: &str) -> (r: Option<String>)
    ensures
        match r {
            Some(e) => extension(path@) == Some(e@),
            None => extension(path@) is None,
        },
{
    let v = chars_of(path);
    assert(v@.take(v@.len() as int) == v@);
    match file_name_of(&v, v.len()) {
        None => None,
        Some((from, to)) => {
            let name = string_of_range(&v, from, to);
            let n = chars_of(name.as_str());
            proof {
                lemma_last_of(n@, '.');
            }
            match last_of_exec(&n, '.') {
                Some(i) if i > 0 => {
                    assert(n@.subrange(i + 1, n@.len() as int) == n@.skip(i + 1));
                    Some(string_of_range(&n, i + 1, n.len()))
                },
                _ => None,
            }
        },
    }
}

fn format_for(ext: &str) -> (r: Option<Format>)
    ensures
        r == format_named(ext@),
{
    let e = ascii_lower_vec(&chars_of(ext));
    if same_chars(&e, &chars_of("md")) || same_chars(&e, &chars_of("markdown")) {
        Some(Format::Markdown)
    } else if same_chars(&e, &chars_of("html")) || same_chars(&e, &chars_of("htm")) {
        Some(Format::Html)
    } else if same_chars(&e, &chars_of("txt")) {
        Some(Format::Text)
    } else if same_chars(&e, &chars_of("docx")) {
        Some(Format::Docx)
    } else if same_chars(&e, &chars_of("xlsx")) {
        Some(Format::Xlsx)
    } else if same_chars(&e, &chars_of("pdf")) {
        Some(Format::Pdf)
    } else {
        None
    }
}

/// What the extension claims.
pub fn format_by_extension(path: &str) -> (r: Option<Format>)
    ensures
        r == format_by_extension_spec(path@),
{
    match extension_of(path) {
        Some(e) => format_for(e.as_str()),
        None => None,
    }
}

/// Which office format an archive is, by the folders in it: `word/` for a
/// document, `xl/` for a workbook.
pub open spec fn office_format_spec(names: Seq<Option<String>>) -> Option<Format> {
    if exists|i: int|
        0 <= i < names.len() && (#[trigger] names[i]) is Some && starts_with(
            names[i]->0@,
            "word/"@,
        ) {
        Some(Format::Docx)
    } else if exists|i: int|
        0 <= i < names.len() && (#[trigger] names[i]) is Some && starts_with(
            names[i]->0@,
            "xl/"@,
        ) {
        Some(Format::Xlsx)
    } else {
        None
    }
}

fn any_starts_with(names: &Vec<Option<String>>, prefix: &str) -> (b: bool)
    ensures
        b == exists|i: int|
            0 <= i < names@.len() && (#[trigger] names@[i]) is Some && starts_with(
                names@[i]->0@,
                prefix@,
            ),
{
    let p = chars_of(prefix);
    let mut i: usize = 0;
    while i < names.len()
        invariant
            i <= names@.len(),
            p@ == prefix@,
            forall|j: int|
                0 <= j < i ==> !((#[trigger] names@[j]) is Some && starts_with(
                    names@[j]->0@,
                    prefix@,
                )),
        decreases names@.len() - i,
    {
        if let Some(name) = &names[i] {
            if starts_with_chars(&chars_of(name.as_str()), &p) {
                return true;
            }
        }
        i += 1;
    }
    false
}

/// Which office format an archive with these entry names is.
pub fn office_format(names: &Vec<Option<String>>) -> (r: Option<Format>)
    ensures
        r == office_format_spec(names@),
{
    if any_starts_with(names, "word/") {
        Some(Format::Docx)
    } else if any_starts_with(names, "xl/") {
        Some(Format::Xlsx)
    } else {
        None
    }
}

/// `%PDF`, the signature a pdf starts with.
pub open spec fn pdf_magic() -> Seq<u8> {
    seq![0x25u8, 0x50u8, 0x44u8, 0x46u8]
}

/// `PK\x03\x04`, the signature a zip archive starts with.
pub open spec fn zip_magic() -> Seq<u8> {
    seq![0x50u8, 0x4bu8, 0x03u8, 0x04u8]
}

/// What the bytes say, given what the archive's entry names would be. `None`
/// for the text formats, which have no signature, and for anything shorter
/// than a signature.
pub open spec fn sniff_spec(bytes: Seq<u8>, names: Option<Seq<Option<String>>>) -> Option<Format> {
    if bytes.len() < 4 {
        None
    } else if bytes.take(4) == pdf_magic() {
        Some(Format::Pdf)
    } else if bytes.take(4) == zip_magic() {
        match names {
            Some(n) => office_format_spec(n),
            None => None,
        }
    } else {
        None
    }
}

/// What the file's bytes say it is. Both office formats are zips; which one
/// is decided by what is inside, because the container says nothing.
pub fn sniff(bytes: &[u8]) -> (r: Option<Format>)
    ensures
        r == sniff_spec(bytes@, zip_file_names(bytes@)),
{
    if bytes.len() < 4 {
        return None;
    }
    let b0 = bytes[0];
    let b1 = bytes[1];
    let b2 = bytes[2];
    let b3 = bytes[3];
    proof {
        assert(bytes@.take(4) == seq![b0, b1, b2, b3]);
    }
    if b0 == 0x25 && b1 == 0x50 && b2 == 0x44 && b3 == 0x46 {
        return Some(Format::Pdf);
    }
    if b0 == 0x50 && b1 == 0x4b && b2 == 0x03 && b3 == 0x04 {
        return match zip_names(bytes) {
            Some(names) => office_format(&names),
            None => None,
        };
    }
    proof {
        assert(bytes@.take(4) != pdf_magic() ==> !(bytes@.take(4) =~= pdf_magic()));
        if bytes@.take(4) == pdf_magic() {
            assert(bytes@.take(4)[0] == 0x25u8);
        }
        if bytes@.take(4) == zip_magic() {
            assert(bytes@.take(4)[0] == 0x50u8);
        }
    }
    None
}

/// Whether this build can read the file at all, so a folder scan can skip an
/// image without recording it as a failure.
pub fn is_supported(path: &str, bytes: &[u8]) -> (b: bool)
    ensures
        b == (format_by_extension_spec(path@) is Some || sniff_spec(
            bytes@,
            zip_file_names(bytes@),
        ) is Some),
{
    format_by_extension(path).is_some() || sniff(bytes).is_some()
}

/// The format to read a file as: the signature wins over the extension when
/// the two disagree, because the bytes are what has to be read either way.
pub open spec fn format_of_spec(path: Seq<char>, bytes: Seq<u8>) -> Option<Format> {
    match sniff_spec(bytes, zip_file_names(bytes)) {
        Some(f) => Some(f),
        None => format_by_extension_spec(path),
    }
}

/// What an unsupported file is reported as: its extension, or that it has
/// none.
pub open spec fn unsupported_detail(path: Seq<char>) -> Seq<char> {
    match extension(path) {
        Some(e) => e,
        None => "no extension"@,
    }
}

/// The format a file is read as, or why it is not read.
pub fn format_of(path: &str, bytes: &[u8]) -> (r: Result<Format, ParseError>)
    ensures
        match format_of_spec(path@, bytes@) {
            Some(f) => r == Ok::<Format, ParseError>(f),
            None => r matches Err(ParseError::UnsupportedFormat(d)) && d@ == unsupported_detail(
                path@,
            ),
        },
{
    match sniff(bytes) {
        Some(f) => Ok(f),
        None => match format_by_extension(path) {
            Some(f) => Ok(f),
            None => {
                let detail = match extension_of(path) {
                    Some(e) => e,
                    None => String::from_str("no extension"),
                };
                Err(ParseError::UnsupportedFormat(detail))
            },
        },
    }
}


/// What reading a markdown, HTML, plain text or docx file's bytes gives.
pub open spec fn readable_outcome(format: Format, bytes: Seq<u8>, r: Result<Vec<Chunk>, ParseError>) -> bool {
    &&& format == Format::Markdown ==> (r matches Ok(out) && {
            let events = markdown::markdown_events(lossy_text(bytes));
            &&& markdown::events_fit(events) ==> numbered_in_order(out@) && within_window(out@)
                && placements(out@) == markdown::document_passages(markdown::sections_of(events))
            &&& !markdown::events_fit(events) ==> out@.len() == 0
        })
    &&& format == Format::Html ==> (r matches Ok(out) && numbered_in_order(out@) && within_window(
            out@,
        ) && placements(out@) == match html::html_select_within(
            lossy_text(bytes),
            "body"@,
            html::walked(),
        ) {
            Some(elements) => html::html_passages(elements),
            None => seq![],
        })
    &&& format == Format::Text ==> (r matches Ok(out) && numbered_in_order(out@) && within_window(
            out@,
        ) && placements(out@) == placed(window_texts(lossy_text(bytes)), Place::Whole))
    &&& format == Format::Docx ==> match zip_entry(bytes, "word/document.xml"@) {
            ZipEntry::Text(xml) => r matches Ok(out) && numbered_in_order(out@) && within_window(
                out@,
            ) && placements(out@) == docx::docx_passages(docx::xml_events(xml@)),
            ZipEntry::NotArchive(detail) => r == Err::<Vec<Chunk>, ParseError>(
                ParseError::Malformed { format: "docx", detail },
            ),
            ZipEntry::Missing => r matches Err(ParseError::Malformed { format, detail }) && format
                == "docx" && detail@ == docx::no_document(),
            ZipEntry::Unreadable(detail) => r == Err::<Vec<Chunk>, ParseError>(
                ParseError::Malformed { format: "docx", detail },
            ),
        }
}

/// Parse the bytes of a markdown, HTML, plain text or docx file into
/// passages, capped. The text formats are read as UTF-8, lossily.
pub fn parse_readable(format: Format, bytes: &[u8]) -> (r: Result<Vec<Chunk>, ParseError>)
    requires
        format == Format::Markdown || format == Format::Html || format == Format::Text || format
            == Format::Docx,
    ensures
        readable_outcome(format, bytes@, r),
{
    let chunks = match format {
        Format::Docx => docx::parse(bytes),
        Format::Markdown => Ok(markdown::parse(decode_lossy(bytes).as_str())),
        Format::Html => Ok(html::parse(decode_lossy(bytes).as_str())),
        _ => Ok(text::parse(decode_lossy(bytes).as_str())),
    };
    match chunks {
        Ok(chunks) => Ok(cap_windows(chunks)),
        Err(e) => Err(e),
    }
}


/// What parsing a file gave: its passages, or the outside reading it needs
/// before it can be parsed.
#[derive(Debug)]
pub enum Parsed {
    Chunks(Vec<Chunk>),
    /// A pdf, not declared encrypted: its text layer is to be extracted and
    /// handed to `pdf::from_extraction`.
    ExtractPdf,
    /// A workbook: its sheets are to be read and handed to `xlsx::bands`.
    ReadWorkbook,
}

/// Parse a file into passages, or say what outside reading it needs.
///
/// The signature wins over the extension when the two disagree, because the
/// bytes are what has to be read either way.
pub fn parse_file(path: &str, bytes: &[u8]) -> (r: Result<Parsed, ParseError>)
    ensures
        match format_of_spec(path@, bytes@) {
            None => r matches Err(ParseError::UnsupportedFormat(d)) && d@ == unsupported_detail(
                path@,
            ),
            Some(Format::Pdf) => if pdf::declares_encryption(bytes@) {
                r matches Err(ParseError::Protected(p)) && p@ == path@
            } else {
                r matches Ok(Parsed::ExtractPdf)
            },
            Some(Format::Xlsx) => r matches Ok(Parsed::ReadWorkbook),
            Some(f) => match r {
                Ok(Parsed::Chunks(out)) => readable_outcome(f, bytes@, Ok(out)),
                Ok(_) => false,
                Err(e) => readable_outcome(f, bytes@, Err(e)),
            },
        },
{
    let format = match format_of(path, bytes) {
        Ok(f) => f,
        Err(e) => return Err(e),
    };
    match format {
        Format::Pdf => {
            if pdf::is_encrypted(bytes) {
                Err(ParseError::Protected(String::from_str(path)))
            } else {
                Ok(Parsed::ExtractPdf)
            }
        },
        Format::Xlsx => Ok(Parsed::ReadWorkbook),
        _ => match parse_readable(format, bytes) {
            Ok(out) => Ok(Parsed::Chunks(out)),
            Err(e) => Err(e),
        },
    }
}

/// An archive is a Word document when some entry lies under `word/`, a
/// workbook when none does and some entry lies under `xl/`, and neither when
/// no entry lies under either.
pub proof fn lemma_office_format_by_entries(names: Seq<Option<String>>)
    ensures
        (exists|i: int|
            0 <= i < names.len() && (#[trigger] names[i]) is Some && starts_with(
                names[i]->0@,
                "word/"@,
            )) ==> office_format_spec(names) == Some(Format::Docx),
        (forall|i: int|
            0 <= i < names.len() && (#[trigger] names[i]) is Some ==> !starts_with(
                names[i]->0@,
                "word/"@,
            )) && (exists|i: int|
            0 <= i < names.len() && (#[trigger] names[i]) is Some && starts_with(
                names[i]->0@,
                "xl/"@,
            )) ==> office_format_spec(names) == Some(Format::Xlsx),
        (forall|i: int|
            0 <= i < names.len() && (#[trigger] names[i]) is Some ==> !starts_with(
                names[i]->0@,
                "word/"@,
            ) && !starts_with(names[i]->0@, "xl/"@)) ==> office_format_spec(names) is None,
{
}

} // verus!
