//! HTML, parsed rather than stripped.
//!
//! Main content is extracted and boilerplate removed, then the text is chunked
//! by heading. A regex that deletes anything between angle brackets would be
//! shorter and would also keep the contents of `<script>` and `<style>`, which
//! is how a retriever ends up indexing minified javascript and ranking it
//! against a question about capital buffers. html5ever knows the difference.
use vstd::prelude::*;

use scraper::{Html, Selector};

use crate::chars::{
    chars_of, join, join_chars, opt_string, runs, runs_of, same_text, trim_seq, trim_string,
};
use crate::chunking::{
    append_windows, numbered_in_order, within_window, placed, placements, window_texts, Chunk, ChunkLocation,
    Place,
};

verus! {

/// One text node, with the local names of the elements it sits in,
/// innermost first, up to the document's root.
#[derive(Debug, Clone, PartialEq, Eq)]
pub struct TextPiece {
    pub text: String,
    pub within: Vec<String>,
}

/// An element as the walk reads it.
#[derive(Debug, Clone, PartialEq, Eq)]
pub struct HtmlElement {
    /// Its local name, such as `h2` or `p`.
    pub name: String,
    /// The text nodes below it, in document order.
    pub pieces: Vec<TextPiece>,
}

/// What html5ever and scraper make of `source`: in the first element matching
/// `outer`, the elements below it matching `inner`, in document order; `None`
/// when a selector does not parse or nothing matches `outer`.
pub uninterp spec fn html_select_within(
    source: Seq<char>,
    outer: Seq<char>,
    inner: Seq<char>,
) -> Option<Seq<HtmlElement>>;

/// In `Html::parse_document(source)`, the first element matching `outer`
/// (`Html::select`), and below it every element matching `inner`
/// (`ElementRef::select`, which skips the element itself), each with its
/// name and its text nodes (the text nodes among its `descendants`, which is
/// what `ElementRef::text` concatenates), each text node with the names of its
/// element ancestors. `None` when either selector fails `Selector::parse` or
/// nothing matches `outer`.
#[verifier::external_body]
fn select_within(source: &str, outer: &str, inner: &str) -> (r: Option<Vec<HtmlElement>>)
    ensures
        r matches Some(v) ==> html_select_within(source@, outer@, inner@) == Some(v@),
        r is None ==> html_select_within(source@, outer@, inner@) is None,
{
    let document = Html::parse_document(source);
    let (Ok(outer), Ok(inner)) = (Selector::parse(outer), Selector::parse(inner)) else {
        return None;
    };
    let scope = document.select(&outer).next()?;
    Some(scope.select(&inner).map(|e| HtmlElement {
        name: e.value().name().to_string(),
        pieces: e.descendants().filter_map(|n| n.value().as_text().map(|t| TextPiece {
            text: (**t).to_string(),
            within: n.ancestors().filter_map(|a| a.value().as_element()).map(|a| a.name().to_string()).collect(),
        })).collect(),
    }).collect())
}

/// What scraper makes of `source`: for each element matching `selector`, in
/// document order, its attribute `attr`; `None` when the selector does not
/// parse.
pub uninterp spec fn html_attribute_values(
    source: Seq<char>,
    selector: Seq<char>,
    attr: Seq<char>,
) -> Option<Seq<Option<String>>>;

/// `Html::parse_document(source).select(selector)`, mapped to each element's
/// `attr(attr)`. `None` when the selector fails `Selector::parse`.
#[verifier::external_body]
pub(crate) fn attribute_values(source: &str, selector: &str, attr: &str) -> (r: Option<Vec<Option<String>>>)
    ensures
        r matches Some(v) ==> html_attribute_values(source@, selector@, attr@) == Some(v@),
        r is None ==> html_attribute_values(source@, selector@, attr@) is None,
{
    let document = Html::parse_document(source);
    let selector = Selector::parse(selector).ok()?;
    Some(document.select(&selector).map(|e| e.value().attr(attr).map(|v| v.to_string())).collect())
}

/// What scraper makes of `source`: for each element matching `blocks`, in
/// document order, its text and the text of the elements below it matching
/// `links`; `None` when a selector does not parse.
pub uninterp spec fn html_text_blocks(
    source: Seq<char>,
    blocks: Seq<char>,
    links: Seq<char>,
) -> Option<Seq<(String, String)>>;

/// `Html::parse_document(source).select(blocks)`, each element mapped to its
/// `text()` and to the `text()` of every element its `select(links)` yields,
/// each concatenated. `None` when a selector fails `Selector::parse`.
#[verifier::external_body]
pub(crate) fn text_blocks(source: &str, blocks: &str, links: &str) -> (r: Option<Vec<(String, String)>>)
    ensures
        r matches Some(v) ==> html_text_blocks(source@, blocks@, links@) == Some(v@),
        r is None ==> html_text_blocks(source@, blocks@, links@) is None,
{
    let document = Html::parse_document(source);
    let (Ok(blocks), Ok(links)) = (Selector::parse(blocks), Selector::parse(links)) else {
        return None;
    };
    Some(document.select(&blocks).map(|e| (e.text().collect(), e.select(&links).flat_map(|a| a.text()).collect())).collect())
}

/// The elements whose text is never content.
pub open spec fn boilerplate(name: Seq<char>) -> bool {
    ||| name == "script"@
    ||| name == "style"@
    ||| name == "nav"@
    ||| name == "footer"@
    ||| name == "header"@
    ||| name == "noscript"@
    ||| name == "svg"@
}

fn is_boilerplate(name: &str) -> (b: bool)
    ensures
        b == boilerplate(name@),
{
    same_text(name, "script") || same_text(name, "style") || same_text(name, "nav") || same_text(
        name,
        "footer",
    ) || same_text(name, "header") || same_text(name, "noscript") || same_text(name, "svg")
}

/// Whether a text node sits inside boilerplate, at any depth.
pub open spec fn in_boilerplate(p: TextPiece) -> bool {
    exists|k: int| 0 <= k < p.within@.len() && boilerplate((#[trigger] p.within@[k])@)
}

/// The text of an element that is content: its text nodes in order, leaving
/// out every one that sits inside boilerplate.
pub open spec fn content_text(pieces: Seq<TextPiece>) -> Seq<char>
    decreases pieces.len(),
{
    if pieces.len() == 0 {
        seq![]
    } else {
        content_text(pieces.drop_last()) + if in_boilerplate(pieces.last()) {
            seq![]
        } else {
            pieces.last().text@
        }
    }
}

/// The depth of a heading element: `h` and a decimal number from 1 to 6, as
/// `usize::from_str` reads what follows the `h` (an optional `+`, then digits,
/// leading zeros allowed).
pub open spec fn heading_depth(name: Seq<char>) -> Option<usize> {
    if name.len() >= 2 && name[0] == 'h' {
        let digits = unsigned_digits(name.skip(1));
        if digits.len() > 0 && zeros_before_last(digits) && '1' <= digits.last() && digits.last()
            <= '6' {
            Some((digits.last() as u32 - '0' as u32) as usize)
        } else {
            None
        }
    } else {
        None
    }
}

/// What `usize::from_str` reads as digits: the text after an optional `+`.
pub open spec fn unsigned_digits(s: Seq<char>) -> Seq<char> {
    if s.len() > 0 && s[0] == '+' {
        s.skip(1)
    } else {
        s
    }
}

/// Every character but the last is `0`.
pub open spec fn zeros_before_last(d: Seq<char>) -> bool {
    forall|k: int| 0 <= k < d.len() - 1 ==> d[k] == '0'
}

/// The walk over a body's elements: the passages of the sections already
/// closed, and the heading and text of the open one.
pub struct HtmlWalk {
    pub passages: Seq<(Seq<char>, Place)>,
    pub title: Seq<char>,
    pub level: usize,
    pub body: Seq<char>,
}

/// An element's text with its white space collapsed to single spaces.
pub open spec fn collapsed(text: Seq<char>) -> Seq<char> {
    join(runs(text, false), " "@)
}

/// What one element does to the walk: an element with no content text does
/// nothing, a heading closes the open section and opens its own, and anything
/// else adds a line to the open section.
pub open spec fn html_step(w: HtmlWalk, e: HtmlElement) -> HtmlWalk {
    let text = collapsed(content_text(e.pieces@));
    if text.len() == 0 {
        w
    } else {
        match heading_depth(e.name@) {
            Some(depth) => HtmlWalk {
                passages: w.passages + placed(
                    window_texts(w.body),
                    Place::Heading(w.title, w.level),
                ),
                title: text,
                level: depth,
                body: seq![],
            },
            None => HtmlWalk { body: w.body + text + seq!['\n'], ..w },
        }
    }
}

pub open spec fn html_walk(elements: Seq<HtmlElement>) -> HtmlWalk
    decreases elements.len(),
{
    if elements.len() == 0 {
        HtmlWalk { passages: seq![], title: seq![], level: 1, body: seq![] }
    } else {
        html_step(html_walk(elements.drop_last()), elements.last())
    }
}

/// The passages of a body's elements: every section the walk closed, then the
/// one still open.
pub open spec fn html_passages(elements: Seq<HtmlElement>) -> Seq<(Seq<char>, Place)> {
    let w = html_walk(elements);
    w.passages + placed(window_texts(w.body), Place::Heading(w.title, w.level))
}

/// What the walk reads of an element: its name and its content text.
pub open spec fn content_view(e: HtmlElement) -> (Seq<char>, Seq<char>) {
    (e.name@, content_text(e.pieces@))
}

proof fn lemma_walk_reads_content(a: Seq<HtmlElement>, b: Seq<HtmlElement>)
    requires
        a.len() == b.len(),
        forall|i: int| 0 <= i < a.len() ==> content_view(#[trigger] a[i]) == content_view(b[i]),
    ensures
        html_walk(a) == html_walk(b),
    decreases a.len(),
{
    if a.len() > 0 {
        assert forall|i: int| 0 <= i < a.drop_last().len() implies content_view(
            #[trigger] a.drop_last()[i],
        ) == content_view(b.drop_last()[i]) by {
            assert(content_view(a[i]) == content_view(b[i]));
        }
        lemma_walk_reads_content(a.drop_last(), b.drop_last());
        assert(content_view(a[a.len() - 1]) == content_view(b[b.len() - 1]));
    }
}

/// Boilerplate never reaches a passage: two bodies whose elements agree on
/// their names and on their text outside script, style, nav, footer, header,
/// noscript and svg give the same passages, whatever text those hold and
/// however deep in an element they sit.
pub proof fn lemma_boilerplate_never_reaches_a_passage(a: Seq<HtmlElement>, b: Seq<HtmlElement>)
    requires
        a.len() == b.len(),
        forall|i: int| 0 <= i < a.len() ==> content_view(#[trigger] a[i]) == content_view(b[i]),
    ensures
        html_passages(a) == html_passages(b),
{
    lemma_walk_reads_content(a, b);
}

/// The elements the walk visits.
pub open spec fn walked() -> Seq<char> {
    "h1, h2, h3, h4, h5, h6, p, li, td, th, blockquote, pre"@
}

fn heading_depth_of(name: &str) -> (r: Option<usize>)
    ensures
        r == heading_depth(name@),
{
    let v = chars_of(name);
    if v.len() < 2 || v[0] != 'h' {
        return None;
    }
    let start: usize = if v[1] == '+' {
        2
    } else {
        1
    };
    let ghost digits = unsigned_digits(v@.skip(1));
    assert(digits == v@.skip(start as int));
    if start >= v.len() {
        return None;
    }
    let mut k = start;
    while k < v.len() - 1
        invariant
            start <= k < v@.len(),
            v@ == name@,
            v@.len() >= 2 && v@[0] == 'h',
            digits == unsigned_digits(v@.skip(1)),
            digits == v@.skip(start as int),
            forall|j: int| start <= j < k ==> v@[j] == '0',
        decreases v@.len() - k,
    {
        if v[k] != '0' {
            assert(digits[k - start] == v@[k as int]);
            assert(k - start < digits.len() - 1);
            assert(!zeros_before_last(digits));
            return None;
        }
        k += 1;
    }
    assert(forall|j: int| 0 <= j < digits.len() - 1 ==> digits[j] == v@[start + j]);
    let last = v[v.len() - 1];
    assert(digits.last() == last);
    if '1' <= last && last <= '6' {
        Some((last as u32 - '0' as u32) as usize)
    } else {
        None
    }
}

fn piece_in_boilerplate(p: &TextPiece) -> (b: bool)
    ensures
        b == in_boilerplate(*p),
{
    let mut k: usize = 0;
    while k < p.within.len()
        invariant
            k <= p.within@.len(),
            forall|j: int| 0 <= j < k ==> !boilerplate((#[trigger] p.within@[j])@),
        decreases p.within@.len() - k,
    {
        if is_boilerplate(p.within[k].as_str()) {
            return true;
        }
        k += 1;
    }
    false
}

/// All of an element's text nodes, in order, as `ElementRef::text` gives them.
pub open spec fn full_text(pieces: Seq<TextPiece>) -> Seq<char>
    decreases pieces.len(),
{
    if pieces.len() == 0 {
        seq![]
    } else {
        full_text(pieces.drop_last()) + pieces.last().text@
    }
}

fn full_text_of(e: &HtmlElement) -> (s: String)
    ensures
        s@ == full_text(e.pieces@),
{
    let mut s = String::new();
    let mut i: usize = 0;
    assert(e.pieces@.take(0) == Seq::<TextPiece>::empty());
    while i < e.pieces.len()
        invariant
            i <= e.pieces@.len(),
            s@ == full_text(e.pieces@.take(i as int)),
        decreases e.pieces@.len() - i,
    {
        assert(e.pieces@.take(i + 1).drop_last() == e.pieces@.take(i as int));
        assert(e.pieces@.take(i + 1).last() == e.pieces@[i as int]);
        crate::chars::append_str(&mut s, e.pieces[i].text.as_str());
        i += 1;
    }
    assert(e.pieces@.take(e.pieces@.len() as int) == e.pieces@);
    s
}

/// An element's content text.
fn content_of(e: &HtmlElement) -> (s: String)
    ensures
        s@ == content_text(e.pieces@),
{
    let mut s = String::new();
    let mut i: usize = 0;
    assert(e.pieces@.take(0) == Seq::<TextPiece>::empty());
    while i < e.pieces.len()
        invariant
            i <= e.pieces@.len(),
            s@ == content_text(e.pieces@.take(i as int)),
        decreases e.pieces@.len() - i,
    {
        assert(e.pieces@.take(i + 1).drop_last() == e.pieces@.take(i as int));
        assert(e.pieces@.take(i + 1).last() == e.pieces@[i as int]);
        if !piece_in_boilerplate(&e.pieces[i]) {
            crate::chars::append_str(&mut s, e.pieces[i].text.as_str());
        }
        i += 1;
    }
    assert(e.pieces@.take(e.pieces@.len() as int) == e.pieces@);
    s
}

/// The passages of the body's elements, numbered in order.
pub fn passages_of(elements: &[HtmlElement]) -> (out: Vec<Chunk>)
    ensures
        numbered_in_order(out@),
        within_window(out@),
        placements(out@) == html_passages(elements@),
{
    let mut out: Vec<Chunk> = Vec::new();
    let mut title = String::new();
    let mut level: usize = 1;
    let mut body = String::new();
    let mut i: usize = 0;
    assert(elements@.take(0) == Seq::<HtmlElement>::empty());
    assert(placements(out@) == Seq::<(Seq<char>, Place)>::empty());
    assert(title@ == Seq::<char>::empty());
    while i < elements.len()
        invariant
            i <= elements@.len(),
            numbered_in_order(out@),
            within_window(out@),
            (HtmlWalk { passages: placements(out@), title: title@, level, body: body@ })
                == html_walk(elements@.take(i as int)),
        decreases elements@.len() - i,
    {
        assert(elements@.take(i + 1).drop_last() == elements@.take(i as int));
        assert(elements@.take(i + 1).last() == elements@[i as int]);
        let element = &elements[i];
        let ghost w = html_walk(elements@.take(i as int));
        let ghost w2 = html_step(w, *element);
        assert(html_walk(elements@.take(i + 1)) == w2);
        {
            let content = content_of(element);
            let words = runs_of(&chars_of(content.as_str()), false);
            let text = join_chars(&words, " ");
            if !text.as_str().is_empty() {
                match heading_depth_of(element.name.as_str()) {
                    Some(depth) => {
                        let location = ChunkLocation::Heading { title: title, level };
                        append_windows(&mut out, body.as_str(), &location);
                        title = text;
                        level = depth;
                        body = String::new();
                        assert(body@ == Seq::<char>::empty());
                        assert(w2.passages == placements(out@));
                        assert(w2.title == title@);
                        assert(w2.body == body@);
                    },
                    None => {
                        crate::chars::append_str(&mut body, text.as_str());
                        crate::chars::push_char(&mut body, '\n');
                        assert(body@ == w.body + text@ + seq!['\n']);
                    },
                }
            }
        }
        i += 1;
    }
    assert(elements@.take(elements@.len() as int) == elements@);
    let location = ChunkLocation::Heading { title, level };
    append_windows(&mut out, body.as_str(), &location);
    out
}

/// Parse an HTML document's body into passages, numbered in order.
///
/// Text inside script, style, nav, footer, header, noscript or svg never
/// reaches a passage: the passages are those of any elements with the same
/// names and the same text outside those.
pub fn parse(source: &str) -> (out: Vec<Chunk>)
    ensures
        numbered_in_order(out@),
        within_window(out@),
        placements(out@) == match html_select_within(source@, "body"@, walked()) {
            Some(elements) => html_passages(elements),
            None => seq![],
        },
        html_select_within(source@, "body"@, walked()) matches Some(elements) ==> forall|
            other: Seq<HtmlElement>,
        |
            other.len() == elements.len() && (forall|i: int|
                0 <= i < elements.len() ==> content_view(#[trigger] other[i]) == content_view(
                    elements[i],
                )) ==> placements(out@) == html_passages(other),
{
    match select_within(source, "body", "h1, h2, h3, h4, h5, h6, p, li, td, th, blockquote, pre") {
        Some(elements) => {
            let out = passages_of(elements.as_slice());
            assert forall|other: Seq<HtmlElement>|
                other.len() == elements@.len() && (forall|i: int|
                    0 <= i < elements@.len() ==> content_view(#[trigger] other[i]) == content_view(
                        elements@[i],
                    )) implies placements(out@) == html_passages(other) by {
                assert forall|i: int| 0 <= i < other.len() implies content_view(
                    #[trigger] other[i],
                ) == content_view(elements@[i]) by {}
                lemma_boilerplate_never_reaches_a_passage(other, elements@);
            }
            out
        },
        None => {
            let out: Vec<Chunk> = Vec::new();
            assert(placements(out@) == Seq::<(Seq<char>, Place)>::empty());
            out
        },
    }
}


/// The document title and the metadata a page carries, for the Source row.
#[derive(Debug, Clone, PartialEq, Eq)]
pub struct HtmlMeta {
    pub title: Option<String>,
    pub issuer: Option<String>,
    pub published_at: Option<String>,
}

impl Default for HtmlMeta {
    fn default() -> (m: Self)
        ensures
            m.title is None && m.issuer is None && m.published_at is None,
    {
        HtmlMeta { title: None, issuer: None, published_at: None }
    }
}

/// The first title's text, trimmed, unless that is empty.
pub open spec fn meta_title(source: Seq<char>) -> Option<Seq<char>> {
    match html_select_within(source, "html"@, "title"@) {
        Some(titles) => if titles.len() > 0 && trim_seq(full_text(titles[0].pieces@)).len() > 0 {
            Some(trim_seq(full_text(titles[0].pieces@)))
        } else {
            None
        },
        None => None,
    }
}

/// An attribute's value, or empty when it is absent.
pub open spec fn or_empty(o: Option<String>) -> Seq<char> {
    match o {
        Some(s) => s@,
        None => seq![],
    }
}

pub open spec fn is_published_name(name: Seq<char>) -> bool {
    name == "published"@ || name == "published_at"@ || name == "date"@
}

/// The issuer and publication date the first `n` named meta elements give:
/// the last non-empty `issuer`, and the last non-empty `published`,
/// `published_at` or `date`.
pub open spec fn meta_fields(names: Seq<Option<String>>, contents: Seq<Option<String>>, n: int) -> (
    Option<Seq<char>>,
    Option<Seq<char>>,
)
    decreases n,
{
    if n <= 0 {
        (None, None)
    } else {
        let (issuer, published) = meta_fields(names, contents, n - 1);
        let name = or_empty(names[n - 1]);
        let content = trim_seq(or_empty(contents[n - 1]));
        if content.len() == 0 {
            (issuer, published)
        } else if name == "issuer"@ {
            (Some(content), published)
        } else if is_published_name(name) {
            (issuer, Some(content))
        } else {
            (issuer, published)
        }
    }
}

/// The issuer and publication date of a document.
pub open spec fn meta_of(source: Seq<char>) -> (Option<Seq<char>>, Option<Seq<char>>) {
    match (
        html_attribute_values(source, "meta[name]"@, "name"@),
        html_attribute_values(source, "meta[name]"@, "content"@),
    ) {
        (Some(names), Some(contents)) => meta_fields(
            names,
            contents,
            if names.len() <= contents.len() {
                names.len() as int
            } else {
                contents.len() as int
            },
        ),
        _ => (None, None),
    }
}

fn text_of(o: &Option<String>) -> (r: &str)
    ensures
        r@ == or_empty(*o),
{
    match o {
        Some(s) => s.as_str(),
        None => {
            proof {
                reveal_strlit("");
            }
            ""
        },
    }
}

/// The document title and the metadata the page declares.
pub fn meta(source: &str) -> (m: HtmlMeta)
    ensures
        opt_string(m.title) == meta_title(source@),
        (opt_string(m.issuer), opt_string(m.published_at)) == meta_of(source@),
{
    let mut out = HtmlMeta::default();
    if let Some(titles) = select_within(source, "html", "title") {
        if titles.len() > 0 {
            let text = trim_string(full_text_of(&titles[0]).as_str());
            if !text.as_str().is_empty() {
                out.title = Some(text);
            }
        }
    }
    let names = attribute_values(source, "meta[name]", "name");
    let contents = attribute_values(source, "meta[name]", "content");
    if let (Some(names), Some(contents)) = (names, contents) {
        let n = if names.len() <= contents.len() {
            names.len()
        } else {
            contents.len()
        };
        let mut i: usize = 0;
        while i < n
            invariant
                i <= n <= names@.len(),
                n <= contents@.len(),
                opt_string(out.title) == meta_title(source@),
                (opt_string(out.issuer), opt_string(out.published_at)) == meta_fields(
                    names@,
                    contents@,
                    i as int,
                ),
            decreases n - i,
        {
            let name = text_of(&names[i]);
            let content = trim_string(text_of(&contents[i]));
            if !content.as_str().is_empty() {
                if same_text(name, "issuer") {
                    out.issuer = Some(content);
                } else if same_text(name, "published") || same_text(name, "published_at")
                    || same_text(name, "date") {
                    out.published_at = Some(content);
                }
            }
            i += 1;
        }
    }
    out
}

} // verus!
