//! Markdown, and the article aware path the regulatory retriever needs.
//!
//! Text is chunked by heading and then by windows, and a regulatory passage is
//! located by article and paragraph. Both are markdown here, so one parser
//! serves both: a heading that names an article turns its numbered items into
//! paragraphs, and every other heading is an ordinary section.
//!
//! This matters for citations rather than for retrieval. "Article 3, paragraph
//! 1" is something a reader can open the regulation and check. A character
//! offset is not.
//!
//! The numbering comes from the list structure and not from the text. A
//! regulation writes its paragraphs as `1.` and `2.`, which markdown reads as
//! an ordered list, so by the time the text reaches us the marker is gone and
//! only the parser still knows which item this was.
use vstd::prelude::*;

use pulldown_cmark::{Event, Options, Parser, Tag, TagEnd};

use crate::chars::{
    append_str, chars_of, first_where, join, join_chars, join_strings, lemma_first_where, runs,
    runs_of, starts_with, starts_with_chars, string_of_range, string_views, trim_seq, trim_string,
    views_of,
};
use crate::chunking::{
    append_windows, numbered_in_order, within_window, placed, placements, window_texts, Chunk, ChunkLocation,
    Place,
};

verus! {

/// The parts of a markdown event stream that sections are built from.
#[derive(Debug, Clone, PartialEq, Eq)]
pub enum MdEvent {
    /// A heading opens, at this level.
    HeadingStart(usize),
    HeadingEnd,
    /// A list opens; `Some(n)` for an ordered list whose first item is `n`.
    ListStart(Option<u64>),
    ListEnd,
    ItemStart,
    ItemEnd,
    ParagraphEnd,
    /// Text, or inline code.
    Text(String),
    /// A soft or hard line break.
    Break,
    /// Anything else, which moves nothing.
    Other,
}

/// The events pulldown-cmark reads from `source` with every extension on.
pub uninterp spec fn markdown_events(source: Seq<char>) -> Seq<MdEvent>;

/// The events of `Parser::new_ext(source, Options::all())`, each reduced to
/// what sections are built from. A heading's level is 1 to 6, and an ordered
/// list starts at a number of at most nine digits, as CommonMark has it and
/// `scan_listitem` enforces.
#[verifier::external_body]
fn read_events(source: &str) -> (events: Vec<MdEvent>)
    ensures
        events@ == markdown_events(source@),
        forall|i: int|
            0 <= i < events@.len() ==> match #[trigger] events@[i] {
                MdEvent::HeadingStart(level) => 1 <= level <= 6,
                MdEvent::ListStart(Some(start)) => start < 1_000_000_000,
                _ => true,
            },
{
    Parser::new_ext(source, Options::all()).map(|event| match event {
        Event::Start(Tag::Heading { level, .. }) => MdEvent::HeadingStart(level as usize),
        Event::End(TagEnd::Heading(_)) => MdEvent::HeadingEnd,
        Event::Start(Tag::List(start)) => MdEvent::ListStart(start),
        Event::End(TagEnd::List(_)) => MdEvent::ListEnd,
        Event::Start(Tag::Item) => MdEvent::ItemStart,
        Event::End(TagEnd::Item) => MdEvent::ItemEnd,
        Event::End(TagEnd::Paragraph) => MdEvent::ParagraphEnd,
        Event::Text(t) | Event::Code(t) => MdEvent::Text(t.into_string()),
        Event::SoftBreak | Event::HardBreak => MdEvent::Break,
        _ => MdEvent::Other,
    }).collect()
}

/// One paragraph or list item of a section, as plain values.
pub struct BlockModel {
    pub text: Seq<char>,
    /// `Some(n)` when this was item n of an ordered list.
    pub ordinal: Option<usize>,
}

/// A heading and what sits under it, as plain values.
pub struct SectionModel {
    pub title: Seq<char>,
    pub level: usize,
    pub blocks: Seq<BlockModel>,
}

/// Where a walk over the events stands.
pub struct Outline {
    /// The sections already closed.
    pub done: Seq<SectionModel>,
    pub current: SectionModel,
    /// The level of the heading being read, while one is.
    pub heading: Option<usize>,
    pub heading_text: Seq<char>,
    /// Text read since the last block ended.
    pub buffer: Seq<char>,
    /// The next ordinal of each open list, innermost last; `None` for a list
    /// that is not ordered.
    pub counters: Seq<Option<usize>>,
    /// The ordinal of the item being read.
    pub ordinal: Option<usize>,
    pub in_item: bool,
}

/// A block's text: the buffer's white-space separated words, joined by one
/// space.
pub open spec fn block_text(buffer: Seq<char>) -> Seq<char> {
    join(runs(buffer, false), " "@)
}

/// `blocks` with the buffer closed into one more block, unless it held only
/// white space.
pub open spec fn flushed(blocks: Seq<BlockModel>, buffer: Seq<char>, ordinal: Option<usize>) -> Seq<
    BlockModel,
> {
    if block_text(buffer).len() == 0 {
        blocks
    } else {
        blocks.push(BlockModel { text: block_text(buffer), ordinal })
    }
}

pub open spec fn untitled() -> SectionModel {
    SectionModel { title: seq![], level: 1, blocks: seq![] }
}

pub open spec fn is_blank(s: SectionModel) -> bool {
    s.title.len() == 0 && s.blocks.len() == 0
}

pub open spec fn outline_start() -> Outline {
    Outline {
        done: seq![],
        current: untitled(),
        heading: None,
        heading_text: seq![],
        buffer: seq![],
        counters: seq![],
        ordinal: None,
        in_item: false,
    }
}

/// The current section with the buffer closed into it.
pub open spec fn closed_current(o: Outline, ordinal: Option<usize>) -> SectionModel {
    SectionModel { blocks: flushed(o.current.blocks, o.buffer, ordinal), ..o.current }
}

/// What one event does to the walk.
pub open spec fn step(o: Outline, e: MdEvent) -> Outline {
    match e {
        MdEvent::HeadingStart(level) => Outline {
            current: closed_current(o, o.ordinal),
            buffer: seq![],
            heading: Some(level),
            heading_text: seq![],
            ..o
        },
        MdEvent::HeadingEnd => {
            let (done, current) = if is_blank(o.current) {
                (o.done, o.current)
            } else {
                (o.done.push(o.current), untitled())
            };
            let level = match o.heading {
                Some(l) => l,
                None => 1,
            };
            Outline {
                done,
                current: SectionModel { title: trim_seq(o.heading_text), level, ..current },
                heading: None,
                ..o
            }
        },
        MdEvent::ListStart(start) => Outline {
            counters: o.counters.push(
                match start {
                    Some(s) => Some(s as usize),
                    None => None,
                },
            ),
            ..o
        },
        MdEvent::ListEnd => Outline {
            counters: if o.counters.len() > 0 {
                o.counters.drop_last()
            } else {
                o.counters
            },
            ..o
        },
        MdEvent::ItemStart => {
            if o.counters.len() > 0 && o.counters.last() is Some {
                let n = o.counters.last()->0;
                Outline {
                    in_item: true,
                    ordinal: Some(n),
                    counters: o.counters.update(o.counters.len() - 1, Some((n + 1) as usize)),
                    ..o
                }
            } else {
                Outline { in_item: true, ordinal: None, ..o }
            }
        },
        MdEvent::ItemEnd => Outline {
            current: closed_current(o, o.ordinal),
            buffer: seq![],
            in_item: false,
            ordinal: None,
            ..o
        },
        MdEvent::ParagraphEnd => {
            if o.in_item {
                o
            } else {
                Outline { current: closed_current(o, None), buffer: seq![], ..o }
            }
        },
        MdEvent::Text(t) => {
            if o.heading is Some {
                Outline { heading_text: o.heading_text + t@, ..o }
            } else {
                Outline { buffer: o.buffer + t@, ..o }
            }
        },
        MdEvent::Break => Outline { buffer: o.buffer.push(' '), ..o },
        MdEvent::Other => o,
    }
}

/// The walk after `events`.
pub open spec fn outline_after(events: Seq<MdEvent>) -> Outline
    decreases events.len(),
{
    if events.len() == 0 {
        outline_start()
    } else {
        step(outline_after(events.drop_last()), events.last())
    }
}

/// The sections of a document: the walk's closed sections, and the last one
/// unless it is blank.
pub open spec fn sections_of(events: Seq<MdEvent>) -> Seq<SectionModel> {
    let o = outline_after(events);
    let last = closed_current(o, o.ordinal);
    if is_blank(last) {
        o.done
    } else {
        o.done.push(last)
    }
}

/// What the walk asks of its input so that no list ordinal overflows: every
/// ordered list starts below a billion, and there are not so many events that
/// counting items from there could pass `usize::MAX`.
pub open spec fn events_fit(events: Seq<MdEvent>) -> bool {
    &&& events.len() + 1_000_000_000 <= usize::MAX
    &&& forall|i: int|
        0 <= i < events.len() ==> match #[trigger] events[i] {
            MdEvent::ListStart(Some(start)) => start < 1_000_000_000,
            _ => true,
        }
}

pub open spec fn ascii_digit(c: char) -> bool {
    '0' <= c && c <= '9'
}

/// The number a heading names an article by: `Article 12` or `article 12`,
/// after trimming, gives `12`; a heading that does not start that way, or has
/// no digit after it, names no article.
pub open spec fn article_of(title: Seq<char>) -> Option<Seq<char>> {
    let t = trim_seq(title);
    if starts_with(t, "Article "@) || starts_with(t, "article "@) {
        let rest = t.skip("Article "@.len() as int);
        let number = rest.take(first_where(rest, |c: char| !ascii_digit(c)));
        if number.len() > 0 {
            Some(number)
        } else {
            None
        }
    } else {
        None
    }
}

/// The paragraph the last of `blocks` is: its own number when it has one, and
/// otherwise the paragraph before it, starting from 0. An unnumbered lead in is
/// paragraph 0, the chapeau that qualifies everything under the article.
pub open spec fn last_paragraph(blocks: Seq<BlockModel>) -> usize
    decreases blocks.len(),
{
    if blocks.len() == 0 {
        0
    } else {
        match blocks.last().ordinal {
            Some(n) => n,
            None => last_paragraph(blocks.drop_last()),
        }
    }
}

/// The passages of an article: each block cut into windows at its paragraph.
pub open spec fn article_passages(article: Seq<char>, blocks: Seq<BlockModel>) -> Seq<
    (Seq<char>, Place),
>
    decreases blocks.len(),
{
    if blocks.len() == 0 {
        seq![]
    } else {
        article_passages(article, blocks.drop_last()) + placed(
            window_texts(blocks.last().text),
            Place::ArticleParagraph(article, last_paragraph(blocks)),
        )
    }
}

/// Under an article, an item the regulation numbered n is paragraph n, and a
/// block before the first numbered item is paragraph 0, so the lead in never
/// claims a number a real paragraph has.
pub proof fn lemma_paragraph_numbers(blocks: Seq<BlockModel>, i: int)
    requires
        0 <= i < blocks.len(),
    ensures
        blocks[i].ordinal is Some ==> last_paragraph(blocks.take(i + 1)) == blocks[i].ordinal->0,
        (forall|k: int| 0 <= k <= i ==> (#[trigger] blocks[k]).ordinal is None) ==> last_paragraph(
            blocks.take(i + 1),
        ) == 0,
    decreases i,
{
    let t = blocks.take(i + 1);
    assert(t.last() == blocks[i]);
    assert(t.drop_last() == blocks.take(i));
    if i > 0 {
        lemma_paragraph_numbers(blocks, i - 1);
        assert(blocks.take(i) == blocks.take((i - 1) + 1));
    }
    if forall|k: int| 0 <= k <= i ==> (#[trigger] blocks[k]).ordinal is None {
        assert(blocks[i].ordinal is None);
        assert(last_paragraph(t) == last_paragraph(blocks.take(i)));
        if i > 0 {
            assert(forall|k: int| 0 <= k <= i - 1 ==> (#[trigger] blocks[k]).ordinal is None);
        } else {
            assert(blocks.take(i).len() == 0);
        }
    }
}

pub open spec fn block_texts(blocks: Seq<BlockModel>) -> Seq<Seq<char>> {
    blocks.map_values(|b: BlockModel| b.text)
}

/// The passages of one section: by article and paragraph when its heading
/// names an article, and otherwise its blocks joined by line breaks and cut
/// into windows under the heading.
pub open spec fn section_passages(s: SectionModel) -> Seq<(Seq<char>, Place)> {
    match article_of(s.title) {
        Some(article) => article_passages(article, s.blocks),
        None => placed(
            window_texts(join(block_texts(s.blocks), "\n"@)),
            Place::Heading(s.title, s.level),
        ),
    }
}

/// The passages of a document, section after section.
pub open spec fn document_passages(sections: Seq<SectionModel>) -> Seq<(Seq<char>, Place)>
    decreases sections.len(),
{
    if sections.len() == 0 {
        seq![]
    } else {
        document_passages(sections.drop_last()) + section_passages(sections.last())
    }
}


/// One paragraph or list item of a section.
pub struct Block {
    pub text: String,
    /// `Some(n)` when this was item n of an ordered list.
    pub ordinal: Option<usize>,
}

impl View for Block {
    type V = BlockModel;

    open spec fn view(&self) -> BlockModel {
        BlockModel { text: self.text@, ordinal: self.ordinal }
    }
}

/// A heading and the blocks under it.
pub struct Section {
    pub title: String,
    pub level: usize,
    pub blocks: Vec<Block>,
}

pub open spec fn block_models(blocks: Seq<Block>) -> Seq<BlockModel> {
    blocks.map_values(|b: Block| b@)
}

impl View for Section {
    type V = SectionModel;

    open spec fn view(&self) -> SectionModel {
        SectionModel { title: self.title@, level: self.level, blocks: block_models(self.blocks@) }
    }
}

pub open spec fn section_models(sections: Seq<Section>) -> Seq<SectionModel> {
    sections.map_values(|s: Section| s@)
}

/// Close the buffer into a block, unless it held only white space.
fn flush(buffer: &mut String, ordinal: Option<usize>, blocks: &mut Vec<Block>)
    ensures
        final(buffer)@ == Seq::<char>::empty(),
        block_models(final(blocks)@) == flushed(block_models(old(blocks)@), old(buffer)@, ordinal),
{
    let chars = chars_of(buffer.as_str());
    let words = runs_of(&chars, false);
    let text = join_chars(&words, " ");
    *buffer = String::new();
    if !text.as_str().is_empty() {
        let ghost before = blocks@;
        blocks.push(Block { text, ordinal });
        assert(blocks@.drop_last() == before);
        assert(block_models(blocks@) == block_models(before).push(blocks@.last()@));
    }
}

impl Section {
    /// An untitled level one section with nothing in it.
    fn empty() -> (s: Section)
        ensures
            s@ == untitled(),
    {
        let s = Section { title: String::new(), level: 1, blocks: Vec::new() };
        assert(block_models(s.blocks@) == Seq::<BlockModel>::empty());
        s
    }

    /// Whether the section has neither a title nor a block.
    fn is_empty(&self) -> (b: bool)
        ensures
            b == is_blank(self@),
    {
        self.title.as_str().is_empty() && self.blocks.len() == 0
    }
}

/// The sections of a document, from its events.
fn sections(events: &[MdEvent]) -> (out: Vec<Section>)
    requires
        events_fit(events@),
    ensures
        section_models(out@) == sections_of(events@),
{
    let mut out: Vec<Section> = Vec::new();
    let mut current = Section::empty();
    let mut heading_level: Option<usize> = None;
    let mut heading_text = String::new();
    let mut buffer = String::new();
    let mut list_counters: Vec<Option<usize>> = Vec::new();
    let mut item_ordinal: Option<usize> = None;
    let mut in_item = false;
    let mut i: usize = 0;
    assert(section_models(out@) == Seq::<SectionModel>::empty());
    assert(events@.take(0) == Seq::<MdEvent>::empty());
    while i < events.len()
        invariant
            i <= events@.len(),
            events_fit(events@),
            (Outline {
                done: section_models(out@),
                current: current@,
                heading: heading_level,
                heading_text: heading_text@,
                buffer: buffer@,
                counters: list_counters@,
                ordinal: item_ordinal,
                in_item,
            }) == outline_after(events@.take(i as int)),
            forall|k: int|
                0 <= k < list_counters@.len() && (#[trigger] list_counters@[k]) is Some
                    ==> list_counters@[k]->0 < 1_000_000_000 + i,
        decreases events@.len() - i,
    {
        let ghost o = outline_after(events@.take(i as int));
        assert(events@.take(i + 1).drop_last() == events@.take(i as int));
        assert(events@.take(i + 1).last() == events@[i as int]);
        let ghost o2 = step(o, events@[i as int]);
        match &events[i] {
            MdEvent::HeadingStart(level) => {
                flush(&mut buffer, item_ordinal, &mut current.blocks);
                heading_level = Some(*level);
                heading_text = String::new();
            },
            MdEvent::HeadingEnd => {
                if !current.is_empty() {
                    let mut finished = Section::empty();
                    std::mem::swap(&mut finished, &mut current);
                    let ghost before = out@;
                    out.push(finished);
                    assert(out@.drop_last() == before);
                    assert(section_models(out@) == section_models(before).push(out@.last()@));
                }
                current.title = trim_string(heading_text.as_str());
                current.level = match heading_level {
                    Some(l) => l,
                    None => 1,
                };
                heading_level = None;
            },
            MdEvent::ListStart(start) => {
                let counter: Option<usize> = match start {
                    Some(s) => Some(*s as usize),
                    None => None,
                };
                list_counters.push(counter);
            },
            MdEvent::ListEnd => {
                if list_counters.len() > 0 {
                    list_counters.pop();
                }
            },
            MdEvent::ItemStart => {
                in_item = true;
                let n = list_counters.len();
                if n > 0 {
                    match list_counters[n - 1] {
                        Some(c) => {
                            item_ordinal = Some(c);
                            list_counters.set(n - 1, Some(c + 1));
                        },
                        None => {
                            item_ordinal = None;
                        },
                    }
                } else {
                    item_ordinal = None;
                }
            },
            MdEvent::ItemEnd => {
                flush(&mut buffer, item_ordinal, &mut current.blocks);
                in_item = false;
                item_ordinal = None;
            },
            MdEvent::ParagraphEnd => {
                if !in_item {
                    flush(&mut buffer, None, &mut current.blocks);
                }
            },
            MdEvent::Text(t) => {
                if heading_level.is_some() {
                    append_str(&mut heading_text, t.as_str());
                } else {
                    append_str(&mut buffer, t.as_str());
                }
            },
            MdEvent::Break => {
                crate::chars::push_char(&mut buffer, ' ');
            },
            MdEvent::Other => {},
        }
        i += 1;
    }
    assert(events@.take(events@.len() as int) == events@);
    flush(&mut buffer, item_ordinal, &mut current.blocks);
    if !current.is_empty() {
        let ghost before = out@;
        out.push(current);
        assert(out@.drop_last() == before);
        assert(section_models(out@) == section_models(before).push(out@.last()@));
    }
    out
}


fn is_ascii_digit(c: char) -> (b: bool)
    ensures
        b == ascii_digit(c),
{
    '0' <= c && c <= '9'
}

/// The number a heading names an article by, if it names one.
pub fn article_number(title: &str) -> (r: Option<String>)
    ensures
        match r {
            Some(n) => article_of(title@) == Some(n@),
            None => article_of(title@) is None,
        },
{
    let trimmed = trim_string(title);
    let t = chars_of(trimmed.as_str());
    let upper = chars_of("Article ");
    let lower = chars_of("article ");
    if !(starts_with_chars(&t, &upper) || starts_with_chars(&t, &lower)) {
        return None;
    }
    proof {
        assert(upper@.len() == lower@.len()) by {
            reveal_strlit("Article ");
            reveal_strlit("article ");
        }
    }
    let from = upper.len();
    let ghost rest = t@.skip(from as int);
    let ghost p = |c: char| !ascii_digit(c);
    let mut k = from;
    while k < t.len() && is_ascii_digit(t[k])
        invariant
            from <= k <= t@.len(),
            rest == t@.skip(from as int),
            forall|j: int| from <= j < k ==> ascii_digit(#[trigger] t@[j]),
        decreases t@.len() - k,
    {
        k += 1;
    }
    proof {
        lemma_first_where(rest, p);
        let fw = first_where(rest, p);
        if fw < k - from {
            assert(rest[fw] == t@[from + fw]);
        }
        if fw > k - from {
            assert(rest[k - from] == t@[k as int]);
        }
        assert(fw == k - from);
        assert(rest.take(fw) == t@.subrange(from as int, k as int));
    }
    if k == from {
        None
    } else {
        Some(string_of_range(&t, from, k))
    }
}

/// The passages of a document, from its events, numbered in order.
pub fn parse_events(events: &[MdEvent]) -> (out: Vec<Chunk>)
    requires
        events_fit(events@),
    ensures
        numbered_in_order(out@),
        within_window(out@),
        placements(out@) == document_passages(sections_of(events@)),
{
    let all = sections(events);
    let mut out: Vec<Chunk> = Vec::new();
    let mut j: usize = 0;
    assert(section_models(all@).take(0) == Seq::<SectionModel>::empty());
    while j < all.len()
        invariant
            j <= all@.len(),
            section_models(all@) == sections_of(events@),
            numbered_in_order(out@),
            within_window(out@),
            placements(out@) == document_passages(section_models(all@).take(j as int)),
        decreases all@.len() - j,
    {
        let section = &all[j];
        let ghost model = section@;
        let ghost before = placements(out@);
        assert(section_models(all@)[j as int] == model);
        assert(section_models(all@).take(j + 1).drop_last() == section_models(all@).take(j as int));
        match article_number(section.title.as_str()) {
            Some(article) => {
                let mut last: usize = 0;
                let mut k: usize = 0;
                assert(model.blocks.take(0) == Seq::<BlockModel>::empty());
                while k < section.blocks.len()
                    invariant
                        k <= section.blocks@.len(),
                        model == section@,
                        article_of(model.title) == Some(article@),
                        numbered_in_order(out@),
                        within_window(out@),
                        last == last_paragraph(model.blocks.take(k as int)),
                        placements(out@) == before + article_passages(
                            article@,
                            model.blocks.take(k as int),
                        ),
                    decreases section.blocks@.len() - k,
                {
                    let block = &section.blocks[k];
                    assert(model.blocks[k as int] == block@);
                    assert(model.blocks.take(k + 1).drop_last() == model.blocks.take(k as int));
                    let paragraph = match block.ordinal {
                        Some(n) => n,
                        None => last,
                    };
                    last = paragraph;
                    let location = ChunkLocation::ArticleParagraph {
                        article: article.clone(),
                        paragraph,
                    };
                    append_windows(&mut out, block.text.as_str(), &location);
                    k += 1;
                }
                assert(model.blocks.take(section.blocks@.len() as int) == model.blocks);
            },
            None => {
                let mut texts: Vec<String> = Vec::new();
                let mut k: usize = 0;
                while k < section.blocks.len()
                    invariant
                        k <= section.blocks@.len(),
                        model == section@,
                        string_views(texts@) == block_texts(model.blocks.take(k as int)),
                    decreases section.blocks@.len() - k,
                {
                    assert(model.blocks[k as int] == section.blocks@[k as int]@);
                    let ghost prior = texts@;
                    texts.push(section.blocks[k].text.clone());
                    assert(texts@.drop_last() == prior);
                    assert(string_views(texts@) == string_views(prior).push(texts@.last()@));
                    assert(block_texts(model.blocks.take(k + 1)) == block_texts(
                        model.blocks.take(k as int),
                    ).push(model.blocks[k as int].text));
                    k += 1;
                }
                assert(model.blocks.take(section.blocks@.len() as int) == model.blocks);
                let body = join_strings(texts.as_slice(), "\n");
                let location = ChunkLocation::Heading {
                    title: section.title.clone(),
                    level: section.level,
                };
                append_windows(&mut out, body.as_str(), &location);
            },
        }
        j += 1;
    }
    assert(section_models(all@).take(all@.len() as int) == section_models(all@));
    out
}

/// Parse markdown into passages, numbered in order.
///
/// A document so long that its list numbering could pass `usize::MAX` yields
/// nothing.
pub fn parse(source: &str) -> (out: Vec<Chunk>)
    ensures
        events_fit(markdown_events(source@)) ==> numbered_in_order(out@) && within_window(out@)
            && placements(out@) == document_passages(sections_of(markdown_events(source@))),
        !events_fit(markdown_events(source@)) ==> out@.len() == 0,
{
    let events = read_events(source);
    if events.len() <= usize::MAX - 1_000_000_000 {
        parse_events(events.as_slice())
    } else {
        Vec::new()
    }
}

} // verus!
