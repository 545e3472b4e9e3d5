//! The chunking contract every parser shares.
//!
//! One shape in, one shape out: a parser turns bytes into `Chunk`s, and
//! ranking, persistence and citation binding never learn what format a passage
//! came from. Text is chunked by heading and then by 800 character
//! windows with 100 characters of overlap; passage text is capped
//! at 1,200 characters and splits anything longer.
use vstd::prelude::*;

use crate::chars::{
    chars_of, lemma_trim_ends, lemma_trim_of_trimmed, string_of, string_of_range, string_views,
    trim_bounds, trim_seq, white_space, is_white_space, sub_vec,
};

verus! {

///
pub const WINDOW: usize = 800;

pub const OVERLAP: usize = 100;

///
pub const MAX_PASSAGE_CHARS: usize = 1200;

/// Where a chunk came from, in terms the reader can navigate back to.
#[derive(Debug, Clone, PartialEq, Eq)]
pub enum ChunkLocation {
    /// Markdown, HTML, and plain text with headings.
    Heading { title: String, level: usize },
    /// Regulatory text: article and paragraph.
    ArticleParagraph { article: String, paragraph: usize },
    /// A spreadsheet band of rows.
    RowRange { sheet: String, from: usize, to: usize },
    /// A pdf, and anything else that only has a page.
    Page { page: usize },
    /// A file with no structure at all.
    Whole,
}

/// A location as plain values.
pub enum Place {
    Heading(Seq<char>, usize),
    ArticleParagraph(Seq<char>, usize),
    RowRange(Seq<char>, usize, usize),
    Page(usize),
    Whole,
}

impl View for ChunkLocation {
    type V = Place;

    open spec fn view(&self) -> Place {
        match self {
            ChunkLocation::Heading { title, level } => Place::Heading(title@, *level),
            ChunkLocation::ArticleParagraph { article, paragraph } => Place::ArticleParagraph(
                article@,
                *paragraph,
            ),
            ChunkLocation::RowRange { sheet, from, to } => Place::RowRange(sheet@, *from, *to),
            ChunkLocation::Page { page } => Place::Page(*page),
            ChunkLocation::Whole => Place::Whole,
        }
    }
}

impl ChunkLocation {
    /// A copy equal to this location.
    pub fn duplicate(&self) -> (r: Self)
        ensures
            r == *self,
    {
        match self {
            ChunkLocation::Heading { title, level } => ChunkLocation::Heading {
                title: title.clone(),
                level: *level,
            },
            ChunkLocation::ArticleParagraph { article, paragraph } =>
                ChunkLocation::ArticleParagraph { article: article.clone(), paragraph: *paragraph },
            ChunkLocation::RowRange { sheet, from, to } => ChunkLocation::RowRange {
                sheet: sheet.clone(),
                from: *from,
                to: *to,
            },
            ChunkLocation::Page { page } => ChunkLocation::Page { page: *page },
            ChunkLocation::Whole => ChunkLocation::Whole,
        }
    }
}

/// One unit of retrievable text.
#[derive(Debug, Clone, PartialEq, Eq)]
pub struct Chunk {
    pub text: String,
    pub location: ChunkLocation,
    /// Position within the document, so two chunks of one section stay ordered.
    pub sequence: usize,
}

impl Chunk {
    pub fn new(text: String, location: ChunkLocation, sequence: usize) -> (c: Self)
        ensures
            c.text == text,
            c.location == location,
            c.sequence == sequence,
    {
        Chunk { text, location, sequence }
    }
}

/// `out` holds exactly `texts`, in order, all at `location`, numbered densely
/// from `first`.
pub open spec fn chunks_are(
    out: Seq<Chunk>,
    texts: Seq<Seq<char>>,
    location: ChunkLocation,
    first: int,
) -> bool {
    &&& out.len() == texts.len()
    &&& forall|i: int|
        0 <= i < out.len() ==> {
            &&& (#[trigger] out[i]).text@ == texts[i]
            &&& out[i].location == location
            &&& out[i].sequence == first + i
        }
}

/// Where a window may end: a sentence end or a line break.
pub open spec fn is_sentence_break(c: char) -> bool {
    c == '.' || c == '\n'
}

/// Whether `c` is a boundary of the kind asked for: a sentence break, or else
/// white space.
pub open spec fn is_boundary(c: char, sentence: bool) -> bool {
    if sentence {
        is_sentence_break(c)
    } else {
        white_space(c)
    }
}

/// The last offset below `k` in the window that starts at `start` holding a
/// boundary of the kind asked for, or -1 when there is none.
pub open spec fn last_boundary(chars: Seq<char>, start: int, k: int, sentence: bool) -> int
    decreases k,
{
    if k <= 0 {
        -1
    } else if is_boundary(chars[start + k - 1], sentence) {
        k - 1
    } else {
        last_boundary(chars, start, k - 1, sentence)
    }
}

/// Where the window starting at `start` ends.
///
/// The last window runs to the end. Any other backs off to the last sentence
/// end in its second half, then to the last white space there, and otherwise
/// cuts where the window says.
pub open spec fn cut_end(chars: Seq<char>, start: int) -> int {
    let n = chars.len() as int;
    if start + WINDOW >= n {
        n
    } else {
        let b = last_boundary(chars, start, WINDOW as int, true);
        let w = last_boundary(chars, start, WINDOW as int, false);
        if b > (WINDOW / 2) as int {
            start + b + 1
        } else if w > (WINDOW / 2) as int {
            start + w + 1
        } else {
            start + WINDOW
        }
    }
}

/// Where the next window starts: `OVERLAP` characters before the last one
/// ended, and always after where the last one started.
pub open spec fn next_start(start: int, end: int) -> int {
    let back = if end >= OVERLAP as int {
        end - OVERLAP
    } else {
        0
    };
    if back > start + 1 {
        back
    } else {
        start + 1
    }
}

/// The trimmed, non-empty window texts from `start` on.
pub open spec fn windows_from(chars: Seq<char>, start: int) -> Seq<Seq<char>>
    decreases chars.len() - start,
{
    if start < 0 || start >= chars.len() {
        seq![]
    } else {
        let end = cut_end(chars, start);
        let piece = trim_seq(chars.subrange(start, end));
        let here = if piece.len() > 0 {
            seq![piece]
        } else {
            seq![]
        };
        if end >= chars.len() || end <= start {
            here
        } else {
            here + windows_from(chars, next_start(start, end))
        }
    }
}

/// The texts `windows` cuts from `text`.
pub open spec fn window_texts(text: Seq<char>) -> Seq<Seq<char>> {
    let t = trim_seq(text);
    if t.len() == 0 {
        seq![]
    } else {
        windows_from(t, 0)
    }
}

proof fn lemma_last_boundary(chars: Seq<char>, start: int, k: int, sentence: bool)
    requires
        0 <= start,
        0 <= k,
        start + k <= chars.len(),
    ensures
        -1 <= last_boundary(chars, start, k, sentence) < k,
        last_boundary(chars, start, k, sentence) >= 0 ==> is_boundary(
            chars[start + last_boundary(chars, start, k, sentence)],
            sentence,
        ),
        forall|j: int|
            last_boundary(chars, start, k, sentence) < j < k ==> !is_boundary(
                #[trigger] chars[start + j],
                sentence,
            ),
    decreases k,
{
    if k > 0 && !is_boundary(chars[start + k - 1], sentence) {
        lemma_last_boundary(chars, start, k - 1, sentence);
    }
}

proof fn lemma_cut_end(chars: Seq<char>, start: int)
    requires
        0 <= start < chars.len(),
    ensures
        start < cut_end(chars, start) <= chars.len(),
        cut_end(chars, start) <= start + WINDOW,
{
    if start + WINDOW < chars.len() {
        lemma_last_boundary(chars, start, WINDOW as int, true);
        lemma_last_boundary(chars, start, WINDOW as int, false);
    }
}

/// Every window is non-empty, at most `WINDOW` long and trimmed, and there are
/// no more windows than characters left.
pub proof fn lemma_windows_from(chars: Seq<char>, start: int)
    requires
        0 <= start,
    ensures
        windows_from(chars, start).len() <= if start < chars.len() {
            chars.len() - start
        } else {
            0
        },
        forall|i: int|
            0 <= i < windows_from(chars, start).len() ==> 0 < (#[trigger] windows_from(
                chars,
                start,
            )[i]).len() <= WINDOW,
        forall|i: int|
            0 <= i < windows_from(chars, start).len() ==> trim_seq(
                #[trigger] windows_from(chars, start)[i],
            ) == windows_from(chars, start)[i],
    decreases chars.len() - start,
{
    if start < chars.len() {
        lemma_cut_end(chars, start);
        let end = cut_end(chars, start);
        let piece = trim_seq(chars.subrange(start, end));
        lemma_trim_ends(chars.subrange(start, end));
        lemma_trim_of_trimmed(piece);
        if end < chars.len() {
            lemma_windows_from(chars, next_start(start, end));
            let rest = windows_from(chars, next_start(start, end));
            let here = if piece.len() > 0 {
                seq![piece]
            } else {
                seq![]
            };
            assert forall|i: int|
                0 <= i < windows_from(chars, start).len() implies 0 < (#[trigger] windows_from(
                chars,
                start,
            )[i]).len() <= WINDOW && trim_seq(windows_from(chars, start)[i]) == windows_from(
                chars,
                start,
            )[i] by {
                if i >= here.len() {
                    assert(windows_from(chars, start)[i] == rest[i - here.len()]);
                }
            }
        }
    }
}

/// Every text `windows` cuts is non-empty, trimmed, and at most `WINDOW`
/// characters; there are no more of them than characters in the text.
pub proof fn lemma_window_texts(text: Seq<char>)
    ensures
        window_texts(text).len() <= text.len(),
        forall|i: int|
            0 <= i < window_texts(text).len() ==> 0 < (#[trigger] window_texts(text)[i]).len()
                <= WINDOW,
        forall|i: int|
            0 <= i < window_texts(text).len() ==> trim_seq(#[trigger] window_texts(text)[i])
                == window_texts(text)[i],
{
    lemma_trim_ends(text);
    lemma_windows_from(trim_seq(text), 0);
}

fn last_boundary_exec(t: &Vec<char>, start: usize, k: usize, sentence: bool) -> (r: Option<
    usize,
>)
    requires
        start + k <= t@.len(),
    ensures
        match r {
            Some(i) => i == last_boundary(t@, start as int, k as int, sentence),
            None => last_boundary(t@, start as int, k as int, sentence) == -1,
        },
{
    let len = t.len();
    let mut j = k;
    while j > 0
        invariant
            j <= k,
            len == t@.len(),
            start + k <= t@.len(),
            last_boundary(t@, start as int, k as int, sentence) == last_boundary(
                t@,
                start as int,
                j as int,
                sentence,
            ),
        decreases j,
    {
        let c = t[start + j - 1];
        let hit = if sentence {
            c == '.' || c == '\n'
        } else {
            is_white_space(c)
        };
        if hit {
            return Some(j - 1);
        }
        j -= 1;
    }
    None
}

/// The texts one section's text is cut into: overlapping windows.
///
/// The text is trimmed first. A window backs off from its edge to the last
/// sentence end, then to the last white space, so a passage does not begin or
/// end mid word; consecutive windows overlap by `OVERLAP` characters so a fact
/// that straddles a boundary is findable from either side.
pub fn window_strings(text: &str) -> (out: Vec<String>)
    ensures
        string_views(out@) == window_texts(text@),
        out@.len() <= text@.len(),
{
    proof {
        lemma_window_texts(text@);
        lemma_trim_ends(text@);
    }
    let all = chars_of(text);
    let (lo, hi) = trim_bounds(&all, 0, all.len());
    assert(all@.subrange(0, all@.len() as int) == all@);
    let t = sub_vec(&all, lo, hi);
    let n = t.len();
    let mut out: Vec<String> = Vec::new();
    if n == 0 {
        return out;
    }
    if n <= WINDOW {
        proof {
            lemma_trim_of_trimmed(t@);
            assert(t@.subrange(0, n as int) == t@);
        }
        out.push(string_of(&t));
        return out;
    }
    let ghost whole = windows_from(t@, 0);
    let ghost mut produced: Seq<Seq<char>> = seq![];
    let mut start: usize = 0;
    let mut finished = false;
    proof {
        lemma_windows_from(t@, 0);
    }
    while !finished
        invariant
            n == t@.len(),
            n <= text@.len(),
            t@ == trim_seq(text@),
            whole == windows_from(t@, 0),
            whole == window_texts(text@),
            whole.len() <= n,
            start < n,
            produced + (if finished {
                seq![]
            } else {
                windows_from(t@, start as int)
            }) == whole,
            string_views(out@) == produced,
        decreases (n - start) * 2 + if finished {
            0int
        } else {
            1int
        },
    {
        proof {
            lemma_cut_end(t@, start as int);
            lemma_windows_from(t@, start as int);
        }
        let hard_end = if n - start > WINDOW {
            start + WINDOW
        } else {
            n
        };
        let end = if hard_end == n {
            n
        } else {
            let b = last_boundary_exec(&t, start, WINDOW, true);
            let w = last_boundary_exec(&t, start, WINDOW, false);
            match b {
                Some(i) if i > WINDOW / 2 => start + i + 1,
                _ => match w {
                    Some(i) if i > WINDOW / 2 => start + i + 1,
                    _ => hard_end,
                },
            }
        };
        assert(end == cut_end(t@, start as int));
        let (plo, phi) = trim_bounds(&t, start, end);
        let ghost here: Seq<Seq<char>> = if phi > plo {
            seq![t@.subrange(plo as int, phi as int)]
        } else {
            seq![]
        };
        let ghost rest = if end >= n {
            seq![]
        } else {
            windows_from(t@, next_start(start as int, end as int))
        };
        assert(windows_from(t@, start as int) == here + rest);
        if plo < phi {
            proof {
                assert((produced + here + rest).len() == whole.len());
            }
            let ghost before = out@;
            out.push(string_of_range(&t, plo, phi));
            assert(out@.drop_last() == before);
            assert(string_views(out@) == string_views(before).push(out@.last()@));
        }
        proof {
            produced = produced + here;
            assert(produced + rest == whole);
        }
        if end >= n {
            finished = true;
        } else {
            let back = if end >= OVERLAP {
                end - OVERLAP
            } else {
                0
            };
            start = if back > start + 1 {
                back
            } else {
                start + 1
            };
        }
    }
    out
}


/// Cut one section's text into overlapping windows, numbered from
/// `start_sequence`.
pub fn windows(text: &str, location: &ChunkLocation, start_sequence: usize) -> (out: Vec<Chunk>)
    requires
        start_sequence + window_texts(text@).len() <= usize::MAX + 1,
    ensures
        chunks_are(out@, window_texts(text@), *location, start_sequence as int),
        out@.len() <= text@.len(),
        forall|i: int| 0 <= i < out@.len() ==> 0 < (#[trigger] out@[i]).text@.len() <= WINDOW,
        trim_seq(text@).len() == 0 ==> out@.len() == 0,
        0 < trim_seq(text@).len() <= WINDOW ==> out@.len() == 1 && out@[0].text@ == trim_seq(
            text@,
        ),
{
    proof {
        lemma_window_texts(text@);
        lemma_trim_ends(text@);
        if 0 < trim_seq(text@).len() <= WINDOW {
            lemma_trim_of_trimmed(trim_seq(text@));
            assert(trim_seq(text@).subrange(0, trim_seq(text@).len() as int) == trim_seq(text@));
        }
    }
    let texts = window_strings(text);
    let mut out: Vec<Chunk> = Vec::new();
    let mut i: usize = 0;
    while i < texts.len()
        invariant
            i <= texts@.len(),
            string_views(texts@) == window_texts(text@),
            texts@.len() <= text@.len(),
            start_sequence + texts@.len() <= usize::MAX + 1,
            chunks_are(out@, window_texts(text@).take(i as int), *location, start_sequence as int),
        decreases texts@.len() - i,
    {
        assert(string_views(texts@)[i as int] == texts@[i as int]@);
        out.push(Chunk::new(texts[i].clone(), location.duplicate(), start_sequence + i));
        i += 1;
    }
    assert(window_texts(text@).take(texts@.len() as int) == window_texts(text@));
    out
}

/// What a chunk says apart from its number: its text and where it came from.
pub open spec fn text_and_place(c: Chunk) -> (Seq<char>, Place) {
    (c.text@, c.location@)
}

/// Each text at `place`.
pub open spec fn placed(texts: Seq<Seq<char>>, place: Place) -> Seq<(Seq<char>, Place)> {
    texts.map_values(|t: Seq<char>| (t, place))
}

/// Every chunk holds text, and no more than a window of it.
pub open spec fn within_window(chunks: Seq<Chunk>) -> bool {
    forall|i: int| 0 <= i < chunks.len() ==> 0 < (#[trigger] chunks[i]).text@.len() <= WINDOW
}

/// Chunks numbered by their position: the i-th has sequence i.
pub open spec fn numbered_in_order(chunks: Seq<Chunk>) -> bool {
    forall|i: int| 0 <= i < chunks.len() ==> (#[trigger] chunks[i]).sequence == i
}

/// Chunks numbered by position never share a sequence number.
pub proof fn lemma_numbered_are_distinct(chunks: Seq<Chunk>)
    requires
        numbered_in_order(chunks),
    ensures
        forall|i: int, j: int|
            0 <= i < chunks.len() && 0 <= j < chunks.len() && i != j ==> (#[trigger] chunks[i]).sequence
                != (#[trigger] chunks[j]).sequence,
{
}

/// The texts and places of `chunks`, in order.
pub open spec fn placements(chunks: Seq<Chunk>) -> Seq<(Seq<char>, Place)> {
    chunks.map_values(|c: Chunk| text_and_place(c))
}

/// Append the windows of `text` at `location`, continuing the numbering.
pub fn append_windows(out: &mut Vec<Chunk>, text: &str, location: &ChunkLocation)
    requires
        numbered_in_order(old(out)@),
    ensures
        numbered_in_order(final(out)@),
        placements(final(out)@) == placements(old(out)@) + placed(window_texts(text@), location@),
        forall|i: int|
            old(out)@.len() <= i < final(out)@.len() ==> 0 < (#[trigger] final(out)@[i]).text@.len()
                <= WINDOW,
        final(out)@.len() >= old(out)@.len(),
        forall|i: int| 0 <= i < old(out)@.len() ==> #[trigger] final(out)@[i] == old(out)@[i],
{
    proof {
        lemma_window_texts(text@);
    }
    let texts = window_strings(text);
    let ghost start = out@;
    let mut i: usize = 0;
    while i < texts.len()
        invariant
            i <= texts@.len(),
            string_views(texts@) == window_texts(text@),
            forall|k: int| 0 <= k < window_texts(text@).len() ==> 0 < (#[trigger] window_texts(text@)[k]).len() <= WINDOW,
            numbered_in_order(out@),
            out@.len() == start.len() + i,
            forall|k: int| 0 <= k < start.len() ==> #[trigger] out@[k] == start[k],
            placements(out@) == placements(start) + placed(window_texts(text@).take(i as int), location@),
            forall|k: int|
                start.len() <= k < out@.len() ==> 0 < (#[trigger] out@[k]).text@.len() <= WINDOW,
        decreases texts@.len() - i,
    {
        assert(string_views(texts@)[i as int] == texts@[i as int]@);
        let ghost before = out@;
        let n = out.len();
        out.push(Chunk::new(texts[i].clone(), location.duplicate(), n));
        assert(out@.drop_last() == before);
        assert(placements(out@) == placements(before).push(text_and_place(out@.last())));
        assert(window_texts(text@).take(i + 1) == window_texts(text@).take(i as int).push(window_texts(text@)[i as int]));
        assert(placed(window_texts(text@).take(i + 1), location@) == placed(window_texts(text@).take(i as int), location@).push((window_texts(text@)[i as int], location@)));
        i += 1;
    }
    assert(window_texts(text@).take(texts@.len() as int) == window_texts(text@));
}

/// The pieces a text of any length is split into so that none is over the cap.
pub open spec fn cap_pieces(s: Seq<char>) -> Seq<Seq<char>>
    decreases s.len(),
{
    if s.len() <= MAX_PASSAGE_CHARS {
        seq![s]
    } else {
        seq![s.take(MAX_PASSAGE_CHARS as int)] + cap_pieces(s.skip(MAX_PASSAGE_CHARS as int))
    }
}

/// The chunks `enforce_cap` makes of `chunks`: every piece keeps its chunk's
/// location, and the i-th piece of a chunk is numbered its sequence plus i.
pub open spec fn capped(chunks: Seq<Chunk>) -> Seq<(Seq<char>, ChunkLocation, int)>
    decreases chunks.len(),
{
    if chunks.len() == 0 {
        seq![]
    } else {
        let c = chunks[0];
        cap_pieces(c.text@).map(|i: int, p: Seq<char>| piece_at(c, i, p)) + capped(
            chunks.drop_first(),
        )
    }
}

/// What a chunk says, as plain values: its text, location and sequence.
pub open spec fn chunk_view(c: Chunk) -> (Seq<char>, ChunkLocation, int) {
    (c.text@, c.location, c.sequence as int)
}

/// The pieces of one chunk, each at its location and numbered from its
/// sequence.
pub open spec fn pieces_of(c: Chunk) -> Seq<(Seq<char>, ChunkLocation, int)> {
    cap_pieces(c.text@).map(|i: int, p: Seq<char>| piece_at(c, i, p))
}

/// The i-th piece `p` of chunk `c`.
pub open spec fn piece_at(c: Chunk, i: int, p: Seq<char>) -> (Seq<char>, ChunkLocation, int) {
    (p, c.location, c.sequence + i)
}

proof fn lemma_capped_push(s: Seq<Chunk>, c: Chunk)
    ensures
        capped(s.push(c)) == capped(s) + pieces_of(c),
    decreases s.len(),
{
    if s.len() == 0 {
        assert(s.push(c).drop_first() == s);
        assert(capped(s.push(c)) == pieces_of(c) + capped(s));
    } else {
        assert(s.push(c).drop_first() == s.drop_first().push(c));
        lemma_capped_push(s.drop_first(), c);
    }
}

proof fn lemma_cap_pieces(s: Seq<char>)
    ensures
        cap_pieces(s).len() >= 1,
        forall|i: int|
            0 <= i < cap_pieces(s).len() ==> (#[trigger] cap_pieces(s)[i]).len()
                <= MAX_PASSAGE_CHARS,
    decreases s.len(),
{
    if s.len() > MAX_PASSAGE_CHARS {
        lemma_cap_pieces(s.skip(MAX_PASSAGE_CHARS as int));
        let rest = cap_pieces(s.skip(MAX_PASSAGE_CHARS as int));
        assert forall|i: int|
            0 <= i < cap_pieces(s).len() implies (#[trigger] cap_pieces(s)[i]).len()
            <= MAX_PASSAGE_CHARS by {
            if i > 0 {
                assert(cap_pieces(s)[i] == rest[i - 1]);
            }
        }
    }
}

/// Every chunk `enforce_cap` produces is at most `MAX_PASSAGE_CHARS` long.
pub proof fn lemma_capped_within_cap(chunks: Seq<Chunk>)
    ensures
        forall|i: int|
            0 <= i < capped(chunks).len() ==> (#[trigger] capped(chunks)[i]).0.len()
                <= MAX_PASSAGE_CHARS,
    decreases chunks.len(),
{
    if chunks.len() > 0 {
        lemma_capped_within_cap(chunks.drop_first());
        lemma_cap_pieces(chunks[0].text@);
        let here = pieces_of(chunks[0]);
        let rest = capped(chunks.drop_first());
        assert forall|i: int|
            0 <= i < capped(chunks).len() implies (#[trigger] capped(chunks)[i]).0.len()
            <= MAX_PASSAGE_CHARS by {
            if i < here.len() {
                assert(capped(chunks)[i] == here[i]);
                assert(here[i].0 == cap_pieces(chunks[0].text@)[i]);
            } else {
                assert(capped(chunks)[i] == rest[i - here.len()]);
            }
        }
    }
}

/// The pieces a text is cut into put it back together in order; every piece
/// but the last holds exactly `MAX_PASSAGE_CHARS` characters, and the last
/// holds at most that many, and some unless the text is empty. A text of `n`
/// characters makes n / `MAX_PASSAGE_CHARS` pieces, rounded up.
pub proof fn lemma_cap_pieces_shape(s: Seq<char>)
    ensures
        cap_pieces(s).flatten() == s,
        cap_pieces(s).len() >= 1,
        forall|i: int|
            0 <= i < cap_pieces(s).len() - 1 ==> (#[trigger] cap_pieces(s)[i]).len()
                == MAX_PASSAGE_CHARS,
        0 < cap_pieces(s).last().len() <= MAX_PASSAGE_CHARS || s.len() == 0,
        cap_pieces(s).last().len() <= MAX_PASSAGE_CHARS,
        s.len() > 0 ==> cap_pieces(s).len() == (s.len() + MAX_PASSAGE_CHARS - 1) / MAX_PASSAGE_CHARS as int,
    decreases s.len(),
{
    if s.len() > MAX_PASSAGE_CHARS {
        let rest = s.skip(MAX_PASSAGE_CHARS as int);
        lemma_cap_pieces_shape(rest);
        let r = rest.len() as int;
        assert((r + MAX_PASSAGE_CHARS - 1) / MAX_PASSAGE_CHARS as int + 1 == (r + MAX_PASSAGE_CHARS
            + MAX_PASSAGE_CHARS - 1) / MAX_PASSAGE_CHARS as int) by (nonlinear_arith)
            requires
                r > 0,
        ;
        let p = cap_pieces(s);
        assert(p == seq![s.take(MAX_PASSAGE_CHARS as int)] + cap_pieces(rest));
        assert(p.drop_first() == cap_pieces(rest));
        assert(p.first() == s.take(MAX_PASSAGE_CHARS as int));
        assert(s == s.take(MAX_PASSAGE_CHARS as int) + rest);
        assert forall|i: int| 0 <= i < p.len() - 1 implies (#[trigger] p[i]).len()
            == MAX_PASSAGE_CHARS by {
            if i > 0 {
                assert(p[i] == cap_pieces(rest)[i - 1]);
            }
        }
        assert(p.last() == cap_pieces(rest).last());
    } else {
        let p = cap_pieces(s);
        assert(p == seq![s]);
        let n = s.len() as int;
        assert(n > 0 ==> (n + MAX_PASSAGE_CHARS - 1) / MAX_PASSAGE_CHARS as int == 1) by (nonlinear_arith)
            requires
                n <= MAX_PASSAGE_CHARS,
        ;
        assert(p.drop_first() == Seq::<Seq<char>>::empty());
        assert(p.flatten() == s + Seq::<Seq<char>>::empty().flatten());
        assert(s + Seq::<char>::empty() == s);
    }
}

/// Capping twice is capping once: what `enforce_cap` gives is within the cap,
/// so capping it again changes nothing.
pub proof fn lemma_cap_twice(chunks: Seq<Chunk>, out: Seq<Chunk>)
    requires
        out.map(|i: int, c: Chunk| chunk_view(c)) == capped(chunks),
    ensures
        capped(out) == capped(chunks),
{
    lemma_capped_within_cap(chunks);
    assert forall|i: int| 0 <= i < out.len() implies (#[trigger] out[i]).text@.len()
        <= MAX_PASSAGE_CHARS by {
        assert(out.map(|i: int, c: Chunk| chunk_view(c))[i] == chunk_view(out[i]));
        assert(capped(chunks)[i].0 == out[i].text@);
    }
    lemma_cap_keeps_short(out);
}

/// What numbering the pieces of an over-long chunk asks: its sequence plus its
/// length stays within `usize`.
pub open spec fn cap_numbering_fits(chunks: Seq<Chunk>) -> bool {
    forall|i: int|
        0 <= i < chunks.len() && (#[trigger] chunks[i]).text@.len() > MAX_PASSAGE_CHARS
            ==> chunks[i].sequence + chunks[i].text@.len() <= usize::MAX
}

/// Whether `enforce_cap` can number the pieces of these chunks.
pub fn cap_fits(chunks: &Vec<Chunk>) -> (b: bool)
    ensures
        b == cap_numbering_fits(chunks@),
{
    let mut i: usize = 0;
    while i < chunks.len()
        invariant
            i <= chunks@.len(),
            forall|j: int|
                0 <= j < i && (#[trigger] chunks@[j]).text@.len() > MAX_PASSAGE_CHARS
                    ==> chunks@[j].sequence + chunks@[j].text@.len() <= usize::MAX,
        decreases chunks@.len() - i,
    {
        let len = chars_of(chunks[i].text.as_str()).len();
        if len > MAX_PASSAGE_CHARS && chunks[i].sequence > usize::MAX - len {
            return false;
        }
        i += 1;
    }
    true
}

/// Capping changes nothing when every chunk is within the cap.
pub proof fn lemma_cap_keeps_short(chunks: Seq<Chunk>)
    requires
        forall|i: int| 0 <= i < chunks.len() ==> (#[trigger] chunks[i]).text@.len() <= MAX_PASSAGE_CHARS,
    ensures
        capped(chunks) == chunks.map(|i: int, c: Chunk| chunk_view(c)),
    decreases chunks.len(),
{
    if chunks.len() > 0 {
        let rest = chunks.drop_first();
        assert forall|i: int| 0 <= i < rest.len() implies (#[trigger] rest[i]).text@.len()
            <= MAX_PASSAGE_CHARS by {
            assert(rest[i] == chunks[i + 1]);
        }
        lemma_cap_keeps_short(rest);
        let c = chunks[0];
        assert(cap_pieces(c.text@) == seq![c.text@]);
        assert(pieces_of(c) == seq![chunk_view(c)]);
        assert(capped(chunks) == pieces_of(c) + capped(rest));
        assert(chunks.map(|i: int, c: Chunk| chunk_view(c)) == seq![chunk_view(c)] + rest.map(
            |i: int, c: Chunk| chunk_view(c),
        ));
    }
}

/// Two lists of chunks with the same texts, places and numbers agree on
/// everything said of them as such.
pub proof fn lemma_same_views(a: Seq<Chunk>, b: Seq<Chunk>)
    requires
        a.map(|i: int, c: Chunk| chunk_view(c)) == b.map(|i: int, c: Chunk| chunk_view(c)),
    ensures
        placements(a) == placements(b),
        numbered_in_order(a) == numbered_in_order(b),
        within_window(a) == within_window(b),
{
    assert(a.len() == a.map(|i: int, c: Chunk| chunk_view(c)).len());
    assert forall|i: int| 0 <= i < a.len() implies #[trigger] chunk_view(a[i]) == chunk_view(b[i]) by {
        assert(a.map(|i: int, c: Chunk| chunk_view(c))[i] == chunk_view(a[i]));
        assert(b.map(|i: int, c: Chunk| chunk_view(c))[i] == chunk_view(b[i]));
    }
    assert forall|i: int| 0 <= i < a.len() implies #[trigger] placements(a)[i] == placements(b)[i] by {
        assert(chunk_view(a[i]) == chunk_view(b[i]));
    }
    assert(placements(a) =~= placements(b));
    assert(numbered_in_order(a) == numbered_in_order(b)) by {
        if numbered_in_order(a) {
            assert forall|i: int| 0 <= i < b.len() implies (#[trigger] b[i]).sequence == i by {
                assert(chunk_view(a[i]) == chunk_view(b[i]));
            }
        }
        if numbered_in_order(b) {
            assert forall|i: int| 0 <= i < a.len() implies (#[trigger] a[i]).sequence == i by {
                assert(chunk_view(a[i]) == chunk_view(b[i]));
            }
        }
    }
    assert(within_window(a) == within_window(b)) by {
        if within_window(a) {
            assert forall|i: int| 0 <= i < b.len() implies 0 < (#[trigger] b[i]).text@.len() <= WINDOW by {
                assert(chunk_view(a[i]) == chunk_view(b[i]));
            }
        }
        if within_window(b) {
            assert forall|i: int| 0 <= i < a.len() implies 0 < (#[trigger] a[i]).text@.len() <= WINDOW by {
                assert(chunk_view(a[i]) == chunk_view(b[i]));
            }
        }
    }
}

/// Cap chunks that are all within a window: nothing changes.
pub fn cap_windows(chunks: Vec<Chunk>) -> (out: Vec<Chunk>)
    requires
        within_window(chunks@),
    ensures
        out@.map(|i: int, c: Chunk| chunk_view(c)) == chunks@.map(|i: int, c: Chunk| chunk_view(c)),
        out@.len() == chunks@.len(),
        placements(out@) == placements(chunks@),
        numbered_in_order(out@) == numbered_in_order(chunks@),
        within_window(out@),
{
    proof {
        assert forall|i: int| 0 <= i < chunks@.len() implies (#[trigger] chunks@[i]).text@.len()
            <= MAX_PASSAGE_CHARS by {}
        lemma_cap_keeps_short(chunks@);
    }
    let ghost before = chunks@;
    let out = enforce_cap(chunks);
    proof {
        lemma_same_views(out@, before);
        assert(out@.len() == out@.map(|i: int, c: Chunk| chunk_view(c)).len());
        assert(before.len() == before.map(|i: int, c: Chunk| chunk_view(c)).len());
    }
    out
}

/// Split anything still over the hard cap.
///
/// A chunk within the cap passes through unchanged; a longer one becomes
/// consecutive pieces of `MAX_PASSAGE_CHARS` characters and a shorter last
/// piece, each keeping the chunk's location, numbered from its sequence.
pub fn enforce_cap(chunks: Vec<Chunk>) -> (out: Vec<Chunk>)
    requires
        cap_numbering_fits(chunks@),
    ensures
        out@.map(|i: int, c: Chunk| chunk_view(c)) == capped(chunks@),
        forall|i: int|
            0 <= i < out@.len() ==> (#[trigger] out@[i]).text@.len() <= MAX_PASSAGE_CHARS,
{
    let mut out: Vec<Chunk> = Vec::new();
    let mut i: usize = 0;
    while i < chunks.len()
        invariant
            i <= chunks@.len(),
            out@.map(|i: int, c: Chunk| chunk_view(c)) == capped(chunks@.take(i as int)),
            forall|j: int|
                0 <= j < chunks@.len() && (#[trigger] chunks@[j]).text@.len() > MAX_PASSAGE_CHARS
                    ==> chunks@[j].sequence + chunks@[j].text@.len() <= usize::MAX,
        decreases chunks@.len() - i,
    {
        let chunk = &chunks[i];
        let text = chars_of(chunk.text.as_str());
        let len = text.len();
        let ghost g = |j: int, p: Seq<char>| piece_at(*chunk, j, p);
        let ghost before = out@.map(|i: int, c: Chunk| chunk_view(c));
        let mut p: usize = 0;
        let mut k: usize = 0;
        let mut done = false;
        let ghost mut taken: int = 0;
        proof {
            assert(text@.skip(0) == text@);
            assert(cap_pieces(text@).take(0) == Seq::<Seq<char>>::empty());
        }
        while !done
            invariant
                len == text@.len(),
                g == (|j: int, p: Seq<char>| piece_at(*chunk, j, p)),
                text@ == chunk.text@,
                chunk == chunks@[i as int],
                len > MAX_PASSAGE_CHARS ==> chunk.sequence + len <= usize::MAX,
                k > 0 ==> len > MAX_PASSAGE_CHARS,
                p <= len,
                !done ==> k <= p,
                out@.len() == before.len() + taken,
                taken == if done {
                    k + 1
                } else {
                    k as int
                },
                done ==> taken == cap_pieces(text@).len(),
                !done ==> k < cap_pieces(text@).len(),
                !done ==> cap_pieces(text@) == cap_pieces(text@).take(k as int) + cap_pieces(
                    text@.skip(p as int),
                ),
                out@.map(|i: int, c: Chunk| chunk_view(c)) == before + cap_pieces(text@).take(
                    taken,
                ).map(g),
            decreases len - p + if done {
                0int
            } else {
                1int
            },
        {
            let ghost pieces = cap_pieces(text@);
            let ghost old_out = out@;
            if len - p <= MAX_PASSAGE_CHARS {
                assert(pieces[k as int] == text@.skip(p as int));
                assert(text@.subrange(p as int, len as int) == text@.skip(p as int));
                out.push(
                    Chunk::new(
                        string_of_range(&text, p, len),
                        chunk.location.duplicate(),
                        chunk.sequence + k,
                    ),
                );
                assert(pieces.take(k + 1) == pieces.take(k as int).push(pieces[k as int]));
                assert(out@.map(|i: int, c: Chunk| chunk_view(c)) == old_out.map(
                    |i: int, c: Chunk| chunk_view(c),
                ).push(chunk_view(out@[k as int + before.len()])));
                assert(pieces.take(k + 1).map(g) == pieces.take(k as int).map(g).push(
                    g(k as int, pieces[k as int]),
                ));
                assert(out@[k as int + before.len()].text@ == pieces[k as int]);
                assert(out@[k as int + before.len()].location == chunk.location);
                assert(out@[k as int + before.len()].sequence == chunk.sequence + k);
                assert(chunk_view(out@[k as int + before.len()]) == g(k as int, pieces[k as int]));
                assert((before + pieces.take(k as int).map(g)).push(g(k as int, pieces[k as int]))
                    == before + pieces.take(k as int).map(g).push(g(k as int, pieces[k as int])));
                p = len;
                proof {
                    taken = k + 1;
                }
                done = true;
            } else {
                let ghost rest = text@.skip(p as int);
                assert(cap_pieces(rest) == seq![rest.take(MAX_PASSAGE_CHARS as int)] + cap_pieces(
                    rest.skip(MAX_PASSAGE_CHARS as int),
                ));
                assert(rest.skip(MAX_PASSAGE_CHARS as int) == text@.skip(p + MAX_PASSAGE_CHARS));
                assert(pieces[k as int] == rest.take(MAX_PASSAGE_CHARS as int));
                assert(text@.subrange(p as int, p + MAX_PASSAGE_CHARS) == rest.take(
                    MAX_PASSAGE_CHARS as int,
                ));
                out.push(
                    Chunk::new(
                        string_of_range(&text, p, p + MAX_PASSAGE_CHARS),
                        chunk.location.duplicate(),
                        chunk.sequence + k,
                    ),
                );
                assert(pieces.take(k + 1) == pieces.take(k as int).push(pieces[k as int]));
                assert(pieces.take(k + 1).map(g) == pieces.take(k as int).map(g).push(
                    g(k as int, pieces[k as int]),
                ));
                assert(out@[k as int + before.len()].text@ == pieces[k as int]);
                assert(out@[k as int + before.len()].location == chunk.location);
                assert(out@[k as int + before.len()].sequence == chunk.sequence + k);
                assert(chunk_view(out@[k as int + before.len()]) == g(k as int, pieces[k as int]));
                assert((before + pieces.take(k as int).map(g)).push(g(k as int, pieces[k as int]))
                    == before + pieces.take(k as int).map(g).push(g(k as int, pieces[k as int])));
                assert(out@.map(|i: int, c: Chunk| chunk_view(c)) == old_out.map(
                    |i: int, c: Chunk| chunk_view(c),
                ).push(chunk_view(out@[k as int + before.len()])));
                assert(pieces == pieces.take(k + 1) + cap_pieces(text@.skip(p + MAX_PASSAGE_CHARS)));
                p = p + MAX_PASSAGE_CHARS;
                k = k + 1;
                proof {
                    taken = k as int;
                }
            }
        }
        proof {
            assert(cap_pieces(text@).take(taken) == cap_pieces(text@));
            assert(chunks@.take(i + 1) == chunks@.take(i as int).push(chunks@[i as int]));
            lemma_capped_push(chunks@.take(i as int), chunks@[i as int]);
        }
        i += 1;
    }
    proof {
        assert(chunks@.take(chunks@.len() as int) == chunks@);
        lemma_capped_within_cap(chunks@);
        assert forall|j: int| 0 <= j < out@.len() implies (#[trigger] out@[j]).text@.len()
            <= MAX_PASSAGE_CHARS by {
            assert(out@.map(|i: int, c: Chunk| chunk_view(c))[j] == chunk_view(out@[j]));
        }
    }
    out
}

/// A window that is not the last ends on a boundary in its second half when
/// it can: just after the last sentence end there; failing that, just after
/// the last white space there, so it never ends mid word; and it is cut at
/// `WINDOW` characters only when its second half has neither.
pub proof fn lemma_window_ends_on_a_boundary(chars: Seq<char>, start: int)
    requires
        0 <= start,
        start + WINDOW < chars.len(),
    ensures
        (exists|j: int| WINDOW / 2 < j < WINDOW && is_sentence_break(#[trigger] chars[start + j]))
            ==> {
            let e = cut_end(chars, start);
            &&& start + WINDOW / 2 + 1 < e <= start + WINDOW
            &&& is_sentence_break(chars[e - 1])
            &&& forall|k: int| e <= k < start + WINDOW ==> !is_sentence_break(#[trigger] chars[k])
        },
        (forall|j: int| WINDOW / 2 < j < WINDOW ==> !is_sentence_break(#[trigger] chars[start + j]))
            && (exists|j: int| WINDOW / 2 < j < WINDOW && white_space(#[trigger] chars[start + j]))
            ==> {
            let e = cut_end(chars, start);
            &&& start + WINDOW / 2 + 1 < e <= start + WINDOW
            &&& white_space(chars[e - 1])
            &&& forall|k: int| e <= k < start + WINDOW ==> !white_space(#[trigger] chars[k])
        },
        (forall|j: int|
            WINDOW / 2 < j < WINDOW ==> !is_sentence_break(#[trigger] chars[start + j]) && !white_space(
                chars[start + j],
            )) ==> cut_end(chars, start) == start + WINDOW,
{
    lemma_last_boundary(chars, start, WINDOW as int, true);
    lemma_last_boundary(chars, start, WINDOW as int, false);
    let b = last_boundary(chars, start, WINDOW as int, true);
    let w = last_boundary(chars, start, WINDOW as int, false);
    if exists|j: int| WINDOW / 2 < j < WINDOW && is_sentence_break(#[trigger] chars[start + j]) {
        let j = choose|j: int| WINDOW / 2 < j < WINDOW && is_sentence_break(#[trigger] chars[start + j]);
        assert(is_boundary(chars[start + j], true));
        assert(b >= j);
        assert forall|k: int| cut_end(chars, start) <= k < start + WINDOW implies !is_sentence_break(
            #[trigger] chars[k],
        ) by {
            assert(!is_boundary(chars[start + (k - start)], true));
        }
    }
    if (forall|j: int| WINDOW / 2 < j < WINDOW ==> !is_sentence_break(#[trigger] chars[start + j])) {
        if b > (WINDOW / 2) as int {
            assert(is_sentence_break(chars[start + b]));
        }
        if exists|j: int| WINDOW / 2 < j < WINDOW && white_space(#[trigger] chars[start + j]) {
            let j = choose|j: int| WINDOW / 2 < j < WINDOW && white_space(#[trigger] chars[start + j]);
            assert(is_boundary(chars[start + j], false));
            assert(w >= j);
            assert forall|k: int| cut_end(chars, start) <= k < start + WINDOW implies !white_space(
                #[trigger] chars[k],
            ) by {
                assert(!is_boundary(chars[start + (k - start)], false));
            }
        }
    }
    if (forall|j: int|
        WINDOW / 2 < j < WINDOW ==> !is_sentence_break(#[trigger] chars[start + j]) && !white_space(
            chars[start + j],
        )) {
        if b > (WINDOW / 2) as int {
            assert(is_sentence_break(chars[start + b]));
        }
        if w > (WINDOW / 2) as int {
            assert(white_space(chars[start + w]));
        }
    }
}

} // verus!
