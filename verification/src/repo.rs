//! The shapes the repository layer reads and writes, and the rules it applies
//! that do not need the database: the dedupe key that makes two retrievals one
//! Source, and which provenance a person's history shows.
use vstd::prelude::*;

use crate::chars::{
    chars_of, lowercase, same_text, starts_with, starts_with_chars, string_of, sub_vec, to_lowercase,
    trim_seq, trim_string,
};
use crate::event::Source;

verus! {

pub struct NewBoard<'a> {
    pub profile_id: &'a str,
    pub title: &'a str,
    pub doctrine_pack_id: &'a str,
    pub default_depth: &'a str,
    pub named_by_user: bool,
    pub parent_board_id: Option<&'a str>,
    pub seed_label: Option<&'a str>,
    pub context: Option<&'a str>,
}

/// The doctrine pack a board pinned.
#[derive(Debug, Clone)]
pub struct PinnedPack {
    pub pack_id: String,
    pub code: String,
    pub version: String,
}

pub struct NewCard<'a> {
    pub board_id: &'a str,
    pub parent_card_id: Option<&'a str>,
    pub kind: &'a str,
    pub question: &'a str,
    pub depth: &'a str,
    pub anchor_text: Option<&'a str>,
    pub anchor_block_ref: Option<&'a str>,
    pub audience_id: Option<&'a str>,
}

/// Which card, on which board, produced by which run.
#[derive(Clone, Copy)]
pub struct CardRef<'a> {
    pub card_id: &'a str,
    pub board_id: &'a str,
    pub run_id: &'a str,
}

/// Who acted in a Learn session: the learner, or an agent (its id and the run
/// it decided in).
pub enum Actor<'a> {
    Learner,
    Agent(&'a str, &'a str),
}

/// An image and what the Reader's packet needs of it.
pub struct NewImage<'a> {
    pub board_id: &'a str,
    pub origin: &'a str,
    pub bytes: &'a [u8],
    pub mime: &'a str,
    pub width: u32,
    pub height: u32,
    pub source_ink_ids: Option<&'a str>,
}

/// One link out of a page, resolved.
#[derive(Debug, Clone, PartialEq, Eq)]
pub struct NewPageLink {
    /// `page`, `concept` or `unresolved`.
    pub target_kind: String,
    /// The row the link points at, or `None` when nothing carries that title.
    pub target_id: Option<String>,
    pub target_title: String,
    pub display_text: String,
    pub position: i64,
}

/// One link into something, with the page it came from.
#[derive(Debug, Clone)]
pub struct Backlink {
    pub page_id: String,
    pub page_title: String,
    pub display_text: String,
    pub position: i64,
}

/// A folder the profile watches.
#[derive(Debug, Clone)]
pub struct WatchedFolder {
    pub id: String,
    pub root: String,
    pub label: String,
    /// A sensitive folder keeps its text on this machine.
    pub sensitive: bool,
    /// `local` or `provider`.
    pub embeddings: String,
    pub last_indexed_at: Option<String>,
}

/// Where a retrieval assignment sits.
#[derive(Clone, Copy)]
pub struct RetrievalRef<'a> {
    pub run_id: &'a str,
    pub board_id: &'a str,
    pub card_id: &'a str,
    pub retriever_id: &'a str,
    pub sq_id: Option<&'a str>,
}

/// What persisting a retrieval produced.
#[derive(Debug, Clone)]
pub struct Retained {
    pub passage_ids: Vec<String>,
    pub source_ids: Vec<String>,
    pub sources_created: usize,
    pub sources_deduplicated: usize,
    /// Why each passage's source is stale, in passage order, or `None`.
    pub stale: Vec<Option<String>>,
}

impl Default for Retained {
    fn default() -> (r: Self)
        ensures
            r.passage_ids@.len() == 0,
            r.source_ids@.len() == 0,
            r.sources_created == 0,
            r.sources_deduplicated == 0,
            r.stale@.len() == 0,
    {
        Retained {
            passage_ids: Vec::new(),
            source_ids: Vec::new(),
            sources_created: 0,
            sources_deduplicated: 0,
            stale: Vec::new(),
        }
    }
}

/// Backslashes read as forward slashes.
pub open spec fn forward_slashes(s: Seq<char>) -> Seq<char> {
    s.map_values(|c: char| if c == '\\' { '/' } else { c })
}

/// `s` without its first `prefix` when it begins with it.
pub open spec fn without_prefix(s: Seq<char>, prefix: Seq<char>) -> Seq<char> {
    if starts_with(s, prefix) {
        s.skip(prefix.len() as int)
    } else {
        s
    }
}

/// How many characters come before the first `?` or `#`.
pub open spec fn query_start(s: Seq<char>) -> int
    decreases s.len(),
{
    if s.len() == 0 || s[0] == '?' || s[0] == '#' {
        0
    } else {
        1 + query_start(s.drop_first())
    }
}

/// `s` with every trailing `/` removed.
pub open spec fn without_trailing_slashes(s: Seq<char>) -> Seq<char>
    decreases s.len(),
{
    if s.len() > 0 && s.last() == '/' {
        without_trailing_slashes(s.drop_last())
    } else {
        s
    }
}

/// The dedupe key of a locator: trimmed and lowercased, backslashes as
/// slashes, without `https://` or `http://`, without a leading `www.`,
/// without query and fragment, and without trailing slashes.
pub open spec fn locator_key(locator: Seq<char>) -> Seq<char> {
    let a = forward_slashes(lowercase(trim_seq(locator)));
    let b = if starts_with(a, "https://"@) {
        without_prefix(a, "https://"@)
    } else {
        without_prefix(a, "http://"@)
    };
    let c = without_prefix(b, "www."@);
    without_trailing_slashes(c.take(query_start(c)))
}

proof fn lemma_query_start(s: Seq<char>)
    ensures
        0 <= query_start(s) <= s.len(),
        forall|i: int| 0 <= i < query_start(s) ==> s[i] != '?' && s[i] != '#',
        query_start(s) < s.len() ==> (s[query_start(s)] == '?' || s[query_start(s)] == '#'),
    decreases s.len(),
{
    if s.len() > 0 && s[0] != '?' && s[0] != '#' {
        lemma_query_start(s.drop_first());
        assert forall|i: int| 0 <= i < query_start(s) implies s[i] != '?' && s[i] != '#' by {
            if i > 0 {
                assert(s[i] == s.drop_first()[i - 1]);
            }
        }
    }
}

fn strip_prefix_vec(v: Vec<char>, prefix: &str) -> (r: Vec<char>)
    ensures
        r@ == without_prefix(v@, prefix@),
{
    let p = chars_of(prefix);
    if starts_with_chars(&v, &p) {
        let r = sub_vec(&v, p.len(), v.len());
        assert(v@.subrange(p@.len() as int, v@.len() as int) == v@.skip(p@.len() as int));
        r
    } else {
        v
    }
}

/// The dedupe key that makes two retrievals of one thing
/// a single Source.
///
/// Scheme, case, a leading `www.`, trailing slashes, a query string and a
/// fragment are all noise: a tracking parameter is the common way one page
/// arrives four times.
pub fn normalise_locator(locator: &str) -> (key: String)
    ensures
        key@ == locator_key(locator@),
{
    let trimmed = trim_string(locator);
    let lower = to_lowercase(trimmed.as_str());
    let chars = chars_of(lower.as_str());
    let mut a: Vec<char> = Vec::new();
    let mut i: usize = 0;
    while i < chars.len()
        invariant
            i <= chars@.len(),
            a@ == forward_slashes(chars@.take(i as int)),
        decreases chars@.len() - i,
    {
        let c = chars[i];
        a.push(if c == '\\' { '/' } else { c });
        assert(chars@.take(i + 1) == chars@.take(i as int).push(chars@[i as int]));
        i += 1;
    }
    assert(chars@.take(chars@.len() as int) == chars@);
    let https = chars_of("https://");
    let b = if starts_with_chars(&a, &https) {
        strip_prefix_vec(a, "https://")
    } else {
        strip_prefix_vec(a, "http://")
    };
    let c = strip_prefix_vec(b, "www.");
    let mut q: usize = 0;
    assert(c@.skip(0) == c@);
    while q < c.len() && c[q] != '?' && c[q] != '#'
        invariant
            q <= c@.len(),
            query_start(c@) == q + query_start(c@.skip(q as int)),
        decreases c@.len() - q,
    {
        assert(c@.skip(q as int).drop_first() == c@.skip(q + 1));
        q += 1;
    }
    proof {
        assert(c@.skip(q as int).len() == 0 || c@.skip(q as int)[0] == c@[q as int]);
    }
    let mut end = q;
    while end > 0 && c[end - 1] == '/'
        invariant
            end <= q <= c@.len(),
            without_trailing_slashes(c@.take(q as int)) == without_trailing_slashes(
                c@.take(end as int),
            ),
        decreases end,
    {
        assert(c@.take(end as int).drop_last() == c@.take(end - 1));
        end -= 1;
    }
    let key = sub_vec(&c, 0, end);
    assert(c@.subrange(0, end as int) == c@.take(end as int));
    string_of(&key)
}

/// Test provenance never reaches a user facing history view.
pub fn is_user_visible(source: Source) -> (b: bool)
    ensures
        b == (source == Source::Live || source == Source::Harness),
{
    match source {
        Source::Live | Source::Harness => true,
        _ => false,
    }
}


impl Retained {
    /// Account for one passage written: the source it landed on, whether
    /// that source was created or found under its dedupe key, why it is
    /// stale if it is, and the passage's id. A source id is listed once
    /// however many passages land on it.
    pub fn account(&mut self, source_id: String, created: bool, stale_reason: Option<String>, passage_id: String)
        requires
            old(self).sources_created < usize::MAX,
            old(self).sources_deduplicated < usize::MAX,
        ensures
            final(self).stale@ == old(self).stale@.push(stale_reason),
            final(self).passage_ids@ == old(self).passage_ids@.push(passage_id),
            crate::chars::string_views(old(self).source_ids@).contains(source_id@)
                ==> final(self).source_ids@ == old(self).source_ids@,
            !crate::chars::string_views(old(self).source_ids@).contains(source_id@)
                ==> final(self).source_ids@ == old(self).source_ids@.push(source_id),
            created ==> final(self).sources_created == old(self).sources_created + 1
                && final(self).sources_deduplicated == old(self).sources_deduplicated,
            !created ==> final(self).sources_deduplicated == old(self).sources_deduplicated + 1
                && final(self).sources_created == old(self).sources_created,
    {
        let listed = crate::chars::contains_text(&self.source_ids, source_id.as_str());
        self.stale.push(stale_reason);
        if created {
            self.sources_created = self.sources_created + 1;
        } else {
            self.sources_deduplicated = self.sources_deduplicated + 1;
        }
        self.passage_ids.push(passage_id);
        if listed {
            return;
        }
        self.source_ids.push(source_id);
    }
}

/// The text a passage row keeps: none when the passage is withheld. A
/// withheld passage keeps its location and loses its text, which is what
/// makes a citation into a sensitive folder checkable by the person who owns
/// the folder and useless to anyone a bundle reaches.
pub fn kept_text(text: &str, withheld: bool) -> (r: Option<String>)
    ensures
        withheld ==> r is None,
        !withheld ==> (r matches Some(t) && t@ == text@),
{
    if withheld {
        None
    } else {
        Some(String::from_str(text))
    }
}

/// The status a review decision leaves its flags in. Rerun and edit leave
/// the flag open until the rerun writes a new card, so the queue does not
/// lose a row to a decision that has not landed.
pub open spec fn flag_status_after(decision: Seq<char>) -> Seq<char> {
    if decision == "accept"@ {
        "accepted"@
    } else if decision == "dismiss"@ {
        "dismissed"@
    } else {
        "open"@
    }
}

pub fn flag_status_for(decision: &str) -> (s: &'static str)
    ensures
        s@ == flag_status_after(decision@),
{
    if same_text(decision, "accept") {
        "accepted"
    } else if same_text(decision, "dismiss") {
        "dismissed"
    } else {
        "open"
    }
}

/// The cards a decision reached, each once, in the order first met, as
/// (card, board) pairs.
pub open spec fn cards_once(cards: Seq<(String, String)>) -> Seq<(Seq<char>, Seq<char>)>
    decreases cards.len(),
{
    if cards.len() == 0 {
        seq![]
    } else {
        let earlier = cards_once(cards.drop_last());
        if exists|j: int| 0 <= j < cards.len() - 1 && (#[trigger] cards[j]).0@ == cards.last().0@ {
            earlier
        } else {
            earlier.push((cards.last().0@, cards.last().1@))
        }
    }
}

/// The card names `cards_once` keeps are exactly the names met, and the
/// first card is always kept.
pub proof fn lemma_cards_once_names(cards: Seq<(String, String)>, name: Seq<char>)
    ensures
        cards_once(cards).map_values(|c: (Seq<char>, Seq<char>)| c.0).contains(name) <==> exists|j: int|
            0 <= j < cards.len() && (#[trigger] cards[j]).0@ == name,
        cards.len() > 0 ==> cards_once(cards).len() >= 1,
    decreases cards.len(),
{
    let names = cards_once(cards).map_values(|c: (Seq<char>, Seq<char>)| c.0);
    if cards.len() > 0 {
        let rest = cards.drop_last();
        lemma_cards_once_names(rest, name);
        let earlier = cards_once(rest).map_values(|c: (Seq<char>, Seq<char>)| c.0);
        let last = cards[cards.len() - 1];
        assert(cards.last() == last);
        let repeated = exists|j: int| 0 <= j < cards.len() - 1 && (#[trigger] cards[j]).0@ == cards.last().0@;
        if repeated {
            assert(names =~= earlier);
            let k = choose|k: int| 0 <= k < cards.len() - 1 && (#[trigger] cards[k]).0@ == cards.last().0@;
            assert(rest[k] == cards[k]);
            assert(rest.len() > 0);
        } else {
            assert(names =~= earlier.push(last.0@));
        }
        let met = exists|j: int| 0 <= j < cards.len() && (#[trigger] cards[j]).0@ == name;
        let met_before = exists|j: int| 0 <= j < rest.len() && (#[trigger] rest[j]).0@ == name;
        assert(met_before ==> met) by {
            if met_before {
                let j = choose|j: int| 0 <= j < rest.len() && (#[trigger] rest[j]).0@ == name;
                assert(rest[j] == cards[j]);
            }
        }
        assert(met ==> met_before || last.0@ == name) by {
            if met {
                let j = choose|j: int| 0 <= j < cards.len() && (#[trigger] cards[j]).0@ == name;
                if j < cards.len() - 1 {
                    assert(rest[j] == cards[j]);
                }
            }
        }
        if repeated && last.0@ == name {
            let k = choose|k: int| 0 <= k < cards.len() - 1 && (#[trigger] cards[k]).0@ == cards.last().0@;
            assert(rest[k] == cards[k]);
            assert(met_before);
        }
        if !repeated {
            assert(names.contains(name) <==> earlier.contains(name) || last.0@ == name) by {
                if names.contains(name) {
                    let k = choose|k: int| 0 <= k < names.len() && names[k] == name;
                    if k < earlier.len() {
                        assert(names[k] == earlier[k]);
                    }
                }
                if earlier.contains(name) {
                    let k = choose|k: int| 0 <= k < earlier.len() && earlier[k] == name;
                    assert(names[k] == earlier[k]);
                }
                if last.0@ == name {
                    assert(names[names.len() - 1] == name);
                }
            }
        }
    }
}

/// Appending keeps the tail: what follows the first element grows by the
/// element appended.
proof fn lemma_tail_push<A>(s: Seq<A>, x: A)
    requires
        s.len() >= 1,
    ensures
        s.push(x).drop_first() == s.drop_first().push(x),
{
    assert(s.push(x).drop_first() =~= s.drop_first().push(x));
}

/// The cards besides the first that a bulk decision reached, each once, in
/// the order first met: one event goes to each, because the projection that
/// reopens or closes a card reads the card from the event. The first card
/// had its event with the decision itself.
pub fn other_cards(cards: &[(String, String)]) -> (out: Vec<(String, String)>)
    requires
        cards@.len() > 0,
    ensures
        out@.map_values(|c: (String, String)| (c.0@, c.1@)) == cards_once(cards@).drop_first(),
{
    let mut seen: Vec<String> = Vec::new();
    let mut out: Vec<(String, String)> = Vec::new();
    let mut i: usize = 0;
    assert(cards@.take(0) == Seq::<(String, String)>::empty());
    assert(crate::chars::string_views(seen@) == Seq::<Seq<char>>::empty());
    while i < cards.len()
        invariant
            i <= cards@.len(),
            cards@.len() > 0,
            crate::chars::string_views(seen@) == cards_once(cards@.take(i as int)).map_values(
                |c: (Seq<char>, Seq<char>)| c.0,
            ),
            i == 0 ==> out@.len() == 0,
            i > 0 ==> out@.map_values(|c: (String, String)| (c.0@, c.1@)) == cards_once(
                cards@.take(i as int),
            ).drop_first(),
        decreases cards@.len() - i,
    {
        let ghost prefix = cards@.take(i as int);
        let ghost later = cards@.take(i + 1);
        assert(later.drop_last() == prefix);
        assert(later.last() == cards@[i as int]);
        let card = &cards[i];
        let found = crate::chars::contains_text(&seen, card.0.as_str());
        proof {
            lemma_cards_once_names(prefix, card.0@);
            lemma_cards_once_names(later, card.0@);
            assert(forall|j: int| 0 <= j < prefix.len() ==> prefix[j] == later[j]);
            assert((exists|j: int| 0 <= j < later.len() - 1 && (#[trigger] later[j]).0@ == later.last().0@)
                <==> (exists|j: int| 0 <= j < prefix.len() && (#[trigger] prefix[j]).0@ == card.0@));
        }
        if !found {
            let ghost s0 = seen@;
            let ghost o0 = out@;
            seen.push(card.0.clone());
            assert(seen@.drop_last() == s0);
            assert(crate::chars::string_views(seen@) == crate::chars::string_views(s0).push(card.0@));
            if i > 0 {
                out.push((card.0.clone(), card.1.clone()));
                assert(out@.drop_last() == o0);
                assert(out@.map_values(|c: (String, String)| (c.0@, c.1@)) == o0.map_values(
                    |c: (String, String)| (c.0@, c.1@),
                ).push((card.0@, card.1@)));
                assert(cards_once(later) == cards_once(prefix).push((card.0@, card.1@)));
                proof {
                    lemma_tail_push(cards_once(prefix), (card.0@, card.1@));
                }
            } else {
                assert(cards_once(later) == seq![(card.0@, card.1@)]);
            }
        }
        i += 1;
    }
    assert(cards@.take(cards@.len() as int) == cards@);
    out
}


/// A term an agent named, as a concept would carry it: trimmed, and only
/// when it is between 2 and 120 characters. A one character entity is noise,
/// and an empty one is a model slip.
pub open spec fn concept_term_spec(raw: Seq<char>) -> Option<Seq<char>> {
    let t = trim_seq(raw);
    if 2 <= t.len() <= 120 {
        Some(t)
    } else {
        None
    }
}

pub fn concept_term(raw: &str) -> (r: Option<String>)
    ensures
        match r {
            Some(t) => concept_term_spec(raw@) == Some(t@),
            None => concept_term_spec(raw@) is None,
        },
{
    let t = trim_string(raw);
    let n = chars_of(t.as_str()).len();
    if 2 <= n && n <= 120 {
        Some(t)
    } else {
        None
    }
}

/// A concept's score after one check: one up when it passed, one down when it
/// failed, never below zero.
pub open spec fn next_score(now: int, correct: bool) -> int {
    if correct {
        now + 1
    } else if now >= 1 {
        now - 1
    } else {
        0
    }
}

/// Scores by concept id, as a map; a later entry for an id stands.
pub open spec fn score_map(scores: Seq<(String, i64)>) -> Map<Seq<char>, int>
    decreases scores.len(),
{
    if scores.len() == 0 {
        Map::empty()
    } else {
        score_map(scores.drop_last()).insert(scores.last().0@, scores.last().1 as int)
    }
}

/// No concept id is listed twice.
pub open spec fn ids_unique(scores: Seq<(String, i64)>) -> bool {
    forall|i: int, j: int|
        0 <= i < j < scores.len() ==> (#[trigger] scores[i]).0@ != (#[trigger] scores[j]).0@
}

/// The scores after one check of each concept in `ids`, in order; a concept
/// with no score starts at zero.
pub open spec fn scored(m: Map<Seq<char>, int>, ids: Seq<Seq<char>>, correct: bool) -> Map<
    Seq<char>,
    int,
>
    decreases ids.len(),
{
    if ids.len() == 0 {
        m
    } else {
        let prev = scored(m, ids.drop_last(), correct);
        let id = ids.last();
        let now = if prev.contains_key(id) {
            prev[id]
        } else {
            0
        };
        prev.insert(id, next_score(now, correct))
    }
}

proof fn lemma_score_lookup(scores: Seq<(String, i64)>, id: Seq<char>)
    requires
        ids_unique(scores),
    ensures
        forall|k: int|
            0 <= k < scores.len() && (#[trigger] scores[k]).0@ == id ==> score_map(scores).contains_key(
                id,
            ) && score_map(scores)[id] == scores[k].1 as int,
        (forall|k: int| 0 <= k < scores.len() ==> (#[trigger] scores[k]).0@ != id)
            ==> !score_map(scores).contains_key(id),
    decreases scores.len(),
{
    if scores.len() > 0 {
        let rest = scores.drop_last();
        assert forall|i: int, j: int| 0 <= i < j < rest.len() implies (#[trigger] rest[i]).0@
            != (#[trigger] rest[j]).0@ by {
            assert(rest[i] == scores[i] && rest[j] == scores[j]);
        }
        lemma_score_lookup(rest, id);
        assert forall|k: int|
            0 <= k < scores.len() && (#[trigger] scores[k]).0@ == id implies score_map(
                scores,
            ).contains_key(id) && score_map(scores)[id] == scores[k].1 as int by {
            if k < scores.len() - 1 {
                assert(rest[k] == scores[k]);
                assert(scores[k].0@ != scores[scores.len() - 1].0@);
            }
        }
        if forall|k: int| 0 <= k < scores.len() ==> (#[trigger] scores[k]).0@ != id {
            assert forall|k: int| 0 <= k < rest.len() implies (#[trigger] rest[k]).0@ != id by {
                assert(rest[k] == scores[k]);
            }
            assert(scores[scores.len() - 1].0@ != id);
        }
    }
}

proof fn lemma_score_update(scores: Seq<(String, i64)>, k: int, p: (String, i64))
    requires
        ids_unique(scores),
        0 <= k < scores.len(),
        p.0@ == scores[k].0@,
    ensures
        score_map(scores.update(k, p)) == score_map(scores).insert(p.0@, p.1 as int),
        ids_unique(scores.update(k, p)),
    decreases scores.len(),
{
    let u = scores.update(k, p);
    assert forall|i: int, j: int| 0 <= i < j < u.len() implies (#[trigger] u[i]).0@
        != (#[trigger] u[j]).0@ by {
        assert(u[i].0@ == scores[i].0@ && u[j].0@ == scores[j].0@);
    }
    let n = scores.len() - 1;
    let rest = scores.drop_last();
    assert forall|i: int, j: int| 0 <= i < j < rest.len() implies (#[trigger] rest[i]).0@
        != (#[trigger] rest[j]).0@ by {
        assert(rest[i] == scores[i] && rest[j] == scores[j]);
    }
    if k == n {
        assert(u.drop_last() == rest);
        assert forall|j: int| 0 <= j < rest.len() implies (#[trigger] rest[j]).0@ != p.0@ by {
            assert(rest[j] == scores[j]);
        }
        lemma_score_lookup(rest, p.0@);
        assert(score_map(u) =~= score_map(scores).insert(p.0@, p.1 as int));
    } else {
        assert(u.drop_last() == rest.update(k, p));
        assert(rest[k] == scores[k]);
        lemma_score_update(rest, k, p);
        assert(scores[n].0@ != scores[k].0@);
        assert(score_map(u) =~= score_map(scores).insert(p.0@, p.1 as int));
    }
}

/// The scores after one check of the concepts in `concept_ids`: each listed
/// concept moves one up when the check passed and one down, never below
/// zero, when it failed; a concept met for the first time starts at zero and
/// is added at the end. Every other score is left as it was.
pub fn score_mastery(mastery: Vec<(String, i64)>, concept_ids: &[String], correct: bool) -> (out: Vec<(String, i64)>)
    requires
        ids_unique(mastery@),
        concept_ids@.len() <= i64::MAX,
        forall|i: int| 0 <= i < mastery@.len() ==> (#[trigger] mastery@[i]).1 + concept_ids@.len() <= i64::MAX,
    ensures
        ids_unique(out@),
        score_map(out@) == scored(score_map(mastery@), crate::chars::string_views(concept_ids@), correct),
{
    let mut out = mastery;
    let mut c: usize = 0;
    assert(crate::chars::string_views(concept_ids@).take(0) == Seq::<Seq<char>>::empty());
    while c < concept_ids.len()
        invariant
            c <= concept_ids@.len(),
            concept_ids@.len() <= i64::MAX,
            ids_unique(out@),
            score_map(out@) == scored(
                score_map(mastery@),
                crate::chars::string_views(concept_ids@).take(c as int),
                correct,
            ),
            forall|i: int| 0 <= i < out@.len() ==> (#[trigger] out@[i]).1 + (concept_ids@.len() - c) <= i64::MAX,
            forall|i: int| 0 <= i < out@.len() ==> (#[trigger] out@[i]).1 >= i64::MIN,
        decreases concept_ids@.len() - c,
    {
        let id = &concept_ids[c];
        let ghost ids = crate::chars::string_views(concept_ids@);
        assert(ids.take(c + 1).drop_last() == ids.take(c as int));
        assert(ids.take(c + 1).last() == id@);
        let ghost prev = score_map(out@);
        let mut k: usize = 0;
        let mut found = false;
        while k < out.len()
            invariant_except_break
                k <= out@.len(),
                !found,
                forall|j: int| 0 <= j < k ==> (#[trigger] out@[j]).0@ != id@,
            ensures
                found ==> k < out@.len() && out@[k as int].0@ == id@,
                !found ==> forall|j: int| 0 <= j < out@.len() ==> (#[trigger] out@[j]).0@ != id@,
            decreases out@.len() - k,
        {
            if crate::chars::same_text(out[k].0.as_str(), id.as_str()) {
                found = true;
                break;
            }
            k += 1;
        }
        proof {
            lemma_score_lookup(out@, id@);
        }
        if found {
            let now = out[k].1;
            let next: i64 = if correct {
                now + 1
            } else if now >= 1 {
                now - 1
            } else {
                0
            };
            let key = out[k].0.clone();
            proof {
                lemma_score_update(out@, k as int, (key, next));
            }
            out.set(k, (key, next));
        } else {
            let next: i64 = if correct {
                1
            } else {
                0
            };
            let ghost before = out@;
            out.push((id.clone(), next));
            assert(out@.drop_last() == before);
            assert forall|i: int, j: int| 0 <= i < j < out@.len() implies (#[trigger] out@[i]).0@
                != (#[trigger] out@[j]).0@ by {
                if j == out@.len() - 1 {
                    assert(before[i] == out@[i]);
                }
            }
        }
        c += 1;
    }
    assert(crate::chars::string_views(concept_ids@).take(concept_ids@.len() as int) == crate::chars::string_views(concept_ids@));
    out
}

} // verus!
