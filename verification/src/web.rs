//! The web retriever's rules.
//!
//! Nothing is reached that was not pointed at: discovery never leaves a seed's
//! host, and a page linking somewhere else is a link this retriever does not
//! follow. These are the pieces of that rule that decide, given what a page
//! said: how a link resolves, which host it names, whether it stays, and
//! whether a fetched body reads as a page or as a listing of pages.
use vstd::prelude::*;
use vstd::string::StringSliceAdditionalSpecFns;

use crate::chars::{
    append_chars, chars_of, find, find_exec, first_where, last_of, last_of_exec, lemma_find_from,
    lemma_first_where, lemma_last_of, longer_than, lowercase, occurs_at, remove_all,
    remove_all_exec, replace_char, runs, runs_of, starts_with, starts_with_chars, string_of,
    sub_vec, to_lowercase, trim_bounds, trim_seq, views_of,
};

verus! {

/// How many results are fetched: the top eight.
pub const MAX_FETCH: usize = 8;

/// How many pages discovery looks at per seed before it stops.
pub const MAX_CANDIDATES: usize = 64;

/// The per-assignment budget, applied per fetch.
pub const FETCH_TIMEOUT_SECS: u64 = 10;

/// Bodies larger than this are refused rather than read.
pub const MAX_BODY_BYTES: usize = 4194304;

/// What this profile may reach.
#[derive(Debug, Clone)]
pub struct WebConfig {
    /// The bases discovery starts from.
    pub seeds: Vec<String>,
    /// How many pages to fetch; eight by default.
    pub max_fetch: usize,
}

impl WebConfig {
    pub fn new(seeds: Vec<String>) -> (c: Self)
        ensures
            c.seeds == seeds,
            c.max_fetch == MAX_FETCH,
    {
        WebConfig { seeds, max_fetch: MAX_FETCH }
    }
}

/// One page as it came off the wire.
#[derive(Debug, Clone)]
pub struct Fetched {
    pub url: String,
    pub body: String,
}

#[derive(Debug, Clone, PartialEq, Eq)]
pub enum FetchError {
    /// The host said no, or said something this retriever does not read.
    Refused(String),
    /// Nothing answered.
    Unreachable(String),
}

/// How pages are read: over HTTP in the product, over a map in a test, over
/// loopback in the eval.
pub trait Fetcher {
    fn get(&self, url: &str) -> Result<Fetched, FetchError>;
}

/// How many pages to fetch: the configured number, or `MAX_FETCH` when the
/// configuration says zero.
pub fn fetch_budget(config: &WebConfig) -> (n: usize)
    ensures
        n == if config.max_fetch == 0 {
            MAX_FETCH
        } else {
            config.max_fetch
        },
{
    if config.max_fetch == 0 {
        MAX_FETCH
    } else {
        config.max_fetch
    }
}

pub open spec fn is_stop(c: char) -> bool {
    c == '/' || c == '?' || c == '#'
}

pub open spec fn is_query_mark(c: char) -> bool {
    c == '?' || c == '#'
}

/// What follows the first `://` of a URL, or the whole of it without one.
pub open spec fn after_scheme(url: Seq<char>) -> Seq<char> {
    if find(url, "://"@) >= 0 {
        url.skip(find(url, "://"@) + 3)
    } else {
        url
    }
}

/// The authority of what follows the scheme: up to the first `/`, `?` or `#`.
pub open spec fn authority_of(rest: Seq<char>) -> Seq<char> {
    rest.take(first_where(rest, |c: char| is_stop(c)))
}

/// The host a URL names: its authority without any user part, lowercased;
/// `None` when it is empty.
pub open spec fn host_of_spec(url: Seq<char>) -> Option<Seq<char>> {
    let authority = authority_of(after_scheme(url));
    let host = if last_of(authority, '@') >= 0 {
        authority.skip(last_of(authority, '@') + 1)
    } else {
        authority
    };
    if host.len() == 0 {
        None
    } else {
        Some(lowercase(host))
    }
}

fn first_stop_exec(v: &Vec<char>) -> (r: usize)
    ensures
        r == first_where(v@, |c: char| is_stop(c)),
{
    let mut i: usize = 0;
    assert(v@.skip(0) == v@);
    while i < v.len() && v[i] != '/' && v[i] != '?' && v[i] != '#'
        invariant
            i <= v@.len(),
            first_where(v@, |c: char| is_stop(c)) == i + first_where(
                v@.skip(i as int),
                |c: char| is_stop(c),
            ),
        decreases v@.len() - i,
    {
        assert(v@.skip(i as int).drop_first() == v@.skip(i + 1));
        i += 1;
    }
    assert(v@.skip(i as int).len() == 0 || v@.skip(i as int)[0] == v@[i as int]);
    i
}

fn first_query_exec(v: &Vec<char>) -> (r: usize)
    ensures
        r == first_where(v@, |c: char| is_query_mark(c)),
{
    let mut i: usize = 0;
    assert(v@.skip(0) == v@);
    while i < v.len() && v[i] != '?' && v[i] != '#'
        invariant
            i <= v@.len(),
            first_where(v@, |c: char| is_query_mark(c)) == i + first_where(
                v@.skip(i as int),
                |c: char| is_query_mark(c),
            ),
        decreases v@.len() - i,
    {
        assert(v@.skip(i as int).drop_first() == v@.skip(i + 1));
        i += 1;
    }
    assert(v@.skip(i as int).len() == 0 || v@.skip(i as int)[0] == v@[i as int]);
    i
}

fn after_scheme_exec(url: &Vec<char>) -> (r: Vec<char>)
    ensures
        r@ == after_scheme(url@),
{
    let sep = chars_of("://");
    let _len = url.len();
    proof {
        reveal_strlit("://");
        lemma_find_from(url@, "://"@, 0);
    }
    match find_exec(url, &sep) {
        Some(k) => {
            let r = sub_vec(url, k + 3, url.len());
            assert(url@.subrange(k + 3, url@.len() as int) == url@.skip(k + 3));
            r
        },
        None => sub_vec(url, 0, url.len()),
    }
}

/// The host a URL names, lowercased.
pub fn host_of(url: &str) -> (h: Option<String>)
    ensures
        match h {
            Some(s) => host_of_spec(url@) == Some(s@),
            None => host_of_spec(url@) is None,
        },
{
    let u = chars_of(url);
    let rest = after_scheme_exec(&u);
    assert(rest@.subrange(0, rest@.len() as int) == rest@);
    let end = first_stop_exec(&rest);
    proof {
        lemma_first_where(rest@, |c: char| is_stop(c));
    }
    let authority = sub_vec(&rest, 0, end);
    assert(rest@.subrange(0, end as int) == authority_of(rest@));
    let host = match last_of_exec(&authority, '@') {
        Some(at) => {
            proof {
                lemma_last_of(authority@, '@');
            }
            let h = sub_vec(&authority, at + 1, authority.len());
            assert(authority@.subrange(at + 1, authority@.len() as int) == authority@.skip(at + 1));
            h
        },
        None => authority,
    };
    if host.len() == 0 {
        None
    } else {
        Some(to_lowercase(string_of(&host).as_str()))
    }
}

/// The URL an href on the page at `base` points at.
///
/// An absolute href stands as it is; one starting with `/` hangs off the
/// base's scheme and authority; any other is relative to the directory the
/// base names. A base with no scheme resolves nothing.
pub open spec fn resolve_spec(base: Seq<char>, href: Seq<char>) -> Option<Seq<char>> {
    if find(href, "://"@) >= 0 {
        Some(href)
    } else if find(base, "://"@) < 0 {
        None
    } else {
        let scheme = base.take(find(base, "://"@));
        let rest = base.skip(find(base, "://"@) + 3);
        let authority = authority_of(rest);
        if href.len() > 0 && href[0] == '/' {
            Some(scheme + "://"@ + authority + seq!['/'] + href.skip(1))
        } else {
            let path = rest.skip(authority.len() as int);
            let path = path.take(first_where(path, |c: char| is_query_mark(c)));
            let directory = if last_of(path, '/') >= 0 {
                path.take(last_of(path, '/') + 1)
            } else {
                seq!['/']
            };
            Some(scheme + "://"@ + authority + directory + href)
        }
    }
}

/// An absolute URL from a base and an href, for the forms a listing writes.
pub fn resolve(base: &str, href: &str) -> (r: Option<String>)
    ensures
        match r {
            Some(s) => resolve_spec(base@, href@) == Some(s@),
            None => resolve_spec(base@, href@) is None,
        },
{
    let h = chars_of(href);
    let b = chars_of(base);
    let _len = b.len();
    let sep = chars_of("://");
    if find_exec(&h, &sep).is_some() {
        return Some(string_of(&h));
    }
    let k = match find_exec(&b, &sep) {
        Some(k) => k,
        None => return None,
    };
    proof {
        reveal_strlit("://");
        lemma_find_from(b@, "://"@, 0);
    }
    let scheme = sub_vec(&b, 0, k);
    let rest = sub_vec(&b, k + 3, b.len());
    assert(b@.subrange(0, k as int) == b@.take(k as int));
    assert(b@.subrange(k + 3, b@.len() as int) == b@.skip(k + 3));
    let end = first_stop_exec(&rest);
    proof {
        lemma_first_where(rest@, |c: char| is_stop(c));
    }
    let authority = sub_vec(&rest, 0, end);
    assert(rest@.subrange(0, end as int) == authority_of(rest@));
    let mut out = String::new();
    append_chars(&mut out, &scheme);
    append_chars(&mut out, &sep);
    append_chars(&mut out, &authority);
    if h.len() > 0 && h[0] == '/' {
        let tail = sub_vec(&h, 1, h.len());
        assert(h@.subrange(1, h@.len() as int) == h@.skip(1));
        crate::chars::push_char(&mut out, '/');
        append_chars(&mut out, &tail);
        return Some(out);
    }
    let path_all = sub_vec(&rest, end, rest.len());
    assert(rest@.subrange(end as int, rest@.len() as int) == rest@.skip(authority@.len() as int));
    let q = first_query_exec(&path_all);
    proof {
        lemma_first_where(path_all@, |c: char| is_query_mark(c));
    }
    let path = sub_vec(&path_all, 0, q);
    assert(path_all@.subrange(0, q as int) == path_all@.take(q as int));
    match last_of_exec(&path, '/') {
        Some(cut) => {
            proof {
                lemma_last_of(path@, '/');
            }
            let dir = sub_vec(&path, 0, cut + 1);
            assert(path@.subrange(0, cut + 1) == path@.take(cut + 1));
            append_chars(&mut out, &dir);
        },
        None => {
            crate::chars::push_char(&mut out, '/');
        },
    }
    append_chars(&mut out, &h);
    Some(out)
}

/// The last path segment of a locator: what follows its last `/`, or all of it.
pub open spec fn last_segment(locator: Seq<char>) -> Seq<char> {
    if last_of(locator, '/') >= 0 {
        locator.skip(last_of(locator, '/') + 1)
    } else {
        locator
    }
}

/// Dashes and underscores read as spaces.
pub open spec fn spaced(s: Seq<char>) -> Seq<char> {
    replace_char(replace_char(s, '-', ' '), '_', ' ')
}

/// A readable title for a page: its last non-empty path segment without the
/// extension, dashes and underscores as spaces. A segment with no extension
/// gives the whole locator.
pub open spec fn page_title(locator: Seq<char>) -> Seq<char> {
    let seg = if last_segment(locator).len() > 0 {
        last_segment(locator)
    } else {
        locator
    };
    let stem = if last_of(seg, '.') >= 0 {
        seg.take(last_of(seg, '.'))
    } else {
        locator
    };
    spaced(stem)
}

/// `v` with `-` and `_` as spaces.
pub fn spaced_string(v: &Vec<char>) -> (s: String)
    ensures
        s@ == spaced(v@),
{
    let mut r: Vec<char> = Vec::new();
    let mut i: usize = 0;
    while i < v.len()
        invariant
            i <= v@.len(),
            r@ == spaced(v@.take(i as int)),
        decreases v@.len() - i,
    {
        let c = v[i];
        r.push(if c == '-' || c == '_' { ' ' } else { c });
        assert(v@.take(i + 1) == v@.take(i as int).push(c));
        i += 1;
    }
    assert(v@.take(v@.len() as int) == v@);
    string_of(&r)
}

/// The last segment of `v`.
pub fn last_segment_exec(v: &Vec<char>) -> (r: Vec<char>)
    ensures
        r@ == last_segment(v@),
{
    let _len = v.len();
    match last_of_exec(v, '/') {
        Some(i) => {
            proof {
                lemma_last_of(v@, '/');
            }
            let r = sub_vec(v, i + 1, v.len());
            assert(v@.subrange(i + 1, v@.len() as int) == v@.skip(i + 1));
            r
        },
        None => sub_vec(v, 0, v.len()),
    }
}

/// A readable title from a page's locator.
pub fn title_of(locator: &str) -> (t: String)
    ensures
        t@ == page_title(locator@),
{
    let l = chars_of(locator);
    assert(l@.subrange(0, l@.len() as int) == l@);
    let seg0 = last_segment_exec(&l);
    let seg = if seg0.len() > 0 {
        seg0
    } else {
        sub_vec(&l, 0, l.len())
    };
    match last_of_exec(&seg, '.') {
        Some(dot) => {
            proof {
                lemma_last_of(seg@, '.');
            }
            let stem = sub_vec(&seg, 0, dot);
            assert(seg@.subrange(0, dot as int) == seg@.take(dot as int));
            spaced_string(&stem)
        },
        None => spaced_string(&l),
    }
}

/// The words of a text, lowercased: the runs between characters that are not
/// alphanumeric.
pub open spec fn tokens_of(text: Seq<char>) -> Seq<Seq<char>> {
    runs(text, true).map_values(|t: Seq<char>| lowercase(t))
}

/// The lowercased words of a text, which is what bm25 counts.
pub fn tokens(text: &str) -> (out: Vec<String>)
    ensures
        out@.map_values(|s: String| s@) == tokens_of(text@),
{
    let chars = chars_of(text);
    let words = runs_of(&chars, true);
    let mut out: Vec<String> = Vec::new();
    let mut i: usize = 0;
    while i < words.len()
        invariant
            i <= words@.len(),
            views_of(words@) == runs(text@, true),
            out@.map_values(|s: String| s@) == views_of(words@).take(i as int).map_values(
                |t: Seq<char>| lowercase(t),
            ),
        decreases words@.len() - i,
    {
        let ghost before = out@;
        out.push(to_lowercase(string_of(&words[i]).as_str()));
        assert(out@.drop_last() == before);
        assert(views_of(words@).take(i + 1) == views_of(words@).take(i as int).push(
            words@[i as int]@,
        ));
        assert(out@.map_values(|s: String| s@) == before.map_values(|s: String| s@).push(
            out@.last()@,
        ));
        i += 1;
    }
    assert(views_of(words@).take(words@.len() as int) == views_of(words@));
    out
}

/// Whether an href is one a listing walk skips outright: empty, a fragment,
/// or a mail address.
pub open spec fn skipped_href(href: Seq<char>) -> bool {
    href.len() == 0 || href[0] == '#' || starts_with(href, "mailto:"@)
}

/// Where an href on the page at `page_url` leads, if discovery may follow it:
/// it is not skipped, it resolves, it stays on the page's own host, and it is
/// not the walk back up to the parent directory.
pub open spec fn link_target_spec(page_url: Seq<char>, href: Seq<char>) -> Option<Seq<char>> {
    let href = trim_seq(href);
    match host_of_spec(page_url) {
        None => None,
        Some(host) => if skipped_href(href) {
            None
        } else {
            match resolve_spec(page_url, href) {
                None => None,
                Some(url) => if host_of_spec(url) != Some(host) || href == ".."@ || href
                    == "../"@ {
                    None
                } else {
                    Some(url)
                },
            }
        },
    }
}

/// Where an href on a page leads, when discovery may follow it. The host is
/// the boundary, so a profile pointed at one site cannot be walked onto
/// another by a page that links there.
pub fn link_target(page_url: &str, href: &str) -> (r: Option<String>)
    ensures
        match r {
            Some(s) => link_target_spec(page_url@, href@) == Some(s@),
            None => link_target_spec(page_url@, href@) is None,
        },
{
    let host = match host_of(page_url) {
        Some(h) => h,
        None => return None,
    };
    let raw = chars_of(href);
    let (lo, hi) = trim_bounds(&raw, 0, raw.len());
    assert(raw@.subrange(0, raw@.len() as int) == raw@);
    let h = sub_vec(&raw, lo, hi);
    let trimmed = string_of(&h);
    let mailto = chars_of("mailto:");
    if h.len() == 0 || h[0] == '#' || starts_with_chars(&h, &mailto) {
        return None;
    }
    let url = match resolve(page_url, trimmed.as_str()) {
        Some(u) => u,
        None => return None,
    };
    let same_host = match host_of(url.as_str()) {
        Some(other) => crate::chars::same_text(other.as_str(), host.as_str()),
        None => false,
    };
    if !same_host || crate::chars::same_text(trimmed.as_str(), "..") || crate::chars::same_text(
        trimmed.as_str(),
        "../",
    ) {
        return None;
    }
    Some(url)
}

/// The text of a block that is not the text of its links: every occurrence of
/// the trimmed link text removed.
pub open spec fn unlinked_text(whole: Seq<char>, linked: Seq<char>) -> Seq<char> {
    remove_all(whole, trim_seq(linked))
}

/// A block reads as prose when at least three words of it are not link text.
pub open spec fn block_has_prose(whole: Seq<char>, linked: Seq<char>) -> bool {
    runs(unlinked_text(whole, linked), false).len() >= 3
}

/// Whether a fetched body reads as a page rather than as an index of pages,
/// given each text block of it (paragraphs, list items, cells, quotes,
/// preformatted text and headings, in document order) as its whole text and
/// the text of the links inside it.
///
/// A directory listing is links and nothing else, and indexing one puts a
/// source in the store whose whole content is the names of other sources.
pub fn has_prose(blocks: &Vec<(String, String)>) -> (b: bool)
    ensures
        b == exists|i: int|
            0 <= i < blocks@.len() && block_has_prose(
                (#[trigger] blocks@[i]).0@,
                blocks@[i].1@,
            ),
{
    let mut i: usize = 0;
    while i < blocks.len()
        invariant
            i <= blocks@.len(),
            forall|j: int|
                0 <= j < i ==> !block_has_prose((#[trigger] blocks@[j]).0@, blocks@[j].1@),
        decreases blocks@.len() - i,
    {
        if block_prose(blocks[i].0.as_str(), blocks[i].1.as_str()) {
            return true;
        }
        i += 1;
    }
    false
}

/// Whether one block reads as prose.
fn block_prose(whole: &str, linked: &str) -> (b: bool)
    ensures
        b == block_has_prose(whole@, linked@),
{
    let whole = chars_of(whole);
    let linked = chars_of(linked);
    let (lo, hi) = trim_bounds(&linked, 0, linked.len());
    assert(linked@.subrange(0, linked@.len() as int) == linked@);
    let pattern = sub_vec(&linked, lo, hi);
    let remaining = remove_all_exec(&whole, &pattern);
    let words = runs_of(&remaining, false);
    assert(views_of(words@).len() == words@.len());
    words.len() >= 3
}


/// The text blocks a page's prose is looked for in.
pub open spec fn prose_blocks() -> Seq<char> {
    "p, li, td, blockquote, pre, h1, h2, h3, h4, h5, h6"@
}

/// Whether a fetched body reads as a page: some text block of it carries at
/// least three words that are not link text.
pub open spec fn body_has_prose(body: Seq<char>) -> bool {
    match crate::parse::html::html_text_blocks(body, prose_blocks(), "a"@) {
        Some(blocks) => exists|i: int|
            0 <= i < blocks.len() && block_has_prose((#[trigger] blocks[i]).0@, blocks[i].1@),
        None => false,
    }
}

/// Whether a fetched body reads as a page rather than as an index of pages.
pub fn page_has_prose(body: &str) -> (b: bool)
    ensures
        b == body_has_prose(body@),
{
    match crate::parse::html::text_blocks(
        body,
        "p, li, td, blockquote, pre, h1, h2, h3, h4, h5, h6",
        "a",
    ) {
        Some(blocks) => has_prose(&blocks),
        None => false,
    }
}

/// The links a page's hrefs lead to that discovery may follow, in order.
pub open spec fn links_of(page_url: Seq<char>, hrefs: Seq<Option<String>>) -> Seq<Seq<char>>
    decreases hrefs.len(),
{
    if hrefs.len() == 0 {
        seq![]
    } else {
        let earlier = links_of(page_url, hrefs.drop_last());
        match link_target_spec(page_url, crate::parse::html::or_empty(hrefs.last())) {
            Some(url) => earlier.push(url),
            None => earlier,
        }
    }
}

/// Every link on a page that stays on its own host.
pub open spec fn links_within_spec(page_url: Seq<char>, body: Seq<char>) -> Seq<Seq<char>> {
    match crate::parse::html::html_attribute_values(body, "a[href]"@, "href"@) {
        Some(hrefs) => links_of(page_url, hrefs),
        None => seq![],
    }
}

/// Every link on a page that stays on its own host, resolved.
///
/// The host is the boundary, so a synthetic corpus on loopback cannot reach
/// the internet and a profile pointed at one site cannot be walked onto
/// another by a page that links there. The denylist is the second gate; this
/// is the first, and it is structural.
pub fn links_within(page_url: &str, body: &str) -> (out: Vec<String>)
    ensures
        crate::chars::string_views(out@) == links_within_spec(page_url@, body@),
{
    let mut out: Vec<String> = Vec::new();
    let hrefs = match crate::parse::html::attribute_values(body, "a[href]", "href") {
        Some(h) => h,
        None => {
            assert(crate::chars::string_views(out@) == Seq::<Seq<char>>::empty());
            return out;
        },
    };
    let mut i: usize = 0;
    assert(hrefs@.take(0) == Seq::<Option<String>>::empty());
    assert(crate::chars::string_views(out@) == Seq::<Seq<char>>::empty());
    while i < hrefs.len()
        invariant
            i <= hrefs@.len(),
            crate::chars::string_views(out@) == links_of(page_url@, hrefs@.take(i as int)),
        decreases hrefs@.len() - i,
    {
        assert(hrefs@.take(i + 1).drop_last() == hrefs@.take(i as int));
        assert(hrefs@.take(i + 1).last() == hrefs@[i as int]);
        let href: &str = match &hrefs[i] {
            Some(h) => h.as_str(),
            None => {
                proof {
                    reveal_strlit("");
                }
                ""
            },
        };
        assert(href@ == crate::parse::html::or_empty(hrefs@[i as int]));
        match link_target(page_url, href) {
            Some(url) => {
                let ghost before = out@;
                out.push(url);
                assert(out@.drop_last() == before);
                assert(crate::chars::string_views(out@) == crate::chars::string_views(before).push(
                    out@.last()@,
                ));
            },
            None => {},
        }
        i += 1;
    }
    assert(hrefs@.take(hrefs@.len() as int) == hrefs@);
    out
}

/// What discovery has gathered: the pages to fetch, in order, and the dedupe
/// keys of everything already taken.
pub struct Gathered {
    pub candidates: Seq<Seq<char>>,
    pub seen: Set<Seq<char>>,
}

/// One link offered to discovery: taken unless the candidates are full or
/// its page was already taken under another URL.
pub open spec fn offer(g: Gathered, url: Seq<char>) -> Gathered {
    let key = crate::repo::locator_key(url);
    if g.candidates.len() >= MAX_CANDIDATES || g.seen.contains(key) {
        g
    } else {
        Gathered { candidates: g.candidates.push(url), seen: g.seen.insert(key) }
    }
}

/// Discovery after a listing's links are offered in order.
pub open spec fn offer_all(g: Gathered, links: Seq<Seq<char>>) -> Gathered
    decreases links.len(),
{
    if links.len() == 0 {
        g
    } else {
        offer(offer_all(g, links.drop_last()), links.last())
    }
}

/// Discovery after one seed was read: its links, then the seed itself when
/// it reads as a page and was not taken already. A seed that is a page is a
/// candidate and a seed that is a listing contributes its links; both are true
/// of the same fetch, so the body is used twice rather than fetched twice.
pub open spec fn after_seed(g: Gathered, links: Seq<Seq<char>>, seed_url: Seq<char>, prose: bool) -> Gathered {
    let h = offer_all(g, links);
    let key = crate::repo::locator_key(seed_url);
    if prose && !h.seen.contains(key) {
        Gathered { candidates: h.candidates.push(seed_url), seen: h.seen.insert(key) }
    } else {
        h
    }
}

/// Discovery's state as it runs.
#[derive(Debug, Clone)]
pub struct Discovery {
    pub candidates: Vec<String>,
    /// The dedupe keys of the candidates.
    pub seen: Vec<String>,
    /// The categories of the denials met, in order, each once.
    pub denied: Vec<String>,
    pub fetch_errors: usize,
}

impl Discovery {
    pub open spec fn gathered(&self) -> Gathered {
        Gathered {
            candidates: crate::chars::string_views(self.candidates@),
            seen: crate::chars::string_views(self.seen@).to_set(),
        }
    }

    /// Nothing gathered, nothing denied, nothing failed.
    pub fn new() -> (d: Self)
        ensures
            d.gathered().candidates.len() == 0,
            d.gathered().seen =~= Set::<Seq<char>>::empty(),
            d.denied@.len() == 0,
            d.fetch_errors == 0,
    {
        let d = Discovery { candidates: Vec::new(), seen: Vec::new(), denied: Vec::new(), fetch_errors: 0 };
        assert(crate::chars::string_views(d.seen@) == Seq::<Seq<char>>::empty());
        d
    }

    fn has_seen(&self, key: &str) -> (b: bool)
        ensures
            b == self.gathered().seen.contains(key@),
    {
        let mut i: usize = 0;
        while i < self.seen.len()
            invariant
                i <= self.seen@.len(),
                forall|j: int| 0 <= j < i ==> (#[trigger] self.seen@[j])@ != key@,
            decreases self.seen@.len() - i,
        {
            if crate::chars::same_text(self.seen[i].as_str(), key) {
                assert(crate::chars::string_views(self.seen@)[i as int] == key@);
                return true;
            }
            i += 1;
        }
        assert(!crate::chars::string_views(self.seen@).contains(key@)) by {
            if crate::chars::string_views(self.seen@).contains(key@) {
                let j = choose|j: int| 0 <= j < crate::chars::string_views(self.seen@).len()
                    && crate::chars::string_views(self.seen@)[j] == key@;
                assert(self.seen@[j]@ == key@);
            }
        }
        false
    }

    fn take(&mut self, url: String, key: String)
        ensures
            final(self).gathered() == (Gathered {
                candidates: old(self).gathered().candidates.push(url@),
                seen: old(self).gathered().seen.insert(key@),
            }),
            final(self).denied == old(self).denied,
            final(self).fetch_errors == old(self).fetch_errors,
    {
        let ghost c0 = self.candidates@;
        let ghost s0 = self.seen@;
        self.candidates.push(url);
        self.seen.push(key);
        assert(self.candidates@.drop_last() == c0);
        assert(self.seen@.drop_last() == s0);
        assert(crate::chars::string_views(self.candidates@) == crate::chars::string_views(c0).push(
            self.candidates@.last()@,
        ));
        assert(crate::chars::string_views(self.seen@) == crate::chars::string_views(s0).push(
            self.seen@.last()@,
        ));
        proof {
            crate::chars::string_views(s0).lemma_push_to_set_commute(self.seen@.last()@);
        }
    }

    /// Offer one link.
    pub fn offer(&mut self, url: &str)
        ensures
            final(self).gathered() == offer(old(self).gathered(), url@),
            final(self).denied == old(self).denied,
            final(self).fetch_errors == old(self).fetch_errors,
    {
        if self.candidates.len() >= MAX_CANDIDATES {
            return;
        }
        let key = crate::repo::normalise_locator(url);
        if self.has_seen(key.as_str()) {
            return;
        }
        self.take(String::from_str(url), key);
    }

    /// Offer what one seed gave: its links, then itself when it reads as a
    /// page.
    pub fn read_seed(&mut self, links: &[String], seed_url: &str, prose: bool)
        ensures
            final(self).gathered() == after_seed(
                old(self).gathered(),
                crate::chars::string_views(links@),
                seed_url@,
                prose,
            ),
            final(self).denied == old(self).denied,
            final(self).fetch_errors == old(self).fetch_errors,
    {
        let ghost start = self.gathered();
        let mut i: usize = 0;
        assert(crate::chars::string_views(links@).take(0) == Seq::<Seq<char>>::empty());
        while i < links.len()
            invariant
                i <= links@.len(),
                self.gathered() == offer_all(start, crate::chars::string_views(links@).take(i as int)),
                self.denied == old(self).denied,
                self.fetch_errors == old(self).fetch_errors,
            decreases links@.len() - i,
        {
            assert(crate::chars::string_views(links@).take(i + 1).drop_last()
                == crate::chars::string_views(links@).take(i as int));
            assert(crate::chars::string_views(links@).take(i + 1).last() == links@[i as int]@);
            self.offer(links[i].as_str());
            i += 1;
        }
        assert(crate::chars::string_views(links@).take(links@.len() as int)
            == crate::chars::string_views(links@));
        if prose {
            let key = crate::repo::normalise_locator(seed_url);
            if !self.has_seen(key.as_str()) {
                self.take(String::from_str(seed_url), key);
            }
        }
    }

    /// Record a denial's category, once.
    pub fn deny(&mut self, category: String)
        ensures
            !crate::chars::string_views(old(self).denied@).contains(category@) ==> final(self).denied@
                == old(self).denied@.push(category),
            crate::chars::string_views(final(self).denied@).to_set()
                == crate::chars::string_views(old(self).denied@).to_set().insert(category@),
            crate::chars::string_views(old(self).denied@).contains(category@) ==> final(self).denied
                == old(self).denied,
            final(self).gathered() == old(self).gathered(),
            final(self).fetch_errors == old(self).fetch_errors,
    {
        let mut i: usize = 0;
        while i < self.denied.len()
            invariant
                i <= self.denied@.len(),
                self.denied == old(self).denied,
                forall|j: int| 0 <= j < i ==> (#[trigger] self.denied@[j])@ != category@,
            decreases self.denied@.len() - i,
        {
            if crate::chars::same_text(self.denied[i].as_str(), category.as_str()) {
                assert(crate::chars::string_views(self.denied@)[i as int] == category@);
                assert(crate::chars::string_views(self.denied@).to_set() =~= crate::chars::string_views(
                    self.denied@,
                ).to_set().insert(category@));
                return;
            }
            i += 1;
        }
        assert(!crate::chars::string_views(self.denied@).contains(category@)) by {
            if crate::chars::string_views(self.denied@).contains(category@) {
                let j = choose|j: int| 0 <= j < crate::chars::string_views(self.denied@).len()
                    && crate::chars::string_views(self.denied@)[j] == category@;
                assert(self.denied@[j]@ == category@);
            }
        }
        let ghost d0 = self.denied@;
        self.denied.push(category);
        assert(self.denied@.drop_last() == d0);
        assert(crate::chars::string_views(self.denied@) == crate::chars::string_views(d0).push(
            self.denied@.last()@,
        ));
        proof {
            crate::chars::string_views(d0).lemma_push_to_set_commute(self.denied@.last()@);
        }
    }

    /// Count a page that could not be fetched.
    pub fn fetch_failed(&mut self)
        requires
            old(self).fetch_errors < usize::MAX,
        ensures
            final(self).fetch_errors == old(self).fetch_errors + 1,
            final(self).gathered() == old(self).gathered(),
            final(self).denied == old(self).denied,
    {
        self.fetch_errors = self.fetch_errors + 1;
    }
}


/// The issuer of a web page: what it declares, else its host.
pub open spec fn web_issuer(locator: Seq<char>, declared: Option<Seq<char>>) -> Option<Seq<char>> {
    match declared {
        Some(i) => Some(i),
        None => host_of_spec(locator),
    }
}

/// The Source a fetched page becomes. Its rank is doctrine's, never the
/// retriever's own opinion of the page it just read; a web page ages like a
/// web page, and naming its freshness class is what lets doctrine say how.
pub fn web_source(
    locator: &str,
    meta: &crate::parse::html::HtmlMeta,
    doctrine: &crate::contract::Doctrine,
    version_ref: Option<String>,
    content_hash: String,
) -> (s: crate::contract::Source)
    ensures
        s.class@ == "web"@,
        s.locator@ == locator@,
        crate::chars::opt_string(s.issuer) == web_issuer(locator@, crate::chars::opt_string(meta.issuer)),
        s.title@ == match meta.title {
            Some(t) => t@,
            None => page_title(locator@),
        },
        crate::chars::opt_string(s.published_at) == crate::chars::opt_string(meta.published_at),
        s.trust_rank == crate::contract::doctrine_rank(
            doctrine.trust_ranks@,
            "web"@,
            web_issuer(locator@, crate::chars::opt_string(meta.issuer)),
        ),
        s.freshness_class@ == "web_page"@,
        s.version_ref == version_ref,
        s.content_hash == content_hash,
{
    let issuer = match &meta.issuer {
        Some(i) => Some(i.clone()),
        None => host_of(locator),
    };
    let trust_rank = match &issuer {
        Some(i) => doctrine.rank_for("web", Some(i.as_str())),
        None => doctrine.rank_for("web", None),
    };
    let title = match &meta.title {
        Some(t) => t.clone(),
        None => title_of(locator),
    };
    let published_at = match &meta.published_at {
        Some(p) => Some(p.clone()),
        None => None,
    };
    crate::contract::Source {
        class: String::from_str("web"),
        title,
        locator: String::from_str(locator),
        issuer,
        published_at,
        trust_rank,
        freshness_class: String::from_str("web_page"),
        version_ref,
        content_hash,
    }
}

/// The hash a fetched page is known by: SHA-256 of its body as fetched, in
/// hex, so the same bytes give the same rows.
pub fn body_hash(body: &str) -> (h: String)
    ensures
        h@ == crate::digest::hex(crate::digest::sha256(body.spec_bytes())),
{
    crate::digest::sha256_hex(body.as_bytes())
}

/// A passage's id: its page's hash and its place in the page.
pub fn passage_id(content_hash: &str, sequence: usize) -> (id: String)
    ensures
        id@ == content_hash@ + seq!['#'] + crate::chars::decimal(sequence as int),
{
    let mut id = String::from_str(content_hash);
    crate::chars::push_char(&mut id, '#');
    crate::chars::append_str(&mut id, crate::chars::unsigned_decimal(sequence as u64).as_str());
    id
}

/// Note a page a passage came from: `true` when it is a new source, `false`
/// when it is the mirror of one already noted under another URL.
pub fn note_source(keys: &mut Vec<String>, locator: &str) -> (new: bool)
    ensures
        new == !crate::chars::string_views(old(keys)@).contains(crate::repo::locator_key(locator@)),
        crate::chars::string_views(final(keys)@).to_set() == crate::chars::string_views(old(keys)@).to_set().insert(
            crate::repo::locator_key(locator@),
        ),
        !new ==> final(keys)@ == old(keys)@,
        new ==> final(keys)@.len() == old(keys)@.len() + 1 && final(keys)@.drop_last() == old(keys)@
            && final(keys)@.last()@ == crate::repo::locator_key(locator@),
{
    let key = crate::repo::normalise_locator(locator);
    let mut i: usize = 0;
    while i < keys.len()
        invariant
            i <= keys@.len(),
            keys@ == old(keys)@,
            key@ == crate::repo::locator_key(locator@),
            forall|j: int| 0 <= j < i ==> (#[trigger] keys@[j])@ != key@,
        decreases keys@.len() - i,
    {
        if crate::chars::same_text(keys[i].as_str(), key.as_str()) {
            assert(crate::chars::string_views(keys@)[i as int] == key@);
            assert(crate::chars::string_views(keys@).to_set() =~= crate::chars::string_views(keys@).to_set().insert(key@));
            return false;
        }
        i += 1;
    }
    assert(!crate::chars::string_views(keys@).contains(key@)) by {
        if crate::chars::string_views(keys@).contains(key@) {
            let j = choose|j: int| 0 <= j < crate::chars::string_views(keys@).len()
                && crate::chars::string_views(keys@)[j] == key@;
            assert(keys@[j]@ == key@);
        }
    }
    let ghost k0 = keys@;
    keys.push(key);
    assert(keys@.drop_last() == k0);
    assert(crate::chars::string_views(keys@) == crate::chars::string_views(k0).push(keys@.last()@));
    proof {
        crate::chars::string_views(k0).lemma_push_to_set_commute(keys@.last()@);
    }
    true
}


/// Discovery never leaves a page's host: every link it may follow names the
/// host of the page it was found on.
pub proof fn lemma_links_stay_on_host(page_url: Seq<char>, body: Seq<char>)
    ensures
        forall|i: int|
            0 <= i < links_within_spec(page_url, body).len() ==> host_of_spec(
                #[trigger] links_within_spec(page_url, body)[i],
            ) == host_of_spec(page_url) && host_of_spec(page_url) is Some,
{
    match crate::parse::html::html_attribute_values(body, "a[href]"@, "href"@) {
        Some(hrefs) => lemma_links_of_stay(page_url, hrefs),
        None => {},
    }
}

proof fn lemma_links_of_stay(page_url: Seq<char>, hrefs: Seq<Option<String>>)
    ensures
        forall|i: int|
            0 <= i < links_of(page_url, hrefs).len() ==> host_of_spec(
                #[trigger] links_of(page_url, hrefs)[i],
            ) == host_of_spec(page_url) && host_of_spec(page_url) is Some,
    decreases hrefs.len(),
{
    if hrefs.len() > 0 {
        lemma_links_of_stay(page_url, hrefs.drop_last());
        let earlier = links_of(page_url, hrefs.drop_last());
        assert forall|i: int| 0 <= i < links_of(page_url, hrefs).len() implies host_of_spec(
            #[trigger] links_of(page_url, hrefs)[i],
        ) == host_of_spec(page_url) && host_of_spec(page_url) is Some by {
            if i < earlier.len() {
                assert(links_of(page_url, hrefs)[i] == earlier[i]);
            }
        }
    }
}

/// Discovery's candidates from links never pass the cap: offering links to a
/// discovery within the cap leaves it within the cap.
pub proof fn lemma_offers_within_cap(g: Gathered, links: Seq<Seq<char>>)
    requires
        g.candidates.len() <= MAX_CANDIDATES,
    ensures
        offer_all(g, links).candidates.len() <= MAX_CANDIDATES,
    decreases links.len(),
{
    if links.len() > 0 {
        lemma_offers_within_cap(g, links.drop_last());
    }
}

/// A seed that reads as prose is a page as well as a listing: whatever links
/// it carried, unless its page was already taken under another URL, it becomes
/// a candidate right after the candidates its links gave.
pub proof fn lemma_prose_seed_is_a_candidate(g: Gathered, links: Seq<Seq<char>>, seed_url: Seq<char>)
    requires
        !offer_all(g, links).seen.contains(crate::repo::locator_key(seed_url)),
    ensures
        after_seed(g, links, seed_url, true).candidates == offer_all(g, links).candidates.push(
            seed_url,
        ),
        after_seed(g, links, seed_url, true).seen.contains(crate::repo::locator_key(seed_url)),
{
}

} // verus!
