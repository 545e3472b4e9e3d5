//! The index-backed retrievers: local, regulatory, boards and pages.
//!
//! They differ in what they point at and agree on everything else: one hybrid query over one index,
//! several configurations. What differs is what a passage means afterwards,
//! which the source class carries.
use vstd::prelude::*;

use crate::chars::{chars_of, first_where, lemma_first_where, same_text, string_of, sub_vec};
use crate::web::{last_segment, last_segment_exec, spaced, spaced_string};
use crate::chars::{last_of, last_of_exec, lemma_last_of};

verus! {

/// What distinguishes one index-backed retriever from another.
#[derive(Debug, Clone)]
pub struct IndexedConfig {
    /// The folders this retriever may read. An excluded folder is never named.
    pub folder_ids: Vec<String>,
    /// The class every Source it creates carries.
    pub source_class: String,
    /// The freshness class doctrine uses to decide when a citation goes stale.
    pub freshness_class: String,
}

impl IndexedConfig {
    /// A regulatory corpus is a subscription, so the folder
    /// is the corpus id.
    pub fn regulatory(corpus: String) -> (c: Self)
        ensures
            c.folder_ids@ == seq![corpus],
            c.source_class@ == "regulatory"@,
            c.freshness_class@ == "regulation"@,
    {
        let mut folder_ids = Vec::new();
        folder_ids.push(corpus);
        IndexedConfig {
            folder_ids,
            source_class: String::from_str("regulatory"),
            freshness_class: String::from_str("regulation"),
        }
    }

    /// The person's own watched folders.
    pub fn local(folder_ids: Vec<String>) -> (c: Self)
        ensures
            c.folder_ids == folder_ids,
            c.source_class@ == "local_document"@,
            c.freshness_class@ == "internal_policy"@,
    {
        IndexedConfig {
            folder_ids,
            source_class: String::from_str("local_document"),
            freshness_class: String::from_str("internal_policy"),
        }
    }

    /// A prior card is a source of its own class, so the
    /// Verifier can single it out.
    pub fn boards() -> (c: Self)
        ensures
            c.folder_ids@.len() == 1,
            c.folder_ids@[0]@ == "boards"@,
            c.source_class@ == "own_card"@,
            c.freshness_class@ == "internal_memo"@,
    {
        let mut folder_ids = Vec::new();
        folder_ids.push(String::from_str("boards"));
        IndexedConfig {
            folder_ids,
            source_class: String::from_str("own_card"),
            freshness_class: String::from_str("internal_memo"),
        }
    }

    /// The vault's pages are retrievable like any folder,
    /// under their own source class, `page`, because a page is context and the
    /// passages it carries are the evidence.
    pub fn pages(folder_ids: Vec<String>) -> (c: Self)
        ensures
            c.folder_ids == folder_ids,
            c.source_class@ == "page"@,
            c.freshness_class@ == "internal_memo"@,
    {
        IndexedConfig {
            folder_ids,
            source_class: String::from_str("page"),
            freshness_class: String::from_str("internal_memo"),
        }
    }
}

/// The boards retriever returns at most three passages.
pub const BOARDS_MAX_PASSAGES: usize = 3;

/// How many passages a retriever of this configuration returns for a request
/// of `max_passages`: the request, capped at three for prior cards.
pub fn passage_limit(config: &IndexedConfig, max_passages: usize) -> (n: usize)
    ensures
        n == if config.source_class@ == "own_card"@ && max_passages > BOARDS_MAX_PASSAGES {
            BOARDS_MAX_PASSAGES
        } else {
            max_passages
        },
{
    if same_text(config.source_class.as_str(), "own_card") && max_passages > BOARDS_MAX_PASSAGES {
        BOARDS_MAX_PASSAGES
    } else {
        max_passages
    }
}

/// The folders a request may read: the configuration's, narrowed to the one a
/// folder filter names. A filter naming a folder the retriever does not have
/// leaves nothing, which is the safe direction.
pub open spec fn narrowed(folder_ids: Seq<String>, folder: Option<Seq<char>>) -> Seq<String>
    decreases folder_ids.len(),
{
    match folder {
        None => folder_ids,
        Some(f) => if folder_ids.len() == 0 {
            folder_ids
        } else if folder_ids.last()@ == f {
            narrowed(folder_ids.drop_last(), folder).push(folder_ids.last())
        } else {
            narrowed(folder_ids.drop_last(), folder)
        },
    }
}

/// A folder filter can narrow but never widen: every folder left is one the
/// configuration has, and, under a filter, the one the filter names.
pub proof fn lemma_filter_never_widens(folder_ids: Seq<String>, folder: Option<Seq<char>>)
    ensures
        narrowed(folder_ids, folder).len() <= folder_ids.len(),
        forall|k: int|
            0 <= k < narrowed(folder_ids, folder).len() ==> folder_ids.contains(
                #[trigger] narrowed(folder_ids, folder)[k],
            ),
        forall|k: int|
            0 <= k < narrowed(folder_ids, folder).len() ==> match folder {
                Some(f) => (#[trigger] narrowed(folder_ids, folder)[k])@ == f,
                None => true,
            },
    decreases folder_ids.len(),
{
    if folder is Some && folder_ids.len() > 0 {
        let rest = folder_ids.drop_last();
        lemma_filter_never_widens(rest, folder);
        let n = narrowed(folder_ids, folder);
        let m = narrowed(rest, folder);
        assert forall|k: int| 0 <= k < n.len() implies folder_ids.contains(#[trigger] n[k]) by {
            if k < m.len() {
                assert(n[k] == m[k]);
                assert(rest.contains(m[k]));
                let j = choose|j: int| 0 <= j < rest.len() && rest[j] == m[k];
                assert(folder_ids[j] == m[k]);
            } else {
                assert(n[k] == folder_ids.last());
                assert(folder_ids[folder_ids.len() - 1] == n[k]);
            }
        }
        assert forall|k: int| 0 <= k < n.len() implies match folder {
            Some(f) => (#[trigger] n[k])@ == f,
            None => true,
        } by {
            if k < m.len() {
                assert(n[k] == m[k]);
            }
        }
    }
}

/// The folder filter.
pub fn narrow_folders(folder_ids: &Vec<String>, folder: Option<&str>) -> (r: Vec<String>)
    ensures
        r@ == narrowed(folder_ids@, crate::contract::opt_view(folder)),
{
    let mut r: Vec<String> = Vec::new();
    let mut i: usize = 0;
    while i < folder_ids.len()
        invariant
            i <= folder_ids@.len(),
            r@ == narrowed(folder_ids@.take(i as int), crate::contract::opt_view(folder)),
        decreases folder_ids@.len() - i,
    {
        assert(folder_ids@.take(i + 1).drop_last() == folder_ids@.take(i as int));
        let keep = match folder {
            None => true,
            Some(f) => same_text(folder_ids[i].as_str(), f),
        };
        if keep {
            r.push(folder_ids[i].clone());
        }
        i += 1;
    }
    assert(folder_ids@.take(folder_ids@.len() as int) == folder_ids@);
    r
}

/// The document a chunk reference names: the part of `<path>#<sequence>`
/// before the first `#`.
pub open spec fn locator_of_spec(document_ref: Seq<char>) -> Seq<char> {
    document_ref.take(first_where(document_ref, |c: char| c == '#'))
}

/// A citation points at a place in a document, not at a chunk boundary this
/// build happened to choose, so the locator is the document.
pub fn locator_of(document_ref: &str) -> (l: String)
    ensures
        l@ == locator_of_spec(document_ref@),
{
    let v = chars_of(document_ref);
    let mut i: usize = 0;
    assert(v@.skip(0) == v@);
    while i < v.len() && v[i] != '#'
        invariant
            i <= v@.len(),
            first_where(v@, |c: char| c == '#') == i + first_where(v@.skip(i as int), |c: char| c == '#'),
        decreases v@.len() - i,
    {
        assert(v@.skip(i as int).drop_first() == v@.skip(i + 1));
        i += 1;
    }
    assert(v@.skip(i as int).len() == 0 || v@.skip(i as int)[0] == v@[i as int]);
    let l = sub_vec(&v, 0, i);
    assert(v@.subrange(0, i as int) == v@.take(i as int));
    string_of(&l)
}

/// A readable title from a document reference: the last path segment without
/// its extension, dashes and underscores as spaces; a segment with no
/// extension gives the whole locator.
pub open spec fn document_title(locator: Seq<char>) -> Seq<char> {
    let seg = last_segment(locator);
    let stem = if last_of(seg, '.') >= 0 {
        seg.take(last_of(seg, '.'))
    } else {
        locator
    };
    spaced(stem)
}

/// A readable title from a document reference.
pub fn title_of(locator: &str) -> (t: String)
    ensures
        t@ == document_title(locator@),
{
    let l = chars_of(locator);
    let seg = last_segment_exec(&l);
    match last_of_exec(&seg, '.') {
        Some(dot) => {
            proof {
                lemma_last_of(seg@, '.');
            }
            let stem = sub_vec(&seg, 0, dot);
            assert(seg@.subrange(0, dot as int) == seg@.take(dot as int));
            spaced_string(&stem)
        },
        None => spaced_string(&l),
    }
}


/// The Source an index hit becomes: the configuration's class and freshness,
/// the document's title, the folder's label as its issuer, and doctrine's
/// rank for that class and issuer.
pub fn indexed_source(
    config: &IndexedConfig,
    locator: &str,
    issuer: Option<String>,
    doctrine: &crate::contract::Doctrine,
    version_ref: Option<String>,
    content_hash: String,
) -> (s: crate::contract::Source)
    ensures
        s.class@ == config.source_class@,
        s.title@ == document_title(locator@),
        s.locator@ == locator@,
        s.issuer == issuer,
        s.published_at is None,
        s.trust_rank == crate::contract::doctrine_rank(
            doctrine.trust_ranks@,
            config.source_class@,
            crate::chars::opt_string(issuer),
        ),
        s.freshness_class@ == config.freshness_class@,
        s.version_ref == version_ref,
        s.content_hash == content_hash,
{
    let trust_rank = match &issuer {
        Some(i) => doctrine.rank_for(config.source_class.as_str(), Some(i.as_str())),
        None => doctrine.rank_for(config.source_class.as_str(), None),
    };
    crate::contract::Source {
        class: config.source_class.clone(),
        title: title_of(locator),
        locator: String::from_str(locator),
        issuer,
        published_at: None,
        trust_rank,
        freshness_class: config.freshness_class.clone(),
        version_ref,
        content_hash,
    }
}

} // verus!
