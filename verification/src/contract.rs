//! What every retriever shares.
//!
//! Two rules live here rather than in each connector:
//! passage text is capped, and `trust_rank` comes from doctrine and never from
//! the retriever's own opinion of what it found.
use vstd::prelude::*;

use crate::chars::{chars_of, contains_chars, contains_seq, same_text, string_of, string_of_range};
use crate::chunking::MAX_PASSAGE_CHARS;

pub use crate::repo::normalise_locator as dedupe_key;

verus! {

/// One assignment.
#[derive(Debug, Clone)]
pub struct Packet {
    pub run_id: String,
    pub card_id: Option<String>,
    pub sq_id: Option<String>,
    pub retriever_id: String,
    pub query: String,
    pub filters: Filters,
    pub max_passages: usize,
    pub must_exclude: Vec<String>,
    /// Locators a lesson was told to read first.
    pub must_include: Vec<String>,
    pub doctrine: Doctrine,
}

/// How many passages an assignment asks for when it does not say.
pub fn default_max_passages() -> (n: usize)
    ensures
        n == 12,
{
    12
}

#[derive(Debug, Clone)]
pub struct Filters {
    pub corpus: Option<String>,
    pub folder: Option<String>,
    pub version_ref: Option<String>,
    pub language: Option<String>,
    pub exclude_board_id: Option<String>,
}

impl Default for Filters {
    fn default() -> (f: Self)
        ensures
            f.corpus is None && f.folder is None && f.version_ref is None && f.language is None
                && f.exclude_board_id is None,
    {
        Filters {
            corpus: None,
            folder: None,
            version_ref: None,
            language: None,
            exclude_board_id: None,
        }
    }
}

#[derive(Debug, Clone)]
pub struct Doctrine {
    pub trust_ranks: Vec<TrustRank>,
    pub denied_domains: Vec<String>,
}

impl Default for Doctrine {
    fn default() -> (d: Self)
        ensures
            d.trust_ranks@.len() == 0 && d.denied_domains@.len() == 0,
    {
        Doctrine { trust_ranks: Vec::new(), denied_domains: Vec::new() }
    }
}

#[derive(Debug, Clone)]
pub struct TrustRank {
    pub class: Option<String>,
    pub issuer_pattern: Option<String>,
    pub rank: i64,
}

/// The rank given to a source no doctrine rule speaks about.
/// The trust hierarchy bottoms out at 8, so such a source sorts last.
pub const UNRANKED: i64 = 9;

pub open spec fn opt_view(o: Option<&str>) -> Option<Seq<char>> {
    match o {
        Some(s) => Some(s@),
        None => None,
    }
}

/// How specifically `rule` speaks about a source of `class` from `issuer`:
/// 2 for a matching issuer pattern, 1 for a bare class rule, 0 when it does
/// not apply.
pub open spec fn specificity(rule: TrustRank, class: Seq<char>, issuer: Option<Seq<char>>) -> int {
    let class_matches = match rule.class {
        None => true,
        Some(c) => c@ == class,
    };
    if !class_matches {
        0
    } else {
        match rule.issuer_pattern {
            None => 1,
            Some(p) => match issuer {
                Some(name) => if contains_seq(name, p@) {
                    2
                } else {
                    0
                },
                None => 0,
            },
        }
    }
}

/// Rule `i` is the one doctrine applies: it applies, nothing applies more
/// specifically, and every earlier rule applies less specifically.
pub open spec fn chosen_rule(
    rules: Seq<TrustRank>,
    class: Seq<char>,
    issuer: Option<Seq<char>>,
    i: int,
) -> bool {
    &&& 0 <= i < rules.len()
    &&& specificity(rules[i], class, issuer) > 0
    &&& forall|j: int|
        0 <= j < rules.len() ==> specificity(#[trigger] rules[j], class, issuer) <= specificity(
            rules[i],
            class,
            issuer,
        )
    &&& forall|j: int|
        0 <= j < i ==> specificity(#[trigger] rules[j], class, issuer) < specificity(
            rules[i],
            class,
            issuer,
        )
}

/// The rank doctrine gives: the rank of the chosen rule, or `UNRANKED`
/// when no rule applies.
pub open spec fn doctrine_rank(rules: Seq<TrustRank>, class: Seq<char>, issuer: Option<Seq<char>>) -> i64 {
    if exists|i: int| chosen_rule(rules, class, issuer, i) {
        rules[choose|i: int| chosen_rule(rules, class, issuer, i)].rank
    } else {
        UNRANKED
    }
}

/// At most one rule is the chosen one.
pub proof fn lemma_chosen_rule_unique(
    rules: Seq<TrustRank>,
    class: Seq<char>,
    issuer: Option<Seq<char>>,
    i: int,
    j: int,
)
    requires
        chosen_rule(rules, class, issuer, i),
        chosen_rule(rules, class, issuer, j),
    ensures
        i == j,
{
    if i < j {
        assert(specificity(rules[i], class, issuer) < specificity(rules[j], class, issuer));
    } else if j < i {
        assert(specificity(rules[j], class, issuer) < specificity(rules[i], class, issuer));
    }
}

impl Doctrine {
    /// The rank doctrine gives a source: never the
    /// retriever's own judgment.
    ///
    /// The most specific rule wins, so an issuer pattern beats a bare class;
    /// among equally specific rules the first listed wins; a source no rule
    /// speaks about is `UNRANKED`.
    pub fn rank_for(&self, class: &str, issuer: Option<&str>) -> (r: i64)
        ensures
            (forall|i: int|
                0 <= i < self.trust_ranks@.len() ==> specificity(
                    #[trigger] self.trust_ranks@[i],
                    class@,
                    opt_view(issuer),
                ) == 0) ==> r == UNRANKED,
            (exists|i: int|
                0 <= i < self.trust_ranks@.len() && specificity(
                    #[trigger] self.trust_ranks@[i],
                    class@,
                    opt_view(issuer),
                ) > 0) ==> exists|i: int|
                chosen_rule(self.trust_ranks@, class@, opt_view(issuer), i) && r
                    == #[trigger] self.trust_ranks@[i].rank,
            r == doctrine_rank(self.trust_ranks@, class@, opt_view(issuer)),
    {
        let rules = &self.trust_ranks;
        let ghost cls = class@;
        let ghost iss = opt_view(issuer);
        let mut best_spec: u8 = 0;
        let mut best_rank: i64 = 0;
        let ghost mut best_index: int = -1;
        let mut k: usize = 0;
        while k < rules.len()
            invariant
                k <= rules@.len(),
                rules == &self.trust_ranks,
                cls == class@,
                iss == opt_view(issuer),
                best_spec == 0 ==> forall|j: int|
                    0 <= j < k ==> specificity(#[trigger] rules@[j], cls, iss) == 0,
                best_spec > 0 ==> {
                    &&& 0 <= best_index < k
                    &&& best_spec == specificity(rules@[best_index], cls, iss)
                    &&& best_rank == rules@[best_index].rank
                    &&& forall|j: int|
                        0 <= j < k ==> specificity(#[trigger] rules@[j], cls, iss) <= best_spec
                    &&& forall|j: int|
                        0 <= j < best_index ==> specificity(#[trigger] rules@[j], cls, iss)
                            < best_spec
                },
                best_spec <= 2,
            decreases rules@.len() - k,
        {
            let rule = &rules[k];
            let class_matches = match &rule.class {
                None => true,
                Some(c) => same_text(c.as_str(), class),
            };
            let spec: u8 = if !class_matches {
                0
            } else {
                match &rule.issuer_pattern {
                    None => 1,
                    Some(pattern) => match issuer {
                        Some(name) => if contains_chars(&chars_of(name), &chars_of(pattern.as_str())) {
                            2
                        } else {
                            0
                        },
                        None => 0,
                    },
                }
            };
            assert(spec == specificity(rules@[k as int], cls, iss));
            if spec > best_spec {
                best_spec = spec;
                best_rank = rule.rank;
                proof {
                    best_index = k as int;
                }
            }
            k += 1;
        }
        if best_spec == 0 {
            assert(!exists|i: int| chosen_rule(self.trust_ranks@, class@, opt_view(issuer), i));
            UNRANKED
        } else {
            assert(chosen_rule(self.trust_ranks@, class@, opt_view(issuer), best_index));
            proof {
                let c = choose|i: int| chosen_rule(self.trust_ranks@, class@, opt_view(issuer), i);
                lemma_chosen_rule_unique(self.trust_ranks@, class@, opt_view(issuer), c, best_index);
            }
            best_rank
        }
    }
}

/// The source a passage came from.
#[derive(Debug, Clone)]
pub struct Source {
    pub class: String,
    pub title: String,
    pub locator: String,
    pub issuer: Option<String>,
    pub published_at: Option<String>,
    pub trust_rank: i64,
    pub freshness_class: String,
    pub version_ref: Option<String>,
    pub content_hash: String,
}

/// Coverage, which is what confidence is mostly built from.
#[derive(Debug, Clone, Copy, PartialEq, Eq, Structural)]
pub enum Coverage {
    Full,
    Partial,
    Nothing,
}

/// Coverage of a result of `found` passages against a request for `limit`:
/// `None` for nothing, `Full` only when the request was filled.
pub fn coverage_for(found: usize, limit: usize) -> (c: Coverage)
    ensures
        c == (if found == 0 {
            Coverage::Nothing
        } else if found >= limit {
            Coverage::Full
        } else {
            Coverage::Partial
        }),
{
    if found == 0 {
        Coverage::Nothing
    } else if found >= limit {
        Coverage::Full
    } else {
        Coverage::Partial
    }
}

/// Confidence, in hundredths: coverage full is 40, at
/// least one source of trust rank 1 or 2 is 30, no fetch errors is 20, and a
/// query that was not rewritten is 10.
pub fn confidence_percent(
    coverage: Coverage,
    has_trusted_source: bool,
    fetch_errors: usize,
    query_rewritten: bool,
) -> (p: u32)
    ensures
        p == (if coverage == Coverage::Full {
            40int
        } else {
            0
        }) + (if has_trusted_source {
            30int
        } else {
            0
        }) + (if fetch_errors == 0 {
            20int
        } else {
            0
        }) + (if !query_rewritten {
            10int
        } else {
            0
        }),
        p <= 100,
{
    let mut p: u32 = 0;
    if coverage == Coverage::Full {
        p += 40;
    }
    if has_trusted_source {
        p += 30;
    }
    if fetch_errors == 0 {
        p += 20;
    }
    if !query_rewritten {
        p += 10;
    }
    p
}

/// `text` cut to at most `MAX_PASSAGE_CHARS` characters.
pub open spec fn capped_text(text: Seq<char>) -> Seq<char> {
    if text.len() <= MAX_PASSAGE_CHARS {
        text
    } else {
        text.take(MAX_PASSAGE_CHARS as int)
    }
}

/// Cap passage text at 1,200 characters.
///
/// Applied centrally rather than per connector, because a cap each connector
/// remembers separately is a cap one of them forgets.
pub fn cap(text: &str) -> (r: String)
    ensures
        r@ == capped_text(text@),
        r@.len() <= MAX_PASSAGE_CHARS,
{
    let chars = chars_of(text);
    if chars.len() <= MAX_PASSAGE_CHARS {
        string_of(&chars)
    } else {
        let r = string_of_range(&chars, 0, MAX_PASSAGE_CHARS);
        assert(chars@.subrange(0, MAX_PASSAGE_CHARS as int) == chars@.take(
            MAX_PASSAGE_CHARS as int,
        ));
        r
    }
}

/// Capping is idempotent: a capped text caps to itself.
pub proof fn lemma_cap_idempotent(text: Seq<char>)
    ensures
        capped_text(capped_text(text)) == capped_text(text),
{
}

/// A rule that names no class speaks about every class: on its own it gives
/// its rank to a source of any class, when it names no issuer or its issuer
/// pattern occurs in the source's issuer.
pub proof fn lemma_classless_rule_applies_to_every_class(
    rule: TrustRank,
    class: Seq<char>,
    issuer: Option<Seq<char>>,
)
    requires
        rule.class is None,
        match rule.issuer_pattern {
            None => true,
            Some(p) => issuer matches Some(name) && contains_seq(name, p@),
        },
    ensures
        doctrine_rank(seq![rule], class, issuer) == rule.rank,
{
    let rules = seq![rule];
    assert(rules[0] == rule);
    assert(specificity(rule, class, issuer) > 0);
    assert(chosen_rule(rules, class, issuer, 0));
    let i = choose|i: int| chosen_rule(rules, class, issuer, i);
    assert(i == 0);
}

} // verus!
