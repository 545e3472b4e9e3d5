//! The event envelope.
//!
//! Every action in Tessera is an event, including the user's own, which is what
//! makes "who changed what" answerable without a second mechanism.
use vstd::prelude::*;

use crate::chars::same_text;

verus! {

/// Where an event came from.
///
/// `test` and `replay` are filtered out of policy hooks, so
/// an eval run cannot trip a rule meant for live work.
#[derive(Debug, Clone, Copy, PartialEq, Eq, Structural)]
pub enum Source {
    Live,
    Test,
    Replay,
    Healthcheck,
    Harness,
}

impl Source {
    pub open spec fn name(self) -> Seq<char> {
        match self {
            Source::Live => "live"@,
            Source::Test => "test"@,
            Source::Replay => "replay"@,
            Source::Healthcheck => "healthcheck"@,
            Source::Harness => "harness"@,
        }
    }

    pub fn as_str(self) -> (s: &'static str)
        ensures
            s@ == self.name(),
    {
        match self {
            Source::Live => "live",
            Source::Test => "test",
            Source::Replay => "replay",
            Source::Healthcheck => "healthcheck",
            Source::Harness => "harness",
        }
    }

    /// Policy checks fire on live and healthcheck events only: never on
    /// replay, test or harness provenance.
    pub fn fires_policy_hooks(self) -> (b: bool)
        ensures
            b == (self == Source::Live || self == Source::Healthcheck),
    {
        match self {
            Source::Live | Source::Healthcheck => true,
            _ => false,
        }
    }
}

#[derive(Debug, Clone, Copy, PartialEq, Eq, Structural)]
pub enum EmitterType {
    Agent,
    Harness,
    User,
    Retriever,
}

impl EmitterType {
    pub open spec fn name(self) -> Seq<char> {
        match self {
            EmitterType::Agent => "agent"@,
            EmitterType::Harness => "harness"@,
            EmitterType::User => "user"@,
            EmitterType::Retriever => "retriever"@,
        }
    }

    pub fn as_str(self) -> (s: &'static str)
        ensures
            s@ == self.name(),
    {
        match self {
            EmitterType::Agent => "agent",
            EmitterType::Harness => "harness",
            EmitterType::User => "user",
            EmitterType::Retriever => "retriever",
        }
    }
}

#[derive(Debug, Clone, Copy, PartialEq, Eq, Structural)]
pub enum TrustLevel {
    Verified,
    Unverified,
    Degraded,
}

impl TrustLevel {
    pub open spec fn name(self) -> Seq<char> {
        match self {
            TrustLevel::Verified => "verified"@,
            TrustLevel::Unverified => "unverified"@,
            TrustLevel::Degraded => "degraded"@,
        }
    }

    pub fn as_str(self) -> (s: &'static str)
        ensures
            s@ == self.name(),
    {
        match self {
            TrustLevel::Verified => "verified",
            TrustLevel::Unverified => "unverified",
            TrustLevel::Degraded => "degraded",
        }
    }
}

#[derive(Debug, Clone, PartialEq, Eq)]
pub struct Provenance {
    pub source: Source,
    pub emitter_id: String,
    pub emitter_type: EmitterType,
    pub run_id: Option<String>,
    pub trust_level: TrustLevel,
}

impl Provenance {
    /// An event the user caused: verified, because the user is the authority
    /// on their own actions.
    pub fn user() -> (p: Self)
        ensures
            p.source == Source::Live,
            p.emitter_id@ == "user"@,
            p.emitter_type == EmitterType::User,
            p.run_id is None,
            p.trust_level == TrustLevel::Verified,
    {
        Provenance {
            source: Source::Live,
            emitter_id: String::from_str("user"),
            emitter_type: EmitterType::User,
            run_id: None,
            trust_level: TrustLevel::Verified,
        }
    }

    pub fn harness(emitter_id: String, run_id: Option<String>) -> (p: Self)
        ensures
            p.source == Source::Live,
            p.emitter_id == emitter_id,
            p.emitter_type == EmitterType::Harness,
            p.run_id == run_id,
            p.trust_level == TrustLevel::Verified,
    {
        Provenance {
            source: Source::Live,
            emitter_id,
            emitter_type: EmitterType::Harness,
            run_id,
            trust_level: TrustLevel::Verified,
        }
    }

    /// An agent's output is unverified until the Verifier has seen it.
    pub fn agent(agent_id: String, run_id: String) -> (p: Self)
        ensures
            p.source == Source::Live,
            p.emitter_id == agent_id,
            p.emitter_type == EmitterType::Agent,
            p.run_id == Some(run_id),
            p.trust_level == TrustLevel::Unverified,
    {
        Provenance {
            source: Source::Live,
            emitter_id: agent_id,
            emitter_type: EmitterType::Agent,
            run_id: Some(run_id),
            trust_level: TrustLevel::Unverified,
        }
    }

    /// A retriever: its own emitter type, because retrievers are the only
    /// agents that reach data from outside the profile. Unverified, because
    /// evidence is not a verdict.
    pub fn retriever(retriever_id: String, run_id: String) -> (p: Self)
        ensures
            p.source == Source::Live,
            p.emitter_id == retriever_id,
            p.emitter_type == EmitterType::Retriever,
            p.run_id == Some(run_id),
            p.trust_level == TrustLevel::Unverified,
    {
        Provenance {
            source: Source::Live,
            emitter_id: retriever_id,
            emitter_type: EmitterType::Retriever,
            run_id: Some(run_id),
            trust_level: TrustLevel::Unverified,
        }
    }

    pub fn with_source(self, source: Source) -> (p: Self)
        ensures
            p == (Provenance { source, ..self }),
    {
        let mut p = self;
        p.source = source;
        p
    }

    pub fn with_trust(self, trust_level: TrustLevel) -> (p: Self)
        ensures
            p == (Provenance { trust_level, ..self }),
    {
        let mut p = self;
        p.trust_level = trust_level;
        p
    }
}

/// The v1 event vocabulary, including the Learn mode's names.
///
/// An event type outside it is rejected at the boundary, which is how a typo
/// in an agent becomes a failure rather than a silently unreadable audit trail.
pub const EVENT_VOCABULARY: [&'static str; 73] = [
    "board.created.v1",
    "board.renamed.v1",
    "board.trashed.v1",
    "board.restored.v1",
    "board.purged.v1",
    "board.pack_updated.v1",
    "board.exported.v1",
    "board.imported.v1",
    "card.requested.v1",
    "card.routed.v1",
    "card.planned.v1",
    "card.synthesized.v1",
    "card.answered.v1",
    "card.rerun.v1",
    "card.failed.v1",
    "card.superseded.v1",
    "card.blocked.v1",
    "retrieval.started.v1",
    "retrieval.completed.v1",
    "source.created.v1",
    "source.deduplicated.v1",
    "source.stale.v1",
    "source.proposed.v1",
    "visual.produced.v1",
    "visual.sanitised.v1",
    "visual.declined.v1",
    "citation.bound.v1",
    "citation.verdict.v1",
    "verify.completed.v1",
    "flag.raised.v1",
    "review.decided.v1",
    "concept.proposed.v1",
    "concept.confirmed.v1",
    "concept.linked.v1",
    "entity.resolved.v1",
    "image.pasted.v1",
    "image.generated.v1",
    "sketch.rasterised.v1",
    "read.completed.v1",
    "ink.added.v1",
    "ink.erased.v1",
    "note.added.v1",
    "note.edited.v1",
    "page.created.v1",
    "page.created_from_card.v1",
    "page.edited.v1",
    "page.renamed.v1",
    "page.deleted.v1",
    "page.link_resolved.v1",
    "page.link_unresolved.v1",
    "notebook.asked.v1",
    "notebook.grounding.v1",
    "exercise.generated.v1",
    "attempt.recorded.v1",
    "exercise.item_reported.v1",
    "pack.imported.v1",
    "pack.activated.v1",
    "index.folder_added.v1",
    "index.updated.v1",
    "index.folder_removed.v1",
    "model.call.v1",
    "model.fallback.v1",
    "schema.violation.v1",
    "hook.denied.v1",
    "context.stale_noted.v1",
    "run.compacted.v1",
    "learn.started.v1",
    "learn.intake_answered.v1",
    "learn.planned.v1",
    "learn.check_asked.v1",
    "learn.check_answered.v1",
    "learn.card_opened.v1",
    "learn.ended.v1",
];

/// Whether an event type is in the vocabulary.
pub open spec fn is_known(t: Seq<char>) -> bool {
    exists|i: int| 0 <= i < EVENT_VOCABULARY@.len() && (#[trigger] EVENT_VOCABULARY@[i])@ == t
}

/// Whether `t` is in the vocabulary.
pub fn is_known_event_type(t: &str) -> (b: bool)
    ensures
        b == is_known(t@),
{
    let mut i: usize = 0;
    while i < EVENT_VOCABULARY.len()
        invariant
            i <= EVENT_VOCABULARY@.len(),
            forall|j: int| 0 <= j < i ==> (#[trigger] EVENT_VOCABULARY@[j])@ != t@,
        decreases EVENT_VOCABULARY@.len() - i,
    {
        if same_text(EVENT_VOCABULARY[i], t) {
            return true;
        }
        i += 1;
    }
    false
}

/// The source a stored name reads back as. Anything unknown reads as `live`.
pub open spec fn source_named(s: Seq<char>) -> Source {
    if s == "test"@ {
        Source::Test
    } else if s == "replay"@ {
        Source::Replay
    } else if s == "healthcheck"@ {
        Source::Healthcheck
    } else if s == "harness"@ {
        Source::Harness
    } else {
        Source::Live
    }
}

pub fn parse_source(s: &str) -> (r: Source)
    ensures
        r == source_named(s@),
{
    if same_text(s, "test") {
        Source::Test
    } else if same_text(s, "replay") {
        Source::Replay
    } else if same_text(s, "healthcheck") {
        Source::Healthcheck
    } else if same_text(s, "harness") {
        Source::Harness
    } else {
        Source::Live
    }
}

/// The emitter a stored name reads back as. Anything unknown reads as `agent`.
pub open spec fn emitter_named(s: Seq<char>) -> EmitterType {
    if s == "harness"@ {
        EmitterType::Harness
    } else if s == "user"@ {
        EmitterType::User
    } else if s == "retriever"@ {
        EmitterType::Retriever
    } else {
        EmitterType::Agent
    }
}

pub fn parse_emitter(s: &str) -> (r: EmitterType)
    ensures
        r == emitter_named(s@),
{
    if same_text(s, "harness") {
        EmitterType::Harness
    } else if same_text(s, "user") {
        EmitterType::User
    } else if same_text(s, "retriever") {
        EmitterType::Retriever
    } else {
        EmitterType::Agent
    }
}

/// The trust level a stored name reads back as. Anything unknown reads as
/// `unverified`.
pub open spec fn trust_named(s: Seq<char>) -> TrustLevel {
    if s == "verified"@ {
        TrustLevel::Verified
    } else if s == "degraded"@ {
        TrustLevel::Degraded
    } else {
        TrustLevel::Unverified
    }
}

pub fn parse_trust(s: &str) -> (r: TrustLevel)
    ensures
        r == trust_named(s@),
{
    if same_text(s, "verified") {
        TrustLevel::Verified
    } else if same_text(s, "degraded") {
        TrustLevel::Degraded
    } else {
        TrustLevel::Unverified
    }
}

/// What is written to the log reads back as what was written: every source,
/// emitter type and trust level survives its stored name.
pub proof fn lemma_names_round_trip(s: Source, e: EmitterType, t: TrustLevel)
    ensures
        source_named(s.name()) == s,
        emitter_named(e.name()) == e,
        trust_named(t.name()) == t,
{
    reveal_strlit("live");
    reveal_strlit("test");
    reveal_strlit("replay");
    reveal_strlit("healthcheck");
    reveal_strlit("harness");
    reveal_strlit("agent");
    reveal_strlit("user");
    reveal_strlit("retriever");
    reveal_strlit("verified");
    reveal_strlit("unverified");
    reveal_strlit("degraded");
    // Each name differs from every other in its first character or length.
    assert("live"@[0] != "test"@[0]);
    assert("replay"@.len() != "test"@.len());
    assert("healthcheck"@[0] != "test"@[0] && "healthcheck"@[0] != "replay"@[0]);
    assert("harness"@.len() != "test"@.len() && "harness"@.len() != "replay"@.len());
    assert("harness"@.len() != "healthcheck"@.len());
    assert("agent"@[0] != "harness"@[0] && "agent"@[0] != "user"@[0]);
    assert("agent"@[0] != "retriever"@[0]);
    assert("user"@[0] != "harness"@[0]);
    assert("retriever"@[0] != "harness"@[0] && "retriever"@[0] != "user"@[0]);
    assert("unverified"@[0] != "verified"@[0] && "unverified"@[0] != "degraded"@[0]);
    assert("degraded"@[0] != "verified"@[0]);
}


/// Whether an event may be appended: its type must be in the vocabulary,
/// because an event type outside it is something nothing can read back.
pub fn check_event_type(event_type: &str) -> (r: Result<(), crate::store_error::StoreError>)
    ensures
        is_known(event_type@) ==> r is Ok,
        !is_known(event_type@) ==> (r matches Err(crate::store_error::StoreError::UnknownEventType(t))
            && t@ == event_type@),
{
    if is_known_event_type(event_type) {
        Ok(())
    } else {
        Err(crate::store_error::StoreError::UnknownEventType(String::from_str(event_type)))
    }
}

/// How every event type is written: at least three parts separated by dots,
/// none of them empty, the last being `v1`.
pub open spec fn versioned(t: Seq<char>) -> bool {
    &&& t.len() >= 5
    &&& t[t.len() - 3] == '.' && t[t.len() - 2] == 'v' && t[t.len() - 1] == '1'
    &&& exists|k: int| 0 < k < t.len() - 4 && t[k] == '.'
}

/// Every event type in the vocabulary is versioned, and none occurs twice.
#[verifier::rlimit(100)]
pub proof fn lemma_vocabulary_is_versioned_and_distinct()
    ensures
        forall|i: int| 0 <= i < EVENT_VOCABULARY@.len() ==> versioned(#[trigger] EVENT_VOCABULARY@[i]@),
        forall|i: int, j: int|
            0 <= i < j < EVENT_VOCABULARY@.len() ==> (#[trigger] EVENT_VOCABULARY@[i])@
                != (#[trigger] EVENT_VOCABULARY@[j])@,
{
    reveal_strlit("board.created.v1");
    reveal_strlit("board.renamed.v1");
    reveal_strlit("board.trashed.v1");
    reveal_strlit("board.restored.v1");
    reveal_strlit("board.purged.v1");
    reveal_strlit("board.pack_updated.v1");
    reveal_strlit("board.exported.v1");
    reveal_strlit("board.imported.v1");
    reveal_strlit("card.requested.v1");
    reveal_strlit("card.routed.v1");
    reveal_strlit("card.planned.v1");
    reveal_strlit("card.synthesized.v1");
    reveal_strlit("card.answered.v1");
    reveal_strlit("card.rerun.v1");
    reveal_strlit("card.failed.v1");
    reveal_strlit("card.superseded.v1");
    reveal_strlit("card.blocked.v1");
    reveal_strlit("retrieval.started.v1");
    reveal_strlit("retrieval.completed.v1");
    reveal_strlit("source.created.v1");
    reveal_strlit("source.deduplicated.v1");
    reveal_strlit("source.stale.v1");
    reveal_strlit("source.proposed.v1");
    reveal_strlit("visual.produced.v1");
    reveal_strlit("visual.sanitised.v1");
    reveal_strlit("visual.declined.v1");
    reveal_strlit("citation.bound.v1");
    reveal_strlit("citation.verdict.v1");
    reveal_strlit("verify.completed.v1");
    reveal_strlit("flag.raised.v1");
    reveal_strlit("review.decided.v1");
    reveal_strlit("concept.proposed.v1");
    reveal_strlit("concept.confirmed.v1");
    reveal_strlit("concept.linked.v1");
    reveal_strlit("entity.resolved.v1");
    reveal_strlit("image.pasted.v1");
    reveal_strlit("image.generated.v1");
    reveal_strlit("sketch.rasterised.v1");
    reveal_strlit("read.completed.v1");
    reveal_strlit("ink.added.v1");
    reveal_strlit("ink.erased.v1");
    reveal_strlit("note.added.v1");
    reveal_strlit("note.edited.v1");
    reveal_strlit("page.created.v1");
    reveal_strlit("page.created_from_card.v1");
    reveal_strlit("page.edited.v1");
    reveal_strlit("page.renamed.v1");
    reveal_strlit("page.deleted.v1");
    reveal_strlit("page.link_resolved.v1");
    reveal_strlit("page.link_unresolved.v1");
    reveal_strlit("notebook.asked.v1");
    reveal_strlit("notebook.grounding.v1");
    reveal_strlit("exercise.generated.v1");
    reveal_strlit("attempt.recorded.v1");
    reveal_strlit("exercise.item_reported.v1");
    reveal_strlit("pack.imported.v1");
    reveal_strlit("pack.activated.v1");
    reveal_strlit("index.folder_added.v1");
    reveal_strlit("index.updated.v1");
    reveal_strlit("index.folder_removed.v1");
    reveal_strlit("model.call.v1");
    reveal_strlit("model.fallback.v1");
    reveal_strlit("schema.violation.v1");
    reveal_strlit("hook.denied.v1");
    reveal_strlit("context.stale_noted.v1");
    reveal_strlit("run.compacted.v1");
    reveal_strlit("learn.started.v1");
    reveal_strlit("learn.intake_answered.v1");
    reveal_strlit("learn.planned.v1");
    reveal_strlit("learn.check_asked.v1");
    reveal_strlit("learn.check_answered.v1");
    reveal_strlit("learn.card_opened.v1");
    reveal_strlit("learn.ended.v1");
    // The characters that tell the names apart, and those that show their shape.
    assert(EVENT_VOCABULARY@[0]@.len() == 16 && EVENT_VOCABULARY@[0]@[0] == 'b' && EVENT_VOCABULARY@[0]@[5] == '.' && EVENT_VOCABULARY@[0]@[6] == 'c' && EVENT_VOCABULARY@[0]@[13] == '.' && EVENT_VOCABULARY@[0]@[14] == 'v' && EVENT_VOCABULARY@[0]@[15] == '1');
    assert(EVENT_VOCABULARY@[1]@.len() == 16 && EVENT_VOCABULARY@[1]@[0] == 'b' && EVENT_VOCABULARY@[1]@[5] == '.' && EVENT_VOCABULARY@[1]@[6] == 'r' && EVENT_VOCABULARY@[1]@[8] == 'n' && EVENT_VOCABULARY@[1]@[13] == '.' && EVENT_VOCABULARY@[1]@[14] == 'v' && EVENT_VOCABULARY@[1]@[15] == '1');
    assert(EVENT_VOCABULARY@[2]@.len() == 16 && EVENT_VOCABULARY@[2]@[0] == 'b' && EVENT_VOCABULARY@[2]@[5] == '.' && EVENT_VOCABULARY@[2]@[6] == 't' && EVENT_VOCABULARY@[2]@[13] == '.' && EVENT_VOCABULARY@[2]@[14] == 'v' && EVENT_VOCABULARY@[2]@[15] == '1');
    assert(EVENT_VOCABULARY@[3]@.len() == 17 && EVENT_VOCABULARY@[3]@[0] == 'b' && EVENT_VOCABULARY@[3]@[5] == '.' && EVENT_VOCABULARY@[3]@[6] == 'r' && EVENT_VOCABULARY@[3]@[8] == 's' && EVENT_VOCABULARY@[3]@[14] == '.' && EVENT_VOCABULARY@[3]@[15] == 'v' && EVENT_VOCABULARY@[3]@[16] == '1');
    assert(EVENT_VOCABULARY@[4]@.len() == 15 && EVENT_VOCABULARY@[4]@[0] == 'b' && EVENT_VOCABULARY@[4]@[5] == '.' && EVENT_VOCABULARY@[4]@[6] == 'p' && EVENT_VOCABULARY@[4]@[7] == 'u' && EVENT_VOCABULARY@[4]@[12] == '.' && EVENT_VOCABULARY@[4]@[13] == 'v' && EVENT_VOCABULARY@[4]@[14] == '1');
    assert(EVENT_VOCABULARY@[5]@.len() == 21 && EVENT_VOCABULARY@[5]@[0] == 'b' && EVENT_VOCABULARY@[5]@[5] == '.' && EVENT_VOCABULARY@[5]@[6] == 'p' && EVENT_VOCABULARY@[5]@[7] == 'a' && EVENT_VOCABULARY@[5]@[18] == '.' && EVENT_VOCABULARY@[5]@[19] == 'v' && EVENT_VOCABULARY@[5]@[20] == '1');
    assert(EVENT_VOCABULARY@[6]@.len() == 17 && EVENT_VOCABULARY@[6]@[0] == 'b' && EVENT_VOCABULARY@[6]@[5] == '.' && EVENT_VOCABULARY@[6]@[6] == 'e' && EVENT_VOCABULARY@[6]@[14] == '.' && EVENT_VOCABULARY@[6]@[15] == 'v' && EVENT_VOCABULARY@[6]@[16] == '1');
    assert(EVENT_VOCABULARY@[7]@.len() == 17 && EVENT_VOCABULARY@[7]@[0] == 'b' && EVENT_VOCABULARY@[7]@[5] == '.' && EVENT_VOCABULARY@[7]@[6] == 'i' && EVENT_VOCABULARY@[7]@[14] == '.' && EVENT_VOCABULARY@[7]@[15] == 'v' && EVENT_VOCABULARY@[7]@[16] == '1');
    assert(EVENT_VOCABULARY@[8]@.len() == 17 && EVENT_VOCABULARY@[8]@[0] == 'c' && EVENT_VOCABULARY@[8]@[1] == 'a' && EVENT_VOCABULARY@[8]@[4] == '.' && EVENT_VOCABULARY@[8]@[5] == 'r' && EVENT_VOCABULARY@[8]@[6] == 'e' && EVENT_VOCABULARY@[8]@[7] == 'q' && EVENT_VOCABULARY@[8]@[14] == '.' && EVENT_VOCABULARY@[8]@[15] == 'v' && EVENT_VOCABULARY@[8]@[16] == '1');
    assert(EVENT_VOCABULARY@[9]@.len() == 14 && EVENT_VOCABULARY@[9]@[0] == 'c' && EVENT_VOCABULARY@[9]@[1] == 'a' && EVENT_VOCABULARY@[9]@[4] == '.' && EVENT_VOCABULARY@[9]@[5] == 'r' && EVENT_VOCABULARY@[9]@[6] == 'o' && EVENT_VOCABULARY@[9]@[11] == '.' && EVENT_VOCABULARY@[9]@[12] == 'v' && EVENT_VOCABULARY@[9]@[13] == '1');
    assert(EVENT_VOCABULARY@[10]@.len() == 15 && EVENT_VOCABULARY@[10]@[0] == 'c' && EVENT_VOCABULARY@[10]@[1] == 'a' && EVENT_VOCABULARY@[10]@[4] == '.' && EVENT_VOCABULARY@[10]@[5] == 'p' && EVENT_VOCABULARY@[10]@[12] == '.' && EVENT_VOCABULARY@[10]@[13] == 'v' && EVENT_VOCABULARY@[10]@[14] == '1');
    assert(EVENT_VOCABULARY@[11]@.len() == 19 && EVENT_VOCABULARY@[11]@[0] == 'c' && EVENT_VOCABULARY@[11]@[1] == 'a' && EVENT_VOCABULARY@[11]@[4] == '.' && EVENT_VOCABULARY@[11]@[5] == 's' && EVENT_VOCABULARY@[11]@[6] == 'y' && EVENT_VOCABULARY@[11]@[16] == '.' && EVENT_VOCABULARY@[11]@[17] == 'v' && EVENT_VOCABULARY@[11]@[18] == '1');
    assert(EVENT_VOCABULARY@[12]@.len() == 16 && EVENT_VOCABULARY@[12]@[0] == 'c' && EVENT_VOCABULARY@[12]@[1] == 'a' && EVENT_VOCABULARY@[12]@[4] == '.' && EVENT_VOCABULARY@[12]@[5] == 'a' && EVENT_VOCABULARY@[12]@[13] == '.' && EVENT_VOCABULARY@[12]@[14] == 'v' && EVENT_VOCABULARY@[12]@[15] == '1');
    assert(EVENT_VOCABULARY@[13]@.len() == 13 && EVENT_VOCABULARY@[13]@[0] == 'c' && EVENT_VOCABULARY@[13]@[1] == 'a' && EVENT_VOCABULARY@[13]@[4] == '.' && EVENT_VOCABULARY@[13]@[5] == 'r' && EVENT_VOCABULARY@[13]@[6] == 'e' && EVENT_VOCABULARY@[13]@[7] == 'r' && EVENT_VOCABULARY@[13]@[10] == '.' && EVENT_VOCABULARY@[13]@[11] == 'v' && EVENT_VOCABULARY@[13]@[12] == '1');
    assert(EVENT_VOCABULARY@[14]@.len() == 14 && EVENT_VOCABULARY@[14]@[0] == 'c' && EVENT_VOCABULARY@[14]@[1] == 'a' && EVENT_VOCABULARY@[14]@[4] == '.' && EVENT_VOCABULARY@[14]@[5] == 'f' && EVENT_VOCABULARY@[14]@[11] == '.' && EVENT_VOCABULARY@[14]@[12] == 'v' && EVENT_VOCABULARY@[14]@[13] == '1');
    assert(EVENT_VOCABULARY@[15]@.len() == 18 && EVENT_VOCABULARY@[15]@[0] == 'c' && EVENT_VOCABULARY@[15]@[1] == 'a' && EVENT_VOCABULARY@[15]@[4] == '.' && EVENT_VOCABULARY@[15]@[5] == 's' && EVENT_VOCABULARY@[15]@[6] == 'u' && EVENT_VOCABULARY@[15]@[15] == '.' && EVENT_VOCABULARY@[15]@[16] == 'v' && EVENT_VOCABULARY@[15]@[17] == '1');
    assert(EVENT_VOCABULARY@[16]@.len() == 15 && EVENT_VOCABULARY@[16]@[0] == 'c' && EVENT_VOCABULARY@[16]@[1] == 'a' && EVENT_VOCABULARY@[16]@[4] == '.' && EVENT_VOCABULARY@[16]@[5] == 'b' && EVENT_VOCABULARY@[16]@[12] == '.' && EVENT_VOCABULARY@[16]@[13] == 'v' && EVENT_VOCABULARY@[16]@[14] == '1');
    assert(EVENT_VOCABULARY@[17]@.len() == 20 && EVENT_VOCABULARY@[17]@[0] == 'r' && EVENT_VOCABULARY@[17]@[1] == 'e' && EVENT_VOCABULARY@[17]@[2] == 't' && EVENT_VOCABULARY@[17]@[9] == '.' && EVENT_VOCABULARY@[17]@[10] == 's' && EVENT_VOCABULARY@[17]@[17] == '.' && EVENT_VOCABULARY@[17]@[18] == 'v' && EVENT_VOCABULARY@[17]@[19] == '1');
    assert(EVENT_VOCABULARY@[18]@.len() == 22 && EVENT_VOCABULARY@[18]@[0] == 'r' && EVENT_VOCABULARY@[18]@[1] == 'e' && EVENT_VOCABULARY@[18]@[2] == 't' && EVENT_VOCABULARY@[18]@[9] == '.' && EVENT_VOCABULARY@[18]@[10] == 'c' && EVENT_VOCABULARY@[18]@[19] == '.' && EVENT_VOCABULARY@[18]@[20] == 'v' && EVENT_VOCABULARY@[18]@[21] == '1');
    assert(EVENT_VOCABULARY@[19]@.len() == 17 && EVENT_VOCABULARY@[19]@[0] == 's' && EVENT_VOCABULARY@[19]@[1] == 'o' && EVENT_VOCABULARY@[19]@[6] == '.' && EVENT_VOCABULARY@[19]@[7] == 'c' && EVENT_VOCABULARY@[19]@[14] == '.' && EVENT_VOCABULARY@[19]@[15] == 'v' && EVENT_VOCABULARY@[19]@[16] == '1');
    assert(EVENT_VOCABULARY@[20]@.len() == 22 && EVENT_VOCABULARY@[20]@[0] == 's' && EVENT_VOCABULARY@[20]@[1] == 'o' && EVENT_VOCABULARY@[20]@[6] == '.' && EVENT_VOCABULARY@[20]@[7] == 'd' && EVENT_VOCABULARY@[20]@[19] == '.' && EVENT_VOCABULARY@[20]@[20] == 'v' && EVENT_VOCABULARY@[20]@[21] == '1');
    assert(EVENT_VOCABULARY@[21]@.len() == 15 && EVENT_VOCABULARY@[21]@[0] == 's' && EVENT_VOCABULARY@[21]@[1] == 'o' && EVENT_VOCABULARY@[21]@[6] == '.' && EVENT_VOCABULARY@[21]@[7] == 's' && EVENT_VOCABULARY@[21]@[12] == '.' && EVENT_VOCABULARY@[21]@[13] == 'v' && EVENT_VOCABULARY@[21]@[14] == '1');
    assert(EVENT_VOCABULARY@[22]@.len() == 18 && EVENT_VOCABULARY@[22]@[0] == 's' && EVENT_VOCABULARY@[22]@[1] == 'o' && EVENT_VOCABULARY@[22]@[6] == '.' && EVENT_VOCABULARY@[22]@[7] == 'p' && EVENT_VOCABULARY@[22]@[15] == '.' && EVENT_VOCABULARY@[22]@[16] == 'v' && EVENT_VOCABULARY@[22]@[17] == '1');
    assert(EVENT_VOCABULARY@[23]@.len() == 18 && EVENT_VOCABULARY@[23]@[0] == 'v' && EVENT_VOCABULARY@[23]@[1] == 'i' && EVENT_VOCABULARY@[23]@[6] == '.' && EVENT_VOCABULARY@[23]@[7] == 'p' && EVENT_VOCABULARY@[23]@[15] == '.' && EVENT_VOCABULARY@[23]@[16] == 'v' && EVENT_VOCABULARY@[23]@[17] == '1');
    assert(EVENT_VOCABULARY@[24]@.len() == 19 && EVENT_VOCABULARY@[24]@[0] == 'v' && EVENT_VOCABULARY@[24]@[1] == 'i' && EVENT_VOCABULARY@[24]@[6] == '.' && EVENT_VOCABULARY@[24]@[7] == 's' && EVENT_VOCABULARY@[24]@[16] == '.' && EVENT_VOCABULARY@[24]@[17] == 'v' && EVENT_VOCABULARY@[24]@[18] == '1');
    assert(EVENT_VOCABULARY@[25]@.len() == 18 && EVENT_VOCABULARY@[25]@[0] == 'v' && EVENT_VOCABULARY@[25]@[1] == 'i' && EVENT_VOCABULARY@[25]@[6] == '.' && EVENT_VOCABULARY@[25]@[7] == 'd' && EVENT_VOCABULARY@[25]@[15] == '.' && EVENT_VOCABULARY@[25]@[16] == 'v' && EVENT_VOCABULARY@[25]@[17] == '1');
    assert(EVENT_VOCABULARY@[26]@.len() == 17 && EVENT_VOCABULARY@[26]@[0] == 'c' && EVENT_VOCABULARY@[26]@[1] == 'i' && EVENT_VOCABULARY@[26]@[8] == '.' && EVENT_VOCABULARY@[26]@[9] == 'b' && EVENT_VOCABULARY@[26]@[14] == '.' && EVENT_VOCABULARY@[26]@[15] == 'v' && EVENT_VOCABULARY@[26]@[16] == '1');
    assert(EVENT_VOCABULARY@[27]@.len() == 19 && EVENT_VOCABULARY@[27]@[0] == 'c' && EVENT_VOCABULARY@[27]@[1] == 'i' && EVENT_VOCABULARY@[27]@[8] == '.' && EVENT_VOCABULARY@[27]@[9] == 'v' && EVENT_VOCABULARY@[27]@[16] == '.' && EVENT_VOCABULARY@[27]@[17] == 'v' && EVENT_VOCABULARY@[27]@[18] == '1');
    assert(EVENT_VOCABULARY@[28]@.len() == 19 && EVENT_VOCABULARY@[28]@[0] == 'v' && EVENT_VOCABULARY@[28]@[1] == 'e' && EVENT_VOCABULARY@[28]@[6] == '.' && EVENT_VOCABULARY@[28]@[16] == '.' && EVENT_VOCABULARY@[28]@[17] == 'v' && EVENT_VOCABULARY@[28]@[18] == '1');
    assert(EVENT_VOCABULARY@[29]@.len() == 14 && EVENT_VOCABULARY@[29]@[0] == 'f' && EVENT_VOCABULARY@[29]@[4] == '.' && EVENT_VOCABULARY@[29]@[11] == '.' && EVENT_VOCABULARY@[29]@[12] == 'v' && EVENT_VOCABULARY@[29]@[13] == '1');
    assert(EVENT_VOCABULARY@[30]@.len() == 17 && EVENT_VOCABULARY@[30]@[0] == 'r' && EVENT_VOCABULARY@[30]@[1] == 'e' && EVENT_VOCABULARY@[30]@[2] == 'v' && EVENT_VOCABULARY@[30]@[6] == '.' && EVENT_VOCABULARY@[30]@[14] == '.' && EVENT_VOCABULARY@[30]@[15] == 'v' && EVENT_VOCABULARY@[30]@[16] == '1');
    assert(EVENT_VOCABULARY@[31]@.len() == 19 && EVENT_VOCABULARY@[31]@[0] == 'c' && EVENT_VOCABULARY@[31]@[1] == 'o' && EVENT_VOCABULARY@[31]@[3] == 'c' && EVENT_VOCABULARY@[31]@[7] == '.' && EVENT_VOCABULARY@[31]@[8] == 'p' && EVENT_VOCABULARY@[31]@[16] == '.' && EVENT_VOCABULARY@[31]@[17] == 'v' && EVENT_VOCABULARY@[31]@[18] == '1');
    assert(EVENT_VOCABULARY@[32]@.len() == 20 && EVENT_VOCABULARY@[32]@[0] == 'c' && EVENT_VOCABULARY@[32]@[1] == 'o' && EVENT_VOCABULARY@[32]@[3] == 'c' && EVENT_VOCABULARY@[32]@[7] == '.' && EVENT_VOCABULARY@[32]@[8] == 'c' && EVENT_VOCABULARY@[32]@[17] == '.' && EVENT_VOCABULARY@[32]@[18] == 'v' && EVENT_VOCABULARY@[32]@[19] == '1');
    assert(EVENT_VOCABULARY@[33]@.len() == 17 && EVENT_VOCABULARY@[33]@[0] == 'c' && EVENT_VOCABULARY@[33]@[1] == 'o' && EVENT_VOCABULARY@[33]@[3] == 'c' && EVENT_VOCABULARY@[33]@[7] == '.' && EVENT_VOCABULARY@[33]@[8] == 'l' && EVENT_VOCABULARY@[33]@[14] == '.' && EVENT_VOCABULARY@[33]@[15] == 'v' && EVENT_VOCABULARY@[33]@[16] == '1');
    assert(EVENT_VOCABULARY@[34]@.len() == 18 && EVENT_VOCABULARY@[34]@[0] == 'e' && EVENT_VOCABULARY@[34]@[1] == 'n' && EVENT_VOCABULARY@[34]@[6] == '.' && EVENT_VOCABULARY@[34]@[15] == '.' && EVENT_VOCABULARY@[34]@[16] == 'v' && EVENT_VOCABULARY@[34]@[17] == '1');
    assert(EVENT_VOCABULARY@[35]@.len() == 15 && EVENT_VOCABULARY@[35]@[0] == 'i' && EVENT_VOCABULARY@[35]@[1] == 'm' && EVENT_VOCABULARY@[35]@[5] == '.' && EVENT_VOCABULARY@[35]@[6] == 'p' && EVENT_VOCABULARY@[35]@[12] == '.' && EVENT_VOCABULARY@[35]@[13] == 'v' && EVENT_VOCABULARY@[35]@[14] == '1');
    assert(EVENT_VOCABULARY@[36]@.len() == 18 && EVENT_VOCABULARY@[36]@[0] == 'i' && EVENT_VOCABULARY@[36]@[1] == 'm' && EVENT_VOCABULARY@[36]@[5] == '.' && EVENT_VOCABULARY@[36]@[6] == 'g' && EVENT_VOCABULARY@[36]@[15] == '.' && EVENT_VOCABULARY@[36]@[16] == 'v' && EVENT_VOCABULARY@[36]@[17] == '1');
    assert(EVENT_VOCABULARY@[37]@.len() == 20 && EVENT_VOCABULARY@[37]@[0] == 's' && EVENT_VOCABULARY@[37]@[1] == 'k' && EVENT_VOCABULARY@[37]@[6] == '.' && EVENT_VOCABULARY@[37]@[17] == '.' && EVENT_VOCABULARY@[37]@[18] == 'v' && EVENT_VOCABULARY@[37]@[19] == '1');
    assert(EVENT_VOCABULARY@[38]@.len() == 17 && EVENT_VOCABULARY@[38]@[0] == 'r' && EVENT_VOCABULARY@[38]@[1] == 'e' && EVENT_VOCABULARY@[38]@[2] == 'a' && EVENT_VOCABULARY@[38]@[4] == '.' && EVENT_VOCABULARY@[38]@[14] == '.' && EVENT_VOCABULARY@[38]@[15] == 'v' && EVENT_VOCABULARY@[38]@[16] == '1');
    assert(EVENT_VOCABULARY@[39]@.len() == 12 && EVENT_VOCABULARY@[39]@[0] == 'i' && EVENT_VOCABULARY@[39]@[1] == 'n' && EVENT_VOCABULARY@[39]@[2] == 'k' && EVENT_VOCABULARY@[39]@[3] == '.' && EVENT_VOCABULARY@[39]@[4] == 'a' && EVENT_VOCABULARY@[39]@[9] == '.' && EVENT_VOCABULARY@[39]@[10] == 'v' && EVENT_VOCABULARY@[39]@[11] == '1');
    assert(EVENT_VOCABULARY@[40]@.len() == 13 && EVENT_VOCABULARY@[40]@[0] == 'i' && EVENT_VOCABULARY@[40]@[1] == 'n' && EVENT_VOCABULARY@[40]@[2] == 'k' && EVENT_VOCABULARY@[40]@[3] == '.' && EVENT_VOCABULARY@[40]@[4] == 'e' && EVENT_VOCABULARY@[40]@[10] == '.' && EVENT_VOCABULARY@[40]@[11] == 'v' && EVENT_VOCABULARY@[40]@[12] == '1');
    assert(EVENT_VOCABULARY@[41]@.len() == 13 && EVENT_VOCABULARY@[41]@[0] == 'n' && EVENT_VOCABULARY@[41]@[4] == '.' && EVENT_VOCABULARY@[41]@[5] == 'a' && EVENT_VOCABULARY@[41]@[10] == '.' && EVENT_VOCABULARY@[41]@[11] == 'v' && EVENT_VOCABULARY@[41]@[12] == '1');
    assert(EVENT_VOCABULARY@[42]@.len() == 14 && EVENT_VOCABULARY@[42]@[0] == 'n' && EVENT_VOCABULARY@[42]@[4] == '.' && EVENT_VOCABULARY@[42]@[5] == 'e' && EVENT_VOCABULARY@[42]@[11] == '.' && EVENT_VOCABULARY@[42]@[12] == 'v' && EVENT_VOCABULARY@[42]@[13] == '1');
    assert(EVENT_VOCABULARY@[43]@.len() == 15 && EVENT_VOCABULARY@[43]@[0] == 'p' && EVENT_VOCABULARY@[43]@[2] == 'g' && EVENT_VOCABULARY@[43]@[4] == '.' && EVENT_VOCABULARY@[43]@[5] == 'c' && EVENT_VOCABULARY@[43]@[12] == '.' && EVENT_VOCABULARY@[43]@[13] == 'v' && EVENT_VOCABULARY@[43]@[14] == '1');
    assert(EVENT_VOCABULARY@[44]@.len() == 25 && EVENT_VOCABULARY@[44]@[0] == 'p' && EVENT_VOCABULARY@[44]@[2] == 'g' && EVENT_VOCABULARY@[44]@[4] == '.' && EVENT_VOCABULARY@[44]@[5] == 'c' && EVENT_VOCABULARY@[44]@[12] == '_' && EVENT_VOCABULARY@[44]@[22] == '.' && EVENT_VOCABULARY@[44]@[23] == 'v' && EVENT_VOCABULARY@[44]@[24] == '1');
    assert(EVENT_VOCABULARY@[45]@.len() == 14 && EVENT_VOCABULARY@[45]@[0] == 'p' && EVENT_VOCABULARY@[45]@[2] == 'g' && EVENT_VOCABULARY@[45]@[4] == '.' && EVENT_VOCABULARY@[45]@[5] == 'e' && EVENT_VOCABULARY@[45]@[11] == '.' && EVENT_VOCABULARY@[45]@[12] == 'v' && EVENT_VOCABULARY@[45]@[13] == '1');
    assert(EVENT_VOCABULARY@[46]@.len() == 15 && EVENT_VOCABULARY@[46]@[0] == 'p' && EVENT_VOCABULARY@[46]@[2] == 'g' && EVENT_VOCABULARY@[46]@[4] == '.' && EVENT_VOCABULARY@[46]@[5] == 'r' && EVENT_VOCABULARY@[46]@[12] == '.' && EVENT_VOCABULARY@[46]@[13] == 'v' && EVENT_VOCABULARY@[46]@[14] == '1');
    assert(EVENT_VOCABULARY@[47]@.len() == 15 && EVENT_VOCABULARY@[47]@[0] == 'p' && EVENT_VOCABULARY@[47]@[2] == 'g' && EVENT_VOCABULARY@[47]@[4] == '.' && EVENT_VOCABULARY@[47]@[5] == 'd' && EVENT_VOCABULARY@[47]@[12] == '.' && EVENT_VOCABULARY@[47]@[13] == 'v' && EVENT_VOCABULARY@[47]@[14] == '1');
    assert(EVENT_VOCABULARY@[48]@.len() == 21 && EVENT_VOCABULARY@[48]@[0] == 'p' && EVENT_VOCABULARY@[48]@[2] == 'g' && EVENT_VOCABULARY@[48]@[4] == '.' && EVENT_VOCABULARY@[48]@[5] == 'l' && EVENT_VOCABULARY@[48]@[10] == 'r' && EVENT_VOCABULARY@[48]@[18] == '.' && EVENT_VOCABULARY@[48]@[19] == 'v' && EVENT_VOCABULARY@[48]@[20] == '1');
    assert(EVENT_VOCABULARY@[49]@.len() == 23 && EVENT_VOCABULARY@[49]@[0] == 'p' && EVENT_VOCABULARY@[49]@[2] == 'g' && EVENT_VOCABULARY@[49]@[4] == '.' && EVENT_VOCABULARY@[49]@[5] == 'l' && EVENT_VOCABULARY@[49]@[10] == 'u' && EVENT_VOCABULARY@[49]@[20] == '.' && EVENT_VOCABULARY@[49]@[21] == 'v' && EVENT_VOCABULARY@[49]@[22] == '1');
    assert(EVENT_VOCABULARY@[50]@.len() == 17 && EVENT_VOCABULARY@[50]@[0] == 'n' && EVENT_VOCABULARY@[50]@[4] == 'b' && EVENT_VOCABULARY@[50]@[8] == '.' && EVENT_VOCABULARY@[50]@[9] == 'a' && EVENT_VOCABULARY@[50]@[14] == '.' && EVENT_VOCABULARY@[50]@[15] == 'v' && EVENT_VOCABULARY@[50]@[16] == '1');
    assert(EVENT_VOCABULARY@[51]@.len() == 21 && EVENT_VOCABULARY@[51]@[0] == 'n' && EVENT_VOCABULARY@[51]@[4] == 'b' && EVENT_VOCABULARY@[51]@[8] == '.' && EVENT_VOCABULARY@[51]@[9] == 'g' && EVENT_VOCABULARY@[51]@[18] == '.' && EVENT_VOCABULARY@[51]@[19] == 'v' && EVENT_VOCABULARY@[51]@[20] == '1');
    assert(EVENT_VOCABULARY@[52]@.len() == 21 && EVENT_VOCABULARY@[52]@[0] == 'e' && EVENT_VOCABULARY@[52]@[1] == 'x' && EVENT_VOCABULARY@[52]@[8] == '.' && EVENT_VOCABULARY@[52]@[9] == 'g' && EVENT_VOCABULARY@[52]@[18] == '.' && EVENT_VOCABULARY@[52]@[19] == 'v' && EVENT_VOCABULARY@[52]@[20] == '1');
    assert(EVENT_VOCABULARY@[53]@.len() == 19 && EVENT_VOCABULARY@[53]@[0] == 'a' && EVENT_VOCABULARY@[53]@[7] == '.' && EVENT_VOCABULARY@[53]@[16] == '.' && EVENT_VOCABULARY@[53]@[17] == 'v' && EVENT_VOCABULARY@[53]@[18] == '1');
    assert(EVENT_VOCABULARY@[54]@.len() == 25 && EVENT_VOCABULARY@[54]@[0] == 'e' && EVENT_VOCABULARY@[54]@[1] == 'x' && EVENT_VOCABULARY@[54]@[8] == '.' && EVENT_VOCABULARY@[54]@[9] == 'i' && EVENT_VOCABULARY@[54]@[22] == '.' && EVENT_VOCABULARY@[54]@[23] == 'v' && EVENT_VOCABULARY@[54]@[24] == '1');
    assert(EVENT_VOCABULARY@[55]@.len() == 16 && EVENT_VOCABULARY@[55]@[0] == 'p' && EVENT_VOCABULARY@[55]@[2] == 'c' && EVENT_VOCABULARY@[55]@[4] == '.' && EVENT_VOCABULARY@[55]@[5] == 'i' && EVENT_VOCABULARY@[55]@[13] == '.' && EVENT_VOCABULARY@[55]@[14] == 'v' && EVENT_VOCABULARY@[55]@[15] == '1');
    assert(EVENT_VOCABULARY@[56]@.len() == 17 && EVENT_VOCABULARY@[56]@[0] == 'p' && EVENT_VOCABULARY@[56]@[2] == 'c' && EVENT_VOCABULARY@[56]@[4] == '.' && EVENT_VOCABULARY@[56]@[5] == 'a' && EVENT_VOCABULARY@[56]@[14] == '.' && EVENT_VOCABULARY@[56]@[15] == 'v' && EVENT_VOCABULARY@[56]@[16] == '1');
    assert(EVENT_VOCABULARY@[57]@.len() == 21 && EVENT_VOCABULARY@[57]@[0] == 'i' && EVENT_VOCABULARY@[57]@[1] == 'n' && EVENT_VOCABULARY@[57]@[2] == 'd' && EVENT_VOCABULARY@[57]@[5] == '.' && EVENT_VOCABULARY@[57]@[6] == 'f' && EVENT_VOCABULARY@[57]@[13] == 'a' && EVENT_VOCABULARY@[57]@[18] == '.' && EVENT_VOCABULARY@[57]@[19] == 'v' && EVENT_VOCABULARY@[57]@[20] == '1');
    assert(EVENT_VOCABULARY@[58]@.len() == 16 && EVENT_VOCABULARY@[58]@[0] == 'i' && EVENT_VOCABULARY@[58]@[1] == 'n' && EVENT_VOCABULARY@[58]@[2] == 'd' && EVENT_VOCABULARY@[58]@[5] == '.' && EVENT_VOCABULARY@[58]@[6] == 'u' && EVENT_VOCABULARY@[58]@[13] == '.' && EVENT_VOCABULARY@[58]@[14] == 'v' && EVENT_VOCABULARY@[58]@[15] == '1');
    assert(EVENT_VOCABULARY@[59]@.len() == 23 && EVENT_VOCABULARY@[59]@[0] == 'i' && EVENT_VOCABULARY@[59]@[1] == 'n' && EVENT_VOCABULARY@[59]@[2] == 'd' && EVENT_VOCABULARY@[59]@[5] == '.' && EVENT_VOCABULARY@[59]@[6] == 'f' && EVENT_VOCABULARY@[59]@[13] == 'r' && EVENT_VOCABULARY@[59]@[20] == '.' && EVENT_VOCABULARY@[59]@[21] == 'v' && EVENT_VOCABULARY@[59]@[22] == '1');
    assert(EVENT_VOCABULARY@[60]@.len() == 13 && EVENT_VOCABULARY@[60]@[0] == 'm' && EVENT_VOCABULARY@[60]@[5] == '.' && EVENT_VOCABULARY@[60]@[6] == 'c' && EVENT_VOCABULARY@[60]@[10] == '.' && EVENT_VOCABULARY@[60]@[11] == 'v' && EVENT_VOCABULARY@[60]@[12] == '1');
    assert(EVENT_VOCABULARY@[61]@.len() == 17 && EVENT_VOCABULARY@[61]@[0] == 'm' && EVENT_VOCABULARY@[61]@[5] == '.' && EVENT_VOCABULARY@[61]@[6] == 'f' && EVENT_VOCABULARY@[61]@[14] == '.' && EVENT_VOCABULARY@[61]@[15] == 'v' && EVENT_VOCABULARY@[61]@[16] == '1');
    assert(EVENT_VOCABULARY@[62]@.len() == 19 && EVENT_VOCABULARY@[62]@[0] == 's' && EVENT_VOCABULARY@[62]@[1] == 'c' && EVENT_VOCABULARY@[62]@[6] == '.' && EVENT_VOCABULARY@[62]@[16] == '.' && EVENT_VOCABULARY@[62]@[17] == 'v' && EVENT_VOCABULARY@[62]@[18] == '1');
    assert(EVENT_VOCABULARY@[63]@.len() == 14 && EVENT_VOCABULARY@[63]@[0] == 'h' && EVENT_VOCABULARY@[63]@[4] == '.' && EVENT_VOCABULARY@[63]@[11] == '.' && EVENT_VOCABULARY@[63]@[12] == 'v' && EVENT_VOCABULARY@[63]@[13] == '1');
    assert(EVENT_VOCABULARY@[64]@.len() == 22 && EVENT_VOCABULARY@[64]@[0] == 'c' && EVENT_VOCABULARY@[64]@[1] == 'o' && EVENT_VOCABULARY@[64]@[3] == 't' && EVENT_VOCABULARY@[64]@[7] == '.' && EVENT_VOCABULARY@[64]@[19] == '.' && EVENT_VOCABULARY@[64]@[20] == 'v' && EVENT_VOCABULARY@[64]@[21] == '1');
    assert(EVENT_VOCABULARY@[65]@.len() == 16 && EVENT_VOCABULARY@[65]@[0] == 'r' && EVENT_VOCABULARY@[65]@[1] == 'u' && EVENT_VOCABULARY@[65]@[3] == '.' && EVENT_VOCABULARY@[65]@[13] == '.' && EVENT_VOCABULARY@[65]@[14] == 'v' && EVENT_VOCABULARY@[65]@[15] == '1');
    assert(EVENT_VOCABULARY@[66]@.len() == 16 && EVENT_VOCABULARY@[66]@[0] == 'l' && EVENT_VOCABULARY@[66]@[5] == '.' && EVENT_VOCABULARY@[66]@[6] == 's' && EVENT_VOCABULARY@[66]@[13] == '.' && EVENT_VOCABULARY@[66]@[14] == 'v' && EVENT_VOCABULARY@[66]@[15] == '1');
    assert(EVENT_VOCABULARY@[67]@.len() == 24 && EVENT_VOCABULARY@[67]@[0] == 'l' && EVENT_VOCABULARY@[67]@[5] == '.' && EVENT_VOCABULARY@[67]@[6] == 'i' && EVENT_VOCABULARY@[67]@[21] == '.' && EVENT_VOCABULARY@[67]@[22] == 'v' && EVENT_VOCABULARY@[67]@[23] == '1');
    assert(EVENT_VOCABULARY@[68]@.len() == 16 && EVENT_VOCABULARY@[68]@[0] == 'l' && EVENT_VOCABULARY@[68]@[5] == '.' && EVENT_VOCABULARY@[68]@[6] == 'p' && EVENT_VOCABULARY@[68]@[13] == '.' && EVENT_VOCABULARY@[68]@[14] == 'v' && EVENT_VOCABULARY@[68]@[15] == '1');
    assert(EVENT_VOCABULARY@[69]@.len() == 20 && EVENT_VOCABULARY@[69]@[0] == 'l' && EVENT_VOCABULARY@[69]@[5] == '.' && EVENT_VOCABULARY@[69]@[6] == 'c' && EVENT_VOCABULARY@[69]@[7] == 'h' && EVENT_VOCABULARY@[69]@[13] == 's' && EVENT_VOCABULARY@[69]@[17] == '.' && EVENT_VOCABULARY@[69]@[18] == 'v' && EVENT_VOCABULARY@[69]@[19] == '1');
    assert(EVENT_VOCABULARY@[70]@.len() == 23 && EVENT_VOCABULARY@[70]@[0] == 'l' && EVENT_VOCABULARY@[70]@[5] == '.' && EVENT_VOCABULARY@[70]@[6] == 'c' && EVENT_VOCABULARY@[70]@[7] == 'h' && EVENT_VOCABULARY@[70]@[13] == 'n' && EVENT_VOCABULARY@[70]@[20] == '.' && EVENT_VOCABULARY@[70]@[21] == 'v' && EVENT_VOCABULARY@[70]@[22] == '1');
    assert(EVENT_VOCABULARY@[71]@.len() == 20 && EVENT_VOCABULARY@[71]@[0] == 'l' && EVENT_VOCABULARY@[71]@[5] == '.' && EVENT_VOCABULARY@[71]@[6] == 'c' && EVENT_VOCABULARY@[71]@[7] == 'a' && EVENT_VOCABULARY@[71]@[17] == '.' && EVENT_VOCABULARY@[71]@[18] == 'v' && EVENT_VOCABULARY@[71]@[19] == '1');
    assert(EVENT_VOCABULARY@[72]@.len() == 14 && EVENT_VOCABULARY@[72]@[0] == 'l' && EVENT_VOCABULARY@[72]@[5] == '.' && EVENT_VOCABULARY@[72]@[6] == 'e' && EVENT_VOCABULARY@[72]@[11] == '.' && EVENT_VOCABULARY@[72]@[12] == 'v' && EVENT_VOCABULARY@[72]@[13] == '1');
}

} // verus!
