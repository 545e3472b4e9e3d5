//! Projections over the event log.
//!
//! Run, Step, and the card's progress are projections of the Event table: any
//! UI state can be rebuilt from events, and replay is a first class operation.
//!
//! The scope matters. Card *content* (answer, visual, citations) is a source
//! of truth of its own and is written by its own repository call. Card
//! *progress* (status, confidence, which run produced it) is a projection, and
//! so are Run status and cost. Those are what a rebuild restores.
//!
//! Folding an event in is two steps. What the event asks for is decided from
//! the event alone; the card's new status is then decided from that and from
//! what the store holds when it is folded in (the card's open flags, and its
//! current status). The store is read and written by the caller, inside the
//! transaction that appends the event.
use vstd::prelude::*;

use crate::chars::same_text;
use crate::store_error::StoreError;

verus! {

/// Where a card stands.
#[derive(Debug, Clone, Copy, PartialEq, Eq, Structural)]
pub enum CardStatus {
    Queued,
    Running,
    Done,
    Flagged,
    Failed,
}

impl CardStatus {
    pub open spec fn name(self) -> Seq<char> {
        match self {
            CardStatus::Queued => "queued"@,
            CardStatus::Running => "running"@,
            CardStatus::Done => "done"@,
            CardStatus::Flagged => "flagged"@,
            CardStatus::Failed => "failed"@,
        }
    }

    /// The name the card table stores.
    pub fn as_str(self) -> (s: &'static str)
        ensures
            s@ == self.name(),
    {
        match self {
            CardStatus::Queued => "queued",
            CardStatus::Running => "running",
            CardStatus::Done => "done",
            CardStatus::Flagged => "flagged",
            CardStatus::Failed => "failed",
        }
    }
}

/// The fields of an event's payload the projections read, as plain values.
#[derive(Debug, Clone)]
pub struct ProjectedPayload {
    pub card_id: Option<String>,
    pub depth_chosen: Option<String>,
    pub run_id: Option<String>,
    pub severity: Option<String>,
    pub superseded_by: Option<String>,
    /// `builds_on` as JSON text, when the payload carries it as an array.
    pub builds_on: Option<String>,
    pub input_tokens: Option<i64>,
    pub output_tokens: Option<i64>,
    pub provider: Option<String>,
}

/// The parts of an event a projection needs, usable both from the append path
/// and from a replay over stored rows.
#[derive(Debug, Clone)]
pub struct Projected {
    pub event_type: String,
    pub card_id: Option<String>,
    pub run_id: Option<String>,
    pub timestamp: String,
    pub payload: ProjectedPayload,
}

/// What an event asks of the projections.
#[derive(Debug, Clone, PartialEq, Eq)]
pub enum Effect {
    /// Set the card's status.
    Status { card_id: String, status: CardStatus },
    /// The Router is the first agent to touch the card, so this is where it
    /// starts running and where its depth and run are fixed, when known.
    Routed { card_id: String, depth: Option<String>, run_id: Option<String> },
    /// Record the Verifier's confidence from the payload.
    Confidence { card_id: String },
    /// The card was answered: done or flagged by its open flags, and the
    /// cards it builds on recorded when the event carries them.
    Answered { card_id: String, builds_on: Option<String> },
    /// A review decided flags on the card: done or flagged by its open flags,
    /// never out of failed.
    Reviewed { card_id: String },
    /// The superseding card records the one it supersedes.
    Superseded { card_id: String, by: String },
    /// A model call is charged to its run.
    Charge { run_id: String, input: i64, output: i64, provider: String },
    /// Most of the vocabulary carries audit meaning without moving a
    /// projection.
    Nothing,
}

pub open spec fn opt_text(o: Option<String>) -> Option<Seq<char>> {
    match o {
        Some(s) => Some(s@),
        None => None,
    }
}

/// The card an event is about: the envelope's, else the payload's.
pub open spec fn card_of(ev: Projected) -> Option<Seq<char>> {
    match ev.card_id {
        Some(c) => Some(c@),
        None => opt_text(ev.payload.card_id),
    }
}

/// The run an event is about: the envelope's, else the payload's.
pub open spec fn run_of(ev: Projected) -> Option<Seq<char>> {
    match ev.run_id {
        Some(r) => Some(r@),
        None => opt_text(ev.payload.run_id),
    }
}

/// The event types that name a card and cannot be folded in without one.
pub open spec fn needs_card(event_type: Seq<char>) -> bool {
    ||| event_type == "card.requested.v1"@
    ||| event_type == "card.routed.v1"@
    ||| event_type == "verify.completed.v1"@
    ||| event_type == "card.answered.v1"@
    ||| event_type == "flag.raised.v1"@
    ||| event_type == "card.failed.v1"@
    ||| event_type == "card.superseded.v1"@
}

/// A flag raised at any stage flips the card, unless it is only
/// informational; a flag with no severity is informational.
pub open spec fn flips_card(severity: Option<String>) -> bool {
    match severity {
        Some(s) => s@ != "info"@,
        None => false,
    }
}

/// What an event asks for, as plain values: the effect's kind and the ids and
/// values it carries.
pub open spec fn effect_matches(ev: Projected, e: Effect) -> bool {
    let t = ev.event_type@;
    let card = card_of(ev);
    if t == "card.requested.v1"@ {
        e matches Effect::Status { card_id, status } && Some(card_id@) == card && status
            == CardStatus::Queued
    } else if t == "card.routed.v1"@ {
        e matches Effect::Routed { card_id, depth, run_id } && Some(card_id@) == card && opt_text(
            depth,
        ) == opt_text(ev.payload.depth_chosen) && opt_text(run_id) == run_of(ev)
    } else if t == "verify.completed.v1"@ {
        e matches Effect::Confidence { card_id } && Some(card_id@) == card
    } else if t == "card.answered.v1"@ {
        e matches Effect::Answered { card_id, builds_on } && Some(card_id@) == card && opt_text(
            builds_on,
        ) == opt_text(ev.payload.builds_on)
    } else if t == "flag.raised.v1"@ {
        if flips_card(ev.payload.severity) {
            e matches Effect::Status { card_id, status } && Some(card_id@) == card && status
                == CardStatus::Flagged
        } else {
            e == Effect::Nothing
        }
    } else if t == "review.decided.v1"@ {
        match card {
            Some(c) => e matches Effect::Reviewed { card_id } && card_id@ == c,
            None => e == Effect::Nothing,
        }
    } else if t == "card.failed.v1"@ {
        e matches Effect::Status { card_id, status } && Some(card_id@) == card && status
            == CardStatus::Failed
    } else if t == "card.superseded.v1"@ {
        match ev.payload.superseded_by {
            Some(by) => e matches Effect::Superseded { card_id, by: b } && Some(card_id@) == card
                && b@ == by@,
            None => e == Effect::Nothing,
        }
    } else if t == "model.call.v1"@ {
        match run_of(ev) {
            Some(run) => e matches Effect::Charge { run_id, input, output, provider } && run_id@
                == run && input == (match ev.payload.input_tokens {
                Some(n) => n,
                None => 0,
            }) && output == (match ev.payload.output_tokens {
                Some(n) => n,
                None => 0,
            }) && provider@ == (match ev.payload.provider {
                Some(p) => p@,
                None => "unknown"@,
            }),
            None => e == Effect::Nothing,
        }
    } else {
        e == Effect::Nothing
    }
}

fn card_or_payload(ev: &Projected) -> (r: Option<String>)
    ensures
        opt_text(r) == card_of(*ev),
{
    match &ev.card_id {
        Some(c) => Some(c.clone()),
        None => match &ev.payload.card_id {
            Some(c) => Some(c.clone()),
            None => None,
        },
    }
}

fn run_or_payload(ev: &Projected) -> (r: Option<String>)
    ensures
        opt_text(r) == run_of(*ev),
{
    match &ev.run_id {
        Some(r) => Some(r.clone()),
        None => match &ev.payload.run_id {
            Some(r) => Some(r.clone()),
            None => None,
        },
    }
}

fn copy_text(o: &Option<String>) -> (r: Option<String>)
    ensures
        opt_text(r) == opt_text(*o),
{
    match o {
        Some(s) => Some(s.clone()),
        None => None,
    }
}

/// What folding `ev` in asks of the projections.
///
/// Unknown event types are not an error here: the guard against typos lives
/// in the append path, which checks the vocabulary before the insert. An
/// event that must name a card and names none is.
pub fn effect_of(ev: &Projected) -> (r: Result<Effect, StoreError>)
    ensures
        needs_card(ev.event_type@) && card_of(*ev) is None ==> (r matches Err(
            StoreError::ProjectionFieldMissing { event_type, field },
        ) && event_type@ == ev.event_type@ && field@ == "card_id"@),
        !(needs_card(ev.event_type@) && card_of(*ev) is None) ==> (r matches Ok(e)
            && effect_matches(*ev, e)),
{
    let t = ev.event_type.as_str();
    let card = card_or_payload(ev);
    let needs = same_text(t, "card.requested.v1") || same_text(t, "card.routed.v1") || same_text(
        t,
        "verify.completed.v1",
    ) || same_text(t, "card.answered.v1") || same_text(t, "flag.raised.v1") || same_text(
        t,
        "card.failed.v1",
    ) || same_text(t, "card.superseded.v1");
    if needs && card.is_none() {
        return Err(
            StoreError::ProjectionFieldMissing { event_type: ev.event_type.clone(), field: "card_id" },
        );
    }
    let effect = if same_text(t, "card.requested.v1") {
        Effect::Status { card_id: card.unwrap(), status: CardStatus::Queued }
    } else if same_text(t, "card.routed.v1") {
        Effect::Routed {
            card_id: card.unwrap(),
            depth: copy_text(&ev.payload.depth_chosen),
            run_id: run_or_payload(ev),
        }
    } else if same_text(t, "verify.completed.v1") {
        Effect::Confidence { card_id: card.unwrap() }
    } else if same_text(t, "card.answered.v1") {
        Effect::Answered { card_id: card.unwrap(), builds_on: copy_text(&ev.payload.builds_on) }
    } else if same_text(t, "flag.raised.v1") {
        let flips = match &ev.payload.severity {
            Some(s) => !same_text(s.as_str(), "info"),
            None => false,
        };
        if flips {
            Effect::Status { card_id: card.unwrap(), status: CardStatus::Flagged }
        } else {
            Effect::Nothing
        }
    } else if same_text(t, "review.decided.v1") {
        match card {
            Some(c) => Effect::Reviewed { card_id: c },
            None => Effect::Nothing,
        }
    } else if same_text(t, "card.failed.v1") {
        Effect::Status { card_id: card.unwrap(), status: CardStatus::Failed }
    } else if same_text(t, "card.superseded.v1") {
        match &ev.payload.superseded_by {
            Some(by) => Effect::Superseded { card_id: card.unwrap(), by: by.clone() },
            None => Effect::Nothing,
        }
    } else if same_text(t, "model.call.v1") {
        match run_or_payload(ev) {
            Some(run_id) => Effect::Charge {
                run_id,
                input: match ev.payload.input_tokens {
                    Some(n) => n,
                    None => 0,
                },
                output: match ev.payload.output_tokens {
                    Some(n) => n,
                    None => 0,
                },
                provider: match &ev.payload.provider {
                    Some(p) => p.clone(),
                    None => String::from_str("unknown"),
                },
            },
            None => Effect::Nothing,
        }
    } else {
        Effect::Nothing
    };
    Ok(effect)
}

/// The status a card is given when an effect is folded in, given how many
/// open flags of severity warn or block it has and the status it has now;
/// `None` leaves the status as it is.
///
/// An answered card is flagged while any such flag is open and done
/// otherwise; an info flag is a chip on the header, not a queue item. A
/// review does the same, except that clearing flags never resurrects a failed
/// card.
pub open spec fn status_after(e: Effect, current: Option<CardStatus>, open_flags: int) -> Option<
    CardStatus,
> {
    match e {
        Effect::Status { status, .. } => Some(status),
        Effect::Routed { .. } => Some(CardStatus::Running),
        Effect::Answered { .. } => Some(
            if open_flags > 0 {
                CardStatus::Flagged
            } else {
                CardStatus::Done
            },
        ),
        Effect::Reviewed { .. } => if current == Some(CardStatus::Failed) {
            None
        } else {
            Some(
                if open_flags > 0 {
                    CardStatus::Flagged
                } else {
                    CardStatus::Done
                },
            )
        },
        _ => None,
    }
}

/// The status to write for an effect. `current` and `open_flags` are read
/// only for an answer or a review.
pub fn new_status(e: &Effect, current: Option<CardStatus>, open_flags: i64) -> (r: Option<
    CardStatus,
>)
    ensures
        r == status_after(*e, current, open_flags as int),
{
    match e {
        Effect::Status { status, .. } => Some(*status),
        Effect::Routed { .. } => Some(CardStatus::Running),
        Effect::Answered { .. } => Some(
            if open_flags > 0 {
                CardStatus::Flagged
            } else {
                CardStatus::Done
            },
        ),
        Effect::Reviewed { .. } => {
            if current == Some(CardStatus::Failed) {
                None
            } else {
                Some(
                    if open_flags > 0 {
                        CardStatus::Flagged
                    } else {
                        CardStatus::Done
                    },
                )
            }
        },
        _ => None,
    }
}

/// A card's status as the store holds it, read back from its name.
pub open spec fn status_named(s: Seq<char>) -> Option<CardStatus> {
    if s == "queued"@ {
        Some(CardStatus::Queued)
    } else if s == "running"@ {
        Some(CardStatus::Running)
    } else if s == "done"@ {
        Some(CardStatus::Done)
    } else if s == "flagged"@ {
        Some(CardStatus::Flagged)
    } else if s == "failed"@ {
        Some(CardStatus::Failed)
    } else {
        None
    }
}

pub fn parse_status(s: &str) -> (r: Option<CardStatus>)
    ensures
        r == status_named(s@),
{
    if same_text(s, "queued") {
        Some(CardStatus::Queued)
    } else if same_text(s, "running") {
        Some(CardStatus::Running)
    } else if same_text(s, "done") {
        Some(CardStatus::Done)
    } else if same_text(s, "flagged") {
        Some(CardStatus::Flagged)
    } else if same_text(s, "failed") {
        Some(CardStatus::Failed)
    } else {
        None
    }
}

/// A card's status after a run of effects folded in from `start`, each with
/// the number of open warn or block flags the store held when it was folded.
pub open spec fn replayed(start: CardStatus, effects: Seq<(Effect, int)>) -> CardStatus
    decreases effects.len(),
{
    if effects.len() == 0 {
        start
    } else {
        let before = replayed(start, effects.drop_last());
        match status_after(effects.last().0, Some(before), effects.last().1) {
            Some(s) => s,
            None => before,
        }
    }
}

/// Replay is first class: folding a log in two parts, the second from where
/// the first left the card, ends where folding it whole does. So a card
/// projected event by event as it ran, and the same card rebuilt from its
/// log after a restart, stand in the same place.
pub proof fn lemma_replay_in_parts(start: CardStatus, a: Seq<(Effect, int)>, b: Seq<(Effect, int)>)
    ensures
        replayed(replayed(start, a), b) == replayed(start, a + b),
    decreases b.len(),
{
    if b.len() == 0 {
        assert(a + b == a);
    } else {
        lemma_replay_in_parts(start, a, b.drop_last());
        assert((a + b).drop_last() == a + b.drop_last());
        assert((a + b).last() == b.last());
    }
}

/// Clearing flags never resurrects a failed card: once failed, only a new
/// status set outright moves it.
pub proof fn lemma_failed_stays_failed(effects: Seq<(Effect, int)>)
    requires
        forall|i: int| 0 <= i < effects.len() ==> !(#[trigger] effects[i].0 is Status)
            && !(effects[i].0 is Routed) && !(effects[i].0 is Answered),
    ensures
        replayed(CardStatus::Failed, effects) == CardStatus::Failed,
    decreases effects.len(),
{
    if effects.len() > 0 {
        lemma_failed_stays_failed(effects.drop_last());
        assert(effects.drop_last().len() < effects.len());
        let last = effects[effects.len() - 1];
        assert(!(last.0 is Status) && !(last.0 is Routed) && !(last.0 is Answered));
    }
}

/// A flag raised with severity `info`, or with none, never moves a card.
pub proof fn lemma_info_flag_moves_nothing(ev: Projected, e: Effect)
    requires
        ev.event_type@ == "flag.raised.v1"@,
        !flips_card(ev.payload.severity),
        effect_matches(ev, e),
    ensures
        e == Effect::Nothing,
        forall|current: Option<CardStatus>, open: int| status_after(e, current, open) is None,
{
    reveal_strlit("flag.raised.v1");
    reveal_strlit("card.requested.v1");
    reveal_strlit("card.routed.v1");
    reveal_strlit("verify.completed.v1");
    reveal_strlit("card.answered.v1");
    assert("flag.raised.v1"@[0] != "card.requested.v1"@[0]);
    assert("flag.raised.v1"@[0] != "card.routed.v1"@[0]);
    assert("flag.raised.v1"@[0] != "verify.completed.v1"@[0]);
    assert("flag.raised.v1"@[0] != "card.answered.v1"@[0]);
}

/// An answered card is done exactly when it has no open warn or block flag.
pub proof fn lemma_answer_is_done_iff_no_open_flag(e: Effect, current: Option<CardStatus>, open: int)
    requires
        e is Answered,
    ensures
        status_after(e, current, open) == Some(CardStatus::Done) <==> open <= 0,
        status_after(e, current, open) == Some(CardStatus::Flagged) <==> open > 0,
{
}


/// A run's cost as its projection holds it: what the Profile's spend page and
/// the composer's estimate read.
#[derive(Debug, Clone)]
pub struct RunCost {
    pub input_tokens: i64,
    pub output_tokens: i64,
    pub calls: i64,
    /// The tokens charged to each provider, when the cost keeps that split.
    pub by_provider: Option<Vec<(String, i64)>>,
}

pub open spec fn split_view(v: Seq<(String, i64)>) -> Seq<(Seq<char>, int)> {
    v.map_values(|e: (String, i64)| (e.0@, e.1 as int))
}

/// Where `provider` sits in the split, or -1.
pub open spec fn provider_index(v: Seq<(Seq<char>, int)>, provider: Seq<char>) -> int
    decreases v.len(),
{
    if v.len() == 0 {
        -1
    } else if v.last().0 == provider {
        v.len() - 1
    } else {
        provider_index(v.drop_last(), provider)
    }
}

/// What a provider has been charged so far: 0 when it has no entry.
pub open spec fn charged_to(v: Seq<(Seq<char>, int)>, provider: Seq<char>) -> int {
    let i = provider_index(v, provider);
    if i < 0 {
        0
    } else {
        v[i].1
    }
}

/// The split after charging `amount` to `provider`: its entry grows, or one
/// is added at the end.
pub open spec fn split_charged(v: Seq<(Seq<char>, int)>, provider: Seq<char>, amount: int) -> Seq<
    (Seq<char>, int),
> {
    let i = provider_index(v, provider);
    if i < 0 {
        v.push((provider, amount))
    } else {
        v.update(i, (provider, v[i].1 + amount))
    }
}

/// The total of a split.
pub open spec fn split_total(v: Seq<(Seq<char>, int)>) -> int
    decreases v.len(),
{
    if v.len() == 0 {
        0
    } else {
        split_total(v.drop_last()) + v.last().1
    }
}

/// The split accounts for every token the run was charged.
pub open spec fn balanced(c: RunCost) -> bool {
    match c.by_provider {
        Some(v) => split_total(split_view(v@)) == c.input_tokens + c.output_tokens,
        None => true,
    }
}

pub open spec fn in_i64(x: int) -> bool {
    i64::MIN <= x <= i64::MAX
}

/// Whether charging a call of `input` and `output` tokens to `provider`
/// keeps every counter within `i64`.
pub open spec fn charge_fits_spec(c: RunCost, input: i64, output: i64, provider: Seq<char>) -> bool {
    &&& in_i64(c.input_tokens + input)
    &&& in_i64(c.output_tokens + output)
    &&& in_i64(c.calls + 1)
    &&& match c.by_provider {
        Some(v) => in_i64(charged_to(split_view(v@), provider) + input) && in_i64(
            charged_to(split_view(v@), provider) + input + output,
        ),
        None => true,
    }
}

proof fn lemma_provider_index(v: Seq<(Seq<char>, int)>, provider: Seq<char>)
    ensures
        -1 <= provider_index(v, provider) < v.len(),
        provider_index(v, provider) >= 0 ==> v[provider_index(v, provider)].0 == provider,
    decreases v.len(),
{
    if v.len() > 0 && v.last().0 != provider {
        lemma_provider_index(v.drop_last(), provider);
    }
}

proof fn lemma_total_push(v: Seq<(Seq<char>, int)>, e: (Seq<char>, int))
    ensures
        split_total(v.push(e)) == split_total(v) + e.1,
{
    assert(v.push(e).drop_last() == v);
}

proof fn lemma_total_update(v: Seq<(Seq<char>, int)>, i: int, e: (Seq<char>, int))
    requires
        0 <= i < v.len(),
    ensures
        split_total(v.update(i, e)) == split_total(v) - v[i].1 + e.1,
    decreases v.len(),
{
    if i == v.len() - 1 {
        assert(v.update(i, e).drop_last() == v.drop_last());
    } else {
        lemma_total_update(v.drop_last(), i, e);
        assert(v.update(i, e).drop_last() == v.drop_last().update(i, e));
    }
}

impl RunCost {
    /// The cost a run starts from and a rebuild resets to.
    pub fn zero() -> (c: Self)
        ensures
            c.input_tokens == 0 && c.output_tokens == 0 && c.calls == 0,
            c.by_provider matches Some(v) && v@.len() == 0,
            balanced(c),
    {
        let c = RunCost { input_tokens: 0, output_tokens: 0, calls: 0, by_provider: Some(Vec::new()) };
        assert(split_view(Seq::<(String, i64)>::empty()) == Seq::<(Seq<char>, int)>::empty());
        c
    }

    fn provider_position(v: &Vec<(String, i64)>, provider: &str) -> (r: Option<usize>)
        ensures
            match r {
                Some(i) => i as int == provider_index(split_view(v@), provider@),
                None => provider_index(split_view(v@), provider@) == -1,
            },
    {
        let mut k = v.len();
        assert(split_view(v@).take(k as int) == split_view(v@));
        while k > 0
            invariant
                k <= v@.len(),
                provider_index(split_view(v@), provider@) == provider_index(
                    split_view(v@).take(k as int),
                    provider@,
                ),
            decreases k,
        {
            assert(split_view(v@).take(k as int).last() == (v@[k - 1].0@, v@[k - 1].1 as int));
            if same_text(v[k - 1].0.as_str(), provider) {
                return Some(k - 1);
            }
            assert(split_view(v@).take(k as int).drop_last() == split_view(v@).take(k - 1));
            k -= 1;
        }
        None
    }

    /// Whether `charge` keeps every counter within `i64`.
    pub fn charge_fits(&self, input: i64, output: i64, provider: &str) -> (b: bool)
        ensures
            b == charge_fits_spec(*self, input, output, provider@),
    {
        let counters = self.input_tokens.checked_add(input).is_some()
            && self.output_tokens.checked_add(output).is_some() && self.calls.checked_add(1).is_some();
        if !counters {
            return false;
        }
        match &self.by_provider {
            None => true,
            Some(v) => {
                proof {
                    lemma_provider_index(split_view(v@), provider@);
                }
                let was: i64 = match RunCost::provider_position(v, provider) {
                    Some(i) => v[i].1,
                    None => 0,
                };
                match was.checked_add(input) {
                    Some(partial) => partial.checked_add(output).is_some(),
                    None => false,
                }
            },
        }
    }

    /// Charge one model call: its tokens to the run's counters and to its
    /// provider's share, and one more call.
    ///
    /// The split keeps balancing the counters: what every provider was
    /// charged adds up to the run's tokens.
    pub fn charge(&mut self, input: i64, output: i64, provider: &str)
        requires
            charge_fits_spec(*old(self), input, output, provider@),
        ensures
            final(self).input_tokens == old(self).input_tokens + input,
            final(self).output_tokens == old(self).output_tokens + output,
            final(self).calls == old(self).calls + 1,
            old(self).by_provider is None ==> final(self).by_provider is None,
            old(self).by_provider matches Some(v) ==> (final(self).by_provider matches Some(w)
                && split_view(w@) == split_charged(split_view(v@), provider@, input + output)),
            balanced(*old(self)) ==> balanced(*final(self)),
    {
        self.input_tokens = self.input_tokens + input;
        self.output_tokens = self.output_tokens + output;
        self.calls = self.calls + 1;
        let ghost old_split = match old(self).by_provider {
            Some(v) => split_view(v@),
            None => Seq::<(Seq<char>, int)>::empty(),
        };
        if let Some(v) = &mut self.by_provider {
            proof {
                lemma_provider_index(split_view(v@), provider@);
            }
            match RunCost::provider_position(v, provider) {
                Some(i) => {
                    let was = v[i].1;
                    let name = v[i].0.clone();
                    let ghost before = v@;
                    v.set(i, (name, was + input + output));
                    proof {
                        assert(split_view(v@) == split_view(before).update(
                            i as int,
                            (provider@, was + input + output),
                        ));
                        lemma_total_update(
                            split_view(before),
                            i as int,
                            (provider@, was + input + output),
                        );
                    }
                },
                None => {
                    let ghost before = v@;
                    v.push((String::from_str(provider), input + output));
                    proof {
                        assert(split_view(v@) == split_view(before).push(
                            (provider@, input + output),
                        ));
                        lemma_total_push(split_view(before), (provider@, input + output));
                    }
                },
            }
        }
    }
}

/// The Router is the first agent to touch a card, so routing starts it
/// running: whatever the card's status was and whatever flags are open, a
/// routed card is running.
pub proof fn lemma_routed_card_runs(
    card_id: String,
    depth: Option<String>,
    run_id: Option<String>,
    current: Option<CardStatus>,
    open_flags: int,
)
    ensures
        status_after(Effect::Routed { card_id, depth, run_id }, current, open_flags) == Some(
            CardStatus::Running,
        ),
{
}

} // verus!
