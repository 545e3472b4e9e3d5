use tessera::projection::{
    effect_of, new_status, parse_status, CardStatus, Effect, Projected, ProjectedPayload, RunCost,
};
use tessera::store_error::StoreError;

fn payload() -> ProjectedPayload {
    ProjectedPayload {
        card_id: None,
        depth_chosen: None,
        run_id: None,
        severity: None,
        superseded_by: None,
        builds_on: None,
        input_tokens: None,
        output_tokens: None,
        provider: None,
    }
}

fn event(event_type: &str, card: Option<&str>, payload: ProjectedPayload) -> Projected {
    Projected {
        event_type: event_type.to_string(),
        card_id: card.map(|c| c.to_string()),
        run_id: None,
        timestamp: "2025-01-01T00:00:00Z".to_string(),
        payload,
    }
}

#[test]
fn a_requested_card_is_queued() {
    let e = effect_of(&event("card.requested.v1", Some("c1"), payload())).expect("effect");
    assert_eq!(e, Effect::Status { card_id: "c1".to_string(), status: CardStatus::Queued });
    assert_eq!(new_status(&e, None, 0), Some(CardStatus::Queued));
}

#[test]
fn a_card_event_without_a_card_is_an_error() {
    match effect_of(&event("card.failed.v1", None, payload())) {
        Err(StoreError::ProjectionFieldMissing { event_type, field }) => {
            assert_eq!(event_type, "card.failed.v1");
            assert_eq!(field, "card_id");
        }
        other => panic!("unexpected {other:?}"),
    }
}

#[test]
fn the_payload_names_the_card_when_the_envelope_does_not() {
    let mut p = payload();
    p.card_id = Some("c2".to_string());
    let e = effect_of(&event("card.failed.v1", None, p)).expect("effect");
    assert_eq!(e, Effect::Status { card_id: "c2".to_string(), status: CardStatus::Failed });
}

#[test]
fn an_info_flag_moves_nothing_and_a_warning_flags_the_card() {
    let mut info = payload();
    info.severity = Some("info".to_string());
    assert_eq!(effect_of(&event("flag.raised.v1", Some("c"), info)).expect("effect"), Effect::Nothing);
    assert_eq!(effect_of(&event("flag.raised.v1", Some("c"), payload())).expect("effect"), Effect::Nothing);
    let mut warn = payload();
    warn.severity = Some("warn".to_string());
    let e = effect_of(&event("flag.raised.v1", Some("c"), warn)).expect("effect");
    assert_eq!(new_status(&e, Some(CardStatus::Done), 0), Some(CardStatus::Flagged));
}

#[test]
fn an_answer_is_done_only_without_open_flags() {
    let e = effect_of(&event("card.answered.v1", Some("c"), payload())).expect("effect");
    assert_eq!(new_status(&e, Some(CardStatus::Running), 0), Some(CardStatus::Done));
    assert_eq!(new_status(&e, Some(CardStatus::Running), 2), Some(CardStatus::Flagged));
}

#[test]
fn a_review_never_resurrects_a_failed_card() {
    let e = effect_of(&event("review.decided.v1", Some("c"), payload())).expect("effect");
    assert_eq!(new_status(&e, Some(CardStatus::Failed), 0), None);
    assert_eq!(new_status(&e, Some(CardStatus::Flagged), 0), Some(CardStatus::Done));
    assert_eq!(new_status(&e, Some(CardStatus::Flagged), 1), Some(CardStatus::Flagged));
}

#[test]
fn a_review_without_a_card_is_not_an_error() {
    assert_eq!(effect_of(&event("review.decided.v1", None, payload())).expect("effect"), Effect::Nothing);
}

#[test]
fn an_unknown_event_moves_no_projection() {
    assert_eq!(effect_of(&event("note.written.v1", None, payload())).expect("effect"), Effect::Nothing);
}

#[test]
fn a_model_call_is_charged_to_its_run() {
    let mut p = payload();
    p.run_id = Some("r1".to_string());
    p.input_tokens = Some(100);
    p.output_tokens = Some(20);
    let e = effect_of(&event("model.call.v1", None, p)).expect("effect");
    assert_eq!(
        e,
        Effect::Charge { run_id: "r1".to_string(), input: 100, output: 20, provider: "unknown".to_string() }
    );
    assert_eq!(effect_of(&event("model.call.v1", None, payload())).expect("effect"), Effect::Nothing);
}

#[test]
fn the_cost_split_always_adds_up() {
    let mut cost = RunCost::zero();
    assert!(cost.charge_fits(100, 20, "anthropic"));
    cost.charge(100, 20, "anthropic");
    cost.charge(5, 1, "openai");
    cost.charge(10, 2, "anthropic");
    assert_eq!(cost.input_tokens, 115);
    assert_eq!(cost.output_tokens, 23);
    assert_eq!(cost.calls, 3);
    let split = cost.by_provider.clone().expect("a split");
    assert_eq!(split, vec![("anthropic".to_string(), 132), ("openai".to_string(), 6)]);
    let total: i64 = split.iter().map(|(_, n)| n).sum();
    assert_eq!(total, cost.input_tokens + cost.output_tokens);
}

#[test]
fn a_charge_that_would_overflow_is_refused() {
    let mut cost = RunCost::zero();
    cost.input_tokens = i64::MAX;
    assert!(!cost.charge_fits(1, 0, "x"));
}

#[test]
fn a_status_reads_back_from_its_name() {
    for s in [CardStatus::Queued, CardStatus::Running, CardStatus::Done, CardStatus::Flagged, CardStatus::Failed] {
        assert_eq!(parse_status(s.as_str()), Some(s));
    }
    assert_eq!(parse_status("lost"), None);
}
