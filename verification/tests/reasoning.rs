use anthropic_messages::protocol::{Reasoning, ReasoningEffort};
use anthropic_messages::reasoning::{anthropic_max_tokens, anthropic_thinking, reasoning_budget};
use anthropic_messages::session::{after_attempt, AttemptOutcome, NextStep};
use anthropic_messages::value::value_of;

fn custom(text: &str) -> ReasoningEffort {
    ReasoningEffort::Custom(text.to_string())
}

#[test]
fn budgets() {
    assert_eq!(reasoning_budget(None), None);
    for (effort, budget) in [
        (ReasoningEffort::Off, None),
        (ReasoningEffort::Minimal, Some(1024)),
        (ReasoningEffort::Low, Some(2048)),
        (ReasoningEffort::Medium, Some(4096)),
        (ReasoningEffort::High, Some(8192)),
        (ReasoningEffort::XHigh, Some(12288)),
        (ReasoningEffort::Max, Some(16384)),
        (ReasoningEffort::Ultra, Some(24576)),
        (ReasoningEffort::Persistent, None),
        (custom("20000"), Some(20000)),
        (custom("+007"), Some(7)),
        (custom("0"), None),
        (custom("-1"), None),
        (custom("18446744073709551615"), Some(u64::MAX)),
        (custom("18446744073709551616"), None),
        (custom("much"), None),
    ] {
        assert_eq!(reasoning_budget(Some(&effort)), budget, "{effort:?}");
    }
}

#[test]
fn room_to_answer() {
    let tokens = |effort| anthropic_max_tokens(&Some(Reasoning { effort }));
    assert_eq!(anthropic_max_tokens(&None), 8192);
    assert_eq!(tokens(None), 8192);
    assert_eq!(tokens(Some(ReasoningEffort::Minimal)), 8192);
    assert_eq!(tokens(Some(custom("7168"))), 8192);
    assert_eq!(tokens(Some(custom("7169"))), 8193);
    assert_eq!(tokens(Some(ReasoningEffort::Ultra)), 25600);
    assert_eq!(tokens(Some(custom("18446744073709551615"))), u64::MAX);
}

#[test]
fn thinking_is_asked_for_with_its_budget() {
    assert!(anthropic_thinking(&None).is_none());
    assert!(anthropic_thinking(&Some(Reasoning {
        effort: Some(custom("0"))
    }))
    .is_none());
    let thinking = anthropic_thinking(&Some(Reasoning {
        effort: Some(custom("18446744073709551615")),
    }))
    .expect("thinking");
    assert_eq!(
        value_of(&thinking).to_string(),
        r#"{"budget_tokens":18446744073709551615,"type":"enabled"}"#
    );
}

#[test]
fn only_a_recoverable_failure_is_tried_again() {
    assert_eq!(after_attempt(AttemptOutcome::Streaming), NextStep::HandOver);
    assert_eq!(
        after_attempt(AttemptOutcome::TransportFailed { recoverable: true }),
        NextStep::RecoverAndRetry
    );
    assert_eq!(
        after_attempt(AttemptOutcome::TransportFailed { recoverable: false }),
        NextStep::Report
    );
    assert_eq!(after_attempt(AttemptOutcome::Failed), NextStep::Report);
}
