//! How much a model may think and write.

use crate::json::{json_view, Json, JsonView};
use crate::protocol::{Reasoning, ReasoningEffort};
use crate::text::{decimal, parse_u64};
use crate::value::{number, number_of};
use vstd::prelude::*;

verus! {

/// How many tokens a model may write where it does not think.
pub const DEFAULT_ANTHROPIC_MAX_TOKENS: u64 = 8192;

/// How many tokens a model may think for: a fixed number for each named effort,
/// and the number itself for an effort that is a positive decimal number.
pub open spec fn budget_of(effort: Option<ReasoningEffort>) -> Option<u64> {
    match effort {
        None => None,
        Some(ReasoningEffort::Off) => None,
        Some(ReasoningEffort::Minimal) => Some(1024),
        Some(ReasoningEffort::Low) => Some(2048),
        Some(ReasoningEffort::Medium) => Some(4096),
        Some(ReasoningEffort::High) => Some(8192),
        Some(ReasoningEffort::XHigh) => Some(12_288),
        Some(ReasoningEffort::Max) => Some(16_384),
        Some(ReasoningEffort::Ultra) => Some(24_576),
        Some(ReasoningEffort::Persistent) => None,
        Some(ReasoningEffort::Custom(value)) => match decimal(value@) {
            Some(number) => if 0 < number <= u64::MAX {
                Some(number as u64)
            } else {
                None
            },
            None => None,
        },
    }
}

/// How many tokens a request lets the model think for.
pub open spec fn thinking_budget(reasoning: Option<Reasoning>) -> Option<u64> {
    match reasoning {
        Some(reasoning) => budget_of(reasoning.effort),
        None => None,
    }
}

/// How many tokens a model may write: what it may think for and 1024 more, as
/// far as 64 bits hold that, but never less than without thinking.
pub open spec fn max_tokens(reasoning: Option<Reasoning>) -> u64 {
    match thinking_budget(reasoning) {
        Some(budget) => if budget + 1024 > u64::MAX {
            u64::MAX
        } else if budget + 1024 > DEFAULT_ANTHROPIC_MAX_TOKENS {
            (budget + 1024) as u64
        } else {
            DEFAULT_ANTHROPIC_MAX_TOKENS
        },
        None => DEFAULT_ANTHROPIC_MAX_TOKENS,
    }
}

/// The setting that lets a model think.
pub open spec fn thinking(reasoning: Option<Reasoning>) -> Option<JsonView> {
    match thinking_budget(reasoning) {
        Some(budget) => Some(
            JsonView::object().with("type"@, JsonView::String("enabled"@)).with(
                "budget_tokens"@,
                JsonView::Number(number_of(budget)),
            ),
        ),
        None => None,
    }
}

/// How many tokens a model may think for.
pub fn reasoning_budget(effort: Option<&ReasoningEffort>) -> (budget: Option<u64>)
    ensures
        budget == budget_of(
            match effort {
                Some(effort) => Some(*effort),
                None => None,
            },
        ),
{
    match effort {
        None => None,
        Some(ReasoningEffort::Off) => None,
        Some(ReasoningEffort::Minimal) => Some(1024),
        Some(ReasoningEffort::Low) => Some(2048),
        Some(ReasoningEffort::Medium) => Some(4096),
        Some(ReasoningEffort::High) => Some(8192),
        Some(ReasoningEffort::XHigh) => Some(12_288),
        Some(ReasoningEffort::Max) => Some(16_384),
        Some(ReasoningEffort::Ultra) => Some(24_576),
        Some(ReasoningEffort::Persistent) => None,
        Some(ReasoningEffort::Custom(value)) => match parse_u64(value.as_str()) {
            Some(number) => if number > 0 {
                Some(number)
            } else {
                None
            },
            None => None,
        },
    }
}

/// How many tokens a request lets the model think for.
fn request_budget(reasoning: &Option<Reasoning>) -> (budget: Option<u64>)
    ensures
        budget == thinking_budget(*reasoning),
{
    match reasoning {
        Some(reasoning) => match &reasoning.effort {
            Some(effort) => reasoning_budget(Some(effort)),
            None => reasoning_budget(None),
        },
        None => None,
    }
}

/// How many tokens a model may write.
pub fn anthropic_max_tokens(reasoning: &Option<Reasoning>) -> (tokens: u64)
    ensures
        tokens == max_tokens(*reasoning),
{
    match request_budget(reasoning) {
        Some(budget) => {
            let wanted: u64 = budget.saturating_add(1024);
            if wanted > DEFAULT_ANTHROPIC_MAX_TOKENS {
                wanted
            } else {
                DEFAULT_ANTHROPIC_MAX_TOKENS
            }
        },
        None => DEFAULT_ANTHROPIC_MAX_TOKENS,
    }
}

/// The setting that lets a model think.
pub fn anthropic_thinking(reasoning: &Option<Reasoning>) -> (json: Option<Json>)
    ensures
        json_view(json) == thinking(*reasoning),
{
    match request_budget(reasoning) {
        Some(budget) => Some(
            Json::object().with("type", Json::string("enabled")).with(
                "budget_tokens",
                Json::Number(number(budget)),
            ),
        ),
        None => None,
    }
}

} // verus!
