//! Playground runs: whether a model's result shows real usage rather than a stub.
use vstd::prelude::*;

use crate::text::{trim, trim_seq};

verus! {

/// What a playground result says about its usage. A count that is absent or not a
/// non-negative integer is `None`; `cost_positive` tells whether the cost is a number above
/// zero; `output` is the output when it is a string.
pub struct PlaygroundSignal {
    pub input_tokens: Option<u64>,
    pub output_tokens: Option<u64>,
    pub cost_positive: bool,
    pub latency_ms: Option<u64>,
    pub error_is_null: bool,
    pub output: Option<String>,
}

pub open spec fn positive(v: Option<u64>) -> bool {
    match v {
        Some(n) => n > 0,
        None => false,
    }
}

/// A result is real when it used input and output tokens, cost something, took time, carries
/// no error, and has a non-blank output.
pub open spec fn looks_real(s: PlaygroundSignal) -> bool {
    &&& positive(s.input_tokens)
    &&& positive(s.output_tokens)
    &&& s.cost_positive
    &&& positive(s.latency_ms)
    &&& s.error_is_null
    &&& match s.output {
        Some(o) => trim_seq(o@).len() > 0,
        None => false,
    }
}

fn is_positive(v: Option<u64>) -> (r: bool)
    ensures
        r == positive(v),
{
    match v {
        Some(n) => n > 0,
        None => false,
    }
}

pub fn playground_result_looks_real(s: &PlaygroundSignal) -> (r: bool)
    ensures
        r == looks_real(*s),
{
    is_positive(s.input_tokens) && is_positive(s.output_tokens) && s.cost_positive && is_positive(
        s.latency_ms,
    ) && s.error_is_null && match &s.output {
        Some(o) => trim(o.as_str()).as_str().unicode_len() > 0,
        None => false,
    }
}

} // verus!
