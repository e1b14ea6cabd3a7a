//! Run traces: the spans a worker run is shown as, under one root span per run.
use vstd::prelude::*;

use crate::meeting::{lowercase, unicode_lowercase};
use crate::tools::{step_kind, step_kind_spec, tool_call_status};

verus! {

/// A worker step of the run, as the trace reads it.
pub struct StepRow {
    pub step_id: String,
    pub step_type: String,
    pub status: String,
    pub input_json: Option<String>,
    pub output_json: Option<String>,
    pub started_at_ms: i64,
    pub ended_at_ms: Option<i64>,
}

/// A tool call of the run, as the trace reads it.
pub struct ToolCallRow {
    pub tool_call_id: String,
    pub tool_id: String,
    pub success: i64,
    pub input_summary: String,
    pub output_summary: String,
    pub started_at_ms: i64,
    pub ended_at_ms: Option<i64>,
}

/// One span of a trace (its token count is always 0 and its cost 0.0).
pub struct Span {
    pub span_id: String,
    pub parent_span_id: String,
    pub name: String,
    pub kind: String,
    pub status: String,
    pub input: String,
    pub output: String,
    pub started_at_ms: i64,
    pub ended_at_ms: Option<i64>,
}

pub struct SpanV {
    pub span_id: Seq<char>,
    pub parent_span_id: Seq<char>,
    pub name: Seq<char>,
    pub kind: Seq<char>,
    pub status: Seq<char>,
    pub input: Seq<char>,
    pub output: Seq<char>,
    pub started_at_ms: i64,
    pub ended_at_ms: Option<i64>,
}

impl View for Span {
    type V = SpanV;

    open spec fn view(&self) -> SpanV {
        SpanV {
            span_id: self.span_id@,
            parent_span_id: self.parent_span_id@,
            name: self.name@,
            kind: self.kind@,
            status: self.status@,
            input: self.input@,
            output: self.output@,
            started_at_ms: self.started_at_ms,
            ended_at_ms: self.ended_at_ms,
        }
    }
}

/// The root span of run `trace_id`, parent of every other span.
pub open spec fn root_span(trace_id: Seq<char>) -> Seq<char> {
    "run:"@ + trace_id
}

pub open spec fn step_span(trace_id: Seq<char>, s: StepRow) -> SpanV {
    SpanV {
        span_id: s.step_id@,
        parent_span_id: root_span(trace_id),
        name: s.step_type@,
        kind: step_kind_spec(s.step_type@),
        status: unicode_lowercase(s.status@),
        input: match s.input_json {
            Some(i) => i@,
            None => "{}"@,
        },
        output: match s.output_json {
            Some(o) => o@,
            None => Seq::empty(),
        },
        started_at_ms: s.started_at_ms,
        ended_at_ms: s.ended_at_ms,
    }
}

pub open spec fn call_span(trace_id: Seq<char>, c: ToolCallRow) -> SpanV {
    SpanV {
        span_id: c.tool_call_id@,
        parent_span_id: root_span(trace_id),
        name: c.tool_id@,
        kind: "tool_call"@,
        status: if c.success == 1 {
            "ok"@
        } else {
            "error"@
        },
        input: c.input_summary@,
        output: c.output_summary@,
        started_at_ms: c.started_at_ms,
        ended_at_ms: c.ended_at_ms,
    }
}

pub open spec fn span_views(spans: Seq<Span>) -> Seq<SpanV> {
    spans.map_values(|s: Span| s@)
}

/// The spans of run `trace_id`: its steps in order, then its tool calls in order.
pub open spec fn trace_spans_of(trace_id: Seq<char>, steps: Seq<StepRow>, calls: Seq<ToolCallRow>) -> Seq<
    SpanV,
> {
    steps.map_values(|s: StepRow| step_span(trace_id, s)) + calls.map_values(
        |c: ToolCallRow| call_span(trace_id, c),
    )
}

/// The spans of a run list its steps, then its tool calls; a tool call's span is `ok` exactly
/// when the call succeeded (`success` is 1) and `error` otherwise, and every span hangs under
/// the run's root span `run:<trace_id>`.
pub proof fn lemma_trace_span_shape(trace_id: Seq<char>, steps: Seq<StepRow>, calls: Seq<ToolCallRow>)
    ensures
        trace_spans_of(trace_id, steps, calls).len() == steps.len() + calls.len(),
        forall|j: int|
            0 <= j < calls.len() ==> (#[trigger] trace_spans_of(trace_id, steps, calls)[steps.len()
                + j]).status == (if calls[j].success == 1 {
                "ok"@
            } else {
                "error"@
            }),
        forall|k: int|
            0 <= k < steps.len() + calls.len() ==> (#[trigger] trace_spans_of(
                trace_id,
                steps,
                calls,
            )[k]).parent_span_id == "run:"@ + trace_id,
{
}

fn text_or(o: &Option<String>, default: &str) -> (r: String)
    ensures
        r@ == (match o {
            Some(s) => s@,
            None => default@,
        }),
{
    match o {
        Some(s) => s.clone(),
        None => String::from_str(default),
    }
}

pub fn trace_spans(trace_id: &str, steps: &Vec<StepRow>, calls: &Vec<ToolCallRow>) -> (r: Vec<Span>)
    ensures
        span_views(r@) == trace_spans_of(trace_id@, steps@, calls@),
        r@.len() == steps@.len() + calls@.len(),
        forall|i: int|
            0 <= i < steps@.len() ==> (#[trigger] r@[i]).span_id@ == steps@[i].step_id@
                && r@[i].parent_span_id@ == "run:"@ + trace_id@,
        forall|j: int|
            0 <= j < calls@.len() ==> {
                let span = #[trigger] r@[steps@.len() + j];
                &&& span.span_id@ == calls@[j].tool_call_id@
                &&& span.parent_span_id@ == "run:"@ + trace_id@
                &&& span.kind@ == "tool_call"@
                &&& span.status@ == (if calls@[j].success == 1 {
                    "ok"@
                } else {
                    "error"@
                })
            },
{
    let root = String::from_str("run:").concat(trace_id);
    let ghost want = trace_spans_of(trace_id@, steps@, calls@);
    let mut spans: Vec<Span> = Vec::new();
    let mut i: usize = 0;
    while i < steps.len()
        invariant
            i <= steps@.len(),
            root@ == root_span(trace_id@),
            want == trace_spans_of(trace_id@, steps@, calls@),
            span_views(spans@) == want.take(i as int),
        decreases steps@.len() - i,
    {
        let s = &steps[i];
        let span = Span {
            span_id: s.step_id.clone(),
            parent_span_id: root.clone(),
            name: s.step_type.clone(),
            kind: String::from_str(step_kind(s.step_type.as_str())),
            status: lowercase(s.status.as_str()),
            input: text_or(&s.input_json, "{}"),
            output: text_or(&s.output_json, ""),
            started_at_ms: s.started_at_ms,
            ended_at_ms: s.ended_at_ms,
        };
        let ghost before = spans@;
        spans.push(span);
        proof {
            reveal_strlit("");
            assert(""@ =~= Seq::<char>::empty());
            assert(span@ == step_span(trace_id@, steps@[i as int]));
            assert(want[i as int] == step_span(trace_id@, steps@[i as int]));
            assert(span_views(spans@) =~= span_views(before).push(span@));
            assert(want.take(i + 1) =~= want.take(i as int).push(want[i as int]));
        }
        i = i + 1;
    }
    let n = steps.len();
    let mut j: usize = 0;
    while j < calls.len()
        invariant
            j <= calls@.len(),
            n == steps@.len(),
            root@ == root_span(trace_id@),
            want == trace_spans_of(trace_id@, steps@, calls@),
            want.len() == steps@.len() + calls@.len(),
            span_views(spans@) == want.take(n + j),
        decreases calls@.len() - j,
    {
        let c = &calls[j];
        let span = Span {
            span_id: c.tool_call_id.clone(),
            parent_span_id: root.clone(),
            name: c.tool_id.clone(),
            kind: String::from_str("tool_call"),
            status: String::from_str(tool_call_status(c.success)),
            input: c.input_summary.clone(),
            output: c.output_summary.clone(),
            started_at_ms: c.started_at_ms,
            ended_at_ms: c.ended_at_ms,
        };
        let ghost before = spans@;
        spans.push(span);
        proof {
            assert(span@ == call_span(trace_id@, calls@[j as int]));
            assert(want[n + j] == call_span(trace_id@, calls@[j as int]));
            assert(span_views(spans@) =~= span_views(before).push(span@));
            assert(want.take(n + j + 1) =~= want.take(n + j).push(want[n + j]));
        }
        j = j + 1;
    }
    assert(want.take(n + calls@.len()) =~= want);
    proof {
        assert(span_views(spans@).len() == spans@.len());
        assert forall|i: int| 0 <= i < steps@.len() implies (#[trigger] spans@[i]).span_id@
            == steps@[i].step_id@ && spans@[i].parent_span_id@ == "run:"@ + trace_id@ by {
            assert(span_views(spans@)[i] == spans@[i]@);
            assert(want[i] == step_span(trace_id@, steps@[i]));
        }
        assert forall|j: int| 0 <= j < calls@.len() implies {
            let span = #[trigger] spans@[steps@.len() + j];
            &&& span.span_id@ == calls@[j].tool_call_id@
            &&& span.parent_span_id@ == "run:"@ + trace_id@
            &&& span.kind@ == "tool_call"@
            &&& span.status@ == (if calls@[j].success == 1 {
                "ok"@
            } else {
                "error"@
            })
        } by {
            assert(span_views(spans@)[steps@.len() + j] == spans@[steps@.len() + j]@);
            assert(want[steps@.len() + j] == call_span(trace_id@, calls@[j]));
        }
    }
    spans
}

/// A run's status as a trace shows it: lower-cased.
pub fn trace_status(status: &str) -> (r: String)
    ensures
        r@ == unicode_lowercase(status@),
{
    lowercase(status)
}

} // verus!
