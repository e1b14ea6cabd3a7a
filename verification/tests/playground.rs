use coevo_server::playground::{playground_result_looks_real, PlaygroundSignal};

fn signal(
    input_tokens: Option<u64>,
    output_tokens: Option<u64>,
    cost_usd: f64,
    latency_ms: Option<u64>,
    error_is_null: bool,
    output: Option<&str>,
) -> PlaygroundSignal {
    PlaygroundSignal {
        input_tokens,
        output_tokens,
        cost_positive: cost_usd > 0.0,
        latency_ms,
        error_is_null,
        output: output.map(|o| o.to_string()),
    }
}

#[test]
fn real_playground_result_accepts_low_latency_when_usage_is_real() {
    // model "deepseek-v4-flash"
    let result = signal(
        Some(21),
        Some(13),
        0.0001,
        Some(12),
        true,
        Some("Product discovery reduces uncertainty before teams commit roadmap effort."),
    );
    assert!(playground_result_looks_real(&result));
}

#[test]
fn stub_playground_results_are_not_real() {
    let out = Some("answer");
    assert!(!playground_result_looks_real(&signal(Some(0), Some(13), 0.1, Some(12), true, out)));
    assert!(!playground_result_looks_real(&signal(Some(21), None, 0.1, Some(12), true, out)));
    assert!(!playground_result_looks_real(&signal(Some(21), Some(13), 0.0, Some(12), true, out)));
    assert!(!playground_result_looks_real(&signal(Some(21), Some(13), 0.1, Some(0), true, out)));
    assert!(!playground_result_looks_real(&signal(Some(21), Some(13), 0.1, Some(12), false, out)));
    assert!(!playground_result_looks_real(&signal(Some(21), Some(13), 0.1, Some(12), true, Some("  "))));
    assert!(!playground_result_looks_real(&signal(Some(21), Some(13), 0.1, Some(12), true, None)));
}
