use coevo_server::tools::{
    actions_denied_message, actions_denied_reason, requested_actions_permitted, step_kind,
    tool_call_status, tool_gate, tool_gate_refusal, tool_policy_allowed_actions, ToolGate,
};

fn strings(values: &[&str]) -> Vec<String> {
    values.iter().map(|v| v.to_string()).collect()
}

#[test]
fn tools_ask_for_their_actions() {
    assert_eq!(tool_policy_allowed_actions("http-get", None), strings(&["http_get"]));
    assert_eq!(tool_policy_allowed_actions("workspace-write-file", None), strings(&["write"]));
    assert_eq!(tool_policy_allowed_actions("workspace-shell", None), strings(&["shell"]));
    assert_eq!(tool_policy_allowed_actions("file-readonly", None), strings(&["read"]));
    assert_eq!(
        tool_policy_allowed_actions("file-readonly", Some("ListDirectory")),
        strings(&["list"])
    );
    assert_eq!(tool_policy_allowed_actions("file-readonly", Some("ReadFile")), strings(&["read"]));
    assert!(tool_policy_allowed_actions("custom-tool", None).is_empty());
}

#[test]
fn requested_actions_must_all_be_allowed() {
    let allowed = strings(&["READ", "http_get"]);
    assert!(requested_actions_permitted(&strings(&["read"]), &allowed));
    assert!(requested_actions_permitted(&strings(&["read", "HTTP_GET"]), &allowed));
    assert!(!requested_actions_permitted(&strings(&["read", "write"]), &allowed));
    assert!(requested_actions_permitted(&Vec::new(), &Vec::new()));
    assert!(!requested_actions_permitted(&strings(&["read"]), &Vec::new()));
}

#[test]
fn policy_decision_gates_the_call() {
    assert_eq!(tool_gate(false, true, true), ToolGate::Denied);
    assert_eq!(tool_gate(true, true, false), ToolGate::ApprovalRequired);
    assert_eq!(tool_gate(true, true, true), ToolGate::RunWithReceipt);
    assert_eq!(tool_gate(true, false, false), ToolGate::Run);
}

#[test]
fn step_types_map_to_span_kinds() {
    assert_eq!(step_kind("Think"), "plan");
    assert_eq!(step_kind("ModelCall"), "model_call");
    assert_eq!(step_kind("CallTool"), "tool_call");
    assert_eq!(step_kind("SelectTool"), "tool_call");
    assert_eq!(step_kind("CallExecutor"), "tool_call");
    assert_eq!(step_kind("AskHuman"), "governance");
    assert_eq!(step_kind("Reflect"), "reflection");
    assert_eq!(step_kind("Other"), "mission");
    assert_eq!(tool_call_status(1), "ok");
    assert_eq!(tool_call_status(0), "error");
    assert_eq!(tool_call_status(2), "error");
}

#[test]
fn denied_actions_are_listed_as_debug_lists() {
    assert_eq!(
        actions_denied_reason(&strings(&["write"]), &strings(&["read", "http_get"])),
        "ToolDeniedByPolicy: requested actions [\"write\"] exceed work order allowed actions [\"read\", \"http_get\"]"
    );
    assert_eq!(
        actions_denied_message("[a]", "[]"),
        "ToolDeniedByPolicy: requested actions [a] exceed work order allowed actions []"
    );
}

#[test]
fn gated_calls_are_refused_with_the_policy_reason() {
    assert_eq!(
        tool_gate_refusal(ToolGate::Denied, "green track"),
        Some("ToolDeniedByPolicy: green track".to_string())
    );
    assert_eq!(
        tool_gate_refusal(ToolGate::ApprovalRequired, "red track"),
        Some("ToolApprovalRequired: red track".to_string())
    );
    assert_eq!(tool_gate_refusal(ToolGate::Run, "x"), None);
    assert_eq!(tool_gate_refusal(ToolGate::RunWithReceipt, "x"), None);
}
