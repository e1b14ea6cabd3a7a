use coevo_server::ids::new_record_id;
use coevo_server::prompts::{
    draft_prompt_version, employee_prompt_writes, PromptFile, hydrated_prompt_content, next_version_number,
    prompt_body_storage_value, validate_prompt_id, CreatePromptVersionRequest, PromptIdError,
    PromptVariable,
};
use coevo_server::resolution::{
    check_contract_hash, check_contract_persisted, default_context_ref, parse_stance_position,
    require_contract_hash, stance_max_rounds, RouteAnchorError, StancePosition,
};
use coevo_server::timeline::{audit_event_limit, order_by_time, AuditEventsQuery};

#[test]
fn employee_prompt_bodies_are_not_stored() {
    assert_eq!(prompt_body_storage_value(true, "secret body"), "");
    assert_eq!(prompt_body_storage_value(false, "shared body"), "shared body");
}

#[test]
fn versions_count_up_from_one() {
    assert_eq!(next_version_number(None), 1);
    assert_eq!(next_version_number(Some(0)), 1);
    assert_eq!(next_version_number(Some(4)), 5);
}

#[test]
fn prompt_ids_must_be_present_and_plain() {
    assert_eq!(validate_prompt_id("  ", true), Err(PromptIdError::Required));
    assert_eq!(validate_prompt_id("a/b", false), Err(PromptIdError::NotPlain));
    assert_eq!(validate_prompt_id("agent-1", true), Ok(()));
}

#[test]
fn created_versions_are_system_drafts() {
    let req = CreatePromptVersionRequest {
        prompt_id: "agent-1".to_string(),
        content: "Be brief.".to_string(),
        variables: vec![PromptVariable {
            name: "tone".to_string(),
            var_type: "string".to_string(),
            default_value: None,
            required: false,
        }],
        change_summary: Some("first".to_string()),
    };
    let v = draft_prompt_version(&req, "v-1".to_string(), 3, "2024-01-01T00:00:00Z".to_string(), "[]".to_string());
    assert_eq!(v.version_id, "v-1");
    assert_eq!(v.prompt_id, "agent-1");
    assert_eq!(v.version_number, 3);
    assert_eq!(v.content, "Be brief.");
    assert_eq!(v.status, "DRAFT");
    assert_eq!(v.created_by, "system");
    assert_eq!(v.change_summary, Some("first".to_string()));
}

#[test]
fn employee_versions_read_their_file() {
    assert_eq!(hydrated_prompt_content(true, Some("file".to_string()), "".to_string()), "file");
    assert_eq!(hydrated_prompt_content(true, None, "db".to_string()), "db");
    assert_eq!(hydrated_prompt_content(false, Some("file".to_string()), "db".to_string()), "db");
}

#[test]
fn stance_positions_and_rounds() {
    assert_eq!(parse_stance_position("SUPPORT"), StancePosition::Support);
    assert_eq!(parse_stance_position("support"), StancePosition::Support);
    assert_eq!(parse_stance_position("sUpport"), StancePosition::Oppose);
    assert_eq!(parse_stance_position("Against"), StancePosition::Oppose);
    assert_eq!(stance_max_rounds(&vec![]), 3);
    assert_eq!(stance_max_rounds(&vec![2, 7, 1]), 10);
    assert_eq!(default_context_ref(None), "0".repeat(64));
    assert_eq!(default_context_ref(Some("ctx".to_string())), "ctx");
}

#[test]
fn route_plans_need_a_persisted_matching_contract() {
    assert_eq!(require_contract_hash(""), Err(RouteAnchorError::HashRequired));
    assert_eq!(require_contract_hash("abc"), Ok(()));
    assert_eq!(check_contract_persisted(true), Ok(()));
    assert_eq!(check_contract_persisted(false), Err(RouteAnchorError::AnchorNotFound));
    assert_eq!(check_contract_hash("abc", "abc"), Ok(()));
    assert_eq!(check_contract_hash("abc", "abd"), Err(RouteAnchorError::HashMismatch));
}

#[test]
fn audit_limit_is_clamped() {
    let limit = |l: Option<i64>| {
        audit_event_limit(&AuditEventsQuery { limit: l, work_order_id: None, run_id: None })
    };
    assert_eq!(limit(None), 100);
    assert_eq!(limit(Some(0)), 1);
    assert_eq!(limit(Some(-5)), 1);
    assert_eq!(limit(Some(42)), 42);
    assert_eq!(limit(Some(10_000)), 500);
}

#[test]
fn timeline_order_is_stable_by_time() {
    let keys = vec![30_i64, 10, 20, 10, 30];
    assert_eq!(order_by_time(&keys, false), vec![1, 3, 2, 0, 4]);
    assert_eq!(order_by_time(&keys, true), vec![0, 4, 2, 1, 3]);
    assert!(order_by_time(&Vec::new(), false).is_empty());
}

#[test]
fn record_ids_are_prefix_and_simple_uuid() {
    let a = new_record_id("report");
    let b = new_record_id("report");
    assert_eq!(a.len(), "report-".len() + 32);
    assert!(a.starts_with("report-"));
    assert!(a["report-".len()..].chars().all(|c| c.is_ascii_digit() || ('a'..='f').contains(&c)));
    assert_eq!(&a["report-".len() + 12..="report-".len() + 12], "4");
    assert!("89ab".contains(&a["report-".len() + 16..="report-".len() + 16]));
    assert_ne!(a, b);
}

#[test]
fn route_refusals_explain_the_anchor_problem() {
    assert!(RouteAnchorError::AnchorNotFound.message().contains("CONTRACT_ANCHOR_NOT_FOUND"));
    assert!(RouteAnchorError::HashMismatch.message().contains("CONTRACT_HASH_MISMATCH"));
    assert_eq!(
        RouteAnchorError::HashRequired.message(),
        "contract_hash is required to anchor the execution plan"
    );
}

#[test]
fn prompt_id_refusals_have_their_messages() {
    assert_eq!(PromptIdError::Required.message(), "prompt_id is required");
    assert_eq!(PromptIdError::NotPlain.message(), "prompt_id must be a plain employee identifier");
}

#[test]
fn publishing_also_moves_the_current_prompt() {
    let drafted = employee_prompt_writes(3, "Be brief.", false);
    assert_eq!(drafted, vec![(PromptFile::Version, "Be brief.".to_string())]);
    let published = employee_prompt_writes(12, "Be brief.", true);
    assert_eq!(
        published,
        vec![
            (PromptFile::Version, "Be brief.".to_string()),
            (PromptFile::Current, "Be brief.".to_string()),
            (PromptFile::CurrentVersion, "12".to_string()),
        ]
    );
    assert_eq!(employee_prompt_writes(-7, "", true)[2].1, "-7");
}

#[test]
fn prompt_id_refusals_are_unprocessable() {
    assert_eq!(PromptIdError::Required.status(), 422);
    assert_eq!(PromptIdError::NotPlain.status(), 422);
}
