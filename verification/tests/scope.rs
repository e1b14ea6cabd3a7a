use coevo_server::scope::{
    check_header_matches_path, check_scoped_work_order, check_worker_header, default_opc_id,
    merge_work_order_ids, resolve_legacy_work_order_scope, row_of_company, session_confirms_worker,
    session_visible, work_order_location, worker_scope_opc_id, worker_visibility, ScopeError,
    WorkOrderScope, WorkerVisibility,
};

fn ids(values: &[&str]) -> Vec<String> {
    values.iter().map(|v| v.to_string()).collect()
}

#[test]
fn blank_company_is_the_default_company() {
    assert_eq!(default_opc_id(), "default-opc");
    assert_eq!(work_order_location("  "), "default-opc");
    assert_eq!(work_order_location("opc-a"), "opc-a");
    assert_eq!(worker_scope_opc_id(None), "default-opc");
    assert_eq!(worker_scope_opc_id(Some("")), "default-opc");
    assert_eq!(worker_scope_opc_id(Some("opc-b")), "opc-b");
}

#[test]
fn legacy_work_order_scope_follows_its_company() {
    assert!(matches!(
        resolve_legacy_work_order_scope(None, Some("opc-a")),
        Err(ScopeError::WorkOrderNotFound)
    ));
    assert!(matches!(
        resolve_legacy_work_order_scope(Some("default-opc"), None),
        Ok(WorkOrderScope::Global)
    ));
    assert!(matches!(
        resolve_legacy_work_order_scope(Some("opc-a"), None),
        Err(ScopeError::HeaderRequired)
    ));
    match resolve_legacy_work_order_scope(Some("opc-a"), Some("opc-a")) {
        Ok(WorkOrderScope::Company(c)) => assert_eq!(c, "opc-a"),
        _ => panic!("company scope expected"),
    }
    match resolve_legacy_work_order_scope(Some("opc-a"), Some("opc-b")) {
        Err(ScopeError::HeaderMismatch { header, stored }) => {
            assert_eq!(header, "opc-b");
            assert_eq!(stored, "opc-a");
        }
        _ => panic!("mismatch expected"),
    }
}

#[test]
fn scoped_work_order_must_carry_the_header_company() {
    assert!(check_scoped_work_order("opc-a", Some("opc-a")).is_ok());
    assert!(matches!(check_scoped_work_order("opc-a", None), Err(ScopeError::WorkOrderNotFound)));
    let err = check_scoped_work_order("opc-a", Some("opc-b")).err().unwrap();
    assert_eq!(
        err.message("/opc/tools routes"),
        "LEGACY_OPC_HEADER_BODY_MISMATCH: x-coevo-opc-id=opc-a does not match stored opc_id=opc-b"
    );
}

#[test]
fn company_worker_needs_matching_header() {
    assert!(matches!(check_worker_header("default-opc", None), Ok(None)));
    assert!(matches!(check_worker_header("opc-a", None), Err(ScopeError::HeaderRequired)));
    assert_eq!(check_worker_header("opc-a", Some("opc-a")).ok().unwrap(), Some("opc-a".to_string()));
    assert!(matches!(
        check_worker_header("opc-a", Some("opc-b")),
        Err(ScopeError::HeaderMismatch { .. })
    ));
}

#[test]
fn scope_errors_have_their_messages() {
    assert_eq!(
        ScopeError::HeaderRequired.message("/opc/workers routes"),
        "LEGACY_OPC_ID_REQUIRED: header x-coevo-opc-id is required for legacy /opc/workers routes"
    );
    assert_eq!(ScopeError::WorkOrderNotFound.message("x"), "WorkOrder not found");
    assert_eq!(
        ScopeError::BoundToOtherCompany {
            worker_id: "worker-agent-1".to_string(),
            company: "opc-b".to_string(),
        }
        .message("x"),
        "WORKER_BOUND_TO_OTHER_COMPANY: worker-agent-1 is still bound to opc-b"
    );
}

#[test]
fn worker_rows_are_visible_only_to_their_company() {
    let company_ids = ids(&["wo-1", "wo-2"]);
    assert!(matches!(
        worker_visibility(Some("opc-a"), Some("wo-1"), None, "opc-a", &company_ids),
        WorkerVisibility::Visible
    ));
    assert!(matches!(
        worker_visibility(Some("opc-b"), Some("wo-1"), None, "opc-a", &company_ids),
        WorkerVisibility::Hidden
    ));
    assert!(matches!(
        worker_visibility(Some(" "), Some("wo-1"), None, "opc-a", &company_ids),
        WorkerVisibility::Hidden
    ));
    assert!(matches!(
        worker_visibility(None, Some("wo-1"), Some("s-1"), "opc-a", &company_ids),
        WorkerVisibility::Hidden
    ));
    assert!(matches!(
        worker_visibility(Some("opc-a"), Some("wo-9"), None, "opc-a", &company_ids),
        WorkerVisibility::Hidden
    ));
    match worker_visibility(Some("opc-a"), Some("wo-9"), Some("s-1"), "opc-a", &company_ids) {
        WorkerVisibility::CheckSession(s) => assert_eq!(s, "s-1"),
        _ => panic!("session check expected"),
    }
}

#[test]
fn sessions_confirm_workers_of_their_company() {
    let company_ids = ids(&["wo-1"]);
    assert!(session_confirms_worker(Some("wo-1"), Some("opc-a"), "opc-a", &company_ids));
    assert!(!session_confirms_worker(Some("wo-1"), Some("opc-b"), "opc-a", &company_ids));
    assert!(!session_confirms_worker(Some("wo-2"), Some("opc-a"), "opc-a", &company_ids));
    assert!(!session_confirms_worker(None, Some("opc-a"), "opc-a", &company_ids));
    assert!(!session_confirms_worker(Some("wo-1"), Some(""), "", &company_ids));
}

#[test]
fn sessions_are_hidden_from_other_companies() {
    let company_ids = ids(&["wo-1"]);
    assert!(session_visible(Some("opc-a"), "wo-1", "opc-a", &company_ids));
    assert!(!session_visible(Some("opc-b"), "wo-1", "opc-a", &company_ids));
    assert!(!session_visible(Some("opc-a"), "wo-2", "opc-a", &company_ids));
    assert!(!session_visible(None, "wo-1", "opc-a", &company_ids));
}

#[test]
fn company_audit_header_must_match_path() {
    assert_eq!(check_header_matches_path("opc-a", "opc-a"), Ok(()));
    assert_eq!(
        check_header_matches_path("opc-a", "opc-b"),
        Err("LEGACY_OPC_HEADER_BODY_MISMATCH: x-coevo-opc-id=opc-a does not match path opc_id=opc-b".to_string())
    );
}

#[test]
fn merged_work_order_ids_keep_first_appearance() {
    let merged = merge_work_order_ids(&ids(&["wo-1", "wo-2", "wo-1"]), &ids(&["wo-3", "wo-2", "wo-4"]));
    assert_eq!(merged, ids(&["wo-1", "wo-2", "wo-3", "wo-4"]));
    assert!(merge_work_order_ids(&Vec::new(), &Vec::new()).is_empty());
}

#[test]
fn runtime_rows_of_other_companies_are_dropped() {
    assert!(row_of_company(Some("opc-a"), "opc-a"));
    assert!(!row_of_company(Some("opc-b"), "opc-a"));
    assert!(!row_of_company(None, "opc-a"));
    assert!(row_of_company(None, ""));
}

#[test]
fn scope_refusal_statuses() {
    assert_eq!(ScopeError::HeaderRequired.status(false), 400);
    assert_eq!(
        ScopeError::HeaderMismatch { header: "a".to_string(), stored: "b".to_string() }.status(true),
        409
    );
    assert_eq!(ScopeError::WorkOrderNotFound.status(false), 400);
    assert_eq!(ScopeError::WorkOrderNotFound.status(true), 404);
    assert_eq!(
        ScopeError::BoundToOtherCompany { worker_id: "w".to_string(), company: "c".to_string() }
            .status(false),
        409
    );
}
