use coevo_server::scope::ScopeError;
use coevo_server::worker::{
    cancel_event_id, check_run_worker, plan_worker_cancel, check_worker_binding, choose_run_to_cancel, is_active_session_status,
    is_active_worker_status, needs_binding_check, run_failure_status, worker_bound_elsewhere,
    worker_id_for_agent, RunWorkerError,
};

#[test]
fn worker_ids_derive_from_agent_ids() {
    assert_eq!(worker_id_for_agent("agent-founder-01"), "worker-agent-founder-01");
}

#[test]
fn busy_statuses_are_active() {
    for s in ["Assigned", "Planning", "Executing", "WaitingApproval", "Reflecting"] {
        assert!(is_active_worker_status(s));
    }
    for s in ["Idle", "Completed", "Failed", "executing", ""] {
        assert!(!is_active_worker_status(s));
    }
}

#[test]
fn rebinding_checks_only_busy_workers_of_other_work_orders() {
    assert!(needs_binding_check(Some("wo-1"), "Executing", "wo-2"));
    assert!(!needs_binding_check(Some("wo-2"), "Executing", "wo-2"));
    assert!(!needs_binding_check(Some("wo-1"), "Idle", "wo-2"));
    assert!(!needs_binding_check(None, "Executing", "wo-2"));
}

#[test]
fn busy_worker_cannot_switch_company() {
    assert!(check_worker_binding(None, "opc-a", "agent-1").is_ok());
    assert!(check_worker_binding(Some("opc-a"), "opc-a", "agent-1").is_ok());
    match check_worker_binding(Some("opc-b"), "opc-a", "agent-1") {
        Err(ScopeError::BoundToOtherCompany { worker_id, company }) => {
            assert_eq!(worker_id, "worker-agent-1");
            assert_eq!(company, "opc-b");
        }
        _ => panic!("binding conflict expected"),
    }
}

#[test]
fn run_path_must_name_the_selected_agents_worker() {
    let agents = vec!["agent-pm-01".to_string(), "agent-x".to_string()];
    assert_eq!(check_run_worker(&agents, "worker-agent-pm-01").ok().unwrap(), "agent-pm-01");
    let err = check_run_worker(&agents, "worker-agent-x").err().unwrap();
    assert_eq!(
        err.message(),
        "WORKER_PATH_ID_MISMATCH: path worker_id=worker-agent-x does not match work order worker_id=worker-agent-pm-01"
    );
    assert!(matches!(check_run_worker(&Vec::new(), "worker-a"), Err(RunWorkerError::NoSelectedAgent)));
    assert!(matches!(
        check_run_worker(&vec!["".to_string()], "worker-"),
        Err(RunWorkerError::NoSelectedAgent)
    ));
    assert_eq!(
        RunWorkerError::NoSelectedAgent.message(),
        "WorkOrder has no selected agent to bind legacy worker run"
    );
}

#[test]
fn worker_of_another_company_refuses_run() {
    assert!(!worker_bound_elsewhere("default-opc", "opc-a"));
    assert!(!worker_bound_elsewhere("opc-a", "opc-a"));
    assert!(worker_bound_elsewhere("opc-b", "opc-a"));
    assert!(!worker_bound_elsewhere("default-opc", ""));
    assert!(worker_bound_elsewhere("opc-b", " "));
}

#[test]
fn missing_provider_is_a_conflict() {
    assert_eq!(run_failure_status("run failed: MODEL_PROVIDER_NOT_CONFIGURED: set one"), 409);
    assert_eq!(run_failure_status("disk full"), 500);
}

#[test]
fn open_sessions_are_active() {
    assert!(is_active_session_status(Some("Open")));
    assert!(is_active_session_status(Some("Running")));
    assert!(is_active_session_status(Some("WaitingApproval")));
    assert!(!is_active_session_status(Some("Closed")));
    assert!(!is_active_session_status(None));
}

#[test]
fn cancel_prefers_queue_lane_then_open_latest_run() {
    assert_eq!(
        choose_run_to_cancel(Some("run-q".to_string()), Some(("run-l".to_string(), "Running".to_string()))),
        Some("run-q".to_string())
    );
    assert_eq!(
        choose_run_to_cancel(None, Some(("run-l".to_string(), "Queued".to_string()))),
        Some("run-l".to_string())
    );
    assert_eq!(choose_run_to_cancel(None, Some(("run-l".to_string(), "Completed".to_string()))), None);
    assert_eq!(choose_run_to_cancel(None, None), None);
}

#[test]
fn cancel_plan_closes_active_sessions_and_stops_open_runs() {
    let plan = plan_worker_cancel(Some("Running"), None, Some(("run-1".to_string(), "Completed".to_string())));
    assert_eq!(plan.run_id, None);
    assert!(plan.cancel_session);
    let plan = plan_worker_cancel(Some("Closed"), None, Some(("run-1".to_string(), "Completed".to_string())));
    assert_eq!(plan.run_id, None);
    assert!(!plan.cancel_session);
    let plan = plan_worker_cancel(Some("Closed"), Some("run-q".to_string()), None);
    assert_eq!(plan.run_id, Some("run-q".to_string()));
    assert!(plan.cancel_session);
    let plan = plan_worker_cancel(None, None, Some(("run-2".to_string(), "WaitingApproval".to_string())));
    assert_eq!(plan.run_id, Some("run-2".to_string()));
    assert!(plan.cancel_session);
    assert_eq!(cancel_event_id("run-2"), "ev-run-2-cancel");
}

#[test]
fn run_refusal_statuses() {
    assert_eq!(RunWorkerError::NoSelectedAgent.status(), 400);
    assert_eq!(
        RunWorkerError::PathMismatch {
            path_worker_id: "worker-a".to_string(),
            expected_worker_id: "worker-b".to_string(),
        }
        .status(),
        409
    );
}
