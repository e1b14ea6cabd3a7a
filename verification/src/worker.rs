//! Worker commands on legacy routes: assigning a worker, running a work order on it, and
//! cancelling what it runs.
use vstd::prelude::*;

use crate::scope::{default_opc, location_of, ScopeError};
use crate::text::{contains, same_text, trim, views};

verus! {

/// Body of a request to assign an employee's worker, optionally to a work order.
pub struct AssignReq {
    pub agent_id: String,
    pub work_order_id: Option<String>,
}

/// Body of a request to run a work order on a worker.
pub struct RunReq {
    pub work_order_id: String,
}

/// The id of the worker that acts for an employee.
pub open spec fn worker_id_of(agent_id: Seq<char>) -> Seq<char> {
    "worker-"@ + agent_id
}

pub fn worker_id_for_agent(agent_id: &str) -> (r: String)
    ensures
        r@ == worker_id_of(agent_id@),
{
    String::from_str("worker-").concat(agent_id)
}

/// Worker statuses in which the worker is still busy with its work order.
pub open spec fn is_active_worker_status_spec(status: Seq<char>) -> bool {
    status == "Assigned"@ || status == "Planning"@ || status == "Executing"@ || status
        == "WaitingApproval"@ || status == "Reflecting"@
}

pub fn is_active_worker_status(status: &str) -> (r: bool)
    ensures
        r == is_active_worker_status_spec(status@),
{
    same_text(status, "Assigned") || same_text(status, "Planning") || same_text(status, "Executing")
        || same_text(status, "WaitingApproval") || same_text(status, "Reflecting")
}

/// Re-assigning a worker to `work_order_id` must first check the company of the work order it
/// is busy with: when it has another current work order and an active status.
pub fn needs_binding_check(
    existing_work_order_id: Option<&str>,
    existing_status: &str,
    work_order_id: &str,
) -> (r: bool)
    ensures
        r == (match existing_work_order_id {
            Some(e) => e@ != work_order_id@ && is_active_worker_status_spec(existing_status@),
            None => false,
        }),
{
    match existing_work_order_id {
        Some(e) => !same_text(e, work_order_id) && is_active_worker_status(existing_status),
        None => false,
    }
}

/// A worker busy with a work order of company `existing_location` cannot be taken by a work
/// order of another company.
pub fn check_worker_binding(
    existing_location: Option<&str>,
    work_order_opc_id: &str,
    agent_id: &str,
) -> (r: Result<(), ScopeError>)
    ensures
        match existing_location {
            Some(l) => if l@ != work_order_opc_id@ {
                r matches Err(ScopeError::BoundToOtherCompany { worker_id: w, company: c })
                    && w@ == worker_id_of(agent_id@) && c@ == l@
            } else {
                r is Ok
            },
            None => r is Ok,
        },
{
    match existing_location {
        Some(l) => if !same_text(l, work_order_opc_id) {
            Err(
                ScopeError::BoundToOtherCompany {
                    worker_id: worker_id_for_agent(agent_id),
                    company: String::from_str(l),
                },
            )
        } else {
            Ok(())
        },
        None => Ok(()),
    }
}

/// Why a legacy run request is refused.
pub enum RunWorkerError {
    /// Status 400, "WorkOrder has no selected agent to bind legacy worker run".
    NoSelectedAgent,
    /// Status 409: the path names another worker than the work order's.
    PathMismatch { path_worker_id: String, expected_worker_id: String },
}

pub open spec fn run_worker_error_message(e: RunWorkerError) -> Seq<char> {
    match e {
        RunWorkerError::NoSelectedAgent => "WorkOrder has no selected agent to bind legacy worker run"@,
        RunWorkerError::PathMismatch { path_worker_id, expected_worker_id } => "WORKER_PATH_ID_MISMATCH: path worker_id="@
            + path_worker_id@ + " does not match work order worker_id="@ + expected_worker_id@,
    }
}

impl RunWorkerError {
    pub open spec fn status_spec(self) -> u16 {
        match self {
            RunWorkerError::NoSelectedAgent => 400,
            RunWorkerError::PathMismatch { .. } => 409,
        }
    }

    /// The HTTP status the refusal is answered with.
    pub fn status(&self) -> (r: u16)
        ensures
            r == self.status_spec(),
    {
        match self {
            RunWorkerError::NoSelectedAgent => 400,
            RunWorkerError::PathMismatch { .. } => 409,
        }
    }

    pub fn message(&self) -> (r: String)
        ensures
            r@ == run_worker_error_message(*self),
    {
        match self {
            RunWorkerError::NoSelectedAgent => String::from_str(
                "WorkOrder has no selected agent to bind legacy worker run",
            ),
            RunWorkerError::PathMismatch { path_worker_id, expected_worker_id } => String::from_str(
                "WORKER_PATH_ID_MISMATCH: path worker_id=",
            ).concat(path_worker_id.as_str()).concat(" does not match work order worker_id=").concat(
                expected_worker_id.as_str(),
            ),
        }
    }
}

/// A run request's worker must be the worker of the work order's first selected agent; the
/// result is that agent.
pub fn check_run_worker(selected_agents: &Vec<String>, path_worker_id: &str) -> (r: Result<
    String,
    RunWorkerError,
>)
    ensures
        selected_agents@.len() == 0 || selected_agents@[0]@.len() == 0 ==> r matches Err(
            RunWorkerError::NoSelectedAgent,
        ),
        selected_agents@.len() > 0 && selected_agents@[0]@.len() > 0 ==> if path_worker_id@
            == worker_id_of(selected_agents@[0]@) {
            r matches Ok(a) && a@ == selected_agents@[0]@
        } else {
            r matches Err(RunWorkerError::PathMismatch { path_worker_id: p, expected_worker_id: e })
                && p@ == path_worker_id@ && e@ == worker_id_of(selected_agents@[0]@)
        },
{
    if selected_agents.len() == 0 || selected_agents[0].as_str().unicode_len() == 0 {
        return Err(RunWorkerError::NoSelectedAgent);
    }
    let agent = selected_agents[0].clone();
    let expected = worker_id_for_agent(agent.as_str());
    if !same_text(path_worker_id, expected.as_str()) {
        return Err(
            RunWorkerError::PathMismatch {
                path_worker_id: String::from_str(path_worker_id),
                expected_worker_id: expected,
            },
        );
    }
    Ok(agent)
}

/// An existing worker bound to a company other than the default one and other than the work
/// order's company refuses the run.
pub fn worker_bound_elsewhere(existing_worker_opc_id: &str, work_order_opc_id: &str) -> (r: bool)
    ensures
        r == (existing_worker_opc_id@ != default_opc() && existing_worker_opc_id@ != location_of(
            work_order_opc_id@,
        )),
{
    let loc = crate::scope::work_order_location(work_order_opc_id);
    !same_text(existing_worker_opc_id, "default-opc") && !same_text(
        existing_worker_opc_id,
        loc.as_str(),
    )
}

/// A failed run is a conflict (409) when no model provider is configured, else status 500.
pub fn run_failure_status(message: &str) -> (r: u16)
    ensures
        r == (if crate::text::has_sub(message@, "MODEL_PROVIDER_NOT_CONFIGURED"@) {
            409u16
        } else {
            500u16
        }),
{
    if contains(message, "MODEL_PROVIDER_NOT_CONFIGURED") {
        409
    } else {
        500
    }
}

/// Session statuses in which a cancel closes the session.
pub open spec fn is_active_session_status_spec(status: Option<Seq<char>>) -> bool {
    match status {
        Some(s) => s == "Open"@ || s == "Running"@ || s == "WaitingApproval"@,
        None => false,
    }
}

pub fn is_active_session_status(status: Option<&str>) -> (r: bool)
    ensures
        r == is_active_session_status_spec(crate::scope::opt_view(status)),
{
    match status {
        Some(s) => same_text(s, "Open") || same_text(s, "Running") || same_text(s, "WaitingApproval"),
        None => false,
    }
}

/// Run statuses a cancel stops.
pub open spec fn is_cancellable_run_status(status: Seq<char>) -> bool {
    status == "Queued"@ || status == "Running"@ || status == "WaitingApproval"@
}

/// The run a cancel stops: the run the session's queue lane holds active (running), else the
/// session's latest run when its status is still open.
pub open spec fn run_to_cancel(queue_active_run: Option<Seq<char>>, latest_run: Option<(Seq<char>, Seq<char>)>) -> Option<
    Seq<char>,
> {
    match queue_active_run {
        Some(r) => Some(r),
        None => match latest_run {
            Some((r, status)) => if is_cancellable_run_status(status) {
                Some(r)
            } else {
                None
            },
            None => None,
        },
    }
}

pub fn choose_run_to_cancel(queue_active_run: Option<String>, latest_run: Option<(String, String)>) -> (r: Option<
    String,
>)
    ensures
        crate::headers::opt_seq(r) == run_to_cancel(
            crate::headers::opt_seq(queue_active_run),
            match latest_run {
                Some(l) => Some((l.0@, l.1@)),
                None => None,
            },
        ),
{
    match queue_active_run {
        Some(q) => Some(q),
        None => match latest_run {
            Some((run_id, status)) => {
                let s = status.as_str();
                if same_text(s, "Queued") || same_text(s, "Running") || same_text(
                    s,
                    "WaitingApproval",
                ) {
                    Some(run_id)
                } else {
                    None
                }
            },
            None => None,
        },
    }
}


/// A cancel never touches a run that has already finished: without a run held by the queue
/// lane, a latest run that is not queued, running or awaiting approval stays as it is.
pub proof fn lemma_cancel_spares_finished_runs(run_id: Seq<char>, status: Seq<char>)
    ensures
        !is_cancellable_run_status(status) ==> run_to_cancel(None, Some((run_id, status))) is None,
        is_cancellable_run_status(status) ==> run_to_cancel(None, Some((run_id, status))) == Some(
            run_id,
        ),
{
}

/// A cancel stops the run the session's queue lane holds, whatever the session's latest run;
/// without one, it stops the latest run exactly when that run is `Queued`, `Running` or
/// `WaitingApproval`, and stops nothing when the session has no run.
pub proof fn lemma_cancel_stops_open_runs(
    queue_run: Seq<char>,
    run_id: Seq<char>,
    status: Seq<char>,
    latest: Option<(Seq<char>, Seq<char>)>,
)
    ensures
        run_to_cancel(Some(queue_run), latest) == Some(queue_run),
        (status == "Queued"@ || status == "Running"@ || status == "WaitingApproval"@)
            ==> run_to_cancel(None, Some((run_id, status))) == Some(run_id),
        !(status == "Queued"@ || status == "Running"@ || status == "WaitingApproval"@)
            ==> run_to_cancel(None, Some((run_id, status))) is None,
        run_to_cancel(None, None) is None,
{
}

/// What a cancel of a worker with a current session does: the run it stops, if any, and
/// whether the session is closed.
pub struct CancelPlan {
    pub run_id: Option<String>,
    pub cancel_session: bool,
}

pub fn plan_worker_cancel(
    session_status: Option<&str>,
    queue_active_run: Option<String>,
    latest_run: Option<(String, String)>,
) -> (r: CancelPlan)
    ensures
        crate::headers::opt_seq(r.run_id) == run_to_cancel(
            crate::headers::opt_seq(queue_active_run),
            match latest_run {
                Some(l) => Some((l.0@, l.1@)),
                None => None,
            },
        ),
        r.cancel_session == (is_active_session_status_spec(crate::scope::opt_view(session_status))
            || r.run_id is Some),
{
    let session_active = is_active_session_status(session_status);
    let run_id = choose_run_to_cancel(queue_active_run, latest_run);
    let cancel_session = session_active || run_id.is_some();
    CancelPlan { run_id, cancel_session }
}

/// The id of the lifecycle event a cancel records for run `run_id`.
pub fn cancel_event_id(run_id: &str) -> (r: String)
    ensures
        r@ == "ev-"@ + run_id@ + "-cancel"@,
{
    String::from_str("ev-").concat(run_id).concat("-cancel")
}

} // verus!
