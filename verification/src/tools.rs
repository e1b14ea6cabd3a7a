//! Tool execution policy on work orders, and trace span kinds.
use vstd::prelude::*;

use crate::text::{ascii_lower, eq_ic, eq_ignore_ascii_case, same_text, views};

verus! {

/// The actions a call of tool `tool_id` asks for; `file_action` is the `action` string of the
/// call's input, when it has one.
pub open spec fn tool_actions(tool_id: Seq<char>, file_action: Option<Seq<char>>) -> Seq<Seq<char>> {
    if tool_id == "http-get"@ {
        seq!["http_get"@]
    } else if tool_id == "workspace-write-file"@ {
        seq!["write"@]
    } else if tool_id == "workspace-shell"@ {
        seq!["shell"@]
    } else if tool_id == "file-readonly"@ {
        if file_action == Some("ListDirectory"@) {
            seq!["list"@]
        } else {
            seq!["read"@]
        }
    } else {
        Seq::empty()
    }
}

fn single(s: &str) -> (r: Vec<String>)
    ensures
        views(r@) == seq![s@],
{
    let mut r: Vec<String> = Vec::new();
    r.push(String::from_str(s));
    assert(views(r@) =~= seq![s@]);
    r
}

pub fn tool_policy_allowed_actions(tool_id: &str, file_action: Option<&str>) -> (r: Vec<String>)
    ensures
        views(r@) == tool_actions(tool_id@, crate::scope::opt_view(file_action)),
{
    if same_text(tool_id, "http-get") {
        single("http_get")
    } else if same_text(tool_id, "workspace-write-file") {
        single("write")
    } else if same_text(tool_id, "workspace-shell") {
        single("shell")
    } else if same_text(tool_id, "file-readonly") {
        let list = match file_action {
            Some(a) => same_text(a, "ListDirectory"),
            None => false,
        };
        if list {
            single("list")
        } else {
            single("read")
        }
    } else {
        let r: Vec<String> = Vec::new();
        assert(views(r@) =~= Seq::<Seq<char>>::empty());
        r
    }
}

/// `action` matches one of the allowed actions, ASCII case ignored.
pub open spec fn action_allowed(action: Seq<char>, allowed: Seq<Seq<char>>) -> bool {
    exists|j: int| 0 <= j < allowed.len() && eq_ic(#[trigger] allowed[j], action)
}

/// A tool call may proceed past the work order's action list when it asks for no action, or
/// every action it asks for is allowed.
pub open spec fn actions_permitted(requested: Seq<Seq<char>>, allowed: Seq<Seq<char>>) -> bool {
    requested.len() == 0 || forall|i: int|
        0 <= i < requested.len() ==> #[trigger] action_allowed(requested[i], allowed)
}

fn is_allowed(action: &str, allowed: &Vec<String>) -> (r: bool)
    ensures
        r == action_allowed(action@, views(allowed@)),
{
    let n = allowed.len();
    let mut j: usize = 0;
    while j < n
        invariant
            n == allowed@.len(),
            j <= n,
            forall|k: int| 0 <= k < j ==> !eq_ic(#[trigger] views(allowed@)[k], action@),
        decreases n - j,
    {
        assert(views(allowed@)[j as int] == allowed@[j as int]@);
        if eq_ignore_ascii_case(allowed[j].as_str(), action) {
            return true;
        }
        j = j + 1;
    }
    false
}

pub fn requested_actions_permitted(requested: &Vec<String>, allowed: &Vec<String>) -> (r: bool)
    ensures
        r == actions_permitted(views(requested@), views(allowed@)),
{
    let n = requested.len();
    if n == 0 {
        return true;
    }
    let mut i: usize = 0;
    while i < n
        invariant
            n == requested@.len(),
            n > 0,
            i <= n,
            forall|k: int| 0 <= k < i ==> #[trigger] action_allowed(views(requested@)[k], views(allowed@)),
        decreases n - i,
    {
        assert(views(requested@)[i as int] == requested@[i as int]@);
        if !is_allowed(requested[i].as_str(), allowed) {
            return false;
        }
        i = i + 1;
    }
    true
}

/// What `{:?}` writes for a list of strings (a bracketed, comma-separated list of quoted,
/// escaped strings).
pub uninterp spec fn debug_list(items: Seq<Seq<char>>) -> Seq<char>;

/// `format!("{:?}", items)` on a list of strings; the result is named, not restated: string
/// escaping follows Unicode tables.
#[verifier::external_body]
fn debug_list_text(items: &Vec<String>) -> (r: String)
    ensures
        r@ == debug_list(views(items@)),
{
    format!("{:?}", items)
}

/// The refusal of a tool call whose requested actions (listed as `requested_list`) exceed the
/// work order's allowed actions (listed as `allowed_list`); status 403.
pub fn actions_denied_message(requested_list: &str, allowed_list: &str) -> (r: String)
    ensures
        r@ == "ToolDeniedByPolicy: requested actions "@ + requested_list@
            + " exceed work order allowed actions "@ + allowed_list@,
{
    String::from_str("ToolDeniedByPolicy: requested actions ").concat(requested_list).concat(
        " exceed work order allowed actions ",
    ).concat(allowed_list)
}

/// The refusal of a tool call that asks for actions its work order does not allow, both lists
/// written as `{:?}` writes them.
pub fn actions_denied_reason(requested: &Vec<String>, allowed: &Vec<String>) -> (r: String)
    ensures
        r@ == "ToolDeniedByPolicy: requested actions "@ + debug_list(views(requested@))
            + " exceed work order allowed actions "@ + debug_list(views(allowed@)),
{
    let req = debug_list_text(requested);
    let all = debug_list_text(allowed);
    actions_denied_message(req.as_str(), all.as_str())
}

/// The text a gated tool call is refused with: the policy's reason after `ToolDeniedByPolicy`
/// (status 403) or `ToolApprovalRequired` (status 428); `None` when the call runs.
pub fn tool_gate_refusal(gate: ToolGate, reason: &str) -> (r: Option<String>)
    ensures
        crate::headers::opt_seq(r) == (match gate {
            ToolGate::Denied => Some("ToolDeniedByPolicy: "@ + reason@),
            ToolGate::ApprovalRequired => Some("ToolApprovalRequired: "@ + reason@),
            _ => None,
        }),
{
    match gate {
        ToolGate::Denied => Some(String::from_str("ToolDeniedByPolicy: ").concat(reason)),
        ToolGate::ApprovalRequired => Some(String::from_str("ToolApprovalRequired: ").concat(reason)),
        _ => None,
    }
}

/// What the policy engine's decision on a tool call leads to.
#[derive(PartialEq, Eq, Structural, Debug, Clone, Copy)]
pub enum ToolGate {
    /// Status 403, "ToolDeniedByPolicy: ...".
    Denied,
    /// Status 428, "ToolApprovalRequired: ..."; the call is audited as awaiting approval.
    ApprovalRequired,
    /// The call runs; it is audited as running on the given approval receipt.
    RunWithReceipt,
    /// The call runs without approval.
    Run,
}

pub fn tool_gate(allowed: bool, required_approval: bool, has_receipt: bool) -> (r: ToolGate)
    ensures
        r == (if !allowed {
            ToolGate::Denied
        } else if required_approval && !has_receipt {
            ToolGate::ApprovalRequired
        } else if required_approval {
            ToolGate::RunWithReceipt
        } else {
            ToolGate::Run
        }),
{
    if !allowed {
        ToolGate::Denied
    } else if required_approval && !has_receipt {
        ToolGate::ApprovalRequired
    } else if required_approval {
        ToolGate::RunWithReceipt
    } else {
        ToolGate::Run
    }
}

/// The span kind a worker step type is shown as.
pub open spec fn step_kind_spec(step_type: Seq<char>) -> Seq<char> {
    if step_type == "Think"@ {
        "plan"@
    } else if step_type == "ModelCall"@ {
        "model_call"@
    } else if step_type == "CallTool"@ || step_type == "SelectTool"@ || step_type
        == "CallExecutor"@ {
        "tool_call"@
    } else if step_type == "AskHuman"@ {
        "governance"@
    } else if step_type == "Reflect"@ {
        "reflection"@
    } else {
        "mission"@
    }
}

pub fn step_kind(step_type: &str) -> (r: &'static str)
    ensures
        r@ == step_kind_spec(step_type@),
{
    if same_text(step_type, "Think") {
        "plan"
    } else if same_text(step_type, "ModelCall") {
        "model_call"
    } else if same_text(step_type, "CallTool") || same_text(step_type, "SelectTool") || same_text(
        step_type,
        "CallExecutor",
    ) {
        "tool_call"
    } else if same_text(step_type, "AskHuman") {
        "governance"
    } else if same_text(step_type, "Reflect") {
        "reflection"
    } else {
        "mission"
    }
}

/// A tool call span is "ok" when the call succeeded (`success` is 1), else "error".
pub fn tool_call_status(success: i64) -> (r: &'static str)
    ensures
        r@ == (if success == 1 {
            "ok"@
        } else {
            "error"@
        }),
{
    if success == 1 {
        "ok"
    } else {
        "error"
    }
}

} // verus!
