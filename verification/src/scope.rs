//! Company scoping of legacy `/opc/...` requests: which company a work order, worker, run or
//! session belongs to, and whether a request scoped by the `x-coevo-opc-id` header may see it.
//!
//! Header values reach these functions already trimmed and checked as plain identifiers; an
//! absent or malformed header is `None`.
use vstd::prelude::*;

use crate::text::{contains, same_text, trim, trim_seq, vec_contains_str, views};

verus! {

/// The company that holds global rows written without a company.
pub open spec fn default_opc() -> Seq<char> {
    "default-opc"@
}

pub fn default_opc_id() -> (r: String)
    ensures
        r@ == default_opc(),
{
    String::from_str("default-opc")
}

/// The company a stored work order belongs to: its `opc_id`, or the default company when
/// that is blank.
pub open spec fn location_of(stored_opc_id: Seq<char>) -> Seq<char> {
    if trim_seq(stored_opc_id).len() == 0 {
        default_opc()
    } else {
        stored_opc_id
    }
}

pub fn work_order_location(stored_opc_id: &str) -> (r: String)
    ensures
        r@ == location_of(stored_opc_id@),
{
    if trim(stored_opc_id).as_str().unicode_len() == 0 {
        default_opc_id()
    } else {
        String::from_str(stored_opc_id)
    }
}

/// The company a worker row is bound to: its `opc_id`, or the default company when that is
/// missing or blank.
pub open spec fn worker_scope(row_opc_id: Option<Seq<char>>) -> Seq<char> {
    match row_opc_id {
        Some(o) => location_of(o),
        None => default_opc(),
    }
}

pub open spec fn opt_view(o: Option<&str>) -> Option<Seq<char>> {
    match o {
        Some(s) => Some(s@),
        None => None,
    }
}

pub fn worker_scope_opc_id(row_opc_id: Option<&str>) -> (r: String)
    ensures
        r@ == worker_scope(opt_view(row_opc_id)),
{
    match row_opc_id {
        Some(o) => work_order_location(o),
        None => default_opc_id(),
    }
}

/// Why a legacy request is refused.
pub enum ScopeError {
    /// Status 400: the route needs the `x-coevo-opc-id` header.
    HeaderRequired,
    /// Status 409: the header names another company than the stored row.
    HeaderMismatch { header: String, stored: String },
    /// The work order exists nowhere (status 400 on tool and worker routes, 404 on timelines).
    WorkOrderNotFound,
    /// Status 409: the worker still runs a work order of another company.
    BoundToOtherCompany { worker_id: String, company: String },
}

/// Where a legacy request on a work order runs.
pub enum WorkOrderScope {
    /// The work order lives in the global store of the default company.
    Global,
    /// The work order lives in this company's store.
    Company(String),
}

/// The scope of a work order found at `location` (its company, `None` when it exists nowhere),
/// for a request whose header names `header`: the default company's work orders need no
/// header; a company's work orders need a header naming that company.
pub fn resolve_legacy_work_order_scope(location: Option<&str>, header: Option<&str>) -> (r: Result<
    WorkOrderScope,
    ScopeError,
>)
    ensures
        match location {
            None => r matches Err(ScopeError::WorkOrderNotFound),
            Some(l) => if l@ == default_opc() {
                r matches Ok(WorkOrderScope::Global)
            } else {
                match header {
                    None => r matches Err(ScopeError::HeaderRequired),
                    Some(h) => if h@ == l@ {
                        r matches Ok(WorkOrderScope::Company(c)) && c@ == l@
                    } else {
                        r matches Err(ScopeError::HeaderMismatch { header: hh, stored: ss })
                            && hh@ == h@ && ss@ == l@
                    },
                }
            },
        },
{
    let l = match location {
        Some(l) => l,
        None => return Err(ScopeError::WorkOrderNotFound),
    };
    if same_text(l, "default-opc") {
        return Ok(WorkOrderScope::Global);
    }
    let h = match header {
        Some(h) => h,
        None => return Err(ScopeError::HeaderRequired),
    };
    if !same_text(h, l) {
        return Err(
            ScopeError::HeaderMismatch { header: String::from_str(h), stored: String::from_str(l) },
        );
    }
    Ok(WorkOrderScope::Company(String::from_str(l)))
}

/// A work order looked up in the store of the header's company must carry that company.
pub fn check_scoped_work_order(header: &str, stored_opc_id: Option<&str>) -> (r: Result<
    (),
    ScopeError,
>)
    ensures
        match stored_opc_id {
            None => r matches Err(ScopeError::WorkOrderNotFound),
            Some(s) => if s@ == header@ {
                r is Ok
            } else {
                r matches Err(ScopeError::HeaderMismatch { header: hh, stored: ss }) && hh@
                    == header@ && ss@ == s@
            },
        },
{
    match stored_opc_id {
        None => Err(ScopeError::WorkOrderNotFound),
        Some(s) => if same_text(s, header) {
            Ok(())
        } else {
            Err(
                ScopeError::HeaderMismatch {
                    header: String::from_str(header),
                    stored: String::from_str(s),
                },
            )
        },
    }
}

/// A worker that is bound to a company other than the default one can be addressed, without a
/// work order, only by a request whose header names that company; the result is the company the
/// request then acts for (`None`: the worker is the default company's).
pub fn check_worker_header(worker_opc_id: &str, header: Option<&str>) -> (r: Result<
    Option<String>,
    ScopeError,
>)
    ensures
        if worker_opc_id@ == default_opc() {
            r matches Ok(None)
        } else {
            match header {
                None => r matches Err(ScopeError::HeaderRequired),
                Some(h) => if h@ == worker_opc_id@ {
                    r matches Ok(Some(c)) && c@ == h@
                } else {
                    r matches Err(ScopeError::HeaderMismatch { header: hh, stored: ss }) && hh@
                        == h@ && ss@ == worker_opc_id@
                },
            }
        },
{
    if same_text(worker_opc_id, "default-opc") {
        return Ok(None);
    }
    match header {
        None => Err(ScopeError::HeaderRequired),
        Some(h) => if same_text(h, worker_opc_id) {
            Ok(Some(String::from_str(h)))
        } else {
            Err(
                ScopeError::HeaderMismatch {
                    header: String::from_str(h),
                    stored: String::from_str(worker_opc_id),
                },
            )
        },
    }
}

/// The row carries a non-blank `opc_id` equal to the company's.
pub open spec fn row_in_company(row_opc_id: Option<Seq<char>>, opc_id: Seq<char>) -> bool {
    match row_opc_id {
        Some(o) => o == opc_id && trim_seq(o).len() > 0,
        None => false,
    }
}

/// `v` is present and one of `ids`.
pub open spec fn holds_opt(ids: Seq<Seq<char>>, v: Option<Seq<char>>) -> bool {
    match v {
        Some(w) => ids.contains(w),
        None => false,
    }
}

/// Company isolation of worker rows: a row that belongs to two companies names the same company
/// twice.
pub proof fn lemma_worker_row_in_one_company(row_opc_id: Option<Seq<char>>, a: Seq<char>, b: Seq<char>)
    ensures
        row_in_company(row_opc_id, a) && row_in_company(row_opc_id, b) ==> a == b,
{
}

/// The company a session carries, a missing one read as empty.
pub open spec fn session_company(session_opc_id: Option<Seq<char>>) -> Seq<char> {
    match session_opc_id {
        Some(s) => s,
        None => Seq::<char>::empty(),
    }
}

/// Company isolation of sessions: a session shown to two companies (see `session_visible`) is
/// shown to one company only.
pub proof fn lemma_session_shown_to_one_company(
    session_opc_id: Option<Seq<char>>,
    a: Seq<char>,
    b: Seq<char>,
)
    ensures
        session_company(session_opc_id) == a && session_company(session_opc_id) == b ==> a == b,
{
}

/// Whether a worker row can be shown to a company, as far as the row itself tells.
pub enum WorkerVisibility {
    Visible,
    Hidden,
    /// The worker's session decides: look it up and ask `session_confirms_worker`.
    CheckSession(String),
}

/// A worker row belongs to company `opc_id` when its non-blank `opc_id` is that company and its
/// current work order is one of the company's, or else its current session says so.
pub fn worker_visibility(
    row_opc_id: Option<&str>,
    current_work_order_id: Option<&str>,
    current_session_id: Option<&str>,
    opc_id: &str,
    work_order_ids: &Vec<String>,
) -> (r: WorkerVisibility)
    ensures
        r is Visible <==> row_in_company(opt_view(row_opc_id), opc_id@) && holds_opt(
            views(work_order_ids@),
            opt_view(current_work_order_id),
        ),
        r is CheckSession ==> row_in_company(opt_view(row_opc_id), opc_id@) && !holds_opt(
            views(work_order_ids@),
            opt_view(current_work_order_id),
        ) && current_session_id is Some && r->CheckSession_0@ == current_session_id->Some_0@,
        r is Hidden <==> !row_in_company(opt_view(row_opc_id), opc_id@) || (!holds_opt(
            views(work_order_ids@),
            opt_view(current_work_order_id),
        ) && current_session_id is None),
{
    let o = match row_opc_id {
        Some(o) => o,
        None => return WorkerVisibility::Hidden,
    };
    if trim(o).as_str().unicode_len() == 0 || !same_text(o, opc_id) {
        return WorkerVisibility::Hidden;
    }
    if let Some(w) = current_work_order_id {
        if vec_contains_str(work_order_ids, w) {
            return WorkerVisibility::Visible;
        }
    }
    match current_session_id {
        Some(s) => WorkerVisibility::CheckSession(String::from_str(s)),
        None => WorkerVisibility::Hidden,
    }
}

/// The worker's session confirms it belongs to the company: the session's work order is one of
/// the company's and the session's non-blank `opc_id` is the worker's.
pub fn session_confirms_worker(
    session_work_order_id: Option<&str>,
    session_opc_id: Option<&str>,
    row_opc_id: &str,
    work_order_ids: &Vec<String>,
) -> (r: bool)
    ensures
        r <==> holds_opt(views(work_order_ids@), opt_view(session_work_order_id)) && row_in_company(
            opt_view(session_opc_id),
            row_opc_id@,
        ),
{
    let w = match session_work_order_id {
        Some(w) => w,
        None => return false,
    };
    let s = match session_opc_id {
        Some(s) => s,
        None => return false,
    };
    vec_contains_str(work_order_ids, w) && trim(s).as_str().unicode_len() > 0 && same_text(
        s,
        row_opc_id,
    )
}

/// A runtime row (a run or a session) read for company `opc_id` is kept only when it carries
/// that company; a missing `opc_id` reads as empty.
pub fn row_of_company(row_opc_id: Option<&str>, opc_id: &str) -> (r: bool)
    ensures
        r == (session_company(opt_view(row_opc_id)) == opc_id@),
{
    match row_opc_id {
        Some(s) => same_text(s, opc_id),
        None => {
            proof {
                if opc_id@.len() == 0 {
                    assert(opc_id@ =~= Seq::<char>::empty());
                }
            }
            opc_id.unicode_len() == 0
        },
    }
}

/// A worker session is shown to company `opc_id` when it carries that company (a missing
/// `opc_id` reads as empty) and its work order is one of the company's.
pub fn session_visible(
    session_opc_id: Option<&str>,
    session_work_order_id: &str,
    opc_id: &str,
    work_order_ids: &Vec<String>,
) -> (r: bool)
    ensures
        r <==> session_company(opt_view(session_opc_id)) == opc_id@ && views(work_order_ids@).contains(
            session_work_order_id@,
        ),
{
    let same = row_of_company(session_opc_id, opc_id);
    same && vec_contains_str(work_order_ids, session_work_order_id)
}


/// The error text of a legacy request refused on the route family `route_label`.
pub open spec fn scope_error_message(e: ScopeError, route_label: Seq<char>) -> Seq<char> {
    match e {
        ScopeError::HeaderRequired => "LEGACY_OPC_ID_REQUIRED: header x-coevo-opc-id is required for legacy "@
            + route_label,
        ScopeError::HeaderMismatch { header, stored } => "LEGACY_OPC_HEADER_BODY_MISMATCH: x-coevo-opc-id="@
            + header@ + " does not match stored opc_id="@ + stored@,
        ScopeError::WorkOrderNotFound => "WorkOrder not found"@,
        ScopeError::BoundToOtherCompany { worker_id, company } => "WORKER_BOUND_TO_OTHER_COMPANY: "@
            + worker_id@ + " is still bound to "@ + company@,
    }
}

impl ScopeError {
    /// The HTTP status of the refusal; a missing work order is 404 on the timeline routes and
    /// 400 on the tool and worker routes.
    pub open spec fn status_spec(self, timeline_route: bool) -> u16 {
        match self {
            ScopeError::HeaderRequired => 400,
            ScopeError::HeaderMismatch { .. } => 409,
            ScopeError::WorkOrderNotFound => if timeline_route {
                404
            } else {
                400
            },
            ScopeError::BoundToOtherCompany { .. } => 409,
        }
    }

    pub fn status(&self, timeline_route: bool) -> (r: u16)
        ensures
            r == self.status_spec(timeline_route),
    {
        match self {
            ScopeError::HeaderRequired => 400,
            ScopeError::HeaderMismatch { .. } => 409,
            ScopeError::WorkOrderNotFound => if timeline_route {
                404
            } else {
                400
            },
            ScopeError::BoundToOtherCompany { .. } => 409,
        }
    }

    pub fn message(&self, route_label: &str) -> (r: String)
        ensures
            r@ == scope_error_message(*self, route_label@),
    {
        match self {
            ScopeError::HeaderRequired => String::from_str(
                "LEGACY_OPC_ID_REQUIRED: header x-coevo-opc-id is required for legacy ",
            ).concat(route_label),
            ScopeError::HeaderMismatch { header, stored } => String::from_str(
                "LEGACY_OPC_HEADER_BODY_MISMATCH: x-coevo-opc-id=",
            ).concat(header.as_str()).concat(" does not match stored opc_id=").concat(
                stored.as_str(),
            ),
            ScopeError::WorkOrderNotFound => String::from_str("WorkOrder not found"),
            ScopeError::BoundToOtherCompany { worker_id, company } => String::from_str(
                "WORKER_BOUND_TO_OTHER_COMPANY: ",
            ).concat(worker_id.as_str()).concat(" is still bound to ").concat(company.as_str()),
        }
    }
}

/// A company audit listing must be asked with a header naming the company of the path; the
/// mismatch is answered with status 409 and this text.
pub fn check_header_matches_path(header: &str, path_opc_id: &str) -> (r: Result<(), String>)
    ensures
        r is Ok <==> header@ == path_opc_id@,
        r matches Err(m) ==> m@ == "LEGACY_OPC_HEADER_BODY_MISMATCH: x-coevo-opc-id="@ + header@
            + " does not match path opc_id="@ + path_opc_id@,
{
    if same_text(header, path_opc_id) {
        Ok(())
    } else {
        Err(
            String::from_str("LEGACY_OPC_HEADER_BODY_MISMATCH: x-coevo-opc-id=").concat(header).concat(
                " does not match path opc_id=",
            ).concat(path_opc_id),
        )
    }
}

/// `s` holds no value twice.
pub open spec fn no_dups(s: Seq<Seq<char>>) -> bool {
    forall|i: int, j: int| 0 <= i < j < s.len() ==> #[trigger] s[i] != #[trigger] s[j]
}

/// `s` with every value after its first occurrence removed.
pub open spec fn dedup(s: Seq<Seq<char>>) -> Seq<Seq<char>>
    decreases s.len(),
{
    if s.len() == 0 {
        Seq::empty()
    } else if dedup(s.drop_last()).contains(s.last()) {
        dedup(s.drop_last())
    } else {
        dedup(s.drop_last()).push(s.last())
    }
}

/// Deduplication leaves no value twice.
pub proof fn lemma_dedup_no_dups(s: Seq<Seq<char>>)
    ensures
        no_dups(dedup(s)),
    decreases s.len(),
{
    if s.len() > 0 {
        lemma_dedup_no_dups(s.drop_last());
        let d = dedup(s.drop_last());
        if !d.contains(s.last()) {
            let e = d.push(s.last());
            assert forall|i: int, j: int| 0 <= i < j < e.len() implies #[trigger] e[i] != #[trigger] e[j] by {
                if j == e.len() - 1 {
                    assert(e[i] == d[i]);
                }
            }
        }
    }
}

/// Deduplication keeps exactly the values of the sequence.
pub proof fn lemma_dedup_same_values(s: Seq<Seq<char>>, v: Seq<char>)
    ensures
        dedup(s).contains(v) <==> s.contains(v),
    decreases s.len(),
{
    if s.len() > 0 {
        lemma_dedup_same_values(s.drop_last(), v);
        let p = s.drop_last();
        if p.contains(v) {
            let k = choose|k: int| 0 <= k < p.len() && p[k] == v;
            assert(s[k] == v);
        }
        if s.contains(v) && v != s.last() {
            let k = choose|k: int| 0 <= k < s.len() && s[k] == v;
            assert(p[k] == v);
        }
        let d = dedup(p);
        if !d.contains(s.last()) {
            let e = d.push(s.last());
            if d.contains(v) {
                let k = choose|k: int| 0 <= k < d.len() && d[k] == v;
                assert(e[k] == v);
            }
            if e.contains(v) && v != s.last() {
                let k = choose|k: int| 0 <= k < e.len() && e[k] == v;
                assert(d[k] == v);
            }
            assert(e[e.len() - 1] == s.last());
        }
        assert(s[s.len() - 1] == s.last());
    }
}

/// The work order ids a company sees on trace routes: those of its own store, then those the
/// global store holds for it, each once, in order of first appearance.
pub fn merge_work_order_ids(company_ids: &Vec<String>, global_ids: &Vec<String>) -> (r: Vec<
    String,
>)
    ensures
        views(r@) == dedup(views(company_ids@) + views(global_ids@)),
{
    let ghost all = views(company_ids@) + views(global_ids@);
    let mut r: Vec<String> = Vec::new();
    let n1 = company_ids.len();
    let n2 = global_ids.len();
    let mut i: usize = 0;
    assert(all.take(0) =~= Seq::<Seq<char>>::empty());
    while i < n1
        invariant
            all == views(company_ids@) + views(global_ids@),
            n1 == company_ids@.len(),
            n2 == global_ids@.len(),
            i <= n1,
            views(r@) == dedup(all.take(i as int)),
        decreases n1 - i,
    {
        let id = &company_ids[i];
        assert(all[i as int] == id@);
        assert(all.take(i + 1).drop_last() =~= all.take(i as int));
        assert(all.take(i + 1).last() == id@);
        if !vec_contains_str(&r, id.as_str()) {
            let ghost before = r@;
            r.push(id.clone());
            assert(views(r@) =~= views(before).push(id@));
        }
        i = i + 1;
    }
    let mut j: usize = 0;
    while j < n2
        invariant
            all == views(company_ids@) + views(global_ids@),
            n1 == company_ids@.len(),
            n2 == global_ids@.len(),
            j <= n2,
            views(r@) == dedup(all.take(n1 + j)),
        decreases n2 - j,
    {
        let id = &global_ids[j];
        assert(all[n1 + j] == id@);
        assert(all.take(n1 + j + 1).drop_last() =~= all.take(n1 + j));
        assert(all.take(n1 + j + 1).last() == id@);
        if !vec_contains_str(&r, id.as_str()) {
            let ghost before = r@;
            r.push(id.clone());
            assert(views(r@) =~= views(before).push(id@));
        }
        j = j + 1;
    }
    assert(all.take(n1 + n2) =~= all);
    r
}

} // verus!
