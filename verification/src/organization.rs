//! Company organization requests: meetings, KPI records, reports and cost quotas.
use vstd::prelude::*;

use crate::meeting::{
    has_scrutiny_marker, inferred_stance, lemma_stance_is_oppose_or_support, stance_of,
    unicode_lowercase,
};
use crate::text::{same_text, trim, trim_seq, views};
use chrono::Datelike;

verus! {

/// Body of a request to hold a meeting.
pub struct CreateMeetingRequest {
    pub topic: String,
    pub participants: Vec<String>,
    pub close_mode: String,
}

/// Body of a request to generate a report.
pub struct GenerateReportRequest {
    pub period: String,
}

/// Body of a request to set a department's token quota.
pub struct UpdateCostQuotaRequest {
    pub department: String,
    pub token_quota: i64,
}

/// Why a meeting request is refused (each answered with status 422).
#[derive(PartialEq, Eq, Structural, Debug, Clone, Copy)]
pub enum MeetingRequestError {
    TopicRequired,
    ParticipantsRequired,
    InvalidCloseMode,
    NoScrutinyRole,
}

impl MeetingRequestError {
    pub open spec fn status_spec(self) -> u16 {
        match self {
            MeetingRequestError::TopicRequired => 422,
            MeetingRequestError::ParticipantsRequired => 422,
            MeetingRequestError::InvalidCloseMode => 422,
            MeetingRequestError::NoScrutinyRole => 422,
        }
    }

    /// The HTTP status the refusal is answered with.
    pub fn status(&self) -> (r: u16)
        ensures
            r == self.status_spec(),
    {
        match self {
            MeetingRequestError::TopicRequired => 422,
            MeetingRequestError::ParticipantsRequired => 422,
            MeetingRequestError::InvalidCloseMode => 422,
            MeetingRequestError::NoScrutinyRole => 422,
        }
    }

    pub open spec fn message_spec(self) -> Seq<char> {
        match self {
            MeetingRequestError::TopicRequired => "topic is required"@,
            MeetingRequestError::ParticipantsRequired => "participants are required"@,
            MeetingRequestError::InvalidCloseMode => "close_mode must be vote or chair"@,
            MeetingRequestError::NoScrutinyRole => "meetings must include a scrutiny role (risk, compliance, governance, audit, legal, or critic) as a dissenting participant"@,
        }
    }

    /// The error text the API answers with.
    pub fn message(&self) -> (r: String)
        ensures
            r@ == self.message_spec(),
    {
        match self {
            MeetingRequestError::TopicRequired => String::from_str("topic is required"),
            MeetingRequestError::ParticipantsRequired => String::from_str(
                "participants are required",
            ),
            MeetingRequestError::InvalidCloseMode => String::from_str(
                "close_mode must be vote or chair",
            ),
            MeetingRequestError::NoScrutinyRole => String::from_str(
                "meetings must include a scrutiny role (risk, compliance, governance, audit, legal, or critic) as a dissenting participant",
            ),
        }
    }
}

/// Some participant's id or role names a scrutiny function, so that someone dissents.
pub open spec fn has_dissenter(ps: Seq<Seq<char>>) -> bool {
    exists|i: int| 0 <= i < ps.len() && has_scrutiny_marker(unicode_lowercase(#[trigger] ps[i]))
}

/// The first rule a meeting request breaks, checked in this order: a non-blank topic, at least
/// one participant, a close mode of `vote` or `chair`, a dissenting scrutiny role.
pub open spec fn meeting_request_error(topic: Seq<char>, ps: Seq<Seq<char>>, close_mode: Seq<char>) -> Option<
    MeetingRequestError,
> {
    if trim_seq(topic).len() == 0 {
        Some(MeetingRequestError::TopicRequired)
    } else if ps.len() == 0 {
        Some(MeetingRequestError::ParticipantsRequired)
    } else if close_mode != "vote"@ && close_mode != "chair"@ {
        Some(MeetingRequestError::InvalidCloseMode)
    } else if !has_dissenter(ps) {
        Some(MeetingRequestError::NoScrutinyRole)
    } else {
        None
    }
}

/// A meeting request that passes validation has a participant whose default stance is
/// `oppose`: every debate has a dissenter.
pub proof fn lemma_valid_meeting_has_dissenter(topic: Seq<char>, ps: Seq<Seq<char>>, close_mode: Seq<char>)
    ensures
        meeting_request_error(topic, ps, close_mode) is None ==> exists|i: int|
            0 <= i < ps.len() && #[trigger] stance_of(ps[i]) == "oppose"@,
{
    if meeting_request_error(topic, ps, close_mode) is None {
        let i = choose|i: int| 0 <= i < ps.len() && has_scrutiny_marker(unicode_lowercase(#[trigger] ps[i]));
        lemma_stance_is_oppose_or_support(ps[i]);
    }
}

/// Checks a meeting request before any company state is touched.
pub fn validate_meeting_request(req: &CreateMeetingRequest) -> (r: Result<(), MeetingRequestError>)
    ensures
        r is Ok <==> meeting_request_error(req.topic@, views(req.participants@), req.close_mode@) is None,
        r matches Err(e) ==> meeting_request_error(req.topic@, views(req.participants@), req.close_mode@) == Some(e),
{
    if trim(req.topic.as_str()).as_str().unicode_len() == 0 {
        return Err(MeetingRequestError::TopicRequired);
    }
    if req.participants.len() == 0 {
        return Err(MeetingRequestError::ParticipantsRequired);
    }
    if !same_text(req.close_mode.as_str(), "vote") && !same_text(req.close_mode.as_str(), "chair") {
        return Err(MeetingRequestError::InvalidCloseMode);
    }
    let ghost ps = views(req.participants@);
    let n = req.participants.len();
    let mut i: usize = 0;
    proof {
        reveal_strlit("oppose");
        reveal_strlit("support");
        assert("oppose"@.len() != "support"@.len());
    }
    while i < n
        invariant
            ps == views(req.participants@),
            n == ps.len(),
            i <= n,
            "oppose"@ != "support"@,
            trim_seq(req.topic@).len() > 0,
            n > 0,
            req.close_mode@ == "vote"@ || req.close_mode@ == "chair"@,
            forall|k: int| 0 <= k < i ==> !has_scrutiny_marker(unicode_lowercase(#[trigger] ps[k])),
        decreases n - i,
    {
        assert(ps[i as int] == req.participants@[i as int]@);
        let stance = inferred_stance(req.participants[i].as_str());
        if same_text(stance.as_str(), "oppose") {
            assert(has_scrutiny_marker(unicode_lowercase(ps[i as int])));
            return Ok(());
        }
        i = i + 1;
    }
    Err(MeetingRequestError::NoScrutinyRole)
}


/// The reporting period a report covers.
#[derive(PartialEq, Eq, Structural, Debug, Clone, Copy)]
pub enum ReportPeriod {
    Daily,
    Monthly,
}

pub open spec fn report_period_of(period: Seq<char>) -> Option<ReportPeriod> {
    if period == "daily"@ {
        Some(ReportPeriod::Daily)
    } else if period == "monthly"@ {
        Some(ReportPeriod::Monthly)
    } else {
        None
    }
}

/// Why a report request is refused before any company state is touched.
#[derive(PartialEq, Eq, Structural, Debug, Clone, Copy)]
pub enum ReportPeriodError {
    /// The period is neither `daily` nor `monthly`.
    UnknownPeriod,
}

impl ReportPeriodError {
    pub open spec fn status_spec(self) -> u16 {
        422
    }

    pub open spec fn message_spec(self) -> Seq<char> {
        "period must be daily or monthly"@
    }

    /// The HTTP status of the refusal.
    pub fn status(&self) -> (r: u16)
        ensures
            r == self.status_spec(),
    {
        422
    }

    /// The error text the API answers with.
    pub fn message(&self) -> (r: String)
        ensures
            r@ == self.message_spec(),
    {
        String::from_str("period must be daily or monthly")
    }
}

/// The period a report request asks for, or the refusal for any other period.
pub fn validate_report_period(req: &GenerateReportRequest) -> (r: Result<ReportPeriod, ReportPeriodError>)
    ensures
        r == (match report_period_of(req.period@) {
            Some(p) => Ok::<ReportPeriod, ReportPeriodError>(p),
            None => Err(ReportPeriodError::UnknownPeriod),
        }),
{
    if same_text(req.period.as_str(), "daily") {
        Ok(ReportPeriod::Daily)
    } else if same_text(req.period.as_str(), "monthly") {
        Ok(ReportPeriod::Monthly)
    } else {
        Err(ReportPeriodError::UnknownPeriod)
    }
}

pub const MS_PER_DAY: i64 = 86_400_000;

/// The greatest timestamp bound within which every millisecond count is a date chrono holds.
pub const SUPPORTED_MS: i64 = 8_000_000_000_000_000;

/// Start of the UTC day of a millisecond timestamp.
pub open spec fn day_start(ms: int) -> int {
    ms - ms % (MS_PER_DAY as int)
}

/// The day of the month, from 1, of the proleptic Gregorian date `days` days after
/// 1970-01-01 (days counted back before it are negative).
pub open spec fn day_of_month(days: int) -> int {
    let z = days + 719468;
    let era = z / 146097;
    let doe = z - era * 146097;
    let yoe = (doe - doe / 1460 + doe / 36524 - doe / 146096) / 365;
    let doy = doe - (365 * yoe + yoe / 4 - yoe / 100);
    let mp = (5 * doy + 2) / 153;
    doy - (153 * mp + 2) / 5 + 1
}

/// Start of the UTC month of a millisecond timestamp.
pub open spec fn month_start(ms: int) -> int {
    day_start(ms) - (day_of_month(ms / (MS_PER_DAY as int)) - 1) * (MS_PER_DAY as int)
}

/// `DateTime::<Utc>::from_timestamp_millis`, then midnight of that UTC date
/// (`date_naive().and_hms_opt(0, 0, 0)`, `and_utc().timestamp_millis()`). chrono takes the
/// timestamp when its date lies within about 262,000 years of 1970 (stated here for 8e15 ms);
/// midnight of the date is the timestamp rounded down to a multiple of a day.
#[verifier::external_body]
fn utc_day_start_ms(ms: i64) -> (r: Option<i64>)
    ensures
        -SUPPORTED_MS <= ms <= SUPPORTED_MS ==> r is Some,
        r matches Some(d) ==> d == day_start(ms as int),
{
    let now = chrono::DateTime::<chrono::Utc>::from_timestamp_millis(ms)?;
    let midnight = now.date_naive().and_hms_opt(0, 0, 0)?;
    Some(midnight.and_utc().timestamp_millis())
}

/// `DateTime::<Utc>::from_timestamp_millis`, then midnight of day 1 of that UTC month
/// (`date_naive().with_day(1)`, `and_hms_opt(0, 0, 0)`, `and_utc().timestamp_millis()`):
/// midnight of the date, less the days of the month before it in the proleptic Gregorian
/// calendar. chrono takes the timestamp in the same range as for the day start, and day 1
/// exists in every month.
#[verifier::external_body]
fn utc_month_start_ms(ms: i64) -> (r: Option<i64>)
    ensures
        -SUPPORTED_MS <= ms <= SUPPORTED_MS ==> r is Some,
        r matches Some(m) ==> m == month_start(ms as int),
{
    let now = chrono::DateTime::<chrono::Utc>::from_timestamp_millis(ms)?;
    let midnight = now.date_naive().with_day(1)?.and_hms_opt(0, 0, 0)?;
    Some(midnight.and_utc().timestamp_millis())
}

/// First millisecond of the window a report covers, at time `now_ms`: the UTC day's start for
/// `daily`, the UTC month's start for `monthly`, `now_ms` itself for any other period.
pub open spec fn report_window_start(period: Seq<char>, now_ms: i64) -> i64 {
    if period == "daily"@ {
        day_start(now_ms as int) as i64
    } else if period == "monthly"@ {
        month_start(now_ms as int) as i64
    } else {
        now_ms
    }
}

pub fn report_window_start_ms(period: &str, now_ms: i64) -> (r: Option<i64>)
    ensures
        -SUPPORTED_MS <= now_ms <= SUPPORTED_MS ==> r is Some,
        r matches Some(w) ==> w == report_window_start(period@, now_ms),
{
    if same_text(period, "daily") {
        utc_day_start_ms(now_ms)
    } else if same_text(period, "monthly") {
        utc_month_start_ms(now_ms)
    } else {
        Some(now_ms)
    }
}

/// What a usage row tells a report: its token count, and whether its cost is above zero.
pub struct UsageSignal {
    pub tokens: i64,
    pub cost_positive: bool,
}

/// A report has something to say: a KPI record, or a usage row with tokens or cost.
pub open spec fn report_has_source(kpi_count: nat, usage: Seq<UsageSignal>) -> bool {
    kpi_count > 0 || exists|i: int|
        0 <= i < usage.len() && (#[trigger] usage[i].tokens > 0 || usage[i].cost_positive)
}

pub fn report_has_source_data(kpi_count: usize, usage: &Vec<UsageSignal>) -> (r: bool)
    ensures
        r == report_has_source(kpi_count as nat, usage@),
{
    if kpi_count > 0 {
        return true;
    }
    let n = usage.len();
    let mut i: usize = 0;
    while i < n
        invariant
            n == usage@.len(),
            i <= n,
            forall|k: int| 0 <= k < i ==> !(#[trigger] usage@[k].tokens > 0 || usage@[k].cost_positive),
        decreases n - i,
    {
        if usage[i].tokens > 0 || usage[i].cost_positive {
            return true;
        }
        i = i + 1;
    }
    false
}

/// The error a report request without any source data is answered with (status 409).
pub fn report_source_empty_message(opc_id: &str, period: &str) -> (r: String)
    ensures
        r@ == "REPORT_SOURCE_EMPTY: no KPI or worker usage data found for opc_id="@ + opc_id@
            + " period="@ + period@,
{
    String::from_str("REPORT_SOURCE_EMPTY: no KPI or worker usage data found for opc_id=").concat(
        opc_id,
    ).concat(" period=").concat(period)
}

/// Why a KPI record is refused.
#[derive(PartialEq, Eq, Structural, Debug, Clone, Copy)]
pub enum KpiWorkOrderError {
    /// Status 403, "work order belongs to a different company".
    OtherCompany,
    /// Status 404, "WorkOrder not found".
    NotFound,
}

impl KpiWorkOrderError {
    pub open spec fn status_spec(self) -> u16 {
        match self {
            KpiWorkOrderError::OtherCompany => 403,
            KpiWorkOrderError::NotFound => 404,
        }
    }

    /// The HTTP status the refusal is answered with.
    pub fn status(&self) -> (r: u16)
        ensures
            r == self.status_spec(),
    {
        match self {
            KpiWorkOrderError::OtherCompany => 403,
            KpiWorkOrderError::NotFound => 404,
        }
    }

    pub open spec fn message_spec(self) -> Seq<char> {
        match self {
            KpiWorkOrderError::OtherCompany => "work order belongs to a different company"@,
            KpiWorkOrderError::NotFound => "WorkOrder not found"@,
        }
    }

    /// The error text the API answers with.
    pub fn message(&self) -> (r: String)
        ensures
            r@ == self.message_spec(),
    {
        match self {
            KpiWorkOrderError::OtherCompany => String::from_str("work order belongs to a different company"),
            KpiWorkOrderError::NotFound => String::from_str("WorkOrder not found"),
        }
    }
}

/// A KPI record may cite a work order only of its own company: `stored_opc_id` is the company
/// of the work order found (first in the company's store, then in the global one).
pub fn check_kpi_work_order(stored_opc_id: Option<&str>, opc_id: &str) -> (r: Result<(), KpiWorkOrderError>)
    ensures
        r is Ok <==> (stored_opc_id matches Some(s) && s@ == opc_id@),
        r == Err::<(), KpiWorkOrderError>(KpiWorkOrderError::NotFound) <==> stored_opc_id is None,
{
    match stored_opc_id {
        Some(s) => if same_text(s, opc_id) {
            Ok(())
        } else {
            Err(KpiWorkOrderError::OtherCompany)
        },
        None => Err(KpiWorkOrderError::NotFound),
    }
}

/// Why a quota update is refused (status 422).
#[derive(PartialEq, Eq, Structural, Debug, Clone, Copy)]
pub enum QuotaError {
    /// "department is required"
    DepartmentRequired,
    /// "token_quota must be >= 0"
    NegativeQuota,
}

impl QuotaError {
    pub open spec fn status_spec(self) -> u16 {
        match self {
            QuotaError::DepartmentRequired => 422,
            QuotaError::NegativeQuota => 422,
        }
    }

    /// The HTTP status the refusal is answered with.
    pub fn status(&self) -> (r: u16)
        ensures
            r == self.status_spec(),
    {
        match self {
            QuotaError::DepartmentRequired => 422,
            QuotaError::NegativeQuota => 422,
        }
    }

    pub open spec fn message_spec(self) -> Seq<char> {
        match self {
            QuotaError::DepartmentRequired => "department is required"@,
            QuotaError::NegativeQuota => "token_quota must be >= 0"@,
        }
    }

    /// The error text the API answers with.
    pub fn message(&self) -> (r: String)
        ensures
            r@ == self.message_spec(),
    {
        match self {
            QuotaError::DepartmentRequired => String::from_str("department is required"),
            QuotaError::NegativeQuota => String::from_str("token_quota must be >= 0"),
        }
    }
}

pub fn validate_cost_quota(req: &UpdateCostQuotaRequest) -> (r: Result<(), QuotaError>)
    ensures
        r == (if trim_seq(req.department@).len() == 0 {
            Err(QuotaError::DepartmentRequired)
        } else if req.token_quota < 0 {
            Err(QuotaError::NegativeQuota)
        } else {
            Ok(())
        }),
{
    if trim(req.department.as_str()).as_str().unicode_len() == 0 {
        Err(QuotaError::DepartmentRequired)
    } else if req.token_quota < 0 {
        Err(QuotaError::NegativeQuota)
    } else {
        Ok(())
    }
}

/// The department an employee row names, or "Unknown" when it names none (blank counts as none).
pub fn department_label(department: Option<String>) -> (r: String)
    ensures
        r@ == (match department {
            Some(d) => if trim_seq(d@).len() > 0 {
                d@
            } else {
                "Unknown"@
            },
            None => "Unknown"@,
        }),
{
    match department {
        Some(d) => if trim(d.as_str()).as_str().unicode_len() > 0 {
            d
        } else {
            String::from_str("Unknown")
        },
        None => String::from_str("Unknown"),
    }
}

} // verus!
