use coevo_server::organization::{
    check_kpi_work_order, department_label, report_has_source_data, report_source_empty_message,
    report_window_start_ms, validate_cost_quota, validate_report_period, GenerateReportRequest,
    KpiWorkOrderError, QuotaError, ReportPeriod, ReportPeriodError, UpdateCostQuotaRequest,
    UsageSignal,
};

#[test]
fn report_period_is_daily_or_monthly() {
    let period = |p: &str| validate_report_period(&GenerateReportRequest { period: p.to_string() });
    assert_eq!(period("daily"), Ok(ReportPeriod::Daily));
    assert_eq!(period("monthly"), Ok(ReportPeriod::Monthly));
    assert_eq!(period("Daily"), Err(ReportPeriodError::UnknownPeriod));
    let refusal = period("weekly").err().unwrap();
    assert_eq!(refusal.status(), 422);
    assert_eq!(refusal.message(), "period must be daily or monthly");
}

#[test]
fn report_window_starts_at_utc_day_or_month() {
    // 2024-03-15T13:45:30.123Z
    let now = 1_710_510_330_123_i64;
    assert_eq!(report_window_start_ms("daily", now), Some(1_710_460_800_000));
    assert_eq!(report_window_start_ms("monthly", now), Some(1_709_251_200_000));
    assert_eq!(report_window_start_ms("weekly", now), Some(now));
}

#[test]
fn report_window_before_epoch_rounds_down() {
    // 1969-12-31T00:00:00.001Z
    let now = -86_399_999_i64;
    assert_eq!(report_window_start_ms("daily", now), Some(-86_400_000));
    assert_eq!(report_window_start_ms("monthly", now), Some(-2_678_400_000));
}

#[test]
fn report_needs_kpi_or_usage() {
    let quiet = vec![UsageSignal { tokens: 0, cost_positive: false }];
    assert!(!report_has_source_data(0, &quiet));
    assert!(!report_has_source_data(0, &Vec::new()));
    assert!(report_has_source_data(1, &quiet));
    assert!(report_has_source_data(0, &vec![UsageSignal { tokens: 5, cost_positive: false }]));
    assert!(report_has_source_data(0, &vec![UsageSignal { tokens: 0, cost_positive: true }]));
    assert!(!report_has_source_data(0, &vec![UsageSignal { tokens: -4, cost_positive: false }]));
}

#[test]
fn empty_report_message_names_company_and_period() {
    assert_eq!(
        report_source_empty_message("opc-1", "daily"),
        "REPORT_SOURCE_EMPTY: no KPI or worker usage data found for opc_id=opc-1 period=daily"
    );
}

#[test]
fn kpi_work_order_must_be_the_companys() {
    assert_eq!(check_kpi_work_order(Some("opc-a"), "opc-a"), Ok(()));
    assert_eq!(check_kpi_work_order(Some("opc-b"), "opc-a"), Err(KpiWorkOrderError::OtherCompany));
    assert_eq!(check_kpi_work_order(None, "opc-a"), Err(KpiWorkOrderError::NotFound));
}

#[test]
fn cost_quota_needs_department_and_non_negative_quota() {
    let quota = |d: &str, q: i64| {
        validate_cost_quota(&UpdateCostQuotaRequest { department: d.to_string(), token_quota: q })
    };
    assert_eq!(quota("  ", 10), Err(QuotaError::DepartmentRequired));
    assert_eq!(quota("Sales", -1), Err(QuotaError::NegativeQuota));
    assert_eq!(quota("Sales", 0), Ok(()));
}

#[test]
fn blank_department_reads_unknown() {
    assert_eq!(department_label(None), "Unknown");
    assert_eq!(department_label(Some("  ".to_string())), "Unknown");
    assert_eq!(department_label(Some("Product".to_string())), "Product");
}

#[test]
fn refusals_have_their_messages() {
    assert_eq!(KpiWorkOrderError::OtherCompany.message(), "work order belongs to a different company");
    assert_eq!(KpiWorkOrderError::NotFound.message(), "WorkOrder not found");
    assert_eq!(QuotaError::DepartmentRequired.message(), "department is required");
    assert_eq!(QuotaError::NegativeQuota.message(), "token_quota must be >= 0");
}

#[test]
fn monthly_window_follows_the_gregorian_calendar() {
    let cases: [(i64, i64); 5] = [
        (1_709_251_199_999, 1_706_745_600_000),    // 2024-02-29T23:59:59.999Z -> 2024-02-01
        (951_868_800_000, 951_868_800_000),        // 2000-03-01T00:00:00Z -> itself
        (-2_203_934_400_000, -2_206_310_400_000),  // 1900-02-28T12:00Z -> 1900-02-01
        (946_684_799_000, 944_006_400_000),        // 1999-12-31T23:59:59Z -> 1999-12-01
        (-11_674_886_400_000, -11_676_096_000_000), // 1600-01-15 -> 1600-01-01
    ];
    for (now, start) in cases {
        assert_eq!(report_window_start_ms("monthly", now), Some(start));
    }
}

#[test]
fn refusal_statuses() {
    assert_eq!(KpiWorkOrderError::OtherCompany.status(), 403);
    assert_eq!(KpiWorkOrderError::NotFound.status(), 404);
    assert_eq!(QuotaError::NegativeQuota.status(), 422);
    assert_eq!(QuotaError::DepartmentRequired.status(), 422);
}
