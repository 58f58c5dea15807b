use ustb_portal::archive::{backfill_from, backfill_months, collect_backfill, daily_usage, month_key_of, read_local, MonthQuery};
use ustb_portal::calendar::{date_of_timestamp, first_day_next_month, format_date, last_day_of_month, CalendarDate};
use ustb_portal::model::{EveryLoginData, MonthPayInfo, MonthlyData, PortalError, UserLoginLog};
use ustb_portal::reconcile::{describe, fetch_plan, reconcile, supplemental_months};

fn date(year: u16, month: u8, day: u8) -> CalendarDate {
    CalendarDate { year, month, day }
}

fn session(offline: i64, flow: u64, cost: u64, duration: u64) -> EveryLoginData {
    let mut s = EveryLoginData::empty();
    s.online_time = offline - duration as i64;
    s.offline_time = offline;
    s.used_duration = duration;
    s.used_flow = flow;
    s.cost = cost;
    s.ipv4_up = 1;
    s.ipv4_down = flow;
    s.ipv4_addr = "10.0.0.1".to_string();
    s
}

fn log_with(cost: u64, flow: u64, duration: u64, sessions: Vec<EveryLoginData>) -> UserLoginLog {
    UserLoginLog {
        ipv4_up: 0,
        ipv4_down: flow,
        ipv6_up: 0,
        ipv6_down: 0,
        used_flow: flow,
        cost,
        used_duration: duration,
        every_login_data: sessions,
    }
}

fn month(m: u8, cost: u64, flow: u64, duration: u64) -> MonthlyData {
    MonthlyData { month: m, month_cost: cost, month_used_flow: flow, month_used_duration: duration }
}

#[test]
fn plan_of_each_special_year() {
    assert_eq!(supplemental_months(2023, 2023), vec![1, 2, 3, 4, 5, 6, 7, 8]);
    assert_eq!(supplemental_months(2023, 2025), vec![1, 2, 3, 4, 5, 6, 7, 8, 12]);
    assert_eq!(supplemental_months(2022, 2025), vec![6, 7, 8, 9, 10, 11, 12]);
    assert_eq!(supplemental_months(2024, 2025), vec![12]);
    assert_eq!(supplemental_months(2025, 2025), Vec::<u8>::new());
    let p = fetch_plan(2024).unwrap();
    assert_eq!(p.months, supplemental_months(2024, p.current_year));
}

#[test]
fn first_eight_months_of_2023_come_from_fetches() {
    let yearly: Vec<MonthlyData> = (1..=12).map(|m| month(m, 999_000, 999_000, 999)).collect();
    let info = MonthPayInfo {
        year_cost: 12 * 999_000,
        year_used_duration: 12 * 999,
        year_used_flow: 12 * 999_000,
        monthly_data: yearly,
    };
    let mut fetched: Vec<Result<UserLoginLog, PortalError>> = Vec::new();
    for m in 1..=8u64 {
        if m == 3 {
            fetched.push(Err(PortalError::TransportError("timed out".to_string())));
        } else {
            fetched.push(Ok(log_with(m * 1000, m * 10_000, m * 60, Vec::new())));
        }
    }
    let r = reconcile(&info, 2023, 2023, &fetched);
    let months = &r.info.monthly_data;
    assert_eq!(months.len(), 12);
    for (i, e) in months.iter().enumerate() {
        assert_eq!(e.month as usize, i + 1);
    }
    assert_eq!(months[0], month(1, 1000, 10_000, 60));
    assert_eq!(months[2], month(3, 0, 0, 0));
    assert_eq!(months[7], month(8, 8000, 80_000, 480));
    assert_eq!(months[8], month(9, 999_000, 999_000, 999));
    assert_eq!(months[11], month(12, 999_000, 999_000, 999));
    // the fetched figures are added to the endpoint's year totals
    let fetched_cost: u64 = [1u64, 2, 4, 5, 6, 7, 8].iter().map(|m| m * 1000).sum();
    assert_eq!(r.info.year_cost, 12 * 999_000 + fetched_cost);
    let fetched_duration: u64 = [1u64, 2, 4, 5, 6, 7, 8].iter().map(|m| m * 60).sum();
    assert_eq!(r.info.year_used_duration, 12 * 999 + fetched_duration);
    assert_eq!(r.errors, vec!["2023-03: request failed: timed out".to_string()]);
}

#[test]
fn december_of_a_past_year_counts_once() {
    let info = MonthPayInfo {
        year_cost: 20_000,
        year_used_duration: 700,
        year_used_flow: 300_000,
        monthly_data: vec![month(11, 15_000, 200_000, 500), month(12, 5_000, 100_000, 200)],
    };
    let fetched = vec![Ok(log_with(7_000, 150_000, 400, Vec::new()))];
    let r = reconcile(&info, 2024, 2025, &fetched);
    assert_eq!(r.info.monthly_data, vec![month(11, 15_000, 200_000, 500), month(12, 7_000, 150_000, 400)]);
    assert_eq!(r.info.year_cost, 22_000);
    assert_eq!(r.info.year_used_flow, 350_000);
    assert_eq!(r.info.year_used_duration, 900);
    assert!(r.errors.is_empty());
}

#[test]
fn december_added_when_yearly_lacks_it() {
    let info = MonthPayInfo {
        year_cost: 15_000,
        year_used_duration: 500,
        year_used_flow: 200_000,
        monthly_data: vec![month(11, 15_000, 200_000, 500)],
    };
    let fetched = vec![Err(PortalError::NoDataForRange)];
    let r = reconcile(&info, 2024, 2025, &fetched);
    assert_eq!(r.info.monthly_data, vec![month(11, 15_000, 200_000, 500), month(12, 0, 0, 0)]);
    assert_eq!(r.info.year_cost, 15_000);
    assert_eq!(r.errors, vec!["2024-12: no data for this range".to_string()]);
}

#[test]
fn year_2022_window() {
    let yearly: Vec<MonthlyData> = (1..=12).map(|m| month(m, 1000, 1000, 10)).collect();
    let info = MonthPayInfo { year_cost: 12_000, year_used_duration: 120, year_used_flow: 12_000, monthly_data: yearly };
    let fetched: Vec<Result<UserLoginLog, PortalError>> =
        (0..7).map(|_| Ok(log_with(2000, 2000, 20, Vec::new()))).collect();
    let r = reconcile(&info, 2022, 2025, &fetched);
    assert_eq!(r.info.monthly_data[4], month(5, 1000, 1000, 10));
    assert_eq!(r.info.monthly_data[5], month(6, 2000, 2000, 20));
    assert_eq!(r.info.monthly_data[11], month(12, 2000, 2000, 20));
    // December of the endpoint is replaced; June to November are added
    assert_eq!(r.info.year_cost, 12_000 - 1000 + 7 * 2000);
}

#[test]
fn same_day_read_spans_the_whole_day() {
    let start: i64 = 1714521600;
    let log = log_with(
        0,
        0,
        0,
        vec![
            session(start - 1, 1000, 10, 60),
            session(start + 10, 2000, 20, 60),
            session(start + 86399, 3000, 30, 60),
            session(start + 86400, 4000, 40, 60),
        ],
    );
    let day = read_local(&log, start, Some(start));
    assert_eq!(day.every_login_data.len(), 2);
    assert_eq!(day.used_flow, 5000);
    assert_eq!(day.cost, 50);
    assert_eq!(day.used_duration, 120);
    assert_eq!(day.ipv4_up, 2);
    let whole = read_local(&log, start, None);
    assert_eq!(whole.every_login_data.len(), 4);
    let two_days = read_local(&log, start, Some(start + 2 * 86400));
    let reversed = read_local(&log, start, Some(start - 1));
    assert!(reversed.every_login_data.is_empty());
    assert_eq!(reversed.used_flow, 0);
    assert_eq!(reversed.cost, 0);
    assert_eq!(two_days.every_login_data.len(), 3);
}

#[test]
fn consistent_log_reaggregates_to_itself() {
    let start: i64 = 1714521600;
    let sessions = vec![session(start + 100, 1500, 10, 60), session(start + 200, 2500, 20, 30)];
    let log = UserLoginLog {
        ipv4_up: 2,
        ipv4_down: 4000,
        ipv6_up: 0,
        ipv6_down: 0,
        used_flow: 4000,
        cost: 30,
        used_duration: 90,
        every_login_data: sessions,
    };
    let again = read_local(&log, start, Some(start + 86400));
    assert_eq!(again.ipv4_up, log.ipv4_up);
    assert_eq!(again.ipv4_down, log.ipv4_down);
    assert_eq!(again.used_flow, log.used_flow);
    assert_eq!(again.cost, log.cost);
    assert_eq!(again.used_duration, log.used_duration);
    assert_eq!(again.every_login_data.len(), 2);
}

#[test]
fn usage_per_day() {
    let start: i64 = 1714521600;
    let log = log_with(
        0,
        0,
        0,
        vec![session(start + 5, 1000, 1, 1), session(start + 86400 + 5, 2000, 2, 2), session(start + 86400 + 6, 3000, 3, 3)],
    );
    let days = daily_usage(&log, start, 3);
    assert_eq!(days.len(), 3);
    assert_eq!(days[0].used_flow, 1000);
    assert_eq!(days[1].used_flow, 5000);
    assert_eq!(days[1].cost, 5);
    assert_eq!(days[2].used_flow, 0);
}

#[test]
fn backfill_plan_crosses_years() {
    let plan = backfill_months(date(2023, 11, 15), date(2024, 2, 3));
    assert_eq!(plan.len(), 4);
    assert_eq!(plan[0], MonthQuery { start: date(2023, 11, 15), end: date(2023, 11, 30) });
    assert_eq!(plan[1], MonthQuery { start: date(2023, 12, 1), end: date(2023, 12, 31) });
    assert_eq!(plan[2], MonthQuery { start: date(2024, 1, 1), end: date(2024, 1, 31) });
    assert_eq!(plan[3], MonthQuery { start: date(2024, 2, 1), end: date(2024, 2, 29) });
    assert!(backfill_months(date(2024, 3, 2), date(2024, 3, 1)).is_empty());
    assert_eq!(backfill_months(date(2024, 3, 1), date(2024, 3, 1)).len(), 1);
}

#[test]
fn backfill_keeps_going_past_a_failed_month() {
    let months = backfill_months(date(2024, 1, 1), date(2024, 3, 10));
    assert_eq!(months.len(), 3);
    let results = vec![
        Ok(log_with(1, 1, 1, Vec::new())),
        Err(PortalError::TransportError("connection reset".to_string())),
        Ok(log_with(3, 3, 3, Vec::new())),
    ];
    let report = collect_backfill(&months, &results);
    let keys: Vec<&str> = report.saved.iter().map(|e| e.key.as_str()).collect();
    assert_eq!(keys, vec!["2024-01", "2024-03"]);
    assert_eq!(report.saved[1].log.cost, 3);
    assert_eq!(report.errors.len(), 1);
    assert!(report.errors[0].starts_with("2024-02"));
    assert_eq!(report.errors[0], "2024-02: request failed: connection reset");
}

#[test]
fn yearly_2023_totals_add_fetched_months() {
    let mut yearly = vec![month(1, 5, 0, 0)];
    yearly.extend((9..=12).map(|m| month(m, 10, 0, 0)));
    let info = MonthPayInfo { year_cost: 100, year_used_duration: 0, year_used_flow: 0, monthly_data: yearly };
    let fetched: Vec<Result<UserLoginLog, PortalError>> =
        (0..8).map(|_| Ok(log_with(0, 0, 0, Vec::new()))).collect();
    let r = reconcile(&info, 2023, 2023, &fetched);
    assert_eq!(r.info.year_cost, 100);
    assert_eq!(r.info.monthly_data[0], month(1, 0, 0, 0));
}

#[test]
fn backfill_plan_from_a_timestamp() {
    // 2024-01-15 00:00:00 UTC
    let plan = backfill_from(1705276800).unwrap();
    assert_eq!(plan.months[0], MonthQuery { start: date(2024, 1, 15), end: date(2024, 1, 31) });
    assert_eq!(plan.years[0], 2024);
    assert_eq!(*plan.years.last().unwrap(), plan.today.year);
    assert_eq!(plan.months.last().unwrap().start.month, plan.today.month);
}

#[test]
fn calendar_steps() {
    assert_eq!(last_day_of_month(date(2023, 2, 10)), date(2023, 2, 28));
    assert_eq!(last_day_of_month(date(2000, 2, 1)), date(2000, 2, 29));
    assert_eq!(last_day_of_month(date(1900, 2, 1)), date(1900, 2, 28));
    assert_eq!(first_day_next_month(date(2023, 12, 31)), Some(date(2024, 1, 1)));
    assert_eq!(first_day_next_month(date(65535, 12, 1)), None);
    assert_eq!(format_date(date(987, 3, 4)), "0987-03-04");
    assert_eq!(date_of_timestamp(0), Some(date(1970, 1, 1)));
    assert_eq!(date_of_timestamp(1714521600 + 86399), Some(date(2024, 5, 1)));
    assert_eq!(month_key_of(1680307204), Some("2023-04".to_string()));
}

#[test]
fn error_descriptions() {
    assert_eq!(describe(&PortalError::SessionExpired), "session expired, log in again");
    assert_eq!(describe(&PortalError::DecodeError), "unreadable response");
    assert_eq!(describe(&PortalError::TransportError("dns".to_string())), "request failed: dns");
}
