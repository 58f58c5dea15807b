//! The local archive: day-range reads over an archived month, the plan of a
//! backfill and what a backfill keeps and reports.
use vstd::prelude::*;

use crate::calendar::{
    date_of_timestamp, date_of_timestamp_spec, first_day_next_month, format_month,
    last_day_of_month, month_text, today, CalendarDate,
};
use crate::model::{sessions_view, EveryLoginData, LogSpec, PortalError, SessionSpec, UserLoginLog};
use crate::reconcile::{texts_of, unit_error, unit_error_message};

verus! {

pub open spec fn sat_add(a: u64, b: u64) -> u64 {
    if a + b > u64::MAX {
        u64::MAX
    } else {
        (a + b) as u64
    }
}

fn sat_add_exec(a: u64, b: u64) -> (r: u64)
    ensures
        r == sat_add(a, b),
{
    if a > u64::MAX - b {
        u64::MAX
    } else {
        a + b
    }
}

pub open spec fn zero_log() -> LogSpec {
    LogSpec {
        ipv4_up: 0,
        ipv4_down: 0,
        ipv6_up: 0,
        ipv6_down: 0,
        used_flow: 0,
        cost: 0,
        used_duration: 0,
        sessions: Seq::empty(),
    }
}

/// The log that `s` folds into: every counter summed (saturating at
/// `u64::MAX`) and the sessions kept in order.
pub open spec fn aggregate(s: Seq<SessionSpec>) -> LogSpec
    decreases s.len(),
{
    if s.len() == 0 {
        zero_log()
    } else {
        let a = aggregate(s.drop_last());
        let x = s.last();
        LogSpec {
            ipv4_up: sat_add(a.ipv4_up, x.ipv4_up),
            ipv4_down: sat_add(a.ipv4_down, x.ipv4_down),
            ipv6_up: sat_add(a.ipv6_up, x.ipv6_up),
            ipv6_down: sat_add(a.ipv6_down, x.ipv6_down),
            used_flow: sat_add(a.used_flow, x.used_flow),
            cost: sat_add(a.cost, x.cost),
            used_duration: sat_add(a.used_duration, x.used_duration),
            sessions: a.sessions.push(x),
        }
    }
}

/// A session counts for the day its offline time falls in.
pub open spec fn in_window(x: SessionSpec, start: int, end: int) -> bool {
    start <= x.offline_time && x.offline_time < end
}

/// A window whose end equals its start covers that whole day.
pub open spec fn effective_end(start: i64, end: i64) -> int {
    if end == start {
        start + 86400
    } else {
        end as int
    }
}

pub open spec fn sessions_in(s: Seq<SessionSpec>, start: int, end: int) -> Seq<SessionSpec> {
    s.filter(|x: SessionSpec| in_window(x, start, end))
}

/// What a local read returns: the archived month as it is, or the fold of its
/// sessions whose offline time lies in `[start, effective_end)`.
pub open spec fn local_read(l: LogSpec, start: i64, end: Option<i64>) -> LogSpec {
    match end {
        None => l,
        Some(e) => aggregate(sessions_in(l.sessions, start as int, effective_end(start, e))),
    }
}

fn copy_sessions(v: &Vec<EveryLoginData>) -> (r: Vec<EveryLoginData>)
    ensures
        sessions_view(r@) == sessions_view(v@),
{
    let mut r: Vec<EveryLoginData> = Vec::new();
    let mut i: usize = 0;
    while i < v.len()
        invariant
            i <= v.len(),
            sessions_view(r@) == sessions_view(v@).take(i as int),
        decreases v.len() - i,
    {
        let ghost before = r@;
        r.push(v[i].copy());
        assert(sessions_view(r@) == sessions_view(before).push(v@[i as int]@));
        assert(sessions_view(v@).take(i + 1) == sessions_view(v@).take(i as int).push(
            v@[i as int]@,
        ));
        i = i + 1;
    }
    assert(sessions_view(v@).take(v.len() as int) == sessions_view(v@));
    r
}

impl UserLoginLog {
    pub fn copy(&self) -> (r: Self)
        ensures
            r@ == self@,
    {
        UserLoginLog {
            ipv4_up: self.ipv4_up,
            ipv4_down: self.ipv4_down,
            ipv6_up: self.ipv6_up,
            ipv6_down: self.ipv6_down,
            used_flow: self.used_flow,
            cost: self.cost,
            used_duration: self.used_duration,
            every_login_data: copy_sessions(&self.every_login_data),
        }
    }
}

proof fn lemma_filter_push_window(s: Seq<SessionSpec>, x: SessionSpec, start: int, end: int)
    ensures
        sessions_in(s.push(x), start, end) == if in_window(x, start, end) {
            sessions_in(s, start, end).push(x)
        } else {
            sessions_in(s, start, end)
        },
{
    assert(s.push(x).drop_last() == s);
    reveal(Seq::filter);
}

/// The sessions of `log` whose offline time lies in `[lo, hi)`, folded.
fn fold_window(log: &UserLoginLog, lo: i128, hi: i128) -> (r: UserLoginLog)
    ensures
        r@ == aggregate(sessions_in(log@.sessions, lo as int, hi as int)),
{
    let ghost s = log@.sessions;
    let mut acc = UserLoginLog {
        ipv4_up: 0,
        ipv4_down: 0,
        ipv6_up: 0,
        ipv6_down: 0,
        used_flow: 0,
        cost: 0,
        used_duration: 0,
        every_login_data: Vec::new(),
    };
    assert(sessions_in(s.take(0), lo as int, hi as int) == Seq::<SessionSpec>::empty()) by {
        reveal(Seq::filter);
    }
    assert(sessions_view(acc.every_login_data@) == Seq::<SessionSpec>::empty());
    assert(acc@ == zero_log());
    let mut i: usize = 0;
    while i < log.every_login_data.len()
        invariant
            i <= log.every_login_data.len(),
            s == log@.sessions,
            acc@ == aggregate(sessions_in(s.take(i as int), lo as int, hi as int)),
        decreases log.every_login_data.len() - i,
    {
        let x = &log.every_login_data[i];
        proof {
            assert(s.take(i + 1) == s.take(i as int).push(x@));
            lemma_filter_push_window(s.take(i as int), x@, lo as int, hi as int);
        }
        if lo <= x.offline_time as i128 && (x.offline_time as i128) < hi {
            let ghost f = sessions_in(s.take(i as int), lo as int, hi as int);
            assert(f.push(x@).drop_last() == f);
            acc.ipv4_up = sat_add_exec(acc.ipv4_up, x.ipv4_up);
            acc.ipv4_down = sat_add_exec(acc.ipv4_down, x.ipv4_down);
            acc.ipv6_up = sat_add_exec(acc.ipv6_up, x.ipv6_up);
            acc.ipv6_down = sat_add_exec(acc.ipv6_down, x.ipv6_down);
            acc.used_flow = sat_add_exec(acc.used_flow, x.used_flow);
            acc.cost = sat_add_exec(acc.cost, x.cost);
            acc.used_duration = sat_add_exec(acc.used_duration, x.used_duration);
            let ghost before = acc.every_login_data@;
            acc.every_login_data.push(x.copy());
            assert(sessions_view(acc.every_login_data@) == sessions_view(before).push(x@));
        }
        i = i + 1;
    }
    assert(s.take(log.every_login_data.len() as int) == s);
    acc
}

/// Reads an archived month: whole when `end` is `None`, otherwise the sessions
/// whose offline time lies in `[start, end)` folded into a fresh log, where
/// `end == start` stands for the whole day `[start, start + 86400)`. An end
/// before the start is an empty window: a log of zeros without sessions.
pub fn read_local(log: &UserLoginLog, start: i64, end: Option<i64>) -> (r: UserLoginLog)
    ensures
        r@ == local_read(log@, start, end),
{
    match end {
        None => log.copy(),
        Some(e) => {
            let hi: i128 = if e == start {
                start as i128 + 86400
            } else {
                e as i128
            };
            fold_window(log, start as i128, hi)
        },
    }
}

/// A window whose end is before its start holds no session.
pub proof fn lemma_reversed_window_is_empty(l: LogSpec, start: i64, end: i64)
    requires
        end < start,
    ensures
        local_read(l, start, Some(end)) == zero_log(),
{
    lemma_filter_none(l.sessions, start as int, end as int);
}

proof fn lemma_filter_none(s: Seq<SessionSpec>, start: int, end: int)
    requires
        end < start,
    ensures
        sessions_in(s, start, end) == Seq::<SessionSpec>::empty(),
    decreases s.len(),
{
    if s.len() > 0 {
        lemma_filter_none(s.drop_last(), start, end);
        lemma_filter_push_window(s.drop_last(), s.last(), start, end);
        assert(s.drop_last().push(s.last()) == s);
    }
}

/// Usage per day over `days` days from `start`: day `i` folds the sessions
/// whose offline time lies in `[start + i * 86400, start + (i + 1) * 86400)`.
pub fn daily_usage(log: &UserLoginLog, start: i64, days: u32) -> (r: Vec<UserLoginLog>)
    ensures
        r.len() == days,
        forall|i: int|
            0 <= i < days ==> (#[trigger] r@[i])@ == aggregate(
                sessions_in(log@.sessions, start + i * 86400, start + (i + 1) * 86400),
            ),
{
    let mut r: Vec<UserLoginLog> = Vec::new();
    let mut i: u32 = 0;
    while i < days
        invariant
            i <= days,
            r.len() == i,
            forall|j: int|
                0 <= j < i ==> (#[trigger] r@[j])@ == aggregate(
                    sessions_in(log@.sessions, start + j * 86400, start + (j + 1) * 86400),
                ),
        decreases days - i,
    {
        let lo: i128 = start as i128 + (i as i128) * 86400;
        let hi: i128 = lo + 86400;
        r.push(fold_window(log, lo, hi));
        i = i + 1;
    }
    r
}

/// The archive key of the month holding a Unix second.
pub fn month_key_of(ts: i64) -> (r: Option<String>)
    ensures
        match date_of_timestamp_spec(ts) {
            Some(d) => r matches Some(k) && k@ == month_text(d),
            None => r is None,
        },
{
    match date_of_timestamp(ts) {
        Some(d) => Some(format_month(d)),
        None => None,
    }
}

/// A login log whose summary row equals the sums of its session rows.
pub open spec fn consistent(l: LogSpec) -> bool {
    aggregate(l.sessions) == l
}

/// Re-aggregating a consistent log's sessions gives the log back: a read over
/// any window that holds every session's offline time returns the log as
/// decoded.
pub proof fn lemma_reaggregate_round_trip(l: LogSpec, start: i64, end: i64)
    requires
        consistent(l),
        forall|i: int|
            0 <= i < l.sessions.len() ==> in_window(
                #[trigger] l.sessions[i],
                start as int,
                effective_end(start, end),
            ),
    ensures
        local_read(l, start, Some(end)) == l,
{
    lemma_filter_all(l.sessions, start as int, effective_end(start, end));
}

proof fn lemma_filter_all(s: Seq<SessionSpec>, start: int, end: int)
    requires
        forall|i: int| 0 <= i < s.len() ==> in_window(#[trigger] s[i], start, end),
    ensures
        sessions_in(s, start, end) == s,
    decreases s.len(),
{
    if s.len() > 0 {
        let p = s.drop_last();
        assert forall|i: int| 0 <= i < p.len() implies in_window(#[trigger] p[i], start, end) by {
            assert(p[i] == s[i]);
        }
        lemma_filter_all(p, start, end);
        lemma_filter_push_window(p, s.last(), start, end);
        assert(p.push(s.last()) == s);
        assert(in_window(s[s.len() - 1], start, end));
    }
}

/// A same-day read covers exactly `[start, start + 86400)`.
pub proof fn lemma_same_day_window(l: LogSpec, start: i64)
    ensures
        local_read(l, start, Some(start)) == aggregate(
            sessions_in(l.sessions, start as int, start + 86400),
        ),
{
}

/// One month of a backfill: the dates sent to the login log.
#[derive(Debug, Clone, Copy, PartialEq, Eq, Structural)]
pub struct MonthQuery {
    pub start: CalendarDate,
    pub end: CalendarDate,
}

pub open spec fn date_le(a: CalendarDate, b: CalendarDate) -> bool {
    a.year < b.year || (a.year == b.year && (a.month < b.month || (a.month == b.month && a.day
        <= b.day)))
}

pub open spec fn month_start_of(idx: int) -> CalendarDate {
    CalendarDate { year: (idx / 12) as u16, month: (idx % 12 + 1) as u8, day: 1 }
}

/// Start date of the `k`-th month of a backfill from `start`: the start
/// itself, then the first day of each following month.
pub open spec fn backfill_start(start: CalendarDate, k: int) -> CalendarDate {
    if k == 0 {
        start
    } else {
        month_start_of(start.month_index() + k)
    }
}

/// Number of months from `start`'s through `today`'s, none when `start` is
/// after `today`.
pub open spec fn backfill_len(start: CalendarDate, today: CalendarDate) -> int {
    if date_le(start, today) {
        today.month_index() - start.month_index() + 1
    } else {
        0
    }
}

/// Plans a backfill: one query per calendar month from `start`'s month
/// through `today`'s, each running to the last day of its month.
pub fn backfill_months(start: CalendarDate, today: CalendarDate) -> (r: Vec<MonthQuery>)
    requires
        start.wf(),
        today.wf(),
    ensures
        r.len() == backfill_len(start, today),
        forall|k: int|
            0 <= k < r.len() ==> (#[trigger] r@[k]).start == backfill_start(start, k) && r@[k].end
                == (CalendarDate {
                year: r@[k].start.year,
                month: r@[k].start.month,
                day: r@[k].end.day,
            }) && r@[k].end.day == crate::calendar::days_in_month_spec(
                r@[k].start.year as int,
                r@[k].start.month as int,
            ),
{
    let mut r: Vec<MonthQuery> = Vec::new();
    let le = start.year < today.year || (start.year == today.year && (start.month < today.month
        || (start.month == today.month && start.day <= today.day)));
    if !le {
        return r;
    }
    let mut d = start;
    loop
        invariant_except_break
            d == backfill_start(start, r.len() as int),
            d.month_index() == start.month_index() + r.len(),
            d.month_index() <= today.month_index(),
        invariant
            start.wf(),
            today.wf(),
            date_le(start, today),
            d.wf(),
            forall|k: int|
                0 <= k < r.len() ==> (#[trigger] r@[k]).start == backfill_start(start, k)
                    && r@[k].end == (CalendarDate {
                    year: r@[k].start.year,
                    month: r@[k].start.month,
                    day: r@[k].end.day,
                }) && r@[k].end.day == crate::calendar::days_in_month_spec(
                    r@[k].start.year as int,
                    r@[k].start.month as int,
                ),
        ensures
            r.len() == backfill_len(start, today),
            forall|k: int|
                0 <= k < r.len() ==> (#[trigger] r@[k]).start == backfill_start(start, k)
                    && r@[k].end == (CalendarDate {
                    year: r@[k].start.year,
                    month: r@[k].start.month,
                    day: r@[k].end.day,
                }) && r@[k].end.day == crate::calendar::days_in_month_spec(
                    r@[k].start.year as int,
                    r@[k].start.month as int,
                ),
        decreases today.month_index() - d.month_index(),
    {
        r.push(MonthQuery { start: d, end: last_day_of_month(d) });
        if d.year == today.year && d.month == today.month {
            break;
        }
        match first_day_next_month(d) {
            Some(n) => {
                proof {
                    assert(n == month_start_of(start.month_index() + r.len())) by {
                        let idx = d.month_index() + 1;
                        assert(idx == n.year * 12 + n.month - 1);
                        assert(n.month - 1 < 12);
                        assert(idx / 12 == n.year as int) by (nonlinear_arith)
                            requires
                                idx == n.year * 12 + n.month - 1,
                                0 <= n.month - 1 < 12,
                        ;
                        assert(idx % 12 == n.month - 1) by (nonlinear_arith)
                            requires
                                idx == n.year * 12 + n.month - 1,
                                0 <= n.month - 1 < 12,
                        ;
                    }
                }
                d = n;
            },
            None => {
                break;
            },
        }
    }
    r
}

/// A backfill plan: the day it was made on, one query per month, and the
/// years whose reconciled summaries are stored.
#[derive(Debug)]
pub struct BackfillPlan {
    pub today: CalendarDate,
    pub months: Vec<MonthQuery>,
    pub years: Vec<u16>,
}

/// Plans a backfill from the UTC day of a Unix second through today: each
/// month's query runs from its start to its last day, and every year from the
/// start's through today's is reconciled and stored.
pub fn backfill_from(start: i64) -> (r: Option<BackfillPlan>)
    ensures
        date_of_timestamp_spec(start) is None ==> r is None,
        r matches Some(p) ==> (date_of_timestamp_spec(start) matches Some(s) && p.today.wf()
            && p.months.len() == backfill_len(s, p.today) && (forall|k: int|
            0 <= k < p.months.len() ==> (#[trigger] p.months@[k]).start == backfill_start(s, k)
                && p.months@[k].end == (CalendarDate {
                year: p.months@[k].start.year,
                month: p.months@[k].start.month,
                day: crate::calendar::days_in_month_spec(
                    p.months@[k].start.year as int,
                    p.months@[k].start.month as int,
                ) as u8,
            })) && p.years.len() == (if s.year <= p.today.year {
            p.today.year - s.year + 1
        } else {
            0
        }) && forall|k: int| 0 <= k < p.years.len() ==> #[trigger] p.years@[k] == s.year + k),
{
    let s = match date_of_timestamp(start) {
        Some(s) => s,
        None => {
            return None;
        },
    };
    let t = match today() {
        Some(t) => t,
        None => {
            return None;
        },
    };
    let months = backfill_months(s, t);
    let mut years: Vec<u16> = Vec::new();
    if s.year <= t.year {
        let mut y = s.year;
        loop
            invariant_except_break
                years.len() == y - s.year,
            invariant
                s.year <= y <= t.year,
                forall|k: int| 0 <= k < years.len() ==> #[trigger] years@[k] == s.year + k,
            ensures
                years.len() == t.year - s.year + 1,
            decreases t.year - y,
        {
            years.push(y);
            if y == t.year {
                break;
            }
            y = y + 1;
        }
    }
    Some(BackfillPlan { today: t, months, years })
}

/// A month to write to the archive under its `YYYY-MM` key.
#[derive(Debug)]
pub struct ArchiveEntry {
    pub key: String,
    pub log: UserLoginLog,
}

/// What a backfill keeps and what it reports.
#[derive(Debug)]
pub struct BackfillReport {
    pub saved: Vec<ArchiveEntry>,
    pub errors: Vec<String>,
}

pub open spec fn ok_count(results: Seq<Result<UserLoginLog, PortalError>>) -> nat
    decreases results.len(),
{
    if results.len() == 0 {
        0
    } else {
        ok_count(results.drop_last()) + if results.last() is Ok {
            1nat
        } else {
            0nat
        }
    }
}

/// The archive keys of the months whose fetch succeeded, in order.
pub open spec fn saved_keys(
    months: Seq<MonthQuery>,
    results: Seq<Result<UserLoginLog, PortalError>>,
) -> Seq<Seq<char>>
    decreases results.len(),
{
    if results.len() == 0 {
        Seq::empty()
    } else {
        let prev = saved_keys(months, results.drop_last());
        if results.last() is Ok {
            prev.push(month_text(months[results.len() - 1].start))
        } else {
            prev
        }
    }
}

/// The logs of the months whose fetch succeeded, in order.
pub open spec fn saved_logs(results: Seq<Result<UserLoginLog, PortalError>>) -> Seq<LogSpec>
    decreases results.len(),
{
    if results.len() == 0 {
        Seq::empty()
    } else {
        match results.last() {
            Ok(l) => saved_logs(results.drop_last()).push(l@),
            Err(_) => saved_logs(results.drop_last()),
        }
    }
}

/// One message per failed month, in order.
pub open spec fn backfill_errors(
    months: Seq<MonthQuery>,
    results: Seq<Result<UserLoginLog, PortalError>>,
) -> Seq<Seq<char>>
    decreases results.len(),
{
    if results.len() == 0 {
        Seq::empty()
    } else {
        let prev = backfill_errors(months, results.drop_last());
        match results.last() {
            Ok(_) => prev,
            Err(e) => prev.push(
                unit_error(
                    months[results.len() - 1].start.year,
                    months[results.len() - 1].start.month,
                    e,
                ),
            ),
        }
    }
}

/// Every month of a backfill is accounted for exactly once: it is either
/// saved or named in one error message, so one failed month never costs
/// another month its entry.
pub proof fn lemma_backfill_accounts_every_month(
    months: Seq<MonthQuery>,
    results: Seq<Result<UserLoginLog, PortalError>>,
)
    ensures
        saved_keys(months, results).len() == ok_count(results),
        saved_keys(months, results).len() + backfill_errors(months, results).len()
            == results.len(),
    decreases results.len(),
{
    if results.len() > 0 {
        lemma_backfill_accounts_every_month(months, results.drop_last());
    }
}

/// Sorts the per-month results of a backfill (in the order of `months`):
/// each success becomes an archive entry under its month's key, each failure
/// one message naming its month; no failure stops the others.
pub fn collect_backfill(
    months: &Vec<MonthQuery>,
    results: &Vec<Result<UserLoginLog, PortalError>>,
) -> (r: BackfillReport)
    requires
        months.len() == results.len(),
    ensures
        r.saved.len() == ok_count(results@),
        r.saved@.map_values(|a: ArchiveEntry| a.key@) == saved_keys(months@, results@),
        r.saved@.map_values(|a: ArchiveEntry| a.log@) == saved_logs(results@),
        texts_of(r.errors@) == backfill_errors(months@, results@),
{
    let mut saved: Vec<ArchiveEntry> = Vec::new();
    let mut errors: Vec<String> = Vec::new();
    let mut i: usize = 0;
    while i < results.len()
        invariant
            i <= results.len() == months.len(),
            saved.len() == ok_count(results@.take(i as int)),
            saved@.map_values(|a: ArchiveEntry| a.key@) == saved_keys(
                months@,
                results@.take(i as int),
            ),
            saved@.map_values(|a: ArchiveEntry| a.log@) == saved_logs(results@.take(i as int)),
            texts_of(errors@) == backfill_errors(months@, results@.take(i as int)),
        decreases results.len() - i,
    {
        assert(results@.take(i + 1).drop_last() == results@.take(i as int));
        assert(results@.take(i + 1).last() == results@[i as int]);
        match &results[i] {
            Ok(l) => {
                let ghost before = saved@;
                let key = format_month(months[i].start);
                saved.push(ArchiveEntry { key, log: l.copy() });
                assert(saved@.map_values(|a: ArchiveEntry| a.key@) == before.map_values(
                    |a: ArchiveEntry| a.key@,
                ).push(month_text(months@[i as int].start)));
                assert(saved@.map_values(|a: ArchiveEntry| a.log@) == before.map_values(
                    |a: ArchiveEntry| a.log@,
                ).push(l@));
            },
            Err(e) => {
                let ghost before = errors@;
                let msg = unit_error_message(months[i].start.year, months[i].start.month, e);
                errors.push(msg);
                assert(texts_of(errors@) == texts_of(before).push(msg@));
            },
        }
        i = i + 1;
    }
    assert(results@.take(results.len() as int) == results@);
    BackfillReport { saved, errors }
}

} // verus!
