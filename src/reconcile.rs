//! Reconciliation of the portal's yearly summary. The yearly endpoint is
//! unreliable for December of past years, for January to August 2023 and for
//! June to November 2022; those months are fetched one by one through the
//! login log and replace what the yearly endpoint said of them.
use vstd::prelude::*;

use crate::calendar::{format_month, month_text, CalendarDate};
use crate::model::{LogSpec, MonthPayInfo, MonthlyData, PortalError, UserLoginLog};

verus! {

/// Whether month `m` of `year` must be fetched on its own.
pub open spec fn needs_fetch(year: int, current_year: int, m: int) -> bool {
    (year == 2023 && 1 <= m <= 8) || (year == 2022 && 6 <= m <= 11) || (year < current_year && m
        == 12)
}

/// The months to fetch among `1..=k`, in ascending order.
pub open spec fn plan_upto(year: int, current_year: int, k: nat) -> Seq<u8>
    decreases k,
{
    if k == 0 {
        Seq::empty()
    } else if needs_fetch(year, current_year, k as int) {
        plan_upto(year, current_year, (k - 1) as nat).push(k as u8)
    } else {
        plan_upto(year, current_year, (k - 1) as nat)
    }
}

pub open spec fn plan(year: int, current_year: int) -> Seq<u8> {
    plan_upto(year, current_year, 12)
}

/// The months of `year` whose figures come from supplemental fetches.
pub fn supplemental_months(year: u16, current_year: u16) -> (r: Vec<u8>)
    ensures
        r@ == plan(year as int, current_year as int),
{
    let mut r: Vec<u8> = Vec::new();
    let mut m: u8 = 1;
    while m <= 12
        invariant
            1 <= m <= 13,
            r@ == plan_upto(year as int, current_year as int, (m - 1) as nat),
        decreases 13 - m,
    {
        if (year == 2023 && m <= 8) || (year == 2022 && 6 <= m && m <= 11) || (year < current_year
            && m == 12) {
            r.push(m);
        }
        m = m + 1;
    }
    r
}

/// The current year and the months of `year` to fetch in it.
#[derive(Debug)]
pub struct FetchPlan {
    pub current_year: u16,
    pub months: Vec<u8>,
}

/// Plans the supplemental fetches of `year` against the current (UTC) year;
/// `None` when the clock cannot be read as a date.
pub fn fetch_plan(year: u16) -> (r: Option<FetchPlan>)
    ensures
        r matches Some(p) ==> p.months@ == plan(year as int, p.current_year as int),
{
    let t = crate::calendar::today()?;
    Some(FetchPlan { current_year: t.year, months: supplemental_months(year, t.year) })
}

pub open spec fn fetched_view(v: Seq<Result<UserLoginLog, PortalError>>) -> Seq<Result<LogSpec, PortalError>> {
    v.map_values(
        |x: Result<UserLoginLog, PortalError>|
            match x {
                Ok(l) => Ok(l@),
                Err(e) => Err(e),
            },
    )
}

/// The entry a fetch yields for month `m`: the log's totals, or zeros when
/// the fetch failed.
pub open spec fn entry_of(m: u8, f: Result<LogSpec, PortalError>) -> MonthlyData {
    match f {
        Ok(l) => MonthlyData {
            month: m,
            month_cost: l.cost,
            month_used_flow: l.used_flow,
            month_used_duration: l.used_duration,
        },
        Err(_) => MonthlyData { month: m, month_cost: 0, month_used_flow: 0, month_used_duration: 0 },
    }
}

pub open spec fn of_month(s: Seq<MonthlyData>, m: int) -> Seq<MonthlyData> {
    s.filter(|e: MonthlyData| e.month == m)
}

/// The reconciled months `1..=k`: a fetched month holds its fetch's entry,
/// another holds what the yearly endpoint reported for it.
pub open spec fn merged(
    orig: Seq<MonthlyData>,
    year: int,
    current_year: int,
    fetched: Seq<Result<LogSpec, PortalError>>,
    k: nat,
) -> Seq<MonthlyData>
    decreases k,
{
    if k == 0 {
        Seq::empty()
    } else if needs_fetch(year, current_year, k as int) {
        merged(orig, year, current_year, fetched, (k - 1) as nat).push(
            entry_of(k as u8, fetched[plan_upto(year, current_year, (k - 1) as nat).len() as int]),
        )
    } else {
        merged(orig, year, current_year, fetched, (k - 1) as nat) + of_month(orig, k as int)
    }
}

/// Field `f` of an entry: 0 cost, 1 flow, 2 duration.
pub open spec fn field(e: MonthlyData, f: int) -> u64 {
    if f == 0 {
        e.month_cost
    } else if f == 1 {
        e.month_used_flow
    } else {
        e.month_used_duration
    }
}

/// What the yearly endpoint reported for December, which the fetched
/// December replaces in the year totals of a past year; nothing otherwise.
pub open spec fn replaced_december(s: Seq<MonthlyData>, year: int, current_year: int, f: int) -> int {
    if year < current_year {
        month_sum(s, 12, f)
    } else {
        0
    }
}

/// Sum of field `f` over the entries that the fetches yield.
pub open spec fn fetched_sum(p: Seq<u8>, fetched: Seq<Result<LogSpec, PortalError>>, f: int) -> int
    decreases p.len(),
{
    if p.len() == 0 {
        0
    } else {
        fetched_sum(p.drop_last(), fetched, f) + field(
            entry_of(p.last(), fetched[p.len() - 1]),
            f,
        ) as int
    }
}

pub open spec fn clamp(x: int) -> u64 {
    if x < 0 {
        0
    } else if x > u64::MAX {
        u64::MAX
    } else {
        x as u64
    }
}

/// A year total with every fetched month's figures added; for a past year
/// the endpoint's own December is taken out first, so December counts once.
pub open spec fn reconciled_total(
    total: u64,
    orig: Seq<MonthlyData>,
    year: int,
    current_year: int,
    fetched: Seq<Result<LogSpec, PortalError>>,
    f: int,
) -> u64 {
    clamp(
        total - replaced_december(orig, year, current_year, f) + fetched_sum(
            plan(year, current_year),
            fetched,
            f,
        ),
    )
}

pub open spec fn error_text(e: PortalError) -> Seq<char> {
    match e {
        PortalError::CredentialsRejected => "credentials rejected"@,
        PortalError::SessionRequired => "no session, log in first"@,
        PortalError::SessionExpired => "session expired, log in again"@,
        PortalError::NoDataForRange => "no data for this range"@,
        PortalError::DecodeError => "unreadable response"@,
        PortalError::TransportError(m) => "request failed: "@ + m@,
    }
}

/// A short description of an error, for per-unit error lists.
pub fn describe(e: &PortalError) -> (r: String)
    ensures
        r@ == error_text(*e),
{
    match e {
        PortalError::CredentialsRejected => String::from_str("credentials rejected"),
        PortalError::SessionRequired => String::from_str("no session, log in first"),
        PortalError::SessionExpired => String::from_str("session expired, log in again"),
        PortalError::NoDataForRange => String::from_str("no data for this range"),
        PortalError::DecodeError => String::from_str("unreadable response"),
        PortalError::TransportError(m) => String::from_str("request failed: ").concat(m.as_str()),
    }
}

/// The message for a failed unit: `YYYY-MM: ` and the error.
pub open spec fn unit_error(year: u16, m: u8, e: PortalError) -> Seq<char> {
    month_text(CalendarDate { year, month: m, day: 1 }) + ": "@ + error_text(e)
}

pub fn unit_error_message(year: u16, m: u8, e: &PortalError) -> (r: String)
    ensures
        r@ == unit_error(year, m, *e),
{
    let d = describe(e);
    format_month(CalendarDate { year, month: m, day: 1 }).concat(": ").concat(d.as_str())
}

/// One message for each failed fetch, in plan order.
pub open spec fn fetch_errors(year: u16, p: Seq<u8>, fetched: Seq<Result<LogSpec, PortalError>>) -> Seq<
    Seq<char>,
>
    decreases p.len(),
{
    if p.len() == 0 {
        Seq::empty()
    } else {
        match fetched[p.len() - 1] {
            Ok(_) => fetch_errors(year, p.drop_last(), fetched),
            Err(e) => fetch_errors(year, p.drop_last(), fetched).push(unit_error(year, p.last(), e)),
        }
    }
}

/// The reconciled summary and the messages of the fetches that failed.
#[derive(Debug)]
pub struct Reconciled {
    pub info: MonthPayInfo,
    pub errors: Vec<String>,
}

pub open spec fn texts_of(v: Seq<String>) -> Seq<Seq<char>> {
    v.map_values(|s: String| s@)
}

fn entry_exec(m: u8, f: &Result<UserLoginLog, PortalError>) -> (r: MonthlyData)
    ensures
        r == entry_of(
            m,
            match f {
                Ok(l) => Ok(l@),
                Err(e) => Err(*e),
            },
        ),
{
    match f {
        Ok(l) => MonthlyData {
            month: m,
            month_cost: l.cost,
            month_used_flow: l.used_flow,
            month_used_duration: l.used_duration,
        },
        Err(_) => MonthlyData { month: m, month_cost: 0, month_used_flow: 0, month_used_duration: 0 },
    }
}

fn field_exec(e: &MonthlyData, f: u8) -> (r: u64)
    ensures
        r == field(*e, f as int),
{
    if f == 0 {
        e.month_cost
    } else if f == 1 {
        e.month_used_flow
    } else {
        e.month_used_duration
    }
}

fn month_sum_exec(s: &Vec<MonthlyData>, m: u8, f: u8) -> (r: u128)
    ensures
        r == month_sum(s@, m as int, f as int),
{
    let mut acc: u128 = 0;
    let mut i: usize = 0;
    assert(s@.take(0) == Seq::<MonthlyData>::empty());
    while i < s.len()
        invariant
            i <= s.len(),
            acc == month_sum(s@.take(i as int), m as int, f as int),
            acc <= i * 18446744073709551615u128,
        decreases s.len() - i,
    {
        assert(s@.take(i + 1).drop_last() == s@.take(i as int));
        if s[i].month == m {
            acc = acc + field_exec(&s[i], f) as u128;
        }
        i = i + 1;
    }
    assert(s@.take(s.len() as int) == s@);
    acc
}

fn fetched_sum_exec(
    p: &Vec<u8>,
    fetched: &Vec<Result<UserLoginLog, PortalError>>,
    f: u8,
) -> (r: u128)
    requires
        p.len() <= fetched.len(),
        p.len() <= 12,
    ensures
        r == fetched_sum(p@, fetched_view(fetched@), f as int),
        r <= 12 * 18446744073709551615u128,
{
    let mut acc: u128 = 0;
    let mut i: usize = 0;
    assert(p@.take(0) == Seq::<u8>::empty());
    while i < p.len()
        invariant
            i <= p.len() <= fetched.len(),
            p.len() <= 12,
            acc == fetched_sum(p@.take(i as int), fetched_view(fetched@), f as int),
            acc <= i * 18446744073709551615u128,
        decreases p.len() - i,
    {
        assert(p@.take(i + 1).drop_last() == p@.take(i as int));
        let e = entry_exec(p[i], &fetched[i]);
        acc = acc + field_exec(&e, f) as u128;
        i = i + 1;
    }
    assert(p@.take(p.len() as int) == p@);
    acc
}

fn reconciled_total_exec(
    total: u64,
    orig: &Vec<MonthlyData>,
    year: u16,
    current_year: u16,
    p: &Vec<u8>,
    fetched: &Vec<Result<UserLoginLog, PortalError>>,
    f: u8,
) -> (r: u64)
    requires
        p@ == plan(year as int, current_year as int),
        p.len() <= fetched.len(),
        p.len() <= 12,
    ensures
        r == reconciled_total(
            total,
            orig@,
            year as int,
            current_year as int,
            fetched_view(fetched@),
            f as int,
        ),
{
    let removed = if year < current_year {
        month_sum_exec(orig, 12, f)
    } else {
        0
    };
    let added = fetched_sum_exec(p, fetched, f);
    let gross = total as u128 + added;
    if gross < removed {
        0
    } else if gross - removed > u64::MAX as u128 {
        u64::MAX
    } else {
        (gross - removed) as u64
    }
}

proof fn lemma_plan_len(year: int, current_year: int, k: nat)
    ensures
        plan_upto(year, current_year, k).len() <= k,
    decreases k,
{
    if k > 0 {
        lemma_plan_len(year, current_year, (k - 1) as nat);
    }
}

fn errors_exec(year: u16, p: &Vec<u8>, fetched: &Vec<Result<UserLoginLog, PortalError>>) -> (r: Vec<
    String,
>)
    requires
        p.len() <= fetched.len(),
    ensures
        texts_of(r@) == fetch_errors(year, p@, fetched_view(fetched@)),
{
    let mut r: Vec<String> = Vec::new();
    let mut i: usize = 0;
    assert(p@.take(0) == Seq::<u8>::empty());
    while i < p.len()
        invariant
            i <= p.len() <= fetched.len(),
            texts_of(r@) == fetch_errors(year, p@.take(i as int), fetched_view(fetched@)),
        decreases p.len() - i,
    {
        assert(p@.take(i + 1).drop_last() == p@.take(i as int));
        match &fetched[i] {
            Ok(_) => {},
            Err(e) => {
                let ghost before = r@;
                let msg = unit_error_message(year, p[i], e);
                r.push(msg);
                assert(texts_of(r@) == texts_of(before).push(r@.last()@));
            },
        }
        i = i + 1;
    }
    assert(p@.take(p.len() as int) == p@);
    r
}

/// Reconciles a yearly summary (months in chronological order) with the
/// supplemental fetches, given in the order of `supplemental_months`.
/// Months are placed by month number, fetched months replace what the yearly
/// endpoint reported for them, a failed fetch leaves a zero entry and one
/// message, and entries numbered outside 1 to 12 are left out (see
/// `lemma_months_as_reported`). The fetched figures are added to the year
/// totals; for a past year the endpoint's December is taken out first.
pub fn reconcile(
    info: &MonthPayInfo,
    year: u16,
    current_year: u16,
    fetched: &Vec<Result<UserLoginLog, PortalError>>,
) -> (r: Reconciled)
    requires
        fetched.len() == plan(year as int, current_year as int).len(),
    ensures
        r.info@.months == merged(
            info@.months,
            year as int,
            current_year as int,
            fetched_view(fetched@),
            12,
        ),
        r.info.year_cost == reconciled_total(
            info.year_cost,
            info@.months,
            year as int,
            current_year as int,
            fetched_view(fetched@),
            0,
        ),
        r.info.year_used_flow == reconciled_total(
            info.year_used_flow,
            info@.months,
            year as int,
            current_year as int,
            fetched_view(fetched@),
            1,
        ),
        r.info.year_used_duration == reconciled_total(
            info.year_used_duration,
            info@.months,
            year as int,
            current_year as int,
            fetched_view(fetched@),
            2,
        ),
        texts_of(r.errors@) == fetch_errors(
            year,
            plan(year as int, current_year as int),
            fetched_view(fetched@),
        ),
{
    let p = supplemental_months(year, current_year);
    proof {
        lemma_plan_len(year as int, current_year as int, 12);
    }
    let ghost fv = fetched_view(fetched@);
    let ghost orig = info.monthly_data@;
    let mut months: Vec<MonthlyData> = Vec::new();
    let mut j: usize = 0;
    let mut m: u8 = 1;
    while m <= 12
        invariant
            1 <= m <= 13,
            p@ == plan(year as int, current_year as int),
            fetched.len() == p.len() <= 12,
            fv == fetched_view(fetched@),
            orig == info.monthly_data@,
            j == plan_upto(year as int, current_year as int, (m - 1) as nat).len(),
            months@ == merged(orig, year as int, current_year as int, fv, (m - 1) as nat),
        decreases 13 - m,
    {
        proof {
            lemma_plan_len(year as int, current_year as int, m as nat);
            lemma_plan_prefix_len(year as int, current_year as int, m as nat);
        }
        if (year == 2023 && m <= 8) || (year == 2022 && 6 <= m && m <= 11) || (year < current_year
            && m == 12) {
            let e = entry_exec(m, &fetched[j]);
            months.push(e);
            j = j + 1;
        } else {
            let ghost before = months@;
            let mut i: usize = 0;
            assert(orig.take(0).filter(|e: MonthlyData| e.month == m as int) == Seq::<
                MonthlyData,
            >::empty());
            while i < info.monthly_data.len()
                invariant
                    i <= info.monthly_data.len(),
                    orig == info.monthly_data@,
                    months@ == before + of_month(orig.take(i as int), m as int),
                decreases info.monthly_data.len() - i,
            {
                proof {
                    assert(orig.take(i + 1).drop_last() == orig.take(i as int));
                }
                if info.monthly_data[i].month == m {
                    months.push(info.monthly_data[i]);
                    proof {
                        lemma_filter_push(orig.take(i as int), orig[i as int], m as int);
                        assert(orig.take(i + 1) == orig.take(i as int).push(orig[i as int]));
                    }
                } else {
                    proof {
                        lemma_filter_push(orig.take(i as int), orig[i as int], m as int);
                        assert(orig.take(i + 1) == orig.take(i as int).push(orig[i as int]));
                    }
                }
                i = i + 1;
            }
            assert(orig.take(info.monthly_data.len() as int) == orig);
        }
        m = m + 1;
    }
    let year_cost = reconciled_total_exec(info.year_cost, &info.monthly_data, year, current_year, &p, fetched, 0);
    let year_used_flow = reconciled_total_exec(info.year_used_flow, &info.monthly_data, year, current_year, &p, fetched, 1);
    let year_used_duration = reconciled_total_exec(info.year_used_duration, &info.monthly_data, year, current_year, &p, fetched, 2);
    let errors = errors_exec(year, &p, fetched);
    Reconciled {
        info: MonthPayInfo { year_cost, year_used_duration, year_used_flow, monthly_data: months },
        errors,
    }
}

proof fn lemma_plan_prefix_len(year: int, current_year: int, k: nat)
    requires
        k <= 12,
    ensures
        plan_upto(year, current_year, k).len() <= plan(year, current_year).len(),
{
    lemma_plan_mono(year, current_year, k, 12);
}

proof fn lemma_plan_mono(year: int, current_year: int, k: nat, n: nat)
    ensures
        k <= n ==> plan_upto(year, current_year, k).len() <= plan_upto(year, current_year, n).len(),
    decreases n,
{
    if k < n {
        lemma_plan_mono(year, current_year, k, (n - 1) as nat);
    }
}

proof fn lemma_filter_push(s: Seq<MonthlyData>, x: MonthlyData, m: int)
    ensures
        of_month(s.push(x), m) == if x.month == m {
            of_month(s, m).push(x)
        } else {
            of_month(s, m)
        },
{
    let f = |e: MonthlyData| e.month == m;
    assert(s.push(x).drop_last() == s);
    assert(s.push(x).filter(f) == if f(x) {
        s.filter(f).push(x)
    } else {
        s.filter(f)
    }) by {
        reveal(Seq::filter);
    }
}

/// Sum of field `f` over the entries of month `m`.
pub open spec fn month_sum(s: Seq<MonthlyData>, m: int, f: int) -> int
    decreases s.len(),
{
    if s.len() == 0 {
        0
    } else {
        month_sum(s.drop_last(), m, f) + if s.last().month == m {
            field(s.last(), f) as int
        } else {
            0
        }
    }
}

proof fn lemma_of_month_members(s: Seq<MonthlyData>, m: int)
    ensures
        forall|i: int| 0 <= i < of_month(s, m).len() ==> (#[trigger] of_month(s, m)[i]).month == m,
{
    assert forall|i: int| 0 <= i < of_month(s, m).len() implies (#[trigger] of_month(
        s,
        m,
    )[i]).month == m by {
        s.lemma_filter_pred(|e: MonthlyData| e.month == m, i);
    }
}

proof fn lemma_of_month_none(s: Seq<MonthlyData>, m: int)
    requires
        forall|i: int| 0 <= i < s.len() ==> (#[trigger] s[i]).month != m,
    ensures
        of_month(s, m) == Seq::<MonthlyData>::empty(),
    decreases s.len(),
{
    if s.len() > 0 {
        lemma_of_month_none(s.drop_last(), m);
        lemma_filter_push(s.drop_last(), s.last(), m);
        assert(s.drop_last().push(s.last()) == s);
    }
}

/// Every entry of the reconciled months `1..=k` has a month in `1..=k`.
proof fn lemma_merged_months(
    orig: Seq<MonthlyData>,
    year: int,
    current_year: int,
    fetched: Seq<Result<LogSpec, PortalError>>,
    k: nat,
)
    requires
        k <= 12,
    ensures
        forall|i: int|
            0 <= i < merged(orig, year, current_year, fetched, k).len() ==> 1 <= (#[trigger] merged(
                orig,
                year,
                current_year,
                fetched,
                k,
            )[i]).month <= k,
    decreases k,
{
    if k > 0 {
        lemma_merged_months(orig, year, current_year, fetched, (k - 1) as nat);
        lemma_of_month_members(orig, k as int);
        let prev = merged(orig, year, current_year, fetched, (k - 1) as nat);
        let cur = merged(orig, year, current_year, fetched, k);
        assert forall|i: int| 0 <= i < cur.len() implies 1 <= (#[trigger] cur[i]).month <= k by {
            if i < prev.len() {
                assert(cur[i] == prev[i]);
            } else if !needs_fetch(year, current_year, k as int) {
                assert(cur[i] == of_month(orig, k as int)[i - prev.len()]);
            }
        }
    }
}

/// Reconciling never reorders what is already placed: the months `1..=k`
/// are a prefix of the months `1..=n`.
proof fn lemma_merged_prefix(
    orig: Seq<MonthlyData>,
    year: int,
    current_year: int,
    fetched: Seq<Result<LogSpec, PortalError>>,
    k: nat,
    n: nat,
)
    requires
        k <= n,
    ensures
        merged(orig, year, current_year, fetched, k).len() <= merged(
            orig,
            year,
            current_year,
            fetched,
            n,
        ).len(),
        merged(orig, year, current_year, fetched, n).take(
            merged(orig, year, current_year, fetched, k).len() as int,
        ) == merged(orig, year, current_year, fetched, k),
    decreases n,
{
    if k < n {
        lemma_merged_prefix(orig, year, current_year, fetched, k, (n - 1) as nat);
        let a = merged(orig, year, current_year, fetched, k);
        let b = merged(orig, year, current_year, fetched, (n - 1) as nat);
        let c = merged(orig, year, current_year, fetched, n);
        assert(c.take(b.len() as int) == b);
        assert(c.take(a.len() as int) == b.take(a.len() as int));
    } else {
        let a = merged(orig, year, current_year, fetched, k);
        assert(a.take(a.len() as int) == a);
    }
}

/// For 2023 the first eight months of the reconciled sequence are the eight
/// supplemental fetches, month by month in order; what follows holds the
/// yearly endpoint's September to November and December (the fetched
/// December when 2023 is a past year).
pub proof fn lemma_first_months_of_2023(
    orig: Seq<MonthlyData>,
    current_year: int,
    fetched: Seq<Result<LogSpec, PortalError>>,
)
    requires
        fetched.len() == plan(2023, current_year).len(),
    ensures
        forall|i: int|
            0 <= i < 8 ==> #[trigger] merged(orig, 2023, current_year, fetched, 12)[i] == entry_of(
                (i + 1) as u8,
                fetched[i],
            ),
        merged(orig, 2023, current_year, fetched, 12).skip(8) == of_month(orig, 9) + of_month(
            orig,
            10,
        ) + of_month(orig, 11) + if 2023 < current_year {
            seq![entry_of(12, fetched[8])]
        } else {
            of_month(orig, 12)
        },
{
    reveal_with_fuel(plan_upto, 13);
    reveal_with_fuel(merged, 13);
    let m8 = merged(orig, 2023, current_year, fetched, 8);
    assert(m8 == seq![
        entry_of(1, fetched[0]),
        entry_of(2, fetched[1]),
        entry_of(3, fetched[2]),
        entry_of(4, fetched[3]),
        entry_of(5, fetched[4]),
        entry_of(6, fetched[5]),
        entry_of(7, fetched[6]),
        entry_of(8, fetched[7]),
    ]);
    lemma_merged_prefix(orig, 2023, current_year, fetched, 8, 12);
    let m12 = merged(orig, 2023, current_year, fetched, 12);
    assert forall|i: int| 0 <= i < 8 implies #[trigger] m12[i] == entry_of(
        (i + 1) as u8,
        fetched[i],
    ) by {
        assert(m12.take(8)[i] == m8[i]);
    }
    assert(m12.skip(8) == of_month(orig, 9) + of_month(orig, 10) + of_month(orig, 11) + if 2023
        < current_year {
        seq![entry_of(12, fetched[8])]
    } else {
        of_month(orig, 12)
    });
}

/// For a past year the reconciled months hold exactly one December entry,
/// the fetched one, whatever the yearly endpoint reported for December.
pub proof fn lemma_one_december(
    orig: Seq<MonthlyData>,
    year: int,
    current_year: int,
    fetched: Seq<Result<LogSpec, PortalError>>,
)
    requires
        year < current_year,
        fetched.len() == plan(year, current_year).len(),
    ensures
        of_month(merged(orig, year, current_year, fetched, 12), 12) == seq![
            entry_of(12, fetched.last()),
        ],
{
    lemma_merged_months(orig, year, current_year, fetched, 11);
    let m11 = merged(orig, year, current_year, fetched, 11);
    lemma_of_month_none(m11, 12);
    assert(plan(year, current_year) == plan_upto(year, current_year, 11).push(12u8));
    lemma_filter_push(m11, entry_of(12, fetched.last()), 12);
}

/// For a past year December is the last fetched month, and each year total
/// drops what the yearly endpoint reported for December and adds the fetched
/// December once, beside the other fetched months.
pub proof fn lemma_december_counted_once(
    total: u64,
    orig: Seq<MonthlyData>,
    year: int,
    current_year: int,
    fetched: Seq<Result<LogSpec, PortalError>>,
    f: int,
)
    requires
        year < current_year,
        fetched.len() == plan(year, current_year).len(),
    ensures
        plan(year, current_year).len() > 0,
        plan(year, current_year).last() == 12u8,
        reconciled_total(total, orig, year, current_year, fetched, f) == clamp(
            total - month_sum(orig, 12, f) + fetched_sum(
                plan(year, current_year).drop_last(),
                fetched,
                f,
            ) + field(entry_of(12, fetched[fetched.len() - 1]), f),
        ),
        ({
            let x = total - month_sum(orig, 12, f) + fetched_sum(
                plan(year, current_year).drop_last(),
                fetched,
                f,
            ) + field(entry_of(12, fetched[fetched.len() - 1]), f);
            0 <= x <= u64::MAX ==> reconciled_total(total, orig, year, current_year, fetched, f)
                == x
        }),
{
    assert(plan(year, current_year) == plan_upto(year, current_year, 11).push(12u8));
}

proof fn lemma_of_month_twice(s: Seq<MonthlyData>, k: int, m: int)
    ensures
        of_month(of_month(s, k), m) == if m == k {
            of_month(s, k)
        } else {
            Seq::<MonthlyData>::empty()
        },
    decreases s.len(),
{
    if s.len() == 0 {
        assert(of_month(s, k) == s) by {
            reveal(Seq::filter);
        }
        assert(of_month(s, m) == s) by {
            reveal(Seq::filter);
        }
    } else {
        let p = s.drop_last();
        lemma_of_month_twice(p, k, m);
        lemma_filter_push(p, s.last(), k);
        assert(p.push(s.last()) == s);
        if s.last().month == k {
            lemma_filter_push(of_month(p, k), s.last(), m);
        }
    }
}

proof fn lemma_merged_month_upto(
    orig: Seq<MonthlyData>,
    year: int,
    current_year: int,
    fetched: Seq<Result<LogSpec, PortalError>>,
    k: nat,
    m: int,
)
    requires
        k <= 12,
        1 <= m <= 12,
    ensures
        of_month(merged(orig, year, current_year, fetched, k), m) == if m > k {
            Seq::<MonthlyData>::empty()
        } else if needs_fetch(year, current_year, m) {
            seq![
                entry_of(
                    m as u8,
                    fetched[plan_upto(year, current_year, (m - 1) as nat).len() as int],
                ),
            ]
        } else {
            of_month(orig, m)
        },
    decreases k,
{
    if k == 0 {
        assert(of_month(Seq::<MonthlyData>::empty(), m) == Seq::<MonthlyData>::empty()) by {
            reveal(Seq::filter);
        }
    } else {
        lemma_merged_month_upto(orig, year, current_year, fetched, (k - 1) as nat, m);
        let prev = merged(orig, year, current_year, fetched, (k - 1) as nat);
        if needs_fetch(year, current_year, k as int) {
            let e = entry_of(
                k as u8,
                fetched[plan_upto(year, current_year, (k - 1) as nat).len() as int],
            );
            lemma_filter_push(prev, e, m);
        } else {
            Seq::filter_distributes_over_add(prev, of_month(orig, k as int), |e: MonthlyData|
                e.month == m);
            lemma_of_month_twice(orig, k as int, m);
            if m != k {
                assert(of_month(prev, m) + Seq::<MonthlyData>::empty() == of_month(prev, m));
            } else {
                assert(Seq::<MonthlyData>::empty() + of_month(orig, m) == of_month(orig, m));
            }
        }
    }
}

/// Each month of the reconciled summary holds exactly what the yearly
/// endpoint reported for it, in the endpoint's order, or, for a fetched
/// month, the one entry its fetch yields. A chronological yearly list
/// therefore keeps its order and its entries; only entries numbered outside
/// 1 to 12 are left out.
pub proof fn lemma_months_as_reported(
    orig: Seq<MonthlyData>,
    year: int,
    current_year: int,
    fetched: Seq<Result<LogSpec, PortalError>>,
    m: int,
)
    requires
        1 <= m <= 12,
    ensures
        of_month(merged(orig, year, current_year, fetched, 12), m) == if needs_fetch(
            year,
            current_year,
            m,
        ) {
            seq![
                entry_of(
                    m as u8,
                    fetched[plan_upto(year, current_year, (m - 1) as nat).len() as int],
                ),
            ]
        } else {
            of_month(orig, m)
        },
{
    lemma_merged_month_upto(orig, year, current_year, fetched, 12, m);
}

} // verus!
