//! Positional decoding of the portal's tables. A table arrives as the flat,
//! ordered stream of its cell texts; meaning comes from position alone.
use vstd::prelude::*;

use crate::bindings::{parse_wall_time, wall_time_of};
use crate::model::{
    empty_session, sessions_view, EveryLoginData, LogSpec, MonthPayInfo, YearSpec, MonthlyData,
    PortalError, SessionSpec, UserLoginLog,
};
use crate::text::{
    has_char, parse_milli, parse_milli_cell, parse_uint, parse_uint_cell, trim_ws, contains_char,
};

verus! {

pub open spec fn texts(v: Seq<String>) -> Seq<Seq<char>> {
    v.map_values(|s: String| s@)
}

/// Decoder state for the login-log table: the column the next cell belongs
/// to, the row being filled, and the rows already closed.
pub struct LoginCursor {
    pub col: nat,
    pub row: SessionSpec,
    pub rows: Seq<SessionSpec>,
}

pub open spec fn login_start() -> LoginCursor {
    LoginCursor { col: 0, row: empty_session(), rows: Seq::empty() }
}

/// One cell of the login-log table. A row has twelve columns when the session
/// had an IPv6 address and eleven when it had none; in the second case the
/// twelfth cell is already the next row's online time (it holds a '-', which
/// no IPv6 address does). The row is then closed with an empty IPv6 address,
/// the probed cell becomes the next row's online time and decoding resumes at
/// column one.
pub open spec fn login_step(st: LoginCursor, cell: Seq<char>) -> Option<LoginCursor> {
    let r = st.row;
    if st.col == 0 {
        match wall_time_of(cell) {
            Some(t) => Some(LoginCursor { col: 1, row: SessionSpec { online_time: t, ..r }, ..st }),
            None => None,
        }
    } else if st.col == 1 {
        match wall_time_of(cell) {
            Some(t) => Some(LoginCursor { col: 2, row: SessionSpec { offline_time: t, ..r }, ..st }),
            None => None,
        }
    } else if st.col == 2 {
        match parse_uint(trim_ws(cell)) {
            Some(v) => Some(LoginCursor { col: 3, row: SessionSpec { used_duration: v, ..r }, ..st }),
            None => None,
        }
    } else if st.col == 3 {
        match parse_milli(trim_ws(cell)) {
            Some(v) => Some(LoginCursor { col: 4, row: SessionSpec { used_flow: v, ..r }, ..st }),
            None => None,
        }
    } else if st.col == 4 {
        Some(LoginCursor { col: 5, ..st })
    } else if st.col == 5 {
        match parse_milli(trim_ws(cell)) {
            Some(v) => Some(LoginCursor { col: 6, row: SessionSpec { cost: v, ..r }, ..st }),
            None => None,
        }
    } else if st.col == 6 {
        match parse_milli(trim_ws(cell)) {
            Some(v) => Some(LoginCursor { col: 7, row: SessionSpec { ipv4_up: v, ..r }, ..st }),
            None => None,
        }
    } else if st.col == 7 {
        match parse_milli(trim_ws(cell)) {
            Some(v) => Some(LoginCursor { col: 8, row: SessionSpec { ipv4_down: v, ..r }, ..st }),
            None => None,
        }
    } else if st.col == 8 {
        match parse_milli(trim_ws(cell)) {
            Some(v) => Some(LoginCursor { col: 9, row: SessionSpec { ipv6_up: v, ..r }, ..st }),
            None => None,
        }
    } else if st.col == 9 {
        match parse_milli(trim_ws(cell)) {
            Some(v) => Some(LoginCursor { col: 10, row: SessionSpec { ipv6_down: v, ..r }, ..st }),
            None => None,
        }
    } else if st.col == 10 {
        Some(LoginCursor { col: 11, row: SessionSpec { ipv4_addr: cell, ..r }, ..st })
    } else if has_char(cell, '-') {
        match wall_time_of(cell) {
            Some(t) => Some(
                LoginCursor {
                    col: 1,
                    row: SessionSpec { online_time: t, ipv6_addr: Seq::empty(), ..r },
                    rows: st.rows.push(SessionSpec { ipv6_addr: Seq::empty(), ..r }),
                },
            ),
            None => None,
        }
    } else {
        Some(
            LoginCursor {
                col: 0,
                row: SessionSpec { ipv6_addr: cell, ..r },
                rows: st.rows.push(SessionSpec { ipv6_addr: cell, ..r }),
            },
        )
    }
}

/// The decoder's state after `cells`, or `None` once a cell failed to parse.
pub open spec fn login_run(cells: Seq<Seq<char>>) -> Option<LoginCursor>
    decreases cells.len(),
{
    if cells.len() == 0 {
        Some(login_start())
    } else {
        match login_run(cells.drop_last()) {
            Some(st) => login_step(st, cells.last()),
            None => None,
        }
    }
}

/// The rows when the cells run out: the closed rows, and the open row as well
/// when it is complete but for the IPv6 address (the stream ended where that
/// address would stand), with an empty IPv6 address. Any other partial row is
/// dropped.
pub open spec fn finish_rows(st: LoginCursor) -> Seq<SessionSpec> {
    if st.col == 11 {
        st.rows.push(SessionSpec { ipv6_addr: Seq::empty(), ..st.row })
    } else {
        st.rows
    }
}

/// The rows of the login-log table, or `None` once a cell failed to parse.
pub open spec fn login_rows(cells: Seq<Seq<char>>) -> Option<Seq<SessionSpec>> {
    match login_run(cells) {
        Some(st) => Some(finish_rows(st)),
        None => None,
    }
}

/// A row without an IPv6 address: when the cell in the IPv6 position holds
/// a '-' and reads as a timestamp, the row is closed with an empty IPv6
/// address, that cell becomes the next row's online time (it is not dropped)
/// and decoding resumes at column one, not zero.
pub proof fn lemma_row_without_ipv6(st: LoginCursor, cell: Seq<char>)
    requires
        st.col == 11,
        has_char(cell, '-'),
        wall_time_of(cell) is Some,
    ensures
        login_step(st, cell) matches Some(n) && n.col == 1 && n.row.online_time == wall_time_of(
            cell,
        )->Some_0 && n.rows == st.rows.push(SessionSpec { ipv6_addr: Seq::empty(), ..st.row }),
{
}

/// A row with an IPv6 address closes on it and decoding resumes at column zero.
pub proof fn lemma_row_with_ipv6(st: LoginCursor, cell: Seq<char>)
    requires
        st.col == 11,
        !has_char(cell, '-'),
    ensures
        login_step(st, cell) matches Some(n) && n.col == 0 && n.rows == st.rows.push(
            SessionSpec { ipv6_addr: cell, ..st.row },
        ),
{
}

fn set_milli(cell: &String, field: &mut u64) -> (ok: bool)
    ensures
        ok == parse_milli(trim_ws(cell@)) is Some,
        ok ==> *final(field) == parse_milli(trim_ws(cell@))->Some_0,
        !ok ==> *final(field) == *old(field),
{
    match parse_milli_cell(cell.as_str()) {
        Some(v) => {
            *field = v;
            true
        },
        None => false,
    }
}

fn login_step_exec(
    col: usize,
    row: &mut EveryLoginData,
    rows: &mut Vec<EveryLoginData>,
    cell: &String,
) -> (r: Option<usize>)
    ensures
        match login_step(
            LoginCursor { col: col as nat, row: old(row)@, rows: sessions_view(old(rows)@) },
            cell@,
        ) {
            Some(st) => r == Some(st.col as usize) && final(row)@ == st.row && sessions_view(
                final(rows)@,
            ) == st.rows,
            None => r is None,
        },
{
    let ghost rows0 = rows@;
    if col == 0 || col == 1 {
        match parse_wall_time(cell.as_str()) {
            Some(t) => {
                if col == 0 {
                    row.online_time = t;
                } else {
                    row.offline_time = t;
                }
                Some(col + 1)
            },
            None => None,
        }
    } else if col == 2 {
        match parse_uint_cell(cell.as_str()) {
            Some(v) => {
                row.used_duration = v;
                Some(3)
            },
            None => None,
        }
    } else if col == 4 {
        Some(5)
    } else if col == 3 || (5 <= col && col <= 9) {
        let ok = if col == 3 {
            set_milli(cell, &mut row.used_flow)
        } else if col == 5 {
            set_milli(cell, &mut row.cost)
        } else if col == 6 {
            set_milli(cell, &mut row.ipv4_up)
        } else if col == 7 {
            set_milli(cell, &mut row.ipv4_down)
        } else if col == 8 {
            set_milli(cell, &mut row.ipv6_up)
        } else {
            set_milli(cell, &mut row.ipv6_down)
        };
        if ok {
            Some(col + 1)
        } else {
            None
        }
    } else if col == 10 {
        row.ipv4_addr = cell.clone();
        Some(11)
    } else if contains_char(cell.as_str(), '-') {
        match parse_wall_time(cell.as_str()) {
            Some(t) => {
                row.ipv6_addr = String::new();
                rows.push(row.copy());
                row.online_time = t;
                assert(sessions_view(rows@) == sessions_view(rows0).push(rows@.last()@));
                Some(1)
            },
            None => None,
        }
    } else {
        row.ipv6_addr = cell.clone();
        rows.push(row.copy());
        assert(sessions_view(rows@) == sessions_view(rows0).push(rows@.last()@));
        Some(0)
    }
}

/// Decodes the login-log table from its cell texts in document order.
/// `None` when a timestamp or a number does not parse.
pub fn decode_login_table(cells: &Vec<String>) -> (r: Option<Vec<EveryLoginData>>)
    ensures
        match login_rows(texts(cells@)) {
            Some(rows) => r matches Some(v) && sessions_view(v@) == rows,
            None => r is None,
        },
{
    let mut col: usize = 0;
    let mut row = EveryLoginData::empty();
    let mut rows: Vec<EveryLoginData> = Vec::new();
    let mut i: usize = 0;
    assert(texts(cells@).take(0) == Seq::<Seq<char>>::empty());
    assert(sessions_view(rows@) == Seq::<SessionSpec>::empty());
    while i < cells.len()
        invariant
            i <= cells.len(),
            login_run(texts(cells@).take(i as int)) == Some(
                LoginCursor { col: col as nat, row: row@, rows: sessions_view(rows@) },
            ),
        decreases cells.len() - i,
    {
        assert(texts(cells@).take(i + 1).drop_last() == texts(cells@).take(i as int));
        assert(texts(cells@).take(i + 1).last() == cells@[i as int]@);
        match login_step_exec(col, &mut row, &mut rows, &cells[i]) {
            Some(c) => {
                col = c;
            },
            None => {
                proof {
                    lemma_login_none_stays(texts(cells@), i as int + 1);
                    assert(texts(cells@).take(cells.len() as int) == texts(cells@));
                }
                return None;
            },
        }
        i = i + 1;
    }
    assert(texts(cells@).take(cells.len() as int) == texts(cells@));
    if col == 11 {
        let ghost rows0 = rows@;
        row.ipv6_addr = String::new();
        rows.push(row.copy());
        assert(sessions_view(rows@) == sessions_view(rows0).push(rows@.last()@));
    }
    Some(rows)
}

/// In a cell stream, a row without an IPv6 address is followed by the row
/// that its IPv6 position began: the probed cell is that row's online time
/// and the next cell its offline time, and decoding goes on from column two.
pub proof fn lemma_resync_in_stream(cells: Seq<Seq<char>>, k: int, st: LoginCursor)
    requires
        0 <= k,
        k + 2 <= cells.len(),
        login_run(cells.take(k)) == Some(st),
        st.col == 11,
        has_char(cells[k], '-'),
        wall_time_of(cells[k]) is Some,
        wall_time_of(cells[k + 1]) is Some,
    ensures
        login_run(cells.take(k + 2)) matches Some(n) && n.col == 2 && n.rows == st.rows.push(
            SessionSpec { ipv6_addr: Seq::empty(), ..st.row },
        ) && n.row.online_time == wall_time_of(cells[k])->Some_0 && n.row.offline_time
            == wall_time_of(cells[k + 1])->Some_0,
{
    assert(cells.take(k + 1).drop_last() == cells.take(k));
    assert(cells.take(k + 1).last() == cells[k]);
    let mid = login_step(st, cells[k]);
    assert(login_run(cells.take(k + 1)) == mid);
    assert(cells.take(k + 2).drop_last() == cells.take(k + 1));
    assert(cells.take(k + 2).last() == cells[k + 1]);
    assert(login_run(cells.take(k + 2)) == login_step(mid->Some_0, cells[k + 1]));
}

/// After a resynchronisation from state `at`: the rows closed then, the row
/// without IPv6 address, and the next row, which began at the probed cell
/// (online time `t0`) and the cell after it (offline time `t1`), either
/// closed or still being filled.
pub open spec fn after_resync(st: LoginCursor, at: LoginCursor, t0: i64, t1: i64) -> bool {
    let idx = at.rows.len() + 1;
    &&& st.rows.len() >= idx
    &&& st.rows.take(idx as int) == at.rows.push(SessionSpec { ipv6_addr: Seq::empty(), ..at.row })
    &&& st.rows.len() > idx ==> st.rows[idx as int].online_time == t0
        && st.rows[idx as int].offline_time == t1
    &&& st.rows.len() == idx ==> 2 <= st.col <= 11 && st.row.online_time == t0
        && st.row.offline_time == t1
}

proof fn lemma_after_resync_step(st: LoginCursor, at: LoginCursor, t0: i64, t1: i64, c: Seq<char>)
    requires
        after_resync(st, at, t0, t1),
        login_step(st, c) is Some,
    ensures
        after_resync(login_step(st, c)->Some_0, at, t0, t1),
{
    let n = login_step(st, c)->Some_0;
    let idx = at.rows.len() + 1;
    if n.rows != st.rows {
        let x = n.rows.last();
        assert(n.rows == st.rows.push(x));
        assert(n.rows.take(idx as int) == st.rows.take(idx as int));
    }
}

proof fn lemma_after_resync_run(cells: Seq<Seq<char>>, j: int, at: LoginCursor, t0: i64, t1: i64)
    requires
        0 <= j <= cells.len(),
        login_run(cells.take(j)) matches Some(st) && after_resync(st, at, t0, t1),
        login_run(cells) is Some,
    ensures
        after_resync(login_run(cells)->Some_0, at, t0, t1),
    decreases cells.len() - j,
{
    if j < cells.len() {
        assert(cells.take(j + 1).drop_last() == cells.take(j));
        assert(cells.take(j + 1).last() == cells[j]);
        if login_run(cells.take(j + 1)) is None {
            lemma_login_none_stays(cells, j + 1);
        }
        lemma_after_resync_step(login_run(cells.take(j))->Some_0, at, t0, t1, cells[j]);
        lemma_after_resync_run(cells, j + 1, at, t0, t1);
    } else {
        assert(cells.take(j) == cells);
    }
}

/// A row without an IPv6 address, in the decoded rows: when decoding
/// succeeds, the row closed at the probed cell stands in the result with an
/// empty IPv6 address right after the rows closed before it, and the row that
/// follows it, when complete, starts at the probed cell's time and ends at
/// the next cell's.
pub proof fn lemma_resync_in_rows(cells: Seq<Seq<char>>, k: int, st: LoginCursor)
    requires
        0 <= k,
        k + 2 <= cells.len(),
        login_run(cells.take(k)) == Some(st),
        st.col == 11,
        has_char(cells[k], '-'),
        wall_time_of(cells[k]) is Some,
        wall_time_of(cells[k + 1]) is Some,
        login_rows(cells) is Some,
    ensures
        ({
            let rows = login_rows(cells)->Some_0;
            let idx = st.rows.len() + 1;
            &&& rows.len() >= idx
            &&& rows.take(idx as int) == st.rows.push(SessionSpec { ipv6_addr: Seq::empty(), ..st.row })
            &&& rows.len() > idx ==> rows[idx as int].online_time == wall_time_of(cells[k])->Some_0
                && rows[idx as int].offline_time == wall_time_of(cells[k + 1])->Some_0
        }),
{
    let t0 = wall_time_of(cells[k])->Some_0;
    let t1 = wall_time_of(cells[k + 1])->Some_0;
    lemma_resync_in_stream(cells, k, st);
    let n = login_run(cells.take(k + 2))->Some_0;
    assert(n.rows.take(n.rows.len() as int) == n.rows);
    assert(after_resync(n, st, t0, t1));
    lemma_after_resync_run(cells, k + 2, st, t0, t1);
    let f = login_run(cells)->Some_0;
    let idx = st.rows.len() + 1;
    if f.col == 11 {
        let x = SessionSpec { ipv6_addr: Seq::empty(), ..f.row };
        assert(finish_rows(f) == f.rows.push(x));
        assert(f.rows.push(x).take(idx as int) == f.rows.take(idx as int));
    }
}

/// Once a cell failed, the decoder stays failed.
pub proof fn lemma_login_none_stays(cells: Seq<Seq<char>>, i: int)
    requires
        0 <= i <= cells.len(),
        login_run(cells.take(i)) is None,
    ensures
        login_run(cells) is None,
    decreases cells.len() - i,
{
    if i < cells.len() {
        assert(cells.take(i + 1).drop_last() == cells.take(i));
        lemma_login_none_stays(cells, i + 1);
    } else {
        assert(cells.take(i) == cells);
    }
}

/// The login-log response: the summary row (seven cells) and the session rows.
/// No summary cell at all means the portal had no data for the range.
pub open spec fn login_log_of(summary: Seq<Seq<char>>, cells: Seq<Seq<char>>) -> Result<
    LogSpec,
    PortalError,
> {
    if summary.len() == 0 {
        Err(PortalError::NoDataForRange)
    } else if summary.len() < 7 {
        Err(PortalError::DecodeError)
    } else {
        match (
            parse_milli(trim_ws(summary[0])),
            parse_milli(trim_ws(summary[1])),
            parse_milli(trim_ws(summary[2])),
            parse_milli(trim_ws(summary[3])),
            parse_milli(trim_ws(summary[4])),
            parse_milli(trim_ws(summary[5])),
            parse_uint(trim_ws(summary[6])),
            login_rows(cells),
        ) {
            (
                Some(a),
                Some(b),
                Some(c),
                Some(d),
                Some(f),
                Some(k),
                Some(t),
                Some(rows),
            ) => Ok(
                LogSpec {
                    ipv4_up: a,
                    ipv4_down: b,
                    ipv6_up: c,
                    ipv6_down: d,
                    used_flow: f,
                    cost: k,
                    used_duration: t,
                    sessions: rows,
                },
            ),
            _ => Err(PortalError::DecodeError),
        }
    }
}

/// Decodes a login-log response from its summary cells and its table cells.
pub fn decode_login_log(summary: &Vec<String>, cells: &Vec<String>) -> (r: Result<
    UserLoginLog,
    PortalError,
>)
    ensures
        match login_log_of(texts(summary@), texts(cells@)) {
            Ok(l) => r matches Ok(v) && v@ == l,
            Err(e) => r matches Err(x) && x == e,
        },
{
    if summary.len() == 0 {
        return Err(PortalError::NoDataForRange);
    }
    if summary.len() < 7 {
        return Err(PortalError::DecodeError);
    }
    let ghost s = texts(summary@);
    assert(s[0] == summary@[0]@ && s[1] == summary@[1]@ && s[2] == summary@[2]@ && s[3]
        == summary@[3]@ && s[4] == summary@[4]@ && s[5] == summary@[5]@ && s[6]
        == summary@[6]@);
    let a = parse_milli_cell(summary[0].as_str());
    let b = parse_milli_cell(summary[1].as_str());
    let c = parse_milli_cell(summary[2].as_str());
    let d = parse_milli_cell(summary[3].as_str());
    let f = parse_milli_cell(summary[4].as_str());
    let k = parse_milli_cell(summary[5].as_str());
    let t = parse_uint_cell(summary[6].as_str());
    let rows = decode_login_table(cells);
    match (a, b, c, d, f, k, t, rows) {
        (Some(a), Some(b), Some(c), Some(d), Some(f), Some(k), Some(t), Some(rows)) => Ok(
            UserLoginLog {
                ipv4_up: a,
                ipv4_down: b,
                ipv6_up: c,
                ipv6_down: d,
                used_flow: f,
                cost: k,
                used_duration: t,
                every_login_data: rows,
            },
        ),
        _ => Err(PortalError::DecodeError),
    }
}

/// Decoder state for the monthly payment grid.
pub struct MonthCursor {
    pub col: nat,
    pub row: MonthlyData,
    pub rows: Seq<MonthlyData>,
}

pub open spec fn month_start() -> MonthCursor {
    MonthCursor {
        col: 0,
        row: MonthlyData { month: 0, month_cost: 0, month_used_flow: 0, month_used_duration: 0 },
        rows: Seq::empty(),
    }
}

/// Month number of a row label: its sixth and seventh characters, 1 to 12.
pub open spec fn month_label(cell: Seq<char>) -> Option<u8> {
    if cell.len() >= 7 {
        match parse_uint(cell.subrange(5, 7)) {
            Some(m) => if 1 <= m <= 12 {
                Some(m as u8)
            } else {
                None
            },
            None => None,
        }
    } else {
        None
    }
}

/// One cell of the monthly grid: eight columns, of which the label, the cost,
/// the duration and the flow are read; the eighth closes the row. The portal
/// lists the latest month first, so a closed row goes to the front.
pub open spec fn month_step(st: MonthCursor, cell: Seq<char>) -> Option<MonthCursor> {
    let r = st.row;
    if st.col == 0 {
        match month_label(cell) {
            Some(m) => Some(MonthCursor { col: 1, row: MonthlyData { month: m, ..r }, ..st }),
            None => None,
        }
    } else if st.col == 4 {
        match parse_milli(trim_ws(cell)) {
            Some(v) => Some(MonthCursor { col: 5, row: MonthlyData { month_cost: v, ..r }, ..st }),
            None => None,
        }
    } else if st.col == 5 {
        match parse_uint(trim_ws(cell)) {
            Some(v) => Some(
                MonthCursor { col: 6, row: MonthlyData { month_used_duration: v, ..r }, ..st },
            ),
            None => None,
        }
    } else if st.col == 6 {
        match parse_milli(trim_ws(cell)) {
            Some(v) => Some(
                MonthCursor { col: 7, row: MonthlyData { month_used_flow: v, ..r }, ..st },
            ),
            None => None,
        }
    } else if st.col == 7 {
        Some(MonthCursor { col: 0, row: r, rows: seq![r] + st.rows })
    } else {
        Some(MonthCursor { col: st.col + 1, ..st })
    }
}

pub open spec fn month_run(cells: Seq<Seq<char>>) -> Option<MonthCursor>
    decreases cells.len(),
{
    if cells.len() == 0 {
        Some(month_start())
    } else {
        match month_run(cells.drop_last()) {
            Some(st) => month_step(st, cells.last()),
            None => None,
        }
    }
}

pub proof fn lemma_month_none_stays(cells: Seq<Seq<char>>, i: int)
    requires
        0 <= i <= cells.len(),
        month_run(cells.take(i)) is None,
    ensures
        month_run(cells) is None,
    decreases cells.len() - i,
{
    if i < cells.len() {
        assert(cells.take(i + 1).drop_last() == cells.take(i));
        lemma_month_none_stays(cells, i + 1);
    } else {
        assert(cells.take(i) == cells);
    }
}

fn month_label_exec(cell: &String) -> (r: Option<u8>)
    ensures
        r == month_label(cell@),
{
    let v = crate::text::chars_of(cell.as_str());
    if v.len() < 7 {
        return None;
    }
    match crate::text::digits_in(&v, 5, 7) {
        Some(m) => {
            if 1 <= m && m <= 12 {
                Some(m as u8)
            } else {
                None
            }
        },
        None => None,
    }
}

/// Decodes the monthly payment grid, latest month last.
pub fn decode_month_table(cells: &Vec<String>) -> (r: Option<Vec<MonthlyData>>)
    ensures
        match month_run(texts(cells@)) {
            Some(st) => r matches Some(v) && v@ == st.rows,
            None => r is None,
        },
{
    let mut col: usize = 0;
    let mut row = MonthlyData { month: 0, month_cost: 0, month_used_flow: 0, month_used_duration: 0 };
    let mut rows: Vec<MonthlyData> = Vec::new();
    let mut i: usize = 0;
    assert(texts(cells@).take(0) == Seq::<Seq<char>>::empty());
    while i < cells.len()
        invariant
            i <= cells.len(),
            col < 8,
            month_run(texts(cells@).take(i as int)) == Some(
                MonthCursor { col: col as nat, row: row, rows: rows@ },
            ),
        decreases cells.len() - i,
    {
        assert(texts(cells@).take(i + 1).drop_last() == texts(cells@).take(i as int));
        assert(texts(cells@).take(i + 1).last() == cells@[i as int]@);
        let cell = &cells[i];
        let ok = if col == 0 {
            match month_label_exec(cell) {
                Some(m) => {
                    row.month = m;
                    true
                },
                None => false,
            }
        } else if col == 4 {
            set_milli(cell, &mut row.month_cost)
        } else if col == 5 {
            match parse_uint_cell(cell.as_str()) {
                Some(v) => {
                    row.month_used_duration = v;
                    true
                },
                None => false,
            }
        } else if col == 6 {
            set_milli(cell, &mut row.month_used_flow)
        } else if col == 7 {
            let ghost before = rows@;
            rows.insert(0, row);
            assert(rows@ == seq![row] + before);
            true
        } else {
            true
        };
        if !ok {
            proof {
                lemma_month_none_stays(texts(cells@), i as int + 1);
                assert(texts(cells@).take(cells.len() as int) == texts(cells@));
            }
            return None;
        }
        col = if col == 7 {
            0
        } else {
            col + 1
        };
        i = i + 1;
    }
    assert(texts(cells@).take(cells.len() as int) == texts(cells@));
    Some(rows)
}

/// The yearly summary: its totals are the second, third and fourth summary
/// cells (cost, duration, flow); the months come from the grid.
pub open spec fn month_pay_of(summary: Seq<Seq<char>>, cells: Seq<Seq<char>>) -> Option<YearSpec> {
    if summary.len() < 4 {
        None
    } else {
        match (
            parse_milli(trim_ws(summary[1])),
            parse_uint(trim_ws(summary[2])),
            parse_milli(trim_ws(summary[3])),
            month_run(cells),
        ) {
            (Some(c), Some(d), Some(f), Some(st)) => Some(
                YearSpec { year_cost: c, year_used_duration: d, year_used_flow: f, months: st.rows },
            ),
            _ => None,
        }
    }
}

/// Decodes a yearly-summary response from its summary cells and grid cells;
/// `None` when a cell is missing or does not parse.
pub fn decode_month_pay(summary: &Vec<String>, cells: &Vec<String>) -> (r: Option<MonthPayInfo>)
    ensures
        match month_pay_of(texts(summary@), texts(cells@)) {
            Some(y) => r matches Some(v) && v@ == y,
            None => r is None,
        },
{
    if summary.len() < 4 {
        return None;
    }
    let ghost s = texts(summary@);
    assert(s[1] == summary@[1]@ && s[2] == summary@[2]@ && s[3] == summary@[3]@);
    let c = parse_milli_cell(summary[1].as_str());
    let d = parse_uint_cell(summary[2].as_str());
    let f = parse_milli_cell(summary[3].as_str());
    let rows = decode_month_table(cells);
    match (c, d, f, rows) {
        (Some(c), Some(d), Some(f), Some(rows)) => Some(
            MonthPayInfo {
                year_cost: c,
                year_used_duration: d,
                year_used_flow: f,
                monthly_data: rows,
            },
        ),
        _ => None,
    }
}

} // verus!
