//! The portal client's own logic: request forms, the login handshake's
//! extraction steps and the classification and decoding of each response.
use vstd::prelude::*;

use crate::bindings::{
    capture_of, first_capture, md5_hex, md5_hex_of, select_attrs, select_texts,
    selected_attrs_of, selected_texts_of,
};
use crate::calendar::{
    append_decimal, decimal_text, append_padded, date_of_timestamp, date_of_timestamp_spec, date_text, format_date, padded,
    CalendarDate,
};
use crate::model::{MacAddress, MacSpec, MonthPayInfo, PortalError, UserLoginLog, LogSpec, YearSpec};
use crate::portal::{check_session, relogin_marker, AccountMode};
use crate::table::{decode_login_log, decode_month_pay, login_log_of, month_pay_of, texts};
use crate::text::{contains_str, has_infix};

verus! {

pub open spec fn summary_selector() -> Seq<char> {
    ".redtext"@
}

pub open spec fn cell_selector() -> Seq<char> {
    ".table4 > tbody > tr > td"@
}

/// Form of a login-log query.
#[derive(Debug)]
pub struct LoginLogForm {
    pub kind: u8,
    pub month: String,
    pub start_date: String,
    pub end_date: String,
}

/// Months up to July 2023 live in per-month legacy tables.
pub open spec fn before_cutoff(d: CalendarDate) -> bool {
    d.year < 2023 || (d.year == 2023 && d.month <= 7)
}

pub open spec fn legacy_label(d: CalendarDate) -> Seq<char> {
    "CHECKER.TBLUSERLOGIN"@ + padded(d.year as nat, 4) + padded(d.month as nat, 2)
}

/// Placeholder month label that later queries must still carry.
pub open spec fn current_label() -> Seq<char> {
    "CHECKER.TBLUSERLOGIN202304"@
}

/// The login-log form for `[start, end]`: kind 3 with the start month's
/// legacy table up to the cutoff, kind 4 with the placeholder label after it.
pub fn login_log_form(start: CalendarDate, end: CalendarDate) -> (r: LoginLogForm)
    ensures
        r.kind == (if before_cutoff(start) {
            3u8
        } else {
            4u8
        }),
        r.month@ == (if before_cutoff(start) {
            legacy_label(start)
        } else {
            current_label()
        }),
        r.start_date@ == date_text(start),
        r.end_date@ == date_text(end),
{
    let legacy = start.year < 2023 || (start.year == 2023 && start.month <= 7);
    let mut month = String::from_str("CHECKER.TBLUSERLOGIN");
    if legacy {
        append_padded(&mut month, start.year as u64, 4);
        append_padded(&mut month, start.month as u64, 2);
        assert(month@ == legacy_label(start));
    } else {
        month.append("202304");
        assert(month@ == current_label()) by {
            reveal_strlit("CHECKER.TBLUSERLOGIN");
            reveal_strlit("202304");
            reveal_strlit("CHECKER.TBLUSERLOGIN202304");
        }
    }
    LoginLogForm {
        kind: if legacy {
            3
        } else {
            4
        },
        month,
        start_date: format_date(start),
        end_date: format_date(end),
    }
}

/// The login-log form for the days of two Unix seconds; `None` when the
/// start is after the end or a day is out of range.
pub fn login_log_form_between(start: i64, end: i64) -> (r: Option<LoginLogForm>)
    ensures
        start > end ==> r is None,
        start <= end ==> match (date_of_timestamp_spec(start), date_of_timestamp_spec(end)) {
            (Some(a), Some(b)) => r matches Some(f) && f.kind == (if before_cutoff(a) {
                3u8
            } else {
                4u8
            }) && f.month@ == (if before_cutoff(a) {
                legacy_label(a)
            } else {
                current_label()
            }) && f.start_date@ == date_text(a) && f.end_date@ == date_text(b),
            _ => r is None,
        },
{
    if start > end {
        return None;
    }
    match (date_of_timestamp(start), date_of_timestamp(end)) {
        (Some(a), Some(b)) => Some(login_log_form(a, b)),
        _ => None,
    }
}

/// Form of a yearly-summary query: `type=1` and the year.
#[derive(Debug)]
pub struct MonthPayForm {
    pub kind: String,
    pub year: String,
}

/// The yearly-summary form for `year`.
pub fn month_pay_form(year: u16) -> (r: MonthPayForm)
    ensures
        r.kind@ == "1"@,
        r.year@ == decimal_text(year as nat),
{
    let mut y = String::new();
    append_decimal(&mut y, year as u64);
    MonthPayForm { kind: String::from_str("1"), year: y }
}

/// Body of the credential POST: the password goes as its MD5 digest.
pub open spec fn login_body_of(account: Seq<char>, password: Seq<char>, check_code: Seq<char>) -> Seq<char> {
    "account="@ + account + "&password="@ + md5_hex_of(password) + "&code=&checkcode="@
        + check_code + "&Submit=%E7%99%BB+%E5%BD%95"@
}

pub fn login_form_body(account: &str, password: &str, check_code: &str) -> (r: String)
    ensures
        r@ == login_body_of(account@, password@, check_code@),
{
    let digest = md5_hex(password);
    String::from_str("account=").concat(account).concat("&password=").concat(digest.as_str()).concat(
        "&code=&checkcode=",
    ).concat(check_code).concat("&Submit=%E7%99%BB+%E5%BD%95")
}

pub open spec fn wrong_credentials() -> Seq<char> {
    "账号或密码出现错误！"@
}

pub open spec fn wrong_password() -> Seq<char> {
    "登录密码不正确"@
}

pub open spec fn gateway_rejected() -> Seq<char> {
    "用户名或密码错误"@
}

/// The credential POST's reply: `None` when it names bad credentials,
/// otherwise the token obtained before it, now authenticated.
pub fn login_outcome(body: &str, token: String) -> (r: Option<String>)
    ensures
        (has_infix(body@, wrong_credentials()) || has_infix(body@, wrong_password())) ==> r is None,
        !(has_infix(body@, wrong_credentials()) || has_infix(body@, wrong_password())) ==> (r matches Some(t)
            && t@ == token@),
{
    if contains_str(body, "账号或密码出现错误！") || contains_str(body, "登录密码不正确") {
        None
    } else {
        Some(token)
    }
}

/// Whether the tunnel gateway's login reply names bad credentials.
pub fn gateway_login_rejected(body: &str) -> (r: bool)
    ensures
        r == has_infix(body@, gateway_rejected()),
{
    contains_str(body, "用户名或密码错误")
}

pub open spec fn cookie_pattern(mode: AccountMode) -> Seq<char> {
    match mode {
        AccountMode::Direct => "JSESSIONID=([^;]*)"@,
        _ => "wengine_vpn_ticketelib_ustb_edu_cn=([^;]*)"@,
    }
}

pub open spec fn opt_text(r: Option<String>) -> Option<Seq<char>> {
    match r {
        Some(s) => Some(s@),
        None => None,
    }
}

/// The session cookie's value in a `Set-Cookie` header.
pub fn session_cookie(set_cookie: &str, mode: AccountMode) -> (r: Option<String>)
    ensures
        opt_text(r) == capture_of(cookie_pattern(mode), set_cookie@),
{
    let pattern = match mode {
        AccountMode::Direct => "JSESSIONID=([^;]*)",
        _ => "wengine_vpn_ticketelib_ustb_edu_cn=([^;]*)",
    };
    first_capture(pattern, set_cookie)
}

pub open spec fn check_code_pattern() -> Seq<char> {
    "var checkcode=\"([^\"]*)\";"@
}

/// The check code embedded in the login page.
pub fn check_code(page: &str) -> (r: Option<String>)
    ensures
        opt_text(r) == capture_of(check_code_pattern(), page@),
{
    first_capture("var checkcode=\"([^\"]*)\";", page)
}

pub open spec fn captcha_pattern() -> Seq<char> {
    "name=\"captcha_id\" value=\"([^\"]*)\""@
}

/// The `captcha_id` field of the tunnel gateway's login page.
pub fn captcha_id(page: &str) -> (r: Option<String>)
    ensures
        opt_text(r) == capture_of(captcha_pattern(), page@),
{
    first_capture("name=\"captcha_id\" value=\"([^\"]*)\"", page)
}

pub open spec fn user_flow_base(via_vpn: bool) -> Seq<char> {
    if via_vpn {
        "https://elib.ustb.edu.cn/http-801/77726476706e69737468656265737421a2a713d275603c1e2a50c7face/eportal/portal/visitor/loadUserFlow?account="@
    } else {
        "http://202.204.48.66:801/eportal/portal/visitor/loadUserFlow?account="@
    }
}

/// The URL of the gateway's per-account flow counter.
pub fn user_flow_url(account: &str, via_vpn: bool) -> (r: String)
    ensures
        r@ == user_flow_base(via_vpn) + account@,
{
    let base = if via_vpn {
        "https://elib.ustb.edu.cn/http-801/77726476706e69737468656265737421a2a713d275603c1e2a50c7face/eportal/portal/visitor/loadUserFlow?account="
    } else {
        "http://202.204.48.66:801/eportal/portal/visitor/loadUserFlow?account="
    };
    String::from_str(base).concat(account)
}

pub open spec fn jsonp_pattern() -> Seq<char> {
    "jsonpReturn\\((.*)\\);"@
}

/// The JSON text inside the flow counter's JSONP reply.
pub fn user_flow_payload(body: &str) -> (r: Option<String>)
    ensures
        opt_text(r) == capture_of(jsonp_pattern(), body@),
{
    first_capture("jsonpReturn\\((.*)\\);", body)
}

/// The account blurb, unless the session has expired.
pub fn refresh_account_of(body: &str) -> (r: Result<String, PortalError>)
    ensures
        has_infix(body@, relogin_marker()) ==> r == Err::<String, PortalError>(
            PortalError::SessionExpired,
        ),
        !has_infix(body@, relogin_marker()) ==> (r matches Ok(s) && s@ == body@),
{
    check_session(body)?;
    Ok(String::from_str(body))
}

/// Outcome of a login-log response given its summary and table cells: an
/// expired session first, then the decoded log or its error.
pub open spec fn login_response_of(body: Seq<char>, summary: Seq<Seq<char>>, cells: Seq<Seq<char>>) -> Result<
    LogSpec,
    PortalError,
> {
    if has_infix(body, relogin_marker()) {
        Err(PortalError::SessionExpired)
    } else {
        login_log_of(summary, cells)
    }
}

/// Decodes a login-log response whose cells were already extracted.
pub fn login_log_from_cells(body: &str, summary: &Vec<String>, cells: &Vec<String>) -> (r: Result<
    UserLoginLog,
    PortalError,
>)
    ensures
        match login_response_of(body@, texts(summary@), texts(cells@)) {
            Ok(l) => r matches Ok(v) && v@ == l,
            Err(e) => r matches Err(x) && x == e,
        },
{
    match check_session(body) {
        Err(e) => Err(e),
        Ok(()) => decode_login_log(summary, cells),
    }
}

/// Decodes a login-log response page.
pub fn login_log_response(body: &str) -> (r: Result<UserLoginLog, PortalError>)
    ensures
        match login_response_of(
            body@,
            selected_texts_of(body@, summary_selector()),
            selected_texts_of(body@, cell_selector()),
        ) {
            Ok(l) => r matches Ok(v) && v@ == l,
            Err(e) => r matches Err(x) && x == e,
        },
{
    let summary = select_texts(body, ".redtext");
    let cells = select_texts(body, ".table4 > tbody > tr > td");
    login_log_from_cells(body, &summary, &cells)
}

/// An expired session is never taken for an empty range, nor the reverse:
/// the outcome is `SessionExpired` exactly when the body carries the relogin
/// marker, and `NoDataForRange` exactly when it does not and the summary row
/// is absent.
pub proof fn lemma_expired_and_no_data_apart(
    body: Seq<char>,
    summary: Seq<Seq<char>>,
    cells: Seq<Seq<char>>,
)
    ensures
        login_response_of(body, summary, cells) == Err::<LogSpec, PortalError>(
            PortalError::SessionExpired,
        ) <==> has_infix(body, relogin_marker()),
        login_response_of(body, summary, cells) == Err::<LogSpec, PortalError>(
            PortalError::NoDataForRange,
        ) <==> (!has_infix(body, relogin_marker()) && summary.len() == 0),
{
}

/// Outcome of a yearly-summary response given its cells.
pub open spec fn month_pay_response_of(body: Seq<char>, summary: Seq<Seq<char>>, cells: Seq<Seq<char>>) -> Result<
    YearSpec,
    PortalError,
> {
    if has_infix(body, relogin_marker()) {
        Err(PortalError::SessionExpired)
    } else {
        match month_pay_of(summary, cells) {
            Some(y) => Ok(y),
            None => Err(PortalError::DecodeError),
        }
    }
}

/// Decodes a yearly-summary response whose cells were already extracted.
pub fn month_pay_from_cells(body: &str, summary: &Vec<String>, cells: &Vec<String>) -> (r: Result<
    MonthPayInfo,
    PortalError,
>)
    ensures
        match month_pay_response_of(body@, texts(summary@), texts(cells@)) {
            Ok(y) => r matches Ok(v) && v@ == y,
            Err(e) => r matches Err(x) && x == e,
        },
{
    check_session(body)?;
    match decode_month_pay(summary, cells) {
        Some(v) => Ok(v),
        None => Err(PortalError::DecodeError),
    }
}

/// Decodes a yearly-summary response page.
pub fn month_pay_response(body: &str) -> (r: Result<MonthPayInfo, PortalError>)
    ensures
        match month_pay_response_of(
            body@,
            selected_texts_of(body@, summary_selector()),
            selected_texts_of(body@, cell_selector()),
        ) {
            Ok(y) => r matches Ok(v) && v@ == y,
            Err(e) => r matches Err(x) && x == e,
        },
{
    let summary = select_texts(body, ".redtext");
    let cells = select_texts(body, ".table4 > tbody > tr > td");
    month_pay_from_cells(body, &summary, &cells)
}

pub open spec fn pair_key(p: (String, String)) -> Seq<char> {
    p.0@
}

/// The label stored for `mac`, or empty.
pub open spec fn custom_name_of(names: Seq<(String, String)>, mac: Seq<char>) -> Seq<char>
    decreases names.len(),
{
    if names.len() == 0 {
        Seq::empty()
    } else if names[0].0@ == mac {
        names[0].1@
    } else {
        custom_name_of(names.drop_first(), mac)
    }
}

pub fn lookup_custom_name(names: &Vec<(String, String)>, mac: &String) -> (r: String)
    ensures
        r@ == custom_name_of(names@, mac@),
{
    let mut i: usize = 0;
    assert(names@.skip(0) == names@);
    while i < names.len()
        invariant
            i <= names.len(),
            custom_name_of(names@, mac@) == custom_name_of(names@.skip(i as int), mac@),
        decreases names.len() - i,
    {
        assert(names@.skip(i as int).drop_first() == names@.skip(i + 1));
        if names[i].0 == *mac {
            return names[i].1.clone();
        }
        i = i + 1;
    }
    String::new()
}

/// Bound devices: names and addresses paired by position (the shorter list
/// decides the count), each with its stored label.
pub open spec fn macs_of(
    devices: Seq<Seq<char>>,
    macs: Seq<Seq<char>>,
    names: Seq<(String, String)>,
    i: int,
) -> MacSpec {
    MacSpec {
        device_name: devices[i],
        mac_address: macs[i],
        custom_name: custom_name_of(names, macs[i]),
    }
}

pub fn pair_macs(devices: &Vec<String>, macs: &Vec<String>, names: &Vec<(String, String)>) -> (r:
    Vec<MacAddress>)
    ensures
        r.len() == if devices.len() < macs.len() {
            devices.len()
        } else {
            macs.len()
        },
        forall|i: int|
            0 <= i < r.len() ==> #[trigger] r@[i]@ == macs_of(texts(devices@), texts(macs@), names@, i),
{
    let n = if devices.len() < macs.len() {
        devices.len()
    } else {
        macs.len()
    };
    let mut r: Vec<MacAddress> = Vec::new();
    let mut i: usize = 0;
    while i < n
        invariant
            i <= n,
            n <= devices.len(),
            n <= macs.len(),
            r.len() == i,
            forall|j: int|
                0 <= j < i ==> #[trigger] r@[j]@ == macs_of(texts(devices@), texts(macs@), names@, j),
        decreases n - i,
    {
        let custom = lookup_custom_name(names, &macs[i]);
        r.push(
            MacAddress {
                device_name: devices[i].clone(),
                mac_address: macs[i].clone(),
                custom_name: custom,
            },
        );
        i = i + 1;
    }
    r
}

pub open spec fn device_selector() -> Seq<char> {
    ".row > .v-col:first-of-type input[type=\"text\"]"@
}

pub open spec fn mac_selector() -> Seq<char> {
    ".row > .v-col:nth-of-type(2) input[type=\"text\"][name=\"macs\"]"@
}

/// Decodes the bound-device page.
pub fn mac_list_response(body: &str, names: &Vec<(String, String)>) -> (r: Result<
    Vec<MacAddress>,
    PortalError,
>)
    ensures
        has_infix(body@, relogin_marker()) ==> r == Err::<Vec<MacAddress>, PortalError>(
            PortalError::SessionExpired,
        ),
        !has_infix(body@, relogin_marker()) ==> (r matches Ok(v) && {
            let d = selected_attrs_of(body@, device_selector(), "value"@);
            let m = selected_attrs_of(body@, mac_selector(), "value"@);
            &&& v.len() == if d.len() < m.len() {
                d.len()
            } else {
                m.len()
            }
            &&& forall|i: int| 0 <= i < v.len() ==> #[trigger] v@[i]@ == macs_of(d, m, names@, i)
        }),
{
    check_session(body)?;
    let devices = select_attrs(body, ".row > .v-col:first-of-type input[type=\"text\"]", "value");
    let macs = select_attrs(
        body,
        ".row > .v-col:nth-of-type(2) input[type=\"text\"][name=\"macs\"]",
        "value",
    );
    Ok(pair_macs(&devices, &macs, names))
}

/// The listed addresses joined by semicolons, last first.
pub open spec fn joined_reversed(s: Seq<Seq<char>>) -> Seq<char>
    decreases s.len(),
{
    if s.len() == 0 {
        Seq::empty()
    } else if s.len() == 1 {
        s[0]
    } else {
        s.last() + ";"@ + joined_reversed(s.drop_last())
    }
}

/// The `macStr` field of an unbind request: the addresses joined by
/// semicolons, last first. The portal unbinds every bound address that is
/// NOT listed: callers pass the addresses to keep.
pub fn unbind_field(keep: &Vec<String>) -> (r: String)
    ensures
        r@ == joined_reversed(texts(keep@)),
{
    let mut r = String::new();
    let mut i: usize = 0;
    while i < keep.len()
        invariant
            i <= keep.len(),
            r@ == joined_reversed(texts(keep@).take(i as int)),
        decreases keep.len() - i,
    {
        assert(texts(keep@).take(i + 1).drop_last() == texts(keep@).take(i as int));
        assert(texts(keep@).take(i + 1).last() == keep@[i as int]@);
        if i == 0 {
            r = keep[i].clone();
        } else {
            r = keep[i].clone().concat(";").concat(r.as_str());
        }
        i = i + 1;
    }
    assert(texts(keep@).take(keep.len() as int) == texts(keep@));
    r
}

/// Form of an unbind request: the keep-list field and the submit button.
#[derive(Debug)]
pub struct UnbindForm {
    pub mac_str: String,
    pub submit: String,
}

/// The unbind form that keeps `keep` bound and unbinds every other address.
pub fn unbind_form(keep: &Vec<String>) -> (r: UnbindForm)
    ensures
        r.mac_str@ == joined_reversed(texts(keep@)),
        r.submit@ == "解绑"@,
{
    UnbindForm { mac_str: unbind_field(keep), submit: String::from_str("解绑") }
}

/// Entries of `s` that are not in `remove`, in order.
pub open spec fn without(s: Seq<Seq<char>>, remove: Seq<Seq<char>>) -> Seq<Seq<char>>
    decreases s.len(),
{
    if s.len() == 0 {
        Seq::empty()
    } else if remove.contains(s.last()) {
        without(s.drop_last(), remove)
    } else {
        without(s.drop_last(), remove).push(s.last())
    }
}

fn member(v: &Vec<String>, x: &String) -> (r: bool)
    ensures
        r == texts(v@).contains(x@),
{
    let mut i: usize = 0;
    while i < v.len()
        invariant
            i <= v.len(),
            forall|j: int| 0 <= j < i ==> v@[j]@ != x@,
        decreases v.len() - i,
    {
        if v[i] == *x {
            assert(texts(v@)[i as int] == x@);
            return true;
        }
        i = i + 1;
    }
    assert(!texts(v@).contains(x@)) by {
        if texts(v@).contains(x@) {
            let j = choose|j: int| 0 <= j < texts(v@).len() && texts(v@)[j] == x@;
            assert(v@[j]@ == x@);
        }
    }
    false
}

/// `s` without the entries listed in `remove`.
pub fn filter_out(s: &Vec<String>, remove: &Vec<String>) -> (r: Vec<String>)
    ensures
        texts(r@) == without(texts(s@), texts(remove@)),
{
    let mut r: Vec<String> = Vec::new();
    let mut i: usize = 0;
    while i < s.len()
        invariant
            i <= s.len(),
            texts(r@) == without(texts(s@).take(i as int), texts(remove@)),
        decreases s.len() - i,
    {
        assert(texts(s@).take(i + 1).drop_last() == texts(s@).take(i as int));
        assert(texts(s@).take(i + 1).last() == s@[i as int]@);
        if !member(remove, &s[i]) {
            let ghost before = r@;
            r.push(s[i].clone());
            assert(texts(r@) == texts(before).push(s@[i as int]@));
        }
        i = i + 1;
    }
    assert(texts(s@).take(s.len() as int) == texts(s@));
    r
}

/// What an unbind request that keeps `keep` releases from `bound`.
pub fn released_macs(bound: &Vec<String>, keep: &Vec<String>) -> (r: Vec<String>)
    ensures
        texts(r@) == without(texts(bound@), texts(keep@)),
{
    filter_out(bound, keep)
}

/// The keep-list that frees this device's addresses: every bound address but
/// those of the device. `None` when none of the device's addresses is bound.
pub fn macs_to_keep(bound: &Vec<String>, device: &Vec<String>) -> (r: Option<Vec<String>>)
    ensures
        without(texts(bound@), texts(device@)).len() == bound.len() ==> r is None,
        without(texts(bound@), texts(device@)).len() != bound.len() ==> (r matches Some(v) && texts(
            v@,
        ) == without(texts(bound@), texts(device@))),
{
    let keep = filter_out(bound, device);
    proof {
        assert(texts(keep@).len() == keep.len());
        assert(texts(bound@).len() == bound.len());
    }
    if keep.len() == bound.len() {
        None
    } else {
        Some(keep)
    }
}

} // verus!
