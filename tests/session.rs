use ustb_portal::calendar::CalendarDate;
use ustb_portal::client::{
    captcha_id, check_code, gateway_login_rejected, login_form_body, login_log_form,
    login_log_form_between, login_outcome, macs_to_keep, refresh_account_of, released_macs,
    session_cookie, unbind_field, user_flow_payload, user_flow_url, month_pay_form, unbind_form,
};
use ustb_portal::model::{AmmeterData, PortalError};
use ustb_portal::portal::{check_session, cookie_header, endpoint_url, AccountMode, Endpoint, Session};
use ustb_portal::setting::{local_name, AppState, CurrentUser, LocalUserError, Setting};

fn strings(v: &[&str]) -> Vec<String> {
    v.iter().map(|s| s.to_string()).collect()
}

#[test]
fn unbinding_keeps_the_listed_addresses() {
    let bound = strings(&["A", "B", "C"]);
    let keep = strings(&["A", "B"]);
    assert_eq!(released_macs(&bound, &keep), strings(&["C"]));
    assert_eq!(unbind_field(&keep), "B;A");
    assert_eq!(unbind_field(&strings(&["A", "B", "C"])), "C;B;A");
    assert_eq!(unbind_field(&Vec::new()), "");
    assert_eq!(unbind_field(&strings(&["A"])), "A");
}

#[test]
fn keep_list_that_frees_this_device() {
    let bound = strings(&["AA", "BB", "CC"]);
    assert_eq!(macs_to_keep(&bound, &strings(&["BB", "ZZ"])), Some(strings(&["AA", "CC"])));
    assert_eq!(macs_to_keep(&bound, &strings(&["ZZ"])), None);
}

#[test]
fn login_log_form_around_cutoff() {
    let f = login_log_form(
        CalendarDate { year: 2023, month: 7, day: 15 },
        CalendarDate { year: 2023, month: 7, day: 31 },
    );
    assert_eq!(f.kind, 3);
    assert_eq!(f.month, "CHECKER.TBLUSERLOGIN202307");
    assert_eq!(f.start_date, "2023-07-15");
    assert_eq!(f.end_date, "2023-07-31");
    let f = login_log_form(
        CalendarDate { year: 2023, month: 8, day: 1 },
        CalendarDate { year: 2023, month: 8, day: 31 },
    );
    assert_eq!(f.kind, 4);
    assert_eq!(f.month, "CHECKER.TBLUSERLOGIN202304");
    let f = login_log_form(
        CalendarDate { year: 2022, month: 12, day: 1 },
        CalendarDate { year: 2022, month: 12, day: 31 },
    );
    assert_eq!(f.month, "CHECKER.TBLUSERLOGIN202212");
    let f = login_log_form_between(1714521600, 1714521600 + 30 * 86400).unwrap();
    assert_eq!(f.start_date, "2024-05-01");
    assert_eq!(f.end_date, "2024-05-31");
    assert_eq!(f.kind, 4);
    assert!(login_log_form_between(10, 5).is_none());
}

#[test]
fn credential_post_body_hashes_the_password() {
    let body = login_form_body("U2021", "password", "abcd");
    assert_eq!(
        body,
        "account=U2021&password=5f4dcc3b5aa765d61d8327deb882cf99&code=&checkcode=abcd&Submit=%E7%99%BB+%E5%BD%95"
    );
}

#[test]
fn login_reply_classification() {
    assert_eq!(login_outcome("<p>welcome</p>", "TOKEN".to_string()), Some("TOKEN".to_string()));
    assert_eq!(login_outcome("<p>账号或密码出现错误！</p>", "TOKEN".to_string()), None);
    assert_eq!(login_outcome("登录密码不正确", "TOKEN".to_string()), None);
    assert!(gateway_login_rejected("用户名或密码错误"));
    assert!(!gateway_login_rejected("ok"));
}

#[test]
fn handshake_extraction() {
    assert_eq!(session_cookie("JSESSIONID=ABC123; Path=/; HttpOnly", AccountMode::Direct), Some("ABC123".to_string()));
    assert_eq!(
        session_cookie("wengine_vpn_ticketelib_ustb_edu_cn=f00d; path=/", AccountMode::ViaVpnTunnel),
        Some("f00d".to_string())
    );
    assert_eq!(session_cookie("other=1", AccountMode::Direct), None);
    assert_eq!(check_code("<script>var checkcode=\"4821\";</script>"), Some("4821".to_string()));
    assert_eq!(check_code("<html></html>"), None);
    assert_eq!(captcha_id("<input name=\"captcha_id\" value=\"xyz\">"), Some("xyz".to_string()));
}

#[test]
fn urls_and_cookies_follow_the_mode() {
    assert_eq!(
        endpoint_url(AccountMode::Direct, Endpoint::LoginLog),
        Some("http://202.204.60.7:8080/UserLoginLogAction.action".to_string())
    );
    assert_eq!(
        endpoint_url(AccountMode::ViaVpnTunnel, Endpoint::MonthPay),
        Some("https://elib.ustb.edu.cn/http-8080/77726476706e69737468656265737421a2a713d275603c1e2858c7fb/MonthPayAction.action".to_string())
    );
    assert_eq!(endpoint_url(AccountMode::LocalOnly, Endpoint::MacList), None);
    assert_eq!(cookie_header(AccountMode::Direct, "abc"), Some("JSESSIONID=abc".to_string()));
    assert_eq!(
        cookie_header(AccountMode::ViaVpnTunnel, "abc"),
        Some("wengine_vpn_ticketelib_ustb_edu_cn=abc".to_string())
    );
    assert_eq!(cookie_header(AccountMode::LocalOnly, "abc"), None);
}

#[test]
fn relogin_marker_means_expired() {
    assert_eq!(check_session("<a href='nav_login'>"), Err(PortalError::SessionExpired));
    assert_eq!(check_session("<table></table>"), Ok(()));
    assert_eq!(refresh_account_of("Name: someone"), Ok("Name: someone".to_string()));
    assert_eq!(refresh_account_of("nav_login"), Err(PortalError::SessionExpired));
}

#[test]
fn session_lifecycle() {
    let mut s = Session::new();
    assert_eq!(s.network_token(), Err(PortalError::SessionRequired));
    assert_eq!(s.logout(), Err(PortalError::SessionRequired));
    s.login("tok".to_string(), true);
    assert_eq!(s.mode(), AccountMode::ViaVpnTunnel);
    assert_eq!(s.network_token(), Ok("tok".to_string()));
    s.enter_local();
    assert_eq!(s.mode(), AccountMode::LocalOnly);
    assert_eq!(s.token(), Some("local".to_string()));
    assert_eq!(s.network_token(), Err(PortalError::SessionRequired));
    assert_eq!(s.logout(), Ok(()));
    assert_eq!(s.mode(), AccountMode::Direct);
    assert_eq!(s.token(), None);
}

#[test]
fn accounts_move_to_front() {
    let mut s = Setting::new();
    s.set_account("a".to_string(), "1".to_string());
    s.set_account("b".to_string(), "2".to_string());
    s.set_account("c".to_string(), "3".to_string());
    s.set_account("a".to_string(), "1".to_string());
    assert_eq!(
        s.account,
        vec![
            ("a".to_string(), "1".to_string()),
            ("c".to_string(), "3".to_string()),
            ("b".to_string(), "2".to_string())
        ]
    );
    s.set_account("b".to_string(), "new".to_string());
    assert_eq!(s.account[0], ("b".to_string(), "new".to_string()));
    assert_eq!(s.account.len(), 3);
    assert!(s.has_local_account("c"));
    assert!(!s.has_local_account("d"));
}

#[test]
fn labels_and_preferences() {
    let mut s = Setting::new();
    s.set_mac_custom_name("AA", "desk");
    s.set_mac_custom_name("BB", "phone");
    s.set_mac_custom_name("AA", "laptop");
    assert_eq!(
        s.mac_custom_name,
        vec![("AA".to_string(), "laptop".to_string()), ("BB".to_string(), "phone".to_string())]
    );
    s.set_ammeter_number(12345678);
    s.set_background_transparence(80);
    s.set_background_blur(5);
    s.set_collapsed(true);
    assert_eq!(s.ammeter_number, Some(12345678));
    assert_eq!(s.background_transparence, Some(80));
    assert_eq!(s.background_blur, Some(5));
    assert_eq!(s.collapsed, Some(true));
}

#[test]
fn local_accounts() {
    let mut s = Setting::new();
    let online = CurrentUser::OnlineUser("U2021".to_string());
    assert_eq!(online.new_local_user(&mut s), Ok("local_U2021".to_string()));
    assert_eq!(online.new_local_user(&mut s), Err(LocalUserError::AlreadyExists));
    let local = CurrentUser::LocalUser("local_U2021".to_string());
    assert_eq!(local.new_local_user(&mut s), Err(LocalUserError::NotOnline));
    assert_eq!(online.local_data_dir(), "local_U2021");
    assert_eq!(local.local_data_dir(), "local_U2021");
    assert!(local_name("local_U2021"));
    assert!(!local_name("loca"));
    assert!(!local_name("U2021"));
}

#[test]
fn app_state_logins() {
    let mut st = AppState::new(Setting::new());
    assert_eq!(st.login_local("local_x"), Err(PortalError::CredentialsRejected));
    let r = st.finish_login("u".to_string(), "p".to_string(), None, false);
    assert_eq!(r, Err(PortalError::CredentialsRejected));
    assert_eq!(st.session.token(), None);
    let r = st.finish_login("u".to_string(), "p".to_string(), Some("T".to_string()), false);
    assert_eq!(r, Ok("T".to_string()));
    assert_eq!(st.session.mode(), AccountMode::Direct);
    assert_eq!(st.setting.account[0], ("u".to_string(), "p".to_string()));
    st.setting.set_account("local_u".to_string(), String::new());
    assert_eq!(st.login_local("local_u"), Ok(()));
    assert_eq!(st.session.mode(), AccountMode::LocalOnly);
}

#[test]
fn user_flow_endpoint() {
    assert_eq!(
        user_flow_url("U1", false),
        "http://202.204.48.66:801/eportal/portal/visitor/loadUserFlow?account=U1"
    );
    assert_eq!(
        user_flow_payload("jsonpReturn({\"result\":1});"),
        Some("{\"result\":1}".to_string())
    );
    assert_eq!(user_flow_payload("{}"), None);
}

#[test]
fn meter_reading() {
    use_meter(" 12", None);
    use_meter("123", Some(123));
    use_meter("-45", Some(-45));
    use_meter("+7", Some(7));
    use_meter("2147483647", Some(i32::MAX));
    use_meter("2147483648", None);
    use_meter("-2147483648", Some(i32::MIN));
    use_meter("-", None);
    use_meter("", None);
}

fn use_meter(key: &str, expected: Option<i32>) {
    let data = AmmeterData { service_key: key.to_string(), message: String::new(), status_code: "200".to_string() };
    assert_eq!(data.remaining(), expected);
}

#[test]
fn request_forms() {
    let f = month_pay_form(2024);
    assert_eq!(f.kind, "1");
    assert_eq!(f.year, "2024");
    assert_eq!(month_pay_form(7).year, "7");
    let u = unbind_form(&strings(&["A", "B"]));
    assert_eq!(u.mac_str, "B;A");
    assert_eq!(u.submit, "解绑");
    assert_eq!(unbind_form(&Vec::new()).mac_str, "");
}
