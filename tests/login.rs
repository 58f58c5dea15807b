use ustb_portal::login::{LoginEvent, LoginFlow, LoginStep, Phase};
use ustb_portal::model::PortalError;
use ustb_portal::portal::AccountMode;

fn page(set_cookie: Option<&str>, body: &str) -> LoginEvent {
    LoginEvent::Reply { set_cookie: set_cookie.map(|s| s.to_string()), body: body.to_string() }
}

fn run_to_submit(flow: &mut LoginFlow) -> (String, String, String) {
    match flow.advance(LoginEvent::Resumed) {
        LoginStep::Warmup { .. } => {}
        other => panic!("expected warm-up, got {other:?}"),
    }
    match flow.advance(page(None, "")) {
        LoginStep::Pause { millis } => assert_eq!(millis, 10),
        other => panic!("expected pause, got {other:?}"),
    }
    match flow.advance(LoginEvent::Resumed) {
        LoginStep::Submit { url, cookie, body } => (url, cookie, body),
        other => panic!("expected submit, got {other:?}"),
    }
}

#[test]
fn direct_handshake_in_order() {
    let mut flow = LoginFlow::new(AccountMode::Direct, "U1".to_string(), "password".to_string());
    match flow.advance(LoginEvent::Begin) {
        LoginStep::Get { url, cookie } => {
            assert_eq!(url, "http://202.204.60.7:8080/nav_login");
            assert_eq!(cookie, None);
        }
        other => panic!("unexpected {other:?}"),
    }
    match flow.advance(page(Some("JSESSIONID=ABC; Path=/"), "var checkcode=\"77\";")) {
        LoginStep::Pause { millis } => assert_eq!(millis, 10),
        other => panic!("unexpected {other:?}"),
    }
    assert_eq!(flow.phase(), Phase::BeforeWarmup);
    let (url, cookie, body) = run_to_submit(&mut flow);
    assert_eq!(url, "http://202.204.60.7:8080/LoginAction.action");
    assert_eq!(cookie, "JSESSIONID=ABC");
    assert_eq!(
        body,
        "account=U1&password=5f4dcc3b5aa765d61d8327deb882cf99&code=&checkcode=77&Submit=%E7%99%BB+%E5%BD%95"
    );
    match flow.advance(page(None, "<html>welcome</html>")) {
        LoginStep::Done { token } => assert_eq!(token, Some("ABC".to_string())),
        other => panic!("unexpected {other:?}"),
    }
    assert_eq!(flow.phase(), Phase::Over);
}

#[test]
fn direct_handshake_rejected() {
    let mut flow = LoginFlow::new(AccountMode::Direct, "U1".to_string(), "bad".to_string());
    flow.advance(LoginEvent::Begin);
    flow.advance(page(Some("JSESSIONID=X"), "var checkcode=\"1\";"));
    run_to_submit(&mut flow);
    match flow.advance(page(None, "账号或密码出现错误！")) {
        LoginStep::Done { token } => assert_eq!(token, None),
        other => panic!("unexpected {other:?}"),
    }
}

#[test]
fn missing_cookie_or_code_fails() {
    let mut flow = LoginFlow::new(AccountMode::Direct, "U1".to_string(), "p".to_string());
    flow.advance(LoginEvent::Begin);
    match flow.advance(page(None, "var checkcode=\"1\";")) {
        LoginStep::Failed { error } => assert_eq!(error, PortalError::DecodeError),
        other => panic!("unexpected {other:?}"),
    }
    let mut flow = LoginFlow::new(AccountMode::Direct, "U1".to_string(), "p".to_string());
    flow.advance(LoginEvent::Begin);
    assert!(matches!(flow.advance(page(Some("JSESSIONID=X"), "<html/>")), LoginStep::Failed { .. }));
}

#[test]
fn events_out_of_turn_fail() {
    let mut flow = LoginFlow::new(AccountMode::Direct, "U1".to_string(), "p".to_string());
    assert!(matches!(flow.advance(LoginEvent::Resumed), LoginStep::Failed { .. }));
    assert!(matches!(flow.advance(LoginEvent::Begin), LoginStep::Failed { .. }));
}

#[test]
fn tunnel_handshake_in_order() {
    let mut flow = LoginFlow::new(AccountMode::ViaVpnTunnel, "U2".to_string(), "password".to_string());
    match flow.advance(LoginEvent::Begin) {
        LoginStep::Get { url, cookie } => {
            assert_eq!(url, "https://elib.ustb.edu.cn/login");
            assert_eq!(cookie, None);
        }
        other => panic!("unexpected {other:?}"),
    }
    match flow.advance(page(
        Some("wengine_vpn_ticketelib_ustb_edu_cn=T1; path=/"),
        "<input name=\"captcha_id\" value=\"c9\">",
    )) {
        LoginStep::GatewayLogin { cookie, captcha_id } => {
            assert_eq!(cookie, "show_vpn=0; show_faq=0; wengine_vpn_ticketelib_ustb_edu_cn=T1");
            assert_eq!(captcha_id, "c9");
        }
        other => panic!("unexpected {other:?}"),
    }
    match flow.advance(page(None, "ok")) {
        LoginStep::Get { url, cookie } => {
            assert_eq!(
                url,
                "https://elib.ustb.edu.cn/http-8080/77726476706e69737468656265737421a2a713d275603c1e2858c7fb/nav_login"
            );
            assert_eq!(cookie, Some("wengine_vpn_ticketelib_ustb_edu_cn=T1".to_string()));
        }
        other => panic!("unexpected {other:?}"),
    }
    assert!(matches!(flow.advance(page(None, "var checkcode=\"5\";")), LoginStep::Pause { .. }));
    let (_, cookie, _) = run_to_submit(&mut flow);
    assert_eq!(cookie, "wengine_vpn_ticketelib_ustb_edu_cn=T1");
    match flow.advance(page(None, "fine")) {
        LoginStep::Done { token } => assert_eq!(token, Some("T1".to_string())),
        other => panic!("unexpected {other:?}"),
    }
}

#[test]
fn tunnel_gateway_rejects() {
    let mut flow = LoginFlow::new(AccountMode::ViaVpnTunnel, "U2".to_string(), "bad".to_string());
    flow.advance(LoginEvent::Begin);
    flow.advance(page(Some("wengine_vpn_ticketelib_ustb_edu_cn=T1"), "name=\"captcha_id\" value=\"c\""));
    match flow.advance(page(None, "用户名或密码错误")) {
        LoginStep::Done { token } => assert_eq!(token, None),
        other => panic!("unexpected {other:?}"),
    }
}
