//! The login handshake as a state machine. Each event (a page that came back,
//! a pause that ended) yields the one next step; the steps run strictly in
//! turn because each needs the cookie state the one before left on the server.
use vstd::prelude::*;

use crate::bindings::capture_of;
use crate::client::{
    captcha_id, captcha_pattern, check_code, check_code_pattern, cookie_pattern, gateway_login_rejected,
    gateway_rejected, login_body_of, login_form_body, login_outcome, wrong_credentials,
    wrong_password,
};
use crate::model::PortalError;
use crate::portal::{base_of, cookie_header, cookie_name_of, endpoint_url, path_of, AccountMode, Endpoint};
use crate::text::has_infix;

verus! {

/// Where a handshake stands.
#[derive(Debug, Clone, Copy, PartialEq, Eq, Structural)]
pub enum Phase {
    Idle,
    /// Waiting for the tunnel gateway's login page.
    GatewayPage,
    /// Waiting for the tunnel gateway's reply to the credentials.
    GatewayReply,
    /// Waiting for the portal's login page.
    LoginPage,
    /// Pausing before the random-code warm-up.
    BeforeWarmup,
    /// Waiting for the random-code reply.
    Warmup,
    /// Pausing before the credential POST.
    BeforeSubmit,
    /// Waiting for the reply to the credential POST.
    Submitted,
    Over,
}

/// What happened since the last step.
#[derive(Debug)]
pub enum LoginEvent {
    /// The handshake starts.
    Begin,
    /// A reply came back: its first `Set-Cookie` header, if any, and its body.
    Reply { set_cookie: Option<String>, body: String },
    /// The requested pause is over.
    Resumed,
}

/// What to do next.
#[derive(Debug)]
pub enum LoginStep {
    /// GET `url`, with the `Cookie` header when given.
    Get { url: String, cookie: Option<String> },
    /// GET the random-code image at `url`, whose query ends in `randomNum=`,
    /// with a fresh random number appended.
    Warmup { url: String, cookie: String },
    /// POST the tunnel gateway's login form with the account, the password and
    /// this `captcha_id`.
    GatewayLogin { cookie: String, captcha_id: String },
    /// POST `body` as a url-encoded form to `url`.
    Submit { url: String, cookie: String, body: String },
    /// Wait this many milliseconds.
    Pause { millis: u64 },
    /// Finished: the token, or `None` when the credentials were rejected.
    Done { token: Option<String> },
    /// Finished: the handshake failed.
    Failed { error: PortalError },
}

/// One login attempt through one transport.
#[derive(Debug)]
pub struct LoginFlow {
    mode: AccountMode,
    account: String,
    password: String,
    phase: Phase,
    token: String,
    code: String,
}

pub struct FlowView {
    pub mode: AccountMode,
    pub account: Seq<char>,
    pub password: Seq<char>,
    pub phase: Phase,
    pub token: Seq<char>,
    pub code: Seq<char>,
}

impl View for LoginFlow {
    type V = FlowView;

    closed spec fn view(&self) -> FlowView {
        FlowView {
            mode: self.mode,
            account: self.account@,
            password: self.password@,
            phase: self.phase,
            token: self.token@,
            code: self.code@,
        }
    }
}

pub open spec fn opt_view(s: Option<String>) -> Option<Seq<char>> {
    match s {
        Some(x) => Some(x@),
        None => None,
    }
}

pub open spec fn gateway_base() -> Seq<char> {
    "https://elib.ustb.edu.cn/login"@
}

/// The cookie of a tunnel session as the gateway's login form wants it.
pub open spec fn gateway_cookie(token: Seq<char>) -> Seq<char> {
    "show_vpn=0; show_faq=0; "@ + cookie_name_of(AccountMode::ViaVpnTunnel) + "="@ + token
}

pub open spec fn portal_cookie(mode: AccountMode, token: Seq<char>) -> Seq<char> {
    cookie_name_of(mode) + "="@ + token
}

/// Query of the random-code request, up to its random number; the tunnel
/// wants its own marker first.
pub open spec fn warmup_query(mode: AccountMode) -> Seq<char> {
    if mode == AccountMode::Direct {
        "?randomNum="@
    } else {
        "?vpn-1&randomNum="@
    }
}

pub open spec fn portal_url(mode: AccountMode, e: Endpoint) -> Seq<char> {
    base_of(mode) + path_of(e)
}

impl LoginFlow {
    /// A handshake for `mode`, which must be a network mode.
    pub fn new(mode: AccountMode, account: String, password: String) -> (r: Self)
        requires
            mode != AccountMode::LocalOnly,
        ensures
            r@.mode == mode,
            r@.account == account@,
            r@.password == password@,
            r@.phase == Phase::Idle,
    {
        LoginFlow { mode, account, password, phase: Phase::Idle, token: String::new(), code: String::new() }
    }

    pub fn phase(&self) -> (r: Phase)
        ensures
            r == self@.phase,
    {
        self.phase
    }

    fn fail(&mut self) -> (r: LoginStep)
        ensures
            r matches LoginStep::Failed { error } && error == PortalError::DecodeError,
            final(self)@.phase == Phase::Over,
            final(self)@.mode == old(self)@.mode,
            final(self)@.account == old(self)@.account,
            final(self)@.password == old(self)@.password,
    {
        self.phase = Phase::Over;
        LoginStep::Failed { error: PortalError::DecodeError }
    }

    fn pause(&mut self, next: Phase) -> (r: LoginStep)
        ensures
            r matches LoginStep::Pause { millis } && millis == 10,
            final(self)@ == (FlowView { phase: next, ..old(self)@ }),
    {
        self.phase = next;
        LoginStep::Pause { millis: 10 }
    }

    /// Takes the next event and returns the next step.
    ///
    /// Direct: login page (its cookie and check code), pause, random-code
    /// warm-up, pause, credential POST, outcome. Through the tunnel the
    /// gateway's own login (its cookie and `captcha_id`, then the credentials)
    /// comes first, and the portal's login page is fetched with the gateway's
    /// cookie, which becomes the token. An event out of turn, or a page without
    /// the expected cookie or field, fails the handshake.
    pub fn advance(&mut self, ev: LoginEvent) -> (r: LoginStep)
        requires
            old(self)@.mode != AccountMode::LocalOnly,
        ensures
            final(self)@.mode == old(self)@.mode,
            final(self)@.account == old(self)@.account,
            final(self)@.password == old(self)@.password,
            // starting
            old(self)@.phase == Phase::Idle && ev is Begin && old(self)@.mode == AccountMode::Direct
                ==> (r matches LoginStep::Get { url, cookie } && url@ == portal_url(
                AccountMode::Direct,
                Endpoint::NavLogin,
            ) && cookie is None) && final(self)@.phase == Phase::LoginPage,
            old(self)@.phase == Phase::Idle && ev is Begin && old(self)@.mode
                == AccountMode::ViaVpnTunnel ==> (r matches LoginStep::Get { url, cookie } && url@
                == gateway_base() && cookie is None) && final(self)@.phase == Phase::GatewayPage,
            // the gateway's login page
            old(self)@.phase == Phase::GatewayPage ==> match ev {
                LoginEvent::Reply { set_cookie: Some(sc), body } => match (
                    capture_of(cookie_pattern(AccountMode::ViaVpnTunnel), sc@),
                    capture_of(captcha_pattern(), body@),
                ) {
                    (Some(t), Some(c)) => (r matches LoginStep::GatewayLogin { cookie, captcha_id }
                        && cookie@ == gateway_cookie(t) && captcha_id@ == c) && final(self)@.phase
                        == Phase::GatewayReply && final(self)@.token == t,
                    _ => r is Failed && final(self)@.phase == Phase::Over,
                },
                _ => r is Failed && final(self)@.phase == Phase::Over,
            },
            // the gateway's answer to the credentials
            old(self)@.phase == Phase::GatewayReply ==> match ev {
                LoginEvent::Reply { set_cookie: _, body } => if has_infix(body@, gateway_rejected()) {
                    (r matches LoginStep::Done { token } && token is None) && final(self)@.phase
                        == Phase::Over
                } else {
                    (r matches LoginStep::Get { url, cookie } && url@ == portal_url(
                        AccountMode::ViaVpnTunnel,
                        Endpoint::NavLogin,
                    ) && opt_view(cookie) == Some(
                        portal_cookie(AccountMode::ViaVpnTunnel, old(self)@.token),
                    )) && final(self)@.phase == Phase::LoginPage && final(self)@.token == old(
                        self,
                    )@.token
                },
                _ => r is Failed && final(self)@.phase == Phase::Over,
            },
            // the portal's login page: the direct token comes from its cookie
            old(self)@.phase == Phase::LoginPage ==> match ev {
                LoginEvent::Reply { set_cookie, body } => {
                    let t = if old(self)@.mode == AccountMode::Direct {
                        match set_cookie {
                            Some(sc) => capture_of(cookie_pattern(AccountMode::Direct), sc@),
                            None => None,
                        }
                    } else {
                        Some(old(self)@.token)
                    };
                    match (t, capture_of(check_code_pattern(), body@)) {
                        (Some(t), Some(c)) => (r matches LoginStep::Pause { millis } && millis == 10)
                            && final(self)@.phase == Phase::BeforeWarmup && final(self)@.token == t
                            && final(self)@.code == c,
                        _ => r is Failed && final(self)@.phase == Phase::Over,
                    }
                },
                _ => r is Failed && final(self)@.phase == Phase::Over,
            },
            old(self)@.phase == Phase::BeforeWarmup ==> match ev {
                LoginEvent::Resumed => (r matches LoginStep::Warmup { url, cookie } && url@
                    == portal_url(old(self)@.mode, Endpoint::RandomCode) + warmup_query(old(self)@.mode)
                    && cookie@ == portal_cookie(
                    old(self)@.mode,
                    old(self)@.token,
                )) && final(self)@ == (FlowView { phase: Phase::Warmup, ..old(self)@ }),
                _ => r is Failed && final(self)@.phase == Phase::Over,
            },
            old(self)@.phase == Phase::Warmup ==> match ev {
                LoginEvent::Reply { .. } => (r matches LoginStep::Pause { millis } && millis == 10)
                    && final(self)@ == (FlowView { phase: Phase::BeforeSubmit, ..old(self)@ }),
                _ => r is Failed && final(self)@.phase == Phase::Over,
            },
            old(self)@.phase == Phase::BeforeSubmit ==> match ev {
                LoginEvent::Resumed => (r matches LoginStep::Submit { url, cookie, body } && url@
                    == portal_url(old(self)@.mode, Endpoint::LoginAction) && cookie@
                    == portal_cookie(old(self)@.mode, old(self)@.token) && body@ == login_body_of(
                    old(self)@.account,
                    old(self)@.password,
                    old(self)@.code,
                )) && final(self)@ == (FlowView { phase: Phase::Submitted, ..old(self)@ }),
                _ => r is Failed && final(self)@.phase == Phase::Over,
            },
            // after the credential POST: the token, unless the reply names bad credentials
            old(self)@.phase == Phase::Submitted ==> match ev {
                LoginEvent::Reply { set_cookie: _, body } => (r matches LoginStep::Done { token }
                    && if has_infix(body@, wrong_credentials()) || has_infix(
                    body@,
                    wrong_password(),
                ) {
                    token is None
                } else {
                    opt_view(token) == Some(old(self)@.token)
                }) && final(self)@.phase == Phase::Over,
                _ => r is Failed && final(self)@.phase == Phase::Over,
            },
            old(self)@.phase == Phase::Over ==> r is Failed && final(self)@.phase == Phase::Over,
            old(self)@.phase == Phase::Idle && !(ev is Begin) ==> r is Failed && final(self)@.phase
                == Phase::Over,
    {
        match self.phase {
            Phase::Idle => {
                match ev {
                    LoginEvent::Begin => {},
                    _ => {
                        return self.fail();
                    },
                }
                if self.mode == AccountMode::Direct {
                    self.phase = Phase::LoginPage;
                    let url = endpoint_url(AccountMode::Direct, Endpoint::NavLogin).unwrap();
                    LoginStep::Get { url, cookie: None }
                } else {
                    self.phase = Phase::GatewayPage;
                    LoginStep::Get { url: String::from_str("https://elib.ustb.edu.cn/login"), cookie: None }
                }
            },
            Phase::GatewayPage => {
                let (sc, body) = match ev {
                    LoginEvent::Reply { set_cookie: Some(sc), body } => (sc, body),
                    _ => {
                        return self.fail();
                    },
                };
                let t = crate::client::session_cookie(sc.as_str(), AccountMode::ViaVpnTunnel);
                let c = captcha_id(body.as_str());
                match (t, c) {
                    (Some(t), Some(c)) => {
                        let cookie = String::from_str("show_vpn=0; show_faq=0; ").concat(
                            "wengine_vpn_ticketelib_ustb_edu_cn",
                        ).concat("=").concat(t.as_str());
                        self.token = t;
                        self.phase = Phase::GatewayReply;
                        LoginStep::GatewayLogin { cookie, captcha_id: c }
                    },
                    _ => self.fail(),
                }
            },
            Phase::GatewayReply => {
                let body = match ev {
                    LoginEvent::Reply { set_cookie: _, body } => body,
                    _ => {
                        return self.fail();
                    },
                };
                if gateway_login_rejected(body.as_str()) {
                    self.phase = Phase::Over;
                    return LoginStep::Done { token: None };
                }
                self.phase = Phase::LoginPage;
                let url = endpoint_url(AccountMode::ViaVpnTunnel, Endpoint::NavLogin).unwrap();
                let cookie = cookie_header(AccountMode::ViaVpnTunnel, self.token.as_str());
                LoginStep::Get { url, cookie }
            },
            Phase::LoginPage => {
                let (sc, body) = match ev {
                    LoginEvent::Reply { set_cookie, body } => (set_cookie, body),
                    _ => {
                        return self.fail();
                    },
                };
                let t = if self.mode == AccountMode::Direct {
                    match sc {
                        Some(sc) => crate::client::session_cookie(sc.as_str(), AccountMode::Direct),
                        None => None,
                    }
                } else {
                    Some(self.token.clone())
                };
                match (t, check_code(body.as_str())) {
                    (Some(t), Some(c)) => {
                        self.token = t;
                        self.code = c;
                        self.pause(Phase::BeforeWarmup)
                    },
                    _ => self.fail(),
                }
            },
            Phase::BeforeWarmup => {
                match ev {
                    LoginEvent::Resumed => {},
                    _ => {
                        return self.fail();
                    },
                }
                self.phase = Phase::Warmup;
                let query = if self.mode == AccountMode::Direct {
                    "?randomNum="
                } else {
                    "?vpn-1&randomNum="
                };
                let url = endpoint_url(self.mode, Endpoint::RandomCode).unwrap().concat(query);
                let cookie = cookie_header(self.mode, self.token.as_str()).unwrap();
                LoginStep::Warmup { url, cookie }
            },
            Phase::Warmup => {
                match ev {
                    LoginEvent::Reply { .. } => {},
                    _ => {
                        return self.fail();
                    },
                }
                self.pause(Phase::BeforeSubmit)
            },
            Phase::BeforeSubmit => {
                match ev {
                    LoginEvent::Resumed => {},
                    _ => {
                        return self.fail();
                    },
                }
                self.phase = Phase::Submitted;
                let url = endpoint_url(self.mode, Endpoint::LoginAction).unwrap();
                let cookie = cookie_header(self.mode, self.token.as_str()).unwrap();
                let body = login_form_body(self.account.as_str(), self.password.as_str(), self.code.as_str());
                LoginStep::Submit { url, cookie, body }
            },
            Phase::Submitted => {
                let body = match ev {
                    LoginEvent::Reply { set_cookie: _, body } => body,
                    _ => {
                        return self.fail();
                    },
                };
                self.phase = Phase::Over;
                LoginStep::Done { token: login_outcome(body.as_str(), self.token.clone()) }
            },
            Phase::Over => self.fail(),
        }
    }
}

} // verus!
