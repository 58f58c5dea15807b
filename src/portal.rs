//! The session and account-mode model, and how each portal request is built
//! and each response classified for the mode in force.
use vstd::prelude::*;

use crate::model::PortalError;
use crate::text::{contains_str, has_infix};

verus! {

/// Where the session came from; decides the host prefix and the cookie name.
#[derive(Debug, Clone, Copy, PartialEq, Eq, Structural)]
pub enum AccountMode {
    Direct,
    ViaVpnTunnel,
    LocalOnly,
}

/// The portal's pages and actions.
#[derive(Debug, Clone, Copy, PartialEq, Eq, Structural)]
pub enum Endpoint {
    NavLogin,
    RandomCode,
    LoginAction,
    RefreshAccount,
    MonthPay,
    LoginLog,
    MacList,
    MacUnbind,
}

pub open spec fn base_of(mode: AccountMode) -> Seq<char> {
    match mode {
        AccountMode::Direct => "http://202.204.60.7:8080/"@,
        _ => "https://elib.ustb.edu.cn/http-8080/77726476706e69737468656265737421a2a713d275603c1e2858c7fb/"@,
    }
}

pub open spec fn path_of(e: Endpoint) -> Seq<char> {
    match e {
        Endpoint::NavLogin => "nav_login"@,
        Endpoint::RandomCode => "RandomCodeAction.action"@,
        Endpoint::LoginAction => "LoginAction.action"@,
        Endpoint::RefreshAccount => "refreshaccount"@,
        Endpoint::MonthPay => "MonthPayAction.action"@,
        Endpoint::LoginLog => "UserLoginLogAction.action"@,
        Endpoint::MacList => "nav_unBandMacJsp"@,
        Endpoint::MacUnbind => "nav_unbindMACAction.action"@,
    }
}

pub open spec fn cookie_name_of(mode: AccountMode) -> Seq<char> {
    match mode {
        AccountMode::Direct => "JSESSIONID"@,
        _ => "wengine_vpn_ticketelib_ustb_edu_cn"@,
    }
}

fn base_str(mode: AccountMode) -> (r: &'static str)
    ensures
        r@ == base_of(mode),
{
    match mode {
        AccountMode::Direct => "http://202.204.60.7:8080/",
        _ => "https://elib.ustb.edu.cn/http-8080/77726476706e69737468656265737421a2a713d275603c1e2858c7fb/",
    }
}

fn path_str(e: Endpoint) -> (r: &'static str)
    ensures
        r@ == path_of(e),
{
    match e {
        Endpoint::NavLogin => "nav_login",
        Endpoint::RandomCode => "RandomCodeAction.action",
        Endpoint::LoginAction => "LoginAction.action",
        Endpoint::RefreshAccount => "refreshaccount",
        Endpoint::MonthPay => "MonthPayAction.action",
        Endpoint::LoginLog => "UserLoginLogAction.action",
        Endpoint::MacList => "nav_unBandMacJsp",
        Endpoint::MacUnbind => "nav_unbindMACAction.action",
    }
}

fn cookie_name_str(mode: AccountMode) -> (r: &'static str)
    ensures
        r@ == cookie_name_of(mode),
{
    match mode {
        AccountMode::Direct => "JSESSIONID",
        _ => "wengine_vpn_ticketelib_ustb_edu_cn",
    }
}

/// The URL of an endpoint in a network mode; a local-only session has none.
pub fn endpoint_url(mode: AccountMode, e: Endpoint) -> (r: Option<String>)
    ensures
        mode == AccountMode::LocalOnly ==> r is None,
        mode != AccountMode::LocalOnly ==> (r matches Some(u) && u@ == base_of(mode) + path_of(e)),
{
    if mode == AccountMode::LocalOnly {
        return None;
    }
    let u = String::from_str(base_str(mode)).concat(path_str(e));
    Some(u)
}

/// The `Cookie` header that carries `token` in a network mode.
pub fn cookie_header(mode: AccountMode, token: &str) -> (r: Option<String>)
    ensures
        mode == AccountMode::LocalOnly ==> r is None,
        mode != AccountMode::LocalOnly ==> (r matches Some(c) && c@ == cookie_name_of(mode) + "="@
            + token@),
{
    if mode == AccountMode::LocalOnly {
        return None;
    }
    let c = String::from_str(cookie_name_str(mode)).concat("=").concat(token);
    Some(c)
}

/// The text by which the portal sends a stale session back to its login page.
pub open spec fn relogin_marker() -> Seq<char> {
    "nav_login"@
}

/// `Err(SessionExpired)` exactly when the body carries the relogin marker.
pub fn check_session(body: &str) -> (r: Result<(), PortalError>)
    ensures
        r is Err <==> has_infix(body@, relogin_marker()),
        r matches Err(e) ==> e == PortalError::SessionExpired,
{
    if contains_str(body, "nav_login") {
        Err(PortalError::SessionExpired)
    } else {
        Ok(())
    }
}

/// The session token together with the mode it belongs to; the two are only
/// ever replaced together.
#[derive(Debug)]
pub struct Session {
    token: Option<String>,
    mode: AccountMode,
}

pub struct SessionView {
    pub token: Option<Seq<char>>,
    pub mode: AccountMode,
}

impl View for Session {
    type V = SessionView;

    closed spec fn view(&self) -> SessionView {
        SessionView {
            token: match self.token {
                Some(t) => Some(t@),
                None => None,
            },
            mode: self.mode,
        }
    }
}

/// Placeholder token of a local-only session.
pub open spec fn local_token() -> Seq<char> {
    "local"@
}

impl Session {
    /// No session; the mode defaults to direct.
    pub fn new() -> (r: Self)
        ensures
            r@.token is None,
            r@.mode == AccountMode::Direct,
    {
        Session { token: None, mode: AccountMode::Direct }
    }

    pub fn mode(&self) -> (r: AccountMode)
        ensures
            r == self@.mode,
    {
        self.mode
    }

    pub fn token(&self) -> (r: Option<String>)
        ensures
            match (r, self@.token) {
                (Some(a), Some(b)) => a@ == b,
                (None, None) => true,
                _ => false,
            },
    {
        match &self.token {
            Some(t) => Some(t.clone()),
            None => None,
        }
    }

    /// Replaces token and mode after a successful network login.
    pub fn login(&mut self, token: String, via_vpn: bool)
        ensures
            final(self)@.token == Some(token@),
            final(self)@.mode == (if via_vpn {
                AccountMode::ViaVpnTunnel
            } else {
                AccountMode::Direct
            }),
    {
        self.token = Some(token);
        self.mode = if via_vpn {
            AccountMode::ViaVpnTunnel
        } else {
            AccountMode::Direct
        };
    }

    /// Enters local-only mode with its placeholder token.
    pub fn enter_local(&mut self)
        ensures
            final(self)@.token == Some(local_token()),
            final(self)@.mode == AccountMode::LocalOnly,
    {
        self.token = Some(String::from_str("local"));
        self.mode = AccountMode::LocalOnly;
    }

    /// Clears the session; there must be one to clear.
    pub fn logout(&mut self) -> (r: Result<(), PortalError>)
        ensures
            old(self)@.token is None ==> r == Err::<(), PortalError>(PortalError::SessionRequired)
                && final(self)@ == old(self)@,
            old(self)@.token is Some ==> r is Ok && final(self)@.token is None && final(self)@.mode
                == AccountMode::Direct,
    {
        if self.token.is_none() {
            return Err(PortalError::SessionRequired);
        }
        self.token = None;
        self.mode = AccountMode::Direct;
        Ok(())
    }

    /// The token to send with a network request: there must be one, and the
    /// session must not be local-only.
    pub fn network_token(&self) -> (r: Result<String, PortalError>)
        ensures
            match self@.token {
                Some(t) if self@.mode != AccountMode::LocalOnly => r matches Ok(s) && s@ == t,
                _ => r == Err::<String, PortalError>(PortalError::SessionRequired),
            },
    {
        if self.mode == AccountMode::LocalOnly {
            return Err(PortalError::SessionRequired);
        }
        match &self.token {
            Some(t) => Ok(t.clone()),
            None => Err(PortalError::SessionRequired),
        }
    }
}

} // verus!
