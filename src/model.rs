//! Usage records. Amounts (flow, cost, byte counters) are held in thousandths
//! of the unit that the portal prints, durations in seconds, instants as Unix
//! seconds read as UTC wall time.
use vstd::prelude::*;

verus! {

/// One login session of the login-log table.
#[derive(Debug)]
pub struct EveryLoginData {
    pub online_time: i64,
    pub offline_time: i64,
    pub used_duration: u64,
    pub used_flow: u64,
    pub cost: u64,
    pub ipv4_up: u64,
    pub ipv4_down: u64,
    pub ipv6_up: u64,
    pub ipv6_down: u64,
    pub ipv4_addr: String,
    /// Empty when the session had no IPv6 address.
    pub ipv6_addr: String,
}

pub struct SessionSpec {
    pub online_time: i64,
    pub offline_time: i64,
    pub used_duration: u64,
    pub used_flow: u64,
    pub cost: u64,
    pub ipv4_up: u64,
    pub ipv4_down: u64,
    pub ipv6_up: u64,
    pub ipv6_down: u64,
    pub ipv4_addr: Seq<char>,
    pub ipv6_addr: Seq<char>,
}

impl View for EveryLoginData {
    type V = SessionSpec;

    open spec fn view(&self) -> SessionSpec {
        SessionSpec {
            online_time: self.online_time,
            offline_time: self.offline_time,
            used_duration: self.used_duration,
            used_flow: self.used_flow,
            cost: self.cost,
            ipv4_up: self.ipv4_up,
            ipv4_down: self.ipv4_down,
            ipv6_up: self.ipv6_up,
            ipv6_down: self.ipv6_down,
            ipv4_addr: self.ipv4_addr@,
            ipv6_addr: self.ipv6_addr@,
        }
    }
}

pub open spec fn empty_session() -> SessionSpec {
    SessionSpec {
        online_time: 0,
        offline_time: 0,
        used_duration: 0,
        used_flow: 0,
        cost: 0,
        ipv4_up: 0,
        ipv4_down: 0,
        ipv6_up: 0,
        ipv6_down: 0,
        ipv4_addr: Seq::empty(),
        ipv6_addr: Seq::empty(),
    }
}

pub open spec fn sessions_view(v: Seq<EveryLoginData>) -> Seq<SessionSpec> {
    v.map_values(|r: EveryLoginData| r@)
}

impl EveryLoginData {
    pub fn empty() -> (r: Self)
        ensures
            r@ == empty_session(),
    {
        EveryLoginData {
            online_time: 0,
            offline_time: 0,
            used_duration: 0,
            used_flow: 0,
            cost: 0,
            ipv4_up: 0,
            ipv4_down: 0,
            ipv6_up: 0,
            ipv6_down: 0,
            ipv4_addr: String::new(),
            ipv6_addr: String::new(),
        }
    }

    pub fn copy(&self) -> (r: Self)
        ensures
            r@ == self@,
    {
        EveryLoginData {
            online_time: self.online_time,
            offline_time: self.offline_time,
            used_duration: self.used_duration,
            used_flow: self.used_flow,
            cost: self.cost,
            ipv4_up: self.ipv4_up,
            ipv4_down: self.ipv4_down,
            ipv6_up: self.ipv6_up,
            ipv6_down: self.ipv6_down,
            ipv4_addr: self.ipv4_addr.clone(),
            ipv6_addr: self.ipv6_addr.clone(),
        }
    }
}

/// A login-log response: the summary row and the per-session rows.
#[derive(Debug)]
pub struct UserLoginLog {
    pub ipv4_up: u64,
    pub ipv4_down: u64,
    pub ipv6_up: u64,
    pub ipv6_down: u64,
    pub used_flow: u64,
    pub cost: u64,
    pub used_duration: u64,
    pub every_login_data: Vec<EveryLoginData>,
}

pub struct LogSpec {
    pub ipv4_up: u64,
    pub ipv4_down: u64,
    pub ipv6_up: u64,
    pub ipv6_down: u64,
    pub used_flow: u64,
    pub cost: u64,
    pub used_duration: u64,
    pub sessions: Seq<SessionSpec>,
}

impl View for UserLoginLog {
    type V = LogSpec;

    open spec fn view(&self) -> LogSpec {
        LogSpec {
            ipv4_up: self.ipv4_up,
            ipv4_down: self.ipv4_down,
            ipv6_up: self.ipv6_up,
            ipv6_down: self.ipv6_down,
            used_flow: self.used_flow,
            cost: self.cost,
            used_duration: self.used_duration,
            sessions: sessions_view(self.every_login_data@),
        }
    }
}

/// One month of the yearly summary.
#[derive(Debug, Clone, Copy, PartialEq, Eq, Structural)]
pub struct MonthlyData {
    pub month: u8,
    pub month_cost: u64,
    pub month_used_flow: u64,
    pub month_used_duration: u64,
}

/// The yearly summary, months in chronological order.
#[derive(Debug, Clone, PartialEq, Eq)]
pub struct MonthPayInfo {
    pub year_cost: u64,
    pub year_used_duration: u64,
    pub year_used_flow: u64,
    pub monthly_data: Vec<MonthlyData>,
}

pub struct YearSpec {
    pub year_cost: u64,
    pub year_used_duration: u64,
    pub year_used_flow: u64,
    pub months: Seq<MonthlyData>,
}

impl View for MonthPayInfo {
    type V = YearSpec;

    open spec fn view(&self) -> YearSpec {
        YearSpec {
            year_cost: self.year_cost,
            year_used_duration: self.year_used_duration,
            year_used_flow: self.year_used_flow,
            months: self.monthly_data@,
        }
    }
}

/// A device bound to the account, with the user's own label for it.
#[derive(Debug)]
pub struct MacAddress {
    pub device_name: String,
    pub mac_address: String,
    pub custom_name: String,
}

pub struct MacSpec {
    pub device_name: Seq<char>,
    pub mac_address: Seq<char>,
    pub custom_name: Seq<char>,
}

impl View for MacAddress {
    type V = MacSpec;

    open spec fn view(&self) -> MacSpec {
        MacSpec {
            device_name: self.device_name@,
            mac_address: self.mac_address@,
            custom_name: self.custom_name@,
        }
    }
}

/// Credentials as the front end submits them.
#[derive(Debug, Clone)]
pub struct Account {
    pub user_name: String,
    pub password: String,
    pub code: Option<String>,
}

/// Reply of the electricity-meter service.
#[derive(Debug, Clone)]
pub struct AmmeterData {
    pub service_key: String,
    pub message: String,
    pub status_code: String,
}

impl AmmeterData {
    /// The meter's remaining energy, when the service key is an integer.
    pub fn remaining(&self) -> (r: Option<i32>)
        ensures
            r == crate::text::parse_i32(self.service_key@),
    {
        crate::text::parse_i32_text(self.service_key.as_str())
    }
}

/// Progress of an installer download, as reported to the front end.
#[derive(Debug, Clone, Copy, PartialEq, Eq, Structural)]
pub enum DownloadEvent {
    Started { new_version: bool },
    Progress { downloaded: usize, content_length: u64 },
    Finished { finished: bool },
}

/// What can go wrong in a portal operation.
#[derive(Debug, Clone, PartialEq, Eq)]
pub enum PortalError {
    /// The portal refused the user name or the password.
    CredentialsRejected,
    /// No session is held for the operation's mode.
    SessionRequired,
    /// The response carried the portal's redirect-to-login marker.
    SessionExpired,
    /// The summary row is absent from an otherwise valid response.
    NoDataForRange,
    /// A cell did not parse; the whole response is rejected.
    DecodeError,
    /// The request did not complete; the text says why.
    TransportError(String),
}

} // verus!
