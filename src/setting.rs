//! Stored settings, the current user and the state shared by all operations.
use vstd::prelude::*;

use crate::model::PortalError;
use crate::portal::{local_token, AccountMode, Session};

verus! {

pub open spec fn pairs_view(v: Seq<(String, String)>) -> Seq<(Seq<char>, Seq<char>)> {
    v.map_values(|p: (String, String)| (p.0@, p.1@))
}

/// Index of the first pair keyed `k`, if any.
pub open spec fn key_index(v: Seq<(Seq<char>, Seq<char>)>, k: Seq<char>) -> Option<int>
    decreases v.len(),
{
    if v.len() == 0 {
        None
    } else if v[0].0 == k {
        Some(0)
    } else {
        match key_index(v.drop_first(), k) {
            Some(i) => Some(i + 1),
            None => None,
        }
    }
}

/// No two pairs share a key.
pub open spec fn unique_keys(v: Seq<(Seq<char>, Seq<char>)>) -> bool {
    forall|i: int, j: int| 0 <= i < j < v.len() ==> v[i].0 != v[j].0
}

proof fn lemma_key_index(v: Seq<(Seq<char>, Seq<char>)>, k: Seq<char>)
    ensures
        key_index(v, k) matches Some(i) ==> 0 <= i < v.len() && v[i].0 == k,
        key_index(v, k) is None ==> forall|j: int| 0 <= j < v.len() ==> v[j].0 != k,
    decreases v.len(),
{
    if v.len() > 0 {
        lemma_key_index(v.drop_first(), k);
        if v[0].0 != k {
            assert forall|j: int| 1 <= j < v.len() implies v[j] == v.drop_first()[j - 1] by {}
        }
    }
}

/// Logging in keeps account names unique.
pub proof fn lemma_login_keeps_unique(a: Seq<(Seq<char>, Seq<char>)>, u: Seq<char>, p: Seq<char>)
    requires
        unique_keys(a),
    ensures
        unique_keys(accounts_after_login(a, u, p)),
{
    lemma_key_index(a, u);
    let rest = match key_index(a, u) {
        Some(i) => a.remove(i),
        None => a,
    };
    assert forall|j: int| 0 <= j < rest.len() implies rest[j].0 != u by {
        match key_index(a, u) {
            Some(i) => {
                if j < i {
                    assert(rest[j] == a[j]);
                } else {
                    assert(rest[j] == a[j + 1]);
                }
            },
            None => {},
        }
    }
    assert forall|x: int, y: int| 0 <= x < y < rest.len() implies rest[x].0 != rest[y].0 by {
        match key_index(a, u) {
            Some(i) => {
                let xa = if x < i {
                    x
                } else {
                    x + 1
                };
                let ya = if y < i {
                    y
                } else {
                    y + 1
                };
                assert(rest[x] == a[xa]);
                assert(rest[y] == a[ya]);
            },
            None => {},
        }
    }
    let r = accounts_after_login(a, u, p);
    assert forall|x: int, y: int| 0 <= x < y < r.len() implies r[x].0 != r[y].0 by {
        if x == 0 {
            assert(r[y] == rest[y - 1]);
        } else {
            assert(r[x] == rest[x - 1]);
            assert(r[y] == rest[y - 1]);
        }
    }
}

/// Naming a device keeps device addresses unique.
pub proof fn lemma_naming_keeps_unique(n: Seq<(Seq<char>, Seq<char>)>, mac: Seq<char>, name: Seq<char>)
    requires
        unique_keys(n),
    ensures
        unique_keys(names_after_set(n, mac, name)),
{
    lemma_key_index(n, mac);
    let r = names_after_set(n, mac, name);
    assert forall|x: int, y: int| 0 <= x < y < r.len() implies r[x].0 != r[y].0 by {
        match key_index(n, mac) {
            Some(i) => {
                assert(r[x].0 == n[x].0);
                assert(r[y].0 == n[y].0);
            },
            None => {
                if y == n.len() {
                    assert(r[x] == n[x]);
                } else {
                    assert(r[x] == n[x]);
                    assert(r[y] == n[y]);
                }
            },
        }
    }
}

fn find_key(v: &Vec<(String, String)>, k: &str) -> (r: Option<usize>)
    ensures
        match (r, key_index(pairs_view(v@), k@)) {
            (Some(a), Some(b)) => a as int == b,
            (None, None) => true,
            _ => false,
        },
        r matches Some(a) ==> a < v.len(),
{
    let key = String::from_str(k);
    let mut i: usize = 0;
    assert(pairs_view(v@).skip(0) == pairs_view(v@));
    while i < v.len()
        invariant
            i <= v.len(),
            key@ == k@,
            key_index(pairs_view(v@), k@) == match key_index(pairs_view(v@).skip(i as int), k@) {
                Some(j) => Some(j + i),
                None => None::<int>,
            },
        decreases v.len() - i,
    {
        assert(pairs_view(v@).skip(i as int).drop_first() == pairs_view(v@).skip(i + 1));
        if v[i].0 == key {
            return Some(i);
        }
        i = i + 1;
    }
    None
}

/// Stored settings: accounts most recently used first, labels for bound
/// devices keyed by address, and the front end's appearance choices.
#[derive(Debug)]
pub struct Setting {
    pub account: Vec<(String, String)>,
    pub ammeter_number: Option<u32>,
    pub mac_custom_name: Vec<(String, String)>,
    pub background_image_path: Option<String>,
    pub background_transparence: Option<u32>,
    pub background_blur: Option<u32>,
    pub collapsed: Option<bool>,
}

/// The account list after logging in with `(u, p)`: that account first with
/// the new password, the others in their order.
pub open spec fn accounts_after_login(
    accounts: Seq<(Seq<char>, Seq<char>)>,
    u: Seq<char>,
    p: Seq<char>,
) -> Seq<(Seq<char>, Seq<char>)> {
    seq![(u, p)] + match key_index(accounts, u) {
        Some(i) => accounts.remove(i),
        None => accounts,
    }
}

/// The label list after naming `mac` as `name`.
pub open spec fn names_after_set(
    names: Seq<(Seq<char>, Seq<char>)>,
    mac: Seq<char>,
    name: Seq<char>,
) -> Seq<(Seq<char>, Seq<char>)> {
    match key_index(names, mac) {
        Some(i) => names.update(i, (mac, name)),
        None => names.push((mac, name)),
    }
}

impl Setting {
    /// Settings with nothing stored.
    pub fn new() -> (r: Self)
        ensures
            r.account@.len() == 0,
            r.mac_custom_name@.len() == 0,
            r.ammeter_number is None,
            r.background_image_path is None,
            r.background_transparence is None,
            r.background_blur is None,
            r.collapsed is None,
    {
        Setting {
            account: Vec::new(),
            ammeter_number: None,
            mac_custom_name: Vec::new(),
            background_image_path: None,
            background_transparence: None,
            background_blur: None,
            collapsed: None,
        }
    }

    /// Records a successful login: the account moves to the front of the
    /// list, with its password replaced when it changed.
    pub fn set_account(&mut self, username: String, password: String)
        ensures
            pairs_view(final(self).account@) == accounts_after_login(
                pairs_view(old(self).account@),
                username@,
                password@,
            ),
            *final(self) == (Setting { account: final(self).account, ..*old(self) }),
            unique_keys(pairs_view(old(self).account@)) ==> unique_keys(
                pairs_view(final(self).account@),
            ),
    {
        proof {
            if unique_keys(pairs_view(self.account@)) {
                lemma_login_keeps_unique(pairs_view(self.account@), username@, password@);
            }
        }
        let ghost a0 = pairs_view(self.account@);
        let ghost u = username@;
        match find_key(&self.account, username.as_str()) {
            Some(i) => {
                let _old = self.account.remove(i);
                assert(pairs_view(self.account@) == a0.remove(i as int));
            },
            None => {},
        }
        let ghost mid = self.account@;
        self.account.insert(0, (username, password));
        assert(pairs_view(self.account@) == seq![(u, password@)] + pairs_view(mid));
    }

    /// Whether an account of that name is stored.
    pub fn has_local_account(&self, username: &str) -> (r: bool)
        ensures
            r == key_index(pairs_view(self.account@), username@) is Some,
    {
        find_key(&self.account, username).is_some()
    }

    pub fn set_ammeter_number(&mut self, ammeter_number: u32)
        ensures
            *final(self) == (Setting { ammeter_number: Some(ammeter_number), ..*old(self) }),
    {
        self.ammeter_number = Some(ammeter_number);
    }

    pub fn set_background_transparence(&mut self, background_transparence: u32)
        ensures
            *final(self) == (Setting { background_transparence: Some(background_transparence), ..*old(self) }),
    {
        self.background_transparence = Some(background_transparence);
    }

    pub fn set_background_blur(&mut self, background_blur: u32)
        ensures
            *final(self) == (Setting { background_blur: Some(background_blur), ..*old(self) }),
    {
        self.background_blur = Some(background_blur);
    }

    /// Stores the user's label for a bound device, replacing an earlier one.
    pub fn set_mac_custom_name(&mut self, mac: &str, name: &str)
        ensures
            pairs_view(final(self).mac_custom_name@) == names_after_set(
                pairs_view(old(self).mac_custom_name@),
                mac@,
                name@,
            ),
            *final(self) == (Setting { mac_custom_name: final(self).mac_custom_name, ..*old(self) }),
            unique_keys(pairs_view(old(self).mac_custom_name@)) ==> unique_keys(
                pairs_view(final(self).mac_custom_name@),
            ),
    {
        proof {
            if unique_keys(pairs_view(self.mac_custom_name@)) {
                lemma_naming_keeps_unique(pairs_view(self.mac_custom_name@), mac@, name@);
            }
        }
        let ghost n0 = pairs_view(self.mac_custom_name@);
        match find_key(&self.mac_custom_name, mac) {
            Some(i) => {
                self.mac_custom_name.set(i, (String::from_str(mac), String::from_str(name)));
                assert(pairs_view(self.mac_custom_name@) == n0.update(i as int, (mac@, name@)));
            },
            None => {
                self.mac_custom_name.push((String::from_str(mac), String::from_str(name)));
                assert(pairs_view(self.mac_custom_name@) == n0.push((mac@, name@)));
            },
        }
    }

    pub fn set_collapsed(&mut self, collapsed: bool)
        ensures
            *final(self) == (Setting { collapsed: Some(collapsed), ..*old(self) }),
    {
        self.collapsed = Some(collapsed);
    }
}

/// The account whose data the operations serve.
#[derive(Debug)]
pub enum CurrentUser {
    OnlineUser(String),
    LocalUser(String),
}

impl Default for CurrentUser {
    fn default() -> (r: Self)
        ensures
            r matches CurrentUser::OnlineUser(u) && u@.len() == 0,
    {
        CurrentUser::OnlineUser(String::new())
    }
}

pub open spec fn local_prefix() -> Seq<char> {
    "local_"@
}

/// Why a local account could not be created.
#[derive(Debug, Clone, Copy, PartialEq, Eq, Structural)]
pub enum LocalUserError {
    /// Local accounts are made from an online account.
    NotOnline,
    /// The local account exists already.
    AlreadyExists,
}

impl CurrentUser {
    /// Name of the archive directory: a local user's own name, or
    /// `local_<name>` for an online user.
    pub fn local_data_dir(&self) -> (r: String)
        ensures
            match self {
                CurrentUser::LocalUser(u) => r@ == u@,
                CurrentUser::OnlineUser(u) => r@ == local_prefix() + u@,
            },
    {
        match self {
            CurrentUser::LocalUser(u) => u.clone(),
            CurrentUser::OnlineUser(u) => String::from_str("local_").concat(u.as_str()),
        }
    }

    /// Creates the local account `local_<name>` of the online user, with an
    /// empty password, and returns its name.
    pub fn new_local_user(&self, setting: &mut Setting) -> (r: Result<String, LocalUserError>)
        ensures
            self is LocalUser ==> r == Err::<String, LocalUserError>(LocalUserError::NotOnline)
                && final(setting).account@ == old(setting).account@,
            self matches CurrentUser::OnlineUser(u) ==> {
                let name = local_prefix() + u@;
                if key_index(pairs_view(old(setting).account@), name) is Some {
                    r == Err::<String, LocalUserError>(LocalUserError::AlreadyExists)
                        && final(setting).account@ == old(setting).account@
                } else {
                    r matches Ok(n) && n@ == name && pairs_view(final(setting).account@)
                        == accounts_after_login(
                        pairs_view(old(setting).account@),
                        name,
                        Seq::empty(),
                    )
                }
            },
    {
        let u = match self {
            CurrentUser::LocalUser(_) => {
                return Err(LocalUserError::NotOnline);
            },
            CurrentUser::OnlineUser(u) => u,
        };
        let name = String::from_str("local_").concat(u.as_str());
        if setting.has_local_account(name.as_str()) {
            return Err(LocalUserError::AlreadyExists);
        }
        setting.set_account(name.clone(), String::new());
        Ok(name)
    }
}

/// Whether a user name names a local pseudo-account.
pub open spec fn is_local_name(name: Seq<char>) -> bool {
    name.len() >= 5 && name.take(5) == "local"@
}

pub fn local_name(name: &str) -> (r: bool)
    ensures
        r == is_local_name(name@),
{
    let v = crate::text::chars_of(name);
    if v.len() < 5 {
        return false;
    }
    let ghost word = seq!['l', 'o', 'c', 'a', 'l'];
    proof {
        reveal_strlit("local");
        assert("local"@ == word);
    }
    let r = v[0] == 'l' && v[1] == 'o' && v[2] == 'c' && v[3] == 'a' && v[4] == 'l';
    assert(r == (v@.take(5) == word)) by {
        let t = v@.take(5);
        assert(t[0] == v@[0] && t[1] == v@[1] && t[2] == v@[2] && t[3] == v@[3] && t[4] == v@[4]);
        if r {
            assert(t == word);
        } else if t == word {
            assert(t[0] == word[0] && t[1] == word[1] && t[2] == word[2] && t[3] == word[3] && t[4]
                == word[4]);
        }
    }
    r
}

/// State shared by all operations: the session, the settings and the current
/// user.
#[derive(Debug)]
pub struct AppState {
    pub session: Session,
    pub setting: Setting,
    pub current_user: CurrentUser,
}

impl AppState {
    pub fn new(setting: Setting) -> (r: Self)
        ensures
            r.setting.account@ == setting.account@,
            r.setting.mac_custom_name@ == setting.mac_custom_name@,
            r.current_user matches CurrentUser::OnlineUser(u) && u@.len() == 0,
            r.session@.token is None,
            r.session@.mode == AccountMode::Direct,
    {
        AppState { session: Session::new(), setting, current_user: CurrentUser::default() }
    }

    /// Enters a stored local account: local-only mode with the placeholder
    /// token, no network session.
    pub fn login_local(&mut self, user_name: &str) -> (r: Result<(), PortalError>)
        ensures
            key_index(pairs_view(old(self).setting.account@), user_name@) is Some ==> (r is Ok
                && final(self).session@.mode == AccountMode::LocalOnly && final(self).session@.token
                == Some(local_token()) && (final(self).current_user
                matches CurrentUser::LocalUser(u) && u@ == user_name@)),
            key_index(pairs_view(old(self).setting.account@), user_name@) is None ==> r
                == Err::<(), PortalError>(PortalError::CredentialsRejected) && final(self).session@
                == old(self).session@,
    {
        if !self.setting.has_local_account(user_name) {
            return Err(PortalError::CredentialsRejected);
        }
        self.session.enter_local();
        self.current_user = CurrentUser::LocalUser(String::from_str(user_name));
        Ok(())
    }

    /// Takes the outcome of a network login: a rejected login changes
    /// nothing; an accepted one replaces token and mode together and moves
    /// the account to the front of the stored list.
    pub fn finish_login(
        &mut self,
        user_name: String,
        password: String,
        outcome: Option<String>,
        via_vpn: bool,
    ) -> (r: Result<String, PortalError>)
        ensures
            outcome is None ==> r == Err::<String, PortalError>(PortalError::CredentialsRejected)
                && final(self).session@ == old(self).session@,
            outcome matches Some(t) ==> (r matches Ok(x) && x@ == t@) && final(self).session@.token
                == Some(t@) && final(self).session@.mode == (if via_vpn {
                AccountMode::ViaVpnTunnel
            } else {
                AccountMode::Direct
            }) && pairs_view(final(self).setting.account@) == accounts_after_login(
                pairs_view(old(self).setting.account@),
                user_name@,
                password@,
            ),
    {
        let token = match outcome {
            None => {
                return Err(PortalError::CredentialsRejected);
            },
            Some(t) => t,
        };
        self.session.login(token.clone(), via_vpn);
        self.current_user = CurrentUser::OnlineUser(user_name.clone());
        self.setting.set_account(user_name, password);
        Ok(token)
    }
}

} // verus!
