//! Saved profiles, and their passwords in the system keyring.
use vstd::prelude::*;
use crate::helper::string_views;
use crate::text::copy_string;
use crate::types::{ConnectionProfile, ProfileView};

verus! {

#[verifier::external_type_specification]
#[verifier::external_body]
pub struct ExKeyringEntry(keyring::Entry);

#[verifier::external_type_specification]
#[verifier::external_body]
pub struct ExKeyringError(keyring::Error);

/// Name of the keyring service under which passwords are kept.
pub const KEYRING_SERVICE: &'static str = "draytek-vpn";

/// A saved profile. The password is only read from old files, for migration:
/// new files never hold it.
pub struct ProfileConfig {
    pub name: String,
    pub server: String,
    pub port: u16,
    pub username: String,
    pub password: String,
    pub accept_self_signed: bool,
    pub default_gateway: bool,
    pub route_remote_network: bool,
    pub routes: Vec<String>,
    pub keepalive: bool,
    pub mru: u16,
}

/// All saved profiles, and the one selected last.
pub struct AppConfig {
    pub profiles: Vec<ProfileConfig>,
    pub last_selected: Option<usize>,
}

impl Default for AppConfig {
    fn default() -> (r: Self)
        ensures
            r.profiles@.len() == 0,
            r.last_selected is None,
    {
        AppConfig { profiles: Vec::new(), last_selected: None }
    }
}

/// Why the keyring could not keep a password.
#[derive(Debug, Clone, Copy, PartialEq, Eq, Structural)]
pub enum ConfigError {
    /// No keyring entry could be made for the profile.
    KeyringEntry,
    /// The keyring refused the password.
    KeyringStore,
}

/// The port of a saved profile that names none.
pub fn default_port() -> (r: u16)
    ensures
        r == 443,
{
    443
}

/// The value of a yes/no field that a saved profile leaves out and that is on
/// by default.
pub fn default_true() -> (r: bool)
    ensures
        r,
{
    true
}

/// `keyring::Entry::new`: the entry of `user` under `service`. The keyring
/// decides whether it can be made; nothing is said of the outcome.
#[verifier::external_body]
fn keyring_entry(service: &str, user: &str) -> Result<keyring::Entry, keyring::Error> {
    keyring::Entry::new(service, user)
}

/// `keyring::Entry::set_password`. The keyring decides the outcome.
#[verifier::external_body]
fn keyring_set_password(entry: &keyring::Entry, password: &str) -> Result<(), keyring::Error> {
    entry.set_password(password)
}

/// `keyring::Entry::get_password`. What the keyring holds decides the outcome.
#[verifier::external_body]
fn keyring_get_password(entry: &keyring::Entry) -> Result<String, keyring::Error> {
    entry.get_password()
}

/// `keyring::Entry::delete_credential`. The keyring decides the outcome.
#[verifier::external_body]
fn keyring_delete_credential(entry: &keyring::Entry) -> Result<(), keyring::Error> {
    entry.delete_credential()
}

/// Keep a profile's password in the system keyring, under the service
/// `KEYRING_SERVICE` and the profile's name. `Err(KeyringEntry)` when the
/// keyring gives no entry for them, `Err(KeyringStore)` when it refuses the
/// password. Which answer comes is the keyring's: no clause states it.
pub fn store_password(profile_name: &str, password: &str) -> (r: Result<(), ConfigError>) {
    let entry = match keyring_entry(KEYRING_SERVICE, profile_name) {
        Ok(e) => e,
        Err(_) => return Err(ConfigError::KeyringEntry),
    };
    match keyring_set_password(&entry, password) {
        Ok(()) => Ok(()),
        Err(_) => Err(ConfigError::KeyringStore),
    }
}

/// A profile's password from the system keyring (service `KEYRING_SERVICE`,
/// the profile's name), if it holds one; `None` when it gives no entry or no
/// password. What the keyring holds is not stated.
pub fn retrieve_password(profile_name: &str) -> Option<String> {
    let entry = match keyring_entry(KEYRING_SERVICE, profile_name) {
        Ok(e) => e,
        Err(_) => return None,
    };
    match keyring_get_password(&entry) {
        Ok(p) => Some(p),
        Err(_) => None,
    }
}

/// Remove a profile's password from the system keyring (service
/// `KEYRING_SERVICE`, the profile's name), if it is there; a refusal is
/// ignored.
pub fn delete_password(profile_name: &str) {
    if let Ok(entry) = keyring_entry(KEYRING_SERVICE, profile_name) {
        let _ = keyring_delete_credential(&entry);
    }
}

/// The profile a saved one describes, with the password that the keyring
/// gave, else the one the file held.
pub open spec fn config_profile(cfg: ProfileConfig, stored: Option<Seq<char>>) -> ProfileView {
    ProfileView {
        name: cfg.name@,
        server: cfg.server@,
        port: cfg.port,
        username: cfg.username@,
        password: match stored {
            Some(p) => p,
            None => cfg.password@,
        },
        accept_self_signed: cfg.accept_self_signed,
        default_gateway: cfg.default_gateway,
        route_remote_network: cfg.route_remote_network,
        routes: string_views(cfg.routes@),
        keepalive: cfg.keepalive,
        auto_reconnect: false,
        mru: cfg.mru,
    }
}

impl ProfileConfig {
    /// The profile this describes, given what the keyring holds for it.
    pub fn with_password(self, stored: Option<String>) -> (r: ConnectionProfile)
        ensures
            r@ == config_profile(self, match stored { Some(p) => Some(p@), None => None }),
    {
        let password = match stored {
            Some(p) => p,
            None => self.password,
        };
        ConnectionProfile {
            name: self.name,
            server: self.server,
            port: self.port,
            username: self.username,
            password,
            accept_self_signed: self.accept_self_signed,
            default_gateway: self.default_gateway,
            route_remote_network: self.route_remote_network,
            routes: self.routes,
            keepalive: self.keepalive,
            auto_reconnect: false,
            mru: self.mru,
        }
    }

    /// The profile this describes, its password taken from the keyring and,
    /// failing that, from the file.
    pub fn into_profile(self) -> (r: ConnectionProfile)
        ensures
            exists|stored: Option<Seq<char>>| r@ == config_profile(self, stored),
    {
        let stored = retrieve_password(self.name.as_str());
        let r = self.with_password(stored);
        r
    }

    /// What is saved of a profile: all but the password and the reconnect
    /// choice.
    pub fn from_profile(profile: &ConnectionProfile) -> (r: ProfileConfig)
        ensures
            saved_as(r, profile@),
    {
        let mut routes: Vec<String> = Vec::new();
        let mut i: usize = 0;
        while i < profile.routes.len()
            invariant
                i <= profile.routes@.len(),
                string_views(routes@) == string_views(profile.routes@).take(i as int),
            decreases profile.routes@.len() - i,
        {
            let ghost before = string_views(routes@);
            let c = copy_string(&profile.routes[i]);
            assert(c@ == string_views(profile.routes@)[i as int]);
            routes.push(c);
            assert(string_views(routes@) =~= before.push(c@));
            assert(string_views(routes@) =~= string_views(profile.routes@).take(i + 1));
            i = i + 1;
        }
        assert(string_views(profile.routes@).take(profile.routes@.len() as int) =~= string_views(profile.routes@));
        ProfileConfig {
            name: copy_string(&profile.name),
            server: copy_string(&profile.server),
            port: profile.port,
            username: copy_string(&profile.username),
            password: String::new(),
            accept_self_signed: profile.accept_self_signed,
            default_gateway: profile.default_gateway,
            route_remote_network: profile.route_remote_network,
            routes,
            keepalive: profile.keepalive,
            mru: profile.mru,
        }
    }
}

/// `cfg` is what is saved of `p`: every field but the password, which is left
/// empty, and the reconnect choice, which is not saved.
pub open spec fn saved_as(cfg: ProfileConfig, p: ProfileView) -> bool {
    &&& cfg.name@ == p.name
    &&& cfg.server@ == p.server
    &&& cfg.port == p.port
    &&& cfg.username@ == p.username
    &&& cfg.password@ == Seq::<char>::empty()
    &&& cfg.accept_self_signed == p.accept_self_signed
    &&& cfg.default_gateway == p.default_gateway
    &&& cfg.route_remote_network == p.route_remote_network
    &&& string_views(cfg.routes@) == p.routes
    &&& cfg.keepalive == p.keepalive
    &&& cfg.mru == p.mru
}

/// Saving a profile and loading it back, with its password from the keyring,
/// gives the profile again; only the reconnect choice is not kept. Without
/// the keyring the password is lost, as the file never holds it.
pub proof fn lemma_saved_profile_roundtrip(cfg: ProfileConfig, p: ProfileView)
    requires
        saved_as(cfg, p),
    ensures
        config_profile(cfg, Some(p.password)) == (ProfileView { auto_reconnect: false, ..p }),
        config_profile(cfg, None) == (ProfileView { auto_reconnect: false, password: Seq::empty(), ..p }),
{
}

/// Two saved profiles agree on everything but the password.
pub open spec fn same_but_password(a: ProfileConfig, b: ProfileConfig) -> bool {
    &&& a.name@ == b.name@
    &&& a.server@ == b.server@
    &&& a.port == b.port
    &&& a.username@ == b.username@
    &&& a.accept_self_signed == b.accept_self_signed
    &&& a.default_gateway == b.default_gateway
    &&& a.route_remote_network == b.route_remote_network
    &&& string_views(a.routes@) == string_views(b.routes@)
    &&& a.keepalive == b.keepalive
    &&& a.mru == b.mru
}

/// The name and password of each profile whose file entry still holds a
/// password, in list order: what is handed to the keyring on migration.
pub open spec fn migration_pairs(ps: Seq<ProfileConfig>) -> Seq<(Seq<char>, Seq<char>)>
    decreases ps.len(),
{
    if ps.len() == 0 {
        Seq::empty()
    } else {
        let rest = migration_pairs(ps.drop_last());
        let p = ps.last();
        if p.password@.len() > 0 { rest.push((p.name@, p.password@)) } else { rest }
    }
}

/// Name and password pairs as values.
pub open spec fn pair_views(v: Seq<(String, String)>) -> Seq<(Seq<char>, Seq<char>)> {
    v.map_values(|p: (String, String)| (p.0@, p.1@))
}

/// What the keyring's answers do to the profiles: the profile at `i` loses its
/// password exactly when `stored[i]` holds and it had one; nothing else changes.
pub open spec fn cleared_by(before: Seq<ProfileConfig>, after: Seq<ProfileConfig>, stored: Seq<bool>) -> bool {
    &&& after.len() == before.len()
    &&& forall|i: int| 0 <= i < before.len() ==> if stored[i] && (#[trigger] before[i]).password@.len() > 0 {
            same_but_password(after[i], before[i]) && after[i].password@.len() == 0
        } else {
            after[i] == before[i]
        }
}

/// Whether the answers move any password.
pub open spec fn any_moved(before: Seq<ProfileConfig>, stored: Seq<bool>) -> bool {
    exists|i: int| 0 <= i < before.len() && stored[i] && (#[trigger] before[i]).password@.len() > 0
}

/// The keyring's answers, one per pair of `migration_pairs`, as one answer per
/// profile: a profile without a password in the file has nothing stored.
pub open spec fn answers_per_profile(ps: Seq<ProfileConfig>, answers: Seq<bool>) -> Seq<bool> {
    Seq::new(ps.len(), |i: int| ps[i].password@.len() > 0 && answers[migration_pairs(ps.take(i)).len() as int])
}

proof fn lemma_migration_pairs_step(ps: Seq<ProfileConfig>, i: int)
    requires
        0 <= i < ps.len(),
    ensures
        migration_pairs(ps.take(i + 1)) == (if ps[i].password@.len() > 0 {
            migration_pairs(ps.take(i)).push((ps[i].name@, ps[i].password@))
        } else {
            migration_pairs(ps.take(i))
        }),
{
    assert(ps.take(i + 1).drop_last() =~= ps.take(i));
    assert(ps.take(i + 1).last() == ps[i]);
}

proof fn lemma_migration_pairs_prefix(ps: Seq<ProfileConfig>, i: int, j: int)
    requires
        0 <= i <= j <= ps.len(),
    ensures
        migration_pairs(ps.take(i)).len() <= migration_pairs(ps.take(j)).len(),
        forall|k: int| 0 <= k < migration_pairs(ps.take(i)).len() ==>
            #[trigger] migration_pairs(ps.take(i))[k] == migration_pairs(ps.take(j))[k],
    decreases j - i,
{
    if i < j {
        lemma_migration_pairs_prefix(ps, i, j - 1);
        lemma_migration_pairs_step(ps, j - 1);
    }
}

/// The name and password of each profile that still holds a password in the
/// file, in list order.
pub fn passwords_to_migrate(config: &AppConfig) -> (r: Vec<(String, String)>)
    ensures
        pair_views(r@) == migration_pairs(config.profiles@),
{
    let ghost ps = config.profiles@;
    let mut out: Vec<(String, String)> = Vec::new();
    let mut i: usize = 0;
    assert(ps.take(0) =~= Seq::<ProfileConfig>::empty());
    assert(pair_views(out@) =~= Seq::<(Seq<char>, Seq<char>)>::empty());
    while i < config.profiles.len()
        invariant
            i <= ps.len(),
            ps == config.profiles@,
            pair_views(out@) == migration_pairs(ps.take(i as int)),
        decreases ps.len() - i,
    {
        proof {
            lemma_migration_pairs_step(ps, i as int);
        }
        let p = &config.profiles[i];
        if str_nonempty(p.password.as_str()) {
            let ghost before = pair_views(out@);
            out.push((copy_string(&p.name), copy_string(&p.password)));
            assert(pair_views(out@) =~= before.push((p.name@, p.password@)));
        }
        i = i + 1;
    }
    assert(ps.take(ps.len() as int) =~= ps);
    out
}

/// Apply the keyring's answers, one per profile: each profile whose password
/// the keyring stored (`stored[i]`) and that held one loses it from the file;
/// every other profile stays as it is. Returns whether any password was moved,
/// that is whether the file must be saved again.
pub fn clear_migrated(config: &mut AppConfig, stored: &[bool]) -> (migrated: bool)
    requires
        stored@.len() == old(config).profiles@.len(),
    ensures
        final(config).last_selected == old(config).last_selected,
        cleared_by(old(config).profiles@, final(config).profiles@, stored@),
        migrated == any_moved(old(config).profiles@, stored@),
{
    let ghost start = config.profiles@;
    let mut migrated = false;
    let mut i: usize = 0;
    while i < config.profiles.len()
        invariant
            i <= start.len(),
            stored@.len() == start.len(),
            config.profiles@.len() == start.len(),
            config.last_selected == old(config).last_selected,
            start == old(config).profiles@,
            forall|j: int| i <= j < start.len() ==> #[trigger] config.profiles@[j] == start[j],
            forall|j: int| 0 <= j < i ==> if stored@[j] && (#[trigger] start[j]).password@.len() > 0 {
                same_but_password(config.profiles@[j], start[j]) && config.profiles@[j].password@.len() == 0
            } else {
                config.profiles@[j] == start[j]
            },
            migrated == exists|j: int| 0 <= j < i && stored@[j] && (#[trigger] start[j]).password@.len() > 0,
        decreases start.len() - i,
    {
        let ghost before_all = config.profiles@;
        if stored[i] && str_nonempty(config.profiles[i].password.as_str()) {
            let mut p = config.profiles.remove(i);
            p.password = String::new();
            config.profiles.insert(i, p);
            migrated = true;
            assert(config.profiles@[i as int].password@.len() == 0);
            assert(same_but_password(config.profiles@[i as int], start[i as int]));
        } else {
            assert(config.profiles@[i as int] == start[i as int]);
        }
        proof {
            assert forall|j: int| 0 <= j < i + 1 implies (if stored@[j] && (#[trigger] start[j]).password@.len() > 0 {
                same_but_password(config.profiles@[j], start[j]) && config.profiles@[j].password@.len() == 0
            } else {
                config.profiles@[j] == start[j]
            }) by {
                if j < i {
                    assert(config.profiles@[j] == before_all[j]);
                }
            }
            if stored@[i as int] && start[i as int].password@.len() > 0 {
                assert(0 <= i < i + 1 && stored@[i as int] && start[i as int].password@.len() > 0);
            }
        }
        i = i + 1;
    }
    migrated
}

/// The keyring's answers for each pair, spread to one answer per profile.
fn spread_answers(profiles: &Vec<ProfileConfig>, answers: &Vec<bool>) -> (r: Vec<bool>)
    requires
        answers@.len() == migration_pairs(profiles@).len(),
    ensures
        r@ == answers_per_profile(profiles@, answers@),
{
    let ghost ps = profiles@;
    let n: usize = answers.len();
    let mut out: Vec<bool> = Vec::new();
    let mut k: usize = 0;
    let mut i: usize = 0;
    assert(ps.take(0) =~= Seq::<ProfileConfig>::empty());
    while i < profiles.len()
        invariant
            i <= ps.len(),
            ps == profiles@,
            answers@.len() == migration_pairs(ps).len(),
            n == answers@.len(),
            k == migration_pairs(ps.take(i as int)).len(),
            out@.len() == i,
            forall|j: int| 0 <= j < i ==> #[trigger] out@[j] == answers_per_profile(ps, answers@)[j],
        decreases ps.len() - i,
    {
        proof {
            lemma_migration_pairs_step(ps, i as int);
            lemma_migration_pairs_prefix(ps, i + 1, ps.len() as int);
            assert(ps.take(ps.len() as int) =~= ps);
        }
        if str_nonempty(profiles[i].password.as_str()) {
            out.push(answers[k]);
            k = k + 1;
        } else {
            out.push(false);
        }
        i = i + 1;
    }
    assert(out@ =~= answers_per_profile(ps, answers@));
    out
}

/// Move the passwords that a file still holds into the keyring: the name and
/// password of each such profile (`passwords_to_migrate`) are handed to the
/// keyring in turn, and its answers are applied by `clear_migrated`: each
/// password the keyring takes is cleared from the profile, one it refuses
/// stays. Returns whether any was moved, that is whether the file must be
/// saved again. Which stores the keyring accepts is its own affair.
pub fn migrate_passwords(config: &mut AppConfig) -> (migrated: bool)
    ensures
        final(config).last_selected == old(config).last_selected,
        exists|answers: Seq<bool>| {
            &&& answers.len() == migration_pairs(old(config).profiles@).len()
            &&& cleared_by(old(config).profiles@, final(config).profiles@, #[trigger] answers_per_profile(old(config).profiles@, answers))
            &&& migrated == any_moved(old(config).profiles@, answers_per_profile(old(config).profiles@, answers))
        },
{
    let pairs = passwords_to_migrate(config);
    let mut answers: Vec<bool> = Vec::new();
    let mut k: usize = 0;
    while k < pairs.len()
        invariant
            k <= pairs@.len(),
            answers@.len() == k,
        decreases pairs@.len() - k,
    {
        let accepted = store_password(pairs[k].0.as_str(), pairs[k].1.as_str()).is_ok();
        answers.push(accepted);
        k = k + 1;
    }
    proof {
        assert(pair_views(pairs@).len() == pairs@.len());
    }
    let stored = spread_answers(&config.profiles, &answers);
    let ghost before = config.profiles@;
    let migrated = clear_migrated(config, stored.as_slice());
    assert(answers_per_profile(before, answers@) == stored@);
    migrated
}

fn str_nonempty(s: &str) -> (r: bool)
    ensures
        r == (s@.len() > 0),
{
    let chars = crate::text::str_chars(s);
    chars.len() > 0
}


/// The entry of the profile list to select: the one selected last, if it is
/// still in the list.
pub open spec fn selection(last_selected: Option<usize>, len: nat) -> Option<usize> {
    match last_selected {
        Some(i) => if i < len { Some(i) } else { None },
        None => None,
    }
}

impl AppConfig {
    /// The names of the profiles, in list order.
    pub fn profile_names(&self) -> (r: Vec<String>)
        ensures
            string_views(r@) == self.profiles@.map_values(|p: ProfileConfig| p.name@),
    {
        let mut names: Vec<String> = Vec::new();
        let mut i: usize = 0;
        while i < self.profiles.len()
            invariant
                i <= self.profiles@.len(),
                string_views(names@) == self.profiles@.take(i as int).map_values(|p: ProfileConfig| p.name@),
            decreases self.profiles@.len() - i,
        {
            let name = copy_string(&self.profiles[i].name);
            let ghost before = string_views(names@);
            names.push(name);
            proof {
                assert(string_views(names@) =~= before.push(self.profiles@[i as int].name@));
                assert(self.profiles@.take(i + 1).map_values(|p: ProfileConfig| p.name@)
                    =~= self.profiles@.take(i as int).map_values(|p: ProfileConfig| p.name@).push(self.profiles@[i as int].name@));
            }
            i = i + 1;
        }
        assert(self.profiles@.take(self.profiles@.len() as int) =~= self.profiles@);
        names
    }

    /// The entry of the profile list to select on start.
    pub fn selected_index(&self) -> (r: Option<usize>)
        ensures
            r == selection(self.last_selected, self.profiles@.len()),
    {
        match self.last_selected {
            Some(i) => if i < self.profiles.len() { Some(i) } else { None },
            None => None,
        }
    }

    /// Remember the entry selected in the profile list.
    pub fn select_profile(&mut self, idx: usize)
        ensures
            final(self).profiles@ == old(self).profiles@,
            final(self).last_selected == Some(idx),
    {
        self.last_selected = Some(idx);
    }

    /// Add a new profile: its password goes to the keyring, the profile to
    /// the end of the list, where it becomes the selected one. The keyring's
    /// answer is returned; the profile is added either way.
    pub fn add_profile(&mut self, profile: ProfileConfig) -> (stored: Result<(), ConfigError>)
        ensures
            final(self).profiles@ == old(self).profiles@.push(profile),
            final(self).last_selected == Some(old(self).profiles@.len() as usize),
    {
        let stored = store_password(profile.name.as_str(), profile.password.as_str());
        self.profiles.push(profile);
        self.last_selected = Some(self.profiles.len() - 1);
        stored
    }

    /// Save the edited profile at `idx`, which was named `old_name`: under a
    /// new name the old keyring entry is removed; the password goes to the
    /// keyring, and the profile replaces the one at `idx` if that is still in
    /// the list. The keyring's answer is returned.
    pub fn update_profile(&mut self, idx: usize, old_name: &str, profile: ProfileConfig) -> (stored: Result<(), ConfigError>)
        ensures
            final(self).profiles@ == (if idx < old(self).profiles@.len() {
                old(self).profiles@.update(idx as int, profile)
            } else {
                old(self).profiles@
            }),
            final(self).last_selected == old(self).last_selected,
    {
        if !crate::text::str_eq(profile.name.as_str(), old_name) {
            delete_password(old_name);
        }
        let stored = store_password(profile.name.as_str(), profile.password.as_str());
        if idx < self.profiles.len() {
            self.profiles.set(idx, profile);
        }
        stored
    }

    /// Delete the profile at `idx`, named `name`: its keyring entry goes, and
    /// if `idx` is in the list the profile is removed and the first one is
    /// selected (none if the list is now empty).
    pub fn delete_profile(&mut self, idx: usize, name: &str)
        ensures
            idx < old(self).profiles@.len() ==> {
                &&& final(self).profiles@ == old(self).profiles@.remove(idx as int)
                &&& final(self).last_selected == (if final(self).profiles@.len() == 0 { None } else { Some(0usize) })
            },
            idx >= old(self).profiles@.len() ==> {
                &&& final(self).profiles@ == old(self).profiles@
                &&& final(self).last_selected == old(self).last_selected
            },
    {
        delete_password(name);
        if idx < self.profiles.len() {
            self.profiles.remove(idx);
            self.last_selected = if self.profiles.len() == 0 { None } else { Some(0) };
        }
    }
}


/// A profile just added is the one the profile list selects.
pub proof fn lemma_added_profile_selected(profiles: Seq<ProfileConfig>, profile: ProfileConfig)
    requires
        profiles.len() < usize::MAX,
    ensures
        ({
            let after = profiles.push(profile);
            let sel = selection(Some(profiles.len() as usize), after.len());
            &&& sel == Some(profiles.len() as usize)
            &&& after[sel.unwrap() as int] == profile
        }),
{
}

/// After a profile is deleted the list's selection is valid: the first
/// profile if any is left, else none.
pub proof fn lemma_deleted_profile_selection(profiles: Seq<ProfileConfig>, idx: int)
    requires
        0 <= idx < profiles.len(),
    ensures
        ({
            let after = profiles.remove(idx);
            let last = if after.len() == 0 { None } else { Some(0usize) };
            &&& selection(last, after.len()) == last
            &&& (last is None <==> after.len() == 0)
        }),
{
}

} // verus!
