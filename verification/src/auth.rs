//! Authentication from the configuration: users with passwords, roles and
//! attributes; sessions that expire; and what a session's user may do.
use vstd::prelude::*;
use argon2::PasswordVerifier;
use rand::distr::SampleString;
use crate::state::{nanos_between, ByteCode, Duration, Timestamp};
use crate::string_map::{entries_map, keys_distinct, lemma_entries_map_push, StringMap};
use crate::strutil::{str_eq, to_owned};
use crate::tasks::ids_distinct;

verus! {

#[verifier::external_type_specification]
#[verifier::external_body]
pub struct ExPasswordHashError(argon2::password_hash::Error);

/// The verdict of Argon2 on `password` against the PHC string `hash`: whether it
/// matches, or `None` when the hash cannot be used (it does not parse, names an
/// unsupported algorithm or invalid parameters, or hashing fails).
pub uninterp spec fn argon2_verdict(password: Seq<char>, hash: Seq<char>) -> Option<bool>;

/// Verifies `password` against the PHC string `hash` with `argon2::Argon2`'s
/// default instance (`PasswordVerifier<str>::verify_password`, which parses the
/// hash and compares the recomputed output). Claimed: a match gives `Ok(true)`,
/// the crate's `PasswordInvalid` error gives `Ok(false)`, any other error is
/// passed on; the outcome is a function of the two strings alone.
#[verifier::external_body]
fn argon2_verify(password: &str, hash: &str) -> (r: Result<bool, argon2::password_hash::Error>)
    ensures
        match r {
            Ok(b) => argon2_verdict(password@, hash@) == Some(b),
            Err(_) => argon2_verdict(password@, hash@) is None,
        },
{
    match argon2::Argon2::default().verify_password(password.as_bytes(), hash) {
        Ok(()) => Ok(true),
        Err(argon2::password_hash::Error::PasswordInvalid) => Ok(false),
        Err(e) => Err(e),
    }
}

/// Whether `c` is an ASCII letter or digit.
pub open spec fn is_alphanumeric(c: char) -> bool {
    ('a' <= c <= 'z') || ('A' <= c <= 'Z') || ('0' <= c <= '9')
}

/// `len` characters drawn by `rand`'s `Alphanumeric` distribution from the
/// thread-local generator (`SampleString::sample_string`). Claimed: the string has
/// `len` characters, each an ASCII letter or digit; which ones is left open.
#[verifier::external_body]
fn random_alphanumeric(len: usize) -> (r: String)
    ensures
        r@.len() == len,
        forall|i: int| 0 <= i < r@.len() ==> is_alphanumeric(#[trigger] r@[i]),
{
    rand::distr::Alphanumeric.sample_string(&mut rand::rng(), len)
}

/// The current time (`chrono::Utc::now`), as seconds since the epoch and
/// nanoseconds past them. Claimed: only that the nanoseconds stay below two
/// seconds' worth, as chrono documents for leap seconds; the time itself is left open.
#[verifier::external_body]
pub(crate) fn now() -> (r: Timestamp)
    ensures
        r.nanos < 2_000_000_000,
{
    let t = chrono::Utc::now();
    Timestamp { secs: t.timestamp(), nanos: t.timestamp_subsec_nanos() }
}

/// The number of characters in a session id.
pub const SESSION_ID_LENGTH: usize = 256;

/// A new random session id: [`SESSION_ID_LENGTH`] ASCII letters and digits.
pub fn generate_session_id() -> (r: String)
    ensures
        r@.len() == SESSION_ID_LENGTH,
        forall|i: int| 0 <= i < r@.len() ==> is_alphanumeric(#[trigger] r@[i]),
{
    random_alphanumeric(SESSION_ID_LENGTH)
}

/// A password failed to verify because its hash could not be used.
#[derive(Debug)]
pub struct PasswordError {
    /// What the hashing library reported.
    pub source: argon2::password_hash::Error,
}

/// A stored password.
#[derive(Clone, Debug, PartialEq)]
pub enum Password {
    /// The password itself.
    Plaintext(String),
    /// An Argon2 hash of the password, as a PHC string.
    Hashed(String),
}

impl Default for Password {
    fn default() -> (r: Self)
        ensures
            r matches Password::Plaintext(p) && p@.len() == 0,
    {
        Password::Plaintext(String::new())
    }
}

impl Password {
    /// The verdict on `password`: equality for a plaintext password, Argon2's
    /// verdict for a hashed one (`None` when the hash cannot be used).
    pub open spec fn verdict(&self, password: Seq<char>) -> Option<bool> {
        match self {
            Password::Plaintext(inner) => Some(inner@ == password),
            Password::Hashed(hash) => argon2_verdict(password, hash@),
        }
    }

    /// Checks `password` against the stored one.
    pub fn verify(&self, password: &str) -> (r: Result<bool, PasswordError>)
        ensures
            match r {
                Ok(b) => self.verdict(password@) == Some(b),
                Err(_) => self.verdict(password@) is None,
            },
    {
        match self {
            Password::Plaintext(inner) => Ok(str_eq(inner.as_str(), password)),
            Password::Hashed(hash) => match argon2_verify(password, hash.as_str()) {
                Ok(b) => Ok(b),
                Err(e) => Err(PasswordError { source: e }),
            },
        }
    }
}

/// A copy of a map of attributes.
pub fn clone_attributes(m: &StringMap<ByteCode>) -> (r: StringMap<ByteCode>)
    requires
        m.wf(),
    ensures
        r.wf(),
        r@ == m@,
{
    let entries = m.entries();
    proof { m.lemma_entries(); }
    let mut r: StringMap<ByteCode> = StringMap::new();
    let mut i: usize = 0;
    while i < entries.len()
        invariant
            i <= entries@.len(),
            entries@ == m.entries_spec(),
            keys_distinct(entries@),
            r.wf(),
            r@ == entries_map(entries@.take(i as int)),
        decreases entries@.len() - i,
    {
        proof {
            let t = entries@.take(i as int);
            assert(entries@.take(i + 1) =~= t.push(entries@[i as int]));
            assert forall|j: int| 0 <= j < t.len() implies t[j].0@ != entries@[i as int].0@ by {
                assert(entries@[j].0@ != entries@[i as int].0@);
            }
            assert(keys_distinct(t)) by {
                assert forall|a: int, b: int| 0 <= a < t.len() && 0 <= b < t.len() && a != b implies #[trigger] t[a].0@ != #[trigger] t[b].0@ by {
                    assert(entries@[a].0@ != entries@[b].0@);
                }
            }
            lemma_entries_map_push(t, entries@[i as int]);
        }
        r.insert(entries[i].0.clone(), entries[i].1.clone());
        i = i + 1;
    }
    proof {
        assert(entries@.take(entries@.len() as int) =~= entries@);
    }
    r
}

/// A copy of a list of strings.
pub fn clone_strings(v: &Vec<String>) -> (r: Vec<String>)
    ensures
        r@ == v@,
{
    let mut r: Vec<String> = Vec::new();
    let mut i: usize = 0;
    while i < v.len()
        invariant
            i <= v@.len(),
            r@ == v@.take(i as int),
        decreases v@.len() - i,
    {
        r.push(v[i].clone());
        assert(v@.take(i + 1) =~= v@.take(i as int).push(v@[i as int]));
        i = i + 1;
    }
    assert(v@.take(v@.len() as int) =~= v@);
    r
}

/// Whether some string of `v` has the characters `s`.
pub open spec fn holds_string(v: Seq<String>, s: Seq<char>) -> bool {
    exists|i: int| 0 <= i < v.len() && #[trigger] v[i]@ == s
}

fn contains_string(v: &Vec<String>, s: &str) -> (r: bool)
    ensures
        r == holds_string(v@, s@),
{
    let mut i: usize = 0;
    while i < v.len()
        invariant
            i <= v@.len(),
            forall|j: int| 0 <= j < i ==> v@[j]@ != s@,
        decreases v@.len() - i,
    {
        if str_eq(v[i].as_str(), s) {
            return true;
        }
        i = i + 1;
    }
    false
}

/// A user as configured.
pub struct ConfigUser {
    /// The user's name, which identifies the user.
    pub username: String,
    /// The user's password.
    pub password: Password,
    /// The roles the user has.
    pub roles: Vec<String>,
    /// The user's attributes.
    pub attributes: StringMap<ByteCode>,
}

/// A role as configured.
pub struct Role {
    /// The role's attributes.
    pub attributes: StringMap<ByteCode>,
}

/// The configuration of the configuration-file backend.
pub struct Config {
    /// The users (a later entry for the same name replaces an earlier one).
    pub users: Vec<ConfigUser>,
    /// The roles, by name.
    pub roles: StringMap<Role>,
    /// How long a session lasts.
    pub session_duration: Duration,
}

/// A user as loaded.
pub struct LoadedUser {
    /// The user's password.
    pub password: Password,
    /// The roles the user has.
    pub roles: Vec<String>,
    /// The user's attributes.
    pub attributes: StringMap<ByteCode>,
}

/// A session: when it began, and whose it is.
#[derive(Debug, PartialEq)]
pub struct Session {
    /// When the session began.
    pub created: Timestamp,
    /// The user the session belongs to.
    pub user: String,
}

/// The users that a list of configured users stands for: by name, a later entry
/// replacing an earlier one.
pub open spec fn loaded_users(users: Seq<ConfigUser>) -> Map<Seq<char>, (Password, Seq<String>, Map<Seq<char>, ByteCode>)>
    decreases users.len(),
{
    if users.len() == 0 {
        Map::empty()
    } else {
        let u = users.last();
        loaded_users(users.drop_last()).insert(u.username@, (u.password, u.roles@, u.attributes@))
    }
}

/// The user that session `id` names at time `now`: none for an unknown session or
/// one older than `max_age`.
pub open spec fn session_user(sessions: Map<Seq<char>, Session>, max_age: Duration, id: Seq<char>, now: Timestamp) -> Option<Seq<char>> {
    match sessions.get(id) {
        None => None,
        Some(s) => if now.as_nanos() - s.created.as_nanos() > max_age.nanos {
            None
        } else {
            Some(s.user@)
        },
    }
}

/// A session stored by a login names its user for as long as it is not older than
/// the session duration.
pub proof fn law_new_session_names_its_user(
    sessions: Map<Seq<char>, Session>,
    max_age: Duration,
    id: Seq<char>,
    session: Session,
    now: Timestamp,
)
    requires
        now.as_nanos() - session.created.as_nanos() <= max_age.nanos,
    ensures
        session_user(sessions.insert(id, session), max_age, id, now) == Some(session.user@),
{
}

/// Once older than the session duration, a session names no one, and looking it up
/// removes it, after which it names no one at any time.
pub proof fn law_expired_session_names_no_one(
    sessions: Map<Seq<char>, Session>,
    max_age: Duration,
    id: Seq<char>,
    now: Timestamp,
    later: Timestamp,
)
    requires
        sessions.dom().contains(id),
        now.as_nanos() - sessions[id].created.as_nanos() > max_age.nanos,
    ensures
        session_user(sessions, max_age, id, now) is None,
        session_user(sessions.remove(id), max_age, id, later) is None,
{
}

/// Whether looking up session `id` at time `now` in backend `a0` may give `r` and
/// leave the backend as `a1`: an unknown session gives no user and changes
/// nothing; an expired one gives no user and is removed; any other gives its user.
pub open spec fn session_lookup(a0: ConfigAuthBackend, a1: ConfigAuthBackend, id: Seq<char>, now: Timestamp, r: Option<String>) -> bool {
    match a0.sessions_spec().get(id) {
        None => r is None && a1.sessions_spec() == a0.sessions_spec(),
        Some(s) => if now.as_nanos() - s.created.as_nanos() > a0.max_session_age_spec().nanos {
            r is None && a1.sessions_spec() == a0.sessions_spec().remove(id)
        } else {
            (r matches Some(u) && u@ == s.user@ && a1.sessions_spec() == a0.sessions_spec())
        },
    }
}

/// Whether logging `username` in with `password` at time `now` may give `r` and
/// leave backend `a0` as `a1`. Users, roles and the session duration stay. An
/// unknown user or a wrong password gives `Ok(None)`, a password hash that cannot
/// be read the error, and neither changes the sessions; a right password adds one
/// session under a new id of [`SESSION_ID_LENGTH`] characters, for the user and
/// begun at `now`, and gives that id.
pub open spec fn login_outcome(
    a0: ConfigAuthBackend,
    a1: ConfigAuthBackend,
    username: Seq<char>,
    password: Seq<char>,
    now: Timestamp,
    r: Result<Option<String>, PasswordError>,
) -> bool {
    &&& a1.users_spec() == a0.users_spec()
    &&& a1.roles_spec() == a0.roles_spec()
    &&& a1.max_session_age_spec() == a0.max_session_age_spec()
    &&& if !a0.users_spec().dom().contains(username) {
        r matches Ok(None) && a1.sessions_spec() == a0.sessions_spec()
    } else {
        match a0.users_spec()[username].0.verdict(password) {
            None => r is Err && a1.sessions_spec() == a0.sessions_spec(),
            Some(false) => (r matches Ok(None) && a1.sessions_spec() == a0.sessions_spec()),
            Some(true) => (r matches Ok(Some(id)) && id@.len() == SESSION_ID_LENGTH
                && a1.sessions_spec() == a0.sessions_spec().insert(id@, a1.sessions_spec()[id@])
                && a1.sessions_spec().dom().contains(id@)
                && a1.sessions_spec()[id@].user@ == username
                && a1.sessions_spec()[id@].created == now),
        }
    }
}

/// A session made by a login at `now` names the user who logged in, at every time
/// up to the session duration after `now`.
pub proof fn law_login_session_lasts(
    a0: ConfigAuthBackend,
    a1: ConfigAuthBackend,
    username: Seq<char>,
    password: Seq<char>,
    now: Timestamp,
    id: String,
    later: Timestamp,
)
    requires
        login_outcome(a0, a1, username, password, now, Ok(Some(id))),
        later.as_nanos() - now.as_nanos() <= a1.max_session_age_spec().nanos,
    ensures
        session_user(a1.sessions_spec(), a1.max_session_age_spec(), id@, later) == Some(username),
{
}

/// The model of a loaded user: its password, roles and attributes.
pub open spec fn user_model(u: LoadedUser) -> (Password, Seq<String>, Map<Seq<char>, ByteCode>) {
    (u.password, u.roles@, u.attributes@)
}

/// Authentication backend that takes its users and roles from the configuration.
pub struct ConfigAuthBackend {
    users: StringMap<LoadedUser>,
    roles: StringMap<Role>,
    sessions: StringMap<Session>,
    max_session_age: Duration,
}

impl ConfigAuthBackend {
    /// The users, by name.
    pub closed spec fn users_spec(&self) -> Map<Seq<char>, (Password, Seq<String>, Map<Seq<char>, ByteCode>)> {
        self.users@.map_values(|u: LoadedUser| user_model(u))
    }

    /// The attributes of each role, by role name.
    pub closed spec fn roles_spec(&self) -> Map<Seq<char>, Map<Seq<char>, ByteCode>> {
        self.roles@.map_values(|r: Role| r.attributes@)
    }

    /// The sessions, by session id.
    pub closed spec fn sessions_spec(&self) -> Map<Seq<char>, Session> {
        self.sessions@
    }

    /// How long a session lasts.
    pub closed spec fn max_session_age_spec(&self) -> Duration {
        self.max_session_age
    }

    /// The backend's internal invariant.
    pub closed spec fn wf(&self) -> bool {
        &&& self.users.wf()
        &&& self.roles.wf()
        &&& self.sessions.wf()
        &&& forall|k: Seq<char>| #[trigger] self.users@.dom().contains(k) ==> self.users@[k].attributes.wf()
        &&& forall|k: Seq<char>| #[trigger] self.users@.dom().contains(k) ==> ids_distinct(self.users@[k].roles@)
        &&& forall|k: Seq<char>| #[trigger] self.roles@.dom().contains(k) ==> self.roles@[k].attributes.wf()
    }

    fn load_users(users: Vec<ConfigUser>) -> (r: StringMap<LoadedUser>)
        requires
            forall|i: int| 0 <= i < users@.len() ==> (#[trigger] users@[i]).attributes.wf(),
            forall|i: int| 0 <= i < users@.len() ==> ids_distinct((#[trigger] users@[i]).roles@),
        ensures
            r.wf(),
            forall|k: Seq<char>| #[trigger] r@.dom().contains(k) ==> r@[k].attributes.wf(),
            forall|k: Seq<char>| #[trigger] r@.dom().contains(k) ==> ids_distinct(r@[k].roles@),
            r@.map_values(|u: LoadedUser| user_model(u)) == loaded_users(users@),
    {
        let ghost all = users@;
        let mut r: StringMap<LoadedUser> = StringMap::new();
        let mut users = users;
        let mut rest: Vec<ConfigUser> = Vec::new();
        // Move the users out front to back.
        let n = users.len();
        let mut i: usize = 0;
        proof {
            assert(r@.map_values(|u: LoadedUser| user_model(u)) =~= loaded_users(all.take(0)));
            assert(users@ =~= all.skip(0));
        }
        while i < n
            invariant
                n == all.len(),
                i <= n,
                users@ =~= all.skip(i as int),
                forall|j: int| 0 <= j < all.len() ==> (#[trigger] all[j]).attributes.wf(),
                forall|j: int| 0 <= j < all.len() ==> ids_distinct((#[trigger] all[j]).roles@),
                r.wf(),
                forall|k: Seq<char>| #[trigger] r@.dom().contains(k) ==> r@[k].attributes.wf(),
                forall|k: Seq<char>| #[trigger] r@.dom().contains(k) ==> ids_distinct(r@[k].roles@),
                r@.map_values(|u: LoadedUser| user_model(u)) == loaded_users(all.take(i as int)),
            decreases n - i,
        {
            let u = users.remove(0);
            let ghost before = r@;
            let loaded = LoadedUser { password: u.password, roles: u.roles, attributes: u.attributes };
            let ghost lm = loaded;
            r.insert(u.username, loaded);
            proof {
                assert(all.take(i + 1).drop_last() =~= all.take(i as int));
                assert(all.take(i + 1).last() == all[i as int]);
                crate::string_map::lemma_map_values_insert(before, before, all[i as int].username@, lm, lm, |u: LoadedUser| user_model(u));
                assert(r@.map_values(|u: LoadedUser| user_model(u)) =~= loaded_users(all.take(i as int)).insert(
                    all[i as int].username@,
                    (all[i as int].password, all[i as int].roles@, all[i as int].attributes@),
                ));
                assert forall|k: Seq<char>| #[trigger] r@.dom().contains(k) implies r@[k].attributes.wf()
                    && ids_distinct(r@[k].roles@) by {
                    if k != all[i as int].username@ {
                        assert(before.dom().contains(k));
                    }
                }
                assert(users@ =~= all.skip(i + 1));
            }
            i = i + 1;
        }
        proof {
            assert(all.take(n as int) =~= all);
        }
        r
    }

    /// Initializes the backend from its configuration, without sessions.
    pub fn init(config: Config) -> (r: Self)
        requires
            config.roles.wf(),
            forall|k: Seq<char>| #[trigger] config.roles@.dom().contains(k) ==> config.roles@[k].attributes.wf(),
            forall|i: int| 0 <= i < config.users@.len() ==> (#[trigger] config.users@[i]).attributes.wf(),
            forall|i: int| 0 <= i < config.users@.len() ==> ids_distinct((#[trigger] config.users@[i]).roles@),
        ensures
            r.wf(),
            r.users_spec() == loaded_users(config.users@),
            r.roles_spec() == config.roles@.map_values(|ro: Role| ro.attributes@),
            r.sessions_spec() == Map::<Seq<char>, Session>::empty(),
            r.max_session_age_spec() == config.session_duration,
    {
        ConfigAuthBackend {
            users: Self::load_users(config.users),
            roles: config.roles,
            sessions: StringMap::new(),
            max_session_age: config.session_duration,
        }
    }

    /// Takes a new configuration; sessions are kept.
    pub fn reconfigure(&mut self, config: Config)
        requires
            old(self).wf(),
            config.roles.wf(),
            forall|k: Seq<char>| #[trigger] config.roles@.dom().contains(k) ==> config.roles@[k].attributes.wf(),
            forall|i: int| 0 <= i < config.users@.len() ==> (#[trigger] config.users@[i]).attributes.wf(),
            forall|i: int| 0 <= i < config.users@.len() ==> ids_distinct((#[trigger] config.users@[i]).roles@),
        ensures
            final(self).wf(),
            final(self).users_spec() == loaded_users(config.users@),
            final(self).roles_spec() == config.roles@.map_values(|ro: Role| ro.attributes@),
            final(self).sessions_spec() == old(self).sessions_spec(),
            final(self).max_session_age_spec() == config.session_duration,
    {
        self.users = Self::load_users(config.users);
        self.roles = config.roles;
        self.max_session_age = config.session_duration;
    }

    /// Logs `username` in with `password` at time `now`: an unknown user or a wrong
    /// password gives `Ok(None)`; a right one a new session, begun at `now`, whose id
    /// is returned; a stored hash that cannot be read gives the error.
    pub fn try_login_at(&mut self, username: &str, password: &str, now: Timestamp) -> (r: Result<Option<String>, PasswordError>)
        requires
            old(self).wf(),
        ensures
            final(self).wf(),
            login_outcome(*old(self), *final(self), username@, password@, now, r),
    {
        let verdict = match self.users.get(username) {
            None => return Ok(None),
            Some(user) => user.password.verify(password),
        };
        match verdict {
            Err(e) => Err(e),
            Ok(false) => Ok(None),
            Ok(true) => {
                let session_id = generate_session_id();
                self.sessions.insert(session_id.clone(), Session { created: now, user: to_owned(username) });
                Ok(Some(session_id))
            },
        }
    }

    /// Logs `username` in with `password` now (see [`Self::try_login_at`]).
    pub fn try_login(&mut self, username: &str, password: &str) -> (r: Result<Option<String>, PasswordError>)
        requires
            old(self).wf(),
        ensures
            final(self).wf(),
            exists|t: Timestamp| #[trigger] login_outcome(*old(self), *final(self), username@, password@, t, r),
    {
        let t = now();
        let r = self.try_login_at(username, password, t);
        assert(login_outcome(*old(self), *self, username@, password@, t, r));
        r
    }

    /// The user of session `session_id` at time `now`: `None` for an unknown
    /// session, and for one older than the session duration, which is removed.
    pub fn user_id_from_session_at(&mut self, session_id: &str, now: Timestamp) -> (r: Option<String>)
        requires
            old(self).wf(),
        ensures
            final(self).wf(),
            final(self).users_spec() == old(self).users_spec(),
            final(self).roles_spec() == old(self).roles_spec(),
            final(self).max_session_age_spec() == old(self).max_session_age_spec(),
            match r {
                Some(u) => session_user(old(self).sessions_spec(), old(self).max_session_age_spec(), session_id@, now) == Some(u@),
                None => session_user(old(self).sessions_spec(), old(self).max_session_age_spec(), session_id@, now) is None,
            },
            session_lookup(*old(self), *final(self), session_id@, now, r),
    {
        let expired = match self.sessions.get(session_id) {
            None => return None,
            Some(session) => {
                if nanos_between(session.created, now) > self.max_session_age.nanos {
                    true
                } else {
                    return Some(session.user.clone());
                }
            },
        };
        self.sessions.remove(session_id);
        None
    }

    /// The user of session `session_id` now (see [`Self::user_id_from_session_at`]).
    pub fn user_id_from_session(&mut self, session_id: &str) -> (r: Option<String>)
        requires
            old(self).wf(),
        ensures
            final(self).wf(),
            final(self).users_spec() == old(self).users_spec(),
            final(self).roles_spec() == old(self).roles_spec(),
            final(self).max_session_age_spec() == old(self).max_session_age_spec(),
            exists|t: Timestamp| #[trigger] session_lookup(*old(self), *final(self), session_id@, t, r),
    {
        let t = now();
        let r = self.user_id_from_session_at(session_id, t);
        assert(session_lookup(*old(self), *self, session_id@, t, r));
        r
    }

    /// The roles of user `user_id`, if the user exists.
    pub fn user_roles(&self, user_id: &str) -> (r: Option<Vec<String>>)
        requires
            self.wf(),
        ensures
            match r {
                None => !self.users_spec().dom().contains(user_id@),
                Some(v) => self.users_spec().dom().contains(user_id@) && v@ == self.users_spec()[user_id@].1
                    && ids_distinct(v@),
            },
    {
        match self.users.get(user_id) {
            None => None,
            Some(u) => Some(clone_strings(&u.roles)),
        }
    }

    /// Whether user `user_id` has role `role`, if the user exists.
    pub fn has_role(&self, user_id: &str, role: &str) -> (r: Option<bool>)
        requires
            self.wf(),
        ensures
            r == if self.users_spec().dom().contains(user_id@) {
                Some(holds_string(self.users_spec()[user_id@].1, role@))
            } else {
                None::<bool>
            },
    {
        match self.users.get(user_id) {
            None => None,
            Some(u) => Some(contains_string(&u.roles, role)),
        }
    }

    /// The attributes of user `user_id`, if the user exists.
    pub fn user_attributes(&self, user_id: &str) -> (r: Option<StringMap<ByteCode>>)
        requires
            self.wf(),
        ensures
            match r {
                None => !self.users_spec().dom().contains(user_id@),
                Some(m) => self.users_spec().dom().contains(user_id@) && m.wf() && m@ == self.users_spec()[user_id@].2,
            },
    {
        match self.users.get(user_id) {
            None => None,
            Some(u) => Some(clone_attributes(&u.attributes)),
        }
    }

    /// Attribute `attribute_id` of user `user_id`, if both exist.
    pub fn user_get_attribute(&self, user_id: &str, attribute_id: &str) -> (r: Option<ByteCode>)
        requires
            self.wf(),
        ensures
            r == if self.users_spec().dom().contains(user_id@) {
                self.users_spec()[user_id@].2.get(attribute_id@)
            } else {
                None::<ByteCode>
            },
    {
        match self.users.get(user_id) {
            None => None,
            Some(u) => match u.attributes.get(attribute_id) {
                None => None,
                Some(v) => Some(v.clone()),
            },
        }
    }

    /// The users that have role `role_id`, in the order in which they are stored.
    pub fn role_users(&self, role_id: &str) -> (r: Vec<String>)
        requires
            self.wf(),
        ensures
            forall|i: int| 0 <= i < r@.len() ==> #[trigger] self.users_spec().dom().contains(r@[i]@)
                && holds_string(self.users_spec()[r@[i]@].1, role_id@),
            forall|k: Seq<char>| #[trigger] self.users_spec().dom().contains(k) && holds_string(self.users_spec()[k].1, role_id@)
                ==> holds_string(r@, k),
            forall|i: int, j: int| 0 <= i < r@.len() && 0 <= j < r@.len() && i != j ==> (#[trigger] r@[i])@ != (#[trigger] r@[j])@,
    {
        let entries = self.users.entries();
        proof { self.users.lemma_entries(); }
        let mut r: Vec<String> = Vec::new();
        let ghost mut idx: Seq<int> = Seq::empty();
        let mut i: usize = 0;
        while i < entries.len()
            invariant
                i <= entries@.len(),
                entries@ == self.users.entries_spec(),
                keys_distinct(entries@),
                self.users@ == entries_map(entries@),
                idx.len() == r@.len(),
                forall|x: int| 0 <= x < idx.len() ==> 0 <= #[trigger] idx[x] < i,
                forall|x: int| 0 <= x < idx.len() ==> entries@[#[trigger] idx[x]].0@ == r@[x]@
                    && holds_string(entries@[idx[x]].1.roles@, role_id@),
                forall|a: int, b: int| 0 <= a < b < idx.len() ==> #[trigger] idx[a] < #[trigger] idx[b],
                forall|l: int| 0 <= l < i && holds_string(entries@[l].1.roles@, role_id@) ==> holds_string(r@, #[trigger] entries@[l].0@),
            decreases entries@.len() - i,
        {
            if contains_string(&entries[i].1.roles, role_id) {
                let ghost before = r@;
                r.push(entries[i].0.clone());
                proof {
                    idx = idx.push(i as int);
                    assert forall|l: int| 0 <= l < i + 1 && holds_string(entries@[l].1.roles@, role_id@) implies holds_string(r@, #[trigger] entries@[l].0@) by {
                        if l < i {
                            let x = choose|x: int| 0 <= x < before.len() && #[trigger] before[x]@ == entries@[l].0@;
                            assert(r@[x] == before[x]);
                        } else {
                            assert(r@[r@.len() - 1]@ == entries@[l].0@);
                        }
                    }
                }
            }
            i = i + 1;
        }
        proof {
            assert forall|x: int| 0 <= x < r@.len() implies #[trigger] self.users_spec().dom().contains(r@[x]@)
                && holds_string(self.users_spec()[r@[x]@].1, role_id@) by {
                let l = idx[x];
                assert(entries@[idx[x]].0@ == r@[x]@);
                crate::string_map::lemma_entries_map_at(entries@, l);
            }
            assert forall|k: Seq<char>| #[trigger] self.users_spec().dom().contains(k) && holds_string(self.users_spec()[k].1, role_id@)
                implies holds_string(r@, k) by {
                let l = crate::string_map::key_index(entries@, k);
                assert(entries@[l].0@ == k);
            }
            assert forall|a: int, b: int| 0 <= a < r@.len() && 0 <= b < r@.len() && a != b implies (#[trigger] r@[a])@ != (#[trigger] r@[b])@ by {
                assert(entries@[idx[a]].0@ == r@[a]@);
                assert(entries@[idx[b]].0@ == r@[b]@);
                if a < b {
                    assert(idx[a] < idx[b]);
                } else {
                    assert(idx[b] < idx[a]);
                }
            }
        }
        r
    }

    /// The attributes of role `role_id`, if the role exists.
    pub fn role_attributes(&self, role_id: &str) -> (r: Option<StringMap<ByteCode>>)
        requires
            self.wf(),
        ensures
            match r {
                None => !self.roles_spec().dom().contains(role_id@),
                Some(m) => self.roles_spec().dom().contains(role_id@) && m.wf() && m@ == self.roles_spec()[role_id@],
            },
    {
        match self.roles.get(role_id) {
            None => None,
            Some(ro) => Some(clone_attributes(&ro.attributes)),
        }
    }

    /// Attribute `attribute_id` of role `role_id`, if both exist.
    pub fn role_get_attribute(&self, role_id: &str, attribute_id: &str) -> (r: Option<ByteCode>)
        requires
            self.wf(),
        ensures
            r == if self.roles_spec().dom().contains(role_id@) {
                self.roles_spec()[role_id@].get(attribute_id@)
            } else {
                None::<ByteCode>
            },
    {
        match self.roles.get(role_id) {
            None => None,
            Some(ro) => match ro.attributes.get(attribute_id) {
                None => None,
                Some(v) => Some(v.clone()),
            },
        }
    }
}

/// The boolean that an attribute value holds, if it is one.
pub open spec fn flag_of(v: Option<ByteCode>) -> Option<bool> {
    match v {
        Some(ByteCode::Bool(b)) => Some(b),
        _ => None,
    }
}

/// The value of boolean attribute `attr` on the first of `roles` that has it as a
/// boolean (`false` when none has); roles that do not exist are passed over.
pub open spec fn role_flag(roles: Seq<String>, role_attrs: Map<Seq<char>, Map<Seq<char>, ByteCode>>, attr: Seq<char>) -> bool
    decreases roles.len(),
{
    if roles.len() == 0 {
        false
    } else {
        let found = if role_attrs.dom().contains(roles[0]@) {
            flag_of(role_attrs[roles[0]@].get(attr))
        } else {
            None
        };
        match found {
            Some(b) => b,
            None => role_flag(roles.skip(1), role_attrs, attr),
        }
    }
}

/// The attribute by which a user or role ignores the default api rules.
pub open spec fn ignores_attribute() -> Seq<char> {
    "ignores_api_rules"@
}

/// The other accepted spelling of [`ignores_attribute`].
pub open spec fn ignore_attribute() -> Seq<char> {
    "ignore_api_rules"@
}

/// Whether a user with these attributes and roles ignores the default api rules:
/// the user's own boolean attribute decides, under either spelling, the first one
/// first; else the first of the user's roles with such an attribute does, under
/// either spelling.
pub open spec fn ignores_rules(
    user_attrs: Map<Seq<char>, ByteCode>,
    roles: Seq<String>,
    role_attrs: Map<Seq<char>, Map<Seq<char>, ByteCode>>,
) -> bool {
    match flag_of(user_attrs.get(ignores_attribute())) {
        Some(b) => b,
        None => match flag_of(user_attrs.get(ignore_attribute())) {
            Some(b) => b,
            None => role_flag(roles, role_attrs, ignores_attribute()) || role_flag(roles, role_attrs, ignore_attribute()),
        },
    }
}

/// Whether session `session_id` may give the rights `r` at time `now` and leave
/// the authentication backend `a0` as `a1`: none without a session id, without a
/// backend, or for a session that is unknown or expired (an expired one is
/// removed); else those of its user. Users, roles and the session duration stay.
pub open spec fn session_rights(
    session_id: Option<&str>,
    a0: Option<ConfigAuthBackend>,
    a1: Option<ConfigAuthBackend>,
    now: Timestamp,
    r: User,
) -> bool {
    match (session_id, a0, a1) {
        (Some(id), Some(a0), Some(a1)) => {
            &&& a1.wf()
            &&& a1.users_spec() == a0.users_spec()
            &&& a1.roles_spec() == a0.roles_spec()
            &&& a1.max_session_age_spec() == a0.max_session_age_spec()
            &&& match a0.sessions_spec().get(id@) {
                None => r == User::none() && a1.sessions_spec() == a0.sessions_spec(),
                Some(s) => if now.as_nanos() - s.created.as_nanos() > a0.max_session_age_spec().nanos {
                    r == User::none() && a1.sessions_spec() == a0.sessions_spec().remove(id@)
                } else {
                    r == User::of(a0.users_spec(), a0.roles_spec(), s.user@)
                        && a1.sessions_spec() == a0.sessions_spec()
                },
            }
        },
        (Some(_), Some(_), None) => false,
        _ => r == User::none() && a1 == a0,
    }
}

/// What a request may see, by who made it.
#[derive(Clone, Copy, Debug, PartialEq, Eq, Structural)]
pub struct User {
    /// Whether the user has the role `admin`.
    pub is_admin: bool,
    /// Whether the default api rules are waived for the user.
    pub ignores_default_api_rules: bool,
}

impl User {
    /// The rights of a request without a logged-in user: none.
    pub open spec fn none() -> User {
        User { is_admin: false, ignores_default_api_rules: false }
    }

    /// The rights of a request without a logged-in user.
    pub fn unauthed() -> (r: User)
        ensures
            r == User::none(),
    {
        User { is_admin: false, ignores_default_api_rules: false }
    }

    /// The rights of user `user_id` in a backend with these users and roles
    /// (none for an unknown user).
    pub open spec fn of(
        users: Map<Seq<char>, (Password, Seq<String>, Map<Seq<char>, ByteCode>)>,
        role_attrs: Map<Seq<char>, Map<Seq<char>, ByteCode>>,
        user_id: Seq<char>,
    ) -> User {
        if users.dom().contains(user_id) {
            User {
                is_admin: holds_string(users[user_id].1, "admin"@),
                ignores_default_api_rules: ignores_rules(users[user_id].2, users[user_id].1, role_attrs),
            }
        } else {
            User::none()
        }
    }

    fn first_role_flag(auth: &ConfigAuthBackend, roles: &Vec<String>, attr: &str) -> (r: bool)
        requires
            auth.wf(),
        ensures
            r == role_flag(roles@, auth.roles_spec(), attr@),
    {
        let mut i: usize = 0;
        assert(roles@.skip(0) =~= roles@);
        while i < roles.len()
            invariant
                auth.wf(),
                i <= roles@.len(),
                role_flag(roles@, auth.roles_spec(), attr@) == role_flag(roles@.skip(i as int), auth.roles_spec(), attr@),
            decreases roles@.len() - i,
        {
            let ghost rest = roles@.skip(i as int);
            assert(rest[0] == roles@[i as int]);
            assert(rest.skip(1) =~= roles@.skip(i + 1));
            match auth.role_get_attribute(roles[i].as_str(), attr) {
                Some(ByteCode::Bool(b)) => {
                    return b;
                },
                _ => {},
            }
            i = i + 1;
        }
        assert(roles@.skip(i as int).len() == 0);
        false
    }

    /// The rights of user `user_id` (none for an unknown user): admin by the role
    /// `admin`, and waived from the default api rules as [`ignores_rules`] says.
    pub fn for_user(auth: &ConfigAuthBackend, user_id: &str) -> (r: User)
        requires
            auth.wf(),
        ensures
            r == User::of(auth.users_spec(), auth.roles_spec(), user_id@),
    {
        let is_admin = match auth.has_role(user_id, "admin") {
            Some(b) => b,
            None => false,
        };
        let roles = match auth.user_roles(user_id) {
            Some(v) => v,
            None => Vec::new(),
        };
        let mut ignores = false;
        match auth.user_get_attribute(user_id, "ignores_api_rules") {
            Some(ByteCode::Bool(b)) => {
                ignores = b;
            },
            _ => {
                ignores = Self::first_role_flag(auth, &roles, "ignores_api_rules");
                match auth.user_get_attribute(user_id, "ignore_api_rules") {
                    Some(ByteCode::Bool(b)) => {
                        ignores = b;
                    },
                    _ => {
                        let second = Self::first_role_flag(auth, &roles, "ignore_api_rules");
                        ignores = ignores || second;
                    },
                }
            },
        }
        User { is_admin, ignores_default_api_rules: ignores }
    }

    /// The rights that session `session_id` gives at time `now`: none without a
    /// session id, without an authentication backend, or for a session that is
    /// unknown or expired (an expired one is removed); else those of its user.
    pub fn from_session_id_at(session_id: Option<&str>, auth: &mut Option<ConfigAuthBackend>, now: Timestamp) -> (r: User)
        requires
            match *old(auth) { Some(a) => a.wf(), None => true },
        ensures
            session_rights(session_id, *old(auth), *final(auth), now, r),
    {
        let id = match session_id {
            None => return User::unauthed(),
            Some(id) => id,
        };
        match auth {
            None => User::unauthed(),
            Some(a) => match a.user_id_from_session_at(id, now) {
                None => User::unauthed(),
                Some(user_id) => Self::for_user(a, user_id.as_str()),
            },
        }
    }

    /// The rights that session `session_id` gives now (see [`Self::from_session_id_at`]).
    pub fn from_session_id(session_id: Option<&str>, auth: &mut Option<ConfigAuthBackend>) -> (r: User)
        requires
            match *old(auth) { Some(a) => a.wf(), None => true },
        ensures
            exists|t: Timestamp| #[trigger] session_rights(session_id, *old(auth), *final(auth), t, r),
    {
        let t = now();
        let r = Self::from_session_id_at(session_id, auth, t);
        assert(session_rights(session_id, *old(auth), *auth, t, r));
        r
    }
}

impl Default for User {
    fn default() -> (r: Self)
        ensures
            r == User::none(),
    {
        User::unauthed()
    }
}

/// A plaintext password verifies exactly the same text.
pub proof fn law_plaintext_verifies_only_itself(stored: String, given: Seq<char>)
    ensures
        Password::Plaintext(stored).verdict(given) == Some(stored@ == given),
{
}

/// The role `admin` makes a user an admin, and a boolean `ignores_api_rules`
/// attribute of the user's own decides whether the default api rules are waived,
/// whatever the user's roles say.
pub proof fn law_own_attribute_decides(
    users: Map<Seq<char>, (Password, Seq<String>, Map<Seq<char>, ByteCode>)>,
    role_attrs: Map<Seq<char>, Map<Seq<char>, ByteCode>>,
    user_id: Seq<char>,
    waived: bool,
)
    requires
        users.dom().contains(user_id),
        users[user_id].2.get(ignores_attribute()) == Some(ByteCode::Bool(waived)),
    ensures
        User::of(users, role_attrs, user_id).ignores_default_api_rules == waived,
        User::of(users, role_attrs, user_id).is_admin == holds_string(users[user_id].1, "admin"@),
{
}

/// An unknown user has no rights.
pub proof fn law_unknown_user_has_no_rights(
    users: Map<Seq<char>, (Password, Seq<String>, Map<Seq<char>, ByteCode>)>,
    role_attrs: Map<Seq<char>, Map<Seq<char>, ByteCode>>,
    user_id: Seq<char>,
)
    requires
        !users.dom().contains(user_id),
    ensures
        User::of(users, role_attrs, user_id) == User::none(),
{
}

} // verus!
