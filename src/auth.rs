use vstd::prelude::*;

use argon2::password_hash::{PasswordHash, PasswordHasher, PasswordVerifier, SaltString};
use argon2::Argon2;

use crate::error::CenterError;
use crate::sources::TIMESTAMP_BOUND;
use crate::text::{copy_text, is_blank, trim_of};

verus! {

#[verifier::external_type_specification]
#[verifier::external_body]
pub struct ExHashError(argon2::password_hash::Error);

/// How long a session stays valid: 24 hours, in milliseconds.
pub const SESSION_TTL_MS: i64 = 86_400_000;

/// Whether argon2 accepts `password` against the PHC string `hash`.
pub uninterp spec fn password_matches(password: Seq<char>, hash: Seq<char>) -> bool;

/// The longest password, in characters, that argon2 always hashes: its limit
/// is `u32::MAX` bytes, and a character takes at most four.
pub const MAX_PASSWORD_CHARS: usize = 0x3FFF_FFFF;

/// Relies on argon2's `SaltString::generate` with the operating system's
/// generator, and on `Argon2::hash_password` with the default parameters:
/// a salted hash in PHC string form, different on every call. It fails only
/// on a password longer than `MAX_PWD_LEN` bytes, and the hash it gives
/// verifies the password, since verification hashes again with the salt and
/// parameters stored in the string.
#[verifier::external_body]
fn hash_password(password: &str) -> (r: Result<String, argon2::password_hash::Error>)
    ensures
        password@.len() <= MAX_PASSWORD_CHARS ==> r is Ok,
        r matches Ok(h) ==> password_matches(password@, h@),
{
    let salt = SaltString::generate(&mut rand::rngs::OsRng);
    Argon2::default().hash_password(password.as_bytes(), &salt).map(|h| h.to_string())
}

/// Relies on argon2's `PasswordHash::new` and `Argon2::verify_password`: whether
/// the password matches the PHC string; one that does not parse matches
/// nothing.
#[verifier::external_body]
fn verify_password(password: &str, hash: &str) -> (r: bool)
    ensures
        r == password_matches(password@, hash@),
{
    match PasswordHash::new(hash) {
        Ok(parsed) => Argon2::default().verify_password(password.as_bytes(), &parsed).is_ok(),
        Err(_) => false,
    }
}

/// A login session, valid until its expiry.
#[derive(Debug, Clone)]
pub struct Session {
    pub token: String,
    pub username: String,
    pub created_at: i64,
    pub expires_at: i64,
}

/// The contents of a session.
pub struct SessionView {
    pub token: Seq<char>,
    pub username: Seq<char>,
    pub created_at: i64,
    pub expires_at: i64,
}

impl View for Session {
    type V = SessionView;

    open spec fn view(&self) -> SessionView {
        SessionView {
            token: self.token@,
            username: self.username@,
            created_at: self.created_at,
            expires_at: self.expires_at,
        }
    }
}

impl Session {
    /// Whether the session is past its expiry at `now`.
    pub fn is_expired_at(&self, now: i64) -> (r: bool)
        ensures
            r == (self.expires_at <= now),
    {
        self.expires_at <= now
    }

    /// Whether the session is past its expiry now.
    pub fn is_expired(&self) -> (r: bool)
        ensures
            self.expires_at <= -TIMESTAMP_BOUND ==> r,
            self.expires_at >= TIMESTAMP_BOUND ==> !r,
    {
        self.is_expired_at(crate::sources::now_millis())
    }

    /// A session with the same contents.
    pub fn copy(&self) -> (r: Session)
        ensures
            r@ == self@,
    {
        Session {
            token: copy_text(&self.token),
            username: copy_text(&self.username),
            created_at: self.created_at,
            expires_at: self.expires_at,
        }
    }
}

/// A username with the hash of its password.
pub struct StoredCredential {
    pub username: String,
    pub password_hash: String,
}

/// The contents of a stored credential.
pub struct CredentialView {
    pub username: Seq<char>,
    pub password_hash: Seq<char>,
}

impl View for StoredCredential {
    type V = CredentialView;

    open spec fn view(&self) -> CredentialView {
        CredentialView { username: self.username@, password_hash: self.password_hash@ }
    }
}

/// The sessions that are still valid at `now`, in order.
pub open spec fn live(s: Seq<SessionView>, now: i64) -> Seq<SessionView>
    decreases s.len(),
{
    if s.len() == 0 {
        Seq::empty()
    } else if now < s.last().expires_at {
        live(s.drop_last(), now).push(s.last())
    } else {
        live(s.drop_last(), now)
    }
}

/// A session is among those still valid at `now` exactly when it is held
/// and `now` comes before its expiry.
pub proof fn lemma_live_contains(s: Seq<SessionView>, now: i64, x: SessionView)
    ensures
        live(s, now).contains(x) <==> s.contains(x) && now < x.expires_at,
    decreases s.len(),
{
    if s.len() > 0 {
        lemma_live_contains(s.drop_last(), now, x);
        assert(s =~= s.drop_last().push(s.last()));
        if now < s.last().expires_at {
            let l = live(s.drop_last(), now);
            assert(l.push(s.last()).last() == s.last());
            if l.contains(x) {
                let k = choose|k: int| 0 <= k < l.len() && l[k] == x;
                assert(l.push(s.last())[k] == x);
            }
            if l.push(s.last()).contains(x) && x != s.last() {
                let k = choose|k: int| 0 <= k < l.len() + 1 && l.push(s.last())[k] == x;
                assert(l[k] == x);
            }
        }
        if s.contains(x) && x != s.last() {
            let k = choose|k: int| 0 <= k < s.len() && s[k] == x;
            assert(s.drop_last()[k] == x);
        }
        if s.drop_last().contains(x) {
            let k = choose|k: int| 0 <= k < s.len() - 1 && s.drop_last()[k] == x;
            assert(s[k] == x);
        }
        if x == s.last() {
            assert(s[s.len() - 1] == x);
        }
    }
}

/// Some session in `s` has the token and is valid at `now`.
pub open spec fn token_valid(s: Seq<SessionView>, token: Seq<char>, now: i64) -> bool {
    exists|i: int| 0 <= i < s.len() && s[i].token == token && now < s[i].expires_at
}

/// A session stays usable up to its expiry and no later: where `s` holds
/// `x` and no other session with its token, the token is valid at `now`
/// exactly when `now` comes before `x`'s expiry.
pub proof fn lemma_session_usable_until_expiry(s: Seq<SessionView>, x: SessionView, now: i64)
    requires
        s.contains(x),
        forall|i: int| 0 <= i < s.len() && s[i].token == x.token ==> s[i] == x,
    ensures
        token_valid(s, x.token, now) <==> now < x.expires_at,
{
    if now < x.expires_at {
        let k = choose|k: int| 0 <= k < s.len() && s[k] == x;
        assert(s[k].token == x.token);
    }
}

/// No two sessions share a token.
pub open spec fn tokens_unique(s: Seq<SessionView>) -> bool {
    forall|i: int, j: int| 0 <= i < s.len() && 0 <= j < s.len() && i != j ==> s[i].token != s[j].token
}

/// No two credentials share a username.
pub open spec fn usernames_unique(s: Seq<CredentialView>) -> bool {
    forall|i: int, j: int|
        0 <= i < s.len() && 0 <= j < s.len() && i != j ==> s[i].username != s[j].username
}

/// Some credential has the username.
pub open spec fn holds_user(s: Seq<CredentialView>, username: Seq<char>) -> bool {
    exists|i: int| 0 <= i < s.len() && s[i].username == username
}

/// Why a password is not set, if it is not: a blank username, else a blank
/// password.
pub open spec fn password_refusal(username: Seq<char>, password: Seq<char>) -> Option<CenterError> {
    if trim_of(username).len() == 0 {
        Some(CenterError::UsernameRequired)
    } else if trim_of(password).len() == 0 {
        Some(CenterError::PasswordRequired)
    } else {
        None
    }
}

/// `s` with the credential of `c.username` set to `c`: replaced where there
/// is one, added last where there is none.
pub open spec fn stored(s: Seq<CredentialView>, c: CredentialView) -> Seq<CredentialView> {
    if holds_user(s, c.username) {
        s.update(choose|i: int| 0 <= i < s.len() && s[i].username == c.username, c)
    } else {
        s.push(c)
    }
}

/// `s` with `x` in place of the session with its token, or with `x` added last.
pub open spec fn with_session(s: Seq<SessionView>, x: SessionView) -> Seq<SessionView> {
    if exists|i: int| 0 <= i < s.len() && s[i].token == x.token {
        s.update(choose|i: int| 0 <= i < s.len() && s[i].token == x.token, x)
    } else {
        s.push(x)
    }
}

/// Why a login is refused, if it is: the same refusal whether the username
/// is unknown or the password does not match.
pub open spec fn login_refusal(s: Seq<CredentialView>, username: Seq<char>, password: Seq<char>) -> Option<CenterError> {
    if exists|i: int|
        0 <= i < s.len() && s[i].username == username && password_matches(password, s[i].password_hash) {
        None
    } else {
        Some(CenterError::InvalidCredentials)
    }
}

/// A login with a wrong password and one with an unknown username are
/// refused alike.
pub proof fn lemma_login_refusals_agree(
    s: Seq<CredentialView>,
    known: Seq<char>,
    wrong: Seq<char>,
    unknown: Seq<char>,
    any: Seq<char>,
)
    requires
        usernames_unique(s),
        holds_user(s, known),
        forall|i: int| 0 <= i < s.len() && s[i].username == known ==> !password_matches(wrong, s[i].password_hash),
        !holds_user(s, unknown),
    ensures
        login_refusal(s, known, wrong) is Some,
        login_refusal(s, known, wrong) == login_refusal(s, unknown, any),
{
}

/// Once a hash that matches `p` is stored for `u`, logging in as `u` with
/// `p` is accepted, and with a password that the hash does not match is
/// refused: the credential is replaced, not added to.
pub proof fn lemma_login_after_set_password(
    s: Seq<CredentialView>,
    u: Seq<char>,
    p: Seq<char>,
    h: Seq<char>,
    q: Seq<char>,
)
    requires
        usernames_unique(s),
        password_matches(p, h),
        !password_matches(q, h),
    ensures
        ({
            let t = stored(s, CredentialView { username: u, password_hash: h });
            &&& login_refusal(t, u, p) is None
            &&& login_refusal(t, u, q) == Some(CenterError::InvalidCredentials)
        }),
{
    let c = CredentialView { username: u, password_hash: h };
    let t = stored(s, c);
    if holds_user(s, u) {
        let k = choose|i: int| 0 <= i < s.len() && s[i].username == u;
        assert(t[k] == c);
        assert forall|i: int| 0 <= i < t.len() && t[i].username == u implies t[i].password_hash == h by {
            if i != k {
                assert(t[i] == s[i]);
            }
        }
    } else {
        assert(t[s.len() as int] == c);
        assert forall|i: int| 0 <= i < t.len() && t[i].username == u implies t[i].password_hash == h by {
            if i < s.len() {
                assert(t[i] == s[i]);
            }
        }
    }
}

/// The session a login at `now` opens.
pub open spec fn opened_session(token: Seq<char>, username: Seq<char>, now: i64) -> SessionView {
    SessionView { token, username, created_at: now, expires_at: (now + SESSION_TTL_MS) as i64 }
}

/// The credentials and the sessions opened with them.
pub struct SessionManager {
    credentials: Vec<StoredCredential>,
    sessions: Vec<Session>,
}

impl SessionManager {
    /// The stored credentials.
    pub closed spec fn credentials(&self) -> Seq<CredentialView> {
        self.credentials@.map_values(|c: StoredCredential| c@)
    }

    /// The sessions held, oldest first; some may have expired.
    pub closed spec fn sessions(&self) -> Seq<SessionView> {
        self.sessions@.map_values(|s: Session| s@)
    }

    pub open spec fn wf(&self) -> bool {
        usernames_unique(self.credentials()) && tokens_unique(self.sessions())
    }

    /// No credentials and no sessions.
    pub fn new() -> (r: SessionManager)
        ensures
            r.wf(),
            r.credentials().len() == 0,
            r.sessions().len() == 0,
    {
        SessionManager { credentials: Vec::new(), sessions: Vec::new() }
    }

    /// Where the credential of the username stands, if there is one.
    fn credential_position(&self, username: &str) -> (r: Option<usize>)
        requires
            self.wf(),
        ensures
            r is None ==> !holds_user(self.credentials(), username@),
            r matches Some(i) ==> i < self.credentials().len() && self.credentials()[i as int].username == username@,
    {
        let key = String::from_str(username);
        let mut i: usize = 0;
        while i < self.credentials.len()
            invariant
                i <= self.credentials@.len(),
                key@ == username@,
                forall|j: int| 0 <= j < i ==> self.credentials()[j].username != username@,
            decreases self.credentials@.len() - i,
        {
            if self.credentials[i].username == key {
                return Some(i);
            }
            i = i + 1;
        }
        None
    }

    /// Whether a credential is stored for the username.
    pub fn has_user(&self, username: &str) -> (r: bool)
        requires
            self.wf(),
        ensures
            r == holds_user(self.credentials(), username@),
    {
        self.credential_position(username).is_some()
    }

    /// Stores `password_hash` as the credential of `username`, replacing the
    /// one it had.
    pub fn store_hash(&mut self, username: String, password_hash: String)
        requires
            old(self).wf(),
        ensures
            final(self).wf(),
            final(self).sessions() == old(self).sessions(),
            final(self).credentials() == stored(
                old(self).credentials(),
                CredentialView { username: username@, password_hash: password_hash@ },
            ),
    {
        let ghost c = CredentialView { username: username@, password_hash: password_hash@ };
        let ghost before = self.credentials();
        match self.credential_position(username.as_str()) {
            Some(i) => {
                self.credentials.set(i, StoredCredential { username, password_hash });
                proof {
                    assert(self.credentials() =~= before.update(i as int, c));
                    let k = choose|k: int| 0 <= k < before.len() && before[k].username == c.username;
                    assert(k == i);
                }
            },
            None => {
                self.credentials.push(StoredCredential { username, password_hash });
                proof {
                    assert(self.credentials() =~= before.push(c));
                }
            },
        }
        proof {
            assert(self.sessions() =~= old(self).sessions());
        }
    }

    /// Hashes `password` with a fresh salt and stores it as the credential of
    /// `username`, in place of the one it had. Refuses a username or a
    /// password that is empty after trimming; hashing fails only on a
    /// password too long for argon2.
    pub fn set_password(&mut self, username: String, password: String) -> (r: Result<(), CenterError>)
        requires
            old(self).wf(),
        ensures
            final(self).wf(),
            final(self).sessions() == old(self).sessions(),
            password_refusal(username@, password@) matches Some(e) ==> r == Err::<(), CenterError>(e),
            password_refusal(username@, password@) is None && password@.len() <= MAX_PASSWORD_CHARS ==> r is Ok,
            r matches Err(e) ==> final(self).credentials() == old(self).credentials()
                && (password_refusal(username@, password@) == Some(e) || (password_refusal(username@, password@) is None
                && e is HashFailure)),
            r is Ok ==> password_refusal(username@, password@) is None && exists|h: Seq<char>|
                password_matches(password@, h) && final(self).credentials() == stored(
                    old(self).credentials(),
                    CredentialView { username: username@, password_hash: h },
                ),
    {
        if is_blank(username.as_str()) {
            return Err(CenterError::UsernameRequired);
        }
        if is_blank(password.as_str()) {
            return Err(CenterError::PasswordRequired);
        }
        match hash_password(password.as_str()) {
            Ok(hash) => {
                self.store_hash(username, hash);
                Ok(())
            },
            Err(_) => Err(CenterError::HashFailure),
        }
    }

    /// Where no credential has the username, hashes `password` and stores it
    /// for the username; a credential already there is kept.
    pub fn ensure_user(&mut self, username: String, password: &str)
        requires
            old(self).wf(),
            password@.len() <= MAX_PASSWORD_CHARS,
        ensures
            final(self).wf(),
            final(self).sessions() == old(self).sessions(),
            holds_user(old(self).credentials(), username@) ==> final(self).credentials() == old(self).credentials(),
            !holds_user(old(self).credentials(), username@) ==> exists|h: Seq<char>|
                password_matches(password@, h) && final(self).credentials() == stored(
                    old(self).credentials(),
                    CredentialView { username: username@, password_hash: h },
                ),
    {
        if self.has_user(username.as_str()) {
            return;
        }
        match hash_password(password) {
            Ok(hash) => {
                self.store_hash(username, hash);
            },
            Err(_) => {},
        }
    }

    /// Drops the sessions that are no longer valid at `now`.
    pub fn sweep(&mut self, now: i64)
        requires
            old(self).wf(),
        ensures
            final(self).wf(),
            final(self).credentials() == old(self).credentials(),
            final(self).sessions() == live(old(self).sessions(), now),
    {
        let ghost all = self.sessions();
        let mut kept: Vec<Session> = Vec::new();
        let mut i: usize = 0;
        while i < self.sessions.len()
            invariant
                i <= self.sessions@.len(),
                all == self.sessions(),
                tokens_unique(all),
                kept@.map_values(|s: Session| s@) == live(all.take(i as int), now),
                forall|k: int| 0 <= k < kept@.len() ==> exists|j: int| 0 <= j < i && #[trigger] kept@[k]@ == all[j],
            decreases self.sessions@.len() - i,
        {
            proof {
                assert(all.take(i as int + 1).drop_last() =~= all.take(i as int));
                assert(all.take(i as int + 1).last() == all[i as int]);
            }
            if self.sessions[i].expires_at > now {
                let ghost before = kept@;
                kept.push(self.sessions[i].copy());
                proof {
                    assert(kept@.map_values(|s: Session| s@) =~= before.map_values(|s: Session| s@).push(all[i as int]));
                    assert forall|k: int| 0 <= k < kept@.len() implies exists|j: int| 0 <= j < i + 1 && #[trigger] kept@[k]@ == all[j] by {
                        if k == kept@.len() - 1 {
                            assert(kept@[k]@ == all[i as int]);
                        } else {
                            assert(kept@[k] == before[k]);
                        }
                    }
                }
            }
            i = i + 1;
        }
        proof {
            assert(all.take(i as int) =~= all);
            lemma_live_unique(all, now);
        }
        self.sessions = kept;
        proof {
            assert(self.credentials() =~= old(self).credentials());
        }
    }

    /// Drops the expired sessions, then hands back a copy of the session
    /// with the token, if one is still valid at `now`.
    pub fn validate_token(&mut self, token: &str, now: i64) -> (r: Option<Session>)
        requires
            old(self).wf(),
        ensures
            final(self).wf(),
            final(self).credentials() == old(self).credentials(),
            final(self).sessions() == live(old(self).sessions(), now),
            r is Some == token_valid(old(self).sessions(), token@, now),
            r matches Some(s) ==> s.token@ == token@ && now < s.expires_at && old(self).sessions().contains(s@),
    {
        self.sweep(now);
        let key = String::from_str(token);
        let mut i: usize = 0;
        while i < self.sessions.len()
            invariant
                i <= self.sessions@.len(),
                key@ == token@,
                self.wf(),
                self.credentials() == old(self).credentials(),
                self.sessions() == live(old(self).sessions(), now),
                forall|j: int| 0 <= j < i ==> self.sessions()[j].token != token@,
            decreases self.sessions@.len() - i,
        {
            if self.sessions[i].token == key {
                let s = self.sessions[i].copy();
                proof {
                    assert(self.sessions().contains(s@)) by {
                        assert(self.sessions()[i as int] == s@);
                    }
                    lemma_live_contains(old(self).sessions(), now, s@);
                    assert(old(self).sessions().contains(s@));
                    let k = choose|k: int| 0 <= k < old(self).sessions().len() && old(self).sessions()[k] == s@;
                    assert(old(self).sessions()[k].token == token@);
                }
                return Some(s);
            }
            i = i + 1;
        }
        proof {
            if token_valid(old(self).sessions(), token@, now) {
                let k = choose|k: int|
                    0 <= k < old(self).sessions().len() && old(self).sessions()[k].token == token@ && now < old(
                        self,
                    ).sessions()[k].expires_at;
                let x = old(self).sessions()[k];
                assert(old(self).sessions().contains(x));
                lemma_live_contains(old(self).sessions(), now, x);
                let m = choose|m: int| 0 <= m < self.sessions().len() && self.sessions()[m] == x;
                assert(self.sessions()[m].token == token@);
            }
        }
        None
    }

    /// Drops the expired sessions, then hands back copies of those left.
    pub fn active_sessions(&mut self, now: i64) -> (r: Vec<Session>)
        requires
            old(self).wf(),
        ensures
            final(self).wf(),
            final(self).credentials() == old(self).credentials(),
            final(self).sessions() == live(old(self).sessions(), now),
            r@.map_values(|s: Session| s@) == live(old(self).sessions(), now),
    {
        self.sweep(now);
        let mut out: Vec<Session> = Vec::new();
        let mut i: usize = 0;
        while i < self.sessions.len()
            invariant
                i <= self.sessions@.len(),
                out@.map_values(|s: Session| s@) == self.sessions().take(i as int),
            decreases self.sessions@.len() - i,
        {
            let ghost before = out@;
            out.push(self.sessions[i].copy());
            proof {
                assert(out@.map_values(|s: Session| s@) =~= before.map_values(|s: Session| s@).push(self.sessions()[i as int]));
                assert(self.sessions().take(i as int + 1) =~= self.sessions().take(i as int).push(self.sessions()[i as int]));
            }
            i = i + 1;
        }
        proof {
            assert(self.sessions().take(i as int) =~= self.sessions());
        }
        out
    }

    /// Checks the password of `username` and, where it matches, opens a
    /// session with the token, valid for the session lifetime from `now`.
    pub fn login(&mut self, username: &str, password: &str, token: String, now: i64) -> (r: Result<Session, CenterError>)
        requires
            old(self).wf(),
            now < TIMESTAMP_BOUND,
        ensures
            final(self).wf(),
            final(self).credentials() == old(self).credentials(),
            r matches Err(e) ==> login_refusal(old(self).credentials(), username@, password@) == Some(e)
                && final(self).sessions() == old(self).sessions(),
            r matches Ok(s) ==> login_refusal(old(self).credentials(), username@, password@) is None
                && s@ == opened_session(token@, username@, now)
                && final(self).sessions() == with_session(old(self).sessions(), s@),
    {
        let i = match self.credential_position(username) {
            Some(i) => i,
            None => {
                return Err(CenterError::InvalidCredentials);
            },
        };
        if !verify_password(password, self.credentials[i].password_hash.as_str()) {
            proof {
                assert forall|j: int|
                    0 <= j < self.credentials().len() && self.credentials()[j].username == username@ implies !password_matches(
                    password@,
                    self.credentials()[j].password_hash,
                ) by {
                    assert(j == i);
                }
            }
            return Err(CenterError::InvalidCredentials);
        }
        let session = Session {
            token,
            username: copy_text(&self.credentials[i].username),
            created_at: now,
            expires_at: now + SESSION_TTL_MS,
        };
        let out = session.copy();
        self.put_session(session);
        Ok(out)
    }

    /// Holds `s`, in place of the session with its token if there is one.
    fn put_session(&mut self, s: Session)
        requires
            old(self).wf(),
        ensures
            final(self).wf(),
            final(self).credentials() == old(self).credentials(),
            final(self).sessions() == with_session(old(self).sessions(), s@),
    {
        let ghost before = self.sessions();
        let ghost x = s@;
        let mut i: usize = 0;
        while i < self.sessions.len()
            invariant
                i <= self.sessions@.len(),
                before == self.sessions(),
                before == old(self).sessions(),
                self.credentials() == old(self).credentials(),
                self.wf(),
                x == s@,
                forall|j: int| 0 <= j < i ==> before[j].token != x.token,
            decreases self.sessions@.len() - i,
        {
            if self.sessions[i].token == s.token {
                proof {
                    assert(before[i as int].token == x.token);
                }
                self.sessions.set(i, s);
                proof {
                    assert(self.sessions() =~= before.update(i as int, x));
                    let k = choose|k: int| 0 <= k < before.len() && before[k].token == x.token;
                    assert(k == i);
                    assert(with_session(before, x) == before.update(i as int, x));
                    assert(before == old(self).sessions());
                }
                return;
            }
            i = i + 1;
        }
        self.sessions.push(s);
        proof {
            assert(self.sessions() =~= before.push(x));
            assert(self.credentials() =~= old(self).credentials());
        }
    }
}

/// What is still valid has unique tokens where all had.
proof fn lemma_live_unique(s: Seq<SessionView>, now: i64)
    requires
        tokens_unique(s),
    ensures
        tokens_unique(live(s, now)),
    decreases s.len(),
{
    if s.len() > 0 {
        let d = s.drop_last();
        assert(tokens_unique(d)) by {
            assert forall|i: int, j: int| 0 <= i < d.len() && 0 <= j < d.len() && i != j implies d[i].token != d[j].token by {
                assert(d[i] == s[i] && d[j] == s[j]);
            }
        }
        lemma_live_unique(d, now);
        if now < s.last().expires_at {
            let l = live(d, now);
            let p = l.push(s.last());
            assert forall|i: int, j: int| 0 <= i < p.len() && 0 <= j < p.len() && i != j implies p[i].token != p[j].token by {
                if i == l.len() || j == l.len() {
                    let o = if i == l.len() { j } else { i };
                    lemma_live_contains(d, now, l[o]);
                    assert(l.contains(l[o]));
                    let k = choose|k: int| 0 <= k < d.len() && d[k] == l[o];
                    assert(s[k] == d[k]);
                    assert(s[s.len() - 1] == s.last());
                }
            }
        }
    }
}

} // verus!
