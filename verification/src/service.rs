//! The authority itself: sign-in, session lifecycle, claims issuance and
//! tenant provisioning, over the repository and an injected generator.
use crate::claims::{encode_claims, spec_token, Claims};
use crate::codec::{
    ascii_bytes_to_string, bytes_of_chars, chars_of_bytes, lemma_ascii_bytes_chars_roundtrip,
    render_u64, str_bytes,
};
use crate::crypto::{bcrypt_matches, bcrypt_verify_outcome, hash_password, verify_password};
use crate::dto::UserDto;
use crate::errors::{ProvisionError, TokenError, UserFromCredentialsError};
use crate::models::{
    same_access_level, AccessLevel, Organization, RegisterOrganization, Session, User,
};
use crate::permissions::{root_permissions, spec_root_permissions};
use crate::session_token::{
    spec_storage_value, SessionToken, SESSION_SECONDS, SESSION_TOKEN_BYTES,
};
use crate::store::{
    level_idx_by_id, lemma_session_idx_by_token_from, org_idx_by_billing_email, org_idx_by_id,
    session_idx_by_public_id, session_idx_by_token, user_idx_by_email, user_idx_by_id,
    user_idx_by_username, Repository,
};
use vstd::prelude::*;
use vstd::string::StringExecFns;
use vstd::string::StringSliceAdditionalSpecFns;

verus! {

/// The credential and session authority. It owns no long-lived state beyond
/// the injected generator handle, the claims signing key and the store.
pub struct AuthService {
    /// The explicit generator handle injected at construction; never
    /// ambient or global, so the authority is testable with a fixed seed.
    pub rng: rand_chacha::ChaCha8Rng,
    /// Key under which claims are signed and verified.
    pub signing_key: Vec<u8>,
    /// The persistence collaborator.
    pub db: Repository,
}

impl AuthService {
    pub fn new(db: Repository, rng: rand_chacha::ChaCha8Rng, signing_key: Vec<u8>) -> (r:
        AuthService)
        ensures
            r.db == db,
            r.signing_key == signing_key,
    {
        AuthService { rng, signing_key, db }
    }

    /// The authorization lookup, shaped for the HTTP layer: the joined
    /// entities of `get_user_from_session_id`, carried as a dto.
    pub fn get_user_from_session_token(&self, token: &SessionToken, now: u64) -> (r: Option<
        UserDto,
    >)
        ensures
            match (r, spec_resolve_idx(self.db, spec_storage_value(token.raw@), now)) {
                (Option::None, Option::None) => true,
                (Option::Some(d), Option::Some((ui, li, oi))) => dto_matches_entities(
                    d,
                    self.db.users@[ui],
                    self.db.access_levels@[li],
                    match oi {
                        Option::None => Option::None,
                        Option::Some(ok) => Option::Some(self.db.organizations@[ok]),
                    },
                ),
                _ => false,
            },
    {
        match self.get_user_from_session_id(token, now) {
            Option::None => Option::None,
            Option::Some(entities) => Option::Some(UserDto::from(entities)),
        }
    }

    /// Generates a new session token and creates a new session record for
    /// the user. `None` only when the drawn token collides with a stored
    /// one, the store's uniqueness constraint; nothing is written then.
    pub fn new_session(
        &mut self,
        user_identifier: i32,
        client_ip: String,
        client_user_agent: String,
        now: u64,
    ) -> (r: Option<SessionToken>)
        requires
            old(self).db.wf(),
            user_idx_by_id(old(self).db.users@, user_identifier) is Some,
            old(self).db.next_session_public_id < i32::MAX,
            now <= u64::MAX - SESSION_SECONDS,
        ensures
            final(self).db.wf(),
            final(self).signing_key == old(self).signing_key,
            final(self).db.users@ == old(self).db.users@,
            final(self).db.organizations@ == old(self).db.organizations@,
            final(self).db.access_levels@ == old(self).db.access_levels@,
            final(self).db.next_user_id == old(self).db.next_user_id,
            final(self).db.next_org_id == old(self).db.next_org_id,
            final(self).db.next_access_level_id == old(self).db.next_access_level_id,
            match r {
                Option::Some(t) => {
                    &&& t.raw@.len() == SESSION_TOKEN_BYTES
                    &&& session_idx_by_token(
                        old(self).db.sessions@,
                        spec_storage_value(t.raw@),
                    ) is None
                    &&& final(self).db.sessions@.len() == old(self).db.sessions@.len() + 1
                    &&& final(self).db.sessions@.drop_last() == old(self).db.sessions@
                    &&& ({
                        let s = final(self).db.sessions@.last();
                        &&& s.public_id == old(self).db.next_session_public_id
                        &&& s.session_token@ == spec_storage_value(t.raw@)
                        &&& s.ip@ == client_ip@
                        &&& s.user_agent@ == client_user_agent@
                        &&& s.expires_at == now + SESSION_SECONDS
                        &&& s.user_id == user_identifier
                    })
                    &&& final(self).db.next_session_public_id == old(
                        self,
                    ).db.next_session_public_id + 1
                },
                Option::None => final(self).db == old(self).db,
            },
    {
        let tok = SessionToken::generate_new(&mut self.rng);
        if self.insert_session(&tok, client_ip, client_user_agent, user_identifier, now) {
            Option::Some(tok)
        } else {
            Option::None
        }
    }

    /// Persists a new session row under a given token. The store's unique
    /// constraint on tokens decides, and completely: the row is inserted
    /// exactly when no stored session already carries this token's storage
    /// value; otherwise nothing is written.
    pub fn insert_session(
        &mut self,
        token: &SessionToken,
        client_ip: String,
        client_user_agent: String,
        user_identifier: i32,
        now: u64,
    ) -> (r: bool)
        requires
            old(self).db.wf(),
            user_idx_by_id(old(self).db.users@, user_identifier) is Some,
            old(self).db.next_session_public_id < i32::MAX,
            now <= u64::MAX - SESSION_SECONDS,
        ensures
            final(self).db.wf(),
            final(self).signing_key == old(self).signing_key,
            final(self).rng == old(self).rng,
            final(self).db.users@ == old(self).db.users@,
            final(self).db.organizations@ == old(self).db.organizations@,
            final(self).db.access_levels@ == old(self).db.access_levels@,
            final(self).db.next_user_id == old(self).db.next_user_id,
            final(self).db.next_org_id == old(self).db.next_org_id,
            final(self).db.next_access_level_id == old(self).db.next_access_level_id,
            r <==> session_idx_by_token(
                old(self).db.sessions@,
                spec_storage_value(token.raw@),
            ) is None,
            r ==> {
                &&& final(self).db.sessions@.len() == old(self).db.sessions@.len() + 1
                &&& final(self).db.sessions@.drop_last() == old(self).db.sessions@
                &&& ({
                    let s = final(self).db.sessions@.last();
                    &&& s.public_id == old(self).db.next_session_public_id
                    &&& s.session_token@ == spec_storage_value(token.raw@)
                    &&& s.ip@ == client_ip@
                    &&& s.user_agent@ == client_user_agent@
                    &&& s.expires_at == now + SESSION_SECONDS
                    &&& s.user_id == user_identifier
                })
                &&& final(self).db.next_session_public_id == old(
                    self,
                ).db.next_session_public_id + 1
            },
            !r ==> final(self).db == old(self).db,
    {
        let storage = token.into_database_value();
        match self.db.find_session_by_token(&storage) {
            Option::Some(_) => false,
            Option::None => {
                let ghost old_sessions = self.db.sessions@;
                let s = Session {
                    public_id: self.db.next_session_public_id,
                    session_token: storage,
                    ip: client_ip,
                    user_agent: client_user_agent,
                    expires_at: now + SESSION_SECONDS,
                    user_id: user_identifier,
                };
                self.db.sessions.push(s);
                self.db.next_session_public_id = self.db.next_session_public_id + 1;
                proof {
                    let s1 = self.db.sessions@;
                    assert(s1.drop_last() =~= old_sessions);
                    lemma_session_idx_by_token_from(
                        old_sessions,
                        spec_storage_value(token.raw@),
                        0,
                    );
                    assert forall|i: int, j: int| 0 <= i < j < s1.len() implies (
                    #[trigger] s1[i]).public_id != (#[trigger] s1[j]).public_id && s1[i].session_token@
                        != s1[j].session_token@ by {
                        if j < s1.len() - 1 {
                            assert(s1[i] == old_sessions[i] && s1[j] == old_sessions[j]);
                        } else {
                            assert(s1[i] == old_sessions[i]);
                        }
                    }
                }
                true
            },
        }
    }

    /// Deletes a session by its token; idempotent, deleting nothing is not
    /// an error. Nothing else in the store moves.
    pub fn delete_session(&mut self, token: &SessionToken)
        requires
            old(self).db.wf(),
        ensures
            final(self).db.wf(),
            final(self).signing_key == old(self).signing_key,
            final(self).db.users@ == old(self).db.users@,
            final(self).db.organizations@ == old(self).db.organizations@,
            final(self).db.access_levels@ == old(self).db.access_levels@,
            final(self).db.next_user_id == old(self).db.next_user_id,
            final(self).db.next_org_id == old(self).db.next_org_id,
            final(self).db.next_access_level_id == old(self).db.next_access_level_id,
            final(self).db.next_session_public_id == old(self).db.next_session_public_id,
            final(self).db.sessions@ == match session_idx_by_token(
                old(self).db.sessions@,
                spec_storage_value(token.raw@),
            ) {
                Option::None => old(self).db.sessions@,
                Option::Some(k) => old(self).db.sessions@.remove(k),
            },
    {
        let storage = token.into_database_value();
        match self.db.find_session_by_token(&storage) {
            Option::None => (),
            Option::Some(i) => {
                let ghost old_sessions = self.db.sessions@;
                self.db.sessions.remove(i);
                proof {
                    lemma_remove_keeps_session_uniqueness(old_sessions, i as int);
                }
            },
        }
    }

    /// Deletes a session by its public id; idempotent.
    pub fn delete_session_by_public_id(&mut self, public_id: i32)
        requires
            old(self).db.wf(),
        ensures
            final(self).db.wf(),
            final(self).signing_key == old(self).signing_key,
            final(self).db.users@ == old(self).db.users@,
            final(self).db.organizations@ == old(self).db.organizations@,
            final(self).db.access_levels@ == old(self).db.access_levels@,
            final(self).db.next_user_id == old(self).db.next_user_id,
            final(self).db.next_org_id == old(self).db.next_org_id,
            final(self).db.next_access_level_id == old(self).db.next_access_level_id,
            final(self).db.next_session_public_id == old(self).db.next_session_public_id,
            final(self).db.sessions@ == match session_idx_by_public_id(
                old(self).db.sessions@,
                public_id,
            ) {
                Option::None => old(self).db.sessions@,
                Option::Some(k) => old(self).db.sessions@.remove(k),
            },
    {
        match self.db.find_session_by_public_id(public_id) {
            Option::None => (),
            Option::Some(i) => {
                let ghost old_sessions = self.db.sessions@;
                self.db.sessions.remove(i);
                proof {
                    lemma_remove_keeps_session_uniqueness(old_sessions, i as int);
                }
            },
        }
    }
}

/// Removing one session keeps every pairwise-uniqueness and bound fact of
/// the remaining ones.
proof fn lemma_remove_keeps_session_uniqueness(s: Seq<Session>, k: int)
    requires
        0 <= k < s.len(),
        forall|i: int, j: int|
            0 <= i < j < s.len() ==> (#[trigger] s[i]).public_id != (#[trigger] s[j]).public_id,
        forall|i: int, j: int|
            0 <= i < j < s.len() ==> (#[trigger] s[i]).session_token@ != (
            #[trigger] s[j]).session_token@,
    ensures
        forall|i: int, j: int|
            0 <= i < j < s.remove(k).len() ==> (#[trigger] s.remove(k)[i]).public_id != (
            #[trigger] s.remove(k)[j]).public_id,
        forall|i: int, j: int|
            0 <= i < j < s.remove(k).len() ==> (#[trigger] s.remove(k)[i]).session_token@ != (
            #[trigger] s.remove(k)[j]).session_token@,
        forall|i: int|
            0 <= i < s.remove(k).len() ==> (#[trigger] s.remove(k)[i]) == s[i] || s.remove(k)[i]
                == s[i + 1],
{
    let r = s.remove(k);
    assert forall|i: int| 0 <= i < r.len() implies (#[trigger] r[i]) == s[i] || r[i] == s[i
        + 1] by {
        if i < k {
            assert(r[i] == s[i]);
        } else {
            assert(r[i] == s[i + 1]);
        }
    }
    assert forall|i: int, j: int| 0 <= i < j < r.len() implies (#[trigger] r[i]).public_id != (
    #[trigger] r[j]).public_id && r[i].session_token@ != r[j].session_token@ by {
        let i0 = if i < k {
            i
        } else {
            i + 1
        };
        let j0 = if j < k {
            j
        } else {
            j + 1
        };
        assert(r[i] == s[i0] && r[j] == s[j0]);
    }
}

/// Builds the authority around an injected store, generator handle and
/// signing key.
pub fn new_auth_service(db: Repository, rng: rand_chacha::ChaCha8Rng, signing_key: Vec<u8>) -> (r:
    AuthService)
    ensures
        r.db == db,
        r.signing_key == signing_key,
{
    AuthService::new(db, rng, signing_key)
}

/// The sessions of `user_id` still alive at `now`, in store order. Expiry
/// is enforced purely by this query-time filter; expired rows may persist.
pub open spec fn active_sessions_from(sessions: Seq<Session>, user_id: i32, now: u64, i: int) -> Seq<
    Session,
>
    decreases sessions.len() - i,
{
    if i < 0 || i >= sessions.len() {
        Seq::empty()
    } else {
        let rest = active_sessions_from(sessions, user_id, now, i + 1);
        if sessions[i].user_id == user_id && sessions[i].expires_at > now {
            seq![sessions[i]] + rest
        } else {
            rest
        }
    }
}

pub open spec fn spec_active_sessions(sessions: Seq<Session>, user_id: i32, now: u64) -> Seq<
    Session,
> {
    active_sessions_from(sessions, user_id, now, 0)
}

/// What the authorization lookup yields, as store indices: the session must
/// carry the token and be unexpired; the user and the access level must
/// resolve; the organization join is optional.
pub open spec fn spec_resolve_idx(db: Repository, tok: Seq<char>, now: u64) -> Option<
    (int, int, Option<int>),
> {
    match session_idx_by_token(db.sessions@, tok) {
        Option::None => Option::None,
        Option::Some(k) => {
            let s = db.sessions@[k];
            if s.expires_at <= now {
                Option::None
            } else {
                match user_idx_by_id(db.users@, s.user_id) {
                    Option::None => Option::None,
                    Option::Some(ui) => {
                        let u = db.users@[ui];
                        match level_idx_by_id(db.access_levels@, u.access_level_id) {
                            Option::None => Option::None,
                            Option::Some(li) => Option::Some(
                                (
                                    ui,
                                    li,
                                    match u.organization_id {
                                        Option::None => Option::None,
                                        Option::Some(oid) => org_idx_by_id(db.organizations@, oid),
                                    },
                                ),
                            ),
                        }
                    },
                }
            }
        },
    }
}

/// What authenticating an email and password yields: the account is looked
/// up first (so an unknown email skips password work), its access level
/// must resolve, then the password is judged by the credential verifier.
pub open spec fn spec_authenticate(db: Repository, email: Seq<char>, pw: Seq<char>) -> Result<
    (int, int, Option<int>),
    UserFromCredentialsError,
> {
    match user_idx_by_email(db.users@, email) {
        Option::None => Result::Err(UserFromCredentialsError::NotFound),
        Option::Some(ui) => {
            let u = db.users@[ui];
            match level_idx_by_id(db.access_levels@, u.access_level_id) {
                Option::None => Result::Err(UserFromCredentialsError::NotFound),
                Option::Some(li) => match bcrypt_verify_outcome(pw, u.password@) {
                    Option::None => Result::Err(UserFromCredentialsError::InternalError),
                    Option::Some(false) => Result::Err(UserFromCredentialsError::InvalidPassword),
                    Option::Some(true) => Result::Ok(
                        (
                            ui,
                            li,
                            match u.organization_id {
                                Option::None => Option::None,
                                Option::Some(oid) => org_idx_by_id(db.organizations@, oid),
                            },
                        ),
                    ),
                },
            }
        },
    }
}

/// The dto faithfully carries the joined entities: every exposed field
/// agrees, and neither the password hash nor any token leaks into it.
pub open spec fn dto_matches_entities(
    d: UserDto,
    u: User,
    al: AccessLevel,
    o: Option<Organization>,
) -> bool {
    &&& d.id == u.id
    &&& d.created_at == u.created_at
    &&& d.username == u.username
    &&& d.email == u.email
    &&& d.email_verified == u.email_verified
    &&& d.profile_picture == u.profile_picture
    &&& d.description == u.description
    &&& d.access_level.id == al.id
    &&& d.access_level.name == al.name
    &&& d.access_level.description == al.description
    &&& d.access_level.is_fixed == al.is_fixed
    &&& d.access_level.permissions@ == al.permissions@
    &&& match (d.organization, o) {
        (Option::None, Option::None) => true,
        (Option::Some(og), Option::Some(m)) => {
            &&& og.id == m.id
            &&& og.name == m.name
            &&& og.blocked == m.blocked
            &&& og.billing_email == m.billing_email
            &&& og.billing_email_verified == m.billing_email_verified
            &&& og.owner_id == m.owner_id
        },
        _ => false,
    }
}

impl AuthService {
    /// Lists the sessions of a user that are still alive at `now`; expired
    /// rows are excluded by the filter, not deleted.
    pub fn get_active_user_sessions(&self, user_id: i32, now: u64) -> (r: Vec<Session>)
        ensures
            r@ == spec_active_sessions(self.db.sessions@, user_id, now),
    {
        let mut r: Vec<Session> = Vec::new();
        let mut i: usize = 0;
        while i < self.db.sessions.len()
            invariant
                i <= self.db.sessions@.len(),
                spec_active_sessions(self.db.sessions@, user_id, now) == r@
                    + active_sessions_from(self.db.sessions@, user_id, now, i as int),
            decreases self.db.sessions@.len() - i,
        {
            let s = &self.db.sessions[i];
            if s.user_id == user_id && s.expires_at > now {
                r.push(s.duplicate());
                proof {
                    assert(r@ + active_sessions_from(self.db.sessions@, user_id, now, i as int + 1)
                        =~= r@.drop_last() + (seq![self.db.sessions@[i as int]]
                        + active_sessions_from(self.db.sessions@, user_id, now, i as int + 1)));
                }
            }
            i = i + 1;
        }
        proof {
            assert(r@ + active_sessions_from(self.db.sessions@, user_id, now,
                self.db.sessions@.len() as int) =~= r@);
        }
        r
    }

    /// The authorization lookup used on every authenticated request: finds
    /// the unexpired session with this token and joins the user's current
    /// access level and optional organization, so a demotion or detachment
    /// is reflected on the very next request.
    pub fn get_user_from_session_id(&self, session_id: &SessionToken, now: u64) -> (r: Option<
        (User, AccessLevel, Option<Organization>),
    >)
        ensures
            match (r, spec_resolve_idx(self.db, spec_storage_value(session_id.raw@), now)) {
                (Option::None, Option::None) => true,
                (Option::Some((u, al, o)), Option::Some((ui, li, oi))) => {
                    &&& u == self.db.users@[ui]
                    &&& same_access_level(&al, &self.db.access_levels@[li])
                    &&& match (o, oi) {
                        (Option::None, Option::None) => true,
                        (Option::Some(og), Option::Some(ok)) => og == self.db.organizations@[ok],
                        _ => false,
                    }
                },
                _ => false,
            },
    {
        let storage = session_id.into_database_value();
        let si = match self.db.find_session_by_token(&storage) {
            Option::None => {
                return Option::None;
            },
            Option::Some(k) => k,
        };
        if self.db.sessions[si].expires_at <= now {
            return Option::None;
        }
        let ui = match self.db.find_user_by_id(self.db.sessions[si].user_id) {
            Option::None => {
                return Option::None;
            },
            Option::Some(k) => k,
        };
        let li = match self.db.find_level_by_id(self.db.users[ui].access_level_id) {
            Option::None => {
                return Option::None;
            },
            Option::Some(k) => k,
        };
        let org = match self.db.users[ui].organization_id {
            Option::None => Option::None,
            Option::Some(oid) => match self.db.find_org_by_id(oid) {
                Option::None => Option::None,
                Option::Some(oi) => Option::Some(self.db.organizations[oi].duplicate()),
            },
        };
        Option::Some(
            (self.db.users[ui].duplicate(), self.db.access_levels[li].duplicate(), org),
        )
    }

    /// Finds a user from email and plaintext password, verifying the
    /// password. An unknown email is `NotFound` before any password work;
    /// a known email with a mismatched password is `InvalidPassword`;
    /// crypto failure is collapsed to `InternalError`.
    pub fn get_user_from_credentials(&self, user_email: String, user_password: String) -> (r:
        Result<UserDto, UserFromCredentialsError>)
        ensures
            match (r, spec_authenticate(self.db, user_email@, user_password@)) {
                (Result::Ok(d), Result::Ok((ui, li, oi))) => dto_matches_entities(
                    d,
                    self.db.users@[ui],
                    self.db.access_levels@[li],
                    match oi {
                        Option::None => Option::None,
                        Option::Some(ok) => Option::Some(self.db.organizations@[ok]),
                    },
                ),
                (Result::Err(e), Result::Err(f)) => e == f,
                _ => false,
            },
    {
        let ui = match self.db.find_user_by_email(&user_email) {
            Option::None => {
                return Result::Err(UserFromCredentialsError::NotFound);
            },
            Option::Some(k) => k,
        };
        let li = match self.db.find_level_by_id(self.db.users[ui].access_level_id) {
            Option::None => {
                return Result::Err(UserFromCredentialsError::NotFound);
            },
            Option::Some(k) => k,
        };
        let pass_is_valid = match verify_password(
            user_password.as_str(),
            self.db.users[ui].password.as_str(),
        ) {
            Result::Err(_) => {
                return Result::Err(UserFromCredentialsError::InternalError);
            },
            Result::Ok(v) => v,
        };
        if !pass_is_valid {
            return Result::Err(UserFromCredentialsError::InvalidPassword);
        }
        let org = match self.db.users[ui].organization_id {
            Option::None => Option::None,
            Option::Some(oid) => match self.db.find_org_by_id(oid) {
                Option::None => Option::None,
                Option::Some(oi) => Option::Some(self.db.organizations[oi].duplicate()),
            },
        };
        Result::Ok(
            UserDto::from(
                (self.db.users[ui].duplicate(), self.db.access_levels[li].duplicate(), org),
            ),
        )
    }

    /// Checks whether an email is in use by an organization or a user.
    pub fn check_email_in_use(&self, email: &String) -> (r: bool)
        ensures
            r == (org_idx_by_billing_email(self.db.organizations@, email@) is Some
                || user_idx_by_email(self.db.users@, email@) is Some),
    {
        match self.db.find_org_by_billing_email(email) {
            Option::Some(_) => true,
            Option::None => match self.db.find_user_by_email(email) {
                Option::Some(_) => true,
                Option::None => false,
            },
        }
    }

    /// The id of the user holding this username, if any.
    pub fn get_user_id_by_username(&self, username: &String) -> (r: Option<i32>)
        ensures
            match user_idx_by_username(self.db.users@, username@) {
                Option::None => r is None,
                Option::Some(k) => r == Option::Some(self.db.users@[k].id),
            },
    {
        match self.db.find_user_by_username(username) {
            Option::None => Option::None,
            Option::Some(k) => Option::Some(self.db.users[k].id),
        }
    }
}

/// Builds the `"user:<id>"` audience text.
pub fn user_aud_string(id: i32) -> (r: String)
    requires
        id >= 0,
    ensures
        r@ == chars_of_bytes(crate::claims::spec_user_aud(id)),
{
    proof {
        reveal_strlit("user:");
        assert(vstd::string::is_ascii("user:"));
    }
    let mut b = str_bytes("user:");
    let d = render_u64(id as u64);
    crate::codec::append_bytes(&mut b, &d);
    proof {
        assert(b@ =~= crate::claims::spec_user_aud(id));
        crate::claims::lemma_parse_audience_of(id);
    }
    ascii_bytes_to_string(b)
}

/// Builds the `"organization:<id>"` audience text.
pub fn org_aud_string(id: i32) -> (r: String)
    requires
        id >= 0,
    ensures
        r@ == chars_of_bytes(crate::claims::spec_org_aud(id)),
{
    proof {
        reveal_strlit("organization:");
        assert(vstd::string::is_ascii("organization:"));
    }
    let mut b = str_bytes("organization:");
    let d = render_u64(id as u64);
    crate::codec::append_bytes(&mut b, &d);
    proof {
        assert(b@ =~= crate::claims::spec_org_aud(id));
        crate::claims::lemma_parse_audience_of(id);
    }
    ascii_bytes_to_string(b)
}

/// A pointwise field change that touches none of the store-unique columns
/// keeps the user table's well-formedness facts.
proof fn lemma_users_update_keeps_wf(u0: Seq<User>, u1: Seq<User>, next_id: i32)
    requires
        u1.len() == u0.len(),
        forall|j: int|
            0 <= j < u0.len() ==> (#[trigger] u1[j]).id == u0[j].id && u1[j].email@ == u0[j].email@
                && u1[j].username@ == u0[j].username@,
        forall|i: int, j: int|
            0 <= i < j < u0.len() ==> (#[trigger] u0[i]).id != (#[trigger] u0[j]).id,
        forall|i: int, j: int|
            0 <= i < j < u0.len() ==> (#[trigger] u0[i]).email@ != (#[trigger] u0[j]).email@,
        forall|i: int, j: int|
            0 <= i < j < u0.len() ==> (#[trigger] u0[i]).username@ != (#[trigger] u0[j]).username@,
        forall|i: int| 0 <= i < u0.len() ==> 0 < (#[trigger] u0[i]).id < next_id,
    ensures
        forall|i: int, j: int|
            0 <= i < j < u1.len() ==> (#[trigger] u1[i]).id != (#[trigger] u1[j]).id,
        forall|i: int, j: int|
            0 <= i < j < u1.len() ==> (#[trigger] u1[i]).email@ != (#[trigger] u1[j]).email@,
        forall|i: int, j: int|
            0 <= i < j < u1.len() ==> (#[trigger] u1[i]).username@ != (#[trigger] u1[j]).username@,
        forall|i: int| 0 <= i < u1.len() ==> 0 < (#[trigger] u1[i]).id < next_id,
{
    assert forall|i: int, j: int| 0 <= i < j < u1.len() implies (#[trigger] u1[i]).id != (
    #[trigger] u1[j]).id && u1[i].email@ != u1[j].email@ && u1[i].username@ != u1[j].username@ by {
        assert(u1[i].id == u0[i].id && u1[j].id == u0[j].id);
        assert(u1[i].email@ == u0[i].email@ && u1[j].email@ == u0[j].email@);
        assert(u1[i].username@ == u0[i].username@ && u1[j].username@ == u0[j].username@);
    }
    assert forall|i: int| 0 <= i < u1.len() implies 0 < (#[trigger] u1[i]).id < next_id by {
        assert(u1[i].id == u0[i].id);
    }
}

/// The organization-table analog of the update lemma.
proof fn lemma_orgs_update_keeps_wf(o0: Seq<Organization>, o1: Seq<Organization>, next_id: i32)
    requires
        o1.len() == o0.len(),
        forall|j: int|
            0 <= j < o0.len() ==> (#[trigger] o1[j]).id == o0[j].id && o1[j].billing_email@
                == o0[j].billing_email@,
        forall|i: int, j: int|
            0 <= i < j < o0.len() ==> (#[trigger] o0[i]).id != (#[trigger] o0[j]).id,
        forall|i: int, j: int|
            0 <= i < j < o0.len() ==> (#[trigger] o0[i]).billing_email@ != (
            #[trigger] o0[j]).billing_email@,
        forall|i: int| 0 <= i < o0.len() ==> 0 < (#[trigger] o0[i]).id < next_id,
    ensures
        forall|i: int, j: int|
            0 <= i < j < o1.len() ==> (#[trigger] o1[i]).id != (#[trigger] o1[j]).id,
        forall|i: int, j: int|
            0 <= i < j < o1.len() ==> (#[trigger] o1[i]).billing_email@ != (
            #[trigger] o1[j]).billing_email@,
        forall|i: int| 0 <= i < o1.len() ==> 0 < (#[trigger] o1[i]).id < next_id,
{
    assert forall|i: int, j: int| 0 <= i < j < o1.len() implies (#[trigger] o1[i]).id != (
    #[trigger] o1[j]).id && o1[i].billing_email@ != o1[j].billing_email@ by {
        assert(o1[i].id == o0[i].id && o1[j].id == o0[j].id);
        assert(o1[i].billing_email@ == o0[i].billing_email@ && o1[j].billing_email@
            == o0[j].billing_email@);
    }
    assert forall|i: int| 0 <= i < o1.len() implies 0 < (#[trigger] o1[i]).id < next_id by {
        assert(o1[i].id == o0[i].id);
    }
}

/// All fields of the two users agree but the reset-password token.
pub open spec fn same_user_except_reset_token(u0: User, u1: User) -> bool {
    &&& u1.id == u0.id
    &&& u1.created_at == u0.created_at
    &&& u1.username == u0.username
    &&& u1.email == u0.email
    &&& u1.password == u0.password
    &&& u1.email_verified == u0.email_verified
    &&& u1.profile_picture == u0.profile_picture
    &&& u1.description == u0.description
    &&& u1.confirm_email_token == u0.confirm_email_token
    &&& u1.organization_id == u0.organization_id
    &&& u1.access_level_id == u0.access_level_id
}

/// All fields of the two users agree but the confirm-email token.
pub open spec fn same_user_except_confirm_token(u0: User, u1: User) -> bool {
    &&& u1.id == u0.id
    &&& u1.created_at == u0.created_at
    &&& u1.username == u0.username
    &&& u1.email == u0.email
    &&& u1.password == u0.password
    &&& u1.email_verified == u0.email_verified
    &&& u1.profile_picture == u0.profile_picture
    &&& u1.description == u0.description
    &&& u1.reset_password_token == u0.reset_password_token
    &&& u1.organization_id == u0.organization_id
    &&& u1.access_level_id == u0.access_level_id
}

/// All fields of the two organizations agree but the confirm-email token.
pub open spec fn same_org_except_confirm_token(o0: Organization, o1: Organization) -> bool {
    &&& o1.id == o0.id
    &&& o1.created_at == o0.created_at
    &&& o1.name == o0.name
    &&& o1.blocked == o0.blocked
    &&& o1.billing_email == o0.billing_email
    &&& o1.billing_email_verified == o0.billing_email_verified
    &&& o1.owner_id == o0.owner_id
}

impl AuthService {
    /// Mints a short-lived (20 second) signed claims token authorizing one
    /// quick action for the user; no server-side state is touched.
    pub fn gen_short_lived_token_for_user(&self, user_id: i32, now: u64) -> (r: String)
        requires
            user_id >= 0,
            now <= u64::MAX - 20,
        ensures
            r@ == chars_of_bytes(
                spec_token(
                    self.signing_key@,
                    bytes_of_chars("rastercar API"@),
                    bytes_of_chars("user short lived token"@),
                    crate::claims::spec_user_aud(user_id),
                    now,
                    (now + 20) as u64,
                ),
            ),
    {
        let aud = user_aud_string(user_id);
        let c = Claims {
            iss: String::from_str("rastercar API"),
            sub: String::from_str("user short lived token"),
            aud,
            iat: now,
            exp: now + 20,
        };
        proof {
            reveal_strlit("rastercar API");
            reveal_strlit("user short lived token");
            crate::claims::lemma_parse_audience_of(user_id);
            lemma_ascii_bytes_chars_roundtrip(crate::claims::spec_user_aud(user_id));
            assert(crate::claims::wf_claims(&c));
        }
        encode_claims(&self.signing_key, &c)
    }

    /// Parses a `"user:<id>"` audience back to the user id; any other
    /// shape, the organization kind included, is malformed.
    pub fn get_user_id_from_token_aud(&self, aud: String) -> (r: Result<i32, TokenError>)
        ensures
            r == match crate::claims::spec_parse_audience(vstd::utf8::encode_utf8(aud@)) {
                Option::Some((crate::claims::AudienceKind::User, id)) => Result::<
                    i32,
                    TokenError,
                >::Ok(id),
                Option::Some((crate::claims::AudienceKind::Organization, _)) => Result::<
                    i32,
                    TokenError,
                >::Err(TokenError::Malformed),
                Option::None => Result::<i32, TokenError>::Err(TokenError::Malformed),
            },
    {
        match crate::claims::parse_audience(aud.as_str()) {
            Result::Ok((crate::claims::AudienceKind::User, id)) => Result::Ok(id),
            Result::Ok((crate::claims::AudienceKind::Organization, _)) => Result::Err(
                TokenError::Malformed,
            ),
            Result::Err(e) => Result::Err(e),
        }
    }

    /// Mints a password-reset claims token (15 minutes) and persists it on
    /// the user row, implicitly invalidating any earlier reset token: only
    /// the stored value is honoured when a token is presented.
    pub fn gen_and_set_user_reset_password_token(&mut self, user_id: i32, now: u64) -> (r: String)
        requires
            old(self).db.wf(),
            user_id >= 0,
            now <= u64::MAX - 900,
        ensures
            final(self).db.wf(),
            final(self).signing_key == old(self).signing_key,
            final(self).db.organizations@ == old(self).db.organizations@,
            final(self).db.access_levels@ == old(self).db.access_levels@,
            final(self).db.sessions@ == old(self).db.sessions@,
            final(self).db.next_user_id == old(self).db.next_user_id,
            final(self).db.next_org_id == old(self).db.next_org_id,
            final(self).db.next_access_level_id == old(self).db.next_access_level_id,
            final(self).db.next_session_public_id == old(self).db.next_session_public_id,
            r@ == chars_of_bytes(
                spec_token(
                    old(self).signing_key@,
                    bytes_of_chars("rastercar API"@),
                    bytes_of_chars("restore password token"@),
                    crate::claims::spec_user_aud(user_id),
                    now,
                    (now + 900) as u64,
                ),
            ),
            match user_idx_by_id(old(self).db.users@, user_id) {
                Option::None => final(self).db.users@ == old(self).db.users@,
                Option::Some(ui) => {
                    &&& final(self).db.users@.len() == old(self).db.users@.len()
                    &&& forall|j: int|
                        0 <= j < old(self).db.users@.len() && j != ui ==> final(self).db.users@[j]
                            == old(self).db.users@[j]
                    &&& same_user_except_reset_token(
                        old(self).db.users@[ui],
                        final(self).db.users@[ui],
                    )
                    &&& final(self).db.users@[ui].reset_password_token matches Option::Some(t)
                        && t@ == r@
                },
            },
    {
        let aud = user_aud_string(user_id);
        let c = Claims {
            iss: String::from_str("rastercar API"),
            sub: String::from_str("restore password token"),
            aud,
            iat: now,
            exp: now + 900,
        };
        proof {
            reveal_strlit("rastercar API");
            reveal_strlit("restore password token");
            crate::claims::lemma_parse_audience_of(user_id);
            lemma_ascii_bytes_chars_roundtrip(crate::claims::spec_user_aud(user_id));
            assert(crate::claims::wf_claims(&c));
        }
        let token = encode_claims(&self.signing_key, &c);
        let ghost u0 = self.db.users@;
        match self.db.find_user_by_id(user_id) {
            Option::None => (),
            Option::Some(i) => {
                self.db.users[i].reset_password_token = Option::Some(token.clone());
                proof {
                    lemma_users_update_keeps_wf(u0, self.db.users@, self.db.next_user_id);
                }
            },
        }
        token
    }

    /// Mints an email-confirmation claims token (8 hours) and persists it
    /// on the user row; only the latest stored value is honoured.
    pub fn gen_and_set_user_confirm_email_token(&mut self, user_id: i32, now: u64) -> (r: String)
        requires
            old(self).db.wf(),
            user_id >= 0,
            now <= u64::MAX - 28800,
        ensures
            final(self).db.wf(),
            final(self).signing_key == old(self).signing_key,
            final(self).db.organizations@ == old(self).db.organizations@,
            final(self).db.access_levels@ == old(self).db.access_levels@,
            final(self).db.sessions@ == old(self).db.sessions@,
            final(self).db.next_user_id == old(self).db.next_user_id,
            final(self).db.next_org_id == old(self).db.next_org_id,
            final(self).db.next_access_level_id == old(self).db.next_access_level_id,
            final(self).db.next_session_public_id == old(self).db.next_session_public_id,
            r@ == chars_of_bytes(
                spec_token(
                    old(self).signing_key@,
                    bytes_of_chars("rastercar API"@),
                    bytes_of_chars("confirm email address token"@),
                    crate::claims::spec_user_aud(user_id),
                    now,
                    (now + 28800) as u64,
                ),
            ),
            match user_idx_by_id(old(self).db.users@, user_id) {
                Option::None => final(self).db.users@ == old(self).db.users@,
                Option::Some(ui) => {
                    &&& final(self).db.users@.len() == old(self).db.users@.len()
                    &&& forall|j: int|
                        0 <= j < old(self).db.users@.len() && j != ui ==> final(self).db.users@[j]
                            == old(self).db.users@[j]
                    &&& same_user_except_confirm_token(
                        old(self).db.users@[ui],
                        final(self).db.users@[ui],
                    )
                    &&& final(self).db.users@[ui].confirm_email_token matches Option::Some(t)
                        && t@ == r@
                },
            },
    {
        let aud = user_aud_string(user_id);
        let c = Claims {
            iss: String::from_str("rastercar API"),
            sub: String::from_str("confirm email address token"),
            aud,
            iat: now,
            exp: now + 28800,
        };
        proof {
            reveal_strlit("rastercar API");
            reveal_strlit("confirm email address token");
            crate::claims::lemma_parse_audience_of(user_id);
            lemma_ascii_bytes_chars_roundtrip(crate::claims::spec_user_aud(user_id));
            assert(crate::claims::wf_claims(&c));
        }
        let token = encode_claims(&self.signing_key, &c);
        let ghost u0 = self.db.users@;
        match self.db.find_user_by_id(user_id) {
            Option::None => (),
            Option::Some(i) => {
                self.db.users[i].confirm_email_token = Option::Some(token.clone());
                proof {
                    lemma_users_update_keeps_wf(u0, self.db.users@, self.db.next_user_id);
                }
            },
        }
        token
    }

    /// Mints an email-confirmation claims token (8 hours) for the
    /// organization's billing address and persists it on the organization
    /// row; only the latest stored value is honoured.
    pub fn gen_and_set_org_confirm_email_token(&mut self, org_id: i32, now: u64) -> (r: String)
        requires
            old(self).db.wf(),
            org_id >= 0,
            now <= u64::MAX - 28800,
        ensures
            final(self).db.wf(),
            final(self).signing_key == old(self).signing_key,
            final(self).db.users@ == old(self).db.users@,
            final(self).db.access_levels@ == old(self).db.access_levels@,
            final(self).db.sessions@ == old(self).db.sessions@,
            final(self).db.next_user_id == old(self).db.next_user_id,
            final(self).db.next_org_id == old(self).db.next_org_id,
            final(self).db.next_access_level_id == old(self).db.next_access_level_id,
            final(self).db.next_session_public_id == old(self).db.next_session_public_id,
            r@ == chars_of_bytes(
                spec_token(
                    old(self).signing_key@,
                    bytes_of_chars("rastercar API"@),
                    bytes_of_chars("confirm email address token"@),
                    crate::claims::spec_org_aud(org_id),
                    now,
                    (now + 28800) as u64,
                ),
            ),
            match org_idx_by_id(old(self).db.organizations@, org_id) {
                Option::None => final(self).db.organizations@ == old(self).db.organizations@,
                Option::Some(oi) => {
                    &&& final(self).db.organizations@.len() == old(self).db.organizations@.len()
                    &&& forall|j: int|
                        0 <= j < old(self).db.organizations@.len() && j != oi
                            ==> final(self).db.organizations@[j] == old(self).db.organizations@[j]
                    &&& same_org_except_confirm_token(
                        old(self).db.organizations@[oi],
                        final(self).db.organizations@[oi],
                    )
                    &&& final(self).db.organizations@[oi].confirm_billing_email_token matches Option::Some(t)
                        && t@ == r@
                },
            },
    {
        let aud = org_aud_string(org_id);
        let c = Claims {
            iss: String::from_str("rastercar API"),
            sub: String::from_str("confirm email address token"),
            aud,
            iat: now,
            exp: now + 28800,
        };
        proof {
            reveal_strlit("rastercar API");
            reveal_strlit("confirm email address token");
            crate::claims::lemma_parse_audience_of(org_id);
            lemma_ascii_bytes_chars_roundtrip(crate::claims::spec_org_aud(org_id));
            assert(crate::claims::wf_claims(&c));
        }
        let token = encode_claims(&self.signing_key, &c);
        let ghost o0 = self.db.organizations@;
        match self.db.find_org_by_id(org_id) {
            Option::None => (),
            Option::Some(i) => {
                self.db.organizations[i].confirm_billing_email_token = Option::Some(token.clone());
                proof {
                    lemma_orgs_update_keeps_wf(o0, self.db.organizations@, self.db.next_org_id);
                }
            },
        }
        token
    }
}

/// A sign-up conflicts when the email is already a user's or a billing
/// address, or the username is taken.
pub open spec fn spec_signup_conflict(db: Repository, email: Seq<char>, username: Seq<char>) -> bool {
    ||| user_idx_by_email(db.users@, email) is Some
    ||| org_idx_by_billing_email(db.organizations@, email) is Some
    ||| user_idx_by_username(db.users@, username) is Some
}

/// The outcome of presenting a password-reset token: it must validate, its
/// audience must name a user, and it must equal the value currently stored
/// on that user's row — possession of a validly signed, unexpired token is
/// necessary but not sufficient; only the most recently issued one counts.
pub open spec fn spec_validate_reset(
    db: Repository,
    key: Seq<u8>,
    tok_bytes: Seq<u8>,
    now: u64,
) -> Result<i32, TokenError> {
    match crate::claims::spec_validate(key, tok_bytes, now) {
        Result::Err(e) => Result::Err(e),
        Result::Ok(p) => match crate::claims::spec_parse_audience(p.aud) {
            Option::Some((crate::claims::AudienceKind::User, id)) => match user_idx_by_id(
                db.users@,
                id,
            ) {
                Option::Some(ui) => match db.users@[ui].reset_password_token {
                    Option::Some(t) => if vstd::utf8::encode_utf8(t@) == tok_bytes {
                        Result::Ok(id)
                    } else {
                        Result::Err(TokenError::Stale)
                    },
                    Option::None => Result::Err(TokenError::Stale),
                },
                Option::None => Result::Err(TokenError::Stale),
            },
            _ => Result::Err(TokenError::Malformed),
        },
    }
}

/// The whole effect of a successful provisioning: the three new rows, their
/// serial ids, the owner back-reference, and nothing else moved.
pub open spec fn spec_provisioned(
    db0: Repository,
    db1: Repository,
    username: Seq<char>,
    email: Seq<char>,
    u: User,
    now: u64,
) -> bool {
    &&& !spec_signup_conflict(db0, email, username)
    &&& db1.wf()
    &&& db1.sessions@ == db0.sessions@
    &&& db1.next_user_id == db0.next_user_id + 1
    &&& db1.next_org_id == db0.next_org_id + 1
    &&& db1.next_access_level_id == db0.next_access_level_id + 1
    &&& db1.next_session_public_id == db0.next_session_public_id
    &&& db1.organizations@.len() == db0.organizations@.len() + 1
    &&& db1.organizations@.drop_last() == db0.organizations@
    &&& ({
        let o = db1.organizations@.last();
        &&& o.id == db0.next_org_id
        &&& o.created_at == now
        &&& o.name@ == username
        &&& !o.blocked
        &&& o.billing_email@ == email
        &&& !o.billing_email_verified
        &&& o.confirm_billing_email_token is None
        &&& o.owner_id == Option::Some(db0.next_user_id)
    })
    &&& db1.access_levels@.len() == db0.access_levels@.len() + 1
    &&& db1.access_levels@.drop_last() == db0.access_levels@
    &&& ({
        let al = db1.access_levels@.last();
        &&& al.id == db0.next_access_level_id
        &&& al.created_at == now
        &&& al.name@ == "admin"@
        &&& al.description@ == "root access level"@
        &&& al.is_fixed
        &&& al.permissions.deep_view() == spec_root_permissions()
        &&& al.organization_id == Option::Some(db0.next_org_id)
    })
    &&& db1.users@.len() == db0.users@.len() + 1
    &&& db1.users@.drop_last() == db0.users@
    &&& u == db1.users@.last()
    &&& u.id == db0.next_user_id
    &&& u.created_at == now
    &&& u.username@ == username
    &&& u.email@ == email
    &&& !u.email_verified
    &&& u.profile_picture is None
    &&& u.description is None
    &&& u.reset_password_token is None
    &&& u.confirm_email_token is None
    &&& u.organization_id == Option::Some(db0.next_org_id)
    &&& u.access_level_id == db0.next_access_level_id
}

impl AuthService {
    /// Judges a presented password-reset token: signature and expiry under
    /// this authority's key, a `"user:<id>"` audience, and equality with
    /// the token currently stored on that user — a superseded token is
    /// `Stale`.
    pub fn validate_reset_password_token(&self, token: &str, now: u64) -> (r: Result<
        i32,
        TokenError,
    >)
        ensures
            r == spec_validate_reset(self.db, self.signing_key@, token.spec_bytes(), now),
    {
        let c = match crate::claims::decode_and_validate(&self.signing_key, token, now) {
            Result::Err(e) => {
                return Result::Err(e);
            },
            Result::Ok(c) => c,
        };
        let ghost p = crate::claims::spec_validate(
            self.signing_key@,
            token.spec_bytes(),
            now,
        )->Ok_0;
        proof {
            lemma_ascii_bytes_chars_roundtrip(p.aud);
            vstd::utf8::is_ascii_chars_encode_utf8(c.aud@);
            assert(vstd::utf8::encode_utf8(c.aud@) =~= bytes_of_chars(c.aud@));
        }
        let id = match crate::claims::parse_audience(c.aud.as_str()) {
            Result::Ok((crate::claims::AudienceKind::User, id)) => id,
            Result::Ok((crate::claims::AudienceKind::Organization, _)) => {
                return Result::Err(TokenError::Malformed);
            },
            Result::Err(_) => {
                return Result::Err(TokenError::Malformed);
            },
        };
        let ui = match self.db.find_user_by_id(id) {
            Option::None => {
                return Result::Err(TokenError::Stale);
            },
            Option::Some(k) => k,
        };
        match &self.db.users[ui].reset_password_token {
            Option::None => Result::Err(TokenError::Stale),
            Option::Some(t) => {
                let tb = token.as_bytes_vec();
                let sb = t.as_str().as_bytes_vec();
                if sb == tb {
                    proof {
                        assert(sb@ =~= tb@);
                    }
                    Result::Ok(id)
                } else {
                    proof {
                        if vstd::utf8::encode_utf8(t@) == token.spec_bytes() {
                            assert(sb@ == tb@);
                            assert(sb == tb);
                        }
                    }
                    Result::Err(TokenError::Stale)
                }
            },
        }
    }

    /// Creates a new user and their organization, with a root access level
    /// for that organization, as one all-or-nothing unit: on any failure
    /// nothing is written and no partial tenant becomes visible. The
    /// password is hashed first; only a hashing failure can yield
    /// `InternalError`, and it writes nothing.
    pub fn register_user_and_organization(&mut self, dto: RegisterOrganization, now: u64) -> (r:
        Result<User, ProvisionError>)
        requires
            old(self).db.wf(),
            old(self).db.next_user_id < i32::MAX,
            old(self).db.next_org_id < i32::MAX,
            old(self).db.next_access_level_id < i32::MAX,
        ensures
            final(self).signing_key == old(self).signing_key,
            match r {
                Result::Err(e) => final(self).db == old(self).db && (e == ProvisionError::Conflict
                    <==> spec_signup_conflict(old(self).db, dto.email@, dto.username@)),
                Result::Ok(u) => {
                    &&& spec_provisioned(old(self).db, final(self).db, dto.username@, dto.email@, u, now)
                    &&& bcrypt_matches(dto.password@, u.password@)
                },
            },
    {
        let password_hash = match hash_password(dto.password.as_str()) {
            Result::Err(_) => {
                if self.signup_would_conflict(&dto.email, &dto.username) {
                    return Result::Err(ProvisionError::Conflict);
                }
                return Result::Err(ProvisionError::InternalError);
            },
            Result::Ok(h) => h,
        };
        self.register_hashed_user_and_organization(dto.username, dto.email, password_hash, now)
    }

    /// Whether a sign-up with this email and username would hit one of the
    /// store's unique constraints.
    pub fn signup_would_conflict(&self, email: &String, username: &String) -> (r: bool)
        ensures
            r == spec_signup_conflict(self.db, email@, username@),
    {
        match self.db.find_user_by_email(email) {
            Option::Some(_) => true,
            Option::None => match self.db.find_org_by_billing_email(email) {
                Option::Some(_) => true,
                Option::None => match self.db.find_user_by_username(username) {
                    Option::Some(_) => true,
                    Option::None => false,
                },
            },
        }
    }

    /// The five-step provisioning transaction over an already-hashed
    /// password: insert the organization, its root access level and the
    /// owner user, then set the organization's owner back-reference.
    /// Success is owed exactly when no unique field conflicts.
    pub fn register_hashed_user_and_organization(
        &mut self,
        username: String,
        email: String,
        password_hash: String,
        now: u64,
    ) -> (r: Result<User, ProvisionError>)
        requires
            old(self).db.wf(),
            old(self).db.next_user_id < i32::MAX,
            old(self).db.next_org_id < i32::MAX,
            old(self).db.next_access_level_id < i32::MAX,
        ensures
            final(self).signing_key == old(self).signing_key,
            final(self).rng == old(self).rng,
            r is Err <==> spec_signup_conflict(old(self).db, email@, username@),
            match r {
                Result::Err(e) => final(self).db == old(self).db && e == ProvisionError::Conflict,
                Result::Ok(u) => spec_provisioned(
                    old(self).db,
                    final(self).db,
                    username@,
                    email@,
                    u,
                    now,
                ) && u.password == password_hash,
            },
    {
        match self.db.find_user_by_email(&email) {
            Option::Some(_) => {
                return Result::Err(ProvisionError::Conflict);
            },
            Option::None => (),
        }
        match self.db.find_org_by_billing_email(&email) {
            Option::Some(_) => {
                return Result::Err(ProvisionError::Conflict);
            },
            Option::None => (),
        }
        match self.db.find_user_by_username(&username) {
            Option::Some(_) => {
                return Result::Err(ProvisionError::Conflict);
            },
            Option::None => (),
        }
        let ghost db0 = self.db;
        let oid = self.db.next_org_id;
        let lid = self.db.next_access_level_id;
        let uid = self.db.next_user_id;
        let created_organization = Organization {
            id: oid,
            created_at: now,
            name: username.clone(),
            blocked: false,
            billing_email: email.clone(),
            billing_email_verified: false,
            confirm_billing_email_token: Option::None,
            owner_id: Option::None,
        };
        self.db.organizations.push(created_organization);
        let created_access_level = AccessLevel {
            id: lid,
            created_at: now,
            name: String::from_str("admin"),
            description: String::from_str("root access level"),
            is_fixed: true,
            permissions: root_permissions(),
            organization_id: Option::Some(oid),
        };
        self.db.access_levels.push(created_access_level);
        let created_user = User {
            id: uid,
            created_at: now,
            username,
            email,
            password: password_hash,
            email_verified: false,
            profile_picture: Option::None,
            description: Option::None,
            reset_password_token: Option::None,
            confirm_email_token: Option::None,
            organization_id: Option::Some(oid),
            access_level_id: lid,
        };
        let returned_user = created_user.duplicate();
        self.db.users.push(created_user);
        let owner_slot = self.db.organizations.len() - 1;
        self.db.organizations[owner_slot].owner_id = Option::Some(uid);
        self.db.next_org_id = oid + 1;
        self.db.next_access_level_id = lid + 1;
        self.db.next_user_id = uid + 1;
        proof {
            let u0 = db0.users@;
            let u1 = self.db.users@;
            let o0 = db0.organizations@;
            let o1 = self.db.organizations@;
            let l0 = db0.access_levels@;
            let l1 = self.db.access_levels@;
            assert(u1.drop_last() =~= u0);
            assert(o1.drop_last() =~= o0);
            assert(l1.drop_last() =~= l0);
            crate::store::lemma_user_idx_by_email_from(u0, returned_user.email@, 0);
            crate::store::lemma_user_idx_by_username_from(u0, returned_user.username@, 0);
            crate::store::lemma_org_idx_by_billing_email_from(o0, returned_user.email@, 0);
            assert forall|i: int, j: int| 0 <= i < j < u1.len() implies (#[trigger] u1[i]).id != (
            #[trigger] u1[j]).id && u1[i].email@ != u1[j].email@ && u1[i].username@
                != u1[j].username@ by {
                if j < u1.len() - 1 {
                    assert(u1[i] == u0[i] && u1[j] == u0[j]);
                } else {
                    assert(u1[i] == u0[i]);
                }
            }
            assert forall|i: int, j: int| 0 <= i < j < o1.len() implies (#[trigger] o1[i]).id != (
            #[trigger] o1[j]).id && o1[i].billing_email@ != o1[j].billing_email@ by {
                if j < o1.len() - 1 {
                    assert(o1[i] == o0[i] && o1[j] == o0[j]);
                } else {
                    assert(o1[i] == o0[i]);
                }
            }
            assert forall|i: int, j: int| 0 <= i < j < l1.len() implies (#[trigger] l1[i]).id != (
            #[trigger] l1[j]).id by {
                if j < l1.len() - 1 {
                    assert(l1[i] == l0[i] && l1[j] == l0[j]);
                } else {
                    assert(l1[i] == l0[i]);
                }
            }
        }
        Result::Ok(returned_user)
    }
}

} // verus!
