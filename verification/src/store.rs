//! The narrow repository the authority issues its commands against: four
//! tables of plain values and their serial-id counters. Lookups are stated
//! as first-match index functions; the well-formedness invariant carries
//! the store's uniqueness guarantees.
use crate::models::{AccessLevel, Organization, Session, User};
use vstd::prelude::*;

verus! {

pub open spec fn user_idx_by_email_from(users: Seq<User>, email: Seq<char>, i: int) -> Option<int>
    decreases users.len() - i,
{
    if i < 0 || i >= users.len() {
        Option::None
    } else if users[i].email@ == email {
        Option::Some(i)
    } else {
        user_idx_by_email_from(users, email, i + 1)
    }
}

/// Index of the first user with this email.
pub open spec fn user_idx_by_email(users: Seq<User>, email: Seq<char>) -> Option<int> {
    user_idx_by_email_from(users, email, 0)
}

pub open spec fn user_idx_by_username_from(users: Seq<User>, username: Seq<char>, i: int) -> Option<
    int,
>
    decreases users.len() - i,
{
    if i < 0 || i >= users.len() {
        Option::None
    } else if users[i].username@ == username {
        Option::Some(i)
    } else {
        user_idx_by_username_from(users, username, i + 1)
    }
}

/// Index of the first user with this username.
pub open spec fn user_idx_by_username(users: Seq<User>, username: Seq<char>) -> Option<int> {
    user_idx_by_username_from(users, username, 0)
}

pub open spec fn user_idx_by_id_from(users: Seq<User>, id: i32, i: int) -> Option<int>
    decreases users.len() - i,
{
    if i < 0 || i >= users.len() {
        Option::None
    } else if users[i].id == id {
        Option::Some(i)
    } else {
        user_idx_by_id_from(users, id, i + 1)
    }
}

/// Index of the first user with this id.
pub open spec fn user_idx_by_id(users: Seq<User>, id: i32) -> Option<int> {
    user_idx_by_id_from(users, id, 0)
}

pub open spec fn org_idx_by_id_from(orgs: Seq<Organization>, id: i32, i: int) -> Option<int>
    decreases orgs.len() - i,
{
    if i < 0 || i >= orgs.len() {
        Option::None
    } else if orgs[i].id == id {
        Option::Some(i)
    } else {
        org_idx_by_id_from(orgs, id, i + 1)
    }
}

/// Index of the first organization with this id.
pub open spec fn org_idx_by_id(orgs: Seq<Organization>, id: i32) -> Option<int> {
    org_idx_by_id_from(orgs, id, 0)
}

pub open spec fn org_idx_by_billing_email_from(
    orgs: Seq<Organization>,
    email: Seq<char>,
    i: int,
) -> Option<int>
    decreases orgs.len() - i,
{
    if i < 0 || i >= orgs.len() {
        Option::None
    } else if orgs[i].billing_email@ == email {
        Option::Some(i)
    } else {
        org_idx_by_billing_email_from(orgs, email, i + 1)
    }
}

/// Index of the first organization with this billing email.
pub open spec fn org_idx_by_billing_email(orgs: Seq<Organization>, email: Seq<char>) -> Option<
    int,
> {
    org_idx_by_billing_email_from(orgs, email, 0)
}

pub open spec fn level_idx_by_id_from(levels: Seq<AccessLevel>, id: i32, i: int) -> Option<int>
    decreases levels.len() - i,
{
    if i < 0 || i >= levels.len() {
        Option::None
    } else if levels[i].id == id {
        Option::Some(i)
    } else {
        level_idx_by_id_from(levels, id, i + 1)
    }
}

/// Index of the first access level with this id.
pub open spec fn level_idx_by_id(levels: Seq<AccessLevel>, id: i32) -> Option<int> {
    level_idx_by_id_from(levels, id, 0)
}

pub open spec fn session_idx_by_token_from(sessions: Seq<Session>, tok: Seq<char>, i: int) -> Option<
    int,
>
    decreases sessions.len() - i,
{
    if i < 0 || i >= sessions.len() {
        Option::None
    } else if sessions[i].session_token@ == tok {
        Option::Some(i)
    } else {
        session_idx_by_token_from(sessions, tok, i + 1)
    }
}

/// Index of the first session whose stored token equals this value.
pub open spec fn session_idx_by_token(sessions: Seq<Session>, tok: Seq<char>) -> Option<int> {
    session_idx_by_token_from(sessions, tok, 0)
}

pub open spec fn session_idx_by_public_id_from(sessions: Seq<Session>, id: i32, i: int) -> Option<
    int,
>
    decreases sessions.len() - i,
{
    if i < 0 || i >= sessions.len() {
        Option::None
    } else if sessions[i].public_id == id {
        Option::Some(i)
    } else {
        session_idx_by_public_id_from(sessions, id, i + 1)
    }
}

/// Index of the first session with this public id.
pub open spec fn session_idx_by_public_id(sessions: Seq<Session>, id: i32) -> Option<int> {
    session_idx_by_public_id_from(sessions, id, 0)
}

/// Characterization of the first-match session lookup: `Some(k)` is the
/// least matching index; `None` means no session carries the token.
pub proof fn lemma_session_idx_by_token_from(sessions: Seq<Session>, tok: Seq<char>, i: int)
    requires
        0 <= i <= sessions.len(),
    ensures
        match session_idx_by_token_from(sessions, tok, i) {
            Option::Some(k) => i <= k < sessions.len() && sessions[k].session_token@ == tok
                && forall|j: int| i <= j < k ==> (#[trigger] sessions[j]).session_token@ != tok,
            Option::None => forall|j: int|
                i <= j < sessions.len() ==> (#[trigger] sessions[j]).session_token@ != tok,
        },
    decreases sessions.len() - i,
{
    if i < sessions.len() && sessions[i].session_token@ != tok {
        lemma_session_idx_by_token_from(sessions, tok, i + 1);
    }
}

/// Characterization of the first-match email lookup.
pub proof fn lemma_user_idx_by_email_from(users: Seq<User>, email: Seq<char>, i: int)
    requires
        0 <= i <= users.len(),
    ensures
        match user_idx_by_email_from(users, email, i) {
            Option::Some(k) => i <= k < users.len() && users[k].email@ == email && forall|j: int|
                i <= j < k ==> (#[trigger] users[j]).email@ != email,
            Option::None => forall|j: int|
                i <= j < users.len() ==> (#[trigger] users[j]).email@ != email,
        },
    decreases users.len() - i,
{
    if i < users.len() && users[i].email@ != email {
        lemma_user_idx_by_email_from(users, email, i + 1);
    }
}

/// Characterization of the first-match username lookup.
pub proof fn lemma_user_idx_by_username_from(users: Seq<User>, username: Seq<char>, i: int)
    requires
        0 <= i <= users.len(),
    ensures
        match user_idx_by_username_from(users, username, i) {
            Option::Some(k) => i <= k < users.len() && users[k].username@ == username && forall|
                j: int,
            | i <= j < k ==> (#[trigger] users[j]).username@ != username,
            Option::None => forall|j: int|
                i <= j < users.len() ==> (#[trigger] users[j]).username@ != username,
        },
    decreases users.len() - i,
{
    if i < users.len() && users[i].username@ != username {
        lemma_user_idx_by_username_from(users, username, i + 1);
    }
}

/// Characterization of the first-match billing-email lookup.
pub proof fn lemma_org_idx_by_billing_email_from(orgs: Seq<Organization>, email: Seq<char>, i: int)
    requires
        0 <= i <= orgs.len(),
    ensures
        match org_idx_by_billing_email_from(orgs, email, i) {
            Option::Some(k) => i <= k < orgs.len() && orgs[k].billing_email@ == email && forall|
                j: int,
            | i <= j < k ==> (#[trigger] orgs[j]).billing_email@ != email,
            Option::None => forall|j: int|
                i <= j < orgs.len() ==> (#[trigger] orgs[j]).billing_email@ != email,
        },
    decreases orgs.len() - i,
{
    if i < orgs.len() && orgs[i].billing_email@ != email {
        lemma_org_idx_by_billing_email_from(orgs, email, i + 1);
    }
}

/// Characterization of the first-match user-id lookup.
pub proof fn lemma_user_idx_by_id_from(users: Seq<User>, id: i32, i: int)
    requires
        0 <= i <= users.len(),
    ensures
        match user_idx_by_id_from(users, id, i) {
            Option::Some(k) => i <= k < users.len() && users[k].id == id && forall|j: int|
                i <= j < k ==> (#[trigger] users[j]).id != id,
            Option::None => forall|j: int|
                i <= j < users.len() ==> (#[trigger] users[j]).id != id,
        },
    decreases users.len() - i,
{
    if i < users.len() && users[i].id != id {
        lemma_user_idx_by_id_from(users, id, i + 1);
    }
}

/// The store the authority owns no state beyond: four tables and the serial
/// counters their new rows draw from.
pub struct Repository {
    pub users: Vec<User>,
    pub organizations: Vec<Organization>,
    pub access_levels: Vec<AccessLevel>,
    pub sessions: Vec<Session>,
    pub next_user_id: i32,
    pub next_org_id: i32,
    pub next_access_level_id: i32,
    pub next_session_public_id: i32,
}

impl Repository {
    /// The store's invariant: unique serial ids below their counters, and
    /// the store-enforced unique columns (emails, usernames, tokens).
    pub open spec fn wf(&self) -> bool {
        &&& forall|i: int, j: int|
            0 <= i < j < self.users@.len() ==> (#[trigger] self.users@[i]).id != (
            #[trigger] self.users@[j]).id
        &&& forall|i: int, j: int|
            0 <= i < j < self.users@.len() ==> (#[trigger] self.users@[i]).email@ != (
            #[trigger] self.users@[j]).email@
        &&& forall|i: int, j: int|
            0 <= i < j < self.users@.len() ==> (#[trigger] self.users@[i]).username@ != (
            #[trigger] self.users@[j]).username@
        &&& forall|i: int, j: int|
            0 <= i < j < self.organizations@.len() ==> (#[trigger] self.organizations@[i]).id != (
            #[trigger] self.organizations@[j]).id
        &&& forall|i: int, j: int|
            0 <= i < j < self.organizations@.len() ==> (
            #[trigger] self.organizations@[i]).billing_email@ != (
            #[trigger] self.organizations@[j]).billing_email@
        &&& forall|i: int, j: int|
            0 <= i < j < self.access_levels@.len() ==> (#[trigger] self.access_levels@[i]).id != (
            #[trigger] self.access_levels@[j]).id
        &&& forall|i: int, j: int|
            0 <= i < j < self.sessions@.len() ==> (#[trigger] self.sessions@[i]).public_id != (
            #[trigger] self.sessions@[j]).public_id
        &&& forall|i: int, j: int|
            0 <= i < j < self.sessions@.len() ==> (#[trigger] self.sessions@[i]).session_token@
                != (#[trigger] self.sessions@[j]).session_token@
        &&& forall|i: int|
            0 <= i < self.users@.len() ==> 0 < (#[trigger] self.users@[i]).id < self.next_user_id
        &&& forall|i: int|
            0 <= i < self.organizations@.len() ==> 0 < (#[trigger] self.organizations@[i]).id
                < self.next_org_id
        &&& forall|i: int|
            0 <= i < self.access_levels@.len() ==> 0 < (#[trigger] self.access_levels@[i]).id
                < self.next_access_level_id
        &&& forall|i: int|
            0 <= i < self.sessions@.len() ==> 0 < (#[trigger] self.sessions@[i]).public_id
                < self.next_session_public_id
        &&& 0 < self.next_user_id
        &&& 0 < self.next_org_id
        &&& 0 < self.next_access_level_id
        &&& 0 < self.next_session_public_id
    }

    /// An empty store, counters at their first serial value.
    pub fn new() -> (r: Repository)
        ensures
            r.users@ == Seq::<User>::empty(),
            r.organizations@ == Seq::<Organization>::empty(),
            r.access_levels@ == Seq::<AccessLevel>::empty(),
            r.sessions@ == Seq::<Session>::empty(),
            r.next_user_id == 1,
            r.next_org_id == 1,
            r.next_access_level_id == 1,
            r.next_session_public_id == 1,
            r.wf(),
    {
        Repository {
            users: Vec::new(),
            organizations: Vec::new(),
            access_levels: Vec::new(),
            sessions: Vec::new(),
            next_user_id: 1,
            next_org_id: 1,
            next_access_level_id: 1,
            next_session_public_id: 1,
        }
    }

    pub fn find_user_by_email(&self, email: &String) -> (r: Option<usize>)
        ensures
            match r {
                Option::Some(k) => user_idx_by_email(self.users@, email@) == Option::Some(k as int)
                    && k < self.users@.len(),
                Option::None => user_idx_by_email(self.users@, email@) is None,
            },
    {
        let mut i: usize = 0;
        while i < self.users.len()
            invariant
                i <= self.users@.len(),
                user_idx_by_email(self.users@, email@) == user_idx_by_email_from(
                    self.users@,
                    email@,
                    i as int,
                ),
            decreases self.users@.len() - i,
        {
            if self.users[i].email == *email {
                return Option::Some(i);
            }
            i = i + 1;
        }
        Option::None
    }

    pub fn find_user_by_username(&self, username: &String) -> (r: Option<usize>)
        ensures
            match r {
                Option::Some(k) => user_idx_by_username(self.users@, username@) == Option::Some(
                    k as int,
                ) && k < self.users@.len(),
                Option::None => user_idx_by_username(self.users@, username@) is None,
            },
    {
        let mut i: usize = 0;
        while i < self.users.len()
            invariant
                i <= self.users@.len(),
                user_idx_by_username(self.users@, username@) == user_idx_by_username_from(
                    self.users@,
                    username@,
                    i as int,
                ),
            decreases self.users@.len() - i,
        {
            if self.users[i].username == *username {
                return Option::Some(i);
            }
            i = i + 1;
        }
        Option::None
    }

    pub fn find_user_by_id(&self, id: i32) -> (r: Option<usize>)
        ensures
            match r {
                Option::Some(k) => user_idx_by_id(self.users@, id) == Option::Some(k as int)
                    && k < self.users@.len(),
                Option::None => user_idx_by_id(self.users@, id) is None,
            },
    {
        let mut i: usize = 0;
        while i < self.users.len()
            invariant
                i <= self.users@.len(),
                user_idx_by_id(self.users@, id) == user_idx_by_id_from(self.users@, id, i as int),
            decreases self.users@.len() - i,
        {
            if self.users[i].id == id {
                return Option::Some(i);
            }
            i = i + 1;
        }
        Option::None
    }

    pub fn find_org_by_id(&self, id: i32) -> (r: Option<usize>)
        ensures
            match r {
                Option::Some(k) => org_idx_by_id(self.organizations@, id) == Option::Some(k as int)
                    && k < self.organizations@.len(),
                Option::None => org_idx_by_id(self.organizations@, id) is None,
            },
    {
        let mut i: usize = 0;
        while i < self.organizations.len()
            invariant
                i <= self.organizations@.len(),
                org_idx_by_id(self.organizations@, id) == org_idx_by_id_from(
                    self.organizations@,
                    id,
                    i as int,
                ),
            decreases self.organizations@.len() - i,
        {
            if self.organizations[i].id == id {
                return Option::Some(i);
            }
            i = i + 1;
        }
        Option::None
    }

    pub fn find_org_by_billing_email(&self, email: &String) -> (r: Option<usize>)
        ensures
            match r {
                Option::Some(k) => org_idx_by_billing_email(self.organizations@, email@)
                    == Option::Some(k as int) && k < self.organizations@.len(),
                Option::None => org_idx_by_billing_email(self.organizations@, email@) is None,
            },
    {
        let mut i: usize = 0;
        while i < self.organizations.len()
            invariant
                i <= self.organizations@.len(),
                org_idx_by_billing_email(self.organizations@, email@)
                    == org_idx_by_billing_email_from(self.organizations@, email@, i as int),
            decreases self.organizations@.len() - i,
        {
            if self.organizations[i].billing_email == *email {
                return Option::Some(i);
            }
            i = i + 1;
        }
        Option::None
    }

    pub fn find_level_by_id(&self, id: i32) -> (r: Option<usize>)
        ensures
            match r {
                Option::Some(k) => level_idx_by_id(self.access_levels@, id) == Option::Some(
                    k as int,
                ) && k < self.access_levels@.len(),
                Option::None => level_idx_by_id(self.access_levels@, id) is None,
            },
    {
        let mut i: usize = 0;
        while i < self.access_levels.len()
            invariant
                i <= self.access_levels@.len(),
                level_idx_by_id(self.access_levels@, id) == level_idx_by_id_from(
                    self.access_levels@,
                    id,
                    i as int,
                ),
            decreases self.access_levels@.len() - i,
        {
            if self.access_levels[i].id == id {
                return Option::Some(i);
            }
            i = i + 1;
        }
        Option::None
    }

    pub fn find_session_by_token(&self, tok: &String) -> (r: Option<usize>)
        ensures
            match r {
                Option::Some(k) => session_idx_by_token(self.sessions@, tok@) == Option::Some(
                    k as int,
                ) && k < self.sessions@.len(),
                Option::None => session_idx_by_token(self.sessions@, tok@) is None,
            },
    {
        let mut i: usize = 0;
        while i < self.sessions.len()
            invariant
                i <= self.sessions@.len(),
                session_idx_by_token(self.sessions@, tok@) == session_idx_by_token_from(
                    self.sessions@,
                    tok@,
                    i as int,
                ),
            decreases self.sessions@.len() - i,
        {
            if self.sessions[i].session_token == *tok {
                return Option::Some(i);
            }
            i = i + 1;
        }
        Option::None
    }

    pub fn find_session_by_public_id(&self, id: i32) -> (r: Option<usize>)
        ensures
            match r {
                Option::Some(k) => session_idx_by_public_id(self.sessions@, id) == Option::Some(
                    k as int,
                ) && k < self.sessions@.len(),
                Option::None => session_idx_by_public_id(self.sessions@, id) is None,
            },
    {
        let mut i: usize = 0;
        while i < self.sessions.len()
            invariant
                i <= self.sessions@.len(),
                session_idx_by_public_id(self.sessions@, id) == session_idx_by_public_id_from(
                    self.sessions@,
                    id,
                    i as int,
                ),
            decreases self.sessions@.len() - i,
        {
            if self.sessions[i].public_id == id {
                return Option::Some(i);
            }
            i = i + 1;
        }
        Option::None
    }
}

} // verus!
