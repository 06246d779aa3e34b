//! The persisted entities the authority commands: users, organizations,
//! access levels and sessions, modelled as plain values. Timestamps are unix
//! seconds; ids are the store's serial integers.
use vstd::prelude::*;

verus! {

/// Copies an optional owned string, value for value.
pub fn dup_opt_string(o: &Option<String>) -> (r: Option<String>)
    ensures
        r == *o,
{
    match o {
        Option::Some(s) => Option::Some(s.clone()),
        Option::None => Option::None,
    }
}

/// Copies a vector of owned strings, value for value.
pub fn dup_string_vec(v: &Vec<String>) -> (r: Vec<String>)
    ensures
        r@ == v@,
{
    let mut r: Vec<String> = Vec::new();
    let mut i: usize = 0;
    while i < v.len()
        invariant
            i <= v@.len(),
            r@ == v@.take(i as int),
        decreases v@.len() - i,
    {
        r.push(v[i].clone());
        proof {
            assert(v@.take(i as int + 1) =~= v@.take(i as int).push(v@[i as int]));
        }
        i = i + 1;
    }
    proof {
        assert(v@.take(v@.len() as int) =~= v@);
    }
    r
}

/// An account: unique email and username, a salted password hash, and the
/// back-references to its organization and access level.
pub struct User {
    pub id: i32,
    pub created_at: u64,
    pub username: String,
    pub email: String,
    /// Salted hash string; never a plaintext password.
    pub password: String,
    pub email_verified: bool,
    pub profile_picture: Option<String>,
    pub description: Option<String>,
    /// The latest password-reset claims token; only this one is honoured.
    pub reset_password_token: Option<String>,
    /// The latest email-confirmation claims token; only this one is honoured.
    pub confirm_email_token: Option<String>,
    pub organization_id: Option<i32>,
    pub access_level_id: i32,
}

impl User {
    pub fn duplicate(&self) -> (r: User)
        ensures
            r == *self,
    {
        User {
            id: self.id,
            created_at: self.created_at,
            username: self.username.clone(),
            email: self.email.clone(),
            password: self.password.clone(),
            email_verified: self.email_verified,
            profile_picture: dup_opt_string(&self.profile_picture),
            description: dup_opt_string(&self.description),
            reset_password_token: dup_opt_string(&self.reset_password_token),
            confirm_email_token: dup_opt_string(&self.confirm_email_token),
            organization_id: self.organization_id,
            access_level_id: self.access_level_id,
        }
    }
}

/// A tenant. `owner_id` is null only in the short window before the owner
/// user exists inside the provisioning transaction.
pub struct Organization {
    pub id: i32,
    pub created_at: u64,
    pub name: String,
    pub blocked: bool,
    pub billing_email: String,
    pub billing_email_verified: bool,
    /// The latest billing-email-confirmation claims token.
    pub confirm_billing_email_token: Option<String>,
    pub owner_id: Option<i32>,
}

impl Organization {
    pub fn duplicate(&self) -> (r: Organization)
        ensures
            r == *self,
    {
        Organization {
            id: self.id,
            created_at: self.created_at,
            name: self.name.clone(),
            blocked: self.blocked,
            billing_email: self.billing_email.clone(),
            billing_email_verified: self.billing_email_verified,
            confirm_billing_email_token: dup_opt_string(&self.confirm_billing_email_token),
            owner_id: self.owner_id,
        }
    }
}

/// A named permission bundle. Fixed levels are the immutable root levels
/// created with an organization, carrying the full permission set.
pub struct AccessLevel {
    pub id: i32,
    pub created_at: u64,
    pub name: String,
    pub description: String,
    pub is_fixed: bool,
    pub permissions: Vec<String>,
    pub organization_id: Option<i32>,
}

/// Content equality for access levels: every field agrees; the permission
/// vectors hold the same strings in the same order.
pub open spec fn same_access_level(a: &AccessLevel, b: &AccessLevel) -> bool {
    &&& a.id == b.id
    &&& a.created_at == b.created_at
    &&& a.name == b.name
    &&& a.description == b.description
    &&& a.is_fixed == b.is_fixed
    &&& a.permissions@ == b.permissions@
    &&& a.organization_id == b.organization_id
}

impl AccessLevel {
    pub fn duplicate(&self) -> (r: AccessLevel)
        ensures
            same_access_level(&r, self),
    {
        AccessLevel {
            id: self.id,
            created_at: self.created_at,
            name: self.name.clone(),
            description: self.description.clone(),
            is_fixed: self.is_fixed,
            permissions: dup_string_vec(&self.permissions),
            organization_id: self.organization_id,
        }
    }
}

/// One authenticated device or browser. The opaque token is stored verbatim
/// and compared by equality; the public id is the safe-to-display handle.
pub struct Session {
    pub public_id: i32,
    /// Storage value of the opaque token; globally unique, never displayed.
    pub session_token: String,
    pub ip: String,
    pub user_agent: String,
    /// Unix seconds; fixed at creation, never extended in place.
    pub expires_at: u64,
    pub user_id: i32,
}

impl Session {
    pub fn duplicate(&self) -> (r: Session)
        ensures
            r == *self,
    {
        Session {
            public_id: self.public_id,
            session_token: self.session_token.clone(),
            ip: self.ip.clone(),
            user_agent: self.user_agent.clone(),
            expires_at: self.expires_at,
            user_id: self.user_id,
        }
    }
}

/// The sign-up payload: a tenant is provisioned from a username, an email
/// and a plaintext password.
pub struct RegisterOrganization {
    pub username: String,
    pub email: String,
    pub password: String,
}

} // verus!
