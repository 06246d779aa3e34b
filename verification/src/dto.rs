//! The outward-facing shapes of the entities: what the HTTP layer may see.
//! A dto never carries a password hash or an opaque session token.
use crate::models::{AccessLevel, Organization, User};
use vstd::prelude::*;
use vstd::std_specs::convert::FromSpec;

verus! {

pub struct AccessLevelDto {
    pub id: i32,
    pub name: String,
    pub description: String,
    pub is_fixed: bool,
    pub permissions: Vec<String>,
}

pub struct OrganizationDto {
    pub id: i32,
    pub name: String,
    pub blocked: bool,
    pub billing_email: String,
    pub billing_email_verified: bool,
    pub owner_id: Option<i32>,
}

pub struct UserDto {
    pub id: i32,
    pub created_at: u64,
    pub username: String,
    pub email: String,
    pub email_verified: bool,
    pub profile_picture: Option<String>,
    pub description: Option<String>,
    pub organization: Option<OrganizationDto>,
    pub access_level: AccessLevelDto,
}

impl vstd::std_specs::convert::FromSpecImpl<AccessLevel> for AccessLevelDto {
    open spec fn obeys_from_spec() -> bool {
        true
    }

    open spec fn from_spec(m: AccessLevel) -> AccessLevelDto {
        AccessLevelDto {
            id: m.id,
            name: m.name,
            description: m.description,
            is_fixed: m.is_fixed,
            permissions: m.permissions,
        }
    }
}

impl From<AccessLevel> for AccessLevelDto {
    fn from(m: AccessLevel) -> (r: AccessLevelDto) {
        AccessLevelDto {
            id: m.id,
            name: m.name,
            description: m.description,
            is_fixed: m.is_fixed,
            permissions: m.permissions,
        }
    }
}

impl vstd::std_specs::convert::FromSpecImpl<Organization> for OrganizationDto {
    open spec fn obeys_from_spec() -> bool {
        true
    }

    open spec fn from_spec(m: Organization) -> OrganizationDto {
        OrganizationDto {
            id: m.id,
            name: m.name,
            blocked: m.blocked,
            billing_email: m.billing_email,
            billing_email_verified: m.billing_email_verified,
            owner_id: m.owner_id,
        }
    }
}

impl From<Organization> for OrganizationDto {
    fn from(m: Organization) -> (r: OrganizationDto) {
        OrganizationDto {
            id: m.id,
            name: m.name,
            blocked: m.blocked,
            billing_email: m.billing_email,
            billing_email_verified: m.billing_email_verified,
            owner_id: m.owner_id,
        }
    }
}

/// Tuple with the relationships needed to build a user dto.
pub type UserDtoEntities = (User, AccessLevel, Option<Organization>);

impl vstd::std_specs::convert::FromSpecImpl<UserDtoEntities> for UserDto {
    open spec fn obeys_from_spec() -> bool {
        true
    }

    open spec fn from_spec(m: UserDtoEntities) -> UserDto {
        UserDto {
            id: m.0.id,
            created_at: m.0.created_at,
            username: m.0.username,
            email: m.0.email,
            email_verified: m.0.email_verified,
            profile_picture: m.0.profile_picture,
            description: m.0.description,
            organization: match m.2 {
                Option::Some(o) => Option::Some(<OrganizationDto as FromSpec<Organization>>::from_spec(o)),
                Option::None => Option::None,
            },
            access_level: <AccessLevelDto as FromSpec<AccessLevel>>::from_spec(m.1),
        }
    }
}

impl From<UserDtoEntities> for UserDto {
    fn from(m: UserDtoEntities) -> (r: UserDto) {
        let (user, access_level, org) = m;
        UserDto {
            id: user.id,
            created_at: user.created_at,
            username: user.username,
            email: user.email,
            email_verified: user.email_verified,
            profile_picture: user.profile_picture,
            description: user.description,
            organization: match org {
                Option::Some(o) => Option::Some(OrganizationDto::from(o)),
                Option::None => Option::None,
            },
            access_level: AccessLevelDto::from(access_level),
        }
    }
}

} // verus!
