//! Tests of the authority: credentials, session lifecycle, reset-token
//! staleness and tenant provisioning.
use auth_core::errors::{ProvisionError, TokenError, UserFromCredentialsError};
use auth_core::models::{RegisterOrganization, Session};
use auth_core::service::AuthService;
use auth_core::session_token::rng_from_u64_seed;
use auth_core::store::Repository;

fn fresh_service(seed: u64) -> AuthService {
    AuthService::new(Repository::new(), rng_from_u64_seed(seed), b"test signing key".to_vec())
}

fn register_alice(svc: &mut AuthService, now: u64) -> auth_core::models::User {
    svc.register_user_and_organization(
        RegisterOrganization {
            username: "alice".to_string(),
            email: "alice@x.com".to_string(),
            password: "pw".to_string(),
        },
        now,
    )
    .unwrap()
}

#[test]
fn provision_links_user_organization_and_root_level() {
    let mut svc = fresh_service(1);
    let user = register_alice(&mut svc, 500);
    let org = svc.db.organizations.last().unwrap();
    let level = svc.db.access_levels.last().unwrap();
    assert_eq!(user.organization_id, Some(org.id));
    assert_eq!(org.owner_id, Some(user.id));
    assert_eq!(user.access_level_id, level.id);
    assert!(level.is_fixed);
    assert_eq!(level.name, "admin");
    assert_eq!(
        level.permissions,
        vec![
            "CREATE_USER".to_string(),
            "UPDATE_USER".to_string(),
            "DELETE_USER".to_string(),
            "MANAGE_VEHICLES".to_string(),
            "MANAGE_ORGANIZATION".to_string(),
        ]
    );
    assert_eq!(org.billing_email, "alice@x.com");
    assert!(!org.billing_email_verified);
    assert!(!user.email_verified);
}

#[test]
fn provision_conflict_leaves_no_partial_rows() {
    let mut svc = fresh_service(2);
    register_alice(&mut svc, 500);
    let users = svc.db.users.len();
    let orgs = svc.db.organizations.len();
    let levels = svc.db.access_levels.len();
    let second = svc.register_user_and_organization(
        RegisterOrganization {
            username: "someone-else".to_string(),
            email: "alice@x.com".to_string(),
            password: "pw2".to_string(),
        },
        600,
    );
    assert!(matches!(second, Err(ProvisionError::Conflict)));
    assert_eq!(svc.db.users.len(), users);
    assert_eq!(svc.db.organizations.len(), orgs);
    assert_eq!(svc.db.access_levels.len(), levels);
    // a taken username conflicts too
    let third = svc.register_user_and_organization(
        RegisterOrganization {
            username: "alice".to_string(),
            email: "other@x.com".to_string(),
            password: "pw3".to_string(),
        },
        700,
    );
    assert!(matches!(third, Err(ProvisionError::Conflict)));
    assert_eq!(svc.db.users.len(), users);
}

#[test]
fn authenticate_separates_not_found_from_invalid_password() {
    let mut svc = fresh_service(3);
    register_alice(&mut svc, 500);
    let wrong = svc.get_user_from_credentials("alice@x.com".to_string(), "nope".to_string());
    assert!(matches!(wrong, Err(UserFromCredentialsError::InvalidPassword)));
    let unknown = svc.get_user_from_credentials("bob@x.com".to_string(), "anything".to_string());
    assert!(matches!(unknown, Err(UserFromCredentialsError::NotFound)));
    let ok = svc
        .get_user_from_credentials("alice@x.com".to_string(), "pw".to_string())
        .unwrap();
    assert_eq!(ok.email, "alice@x.com");
    assert_eq!(ok.username, "alice");
    assert!(ok.organization.is_some());
    assert!(ok.access_level.is_fixed);
}

#[test]
fn created_session_resolves_to_its_user() {
    let mut svc = fresh_service(4);
    let user = register_alice(&mut svc, 500);
    let now = 1_000;
    let token = svc
        .new_session(user.id, "127.0.0.1/32".to_string(), "tests".to_string(), now)
        .unwrap();
    let (resolved, level, org) = svc.get_user_from_session_id(&token, now + 60).unwrap();
    assert_eq!(resolved.id, user.id);
    assert_eq!(resolved.email, "alice@x.com");
    assert!(level.is_fixed);
    assert!(org.is_some());
    // at the expiry instant the same token no longer resolves
    assert!(svc.get_user_from_session_id(&token, now + 2_592_000).is_none());
}

#[test]
fn expired_session_is_excluded_even_if_the_row_exists() {
    let mut svc = fresh_service(5);
    let user = register_alice(&mut svc, 500);
    let now = 5_000_000;
    // a row whose expiry instant has passed, still present in the store
    svc.db.sessions.push(Session {
        public_id: 1,
        session_token: "deadbeef".to_string(),
        ip: "127.0.0.1/32".to_string(),
        user_agent: "tests".to_string(),
        expires_at: now - 1,
        user_id: user.id,
    });
    svc.db.next_session_public_id = 2;
    let listed = svc.get_active_user_sessions(user.id, now);
    assert!(listed.is_empty());
    // before the expiry instant the same row is listed
    let listed_before = svc.get_active_user_sessions(user.id, now - 2);
    assert_eq!(listed_before.len(), 1);
    assert_eq!(listed_before[0].session_token, "deadbeef");
    // the authorization lookup excludes it too, though the row exists
    let token = auth_core::session_token::SessionToken { raw: vec![0xde, 0xad, 0xbe, 0xef] };
    assert!(svc.get_user_from_session_id(&token, now).is_none());
    assert!(svc.get_user_from_session_id(&token, now - 2).is_some());
}

#[test]
fn list_active_filters_by_user() {
    let mut svc = fresh_service(6);
    let alice = register_alice(&mut svc, 500);
    let bob = svc
        .register_user_and_organization(
            RegisterOrganization {
                username: "bob".to_string(),
                email: "bob@x.com".to_string(),
                password: "pw".to_string(),
            },
            600,
        )
        .unwrap();
    let now = 1_000;
    svc.new_session(alice.id, "10.0.0.1/32".to_string(), "a".to_string(), now)
        .unwrap();
    svc.new_session(bob.id, "10.0.0.2/32".to_string(), "b".to_string(), now)
        .unwrap();
    let of_alice = svc.get_active_user_sessions(alice.id, now + 1);
    assert_eq!(of_alice.len(), 1);
    assert_eq!(of_alice[0].user_id, alice.id);
    assert_eq!(of_alice[0].ip, "10.0.0.1/32");
    assert_eq!(of_alice[0].expires_at, now + 2_592_000);
}

#[test]
fn delete_session_is_idempotent() {
    let mut svc = fresh_service(7);
    let user = register_alice(&mut svc, 500);
    let now = 1_000;
    let token = svc
        .new_session(user.id, "127.0.0.1/32".to_string(), "tests".to_string(), now)
        .unwrap();
    assert!(svc.get_user_from_session_id(&token, now + 1).is_some());
    svc.delete_session(&token);
    assert!(svc.get_user_from_session_id(&token, now + 1).is_none());
    assert!(svc.db.sessions.is_empty());
    // deleting zero rows is not an error
    svc.delete_session(&token);
    assert!(svc.db.sessions.is_empty());
}

#[test]
fn delete_session_by_public_id_removes_one_device() {
    let mut svc = fresh_service(8);
    let user = register_alice(&mut svc, 500);
    let now = 1_000;
    let t1 = svc
        .new_session(user.id, "10.0.0.1/32".to_string(), "a".to_string(), now)
        .unwrap();
    let t2 = svc
        .new_session(user.id, "10.0.0.2/32".to_string(), "b".to_string(), now)
        .unwrap();
    let first_public_id = svc.db.sessions[0].public_id;
    svc.delete_session_by_public_id(first_public_id);
    assert!(svc.get_user_from_session_id(&t1, now + 1).is_none());
    assert!(svc.get_user_from_session_id(&t2, now + 1).is_some());
    svc.delete_session_by_public_id(first_public_id);
    assert_eq!(svc.db.sessions.len(), 1);
}

#[test]
fn check_email_in_use_sees_users_and_organizations() {
    let mut svc = fresh_service(9);
    register_alice(&mut svc, 500);
    assert!(svc.check_email_in_use(&"alice@x.com".to_string()));
    assert!(!svc.check_email_in_use(&"nobody@x.com".to_string()));
}

#[test]
fn get_user_id_by_username_finds_the_account() {
    let mut svc = fresh_service(10);
    let user = register_alice(&mut svc, 500);
    assert_eq!(svc.get_user_id_by_username(&"alice".to_string()), Some(user.id));
    assert_eq!(svc.get_user_id_by_username(&"bob".to_string()), None);
}

#[test]
fn reset_token_is_stored_on_the_user_row() {
    let mut svc = fresh_service(11);
    let user = register_alice(&mut svc, 500);
    let now = 10_000;
    let token = svc.gen_and_set_user_reset_password_token(user.id, now);
    assert_eq!(svc.db.users[0].reset_password_token, Some(token.clone()));
    assert_eq!(svc.validate_reset_password_token(&token, now + 1), Ok(user.id));
    // at the expiry instant (15 minutes) the token is expired
    assert_eq!(
        svc.validate_reset_password_token(&token, now + 900),
        Err(TokenError::Expired)
    );
}

#[test]
fn second_reset_token_invalidates_the_first() {
    let mut svc = fresh_service(12);
    let user = register_alice(&mut svc, 500);
    let first = svc.gen_and_set_user_reset_password_token(user.id, 10_000);
    let second = svc.gen_and_set_user_reset_password_token(user.id, 10_050);
    assert_ne!(first, second);
    // the first is validly signed and unexpired, yet superseded
    assert_eq!(
        svc.validate_reset_password_token(&first, 10_100),
        Err(TokenError::Stale)
    );
    assert_eq!(svc.validate_reset_password_token(&second, 10_100), Ok(user.id));
}

#[test]
fn confirm_email_tokens_are_stored_on_their_rows() {
    let mut svc = fresh_service(13);
    let user = register_alice(&mut svc, 500);
    let org_id = svc.db.organizations[0].id;
    let now = 20_000;
    let user_token = svc.gen_and_set_user_confirm_email_token(user.id, now);
    let org_token = svc.gen_and_set_org_confirm_email_token(org_id, now);
    assert_eq!(svc.db.users[0].confirm_email_token, Some(user_token.clone()));
    assert_eq!(
        svc.db.organizations[0].confirm_billing_email_token,
        Some(org_token.clone())
    );
    assert_ne!(user_token, org_token);
    // both target their own entity kind
    let c = match auth_core::claims::decode_and_validate(
        &b"test signing key".to_vec(),
        &org_token,
        now + 1,
    ) {
        Ok(c) => c,
        Err(_) => panic!("org confirm token failed to validate"),
    };
    assert_eq!(c.aud, format!("organization:{}", org_id));
    assert_eq!(c.exp, now + 28_800);
}

#[test]
fn get_user_id_from_token_aud_reads_only_user_audiences() {
    let svc = fresh_service(14);
    assert_eq!(svc.get_user_id_from_token_aud("user:42".to_string()), Ok(42));
    assert_eq!(
        svc.get_user_id_from_token_aud("organization:42".to_string()),
        Err(TokenError::Malformed)
    );
    assert_eq!(
        svc.get_user_id_from_token_aud("garbage".to_string()),
        Err(TokenError::Malformed)
    );
}

#[test]
fn insert_session_refuses_a_duplicate_token() {
    let mut svc = fresh_service(15);
    let user = register_alice(&mut svc, 500);
    let token = auth_core::session_token::SessionToken { raw: vec![7u8; 32] };
    assert!(svc.insert_session(&token, "10.0.0.1/32".to_string(), "a".to_string(), user.id, 1_000));
    let before = svc.db.sessions.len();
    // the unique-token constraint rejects the second row and writes nothing
    assert!(!svc.insert_session(&token, "10.0.0.2/32".to_string(), "b".to_string(), user.id, 1_000));
    assert_eq!(svc.db.sessions.len(), before);
}

#[test]
fn signup_would_conflict_matches_the_store() {
    let mut svc = fresh_service(16);
    register_alice(&mut svc, 500);
    assert!(svc.signup_would_conflict(&"alice@x.com".to_string(), &"fresh".to_string()));
    assert!(svc.signup_would_conflict(&"fresh@x.com".to_string(), &"alice".to_string()));
    assert!(!svc.signup_would_conflict(&"fresh@x.com".to_string(), &"fresh".to_string()));
}

#[test]
fn session_token_resolves_to_a_dto_without_secrets() {
    let mut svc = fresh_service(17);
    let user = register_alice(&mut svc, 500);
    let now = 1_000;
    let token = svc
        .new_session(user.id, "127.0.0.1/32".to_string(), "tests".to_string(), now)
        .unwrap();
    let dto = svc.get_user_from_session_token(&token, now + 1).unwrap();
    assert_eq!(dto.id, user.id);
    assert_eq!(dto.username, "alice");
    assert_eq!(dto.email, "alice@x.com");
    let org = dto.organization.expect("alice is organization-bound");
    assert_eq!(org.owner_id, Some(user.id));
    assert!(dto.access_level.is_fixed);
}

#[test]
fn user_dto_carries_the_joined_entities() {
    let mut svc = fresh_service(18);
    let user = register_alice(&mut svc, 500);
    let level = svc.db.access_levels[0].duplicate();
    let org = svc.db.organizations[0].duplicate();
    let dto = auth_core::dto::UserDto::from((user.duplicate(), level, Some(org)));
    assert_eq!(dto.id, user.id);
    assert_eq!(dto.created_at, 500);
    assert_eq!(dto.email_verified, false);
    assert_eq!(dto.organization.unwrap().billing_email, "alice@x.com");
    assert_eq!(dto.access_level.name, "admin");
}

#[test]
fn new_auth_service_builds_on_the_given_store() {
    let svc = auth_core::service::new_auth_service(
        Repository::new(),
        rng_from_u64_seed(19),
        b"k".to_vec(),
    );
    assert!(svc.db.users.is_empty());
    assert!(svc.db.sessions.is_empty());
}
