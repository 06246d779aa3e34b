//! The library's laws: properties that relate several operations, proved
//! once and for all over the specification functions that the operations'
//! own contracts are stated in.
use crate::claims::{
    lemma_parse_audience_of, lemma_parse_token_of, spec_parse_audience, spec_token, spec_user_aud,
    spec_validate, AudienceKind, ParsedToken,
};
use crate::codec::{bytes_of_chars, chars_of_bytes};
use crate::errors::{TokenError, UserFromCredentialsError};
use crate::models::Session;
use crate::service::{
    active_sessions_from, spec_authenticate, spec_resolve_idx, spec_validate_reset,
};
use crate::store::{
    level_idx_by_id, lemma_session_idx_by_token_from, lemma_user_idx_by_email_from,
    session_idx_by_token, user_idx_by_email, user_idx_by_id, Repository,
};
use vstd::prelude::*;

verus! {

/// The stored value round-trips: after a session is created for a user —
/// the store grows by one row carrying a token no other row carries — the
/// authorization lookup on that token resolves, and resolves to that user.
pub proof fn lemma_created_session_resolves(
    db0: Repository,
    db1: Repository,
    t: Seq<char>,
    uid: i32,
    now: u64,
)
    requires
        session_idx_by_token(db0.sessions@, t) is None,
        db1.users@ == db0.users@,
        db1.sessions@.len() == db0.sessions@.len() + 1,
        db1.sessions@.drop_last() == db0.sessions@,
        db1.sessions@.last().session_token@ == t,
        db1.sessions@.last().user_id == uid,
        db1.sessions@.last().expires_at > now,
        user_idx_by_id(db1.users@, uid) is Some,
        level_idx_by_id(
            db1.access_levels@,
            db1.users@[user_idx_by_id(db1.users@, uid)->Some_0].access_level_id,
        ) is Some,
    ensures
        spec_resolve_idx(db1, t, now) is Some,
        db1.users@[spec_resolve_idx(db1, t, now)->Some_0.0].id == uid,
{
    let n0 = db0.sessions@.len() as int;
    assert forall|j: int| 0 <= j < n0 implies (#[trigger] db1.sessions@[j]) == db0.sessions@[j] by {
        assert(db1.sessions@.drop_last()[j] == db1.sessions@[j]);
    }
    lemma_session_idx_by_token_from(db0.sessions@, t, 0);
    lemma_session_idx_by_token_from(db1.sessions@, t, 0);
    match session_idx_by_token(db1.sessions@, t) {
        Option::None => {
            assert(db1.sessions@[n0].session_token@ != t);
        },
        Option::Some(k) => {
            if k < n0 {
                assert(db1.sessions@[k] == db0.sessions@[k]);
                assert(db0.sessions@[k].session_token@ != t);
            }
            assert(k == n0);
            let ui = user_idx_by_id(db1.users@, uid)->Some_0;
            crate::store::lemma_user_idx_by_id_from(db1.users@, uid, 0);
        },
    }
}

/// A session whose expiry instant has passed is excluded by the listing,
/// even if the row still exists: every listed session is the user's and
/// still alive, and every such stored row is listed.
pub proof fn lemma_active_sessions_exact(sessions: Seq<Session>, user_id: i32, now: u64, i: int)
    requires
        0 <= i <= sessions.len(),
    ensures
        forall|k: int|
            0 <= k < active_sessions_from(sessions, user_id, now, i).len() ==> (
            #[trigger] active_sessions_from(sessions, user_id, now, i)[k]).user_id == user_id
                && active_sessions_from(sessions, user_id, now, i)[k].expires_at > now,
        forall|j: int|
            i <= j < sessions.len() && (#[trigger] sessions[j]).user_id == user_id
                && sessions[j].expires_at > now ==> active_sessions_from(
                sessions,
                user_id,
                now,
                i,
            ).contains(sessions[j]),
    decreases sessions.len() - i,
{
    if i < sessions.len() {
        lemma_active_sessions_exact(sessions, user_id, now, i + 1);
        let f = active_sessions_from(sessions, user_id, now, i);
        let rest = active_sessions_from(sessions, user_id, now, i + 1);
        assert forall|j: int|
            i <= j < sessions.len() && (#[trigger] sessions[j]).user_id == user_id
                && sessions[j].expires_at > now implies f.contains(sessions[j]) by {
            if j == i {
                assert(f[0] == sessions[i]);
            } else {
                let w = choose|w: int| 0 <= w < rest.len() && rest[w] == sessions[j];
                if sessions[i].user_id == user_id && sessions[i].expires_at > now {
                    assert(f[w + 1] == rest[w]);
                } else {
                    assert(f[w] == rest[w]);
                }
            }
        }
    }
}

/// A session whose expiry instant has passed is excluded by the
/// authorization lookup too: its token resolves to nothing, even though
/// the row still exists, because the stored token is globally unique.
pub proof fn lemma_resolve_excludes_expired(db: Repository, k: int, now: u64)
    requires
        db.wf(),
        0 <= k < db.sessions@.len(),
        db.sessions@[k].expires_at <= now,
    ensures
        spec_resolve_idx(db, db.sessions@[k].session_token@, now) is None,
{
    let t = db.sessions@[k].session_token@;
    lemma_session_idx_by_token_from(db.sessions@, t, 0);
    match session_idx_by_token(db.sessions@, t) {
        Option::None => (),
        Option::Some(m) => {
            if m != k {
                if m < k {
                    assert(db.sessions@[m].session_token@ != db.sessions@[k].session_token@);
                } else {
                    assert(db.sessions@[k].session_token@ != db.sessions@[m].session_token@);
                }
            }
        },
    }
}

/// The two credential errors can never be confused: an unknown email is
/// `NotFound` whatever the password; `InvalidPassword` arises only for an
/// account that exists, whose stored hash rejected this password.
pub proof fn lemma_authenticate_error_separation(db: Repository, email: Seq<char>, pw: Seq<char>)
    ensures
        user_idx_by_email(db.users@, email) is None ==> spec_authenticate(db, email, pw)
            == Result::<(int, int, Option<int>), UserFromCredentialsError>::Err(
            UserFromCredentialsError::NotFound,
        ),
        spec_authenticate(db, email, pw) == Result::<
            (int, int, Option<int>),
            UserFromCredentialsError,
        >::Err(UserFromCredentialsError::InvalidPassword) ==> user_idx_by_email(
            db.users@,
            email,
        ) is Some && crate::crypto::bcrypt_verify_outcome(
            pw,
            db.users@[user_idx_by_email(db.users@, email)->Some_0].password@,
        ) == Option::Some(false),
        (user_idx_by_email(db.users@, email) matches Option::Some(ui) && level_idx_by_id(
            db.access_levels@,
            db.users@[ui].access_level_id,
        ) is Some && crate::crypto::bcrypt_verify_outcome(pw, db.users@[ui].password@)
            == Option::Some(false)) ==> spec_authenticate(db, email, pw) == Result::<
            (int, int, Option<int>),
            UserFromCredentialsError,
        >::Err(UserFromCredentialsError::InvalidPassword),
{
}

/// Two tokens signed under one key and issuer whose issuance instants
/// differ are different byte strings: building is injective in `iat`,
/// because parsing inverts it.
pub proof fn lemma_token_iat_injective(
    key: Seq<u8>,
    iss: Seq<u8>,
    sub: Seq<u8>,
    aud: Seq<u8>,
    iat1: u64,
    exp1: u64,
    iat2: u64,
    exp2: u64,
)
    requires
        crate::codec::all_ascii(iss),
        crate::codec::all_ascii(sub),
        crate::codec::all_ascii(aud),
        iss.len() <= u64::MAX,
        sub.len() <= u64::MAX,
        aud.len() <= u64::MAX,
        iat1 != iat2,
    ensures
        spec_token(key, iss, sub, aud, iat1, exp1) != spec_token(key, iss, sub, aud, iat2, exp2),
{
    lemma_parse_token_of(key, iss, sub, aud, iat1, exp1);
    lemma_parse_token_of(key, iss, sub, aud, iat2, exp2);
    if spec_token(key, iss, sub, aud, iat1, exp1) == spec_token(key, iss, sub, aud, iat2, exp2) {
        assert(crate::claims::spec_parse_token(
            spec_token(key, iss, sub, aud, iat1, exp1),
        )->Some_0.iat == iat1);
    }
}

/// Issuing a second password-reset claim for the same user invalidates the
/// first: once the stored row holds the token issued at `now2`, presenting
/// the token issued at `now1` — validly signed and unexpired though it is —
/// yields `Stale`.
#[verifier::rlimit(100)]
pub proof fn lemma_second_reset_invalidates_first(
    db: Repository,
    key: Seq<u8>,
    user_id: i32,
    now1: u64,
    now2: u64,
    now: u64,
    ui: int,
)
    requires
        user_id >= 0,
        now1 != now2,
        now1 <= u64::MAX - 900,
        now2 <= u64::MAX - 900,
        now < now1 + 900,
        user_idx_by_id(db.users@, user_id) == Option::Some(ui),
        0 <= ui < db.users@.len(),
        db.users@[ui].reset_password_token matches Option::Some(t2) && t2@ == chars_of_bytes(
            spec_token(
                key,
                bytes_of_chars("rastercar API"@),
                bytes_of_chars("restore password token"@),
                spec_user_aud(user_id),
                now2,
                (now2 + 900) as u64,
            ),
        ),
    ensures
        spec_validate_reset(
            db,
            key,
            spec_token(
                key,
                bytes_of_chars("rastercar API"@),
                bytes_of_chars("restore password token"@),
                spec_user_aud(user_id),
                now1,
                (now1 + 900) as u64,
            ),
            now,
        ) == Result::<i32, TokenError>::Err(TokenError::Stale),
{
    reveal_strlit("rastercar API");
    reveal_strlit("restore password token");
    reveal_strlit("user:");
    let iss = bytes_of_chars("rastercar API"@);
    let sub = bytes_of_chars("restore password token"@);
    let aud = spec_user_aud(user_id);
    let t1 = spec_token(key, iss, sub, aud, now1, (now1 + 900) as u64);
    let t2b = spec_token(key, iss, sub, aud, now2, (now2 + 900) as u64);
    assert(crate::codec::all_ascii(iss) && crate::codec::all_ascii(sub)) by {
        assert(vstd::utf8::is_ascii_chars("rastercar API"@));
        assert(vstd::utf8::is_ascii_chars("restore password token"@));
        crate::codec::lemma_ascii_chars_bytes_roundtrip("rastercar API"@);
        crate::codec::lemma_ascii_chars_bytes_roundtrip("restore password token"@);
    }
    lemma_parse_audience_of(user_id);
    crate::codec::lemma_digits_len_le(user_id as nat);
    lemma_parse_token_of(key, iss, sub, aud, now1, (now1 + 900) as u64);
    let p = crate::claims::spec_parse_token(t1)->Some_0;
    assert(spec_validate(key, t1, now) == Result::<ParsedToken, TokenError>::Ok(p));
    assert(spec_parse_audience(p.aud) == Option::Some((AudienceKind::User, user_id)));
    lemma_token_iat_injective(key, iss, sub, aud, now1, (now1 + 900) as u64, now2, (now2
        + 900) as u64);
    let t2 = db.users@[ui].reset_password_token->Some_0;
    crate::claims::lemma_token_ascii(key, iss, sub, aud, now2, (now2 + 900) as u64);
    crate::codec::lemma_ascii_bytes_chars_roundtrip(t2b);
    vstd::utf8::is_ascii_chars_encode_utf8(t2@);
    assert(vstd::utf8::encode_utf8(t2@) =~= bytes_of_chars(t2@));
    assert(bytes_of_chars(t2@) =~= t2b);
    assert(vstd::utf8::encode_utf8(t2@) != t1);
}

} // verus!
