use firelite::auth::accounts::{is_valid_phone_number, normalize_email};
use firelite::auth::actions::{
    parse_project_action, request_base_url, route_get_action, route_identity_action,
    route_mfa_action, IdentityAction, IdentityAnswer, IdentityCall, MfaAction,
};
use firelite::auth::errors::AuthError;
use firelite::auth::provider::{can_parse_post_body, parse_post_body, sanitize_email_part};
use firelite::auth::records::MfaEnrollment;
use firelite::auth::requests::{
    AdminBatchDeleteRequest, AdminBatchGetQuery, AdminCreateRequest, AdminDeleteRequest,
    AdminLookupRequest, AdminUpdateRequest, CustomTokenRequest, DeleteRequest, EmailLinkRequest,
    IdpRequest, LookupRequest, MfaEnrollmentFinalizeRequest, MfaEnrollmentStartRequest,
    MfaSignInFinalizeRequest, MfaSignInStartRequest, MfaUpdate, OobActionQuery,
    PhoneVerificationInfo, RefreshTokenRequest, SendOobCodeRequest, SignInRequest, SignUpRequest,
};
use firelite::auth::responses::{
    AuthResponse, EmulatorUser, MfaResponse, OobCodeResponse, PasswordResponse,
    SecureTokenResponse,
};
use firelite::auth::sign_in::make_oob_link;
use firelite::auth::state::AuthState;
use firelite::auth::tokens::{
    claims_from, parse_custom_token_subject, parse_refresh_token, parse_token_claims,
    refresh_claims_from, subject_from,
};
use firelite::base64_text::bytes_of_url_safe;
use firelite::fresh::Draw;
use firelite::json::Json;

const BASE: &str = "http://127.0.0.1:9099";
const NOW: u64 = 1_700_000_000_123;

fn owned(text: &str) -> Option<String> {
    Some(text.to_string())
}

fn act(state: &mut AuthState, call: IdentityCall) -> Result<IdentityAnswer, AuthError> {
    assert!(state.accepts(&call));
    state.identity_action(BASE, &call, NOW)
}

fn signed_in(answer: Result<IdentityAnswer, AuthError>) -> AuthResponse {
    match answer {
        Ok(IdentityAnswer::SignedIn(response)) => response,
        Ok(IdentityAnswer::Password(PasswordResponse::SignedIn(response))) => response,
        other => panic!("expected a sign-in, got {other:?}"),
    }
}

fn user(answer: Result<IdentityAnswer, AuthError>) -> EmulatorUser {
    match answer {
        Ok(IdentityAnswer::User(user)) => user,
        other => panic!("expected an account, got {other:?}"),
    }
}

fn users(answer: Result<IdentityAnswer, AuthError>) -> Vec<EmulatorUser> {
    match answer {
        Ok(IdentityAnswer::Users(users)) => users,
        other => panic!("expected accounts, got {other:?}"),
    }
}

fn session(answer: Result<IdentityAnswer, AuthError>) -> String {
    match answer {
        Ok(IdentityAnswer::Session(session)) => session,
        other => panic!("expected a session, got {other:?}"),
    }
}

fn second_factor(answer: Result<IdentityAnswer, AuthError>) -> MfaResponse {
    match answer {
        Ok(IdentityAnswer::SecondFactor(response)) => response,
        other => panic!("expected a second factor, got {other:?}"),
    }
}

fn tokens(answer: Result<IdentityAnswer, AuthError>) -> SecureTokenResponse {
    match answer {
        Ok(IdentityAnswer::Tokens(response)) => response,
        other => panic!("expected tokens, got {other:?}"),
    }
}

fn mailed(answer: Result<IdentityAnswer, AuthError>) -> OobCodeResponse {
    match answer {
        Ok(IdentityAnswer::Mailed(response)) => response,
        other => panic!("expected a mailed code, got {other:?}"),
    }
}

fn sign_up(state: &mut AuthState, email: &str, password: &str) -> AuthResponse {
    signed_in(act(
        state,
        IdentityCall::SignUp(SignUpRequest {
            email: owned(email),
            password: owned(password),
            return_secure_token: Some(true),
        }),
    ))
}

fn password_call(email: &str, password: &str) -> IdentityCall {
    IdentityCall::SignInWithPassword(SignInRequest {
        email: email.to_string(),
        password: password.to_string(),
        return_secure_token: Some(true),
    })
}

fn pending(answer: Result<IdentityAnswer, AuthError>) -> (String, Vec<MfaEnrollment>) {
    match answer {
        Ok(IdentityAnswer::Password(PasswordResponse::SecondFactorRequired {
            mfa_pending_credential,
            mfa_info,
            ..
        })) => (mfa_pending_credential, mfa_info),
        other => panic!("expected a second factor to be required, got {other:?}"),
    }
}

fn create(email: &str, password: &str) -> AdminCreateRequest {
    AdminCreateRequest {
        local_id: None,
        email: owned(email),
        password: owned(password),
        display_name: None,
        photo_url: None,
        phone_number: None,
        custom_attributes: None,
        disabled: None,
        email_verified: None,
        mfa_info: None,
    }
}

fn update(local_id: &str) -> AdminUpdateRequest {
    AdminUpdateRequest {
        local_id: local_id.to_string(),
        password: None,
        display_name: None,
        photo_url: None,
        phone_number: None,
        custom_attributes: None,
        disabled: None,
        disable_user: None,
        email_verified: None,
        valid_since: None,
        delete_attribute: None,
        delete_provider: None,
        mfa: None,
        mfa_info: None,
    }
}

fn lookup_call(id_token: &str) -> IdentityCall {
    IdentityCall::Lookup(LookupRequest {
        id_token: owned(id_token),
        local_id: None,
    })
}

fn refresh_call(refresh_token: &str) -> IdentityCall {
    IdentityCall::Refresh(RefreshTokenRequest {
        grant_type: "refresh_token".to_string(),
        refresh_token: refresh_token.to_string(),
    })
}

fn project() -> String {
    "demo-firelite".to_string()
}

fn payload(token: &str) -> Json {
    let part = token.split('.').nth(1).unwrap();
    Json::parse(&bytes_of_url_safe(part).unwrap()).unwrap()
}

fn firebase_claim(token: &str, name: &str) -> Option<String> {
    payload(token)
        .get("firebase")
        .unwrap()
        .text_in(name)
        .map(|text| text.to_string())
}

#[test]
fn auth_create_sign_in_list_delete_flow() {
    let mut state = AuthState::default();
    let created = sign_up(&mut state, "alice@example.test", "secret123");
    assert_eq!(created.email.as_deref(), Some("alice@example.test"));
    assert!(created.id_token.contains('.'));
    assert_eq!(created.expires_in, "3600");

    let again = signed_in(act(&mut state, password_call("alice@example.test", "secret123")));
    assert_eq!(again.local_id, created.local_id);
    assert_eq!(state.list_accounts("demo-firelite").len(), 1);

    let deleted = act(
        &mut state,
        IdentityCall::Delete(DeleteRequest {
            id_token: None,
            local_id: Some(created.local_id),
        }),
    );
    assert!(matches!(deleted, Ok(IdentityAnswer::Done)));
    assert_eq!(state.list_accounts("demo-firelite").len(), 0);
}

#[test]
fn auth_anonymous_signup_lookup_refresh_and_delete_flow() {
    let mut state = AuthState::default();
    let created = signed_in(act(
        &mut state,
        IdentityCall::SignUp(SignUpRequest {
            email: None,
            password: None,
            return_secure_token: Some(true),
        }),
    ));
    assert_eq!(created.email, None);
    let claims = payload(&created.id_token);
    assert_eq!(
        firebase_claim(&created.id_token, "sign_in_provider").as_deref(),
        Some("anonymous")
    );
    assert_eq!(claims.get("firebase").unwrap().get("identities").unwrap().render(), "{}");
    assert!(claims.get("email").is_none());

    let found = users(act(&mut state, lookup_call(&created.id_token)));
    assert_eq!(found[0].email, None);
    assert_eq!(found[0].password_hash, None);
    assert!(found[0].provider_user_info.is_empty());

    let refreshed = tokens(act(&mut state, refresh_call(&created.refresh_token)));
    assert_eq!(
        firebase_claim(&refreshed.id_token, "sign_in_provider").as_deref(),
        Some("anonymous")
    );

    let deleted = act(
        &mut state,
        IdentityCall::Delete(DeleteRequest {
            id_token: Some(created.id_token),
            local_id: None,
        }),
    );
    assert!(deleted.is_ok());
}

fn start_enrollment(state: &mut AuthState, id_token: &str) -> String {
    session(act(
        state,
        IdentityCall::StartEnrollment(MfaEnrollmentStartRequest {
            id_token: id_token.to_string(),
            phone_number: "+15555550123".to_string(),
        }),
    ))
}

fn start_sign_in(credential: &str, enrollment_id: &str) -> IdentityCall {
    IdentityCall::StartSignIn(MfaSignInStartRequest {
        mfa_pending_credential: credential.to_string(),
        mfa_enrollment_id: enrollment_id.to_string(),
    })
}

fn finalize_sign_in(credential: &str, session_info: &str, code: &str) -> IdentityCall {
    IdentityCall::FinalizeSignIn(MfaSignInFinalizeRequest {
        mfa_pending_credential: credential.to_string(),
        phone_verification_info: PhoneVerificationInfo {
            session_info: session_info.to_string(),
            code: code.to_string(),
        },
    })
}

fn code_of(state: &AuthState, session_info: &str) -> String {
    state
        .list_verification_codes("demo-firelite")
        .into_iter()
        .find(|entry| entry.session_info == session_info)
        .unwrap()
        .code
}

#[test]
fn auth_phone_mfa_enrollment_and_sign_in_flow() {
    let mut state = AuthState::default();
    let email = "phone-mfa@example.test";
    let password = "secret123";
    let created = sign_up(&mut state, email, password);

    let enrollment_session = start_enrollment(&mut state, &created.id_token);
    let codes = state.list_verification_codes("demo-firelite");
    assert_eq!(codes.len(), 1);
    assert_eq!(codes[0].session_info, enrollment_session);
    assert_eq!(codes[0].phone_number, "+15555550123");

    let enrolled = second_factor(act(
        &mut state,
        IdentityCall::FinalizeEnrollment(MfaEnrollmentFinalizeRequest {
            id_token: created.id_token.clone(),
            display_name: owned("Personal phone"),
            phone_verification_info: PhoneVerificationInfo {
                session_info: enrollment_session,
                code: codes[0].code.clone(),
            },
        }),
    ));
    assert!(enrolled.id_token.contains('.'));
    assert!(enrolled.refresh_token.starts_with("firelite-refresh."));
    let enrollment_id = enrolled.mfa_info[0].mfa_enrollment_id.clone().unwrap();

    let found = users(act(&mut state, lookup_call(&enrolled.id_token)));
    assert_eq!(found[0].mfa_info[0].mfa_enrollment_id.as_ref(), Some(&enrollment_id));
    assert_eq!(found[0].mfa_info[0].phone_info.as_deref(), Some("+15555550123"));

    let (credential, factors) = pending(act(&mut state, password_call(email, password)));
    assert_eq!(factors[0].mfa_enrollment_id.as_ref(), Some(&enrollment_id));

    let sign_in_session = session(act(&mut state, start_sign_in(&credential, &enrollment_id)));
    assert_eq!(state.list_verification_codes("demo-firelite").len(), 1);
    let code = code_of(&state, &sign_in_session);
    let wrong = if code == "000000" { "000001" } else { "000000" };
    let refused = act(&mut state, finalize_sign_in(&credential, &sign_in_session, wrong));
    let refused = refused.unwrap_err();
    assert_eq!(refused.status(), 400);
    assert_eq!(refused, AuthError::InvalidCode);

    let done = second_factor(act(
        &mut state,
        finalize_sign_in(&credential, &sign_in_session, &code),
    ));
    assert_eq!(
        firebase_claim(&done.id_token, "sign_in_provider").as_deref(),
        Some("password")
    );
    assert_eq!(
        firebase_claim(&done.id_token, "sign_in_second_factor").as_deref(),
        Some("phone")
    );
    assert_eq!(
        firebase_claim(&done.id_token, "second_factor_identifier"),
        Some(enrollment_id.clone())
    );

    let refreshed = tokens(act(&mut state, refresh_call(&done.refresh_token)));
    assert_eq!(
        firebase_claim(&refreshed.id_token, "sign_in_second_factor").as_deref(),
        Some("phone")
    );

    let replay = act(&mut state, start_sign_in(&credential, &enrollment_id)).unwrap_err();
    assert_eq!(replay.status(), 400);
    assert_eq!(replay, AuthError::InvalidMfaPendingCredential);

    let (blocked, _) = pending(act(&mut state, password_call(email, password)));
    let blocked_session = session(act(&mut state, start_sign_in(&blocked, &enrollment_id)));
    let blocked_code = code_of(&state, &blocked_session);
    let mut disable = update(&created.local_id);
    disable.disable_user = Some(true);
    user(act(&mut state, IdentityCall::AdminUpdate(project(), disable)));
    let refused = act(&mut state, finalize_sign_in(&blocked, &blocked_session, &blocked_code));
    assert_eq!(refused.unwrap_err().message(), "USER_DISABLED");

    let deleted = act(
        &mut state,
        IdentityCall::AdminDelete(
            project(),
            AdminDeleteRequest {
                local_id: created.local_id.clone(),
            },
        ),
    );
    assert!(deleted.is_ok());
    assert_eq!(state.list_verification_codes("demo-firelite").len(), 0);
}

#[test]
fn auth_secure_token_refresh_supports_browser_sdk_cors_flow() {
    let mut state = AuthState::default();
    let created = sign_up(&mut state, "refresh@example.test", "secret123");
    let refreshed = tokens(act(&mut state, refresh_call(&created.refresh_token)));
    assert_eq!(refreshed.user_id, created.local_id);
    assert_eq!(refreshed.project_id, "demo-firelite");
    assert_eq!(refreshed.expires_in, "3600");
    assert_eq!(refreshed.token_type, "Bearer");
    assert!(refreshed.id_token.contains('.'));
    assert!(refreshed.access_token.contains('.'));
    assert!(refreshed.refresh_token.starts_with("firelite-refresh."));
}

#[test]
fn auth_admin_update_custom_claims_are_in_new_id_tokens() {
    let mut state = AuthState::default();
    let mut request = create("claims@example.test", "secret123");
    request.email_verified = Some(true);
    let created = user(act(&mut state, IdentityCall::AdminCreate(project(), request)));
    let mut change = update(&created.local_id);
    change.custom_attributes =
        owned("{\"admin\":true,\"superadmin\":true,\"partner\":\"admin\"}");
    user(act(&mut state, IdentityCall::AdminUpdate(project(), change)));

    let signed = signed_in(act(&mut state, password_call("claims@example.test", "secret123")));
    let claims = payload(&signed.id_token);
    assert_eq!(claims.text_in("email"), Some("claims@example.test"));
    assert_eq!(claims.get("email_verified").unwrap().render(), "true");
    assert_eq!(claims.unsigned_in("auth_time"), Some(NOW / 1000));
    assert_eq!(
        firebase_claim(&signed.id_token, "sign_in_provider").as_deref(),
        Some("password")
    );
    assert_eq!(
        claims.get("firebase").unwrap().get("identities").unwrap().get("email").unwrap().render(),
        "[\"claims@example.test\"]"
    );
    assert_eq!(claims.get("admin").unwrap().render(), "true");
    assert_eq!(claims.get("superadmin").unwrap().render(), "true");
    assert_eq!(claims.text_in("partner"), Some("admin"));
}

#[test]
fn claims_that_stand_for_a_json_text_are_not_read() {
    let mut state = AuthState::default();
    let request = create("marked@example.test", "secret123");
    let created = user(act(&mut state, IdentityCall::AdminCreate(project(), request)));
    let plain = signed_in(act(&mut state, password_call("marked@example.test", "secret123")));
    assert!(act(&mut state, lookup_call(&plain.id_token)).is_ok());

    let mut change = update(&created.local_id);
    change.custom_attributes = owned("{\"a\":1,\"$serde_json::private::RawValue\":\"x\"}");
    user(act(&mut state, IdentityCall::AdminUpdate(project(), change)));
    let marked = signed_in(act(&mut state, password_call("marked@example.test", "secret123")));
    assert!(matches!(
        act(&mut state, lookup_call(&marked.id_token)),
        Err(AuthError::InvalidIdToken)
    ));
    assert!(act(&mut state, refresh_call(&marked.refresh_token)).is_ok());

    let mut change = update(&created.local_id);
    change.custom_attributes =
        owned("{\"!\":1,\"a\":2,\"$serde_json::private::RawValue\":\"x\"}");
    user(act(&mut state, IdentityCall::AdminUpdate(project(), change)));
    let behind = signed_in(act(&mut state, password_call("marked@example.test", "secret123")));
    assert!(act(&mut state, lookup_call(&behind.id_token)).is_ok());
    assert_eq!(
        payload(&behind.id_token).text_in("$serde_json::private::RawValue"),
        Some("x")
    );
}

#[test]
fn auth_secure_token_refresh_sees_updated_custom_claims() {
    let mut state = AuthState::default();
    let request = create("refresh-claims@example.test", "secret123");
    let created = user(act(&mut state, IdentityCall::AdminCreate(project(), request)));
    let signed = signed_in(act(
        &mut state,
        password_call("refresh-claims@example.test", "secret123"),
    ));
    let mut change = update(&created.local_id);
    change.custom_attributes = owned("{\"admin\":true}");
    user(act(&mut state, IdentityCall::AdminUpdate(project(), change)));
    let refreshed = tokens(act(&mut state, refresh_call(&signed.refresh_token)));
    assert_eq!(payload(&refreshed.id_token).get("admin").unwrap().render(), "true");
}

#[test]
fn auth_admin_update_persists_phone_disabled_and_mfa() {
    let mut state = AuthState::default();
    let request = create("mfa@example.test", "secret123");
    let created = user(act(&mut state, IdentityCall::AdminCreate(project(), request)));
    let mut change = update(&created.local_id);
    change.phone_number = owned("+15555550100");
    change.disable_user = Some(true);
    change.mfa = Some(MfaUpdate {
        enrollments: Some(vec![MfaEnrollment {
            mfa_enrollment_id: owned("factor-1"),
            display_name: owned("phone"),
            phone_info: owned("+15555550101"),
            unobfuscated_phone_info: None,
            enrolled_at: owned("2026-01-01T00:00:00.000Z"),
        }]),
    });
    let updated = user(act(&mut state, IdentityCall::AdminUpdate(project(), change)));
    assert_eq!(updated.phone_number.as_deref(), Some("+15555550100"));
    assert!(updated.disabled);
    assert_eq!(updated.mfa_info[0].mfa_enrollment_id.as_deref(), Some("factor-1"));
    assert_eq!(updated.mfa_info[0].phone_info.as_deref(), Some("+15555550101"));

    let found = users(act(
        &mut state,
        IdentityCall::AdminLookup(
            project(),
            AdminLookupRequest {
                local_id: None,
                email: None,
                phone_number: Some(vec!["+15555550100".to_string()]),
            },
        ),
    ));
    assert_eq!(found[0].local_id, created.local_id);
    assert_eq!(found[0].mfa_info[0].mfa_enrollment_id.as_deref(), Some("factor-1"));
}

#[test]
fn auth_duplicate_phone_returns_phone_exists_before_invalid_phone() {
    let mut state = AuthState::default();
    let mut first = create("phone-one@example.test", "secret123");
    first.phone_number = owned("+15555550111");
    user(act(&mut state, IdentityCall::AdminCreate(project(), first)));
    let mut second = create("phone-two@example.test", "secret123");
    second.phone_number = owned("+15555550111");
    let duplicate = act(&mut state, IdentityCall::AdminCreate(project(), second)).unwrap_err();
    assert_eq!(duplicate.status(), 400);
    assert_eq!(duplicate.message(), "PHONE_NUMBER_EXISTS");
}

#[test]
fn auth_revoke_refresh_tokens_invalidates_old_id_and_refresh_tokens() {
    let mut state = AuthState::default();
    let request = create("revoked@example.test", "secret123");
    let created = user(act(&mut state, IdentityCall::AdminCreate(project(), request)));
    let signed = signed_in(act(&mut state, password_call("revoked@example.test", "secret123")));
    let mut change = update(&created.local_id);
    change.valid_since = Some(4_102_444_800);
    user(act(&mut state, IdentityCall::AdminUpdate(project(), change)));

    let lookup = act(&mut state, lookup_call(&signed.id_token)).unwrap_err();
    assert_eq!(lookup.status(), 400);
    assert_eq!(lookup.message(), "TOKEN_EXPIRED");
    let refresh = act(&mut state, refresh_call(&signed.refresh_token)).unwrap_err();
    assert_eq!(refresh.status(), 400);
    assert_eq!(refresh.message(), "TOKEN_EXPIRED");
}

#[test]
fn auth_password_sign_in_uses_configured_project() {
    let mut state = AuthState::new("bf-demo-a24dc");
    let mut request = create("admin-created@example.test", "password");
    request.email_verified = Some(true);
    user(act(
        &mut state,
        IdentityCall::AdminCreate("bf-demo-a24dc".to_string(), request),
    ));
    let signed = signed_in(act(
        &mut state,
        password_call("admin-created@example.test", "password"),
    ));
    assert_eq!(signed.email.as_deref(), Some("admin-created@example.test"));
    assert_eq!(payload(&signed.id_token).text_in("aud"), Some("bf-demo-a24dc"));
    let found = users(act(&mut state, lookup_call(&signed.id_token)));
    assert_eq!(found[0].email.as_deref(), Some("admin-created@example.test"));
}

#[test]
fn auth_recaptcha_discovery_and_mfa_codes_use_configured_project() {
    let mut state = AuthState::new("bf-demo-a24dc");
    let created = sign_up(&mut state, "configured-mfa@example.test", "secret123");
    assert_eq!(payload(&created.id_token).text_in("aud"), Some("bf-demo-a24dc"));
    let started = start_enrollment(&mut state, &created.id_token);
    let codes = state.list_verification_codes("bf-demo-a24dc");
    assert_eq!(codes[0].session_info, started);
    assert_eq!(codes[0].phone_number, "+15555550123");
    assert!(state.list_verification_codes("demo-firelite").is_empty());
}

#[test]
fn auth_duplicate_email_matches_emulator_error_shape() {
    let mut state = AuthState::default();
    sign_up(&mut state, "dupe@example.test", "secret123");
    let refused = act(
        &mut state,
        IdentityCall::SignUp(SignUpRequest {
            email: owned("dupe@example.test"),
            password: owned("secret123"),
            return_secure_token: Some(true),
        }),
    )
    .unwrap_err();
    assert_eq!(refused.status(), 400);
    assert_eq!(refused.message(), "EMAIL_EXISTS");
    assert_eq!(refused.reason(), "Bad Request");
}

#[test]
fn auth_custom_token_sign_in_creates_local_user() {
    let mut state = AuthState::default();
    // The parts are {"alg":"none","typ":"JWT"} and {"uid":"agent-user-1"}.
    let token = "eyJhbGciOiJub25lIiwidHlwIjoiSldUIn0.eyJ1aWQiOiJhZ2VudC11c2VyLTEifQ.";
    assert_eq!(parse_custom_token_subject(token), Ok("agent-user-1".to_string()));
    let signed = signed_in(act(
        &mut state,
        IdentityCall::SignInWithCustomToken(CustomTokenRequest {
            token: token.to_string(),
            return_secure_token: Some(true),
        }),
    ));
    assert_eq!(signed.local_id, "agent-user-1");
    assert_eq!(signed.email.as_deref(), Some("agent-user-1@custom-token.local"));
    assert!(signed.id_token.contains('.'));
}

#[test]
fn auth_idp_sign_in_reuses_provider_identity() {
    let mut state = AuthState::default();
    let call = || {
        IdentityCall::SignInWithIdp(IdpRequest {
            post_body: "providerId=google.com&rawId=google-123&email=Alice%40Example.TEST"
                .to_string(),
            return_secure_token: Some(true),
        })
    };
    let first = signed_in(act(&mut state, call()));
    let second = signed_in(act(&mut state, call()));
    assert_eq!(first.local_id, second.local_id);
    assert_eq!(first.email.as_deref(), Some("alice@example.test"));
}

#[test]
fn auth_admin_create_normalizes_email_case() {
    let mut state = AuthState::default();
    let request = create("Mixed.Case@Example.TEST", "secret123");
    let created = user(act(&mut state, IdentityCall::AdminCreate(project(), request)));
    assert_eq!(created.email.as_deref(), Some("mixed.case@example.test"));
    let found = users(act(
        &mut state,
        IdentityCall::AdminLookup(
            project(),
            AdminLookupRequest {
                local_id: None,
                email: Some(vec!["mixed.case@example.test".to_string()]),
                phone_number: None,
            },
        ),
    ));
    assert_eq!(found[0].email.as_deref(), Some("mixed.case@example.test"));
}

#[test]
fn auth_email_link_oob_flow_signs_in_user_once() {
    let mut state = AuthState::default();
    let sent = mailed(act(
        &mut state,
        IdentityCall::SendOobCode(SendOobCodeRequest {
            request_type: "EMAIL_SIGNIN".to_string(),
            email: "link@example.test".to_string(),
            return_oob_link: None,
        }),
    ));
    assert_eq!(state.list_oob_codes("demo-firelite").len(), 1);
    let call = || {
        IdentityCall::SignInWithEmailLink(EmailLinkRequest {
            email: "link@example.test".to_string(),
            oob_code: sent.oob_code.clone(),
            return_secure_token: Some(true),
        })
    };
    let signed = signed_in(act(&mut state, call()));
    assert_eq!(signed.email.as_deref(), Some("link@example.test"));
    let replay = act(&mut state, call()).unwrap_err();
    assert_eq!(replay.status(), 400);
    assert_eq!(replay, AuthError::InvalidOobCode);
}

#[test]
fn auth_admin_password_reset_link_creates_oob_link() {
    let mut state = AuthState::default();
    let email = "reset@example.test";
    let mut request = create(email, "secret123");
    request.local_id = owned("reset-user");
    user(act(&mut state, IdentityCall::AdminCreate(project(), request)));

    let reset = |email: &str| {
        IdentityCall::AdminSendOobCode(
            project(),
            SendOobCodeRequest {
                request_type: "PASSWORD_RESET".to_string(),
                email: email.to_string(),
                return_oob_link: Some(true),
            },
        )
    };
    let sent = mailed(act(&mut state, reset(email)));
    let link = sent.oob_link.unwrap();
    assert_eq!(sent.email, email);
    assert!(link.starts_with(BASE));
    assert!(link.contains("mode=resetPassword"));
    assert!(link.contains(&format!("oobCode={}", sent.oob_code)));

    let action = state
        .oob_action(&OobActionQuery {
            mode: owned("resetPassword"),
            oob_code: Some(sent.oob_code.clone()),
            project_id: owned("demo-firelite"),
        })
        .unwrap();
    assert_eq!(action.oob_code, sent.oob_code);
    assert_eq!(action.email, email);

    let listed = state.list_oob_codes("demo-firelite");
    assert_eq!(listed[0].email, email);
    assert_eq!(listed[0].oob_code, sent.oob_code);
    assert_eq!(listed[0].request_type, "PASSWORD_RESET");

    let missing = act(&mut state, reset("missing@example.test")).unwrap_err();
    assert_eq!(missing.status(), 400);
}

#[test]
fn passwords_are_checked() {
    let mut state = AuthState::default();
    sign_up(&mut state, " Bob@Example.Test ", "secret123");
    assert_eq!(
        act(&mut state, password_call("bob@example.test", "wrong")).unwrap_err(),
        AuthError::InvalidPassword
    );
    assert_eq!(
        act(&mut state, password_call("eve@example.test", "secret123")).unwrap_err(),
        AuthError::EmailNotFound
    );
    let refused = |email: Option<&str>, password: Option<&str>| {
        let mut state = AuthState::default();
        let call = IdentityCall::SignUp(SignUpRequest {
            email: email.map(|text| text.to_string()),
            password: password.map(|text| text.to_string()),
            return_secure_token: None,
        });
        act(&mut state, call).unwrap_err()
    };
    assert_eq!(refused(Some("a@b.c"), Some("short")), AuthError::WeakPassword);
    assert_eq!(refused(Some("a@b.c"), None), AuthError::MissingEmailOrPassword);
    assert_eq!(refused(None, Some("secret123")), AuthError::MissingEmailOrPassword);
}

#[test]
fn disabled_accounts_are_refused() {
    let mut state = AuthState::default();
    let created = sign_up(&mut state, "off@example.test", "secret123");
    let mut change = update(&created.local_id);
    change.disable_user = Some(true);
    user(act(&mut state, IdentityCall::AdminUpdate(project(), change)));
    assert_eq!(
        act(&mut state, password_call("off@example.test", "secret123")).unwrap_err(),
        AuthError::UserDisabled
    );
    assert_eq!(
        act(&mut state, refresh_call(&created.refresh_token)).unwrap_err(),
        AuthError::UserDisabled
    );
}

#[test]
fn tokens_are_checked() {
    let mut state = AuthState::default();
    assert_eq!(
        act(&mut state, lookup_call("no token")).unwrap_err(),
        AuthError::InvalidIdToken
    );
    assert_eq!(
        act(&mut state, refresh_call("no token")).unwrap_err(),
        AuthError::InvalidRefreshToken
    );
    let call = IdentityCall::Refresh(RefreshTokenRequest {
        grant_type: "password".to_string(),
        refresh_token: String::new(),
    });
    assert_eq!(act(&mut state, call).unwrap_err(), AuthError::UnsupportedGrantType);
    let call = IdentityCall::SignInWithCustomToken(CustomTokenRequest {
        token: "a.b.c".to_string(),
        return_secure_token: None,
    });
    assert_eq!(act(&mut state, call).unwrap_err(), AuthError::InvalidCustomToken);
}

#[test]
fn tokens_tell_who_they_were_made_for() {
    let mut state = AuthState::default();
    let created = sign_up(&mut state, "who@example.test", "secret123");
    let claims = parse_token_claims(&created.id_token, "other").unwrap();
    assert_eq!(claims.project_id, "demo-firelite");
    assert_eq!(claims.local_id, created.local_id);
    assert_eq!(claims.issued_at, NOW / 1000);
    let claims = parse_refresh_token(&created.refresh_token).unwrap();
    assert_eq!(claims.project_id, "demo-firelite");
    assert_eq!(claims.local_id, created.local_id);
    assert_eq!(claims.issued_at, NOW / 1000);
}

#[test]
fn claims_are_read_from_values() {
    let value = Json::parse(br#"{"sub":"u1","aud":"p1","iat":7}"#).unwrap();
    let claims = claims_from(&value, "p2").unwrap();
    assert_eq!(
        (claims.local_id.as_str(), claims.project_id.as_str(), claims.issued_at),
        ("u1", "p1", 7)
    );
    let value = Json::parse(br#"{"sub":"u2"}"#).unwrap();
    let claims = claims_from(&value, "p2").unwrap();
    assert_eq!(
        (claims.local_id.as_str(), claims.project_id.as_str(), claims.issued_at),
        ("u2", "p2", 0)
    );
    assert!(claims_from(&Json::Null, "p").is_none());
    assert!(claims_from(&Json::parse(br#"{"user_id":"u"}"#).unwrap(), "p").is_none());
    assert!(refresh_claims_from(&Json::Null).is_none());
    let subject = |text: &[u8]| subject_from(&Json::parse(text).unwrap());
    assert_eq!(subject(br#"{"uid":"u","sub":"s"}"#).as_deref(), Some("u"));
    assert_eq!(subject(br#"{"sub":"s","user_id":"i"}"#).as_deref(), Some("s"));
    assert_eq!(subject(br#"{"user_id":"i"}"#).as_deref(), Some("i"));
    assert_eq!(subject(br#"{"uid":1,"sub":"s"}"#), None);
    assert!(subject_from(&Json::Null).is_none());
}

#[test]
fn new_passwords_revoke_old_tokens() {
    let mut state = AuthState::default();
    let created = sign_up(&mut state, "new@example.test", "secret123");
    let mut change = update(&created.local_id);
    change.password = owned("changed-it");
    let draw = Draw::fresh(NOW + 5_000, 0);
    state.admin_update_user("demo-firelite", &change, &draw).unwrap();
    assert_eq!(
        act(&mut state, refresh_call(&created.refresh_token)).unwrap_err(),
        AuthError::TokenExpired
    );
    assert_eq!(
        act(&mut state, password_call("new@example.test", "secret123")).unwrap_err(),
        AuthError::InvalidPassword
    );
    signed_in(act(&mut state, password_call("new@example.test", "changed-it")));
}

#[test]
fn accounts_of_administrators_are_checked() {
    let mut state = AuthState::default();
    let mut request = create("one@example.test", "secret123");
    request.local_id = owned("one");
    user(act(&mut state, IdentityCall::AdminCreate(project(), request)));
    let mut refused = |request: AdminCreateRequest| {
        act(&mut state, IdentityCall::AdminCreate(project(), request)).unwrap_err()
    };
    let mut request = create("two@example.test", "secret123");
    request.local_id = owned("one");
    assert_eq!(refused(request), AuthError::UidExists);
    assert_eq!(refused(create("one@example.test", "secret123")), AuthError::EmailExists);
    let mut request = create("two@example.test", "secret123");
    request.phone_number = owned("5555");
    assert_eq!(refused(request), AuthError::InvalidPhoneNumber);
    let missing = act(&mut state, IdentityCall::AdminUpdate(project(), update("none")));
    assert_eq!(missing.unwrap_err(), AuthError::UserNotFound);
}

#[test]
fn batches_are_deleted_by_force() {
    let mut state = AuthState::default();
    let one = sign_up(&mut state, "one@example.test", "secret123");
    let request = |force: Option<bool>| {
        IdentityCall::AdminBatchDelete(
            project(),
            AdminBatchDeleteRequest {
                local_ids: vec!["none".to_string(), one.local_id.clone()],
                force,
            },
        )
    };
    assert_eq!(act(&mut state, request(None)).unwrap_err(), AuthError::MissingForce);
    match act(&mut state, request(Some(true))).unwrap() {
        IdentityAnswer::NotDeleted(errors) => {
            assert_eq!(errors.len(), 1);
            assert_eq!(errors[0].index, 0);
            assert_eq!(errors[0].local_id, "none");
        }
        other => panic!("expected errors, got {other:?}"),
    }
    assert!(state.list_accounts("demo-firelite").is_empty());
}

#[test]
fn lists_of_accounts_are_bounded() {
    let mut state = AuthState::default();
    for email in ["a@example.test", "b@example.test", "c@example.test"] {
        sign_up(&mut state, email, "secret123");
    }
    let count = |max_results: Option<usize>| {
        state.admin_batch_get("demo-firelite", &AdminBatchGetQuery { max_results }).len()
    };
    assert_eq!(count(None), 3);
    assert_eq!(count(Some(2)), 2);
    assert!(state.list_accounts("none").is_empty());
}

#[test]
fn projects_are_reset_apart() {
    let mut state = AuthState::default();
    sign_up(&mut state, "a@example.test", "secret123");
    let request = create("a@example.test", "secret123");
    user(act(&mut state, IdentityCall::AdminCreate("other".to_string(), request)));
    state.reset_project_accounts("demo-firelite");
    assert!(state.list_accounts("demo-firelite").is_empty());
    assert_eq!(state.list_accounts("other").len(), 1);
}

#[test]
fn kept_accounts_come_back() {
    let mut state = AuthState::default();
    let created = sign_up(&mut state, "kept@example.test", "secret123");
    let rows = state.snapshot();
    let mut loaded = AuthState::persistent("demo-firelite", "/tmp/auth.db", rows);
    assert!(loaded.is_persistent());
    assert!(!state.is_persistent());
    let signed = signed_in(act(&mut loaded, password_call("kept@example.test", "secret123")));
    assert_eq!(signed.local_id, created.local_id);
}

#[test]
fn mailed_codes_are_checked() {
    let mut state = AuthState::default();
    let send = |kind: &str, email: &str| {
        IdentityCall::SendOobCode(SendOobCodeRequest {
            request_type: kind.to_string(),
            email: email.to_string(),
            return_oob_link: None,
        })
    };
    assert_eq!(
        act(&mut state, send("DANCE", "a@example.test")).unwrap_err(),
        AuthError::UnsupportedOobRequestType
    );
    let query = |oob_code: Option<&str>| OobActionQuery {
        mode: None,
        oob_code: oob_code.map(|text| text.to_string()),
        project_id: None,
    };
    assert_eq!(state.oob_action(&query(None)).unwrap_err(), AuthError::MissingOobCode);
    assert_eq!(state.oob_action(&query(Some("x"))).unwrap_err(), AuthError::InvalidOobCode);
    let sent = mailed(act(&mut state, send("EMAIL_SIGNIN", "a@example.test")));
    let call = IdentityCall::SignInWithEmailLink(EmailLinkRequest {
        email: "b@example.test".to_string(),
        oob_code: sent.oob_code,
        return_secure_token: None,
    });
    assert_eq!(act(&mut state, call).unwrap_err(), AuthError::InvalidEmail);
    assert_eq!(
        make_oob_link("http://h", "p q", "VERIFY_EMAIL", "c/1"),
        "http://h/emulator/action?mode=action&oobCode=c%2F1&projectId=p%20q"
    );
}

#[test]
fn forms_are_decoded() {
    assert!(can_parse_post_body("a=1&b=x%20y"));
    let form = parse_post_body("providerId=google.com&email=a%40b.c&id_token=&a+b=c");
    assert_eq!(form.get("providerId").map(|v| v.as_str()), Some("google.com"));
    assert_eq!(form.get("email").map(|v| v.as_str()), Some("a@b.c"));
    assert_eq!(form.get("a b").map(|v| v.as_str()), Some("c"));
    let mut state = AuthState::default();
    let call = IdentityCall::SignInWithIdp(IdpRequest {
        post_body: "rawId=1".to_string(),
        return_secure_token: None,
    });
    assert_eq!(act(&mut state, call).unwrap_err(), AuthError::MissingProviderId);
    assert_eq!(sanitize_email_part("a b/c.d-e_f"), "a_b_c.d-e_f");
}

#[test]
fn emails_and_phones_are_checked() {
    assert_eq!(normalize_email("  A@B.C "), "a@b.c");
    assert_eq!(normalize_email(&normalize_email("  A@B.C ")), "a@b.c");
    assert!(is_valid_phone_number("+15555550100"));
    assert!(!is_valid_phone_number("15555550100"));
    assert!(!is_valid_phone_number("+"));
    assert!(!is_valid_phone_number("+1555a"));
}

#[test]
fn actions_are_routed() {
    assert_eq!(
        route_identity_action("accounts:signUp"),
        Ok((None, IdentityAction::SignUp))
    );
    assert_eq!(
        route_identity_action("projects/p/accounts:update"),
        Ok((Some("p"), IdentityAction::AdminUpdate))
    );
    assert_eq!(route_identity_action("accounts:dance"), Err(AuthError::NotFound));
    assert_eq!(parse_project_action("projects/p/accounts"), Some(("p", "accounts")));
    assert_eq!(
        route_mfa_action("accounts/mfaSignIn:finalize"),
        Ok(MfaAction::FinalizeSignIn)
    );
    assert_eq!(route_mfa_action("accounts/mfaSignIn:dance"), Err(AuthError::NotFound));
    assert_eq!(route_get_action("projects/p/accounts:batchGet"), Ok("p"));
    assert_eq!(route_get_action("projects/p/accounts").unwrap_err().status(), 404);
    assert_eq!(request_base_url(Some("h:1"), Some("https"), "d"), "https://h:1");
    assert_eq!(request_base_url(None, None, "d"), "http://d");
    assert_eq!(AuthError::InternalError.status(), 500);
    assert_eq!(AuthError::InvalidJson.message(), "INVALID_JSON");
}

#[test]
fn second_factors_are_checked() {
    let mut state = AuthState::default();
    let created = sign_up(&mut state, "factor@example.test", "secret123");
    let call = IdentityCall::StartEnrollment(MfaEnrollmentStartRequest {
        id_token: created.id_token.clone(),
        phone_number: "5555".to_string(),
    });
    assert_eq!(act(&mut state, call).unwrap_err(), AuthError::InvalidPhoneNumber);
    let finalize = |session_info: &str, code: &str| {
        IdentityCall::FinalizeEnrollment(MfaEnrollmentFinalizeRequest {
            id_token: created.id_token.clone(),
            display_name: None,
            phone_verification_info: PhoneVerificationInfo {
                session_info: session_info.to_string(),
                code: code.to_string(),
            },
        })
    };
    assert_eq!(
        act(&mut state, finalize("none", "123456")).unwrap_err(),
        AuthError::InvalidSessionInfo
    );
    let started = start_enrollment(&mut state, &created.id_token);
    let code = code_of(&state, &started);
    second_factor(act(&mut state, finalize(&started, &code)));
    let again = IdentityCall::StartEnrollment(MfaEnrollmentStartRequest {
        id_token: created.id_token.clone(),
        phone_number: "+15555550123".to_string(),
    });
    assert_eq!(act(&mut state, again).unwrap_err(), AuthError::SecondFactorExists);
    let (credential, _) = pending(act(&mut state, password_call("factor@example.test", "secret123")));
    assert_eq!(
        act(&mut state, start_sign_in(&credential, "none")).unwrap_err(),
        AuthError::MfaEnrollmentNotFound
    );
}

#[test]
fn deletions_name_an_account() {
    let mut state = AuthState::default();
    let call = IdentityCall::Delete(DeleteRequest {
        id_token: None,
        local_id: None,
    });
    assert_eq!(act(&mut state, call).unwrap_err(), AuthError::MissingLocalId);
    let call = IdentityCall::Delete(DeleteRequest {
        id_token: None,
        local_id: owned("none"),
    });
    assert_eq!(act(&mut state, call).unwrap_err(), AuthError::UserNotFound);
}

#[test]
fn refused_requests_change_nothing() {
    let mut state = AuthState::default();
    sign_up(&mut state, "one@example.test", "secret123");
    let before = format!("{:?}", state.snapshot());
    assert!(act(&mut state, password_call("one@example.test", "wrong-one")).is_err());
    let again = IdentityCall::SignUp(SignUpRequest {
        email: owned("ONE@example.test"),
        password: owned("secret456"),
        return_secure_token: None,
    });
    assert!(act(&mut state, again).is_err());
    let missing = IdentityCall::AdminUpdate(project(), update("none"));
    assert!(act(&mut state, missing).is_err());
    assert_eq!(format!("{:?}", state.snapshot()), before);
}

#[test]
fn deleted_accounts_are_found_by_nothing() {
    let mut state = AuthState::default();
    let call = || {
        IdentityCall::SignInWithIdp(IdpRequest {
            post_body: "providerId=google.com&rawId=g-1&email=gone%40example.test".to_string(),
            return_secure_token: None,
        })
    };
    let first = signed_in(act(&mut state, call()));
    let mut change = update(&first.local_id);
    change.phone_number = owned("+15555550177");
    user(act(&mut state, IdentityCall::AdminUpdate(project(), change)));
    state.delete_account("demo-firelite", &first.local_id).unwrap();
    let lookup = AdminLookupRequest {
        local_id: Some(vec![first.local_id.clone()]),
        email: Some(vec!["gone@example.test".to_string()]),
        phone_number: Some(vec!["+15555550177".to_string()]),
    };
    assert!(state.admin_lookup("demo-firelite", &lookup).is_empty());
    let second = signed_in(act(&mut state, call()));
    assert_ne!(second.local_id, first.local_id);
}

#[test]
fn created_accounts_are_found_by_all_keys() {
    let mut state = AuthState::default();
    let mut request = create("Keys@Example.test", "secret123");
    request.local_id = owned("keys");
    request.phone_number = owned("+15555550178");
    user(act(&mut state, IdentityCall::AdminCreate(project(), request)));
    let lookup = AdminLookupRequest {
        local_id: Some(vec!["keys".to_string()]),
        email: Some(vec!["keys@example.test".to_string()]),
        phone_number: Some(vec!["+15555550178".to_string()]),
    };
    let found = state.admin_lookup("demo-firelite", &lookup);
    assert_eq!(found.len(), 3);
    assert!(found.iter().all(|user| user.local_id == "keys"));
}
