//! Requests on accounts.

use crate::auth::records::MfaEnrollment;
use vstd::prelude::*;

verus! {

/// A new account: with an email address and a password, or anonymous.
#[derive(Debug)]
pub struct SignUpRequest {
    pub email: Option<String>,
    pub password: Option<String>,
    pub return_secure_token: Option<bool>,
}

/// A sign-in with a password.
#[derive(Debug)]
pub struct SignInRequest {
    pub email: String,
    pub password: String,
    pub return_secure_token: Option<bool>,
}

/// The start of the enrollment of a phone as second factor.
#[derive(Debug)]
pub struct MfaEnrollmentStartRequest {
    pub id_token: String,
    pub phone_number: String,
}

/// A code that came back from a phone.
#[derive(Debug)]
pub struct PhoneVerificationInfo {
    pub session_info: String,
    pub code: String,
}

/// The end of the enrollment of a phone as second factor.
#[derive(Debug)]
pub struct MfaEnrollmentFinalizeRequest {
    pub id_token: String,
    pub display_name: Option<String>,
    pub phone_verification_info: PhoneVerificationInfo,
}

/// The start of a sign-in with a second factor.
#[derive(Debug)]
pub struct MfaSignInStartRequest {
    pub mfa_pending_credential: String,
    pub mfa_enrollment_id: String,
}

/// The end of a sign-in with a second factor.
#[derive(Debug)]
pub struct MfaSignInFinalizeRequest {
    pub mfa_pending_credential: String,
    pub phone_verification_info: PhoneVerificationInfo,
}

/// New tokens for a refresh token.
#[derive(Debug)]
pub struct RefreshTokenRequest {
    pub grant_type: String,
    pub refresh_token: String,
}

/// A look at accounts by the bearer of a token.
#[derive(Debug)]
pub struct LookupRequest {
    pub id_token: Option<String>,
    pub local_id: Option<Vec<String>>,
}

/// The deletion of an account by its bearer or its id.
#[derive(Debug)]
pub struct DeleteRequest {
    pub id_token: Option<String>,
    pub local_id: Option<String>,
}

/// A sign-in with a custom token.
#[derive(Debug)]
pub struct CustomTokenRequest {
    pub token: String,
    pub return_secure_token: Option<bool>,
}

/// A sign-in through an identity provider.
#[derive(Debug)]
pub struct IdpRequest {
    pub post_body: String,
    pub return_secure_token: Option<bool>,
}

/// A code to be sent by mail.
#[derive(Debug)]
pub struct SendOobCodeRequest {
    pub request_type: String,
    pub email: String,
    pub return_oob_link: Option<bool>,
}

/// A sign-in with a code that came by mail.
#[derive(Debug)]
pub struct EmailLinkRequest {
    pub email: String,
    pub oob_code: String,
    pub return_secure_token: Option<bool>,
}

/// What is asked of a mailed code.
#[derive(Debug)]
pub struct OobActionQuery {
    pub mode: Option<String>,
    pub oob_code: Option<String>,
    pub project_id: Option<String>,
}

/// A new account, made by an administrator.
#[derive(Debug)]
pub struct AdminCreateRequest {
    pub local_id: Option<String>,
    pub email: Option<String>,
    pub password: Option<String>,
    pub display_name: Option<String>,
    pub photo_url: Option<String>,
    pub phone_number: Option<String>,
    pub custom_attributes: Option<String>,
    pub disabled: Option<bool>,
    pub email_verified: Option<bool>,
    pub mfa_info: Option<Vec<MfaEnrollment>>,
}

/// Second factors to replace those of an account.
#[derive(Debug)]
pub struct MfaUpdate {
    pub enrollments: Option<Vec<MfaEnrollment>>,
}

/// Changes to an account, made by an administrator.
#[derive(Debug)]
pub struct AdminUpdateRequest {
    pub local_id: String,
    pub password: Option<String>,
    pub display_name: Option<String>,
    pub photo_url: Option<String>,
    pub phone_number: Option<String>,
    pub custom_attributes: Option<String>,
    pub disabled: Option<bool>,
    pub disable_user: Option<bool>,
    pub email_verified: Option<bool>,
    pub valid_since: Option<u64>,
    pub delete_attribute: Option<Vec<String>>,
    pub delete_provider: Option<Vec<String>>,
    pub mfa: Option<MfaUpdate>,
    pub mfa_info: Option<Vec<MfaEnrollment>>,
}

/// A look at accounts by an administrator.
#[derive(Debug)]
pub struct AdminLookupRequest {
    pub local_id: Option<Vec<String>>,
    pub email: Option<Vec<String>>,
    pub phone_number: Option<Vec<String>>,
}

/// The deletion of an account by an administrator.
#[derive(Debug)]
pub struct AdminDeleteRequest {
    pub local_id: String,
}

/// The deletion of several accounts by an administrator.
#[derive(Debug)]
pub struct AdminBatchDeleteRequest {
    pub local_ids: Vec<String>,
    pub force: Option<bool>,
}

/// How many accounts to list.
#[derive(Debug)]
pub struct AdminBatchGetQuery {
    pub max_results: Option<usize>,
}

} // verus!
