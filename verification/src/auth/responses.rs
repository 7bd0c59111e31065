//! Answers to requests on accounts.

use crate::auth::errors::AuthError;
use crate::auth::records::{
    clone_factors, clone_providers, MfaEnrollment, MfaView, OobCodeRecord, OobCodeView,
    ProviderRecord, ProviderView, UserRecord, UserView, VerificationCodeRecord, VerificationView,
};
use crate::auth::tokens::{
    id_token, make_refresh_token, make_token, refresh_claims_of, refresh_token, refresh_view,
    token_reads, FactorView,
};
use crate::decimal::{decimal, decimal_text};
use vstd::prelude::*;

verus! {

/// What came of a request.
pub open spec fn outcome<T: DeepView>(r: Result<T, AuthError>) -> Result<T::V, AuthError> {
    match r {
        Ok(v) => Ok(v.deep_view()),
        Err(e) => Err(e),
    }
}

/// An account that has signed in.
#[derive(Debug)]
pub struct AuthResponse {
    pub kind: &'static str,
    pub local_id: String,
    pub email: Option<String>,
    pub id_token: String,
    pub refresh_token: String,
    pub expires_in: String,
}

/// What the answer to a sign-in holds.
#[verifier::ext_equal]
pub struct AuthResponseView {
    pub kind: Seq<char>,
    pub local_id: Seq<char>,
    pub email: Option<Seq<char>>,
    pub id_token: Seq<char>,
    pub refresh_token: Seq<char>,
    pub expires_in: Seq<char>,
}

impl DeepView for AuthResponse {
    type V = AuthResponseView;

    open spec fn deep_view(&self) -> AuthResponseView {
        AuthResponseView {
            kind: self.kind@,
            local_id: self.local_id@,
            email: self.email.deep_view(),
            id_token: self.id_token@,
            refresh_token: self.refresh_token@,
            expires_in: self.expires_in@,
        }
    }
}

/// An email address, where there is one.
pub open spec fn if_any(email: Seq<char>) -> Option<Seq<char>> {
    if email.len() > 0 {
        Some(email)
    } else {
        None
    }
}

/// The answer to a sign-in: the tokens are left out where they are not wanted.
pub open spec fn signed_in(
    project_id: Seq<char>,
    user: UserView,
    return_secure_token: Option<bool>,
    issued_at: u64,
    nonce: Seq<char>,
) -> AuthResponseView {
    let tokens = return_secure_token != Some(false);
    AuthResponseView {
        kind: "identitytoolkit#SignupNewUserResponse"@,
        local_id: user.local_id,
        email: if_any(user.email),
        id_token: if tokens {
            id_token(project_id, user, None, issued_at)
        } else {
            Seq::empty()
        },
        refresh_token: if tokens {
            refresh_token(project_id, user.local_id, None, issued_at, nonce)
        } else {
            Seq::empty()
        },
        expires_in: "3600"@,
    }
}

/// Whether the tokens of an answer are read as those of the account, where there are any: the ID
/// token as far as `token_reads` says it of the account's own claims, the refresh token always.
pub open spec fn tokens_work(
    r: AuthResponseView,
    project_id: Seq<char>,
    user: UserView,
    return_secure_token: Option<bool>,
    issued_at: u64,
) -> bool {
    return_secure_token != Some(false) ==> {
        &&& refresh_claims_of(r.refresh_token) == Some(
            refresh_view(project_id, user.local_id, None, issued_at),
        )
        &&& token_reads(r.id_token, project_id, user, None, issued_at)
    }
}

/// The answer to a sign-in of the account.
pub fn auth_response(
    project_id: &str,
    record: &UserRecord,
    return_secure_token: Option<bool>,
    issued_at: u64,
    nonce: &str,
) -> (r: AuthResponse)
    requires
        issued_at <= u64::MAX - 3600,
    ensures
        r.deep_view() == signed_in(
            project_id@,
            record.deep_view(),
            return_secure_token,
            issued_at,
            nonce@,
        ),
        tokens_work(
            r.deep_view(),
            project_id@,
            record.deep_view(),
            return_secure_token,
            issued_at,
        ),
{
    let include_token = match return_secure_token {
        Some(wanted) => wanted,
        None => true,
    };
    AuthResponse {
        kind: "identitytoolkit#SignupNewUserResponse",
        local_id: record.local_id.clone(),
        email: if record.email.as_str().is_empty() {
            None
        } else {
            Some(record.email.clone())
        },
        id_token: if include_token {
            make_token(project_id, record, issued_at)
        } else {
            String::new()
        },
        refresh_token: if include_token {
            make_refresh_token(project_id, record.local_id.as_str(), issued_at, nonce)
        } else {
            String::new()
        },
        expires_in: "3600".to_owned(),
    }
}

/// A sign-in with a password: done, or waiting for the second factor.
#[derive(Debug)]
pub enum PasswordResponse {
    SignedIn(AuthResponse),
    SecondFactorRequired {
        kind: &'static str,
        registered: bool,
        local_id: String,
        email: String,
        mfa_pending_credential: String,
        mfa_info: Vec<MfaEnrollment>,
    },
}

/// What the answer to a sign-in with a password holds.
#[verifier::ext_equal]
pub enum PasswordResponseView {
    SignedIn(AuthResponseView),
    SecondFactorRequired {
        kind: Seq<char>,
        registered: bool,
        local_id: Seq<char>,
        email: Seq<char>,
        mfa_pending_credential: Seq<char>,
        mfa_info: Seq<MfaView>,
    },
}

impl DeepView for PasswordResponse {
    type V = PasswordResponseView;

    open spec fn deep_view(&self) -> PasswordResponseView {
        match *self {
            PasswordResponse::SignedIn(response) => PasswordResponseView::SignedIn(
                response.deep_view(),
            ),
            PasswordResponse::SecondFactorRequired {
                kind,
                registered,
                local_id,
                email,
                mfa_pending_credential,
                mfa_info,
            } => PasswordResponseView::SecondFactorRequired {
                kind: kind@,
                registered,
                local_id: local_id@,
                email: email@,
                mfa_pending_credential: mfa_pending_credential@,
                mfa_info: mfa_info.deep_view(),
            },
        }
    }
}

/// An account that has enrolled or used a second factor.
#[derive(Debug)]
pub struct MfaResponse {
    pub id_token: String,
    pub refresh_token: String,
    pub local_id: String,
    pub email: String,
    pub mfa_info: Vec<MfaEnrollment>,
}

/// What the answer on a second factor holds.
#[verifier::ext_equal]
pub struct MfaResponseView {
    pub id_token: Seq<char>,
    pub refresh_token: Seq<char>,
    pub local_id: Seq<char>,
    pub email: Seq<char>,
    pub mfa_info: Seq<MfaView>,
}

impl DeepView for MfaResponse {
    type V = MfaResponseView;

    open spec fn deep_view(&self) -> MfaResponseView {
        MfaResponseView {
            id_token: self.id_token@,
            refresh_token: self.refresh_token@,
            local_id: self.local_id@,
            email: self.email@,
            mfa_info: self.mfa_info.deep_view(),
        }
    }
}

/// Whether the tokens of an answer are read as those of the account and its second factor: the ID
/// token as far as `token_reads` says it of the account's own claims, the refresh token always.
pub open spec fn factor_tokens_work(
    r: MfaResponseView,
    project_id: Seq<char>,
    user: UserView,
    factor: FactorView,
    issued_at: u64,
) -> bool {
    &&& refresh_claims_of(r.refresh_token) == Some(
        refresh_view(project_id, r.local_id, factor, issued_at),
    )
    &&& token_reads(r.id_token, project_id, user, factor, issued_at)
}

/// New tokens.
#[derive(Debug)]
pub struct SecureTokenResponse {
    pub access_token: String,
    pub expires_in: String,
    pub token_type: &'static str,
    pub refresh_token: String,
    pub id_token: String,
    pub user_id: String,
    pub project_id: String,
}

/// What the answer with new tokens holds.
#[verifier::ext_equal]
pub struct SecureTokenView {
    pub access_token: Seq<char>,
    pub expires_in: Seq<char>,
    pub token_type: Seq<char>,
    pub refresh_token: Seq<char>,
    pub id_token: Seq<char>,
    pub user_id: Seq<char>,
    pub project_id: Seq<char>,
}

impl DeepView for SecureTokenResponse {
    type V = SecureTokenView;

    open spec fn deep_view(&self) -> SecureTokenView {
        SecureTokenView {
            access_token: self.access_token@,
            expires_in: self.expires_in@,
            token_type: self.token_type@,
            refresh_token: self.refresh_token@,
            id_token: self.id_token@,
            user_id: self.user_id@,
            project_id: self.project_id@,
        }
    }
}

/// A code that was sent by mail.
#[derive(Debug)]
pub struct OobCodeResponse {
    pub email: String,
    pub oob_code: String,
    pub oob_link: Option<String>,
}

/// What the answer with a mailed code holds.
#[verifier::ext_equal]
pub struct OobCodeResponseView {
    pub email: Seq<char>,
    pub oob_code: Seq<char>,
    pub oob_link: Option<Seq<char>>,
}

impl DeepView for OobCodeResponse {
    type V = OobCodeResponseView;

    open spec fn deep_view(&self) -> OobCodeResponseView {
        OobCodeResponseView {
            email: self.email@,
            oob_code: self.oob_code@,
            oob_link: self.oob_link.deep_view(),
        }
    }
}

/// What a mailed code stands for.
#[derive(Debug)]
pub struct OobActionResponse {
    pub mode: String,
    pub oob_code: String,
    pub project_id: String,
    pub email: String,
    pub request_type: String,
}

/// What the answer on a mailed code holds.
#[verifier::ext_equal]
pub struct OobActionView {
    pub mode: Seq<char>,
    pub oob_code: Seq<char>,
    pub project_id: Seq<char>,
    pub email: Seq<char>,
    pub request_type: Seq<char>,
}

impl DeepView for OobActionResponse {
    type V = OobActionView;

    open spec fn deep_view(&self) -> OobActionView {
        OobActionView {
            mode: self.mode@,
            oob_code: self.oob_code@,
            project_id: self.project_id@,
            email: self.email@,
            request_type: self.request_type@,
        }
    }
}

/// A mailed code in a list.
#[derive(Debug)]
pub struct EmulatorOobCode {
    pub email: String,
    pub oob_code: String,
    pub request_type: String,
    pub created_at: String,
}

/// What a mailed code in a list holds.
#[verifier::ext_equal]
pub struct EmulatorOobCodeView {
    pub email: Seq<char>,
    pub oob_code: Seq<char>,
    pub request_type: Seq<char>,
    pub created_at: Seq<char>,
}

impl DeepView for EmulatorOobCode {
    type V = EmulatorOobCodeView;

    open spec fn deep_view(&self) -> EmulatorOobCodeView {
        EmulatorOobCodeView {
            email: self.email@,
            oob_code: self.oob_code@,
            request_type: self.request_type@,
            created_at: self.created_at@,
        }
    }
}

/// A mailed code as a list shows it.
pub open spec fn shown_oob_code(code: Seq<char>, record: OobCodeView) -> EmulatorOobCodeView {
    EmulatorOobCodeView {
        email: record.email,
        oob_code: code,
        request_type: record.request_type,
        created_at: decimal(record.created_at_ms as nat),
    }
}

/// A mailed code as a list shows it.
pub fn show_oob_code(code: &String, record: &OobCodeRecord) -> (r: EmulatorOobCode)
    ensures
        r.deep_view() == shown_oob_code(code@, record.deep_view()),
{
    EmulatorOobCode {
        email: record.email.clone(),
        oob_code: code.clone(),
        request_type: record.request_type.clone(),
        created_at: decimal_text(record.created_at_ms),
    }
}

/// A verification code in a list.
#[derive(Debug)]
pub struct EmulatorVerificationCode {
    pub phone_number: String,
    pub session_info: String,
    pub code: String,
}

/// What a verification code in a list holds.
#[verifier::ext_equal]
pub struct EmulatorVerificationCodeView {
    pub phone_number: Seq<char>,
    pub session_info: Seq<char>,
    pub code: Seq<char>,
}

impl DeepView for EmulatorVerificationCode {
    type V = EmulatorVerificationCodeView;

    open spec fn deep_view(&self) -> EmulatorVerificationCodeView {
        EmulatorVerificationCodeView {
            phone_number: self.phone_number@,
            session_info: self.session_info@,
            code: self.code@,
        }
    }
}

/// A verification code as a list shows it.
pub open spec fn shown_verification_code(
    session_info: Seq<char>,
    record: VerificationView,
) -> EmulatorVerificationCodeView {
    EmulatorVerificationCodeView {
        phone_number: record.phone_number,
        session_info,
        code: record.code,
    }
}

/// A verification code as a list shows it.
pub fn show_verification_code(session_info: &String, record: &VerificationCodeRecord) -> (r:
    EmulatorVerificationCode)
    ensures
        r.deep_view() == shown_verification_code(session_info@, record.deep_view()),
{
    EmulatorVerificationCode {
        phone_number: record.phone_number.clone(),
        session_info: session_info.clone(),
        code: record.code.clone(),
    }
}

/// An account that could not be deleted with others.
#[derive(Debug)]
pub struct BatchDeleteError {
    pub index: usize,
    pub local_id: String,
    pub message: &'static str,
}

/// What is said of an account that could not be deleted with others.
#[verifier::ext_equal]
pub struct BatchDeleteErrorView {
    pub index: nat,
    pub local_id: Seq<char>,
    pub message: Seq<char>,
}

impl DeepView for BatchDeleteError {
    type V = BatchDeleteErrorView;

    open spec fn deep_view(&self) -> BatchDeleteErrorView {
        BatchDeleteErrorView {
            index: self.index as nat,
            local_id: self.local_id@,
            message: self.message@,
        }
    }
}

/// An account as it is shown.
#[derive(Debug)]
pub struct EmulatorUser {
    pub local_id: String,
    pub email: Option<String>,
    pub display_name: Option<String>,
    pub photo_url: Option<String>,
    pub phone_number: Option<String>,
    pub custom_attributes: Option<String>,
    pub disabled: bool,
    pub email_verified: bool,
    pub password_hash: Option<String>,
    pub valid_since: String,
    pub created_at: String,
    pub last_login_at: String,
    pub provider_user_info: Vec<ProviderRecord>,
    pub mfa_info: Vec<MfaEnrollment>,
}

/// What an account as it is shown holds.
#[verifier::ext_equal]
pub struct EmulatorUserView {
    pub local_id: Seq<char>,
    pub email: Option<Seq<char>>,
    pub display_name: Option<Seq<char>>,
    pub photo_url: Option<Seq<char>>,
    pub phone_number: Option<Seq<char>>,
    pub custom_attributes: Option<Seq<char>>,
    pub disabled: bool,
    pub email_verified: bool,
    pub password_hash: Option<Seq<char>>,
    pub valid_since: Seq<char>,
    pub created_at: Seq<char>,
    pub last_login_at: Seq<char>,
    pub provider_user_info: Seq<ProviderView>,
    pub mfa_info: Seq<MfaView>,
}

impl DeepView for EmulatorUser {
    type V = EmulatorUserView;

    open spec fn deep_view(&self) -> EmulatorUserView {
        EmulatorUserView {
            local_id: self.local_id@,
            email: self.email.deep_view(),
            display_name: self.display_name.deep_view(),
            photo_url: self.photo_url.deep_view(),
            phone_number: self.phone_number.deep_view(),
            custom_attributes: self.custom_attributes.deep_view(),
            disabled: self.disabled,
            email_verified: self.email_verified,
            password_hash: self.password_hash.deep_view(),
            valid_since: self.valid_since@,
            created_at: self.created_at@,
            last_login_at: self.last_login_at@,
            provider_user_info: self.provider_user_info.deep_view(),
            mfa_info: self.mfa_info.deep_view(),
        }
    }
}

/// An account as it is shown: one that never signed in shows the time it was made.
pub open spec fn shown(user: UserView) -> EmulatorUserView {
    EmulatorUserView {
        local_id: user.local_id,
        email: if_any(user.email),
        display_name: user.display_name,
        photo_url: user.photo_url,
        phone_number: user.phone_number,
        custom_attributes: user.custom_attributes,
        disabled: user.disabled,
        email_verified: user.email_verified,
        password_hash: user.password_hash,
        valid_since: decimal(user.valid_since_secs as nat),
        created_at: decimal(user.created_at_ms as nat),
        last_login_at: decimal(
            match user.last_login_at_ms {
                Some(ms) => ms as nat,
                None => user.created_at_ms as nat,
            },
        ),
        provider_user_info: user.providers,
        mfa_info: user.mfa_info,
    }
}

impl EmulatorUser {
    /// An account as it is shown.
    pub fn from_record(record: &UserRecord) -> (r: EmulatorUser)
        ensures
            r.deep_view() == shown(record.deep_view()),
    {
        let last_login: u64 = match record.last_login_at_ms {
            Some(ms) => ms,
            None => record.created_at_ms,
        };
        EmulatorUser {
            local_id: record.local_id.clone(),
            email: if record.email.as_str().is_empty() {
                None
            } else {
                Some(record.email.clone())
            },
            display_name: record.display_name.clone(),
            photo_url: record.photo_url.clone(),
            phone_number: record.phone_number.clone(),
            custom_attributes: record.custom_attributes.clone(),
            disabled: record.disabled,
            email_verified: record.email_verified,
            password_hash: record.password_hash.clone(),
            valid_since: decimal_text(record.valid_since_secs),
            created_at: decimal_text(record.created_at_ms),
            last_login_at: decimal_text(last_login),
            provider_user_info: clone_providers(&record.providers),
            mfa_info: clone_factors(&record.mfa_info),
        }
    }
}

} // verus!
