//! Why a request on accounts is refused.

use vstd::prelude::*;

verus! {

/// Why a request on accounts is refused.
#[derive(Clone, Copy, PartialEq, Eq, Structural, Debug)]
pub enum AuthError {
    UnsupportedGrantType,
    InvalidRefreshToken,
    UserNotFound,
    UserDisabled,
    TokenExpired,
    NotFound,
    MissingOobCode,
    InvalidOobCode,
    InternalError,
    MissingEmailOrPassword,
    EmailExists,
    WeakPassword,
    UidExists,
    EmailNotFound,
    InvalidPassword,
    InvalidPhoneNumber,
    SecondFactorExists,
    InvalidSessionInfo,
    InvalidCode,
    InvalidMfaPendingCredential,
    MfaEnrollmentNotFound,
    MissingForce,
    MissingLocalId,
    MissingProviderId,
    UnsupportedOobRequestType,
    InvalidEmail,
    InvalidJson,
    InvalidCustomToken,
    InvalidIdToken,
    PhoneNumberExists,
}

impl AuthError {
    /// The HTTP status of the answer.
    pub open spec fn code(self) -> u16 {
        match self {
            AuthError::NotFound => 404,
            AuthError::InternalError => 500,
            _ => 400,
        }
    }

    /// The message of the answer.
    pub open spec fn text(self) -> Seq<char> {
        match self {
            AuthError::UnsupportedGrantType => "UNSUPPORTED_GRANT_TYPE"@,
            AuthError::InvalidRefreshToken => "INVALID_REFRESH_TOKEN"@,
            AuthError::UserNotFound => "USER_NOT_FOUND"@,
            AuthError::UserDisabled => "USER_DISABLED"@,
            AuthError::TokenExpired => "TOKEN_EXPIRED"@,
            AuthError::NotFound => "NOT_FOUND"@,
            AuthError::MissingOobCode => "MISSING_OOB_CODE"@,
            AuthError::InvalidOobCode => "INVALID_OOB_CODE"@,
            AuthError::InternalError => "INTERNAL_ERROR"@,
            AuthError::MissingEmailOrPassword => "MISSING_EMAIL_OR_PASSWORD"@,
            AuthError::EmailExists => "EMAIL_EXISTS"@,
            AuthError::WeakPassword => "WEAK_PASSWORD"@,
            AuthError::UidExists => "UID_EXISTS"@,
            AuthError::EmailNotFound => "EMAIL_NOT_FOUND"@,
            AuthError::InvalidPassword => "INVALID_PASSWORD"@,
            AuthError::InvalidPhoneNumber => "INVALID_PHONE_NUMBER"@,
            AuthError::SecondFactorExists => "SECOND_FACTOR_EXISTS"@,
            AuthError::InvalidSessionInfo => "INVALID_SESSION_INFO"@,
            AuthError::InvalidCode => "INVALID_CODE"@,
            AuthError::InvalidMfaPendingCredential => "INVALID_MFA_PENDING_CREDENTIAL"@,
            AuthError::MfaEnrollmentNotFound => "MFA_ENROLLMENT_NOT_FOUND"@,
            AuthError::MissingForce => "MISSING_FORCE"@,
            AuthError::MissingLocalId => "MISSING_LOCAL_ID"@,
            AuthError::MissingProviderId => "MISSING_PROVIDER_ID"@,
            AuthError::UnsupportedOobRequestType => "UNSUPPORTED_OOB_REQUEST_TYPE"@,
            AuthError::InvalidEmail => "INVALID_EMAIL"@,
            AuthError::InvalidJson => "INVALID_JSON"@,
            AuthError::InvalidCustomToken => "INVALID_CUSTOM_TOKEN"@,
            AuthError::InvalidIdToken => "INVALID_ID_TOKEN"@,
            AuthError::PhoneNumberExists => "PHONE_NUMBER_EXISTS"@,
        }
    }

    /// The HTTP status of the answer.
    pub fn status(&self) -> (r: u16)
        ensures
            r == self.code(),
    {
        match self {
            AuthError::NotFound => 404,
            AuthError::InternalError => 500,
            _ => 400,
        }
    }

    /// The message of the answer.
    pub fn message(&self) -> (r: &'static str)
        ensures
            r@ == self.text(),
    {
        match self {
            AuthError::UnsupportedGrantType => "UNSUPPORTED_GRANT_TYPE",
            AuthError::InvalidRefreshToken => "INVALID_REFRESH_TOKEN",
            AuthError::UserNotFound => "USER_NOT_FOUND",
            AuthError::UserDisabled => "USER_DISABLED",
            AuthError::TokenExpired => "TOKEN_EXPIRED",
            AuthError::NotFound => "NOT_FOUND",
            AuthError::MissingOobCode => "MISSING_OOB_CODE",
            AuthError::InvalidOobCode => "INVALID_OOB_CODE",
            AuthError::InternalError => "INTERNAL_ERROR",
            AuthError::MissingEmailOrPassword => "MISSING_EMAIL_OR_PASSWORD",
            AuthError::EmailExists => "EMAIL_EXISTS",
            AuthError::WeakPassword => "WEAK_PASSWORD",
            AuthError::UidExists => "UID_EXISTS",
            AuthError::EmailNotFound => "EMAIL_NOT_FOUND",
            AuthError::InvalidPassword => "INVALID_PASSWORD",
            AuthError::InvalidPhoneNumber => "INVALID_PHONE_NUMBER",
            AuthError::SecondFactorExists => "SECOND_FACTOR_EXISTS",
            AuthError::InvalidSessionInfo => "INVALID_SESSION_INFO",
            AuthError::InvalidCode => "INVALID_CODE",
            AuthError::InvalidMfaPendingCredential => "INVALID_MFA_PENDING_CREDENTIAL",
            AuthError::MfaEnrollmentNotFound => "MFA_ENROLLMENT_NOT_FOUND",
            AuthError::MissingForce => "MISSING_FORCE",
            AuthError::MissingLocalId => "MISSING_LOCAL_ID",
            AuthError::MissingProviderId => "MISSING_PROVIDER_ID",
            AuthError::UnsupportedOobRequestType => "UNSUPPORTED_OOB_REQUEST_TYPE",
            AuthError::InvalidEmail => "INVALID_EMAIL",
            AuthError::InvalidJson => "INVALID_JSON",
            AuthError::InvalidCustomToken => "INVALID_CUSTOM_TOKEN",
            AuthError::InvalidIdToken => "INVALID_ID_TOKEN",
            AuthError::PhoneNumberExists => "PHONE_NUMBER_EXISTS",
        }
    }

    /// The reason phrase of the status.
    pub fn reason(&self) -> (r: &'static str)
        ensures
            r@ == if self.code() == 404 {
                "Not Found"@
            } else if self.code() == 500 {
                "Internal Server Error"@
            } else {
                "Bad Request"@
            },
    {
        match self {
            AuthError::NotFound => "Not Found",
            AuthError::InternalError => "Internal Server Error",
            _ => "Bad Request",
        }
    }
}

/// Each refusal is answered with its own status and message.
pub proof fn refusal_is_told(e: AuthError)
    ensures
        e is UnsupportedGrantType ==> e.code() == 400 && e.text() == "UNSUPPORTED_GRANT_TYPE"@,
        e is InvalidRefreshToken ==> e.code() == 400 && e.text() == "INVALID_REFRESH_TOKEN"@,
        e is UserNotFound ==> e.code() == 400 && e.text() == "USER_NOT_FOUND"@,
        e is UserDisabled ==> e.code() == 400 && e.text() == "USER_DISABLED"@,
        e is TokenExpired ==> e.code() == 400 && e.text() == "TOKEN_EXPIRED"@,
        e is NotFound ==> e.code() == 404 && e.text() == "NOT_FOUND"@,
        e is MissingOobCode ==> e.code() == 400 && e.text() == "MISSING_OOB_CODE"@,
        e is InvalidOobCode ==> e.code() == 400 && e.text() == "INVALID_OOB_CODE"@,
        e is InternalError ==> e.code() == 500 && e.text() == "INTERNAL_ERROR"@,
        e is MissingEmailOrPassword ==> e.code() == 400 && e.text() == "MISSING_EMAIL_OR_PASSWORD"@,
        e is EmailExists ==> e.code() == 400 && e.text() == "EMAIL_EXISTS"@,
        e is WeakPassword ==> e.code() == 400 && e.text() == "WEAK_PASSWORD"@,
        e is UidExists ==> e.code() == 400 && e.text() == "UID_EXISTS"@,
        e is EmailNotFound ==> e.code() == 400 && e.text() == "EMAIL_NOT_FOUND"@,
        e is InvalidPassword ==> e.code() == 400 && e.text() == "INVALID_PASSWORD"@,
        e is InvalidPhoneNumber ==> e.code() == 400 && e.text() == "INVALID_PHONE_NUMBER"@,
        e is SecondFactorExists ==> e.code() == 400 && e.text() == "SECOND_FACTOR_EXISTS"@,
        e is InvalidSessionInfo ==> e.code() == 400 && e.text() == "INVALID_SESSION_INFO"@,
        e is InvalidCode ==> e.code() == 400 && e.text() == "INVALID_CODE"@,
        e is InvalidMfaPendingCredential ==> e.code() == 400 && e.text() == "INVALID_MFA_PENDING_CREDENTIAL"@,
        e is MfaEnrollmentNotFound ==> e.code() == 400 && e.text() == "MFA_ENROLLMENT_NOT_FOUND"@,
        e is MissingForce ==> e.code() == 400 && e.text() == "MISSING_FORCE"@,
        e is MissingLocalId ==> e.code() == 400 && e.text() == "MISSING_LOCAL_ID"@,
        e is MissingProviderId ==> e.code() == 400 && e.text() == "MISSING_PROVIDER_ID"@,
        e is UnsupportedOobRequestType ==> e.code() == 400 && e.text() == "UNSUPPORTED_OOB_REQUEST_TYPE"@,
        e is InvalidEmail ==> e.code() == 400 && e.text() == "INVALID_EMAIL"@,
        e is InvalidJson ==> e.code() == 400 && e.text() == "INVALID_JSON"@,
        e is InvalidCustomToken ==> e.code() == 400 && e.text() == "INVALID_CUSTOM_TOKEN"@,
        e is InvalidIdToken ==> e.code() == 400 && e.text() == "INVALID_ID_TOKEN"@,
        e is PhoneNumberExists ==> e.code() == 400 && e.text() == "PHONE_NUMBER_EXISTS"@,
{
}

} // verus!
