//! Which request an action asks for, and how it is carried out.

use crate::auth::accounts::{given_factors, update_draws};
use crate::auth::errors::AuthError;
use crate::auth::provider::form_decodes;
use crate::auth::queries::{
    admin_found, batch_deleted, batch_errors, delete_outcome, delete_target, deleted,
    lookup_outcome, refresh_outcome,
};
use crate::auth::requests::{
    AdminBatchDeleteRequest, AdminCreateRequest, AdminDeleteRequest, AdminLookupRequest,
    AdminUpdateRequest, CustomTokenRequest, DeleteRequest, EmailLinkRequest, IdpRequest,
    LookupRequest, MfaEnrollmentFinalizeRequest, MfaEnrollmentStartRequest,
    MfaSignInFinalizeRequest, MfaSignInStartRequest, RefreshTokenRequest, SendOobCodeRequest,
    SignInRequest, SignUpRequest,
};
use crate::auth::responses::{
    AuthResponse, AuthResponseView, BatchDeleteError, BatchDeleteErrorView, EmulatorUser,
    EmulatorUserView, MfaResponse, MfaResponseView, OobCodeResponse, OobCodeResponseView,
    PasswordResponse, PasswordResponseView, SecureTokenResponse, SecureTokenView,
};
use crate::auth::state::{
    admin_create_step, admin_update_step, custom_token_step, email_link_step, ended,
    enrollment_end_step, enrollment_start_step, idp_step, mfa_end_step, mfa_start_step,
    password_step, send_oob_step, sign_up_step, AuthState, AuthView,
};
use crate::auth::validity::{requests_keep_valid, valid};
use crate::fresh::{is_uuid, Draw, DrawView};
use crate::text::{cut, same_text, split_once, strip_prefix, without_prefix};
use vstd::prelude::*;

verus! {

/// The base of the URLs in answers, from the headers of a request.
pub open spec fn base_url(
    host: Option<Seq<char>>,
    proto: Option<Seq<char>>,
    default_host: Seq<char>,
) -> Seq<char> {
    (match proto {
        Some(proto) => proto,
        None => "http"@,
    }) + "://"@ + (match host {
        Some(host) => host,
        None => default_host,
    })
}

/// The base of the URLs in answers: the protocol that a proxy forwarded, or `http`, and the host
/// that the request names, or `default_host`.
pub fn request_base_url(host: Option<&str>, proto: Option<&str>, default_host: &str) -> (r: String)
    ensures
        r@ == base_url(host.deep_view(), proto.deep_view(), default_host@),
{
    let mut r = match proto {
        Some(proto) => proto.to_owned(),
        None => "http".to_owned(),
    };
    r.append("://");
    match host {
        Some(host) => r.append(host),
        None => r.append(default_host),
    }
    r
}

/// The project and the rest of an action that names a project.
pub open spec fn project_action(action: Seq<char>) -> Option<(Seq<char>, Seq<char>)> {
    match without_prefix(action, "projects/"@) {
        Some(rest) => match cut(rest, "/"@) {
            Some((project_id, admin_action)) => if project_id.len() > 0 && admin_action.len() > 0 {
                Some((project_id, admin_action))
            } else {
                None
            },
            None => None,
        },
        None => None,
    }
}

/// The project and the rest of an action that names a project.
pub fn parse_project_action<'a>(action: &'a str) -> (r: Option<(&'a str, &'a str)>)
    ensures
        r.deep_view() == project_action(action@),
{
    match strip_prefix(action, "projects/") {
        Some(rest) => match split_once(rest, "/") {
            Some((project_id, admin_action)) => {
                if project_id.is_empty() || admin_action.is_empty() {
                    None
                } else {
                    Some((project_id, admin_action))
                }
            },
            None => None,
        },
        None => None,
    }
}

/// What an action on accounts asks for.
#[derive(Clone, Copy, PartialEq, Eq, Structural, Debug)]
pub enum IdentityAction {
    SignUp,
    SignInWithPassword,
    Lookup,
    Delete,
    SignInWithCustomToken,
    SignInWithIdp,
    SendOobCode,
    SignInWithEmailLink,
    AdminCreate,
    AdminLookup,
    AdminUpdate,
    AdminDelete,
    AdminBatchDelete,
    AdminSendOobCode,
}

/// What a client's action asks for.
pub open spec fn client_action(action: Seq<char>) -> Option<IdentityAction> {
    if action == "accounts:signUp"@ {
        Some(IdentityAction::SignUp)
    } else if action == "accounts:signInWithPassword"@ {
        Some(IdentityAction::SignInWithPassword)
    } else if action == "accounts:lookup"@ {
        Some(IdentityAction::Lookup)
    } else if action == "accounts:delete"@ {
        Some(IdentityAction::Delete)
    } else if action == "accounts:signInWithCustomToken"@ {
        Some(IdentityAction::SignInWithCustomToken)
    } else if action == "accounts:signInWithIdp"@ {
        Some(IdentityAction::SignInWithIdp)
    } else if action == "accounts:sendOobCode"@ {
        Some(IdentityAction::SendOobCode)
    } else if action == "accounts:signInWithEmailLink"@ {
        Some(IdentityAction::SignInWithEmailLink)
    } else {
        None
    }
}

/// What an administrator's action asks for.
pub open spec fn admin_action(action: Seq<char>) -> Option<IdentityAction> {
    if action == "accounts"@ {
        Some(IdentityAction::AdminCreate)
    } else if action == "accounts:lookup"@ {
        Some(IdentityAction::AdminLookup)
    } else if action == "accounts:update"@ {
        Some(IdentityAction::AdminUpdate)
    } else if action == "accounts:delete"@ {
        Some(IdentityAction::AdminDelete)
    } else if action == "accounts:batchDelete"@ {
        Some(IdentityAction::AdminBatchDelete)
    } else if action == "accounts:sendOobCode"@ {
        Some(IdentityAction::AdminSendOobCode)
    } else {
        None
    }
}

/// What an action asks for, and the project that it names, if it names one.
pub open spec fn identity_action_of(action: Seq<char>) -> Option<
    (Option<Seq<char>>, IdentityAction),
> {
    match client_action(action) {
        Some(found) => Some((None, found)),
        None => match project_action(action) {
            Some((project_id, rest)) => match admin_action(rest) {
                Some(found) => Some((Some(project_id), found)),
                None => None,
            },
            None => None,
        },
    }
}

/// What an action asks for, and the project that it names, if it names one.
pub fn route_identity_action<'a>(action: &'a str) -> (r: Result<
    (Option<&'a str>, IdentityAction),
    AuthError,
>)
    ensures
        match identity_action_of(action@) {
            Some((project_id, found)) => r is Ok && r->Ok_0.0.deep_view() == project_id
                && r->Ok_0.1 == found,
            None => r == Err::<(Option<&'a str>, IdentityAction), AuthError>(AuthError::NotFound),
        },
{
    if same_text(action, "accounts:signUp") {
        return Ok((None, IdentityAction::SignUp));
    }
    if same_text(action, "accounts:signInWithPassword") {
        return Ok((None, IdentityAction::SignInWithPassword));
    }
    if same_text(action, "accounts:lookup") {
        return Ok((None, IdentityAction::Lookup));
    }
    if same_text(action, "accounts:delete") {
        return Ok((None, IdentityAction::Delete));
    }
    if same_text(action, "accounts:signInWithCustomToken") {
        return Ok((None, IdentityAction::SignInWithCustomToken));
    }
    if same_text(action, "accounts:signInWithIdp") {
        return Ok((None, IdentityAction::SignInWithIdp));
    }
    if same_text(action, "accounts:sendOobCode") {
        return Ok((None, IdentityAction::SendOobCode));
    }
    if same_text(action, "accounts:signInWithEmailLink") {
        return Ok((None, IdentityAction::SignInWithEmailLink));
    }
    let (project_id, rest) = match parse_project_action(action) {
        Some(found) => found,
        None => {
            return Err(AuthError::NotFound);
        },
    };
    if same_text(rest, "accounts") {
        Ok((Some(project_id), IdentityAction::AdminCreate))
    } else if same_text(rest, "accounts:lookup") {
        Ok((Some(project_id), IdentityAction::AdminLookup))
    } else if same_text(rest, "accounts:update") {
        Ok((Some(project_id), IdentityAction::AdminUpdate))
    } else if same_text(rest, "accounts:delete") {
        Ok((Some(project_id), IdentityAction::AdminDelete))
    } else if same_text(rest, "accounts:batchDelete") {
        Ok((Some(project_id), IdentityAction::AdminBatchDelete))
    } else if same_text(rest, "accounts:sendOobCode") {
        Ok((Some(project_id), IdentityAction::AdminSendOobCode))
    } else {
        Err(AuthError::NotFound)
    }
}

/// What an action on second factors asks for.
#[derive(Clone, Copy, PartialEq, Eq, Structural, Debug)]
pub enum MfaAction {
    StartEnrollment,
    FinalizeEnrollment,
    StartSignIn,
    FinalizeSignIn,
}

/// What an action on second factors asks for.
pub open spec fn mfa_action_of(action: Seq<char>) -> Option<MfaAction> {
    if action == "accounts/mfaEnrollment:start"@ {
        Some(MfaAction::StartEnrollment)
    } else if action == "accounts/mfaEnrollment:finalize"@ {
        Some(MfaAction::FinalizeEnrollment)
    } else if action == "accounts/mfaSignIn:start"@ {
        Some(MfaAction::StartSignIn)
    } else if action == "accounts/mfaSignIn:finalize"@ {
        Some(MfaAction::FinalizeSignIn)
    } else {
        None
    }
}

/// What an action on second factors asks for.
pub fn route_mfa_action(action: &str) -> (r: Result<MfaAction, AuthError>)
    ensures
        match mfa_action_of(action@) {
            Some(found) => r == Ok::<MfaAction, AuthError>(found),
            None => r == Err::<MfaAction, AuthError>(AuthError::NotFound),
        },
{
    if same_text(action, "accounts/mfaEnrollment:start") {
        Ok(MfaAction::StartEnrollment)
    } else if same_text(action, "accounts/mfaEnrollment:finalize") {
        Ok(MfaAction::FinalizeEnrollment)
    } else if same_text(action, "accounts/mfaSignIn:start") {
        Ok(MfaAction::StartSignIn)
    } else if same_text(action, "accounts/mfaSignIn:finalize") {
        Ok(MfaAction::FinalizeSignIn)
    } else {
        Err(AuthError::NotFound)
    }
}

/// The project whose accounts a reading action lists.
pub open spec fn batch_get_project(action: Seq<char>) -> Option<Seq<char>> {
    match project_action(action) {
        Some((project_id, rest)) => if rest == "accounts:batchGet"@ {
            Some(project_id)
        } else {
            None
        },
        None => None,
    }
}

/// The project whose accounts a reading action lists.
pub fn route_get_action<'a>(action: &'a str) -> (r: Result<&'a str, AuthError>)
    ensures
        match batch_get_project(action@) {
            Some(project_id) => r is Ok && r->Ok_0@ == project_id,
            None => r == Err::<&'a str, AuthError>(AuthError::NotFound),
        },
{
    match parse_project_action(action) {
        Some((project_id, rest)) => {
            if same_text(rest, "accounts:batchGet") {
                Ok(project_id)
            } else {
                Err(AuthError::NotFound)
            }
        },
        None => Err(AuthError::NotFound),
    }
}

/// A request on accounts. Those of administrators come with the project that they name.
#[derive(Debug)]
pub enum IdentityCall {
    SignUp(SignUpRequest),
    SignInWithPassword(SignInRequest),
    Lookup(LookupRequest),
    Delete(DeleteRequest),
    SignInWithCustomToken(CustomTokenRequest),
    SignInWithIdp(IdpRequest),
    SendOobCode(SendOobCodeRequest),
    SignInWithEmailLink(EmailLinkRequest),
    AdminCreate(String, AdminCreateRequest),
    AdminLookup(String, AdminLookupRequest),
    AdminUpdate(String, AdminUpdateRequest),
    AdminDelete(String, AdminDeleteRequest),
    AdminBatchDelete(String, AdminBatchDeleteRequest),
    AdminSendOobCode(String, SendOobCodeRequest),
    Refresh(RefreshTokenRequest),
    StartEnrollment(MfaEnrollmentStartRequest),
    FinalizeEnrollment(MfaEnrollmentFinalizeRequest),
    StartSignIn(MfaSignInStartRequest),
    FinalizeSignIn(MfaSignInFinalizeRequest),
}

/// The answer to a request on accounts.
#[derive(Debug)]
pub enum IdentityAnswer {
    SignedIn(AuthResponse),
    Password(PasswordResponse),
    Users(Vec<EmulatorUser>),
    User(EmulatorUser),
    Mailed(OobCodeResponse),
    NotDeleted(Vec<BatchDeleteError>),
    Tokens(SecureTokenResponse),
    Session(String),
    SecondFactor(MfaResponse),
    Done,
}

/// What the answer to a request on accounts holds.
#[verifier::ext_equal]
pub enum IdentityAnswerView {
    SignedIn(AuthResponseView),
    Password(PasswordResponseView),
    Users(Seq<EmulatorUserView>),
    User(EmulatorUserView),
    Mailed(OobCodeResponseView),
    NotDeleted(Seq<BatchDeleteErrorView>),
    Tokens(SecureTokenView),
    Session(Seq<char>),
    SecondFactor(MfaResponseView),
    Done,
}

impl DeepView for IdentityAnswer {
    type V = IdentityAnswerView;

    open spec fn deep_view(&self) -> IdentityAnswerView {
        match *self {
            IdentityAnswer::SignedIn(response) => IdentityAnswerView::SignedIn(
                response.deep_view(),
            ),
            IdentityAnswer::Password(response) => IdentityAnswerView::Password(
                response.deep_view(),
            ),
            IdentityAnswer::Users(users) => IdentityAnswerView::Users(users.deep_view()),
            IdentityAnswer::User(user) => IdentityAnswerView::User(user.deep_view()),
            IdentityAnswer::Mailed(response) => IdentityAnswerView::Mailed(response.deep_view()),
            IdentityAnswer::NotDeleted(errors) => IdentityAnswerView::NotDeleted(
                errors.deep_view(),
            ),
            IdentityAnswer::Tokens(response) => IdentityAnswerView::Tokens(response.deep_view()),
            IdentityAnswer::Session(session) => IdentityAnswerView::Session(session@),
            IdentityAnswer::SecondFactor(response) => IdentityAnswerView::SecondFactor(
                response.deep_view(),
            ),
            IdentityAnswer::Done => IdentityAnswerView::Done,
        }
    }
}

/// An outcome as that of a request of any kind.
pub open spec fn answered<T>(
    step: (AuthView, Result<T, AuthError>),
    wrap: spec_fn(T) -> IdentityAnswerView,
) -> (AuthView, Result<IdentityAnswerView, AuthError>) {
    (
        step.0,
        match step.1 {
            Ok(answer) => Ok(wrap(answer)),
            Err(e) => Err(e),
        },
    )
}

/// The state after a request, and the answer.
pub open spec fn identity_step(
    v: AuthView,
    auth_base_url: Seq<char>,
    call: IdentityCall,
    d: DrawView,
) -> (AuthView, Result<IdentityAnswerView, AuthError>) {
    match call {
        IdentityCall::SignUp(request) => answered(
            sign_up_step(v, request, d),
            |r: AuthResponseView| IdentityAnswerView::SignedIn(r),
        ),
        IdentityCall::SignInWithPassword(request) => answered(
            password_step(v, request, d),
            |r: PasswordResponseView| IdentityAnswerView::Password(r),
        ),
        IdentityCall::Lookup(request) => answered(
            (v, lookup_outcome(v, request)),
            |r: Seq<EmulatorUserView>| IdentityAnswerView::Users(r),
        ),
        IdentityCall::Delete(request) => match delete_target(v, request) {
            Ok(local_id) => answered(
                (
                    deleted(v, v.default_project, local_id),
                    delete_outcome(v, v.default_project, local_id),
                ),
                |r: ()| IdentityAnswerView::Done,
            ),
            Err(e) => (v, Err(e)),
        },
        IdentityCall::SignInWithCustomToken(request) => answered(
            custom_token_step(v, request, d),
            |r: AuthResponseView| IdentityAnswerView::SignedIn(r),
        ),
        IdentityCall::SignInWithIdp(request) => answered(
            idp_step(v, request, d),
            |r: AuthResponseView| IdentityAnswerView::SignedIn(r),
        ),
        IdentityCall::SendOobCode(request) => answered(
            send_oob_step(v, v.default_project, auth_base_url, request, d),
            |r: OobCodeResponseView| IdentityAnswerView::Mailed(r),
        ),
        IdentityCall::SignInWithEmailLink(request) => answered(
            email_link_step(v, request, d),
            |r: AuthResponseView| IdentityAnswerView::SignedIn(r),
        ),
        IdentityCall::AdminCreate(project_id, request) => answered(
            admin_create_step(v, project_id@, request, d),
            |r: EmulatorUserView| IdentityAnswerView::User(r),
        ),
        IdentityCall::AdminLookup(project_id, request) => (
            v,
            Ok(IdentityAnswerView::Users(admin_found(v.project(project_id@), request))),
        ),
        IdentityCall::AdminUpdate(project_id, request) => answered(
            admin_update_step(v, project_id@, request, d),
            |r: EmulatorUserView| IdentityAnswerView::User(r),
        ),
        IdentityCall::AdminDelete(project_id, request) => answered(
            (
                deleted(v, project_id@, request.local_id@),
                delete_outcome(v, project_id@, request.local_id@),
            ),
            |r: ()| IdentityAnswerView::Done,
        ),
        IdentityCall::AdminBatchDelete(project_id, request) => if request.force == Some(true) {
            (
                batch_deleted(v, project_id@, request.local_ids.deep_view()),
                Ok(
                    IdentityAnswerView::NotDeleted(
                        batch_errors(v, project_id@, request.local_ids.deep_view()),
                    ),
                ),
            )
        } else {
            (v, Err(AuthError::MissingForce))
        },
        IdentityCall::AdminSendOobCode(project_id, request) => answered(
            send_oob_step(v, project_id@, auth_base_url, request, d),
            |r: OobCodeResponseView| IdentityAnswerView::Mailed(r),
        ),
        IdentityCall::Refresh(request) => answered(
            (v, refresh_outcome(v, request, d)),
            |r: SecureTokenView| IdentityAnswerView::Tokens(r),
        ),
        IdentityCall::StartEnrollment(request) => answered(
            enrollment_start_step(v, request, d),
            |r: Seq<char>| IdentityAnswerView::Session(r),
        ),
        IdentityCall::FinalizeEnrollment(request) => answered(
            enrollment_end_step(v, request, d),
            |r: MfaResponseView| IdentityAnswerView::SecondFactor(r),
        ),
        IdentityCall::StartSignIn(request) => answered(
            mfa_start_step(v, request, d),
            |r: Seq<char>| IdentityAnswerView::Session(r),
        ),
        IdentityCall::FinalizeSignIn(request) => answered(
            mfa_end_step(v, request, d),
            |r: MfaResponseView| IdentityAnswerView::SecondFactor(r),
        ),
    }
}

/// How many second factors a request brings that may need an id.
pub open spec fn factors_in(call: IdentityCall) -> nat {
    match call {
        IdentityCall::AdminCreate(_, request) => given_factors(request.mfa_info).len(),
        IdentityCall::AdminUpdate(_, request) => update_draws(request),
        _ => 0,
    }
}

/// Whether a request can be carried out: its form can be decoded, and there is room for the code
/// that it may send.
pub open spec fn can_perform(v: AuthView, call: IdentityCall) -> bool {
    match call {
        IdentityCall::SignInWithIdp(request) => form_decodes(request.post_body@),
        IdentityCall::StartEnrollment(_) => codes_have_room(v),
        IdentityCall::StartSignIn(_) => codes_have_room(v),
        _ => true,
    }
}

/// Whether every project has room for one more code.
pub open spec fn codes_have_room(v: AuthView) -> bool {
    forall|project_id: Seq<char>| #[trigger]
        v.projects.contains_key(project_id) ==> v.projects[project_id].sequence < u64::MAX
}

fn count_factors(call: &IdentityCall) -> (r: usize)
    ensures
        r == factors_in(*call),
{
    match call {
        IdentityCall::AdminCreate(_, request) => match &request.mfa_info {
            Some(factors) => {
                assert(factors.deep_view().len() == factors@.len());
                factors.len()
            },
            None => 0,
        },
        IdentityCall::AdminUpdate(_, request) => match (&request.mfa_info, &request.mfa) {
            (Some(factors), _) => factors.len(),
            (None, Some(mfa)) => match &mfa.enrollments {
                Some(factors) => factors.len(),
                None => 0,
            },
            (None, None) => 0,
        },
        _ => 0,
    }
}

impl AuthState {
    /// Whether a request can be carried out.
    pub fn accepts(&self, call: &IdentityCall) -> (r: bool)
        ensures
            r == can_perform(self.deep_view(), *call),
    {
        match call {
            IdentityCall::SignInWithIdp(request) => crate::auth::provider::can_parse_post_body(
                request.post_body.as_str(),
            ),
            IdentityCall::StartEnrollment(_) => self.can_send_codes(),
            IdentityCall::StartSignIn(_) => self.can_send_codes(),
            _ => true,
        }
    }

    /// Carries out a request with the time and the ids of a draw.
    pub fn perform(&mut self, auth_base_url: &str, call: &IdentityCall, draw: &Draw) -> (r: Result<
        IdentityAnswer,
        AuthError,
    >)
        requires
            can_perform(old(self).deep_view(), *call),
            draw.ids@.len() >= factors_in(*call) + 3,
        ensures
            ended(*final(self), r) == identity_step(
                old(self).deep_view(),
                auth_base_url@,
                *call,
                draw.deep_view(),
            ),
            valid(old(self).deep_view()) ==> valid(final(self).deep_view()),
    {
        proof {
            if valid(self.deep_view()) {
                requests_keep_valid(self.deep_view(), auth_base_url@, *call, draw.deep_view());
            }
        }
        match call {
            IdentityCall::SignUp(request) => match self.sign_up(request, draw) {
                Ok(answer) => Ok(IdentityAnswer::SignedIn(answer)),
                Err(e) => Err(e),
            },
            IdentityCall::SignInWithPassword(request) => match self.sign_in_with_password(
                request,
                draw,
            ) {
                Ok(answer) => Ok(IdentityAnswer::Password(answer)),
                Err(e) => Err(e),
            },
            IdentityCall::Lookup(request) => match self.lookup(request) {
                Ok(users) => Ok(IdentityAnswer::Users(users)),
                Err(e) => Err(e),
            },
            IdentityCall::Delete(request) => match self.delete_identity_account(request) {
                Ok(_) => Ok(IdentityAnswer::Done),
                Err(e) => Err(e),
            },
            IdentityCall::SignInWithCustomToken(request) => match self.sign_in_with_custom_token(
                request,
                draw,
            ) {
                Ok(answer) => Ok(IdentityAnswer::SignedIn(answer)),
                Err(e) => Err(e),
            },
            IdentityCall::SignInWithIdp(request) => match self.sign_in_with_idp(request, draw) {
                Ok(answer) => Ok(IdentityAnswer::SignedIn(answer)),
                Err(e) => Err(e),
            },
            IdentityCall::SendOobCode(request) => {
                let project_id = self.default_project_id.clone();
                match self.send_oob_code(project_id.as_str(), auth_base_url, request, draw) {
                    Ok(answer) => Ok(IdentityAnswer::Mailed(answer)),
                    Err(e) => Err(e),
                }
            },
            IdentityCall::SignInWithEmailLink(request) => match self.sign_in_with_email_link(
                request,
                draw,
            ) {
                Ok(answer) => Ok(IdentityAnswer::SignedIn(answer)),
                Err(e) => Err(e),
            },
            IdentityCall::AdminCreate(project_id, request) => match self.admin_create_user(
                project_id.as_str(),
                request,
                draw,
            ) {
                Ok(user) => Ok(IdentityAnswer::User(user)),
                Err(e) => Err(e),
            },
            IdentityCall::AdminLookup(project_id, request) => Ok(
                IdentityAnswer::Users(self.admin_lookup(project_id.as_str(), request)),
            ),
            IdentityCall::AdminUpdate(project_id, request) => match self.admin_update_user(
                project_id.as_str(),
                request,
                draw,
            ) {
                Ok(user) => Ok(IdentityAnswer::User(user)),
                Err(e) => Err(e),
            },
            IdentityCall::AdminDelete(project_id, request) => match self.delete_account(
                project_id.as_str(),
                request.local_id.as_str(),
            ) {
                Ok(_) => Ok(IdentityAnswer::Done),
                Err(e) => Err(e),
            },
            IdentityCall::AdminBatchDelete(project_id, request) => {
                match self.admin_batch_delete_users(project_id.as_str(), request) {
                    Ok(errors) => Ok(IdentityAnswer::NotDeleted(errors)),
                    Err(e) => Err(e),
                }
            },
            IdentityCall::AdminSendOobCode(project_id, request) => match self.send_oob_code(
                project_id.as_str(),
                auth_base_url,
                request,
                draw,
            ) {
                Ok(answer) => Ok(IdentityAnswer::Mailed(answer)),
                Err(e) => Err(e),
            },
            IdentityCall::Refresh(request) => match self.refresh_secure_token(request, draw) {
                Ok(answer) => Ok(IdentityAnswer::Tokens(answer)),
                Err(e) => Err(e),
            },
            IdentityCall::StartEnrollment(request) => match self.start_mfa_enrollment(
                request,
                draw,
            ) {
                Ok(session) => Ok(IdentityAnswer::Session(session)),
                Err(e) => Err(e),
            },
            IdentityCall::FinalizeEnrollment(request) => match self.finalize_mfa_enrollment(
                request,
                draw,
            ) {
                Ok(answer) => Ok(IdentityAnswer::SecondFactor(answer)),
                Err(e) => Err(e),
            },
            IdentityCall::StartSignIn(request) => match self.start_mfa_sign_in(request, draw) {
                Ok(session) => Ok(IdentityAnswer::Session(session)),
                Err(e) => Err(e),
            },
            IdentityCall::FinalizeSignIn(request) => match self.finalize_mfa_sign_in(
                request,
                draw,
            ) {
                Ok(answer) => Ok(IdentityAnswer::SecondFactor(answer)),
                Err(e) => Err(e),
            },
        }
    }

    /// Carries out a request at the time `now_ms`, with random ids.
    pub fn identity_action(&mut self, auth_base_url: &str, call: &IdentityCall, now_ms: u64) -> (r:
        Result<IdentityAnswer, AuthError>)
        requires
            can_perform(old(self).deep_view(), *call),
        ensures
            exists|d: DrawView|
                d.is_fresh(now_ms as nat, factors_in(*call) + 3) && ended(*final(self), r)
                    == #[trigger] identity_step(
                    old(self).deep_view(),
                    auth_base_url@,
                    *call,
                    d,
                ),
            valid(old(self).deep_view()) ==> valid(final(self).deep_view()),
    {
        let mut draw = Draw::fresh(now_ms, count_factors(call));
        let ghost ids = draw.deep_view().ids;
        draw.draw_another();
        let ghost ids1 = draw.deep_view().ids;
        draw.draw_another();
        let ghost ids2 = draw.deep_view().ids;
        draw.draw_another();
        let ghost ids3 = draw.deep_view().ids;
        proof {
            let n = factors_in(*call);
            assert forall|i: int| 0 <= i < n + 3 implies is_uuid(#[trigger] ids3[i]) by {
                if i < n + 2 {
                    assert(ids3[i] == ids3.drop_last()[i]);
                    if i < n + 1 {
                        assert(ids2[i] == ids2.drop_last()[i]);
                        if i < n {
                            assert(ids1[i] == ids1.drop_last()[i]);
                        }
                    }
                }
            }
            assert(draw.deep_view().is_fresh(now_ms as nat, n + 3));
        }
        self.perform(auth_base_url, call, &draw)
    }
}

} // verus!
