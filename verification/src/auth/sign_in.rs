//! Signing in: with a password, a custom token, an identity provider or a mailed code.

use crate::auth::accounts::{
    make_user, ms, new_user, normal_email, normalize_email, one_provider, secs,
};
use crate::auth::errors::AuthError;
use crate::auth::records::{
    clone_factors, MfaPendingCredential, OobCodeRecord, OobCodeView, PendingView, ProjectAuthState,
    ProjectView, ProviderView, UserRecord, UserView,
};
use crate::auth::requests::{EmailLinkRequest, SendOobCodeRequest, SignInRequest};
use crate::auth::responses::{
    auth_response, outcome, signed_in, tokens_work, AuthResponse, AuthResponseView, OobCodeResponse,
    OobCodeResponseView, PasswordResponse, PasswordResponseView,
};
use crate::digest::{hash_password, password_digest};
use crate::fresh::{Draw, DrawView};
use crate::percent::{percent_encode, percent_encoded};
use crate::text::{join2, same_text};
use vstd::prelude::*;

verus! {

/// An account that has just signed in.
pub open spec fn logged_in(user: UserView, d: DrawView) -> UserView {
    UserView { last_login_at_ms: Some(ms(d)), ..user }
}

/// The project after the account of that id has signed in.
pub open spec fn with_login(p: ProjectView, local_id: Seq<char>, d: DrawView) -> ProjectView {
    ProjectView { users: p.users.insert(local_id, logged_in(p.users[local_id], d)), ..p }
}

impl ProjectAuthState {
    /// Notes that the account has signed in and hands out a copy.
    pub fn log_in(&mut self, local_id: &str, draw: &Draw) -> (r: UserRecord)
        requires
            old(self).deep_view().users.contains_key(local_id@),
        ensures
            final(self).deep_view() == with_login(
                old(self).deep_view(),
                local_id@,
                draw.deep_view(),
            ),
            r.deep_view() == logged_in(old(self).deep_view().users[local_id@], draw.deep_view()),
    {
        let mut record = self.users_by_id.get(local_id).unwrap().clone();
        record.last_login_at_ms = Some(draw.now_ms);
        let copy = record.clone();
        self.users_by_id.insert(local_id.to_owned(), record);
        copy
    }
}

/// Why a sign-in with a password is refused.
pub open spec fn password_refusal(p: ProjectView, request: SignInRequest) -> Option<AuthError> {
    let email = normal_email(request.email@);
    if !p.ids_by_email.contains_key(email) {
        Some(AuthError::EmailNotFound)
    } else if !p.users.contains_key(p.ids_by_email[email]) {
        Some(AuthError::UserNotFound)
    } else if p.users[p.ids_by_email[email]].disabled {
        Some(AuthError::UserDisabled)
    } else if p.users[p.ids_by_email[email]].password_hash != Some(
        password_digest(request.password@),
    ) {
        Some(AuthError::InvalidPassword)
    } else {
        None
    }
}

/// The credential of a sign-in that waits for its second factor.
pub open spec fn pending_credential(id: Seq<char>) -> Seq<char> {
    "firelite-mfa-pending-"@ + id
}

/// The project after a sign-in with the right password: an account with second factors waits.
pub open spec fn password_accepted(
    p: ProjectView,
    local_id: Seq<char>,
    d: DrawView,
) -> ProjectView {
    let user = p.users[local_id];
    if user.mfa_info.len() > 0 {
        ProjectView {
            pending: p.pending.insert(
                pending_credential(d.ids[0]),
                PendingView { local_id: user.local_id, issued_at: secs(d) },
            ),
            ..p
        }
    } else {
        with_login(p, local_id, d)
    }
}

/// The answer to a sign-in with the right password.
pub open spec fn password_answer(
    user: UserView,
    project_id: Seq<char>,
    return_secure_token: Option<bool>,
    d: DrawView,
) -> PasswordResponseView {
    if user.mfa_info.len() > 0 {
        PasswordResponseView::SecondFactorRequired {
            kind: "identitytoolkit#VerifyPasswordResponse"@,
            registered: true,
            local_id: user.local_id,
            email: user.email,
            mfa_pending_credential: pending_credential(d.ids[0]),
            mfa_info: user.mfa_info,
        }
    } else {
        PasswordResponseView::SignedIn(
            signed_in(project_id, logged_in(user, d), return_secure_token, secs(d), d.ids[0]),
        )
    }
}

impl ProjectAuthState {
    /// Signs an account in with its password.
    pub fn sign_in_with_password(
        &mut self,
        project_id: &str,
        request: &SignInRequest,
        draw: &Draw,
    ) -> (r: Result<PasswordResponse, AuthError>)
        requires
            draw.ids@.len() >= 1,
        ensures
            match password_refusal(old(self).deep_view(), *request) {
                Some(e) => outcome(r) == Err::<PasswordResponseView, AuthError>(e)
                    && *final(self) == *old(self),
                None => {
                    let p = old(self).deep_view();
                    let d = draw.deep_view();
                    let local_id = p.ids_by_email[normal_email(request.email@)];
                    let user = p.users[local_id];
                    &&& outcome(r) == Ok::<PasswordResponseView, AuthError>(
                        password_answer(user, project_id@, request.return_secure_token, d),
                    )
                    &&& final(self).deep_view() == password_accepted(p, local_id, d)
                    &&& r matches Ok(PasswordResponse::SignedIn(response)) ==> tokens_work(
                        response.deep_view(),
                        project_id@,
                        logged_in(user, d),
                        request.return_secure_token,
                        secs(d),
                    )
                },
            },
    {
        let email = normalize_email(request.email.as_str());
        let local_id = match self.user_ids_by_email.get(email.as_str()) {
            Some(local_id) => local_id.clone(),
            None => {
                return Err(AuthError::EmailNotFound);
            },
        };
        let record = match self.users_by_id.get(local_id.as_str()) {
            Some(record) => record,
            None => {
                return Err(AuthError::UserNotFound);
            },
        };
        if record.disabled {
            return Err(AuthError::UserDisabled);
        }
        let given = hash_password(request.password.as_str());
        let accepted = match &record.password_hash {
            Some(kept) => same_text(kept.as_str(), given.as_str()),
            None => false,
        };
        if !accepted {
            return Err(AuthError::InvalidPassword);
        }
        assert(record.mfa_info.deep_view().len() == record.mfa_info@.len());
        if record.mfa_info.len() > 0 {
            let user_id = record.local_id.clone();
            let email = record.email.clone();
            let mfa_info = clone_factors(&record.mfa_info);
            let credential = join2("firelite-mfa-pending-", draw.ids[0].as_str());
            self.mfa_pending_credentials.insert(
                credential.clone(),
                MfaPendingCredential { local_id: user_id.clone(), issued_at: draw.now_ms / 1000 },
            );
            return Ok(
                PasswordResponse::SecondFactorRequired {
                    kind: "identitytoolkit#VerifyPasswordResponse",
                    registered: true,
                    local_id: user_id,
                    email,
                    mfa_pending_credential: credential,
                    mfa_info,
                },
            );
        }
        let record = self.log_in(local_id.as_str(), draw);
        Ok(
            PasswordResponse::SignedIn(
                auth_response(
                    project_id,
                    &record,
                    request.return_secure_token,
                    draw.now_ms / 1000,
                    draw.ids[0].as_str(),
                ),
            ),
        )
    }
}

/// The project with an account of that id, made if there is none. A new account is found by its
/// email address only where no other one has it.
pub open spec fn with_user(
    p: ProjectView,
    local_id: Seq<char>,
    email: Seq<char>,
    provider_id: Seq<char>,
    raw_id: Seq<char>,
    d: DrawView,
) -> ProjectView {
    let email = normal_email(email);
    if p.users.contains_key(local_id) {
        p
    } else {
        ProjectView {
            users: p.users.insert(
                local_id,
                new_user(
                    local_id,
                    email,
                    None,
                    seq![ProviderView { provider_id, raw_id, email }],
                    d,
                ),
            ),
            ids_by_email: if p.ids_by_email.contains_key(email) {
                p.ids_by_email
            } else {
                p.ids_by_email.insert(email, local_id)
            },
            ids_by_provider: p.ids_by_provider.insert((provider_id, raw_id), local_id),
            ..p
        }
    }
}

impl ProjectAuthState {
    /// Makes an account of that id if there is none.
    pub fn get_or_create_user(
        &mut self,
        local_id: &str,
        email: &str,
        provider_id: &str,
        raw_id: &str,
        draw: &Draw,
    )
        ensures
            final(self).deep_view() == with_user(
                old(self).deep_view(),
                local_id@,
                email@,
                provider_id@,
                raw_id@,
                draw.deep_view(),
            ),
            final(self).deep_view().users.contains_key(local_id@),
    {
        if self.users_by_id.contains_key(local_id) {
            return;
        }
        let email = normalize_email(email);
        let providers = one_provider(provider_id, raw_id, email.as_str());
        let record = make_user(local_id, email.as_str(), None, providers, draw);
        if !self.user_ids_by_email.contains_key(email.as_str()) {
            self.user_ids_by_email.insert(email, local_id.to_owned());
        }
        self.user_ids_by_provider.insert(
            provider_id.to_owned(),
            raw_id.to_owned(),
            local_id.to_owned(),
        );
        self.users_by_id.insert(local_id.to_owned(), record);
    }

    /// Signs in the account of that id, made if there is none.
    pub fn sign_in_as(
        &mut self,
        project_id: &str,
        local_id: &str,
        email: &str,
        provider_id: &str,
        raw_id: &str,
        return_secure_token: Option<bool>,
        draw: &Draw,
        nonce: &str,
    ) -> (r: AuthResponse)
        ensures
            ({
                let d = draw.deep_view();
                let p = with_user(
                    old(self).deep_view(),
                    local_id@,
                    email@,
                    provider_id@,
                    raw_id@,
                    d,
                );
                let user = logged_in(p.users[local_id@], d);
                &&& final(self).deep_view() == with_login(p, local_id@, d)
                &&& r.deep_view() == signed_in(
                    project_id@,
                    user,
                    return_secure_token,
                    secs(d),
                    nonce@,
                )
                &&& tokens_work(r.deep_view(), project_id@, user, return_secure_token, secs(d))
            }),
    {
        self.get_or_create_user(local_id, email, provider_id, raw_id, draw);
        let record = self.log_in(local_id, draw);
        auth_response(project_id, &record, return_secure_token, draw.now_ms / 1000, nonce)
    }
}

/// The email address of an account that a custom token made.
pub open spec fn custom_token_email(local_id: Seq<char>) -> Seq<char> {
    local_id + "@custom-token.local"@
}

/// Why a sign-in with a mailed code is refused, once the code was found.
pub open spec fn email_link_matches(code: OobCodeView, request: EmailLinkRequest) -> bool {
    code.request_type == "EMAIL_SIGNIN"@ && normal_email(code.email) == normal_email(
        request.email@,
    )
}

/// The project without a mailed code.
pub open spec fn without_oob_code(p: ProjectView, code: Seq<char>) -> ProjectView {
    ProjectView { oob_codes: p.oob_codes.remove(code), ..p }
}

/// The account that a mailed code signs in.
pub open spec fn email_link_user(p: ProjectView, email: Seq<char>, d: DrawView) -> Seq<char> {
    if p.ids_by_email.contains_key(normal_email(email)) {
        p.ids_by_email[normal_email(email)]
    } else {
        d.ids[0]
    }
}

/// The project after a sign-in with a mailed code: the code is used up in any case.
pub open spec fn email_link_project(
    p: ProjectView,
    request: EmailLinkRequest,
    d: DrawView,
) -> ProjectView {
    if !p.oob_codes.contains_key(request.oob_code@) {
        p
    } else {
        let q = without_oob_code(p, request.oob_code@);
        if !email_link_matches(p.oob_codes[request.oob_code@], request) {
            q
        } else {
            let email = normal_email(request.email@);
            let local_id = email_link_user(q, request.email@, d);
            with_login(with_user(q, local_id, email, "emailLink"@, email, d), local_id, d)
        }
    }
}

/// What came of a sign-in with a mailed code.
pub open spec fn email_link_outcome(
    p: ProjectView,
    project_id: Seq<char>,
    request: EmailLinkRequest,
    d: DrawView,
) -> Result<AuthResponseView, AuthError> {
    if !p.oob_codes.contains_key(request.oob_code@) {
        Err(AuthError::InvalidOobCode)
    } else if !email_link_matches(p.oob_codes[request.oob_code@], request) {
        Err(AuthError::InvalidEmail)
    } else {
        let local_id = email_link_user(p, request.email@, d);
        Ok(
            signed_in(
                project_id,
                email_link_project(p, request, d).users[local_id],
                request.return_secure_token,
                secs(d),
                d.ids[1],
            ),
        )
    }
}

impl ProjectAuthState {
    /// Signs in with a mailed code, which is used up.
    pub fn sign_in_with_email_link(
        &mut self,
        project_id: &str,
        request: &EmailLinkRequest,
        draw: &Draw,
    ) -> (r: Result<AuthResponse, AuthError>)
        requires
            draw.ids@.len() >= 2,
        ensures
            final(self).deep_view() == email_link_project(
                old(self).deep_view(),
                *request,
                draw.deep_view(),
            ),
            outcome(r) == email_link_outcome(
                old(self).deep_view(),
                project_id@,
                *request,
                draw.deep_view(),
            ),
            r matches Ok(response) ==> tokens_work(
                response.deep_view(),
                project_id@,
                final(self).deep_view().users[email_link_user(
                    old(self).deep_view(),
                    request.email@,
                    draw.deep_view(),
                )],
                request.return_secure_token,
                secs(draw.deep_view()),
            ),
    {
        let code = match self.oob_codes.remove(request.oob_code.as_str()) {
            Some(code) => code,
            None => {
                assert(self.deep_view().oob_codes =~= old(self).deep_view().oob_codes);
                return Err(AuthError::InvalidOobCode);
            },
        };
        let email = normalize_email(request.email.as_str());
        if !same_text(code.request_type.as_str(), "EMAIL_SIGNIN") || !same_text(
            normalize_email(code.email.as_str()).as_str(),
            email.as_str(),
        ) {
            return Err(AuthError::InvalidEmail);
        }
        let local_id = match self.user_ids_by_email.get(email.as_str()) {
            Some(local_id) => local_id.clone(),
            None => draw.ids[0].clone(),
        };
        Ok(
            self.sign_in_as(
                project_id,
                local_id.as_str(),
                email.as_str(),
                "emailLink",
                email.as_str(),
                request.return_secure_token,
                draw,
                draw.ids[1].as_str(),
            ),
        )
    }
}

/// Whether codes of this kind are sent.
pub open spec fn oob_type_known(request_type: Seq<char>) -> bool {
    request_type == "EMAIL_SIGNIN"@ || request_type == "PASSWORD_RESET"@
}

/// A mailed code.
pub open spec fn oob_code(id: Seq<char>) -> Seq<char> {
    "firelite-oob-"@ + id
}

/// What a link for a mailed code is to do.
pub open spec fn oob_mode(request_type: Seq<char>) -> Seq<char> {
    if request_type == "PASSWORD_RESET"@ {
        "resetPassword"@
    } else if request_type == "EMAIL_SIGNIN"@ {
        "signIn"@
    } else {
        "action"@
    }
}

/// The link for a mailed code.
pub open spec fn oob_link(
    auth_base_url: Seq<char>,
    project_id: Seq<char>,
    request_type: Seq<char>,
    code: Seq<char>,
) -> Seq<char> {
    auth_base_url + "/emulator/action?mode="@ + oob_mode(request_type) + "&oobCode="@
        + percent_encoded(code) + "&projectId="@ + percent_encoded(project_id)
}

/// The link for a mailed code.
pub fn make_oob_link(auth_base_url: &str, project_id: &str, request_type: &str, oob_code: &str) -> (r:
    String)
    ensures
        r@ == oob_link(auth_base_url@, project_id@, request_type@, oob_code@),
{
    let mode: &str = if same_text(request_type, "PASSWORD_RESET") {
        "resetPassword"
    } else if same_text(request_type, "EMAIL_SIGNIN") {
        "signIn"
    } else {
        "action"
    };
    let mut r = auth_base_url.to_owned();
    r.append("/emulator/action?mode=");
    r.append(mode);
    r.append("&oobCode=");
    r.append(percent_encode(oob_code).as_str());
    r.append("&projectId=");
    r.append(percent_encode(project_id).as_str());
    r
}

/// Why a code is not mailed, where codes of its kind are.
pub open spec fn oob_refusal(p: ProjectView, request: SendOobCodeRequest) -> Option<AuthError> {
    if request.request_type@ == "PASSWORD_RESET"@ && !p.ids_by_email.contains_key(
        normal_email(request.email@),
    ) {
        Some(AuthError::EmailNotFound)
    } else {
        None
    }
}

/// The project with one more mailed code.
pub open spec fn with_oob_code(p: ProjectView, request: SendOobCodeRequest, d: DrawView) -> ProjectView {
    ProjectView {
        oob_codes: p.oob_codes.insert(
            oob_code(d.ids[0]),
            OobCodeView {
                email: normal_email(request.email@),
                request_type: request.request_type@,
                created_at_ms: ms(d),
            },
        ),
        ..p
    }
}

/// The answer with a mailed code.
pub open spec fn oob_answer(
    project_id: Seq<char>,
    auth_base_url: Seq<char>,
    request: SendOobCodeRequest,
    d: DrawView,
) -> OobCodeResponseView {
    OobCodeResponseView {
        email: normal_email(request.email@),
        oob_code: oob_code(d.ids[0]),
        oob_link: if request.return_oob_link == Some(true) {
            Some(
                oob_link(
                    auth_base_url,
                    project_id,
                    request.request_type@,
                    oob_code(d.ids[0]),
                ),
            )
        } else {
            None
        },
    }
}

impl ProjectAuthState {
    /// Keeps a code that is sent by mail.
    pub fn send_oob_code(
        &mut self,
        project_id: &str,
        auth_base_url: &str,
        request: &SendOobCodeRequest,
        draw: &Draw,
    ) -> (r: Result<OobCodeResponse, AuthError>)
        requires
            draw.ids@.len() >= 1,
        ensures
            match oob_refusal(old(self).deep_view(), *request) {
                Some(e) => outcome(r) == Err::<OobCodeResponseView, AuthError>(e)
                    && *final(self) == *old(self),
                None => outcome(r) == Ok::<OobCodeResponseView, AuthError>(
                    oob_answer(project_id@, auth_base_url@, *request, draw.deep_view()),
                ) && final(self).deep_view() == with_oob_code(
                    old(self).deep_view(),
                    *request,
                    draw.deep_view(),
                ),
            },
    {
        let email = normalize_email(request.email.as_str());
        if same_text(request.request_type.as_str(), "PASSWORD_RESET")
            && !self.user_ids_by_email.contains_key(email.as_str()) {
            return Err(AuthError::EmailNotFound);
        }
        let code = join2("firelite-oob-", draw.ids[0].as_str());
        self.oob_codes.insert(
            code.clone(),
            OobCodeRecord {
                email: email.clone(),
                request_type: request.request_type.clone(),
                created_at_ms: draw.now_ms,
            },
        );
        let wants_link = match request.return_oob_link {
            Some(wanted) => wanted,
            None => false,
        };
        let link = if wants_link {
            Some(
                make_oob_link(
                    auth_base_url,
                    project_id,
                    request.request_type.as_str(),
                    code.as_str(),
                ),
            )
        } else {
            None
        };
        Ok(OobCodeResponse { email, oob_code: code, oob_link: link })
    }
}

} // verus!
