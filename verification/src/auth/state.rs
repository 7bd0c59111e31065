//! The accounts of all projects, and the requests on them.

use crate::auth::accounts::{
    admin_create_refusal, admin_created_user, admin_update_refusal, admin_updated, given_factors,
    is_phone_number, is_valid_phone_number, normal_email, secs, sign_up_refusal, signed_up_user,
    update_draws, updated_user, with_account, with_admin_account,
};
use crate::auth::directory::loaded;
use crate::auth::errors::AuthError;
use crate::auth::provider::{
    form_decodes, form_fields, idp_identity, idp_user, parse_post_body, read_identity,
    with_idp_user,
};
use crate::auth::records::{ProjectAuthState, ProjectView, PurposeView, UserRecord, UserView};
use crate::auth::requests::{
    AdminCreateRequest, AdminUpdateRequest, CustomTokenRequest, EmailLinkRequest, IdpRequest,
    MfaEnrollmentFinalizeRequest, MfaEnrollmentStartRequest, MfaSignInFinalizeRequest,
    MfaSignInStartRequest, SendOobCodeRequest, SignInRequest, SignUpRequest,
};
use crate::auth::responses::{
    auth_response, factor_tokens_work, outcome, shown, signed_in, tokens_work, AuthResponse,
    AuthResponseView, EmulatorUser, EmulatorUserView, MfaResponse, MfaResponseView, OobCodeResponse,
    OobCodeResponseView, PasswordResponse, PasswordResponseView,
};
use crate::auth::second_factor::{
    enrolled_user, enrollment_answer, enrollment_end_refusal, enrollment_start_refusal, mfa_answer,
    mfa_factor, mfa_user, sign_in_end_refusal, sign_in_start_refusal, sms_session, with_enrollment,
    with_mfa_login, with_sign_in_code, with_verification_code,
};
use crate::auth::sign_in::{
    custom_token_email, email_link_outcome, email_link_project, email_link_user, logged_in,
    oob_answer, oob_refusal, oob_type_known, password_accepted, password_answer, password_refusal,
    with_login, with_oob_code, with_user,
};
use crate::auth::tokens::{
    claims_of, custom_claims, custom_subject, id_token, own_claims_can_be_read,
    parse_custom_token_subject, parse_token_claims, refresh_claims_of, refresh_view,
    sign_in_is_told, tells_factor, token_reads, ClaimsView, TokenClaims,
};
use crate::auth::validity::{loaded_is_valid, new_is_valid, valid};
use crate::fresh::{Draw, DrawView};
use crate::json::field_of;
use crate::text::{join2, same_text};
use crate::text_map::{is_listing, listing, TextMap};
use vstd::prelude::*;

verus! {

/// The project that clients belong to unless another one is set.
pub const DEFAULT_PROJECT: &'static str = "demo-firelite";

/// The accounts of all projects. Clients belong to the default project; administrators name
/// theirs.
#[derive(Debug)]
pub struct AuthState {
    pub default_project_id: String,
    pub projects: TextMap<ProjectAuthState>,
    pub persistence_path: Option<String>,
}

/// What the accounts of all projects hold.
#[verifier::ext_equal]
pub struct AuthView {
    pub default_project: Seq<char>,
    pub projects: Map<Seq<char>, ProjectView>,
    pub persistence_path: Option<Seq<char>>,
}

impl DeepView for AuthState {
    type V = AuthView;

    open spec fn deep_view(&self) -> AuthView {
        AuthView {
            default_project: self.default_project_id@,
            projects: self.projects.deep_view(),
            persistence_path: self.persistence_path.deep_view(),
        }
    }
}

impl AuthView {
    /// What a project holds; one that nobody has used holds nothing.
    pub open spec fn project(self, project_id: Seq<char>) -> ProjectView {
        if self.projects.contains_key(project_id) {
            self.projects[project_id]
        } else {
            ProjectView::empty()
        }
    }

    /// The default project.
    pub open spec fn home(self) -> ProjectView {
        self.project(self.default_project)
    }

    /// The state with another content of a project.
    pub open spec fn with_project(self, project_id: Seq<char>, p: ProjectView) -> AuthView {
        AuthView { projects: self.projects.insert(project_id, p), ..self }
    }

    /// The state with another content of the default project.
    pub open spec fn with_home(self, p: ProjectView) -> AuthView {
        self.with_project(self.default_project, p)
    }
}

/// A state and what came of the request that led to it.
pub open spec fn ended<T: DeepView>(state: AuthState, r: Result<T, AuthError>) -> (
    AuthView,
    Result<T::V, AuthError>,
) {
    (state.deep_view(), outcome(r))
}

/// Projects that were loaded in turn.
pub open spec fn loaded_projects(rows: Seq<(Seq<char>, Seq<UserView>)>) -> Map<
    Seq<char>,
    ProjectView,
>
    decreases rows.len(),
{
    if rows.len() == 0 {
        Map::empty()
    } else {
        loaded_projects(rows.drop_last()).insert(rows.last().0, loaded(rows.last().1))
    }
}

/// What is kept: the projects in the order of their names, each with its accounts.
pub open spec fn kept(v: AuthView) -> Seq<(Seq<char>, Seq<UserView>)> {
    listing(v.projects).map_values(
        |pair: (Seq<char>, ProjectView)| (pair.0, pair.1.accounts()),
    )
}

impl AuthState {
    /// No accounts yet, and none that are kept.
    pub fn new(default_project_id: &str) -> (r: AuthState)
        ensures
            r.deep_view() == (AuthView {
                default_project: default_project_id@,
                projects: Map::empty(),
                persistence_path: None,
            }),
            valid(r.deep_view()),
    {
        proof {
            new_is_valid(
                AuthView {
                    default_project: default_project_id@,
                    projects: Map::empty(),
                    persistence_path: None,
                },
            );
        }
        AuthState {
            default_project_id: default_project_id.to_owned(),
            projects: TextMap::new(),
            persistence_path: None,
        }
    }

    /// The accounts that were kept at `path`, and will be kept there again. `rows` are the
    /// projects that were read from there, each with its accounts.
    pub fn persistent(default_project_id: &str, path: &str, rows: Vec<(String, Vec<UserRecord>)>) -> (r:
        AuthState)
        ensures
            r.deep_view() == (AuthView {
                default_project: default_project_id@,
                projects: loaded_projects(rows.deep_view()),
                persistence_path: Some(path@),
            }),
            valid(r.deep_view()),
    {
        let ghost all = rows.deep_view();
        let mut rest = rows;
        let mut projects: TextMap<ProjectAuthState> = TextMap::new();
        let ghost mut i: int = 0;
        assert(all.take(0) =~= Seq::empty());
        assert(all.skip(0) =~= all);
        while rest.len() > 0
            invariant
                0 <= i <= all.len(),
                rest.deep_view() == all.skip(i),
                projects.deep_view() == loaded_projects(all.take(i)),
            decreases rest@.len(),
        {
            let ghost before = rest.deep_view();
            let (project_id, users) = rest.remove(0);
            assert(before[0] == (project_id@, users.deep_view()));
            assert(rest.deep_view() =~= before.drop_first());
            assert(all.take(i + 1).drop_last() =~= all.take(i));
            assert(all.take(i + 1).last() == all.skip(i)[0]);
            projects.insert(project_id, ProjectAuthState::from_users(users));
            proof {
                i = i + 1;
                assert(rest.deep_view() =~= all.skip(i));
            }
        }
        proof {
            assert(all.skip(i).len() == 0);
            assert(all.take(i) =~= all);
            loaded_is_valid(
                AuthView {
                    default_project: default_project_id@,
                    projects: loaded_projects(all),
                    persistence_path: Some(path@),
                },
                all,
            );
        }
        AuthState {
            default_project_id: default_project_id.to_owned(),
            projects,
            persistence_path: Some(path.to_owned()),
        }
    }

    /// Whether the accounts are kept.
    pub fn is_persistent(&self) -> (r: bool)
        ensures
            r == (self.deep_view().persistence_path is Some),
    {
        self.persistence_path.is_some()
    }

    /// The project that clients belong to.
    pub fn default_project_id(&self) -> (r: &str)
        ensures
            r@ == self.deep_view().default_project,
    {
        self.default_project_id.as_str()
    }

    /// What is kept: the projects in the order of their names, each with its accounts.
    pub fn snapshot(&self) -> (r: Vec<(String, Vec<UserRecord>)>)
        ensures
            r.deep_view() == kept(self.deep_view()),
    {
        let ghost all = kept(self.deep_view());
        let mut r: Vec<(String, Vec<UserRecord>)> = Vec::new();
        let count: usize = self.projects.len();
        let mut i: usize = 0;
        assert(r.deep_view() =~= all.take(0));
        while i < count
            invariant
                count == listing(self.deep_view().projects).len(),
                all == kept(self.deep_view()),
                i <= count,
                r.deep_view() == all.take(i as int),
            decreases count - i,
        {
            let ghost before = r.deep_view();
            r.push((self.projects.key_at(i).clone(), self.projects.value_at(i).all_users()));
            assert(r.deep_view() =~= before.push(all[i as int]));
            i += 1;
            assert(r.deep_view() =~= all.take(i as int));
        }
        assert(all.take(count as int) =~= all);
        r
    }

    fn take_project(&mut self, project_id: &str) -> (p: ProjectAuthState)
        ensures
            p.deep_view() == old(self).deep_view().project(project_id@),
            forall|q: ProjectView| #[trigger]
                final(self).deep_view().with_project(project_id@, q) == old(
                    self,
                ).deep_view().with_project(project_id@, q),
            final(self).default_project_id == old(self).default_project_id,
    {
        let ghost before = self.deep_view();
        let taken = self.projects.remove(project_id);
        assert forall|q: ProjectView| #[trigger]
            self.deep_view().with_project(project_id@, q) == before.with_project(
                project_id@,
                q,
            ) by {
            assert(before.projects.remove(project_id@).insert(project_id@, q)
                =~= before.projects.insert(project_id@, q));
        }
        match taken {
            Some(p) => p,
            None => ProjectAuthState::new(),
        }
    }

    fn put_project(&mut self, project_id: &str, p: ProjectAuthState)
        ensures
            final(self).deep_view() == old(self).deep_view().with_project(
                project_id@,
                p.deep_view(),
            ),
    {
        self.projects.insert(project_id.to_owned(), p);
    }
}

/// The state after a request for a new account, and the answer.
pub open spec fn sign_up_step(v: AuthView, request: SignUpRequest, d: DrawView) -> (
    AuthView,
    Result<AuthResponseView, AuthError>,
) {
    let p = v.home();
    match sign_up_refusal(p, request) {
        Some(e) => (v.with_home(p), Err(e)),
        None => {
            let user = signed_up_user(request, d.ids[0], d);
            (
                v.with_home(with_account(p, user)),
                Ok(
                    signed_in(
                        v.default_project,
                        user,
                        request.return_secure_token,
                        secs(d),
                        d.ids[1],
                    ),
                ),
            )
        },
    }
}

/// The state after an administrator's request for a new account, and the answer.
pub open spec fn admin_create_step(
    v: AuthView,
    project_id: Seq<char>,
    request: AdminCreateRequest,
    d: DrawView,
) -> (AuthView, Result<EmulatorUserView, AuthError>) {
    let p = v.project(project_id);
    match admin_create_refusal(p, request, d) {
        Some(e) => (v.with_project(project_id, p), Err(e)),
        None => {
            let user = admin_created_user(request, d);
            (v.with_project(project_id, with_admin_account(p, user)), Ok(shown(user)))
        },
    }
}

/// The state after an administrator's change, and the answer.
pub open spec fn admin_update_step(
    v: AuthView,
    project_id: Seq<char>,
    request: AdminUpdateRequest,
    d: DrawView,
) -> (AuthView, Result<EmulatorUserView, AuthError>) {
    if !v.projects.contains_key(project_id) {
        (v, Err(AuthError::UserNotFound))
    } else {
        let p = v.projects[project_id];
        match admin_update_refusal(p, request) {
            Some(e) => (v, Err(e)),
            None => (
                v.with_project(project_id, admin_updated(p, request, d)),
                Ok(shown(updated_user(p.users[request.local_id@], request, d))),
            ),
        }
    }
}

/// The state after a sign-in with a password, and the answer.
pub open spec fn password_step(v: AuthView, request: SignInRequest, d: DrawView) -> (
    AuthView,
    Result<PasswordResponseView, AuthError>,
) {
    let p = v.home();
    match password_refusal(p, request) {
        Some(e) => (v.with_home(p), Err(e)),
        None => {
            let local_id = p.ids_by_email[normal_email(request.email@)];
            (
                v.with_home(password_accepted(p, local_id, d)),
                Ok(
                    password_answer(
                        p.users[local_id],
                        v.default_project,
                        request.return_secure_token,
                        d,
                    ),
                ),
            )
        },
    }
}

/// The state after a sign-in with a custom token, and the answer.
pub open spec fn custom_token_step(v: AuthView, request: CustomTokenRequest, d: DrawView) -> (
    AuthView,
    Result<AuthResponseView, AuthError>,
) {
    match custom_subject(request.token@) {
        Some(local_id) => {
            let p = with_user(
                v.home(),
                local_id,
                custom_token_email(local_id),
                "custom"@,
                local_id,
                d,
            );
            (
                v.with_home(with_login(p, local_id, d)),
                Ok(
                    signed_in(
                        v.default_project,
                        logged_in(p.users[local_id], d),
                        request.return_secure_token,
                        secs(d),
                        d.ids[0],
                    ),
                ),
            )
        },
        None => (v, Err(AuthError::InvalidCustomToken)),
    }
}

/// The state after a sign-in through a provider, and the answer.
pub open spec fn idp_step(v: AuthView, request: IdpRequest, d: DrawView) -> (
    AuthView,
    Result<AuthResponseView, AuthError>,
) {
    match idp_identity(form_fields(request.post_body@), d) {
        Some(who) => {
            let local_id = idp_user(v.home(), who, d);
            let p = with_idp_user(v.home(), who, d);
            (
                v.with_home(with_login(p, local_id, d)),
                Ok(
                    signed_in(
                        v.default_project,
                        logged_in(p.users[local_id], d),
                        request.return_secure_token,
                        secs(d),
                        d.ids[2],
                    ),
                ),
            )
        },
        None => (v, Err(AuthError::MissingProviderId)),
    }
}

/// The state after a code was asked for by mail, and the answer.
pub open spec fn send_oob_step(
    v: AuthView,
    project_id: Seq<char>,
    auth_base_url: Seq<char>,
    request: SendOobCodeRequest,
    d: DrawView,
) -> (AuthView, Result<OobCodeResponseView, AuthError>) {
    if !oob_type_known(request.request_type@) {
        (v, Err(AuthError::UnsupportedOobRequestType))
    } else {
        let p = v.project(project_id);
        match oob_refusal(p, request) {
            Some(e) => (v.with_project(project_id, p), Err(e)),
            None => (
                v.with_project(project_id, with_oob_code(p, request, d)),
                Ok(oob_answer(project_id, auth_base_url, request, d)),
            ),
        }
    }
}

/// The state after a sign-in with a mailed code, and the answer.
pub open spec fn email_link_step(v: AuthView, request: EmailLinkRequest, d: DrawView) -> (
    AuthView,
    Result<AuthResponseView, AuthError>,
) {
    (
        v.with_home(email_link_project(v.home(), request, d)),
        email_link_outcome(v.home(), v.default_project, request, d),
    )
}

impl AuthState {
    /// Makes the account of a visitor and signs it in.
    pub fn sign_up(&mut self, request: &SignUpRequest, draw: &Draw) -> (r: Result<
        AuthResponse,
        AuthError,
    >)
        requires
            draw.ids@.len() >= 2,
        ensures
            ended(*final(self), r) == sign_up_step(
                old(self).deep_view(),
                *request,
                draw.deep_view(),
            ),
            r matches Ok(response) ==> tokens_work(
                response.deep_view(),
                old(self).deep_view().default_project,
                signed_up_user(*request, draw.deep_view().ids[0], draw.deep_view()),
                request.return_secure_token,
                secs(draw.deep_view()),
            ),
    {
        let project_id = self.default_project_id.clone();
        let mut project = self.take_project(project_id.as_str());
        let made = project.sign_up(request, draw);
        self.put_project(project_id.as_str(), project);
        match made {
            Ok(record) => Ok(
                auth_response(
                    project_id.as_str(),
                    &record,
                    request.return_secure_token,
                    draw.now_ms / 1000,
                    draw.ids[1].as_str(),
                ),
            ),
            Err(e) => Err(e),
        }
    }

    /// Makes the account that an administrator asks for.
    pub fn admin_create_user(
        &mut self,
        project_id: &str,
        request: &AdminCreateRequest,
        draw: &Draw,
    ) -> (r: Result<EmulatorUser, AuthError>)
        requires
            draw.ids@.len() >= 1 + given_factors(request.mfa_info).len(),
        ensures
            ended(*final(self), r) == admin_create_step(
                old(self).deep_view(),
                project_id@,
                *request,
                draw.deep_view(),
            ),
    {
        let mut project = self.take_project(project_id);
        let made = project.admin_create(request, draw);
        self.put_project(project_id, project);
        match made {
            Ok(record) => Ok(EmulatorUser::from_record(&record)),
            Err(e) => Err(e),
        }
    }

    /// Makes the changes that an administrator asks for.
    pub fn admin_update_user(
        &mut self,
        project_id: &str,
        request: &AdminUpdateRequest,
        draw: &Draw,
    ) -> (r: Result<EmulatorUser, AuthError>)
        requires
            draw.ids@.len() >= update_draws(*request),
        ensures
            ended(*final(self), r) == admin_update_step(
                old(self).deep_view(),
                project_id@,
                *request,
                draw.deep_view(),
            ),
    {
        if !self.projects.contains_key(project_id) {
            return Err(AuthError::UserNotFound);
        }
        let ghost before = self.deep_view();
        let mut project = self.take_project(project_id);
        let changed = project.admin_update(request, draw);
        self.put_project(project_id, project);
        match changed {
            Ok(record) => Ok(EmulatorUser::from_record(&record)),
            Err(e) => {
                assert(self.deep_view() =~~= before);
                Err(e)
            },
        }
    }

    /// Signs an account in with its password.
    pub fn sign_in_with_password(&mut self, request: &SignInRequest, draw: &Draw) -> (r: Result<
        PasswordResponse,
        AuthError,
    >)
        requires
            draw.ids@.len() >= 1,
        ensures
            ended(*final(self), r) == password_step(
                old(self).deep_view(),
                *request,
                draw.deep_view(),
            ),
            r matches Ok(PasswordResponse::SignedIn(response)) ==> tokens_work(
                response.deep_view(),
                old(self).deep_view().default_project,
                logged_in(
                    old(self).deep_view().home().users[old(
                        self,
                    ).deep_view().home().ids_by_email[normal_email(request.email@)]],
                    draw.deep_view(),
                ),
                request.return_secure_token,
                secs(draw.deep_view()),
            ),
    {
        let project_id = self.default_project_id.clone();
        let mut project = self.take_project(project_id.as_str());
        let r = project.sign_in_with_password(project_id.as_str(), request, draw);
        self.put_project(project_id.as_str(), project);
        r
    }

    /// Signs in the account that a custom token names.
    pub fn sign_in_with_custom_token(&mut self, request: &CustomTokenRequest, draw: &Draw) -> (r:
        Result<AuthResponse, AuthError>)
        requires
            draw.ids@.len() >= 1,
        ensures
            ended(*final(self), r) == custom_token_step(
                old(self).deep_view(),
                *request,
                draw.deep_view(),
            ),
            r matches Ok(response) ==> tokens_work(
                response.deep_view(),
                old(self).deep_view().default_project,
                final(self).deep_view().home().users[custom_subject(request.token@)->0],
                request.return_secure_token,
                secs(draw.deep_view()),
            ),
    {
        let local_id = match parse_custom_token_subject(request.token.as_str()) {
            Ok(local_id) => local_id,
            Err(e) => {
                return Err(e);
            },
        };
        let email = join2(local_id.as_str(), "@custom-token.local");
        let project_id = self.default_project_id.clone();
        let mut project = self.take_project(project_id.as_str());
        let r = project.sign_in_as(
            project_id.as_str(),
            local_id.as_str(),
            email.as_str(),
            "custom",
            local_id.as_str(),
            request.return_secure_token,
            draw,
            draw.ids[0].as_str(),
        );
        self.put_project(project_id.as_str(), project);
        Ok(r)
    }

    /// Signs in through an identity provider.
    pub fn sign_in_with_idp(&mut self, request: &IdpRequest, draw: &Draw) -> (r: Result<
        AuthResponse,
        AuthError,
    >)
        requires
            form_decodes(request.post_body@),
            draw.ids@.len() >= 3,
        ensures
            ended(*final(self), r) == idp_step(
                old(self).deep_view(),
                *request,
                draw.deep_view(),
            ),
            r matches Ok(response) ==> tokens_work(
                response.deep_view(),
                old(self).deep_view().default_project,
                final(self).deep_view().home().users[idp_user(
                    old(self).deep_view().home(),
                    idp_identity(form_fields(request.post_body@), draw.deep_view())->0,
                    draw.deep_view(),
                )],
                request.return_secure_token,
                secs(draw.deep_view()),
            ),
    {
        let form = parse_post_body(request.post_body.as_str());
        let who = match read_identity(&form, draw) {
            Ok(who) => who,
            Err(e) => {
                return Err(e);
            },
        };
        let project_id = self.default_project_id.clone();
        let mut project = self.take_project(project_id.as_str());
        let r = project.sign_in_with_identity(
            project_id.as_str(),
            &who,
            request.return_secure_token,
            draw,
        );
        self.put_project(project_id.as_str(), project);
        Ok(r)
    }

    /// Keeps a code that is sent by mail.
    pub fn send_oob_code(
        &mut self,
        project_id: &str,
        auth_base_url: &str,
        request: &SendOobCodeRequest,
        draw: &Draw,
    ) -> (r: Result<OobCodeResponse, AuthError>)
        requires
            draw.ids@.len() >= 1,
        ensures
            ended(*final(self), r) == send_oob_step(
                old(self).deep_view(),
                project_id@,
                auth_base_url@,
                *request,
                draw.deep_view(),
            ),
    {
        if !same_text(request.request_type.as_str(), "EMAIL_SIGNIN") && !same_text(
            request.request_type.as_str(),
            "PASSWORD_RESET",
        ) {
            return Err(AuthError::UnsupportedOobRequestType);
        }
        let mut project = self.take_project(project_id);
        let r = project.send_oob_code(project_id, auth_base_url, request, draw);
        self.put_project(project_id, project);
        r
    }

    /// Signs in with a mailed code.
    pub fn sign_in_with_email_link(&mut self, request: &EmailLinkRequest, draw: &Draw) -> (r: Result<
        AuthResponse,
        AuthError,
    >)
        requires
            draw.ids@.len() >= 2,
        ensures
            ended(*final(self), r) == email_link_step(
                old(self).deep_view(),
                *request,
                draw.deep_view(),
            ),
            r matches Ok(response) ==> tokens_work(
                response.deep_view(),
                old(self).deep_view().default_project,
                final(self).deep_view().home().users[email_link_user(
                    old(self).deep_view().home(),
                    request.email@,
                    draw.deep_view(),
                )],
                request.return_secure_token,
                secs(draw.deep_view()),
            ),
    {
        let project_id = self.default_project_id.clone();
        let mut project = self.take_project(project_id.as_str());
        let r = project.sign_in_with_email_link(project_id.as_str(), request, draw);
        self.put_project(project_id.as_str(), project);
        r
    }
}

impl Default for AuthState {
    fn default() -> (r: AuthState)
        ensures
            r.deep_view() == (AuthView {
                default_project: "demo-firelite"@,
                projects: Map::empty(),
                persistence_path: None,
            }),
            valid(r.deep_view()),
    {
        AuthState::new("demo-firelite")
    }
}

/// The claims of a client's ID token: those of a token of the default project.
pub open spec fn client_claims(v: AuthView, token: Seq<char>) -> Option<ClaimsView> {
    match claims_of(token, v.default_project) {
        Some(claims) => if claims.project_id == v.default_project {
            Some(claims)
        } else {
            None
        },
        None => None,
    }
}

impl AuthState {
    /// The claims of a client's ID token.
    pub fn parse_client_token_claims(&self, token: &str) -> (r: Result<TokenClaims, AuthError>)
        ensures
            match client_claims(self.deep_view(), token@) {
                Some(claims) => r is Ok && r->Ok_0.deep_view() == claims,
                None => r == Err::<TokenClaims, AuthError>(AuthError::InvalidIdToken),
            },
    {
        match parse_token_claims(token, self.default_project_id.as_str()) {
            Ok(claims) => {
                if !same_text(claims.project_id.as_str(), self.default_project_id.as_str()) {
                    return Err(AuthError::InvalidIdToken);
                }
                Ok(claims)
            },
            Err(e) => Err(e),
        }
    }
}

/// The state after the enrollment of a phone was asked for, and the session of its code.
pub open spec fn enrollment_start_step(
    v: AuthView,
    request: MfaEnrollmentStartRequest,
    d: DrawView,
) -> (AuthView, Result<Seq<char>, AuthError>) {
    match client_claims(v, request.id_token@) {
        None => (v, Err(AuthError::InvalidIdToken)),
        Some(claims) => if !is_phone_number(request.phone_number@) {
            (v, Err(AuthError::InvalidPhoneNumber))
        } else {
            match enrollment_start_refusal(v.home(), claims, request.phone_number@) {
                Some(e) => (v, Err(e)),
                None => (
                    v.with_home(
                        with_verification_code(
                            v.home(),
                            request.phone_number@,
                            PurposeView::Enrollment { local_id: claims.local_id },
                            d.ids[0],
                        ),
                    ),
                    Ok(sms_session(d.ids[0])),
                ),
            }
        },
    }
}

/// The state after the code for the enrollment of a phone came back, and the answer.
pub open spec fn enrollment_end_step(
    v: AuthView,
    request: MfaEnrollmentFinalizeRequest,
    d: DrawView,
) -> (AuthView, Result<MfaResponseView, AuthError>) {
    match client_claims(v, request.id_token@) {
        None => (v, Err(AuthError::InvalidIdToken)),
        Some(claims) => if !v.projects.contains_key(claims.project_id) {
            (v, Err(AuthError::UserNotFound))
        } else {
            match enrollment_end_refusal(v.home(), claims, request) {
                Some(e) => (v, Err(e)),
                None => (
                    v.with_home(with_enrollment(v.home(), claims, request, d)),
                    Ok(
                        enrollment_answer(
                            enrolled_user(v.home(), claims, request, d),
                            claims,
                            d,
                        ),
                    ),
                ),
            }
        },
    }
}

/// The first of the projects that holds the credential of a waiting sign-in.
pub open spec fn first_pending(projects: Seq<(Seq<char>, ProjectView)>, credential: Seq<char>) -> Option<
    Seq<char>,
>
    decreases projects.len(),
{
    if projects.len() == 0 {
        None
    } else if projects[0].1.pending.contains_key(credential) {
        Some(projects[0].0)
    } else {
        first_pending(projects.drop_first(), credential)
    }
}

/// The project that holds the credential of a waiting sign-in.
pub open spec fn pending_project(v: AuthView, credential: Seq<char>) -> Option<Seq<char>> {
    first_pending(listing(v.projects), credential)
}

/// The state after a sign-in with a second factor was started, and the session of its code.
pub open spec fn mfa_start_step(v: AuthView, request: MfaSignInStartRequest, d: DrawView) -> (
    AuthView,
    Result<Seq<char>, AuthError>,
) {
    match pending_project(v, request.mfa_pending_credential@) {
        None => (v, Err(AuthError::InvalidMfaPendingCredential)),
        Some(project_id) => match sign_in_start_refusal(v.project(project_id), request) {
            Some(e) => (v, Err(e)),
            None => (
                v.with_project(
                    project_id,
                    with_sign_in_code(v.project(project_id), request, d),
                ),
                Ok(sms_session(d.ids[0])),
            ),
        },
    }
}

/// The state after the code for a sign-in came back, and the answer.
pub open spec fn mfa_end_step(v: AuthView, request: MfaSignInFinalizeRequest, d: DrawView) -> (
    AuthView,
    Result<MfaResponseView, AuthError>,
) {
    match pending_project(v, request.mfa_pending_credential@) {
        None => (v, Err(AuthError::InvalidMfaPendingCredential)),
        Some(project_id) => {
            let p = v.project(project_id);
            match sign_in_end_refusal(p, request) {
                Some(e) => (v, Err(e)),
                None => {
                    let purpose = p.verification_codes[request.phone_verification_info.session_info@].purpose;
                    let local_id = purpose.user();
                    (
                        v.with_project(project_id, with_mfa_login(p, request, local_id, d)),
                        Ok(
                            mfa_answer(
                                project_id,
                                logged_in(p.users[local_id], d),
                                local_id,
                                purpose->mfa_enrollment_id,
                                d,
                            ),
                        ),
                    )
                },
            }
        },
    }
}

impl AuthState {
    fn restore_project(&mut self, project_id: &str, p: ProjectAuthState, Ghost(before): Ghost<AuthView>)
        requires
            before.projects.contains_key(project_id@),
            p.deep_view() == before.projects[project_id@],
            old(self).deep_view().with_project(project_id@, p.deep_view()) == before.with_project(
                project_id@,
                p.deep_view(),
            ),
        ensures
            final(self).deep_view() == before,
    {
        self.put_project(project_id, p);
        assert(before.with_project(project_id@, p.deep_view()).projects =~= before.projects);
    }

    /// Starts the enrollment of a phone as second factor.
    pub fn start_mfa_enrollment(&mut self, request: &MfaEnrollmentStartRequest, draw: &Draw) -> (r:
        Result<String, AuthError>)
        requires
            draw.ids@.len() >= 1,
            old(self).deep_view().home().sequence < u64::MAX,
        ensures
            ended(*final(self), r) == enrollment_start_step(
                old(self).deep_view(),
                *request,
                draw.deep_view(),
            ),
    {
        let claims = match self.parse_client_token_claims(request.id_token.as_str()) {
            Ok(claims) => claims,
            Err(e) => {
                return Err(e);
            },
        };
        if !is_valid_phone_number(request.phone_number.as_str()) {
            return Err(AuthError::InvalidPhoneNumber);
        }
        let project_id = self.default_project_id.clone();
        if !self.projects.contains_key(project_id.as_str()) {
            return Err(AuthError::UserNotFound);
        }
        let ghost before = self.deep_view();
        let mut project = self.take_project(project_id.as_str());
        match project.start_enrollment(&claims, request.phone_number.as_str(), draw) {
            Ok(session_info) => {
                self.put_project(project_id.as_str(), project);
                Ok(session_info)
            },
            Err(e) => {
                self.restore_project(project_id.as_str(), project, Ghost(before));
                Err(e)
            },
        }
    }

    /// Completes the enrollment of a phone as second factor.
    pub fn finalize_mfa_enrollment(
        &mut self,
        request: &MfaEnrollmentFinalizeRequest,
        draw: &Draw,
    ) -> (r: Result<MfaResponse, AuthError>)
        requires
            draw.ids@.len() >= 2,
        ensures
            ended(*final(self), r) == enrollment_end_step(
                old(self).deep_view(),
                *request,
                draw.deep_view(),
            ),
            r matches Ok(answer) ==> refresh_claims_of(answer.refresh_token@) == Some(
                refresh_view(
                    old(self).deep_view().default_project,
                    client_claims(old(self).deep_view(), request.id_token@)->0.local_id,
                    None,
                    secs(draw.deep_view()),
                ),
            ) && token_reads(
                answer.id_token@,
                old(self).deep_view().default_project,
                final(self).deep_view().home().users[client_claims(
                    old(self).deep_view(),
                    request.id_token@,
                )->0.local_id],
                None,
                secs(draw.deep_view()),
            ),
    {
        let claims = match self.parse_client_token_claims(request.id_token.as_str()) {
            Ok(claims) => claims,
            Err(e) => {
                return Err(e);
            },
        };
        let project_id = self.default_project_id.clone();
        if !self.projects.contains_key(project_id.as_str()) {
            return Err(AuthError::UserNotFound);
        }
        let ghost before = self.deep_view();
        let mut project = self.take_project(project_id.as_str());
        match project.finish_enrollment(&claims, request, draw) {
            Ok(answer) => {
                self.put_project(project_id.as_str(), project);
                Ok(answer)
            },
            Err(e) => {
                self.restore_project(project_id.as_str(), project, Ghost(before));
                Err(e)
            },
        }
    }

    /// The project that holds the credential of a waiting sign-in.
    pub fn project_id_for_mfa_pending(&self, credential: &str) -> (r: Option<String>)
        ensures
            r.deep_view() == pending_project(self.deep_view(), credential@),
            r matches Some(project_id) ==> self.deep_view().projects.contains_key(project_id@),
    {
        let ghost all = listing(self.deep_view().projects);
        let count: usize = self.projects.len();
        let mut i: usize = 0;
        assert(all.skip(0) =~= all);
        while i < count
            invariant
                all == listing(self.deep_view().projects),
                is_listing(self.deep_view().projects, all),
                count == all.len(),
                i <= count,
                first_pending(all, credential@) == first_pending(all.skip(i as int), credential@),
            decreases count - i,
        {
            assert(all.skip(i as int)[0] == all[i as int]);
            assert(all.skip(i as int).drop_first() =~= all.skip(i + 1));
            if self.projects.value_at(i).mfa_pending_credentials.contains_key(credential) {
                return Some(self.projects.key_at(i).clone());
            }
            i += 1;
        }
        None
    }

    /// Starts a sign-in with a second factor.
    pub fn start_mfa_sign_in(&mut self, request: &MfaSignInStartRequest, draw: &Draw) -> (r: Result<
        String,
        AuthError,
    >)
        requires
            draw.ids@.len() >= 1,
            forall|project_id: Seq<char>| #[trigger]
                old(self).deep_view().projects.contains_key(project_id) ==> old(
                    self,
                ).deep_view().projects[project_id].sequence < u64::MAX,
        ensures
            ended(*final(self), r) == mfa_start_step(
                old(self).deep_view(),
                *request,
                draw.deep_view(),
            ),
    {
        let credential: &str = request.mfa_pending_credential.as_str();
        let project_id = match self.project_id_for_mfa_pending(credential) {
            Some(project_id) => project_id,
            None => {
                return Err(AuthError::InvalidMfaPendingCredential);
            },
        };
        let ghost before = self.deep_view();
        let mut project = self.take_project(project_id.as_str());
        match project.start_sign_in(request, draw) {
            Ok(session_info) => {
                self.put_project(project_id.as_str(), project);
                Ok(session_info)
            },
            Err(e) => {
                self.restore_project(project_id.as_str(), project, Ghost(before));
                Err(e)
            },
        }
    }

    /// Completes a sign-in with a second factor.
    pub fn finalize_mfa_sign_in(&mut self, request: &MfaSignInFinalizeRequest, draw: &Draw) -> (r:
        Result<MfaResponse, AuthError>)
        requires
            draw.ids@.len() >= 1,
        ensures
            ended(*final(self), r) == mfa_end_step(
                old(self).deep_view(),
                *request,
                draw.deep_view(),
            ),
            r matches Ok(answer) ==> ({
                let project_id = pending_project(
                    old(self).deep_view(),
                    request.mfa_pending_credential@,
                )->0;
                let p = old(self).deep_view().project(project_id);
                factor_tokens_work(
                    answer.deep_view(),
                    project_id,
                    mfa_user(p, *request, draw.deep_view()),
                    mfa_factor(p, *request),
                    secs(draw.deep_view()),
                )
            }),
            r matches Ok(answer) ==> ({
                let p = old(self).deep_view().project(
                    pending_project(old(self).deep_view(), request.mfa_pending_credential@)->0,
                );
                let user = mfa_user(p, *request, draw.deep_view());
                own_claims_can_be_read(user) && field_of(custom_claims(user), "firebase"@) is None
                    ==> tells_factor(answer.id_token@, mfa_factor(p, *request)->0)
            }),
    {
        let credential: &str = request.mfa_pending_credential.as_str();
        let project_id = match self.project_id_for_mfa_pending(credential) {
            Some(project_id) => project_id,
            None => {
                return Err(AuthError::InvalidMfaPendingCredential);
            },
        };
        let ghost before = self.deep_view();
        let mut project = self.take_project(project_id.as_str());
        match project.finish_sign_in(project_id.as_str(), request, draw) {
            Ok(answer) => {
                self.put_project(project_id.as_str(), project);
                proof {
                    let p = before.project(project_id@);
                    let user = mfa_user(p, *request, draw.deep_view());
                    if own_claims_can_be_read(user) && field_of(
                        custom_claims(user),
                        "firebase"@,
                    ) is None {
                        sign_in_is_told(
                            answer.id_token@,
                            project_id@,
                            user,
                            mfa_factor(p, *request),
                            secs(draw.deep_view()),
                        );
                    }
                }
                Ok(answer)
            },
            Err(e) => {
                self.restore_project(project_id.as_str(), project, Ghost(before));
                Err(e)
            },
        }
    }

    /// Whether there is room for one more code to be sent in every project.
    pub fn can_send_codes(&self) -> (r: bool)
        ensures
            r == (forall|project_id: Seq<char>| #[trigger]
                self.deep_view().projects.contains_key(project_id)
                    ==> self.deep_view().projects[project_id].sequence < u64::MAX),
    {
        let ghost all = listing(self.deep_view().projects);
        let count: usize = self.projects.len();
        let mut i: usize = 0;
        while i < count
            invariant
                all == listing(self.deep_view().projects),
                is_listing(self.deep_view().projects, all),
                count == all.len(),
                i <= count,
                forall|j: int| 0 <= j < i ==> (#[trigger] all[j]).1.sequence < u64::MAX,
            decreases count - i,
        {
            if self.projects.value_at(i).next_verification_code_sequence == u64::MAX {
                assert(self.deep_view().projects.contains_key(all[i as int].0));
                return false;
            }
            i += 1;
        }
        assert forall|project_id: Seq<char>| #[trigger]
            self.deep_view().projects.contains_key(project_id) implies self.deep_view().projects[project_id].sequence
            < u64::MAX by {
            let j = choose|j: int| 0 <= j < all.len() && (#[trigger] all[j]).0 == project_id;
            assert(all[j].1.sequence < u64::MAX);
        }
        true
    }
}

} // verus!
