//! Reading and deleting accounts, and renewing their tokens.

use crate::auth::accounts::secs;
use crate::auth::directory::{all_shown, in_sequence, without_account, LookupKey, SentCode};
use crate::auth::errors::AuthError;
use crate::auth::records::{OobCodeView, ProjectView, UserView};
use crate::auth::requests::{
    AdminBatchDeleteRequest, AdminBatchGetQuery, AdminLookupRequest, DeleteRequest, LookupRequest,
    OobActionQuery, RefreshTokenRequest,
};
use crate::auth::responses::{
    outcome, shown, shown_oob_code, shown_verification_code, BatchDeleteError, BatchDeleteErrorView,
    EmulatorOobCode, EmulatorUser, EmulatorUserView, EmulatorVerificationCode, OobActionResponse,
    OobActionView, SecureTokenResponse, SecureTokenView,
};
use crate::auth::second_factor::bearer_refusal;
use crate::auth::state::{client_claims, ended, AuthState, AuthView};
use crate::auth::tokens::{
    id_token, make_refresh_token_with_second_factor, make_token_with_second_factor,
    parse_refresh_token, refresh_claims_of, refresh_token, refresh_view, token_reads, FactorView,
    RefreshView,
};
use crate::auth::validity::{deletion_keeps_valid, reset_keeps_valid, valid};
use crate::fresh::{Draw, DrawView};
use crate::text::same_text;
use crate::text_map::listing;
use vstd::prelude::*;

verus! {

/// The second factor that a refresh token carries, where it has both of its parts.
pub open spec fn carried_factor(claims: RefreshView) -> FactorView {
    match (claims.second_factor, claims.second_factor_identifier) {
        (Some(kind), Some(identifier)) => Some((kind, identifier)),
        _ => None,
    }
}

/// What comes of a request for new tokens.
pub open spec fn refresh_outcome(v: AuthView, request: RefreshTokenRequest, d: DrawView) -> Result<
    SecureTokenView,
    AuthError,
> {
    if request.grant_type@ != "refresh_token"@ {
        Err(AuthError::UnsupportedGrantType)
    } else {
        match refresh_claims_of(request.refresh_token@) {
            None => Err(AuthError::InvalidRefreshToken),
            Some(claims) => if claims.project_id != v.default_project {
                Err(AuthError::InvalidRefreshToken)
            } else {
                match bearer_refusal(v.home(), claims.local_id, claims.issued_at) {
                    Some(e) => Err(e),
                    None => {
                        let factor = carried_factor(claims);
                        let token = id_token(
                            claims.project_id,
                            v.home().users[claims.local_id],
                            factor,
                            secs(d),
                        );
                        Ok(
                            SecureTokenView {
                                access_token: token,
                                expires_in: "3600"@,
                                token_type: "Bearer"@,
                                refresh_token: refresh_token(
                                    claims.project_id,
                                    claims.local_id,
                                    factor,
                                    secs(d),
                                    d.ids[0],
                                ),
                                id_token: token,
                                user_id: claims.local_id,
                                project_id: claims.project_id,
                            },
                        )
                    },
                }
            },
        }
    }
}

/// What comes of a client's look at accounts: its own by a token, and others by their ids.
pub open spec fn lookup_outcome(v: AuthView, request: LookupRequest) -> Result<
    Seq<EmulatorUserView>,
    AuthError,
> {
    let others = v.home().find_given(LookupKey::Id, request.local_id);
    match request.id_token {
        Some(token) => match client_claims(v, token@) {
            None => Err(AuthError::InvalidIdToken),
            Some(claims) => match bearer_refusal(v.home(), claims.local_id, claims.issued_at) {
                Some(AuthError::UserNotFound) => Ok(others),
                Some(e) => Err(e),
                None => Ok(seq![shown(v.home().users[claims.local_id])] + others),
            },
        },
        None => Ok(others),
    }
}

/// The accounts that an administrator looks for.
pub open spec fn admin_found(p: ProjectView, request: AdminLookupRequest) -> Seq<
    EmulatorUserView,
> {
    p.find_given(LookupKey::Id, request.local_id) + p.find_given(LookupKey::Email, request.email)
        + p.find_given(LookupKey::Phone, request.phone_number)
}

impl AuthState {
    /// New tokens for a refresh token.
    pub fn refresh_secure_token(&self, request: &RefreshTokenRequest, draw: &Draw) -> (r: Result<
        SecureTokenResponse,
        AuthError,
    >)
        requires
            draw.ids@.len() >= 1,
        ensures
            outcome(r) == refresh_outcome(self.deep_view(), *request, draw.deep_view()),
            r matches Ok(response) ==> refresh_claims_of(response.refresh_token@) == Some(
                refresh_view(
                    response.project_id@,
                    response.user_id@,
                    carried_factor(refresh_claims_of(request.refresh_token@)->0),
                    secs(draw.deep_view()),
                ),
            ) && token_reads(
                response.id_token@,
                response.project_id@,
                self.deep_view().home().users[response.user_id@],
                carried_factor(refresh_claims_of(request.refresh_token@)->0),
                secs(draw.deep_view()),
            ),
    {
        if !same_text(request.grant_type.as_str(), "refresh_token") {
            return Err(AuthError::UnsupportedGrantType);
        }
        let claims = match parse_refresh_token(request.refresh_token.as_str()) {
            Ok(claims) => claims,
            Err(e) => {
                return Err(e);
            },
        };
        if !same_text(claims.project_id.as_str(), self.default_project_id.as_str()) {
            return Err(AuthError::InvalidRefreshToken);
        }
        let project = match self.projects.get(claims.project_id.as_str()) {
            Some(project) => project,
            None => {
                return Err(AuthError::UserNotFound);
            },
        };
        let record = match project.bearer(claims.local_id.as_str(), claims.issued_at) {
            Ok(record) => record,
            Err(e) => {
                return Err(e);
            },
        };
        let second_factor = match (&claims.second_factor, &claims.second_factor_identifier) {
            (Some(kind), Some(identifier)) => Some((kind.as_str(), identifier.as_str())),
            _ => None,
        };
        let token = make_token_with_second_factor(
            claims.project_id.as_str(),
            record,
            second_factor,
            draw.now_ms / 1000,
        );
        let renewed = make_refresh_token_with_second_factor(
            claims.project_id.as_str(),
            claims.local_id.as_str(),
            second_factor,
            draw.now_ms / 1000,
            draw.ids[0].as_str(),
        );
        Ok(
            SecureTokenResponse {
                access_token: token.clone(),
                expires_in: "3600".to_owned(),
                token_type: "Bearer",
                refresh_token: renewed,
                id_token: token,
                user_id: claims.local_id,
                project_id: claims.project_id,
            },
        )
    }

    /// The accounts that a client looks for.
    pub fn lookup(&self, request: &LookupRequest) -> (r: Result<Vec<EmulatorUser>, AuthError>)
        ensures
            outcome(r) == lookup_outcome(self.deep_view(), *request),
    {
        let mut users: Vec<EmulatorUser> = Vec::new();
        assert(users.deep_view() =~= Seq::empty());
        let ghost others = self.deep_view().home().find_given(LookupKey::Id, request.local_id);
        if let Some(token) = &request.id_token {
            let claims = match self.parse_client_token_claims(token.as_str()) {
                Ok(claims) => claims,
                Err(e) => {
                    return Err(e);
                },
            };
            if let Some(project) = self.projects.get(claims.project_id.as_str()) {
                match project.bearer(claims.local_id.as_str(), claims.issued_at) {
                    Ok(record) => {
                        users.push(EmulatorUser::from_record(record));
                        assert(users.deep_view() =~= seq![shown(record.deep_view())]);
                    },
                    Err(AuthError::UserNotFound) => {},
                    Err(e) => {
                        return Err(e);
                    },
                }
            }
        }
        let ghost own = users.deep_view();
        match self.projects.get(self.default_project_id.as_str()) {
            Some(project) => {
                project.append_found(LookupKey::Id, &request.local_id, &mut users);
            },
            None => {
                proof {
                    if let Some(keys) = &request.local_id {
                        nothing_found(LookupKey::Id, keys.deep_view());
                    }
                    assert(own + others =~= own);
                }
            },
        }
        assert(Seq::<EmulatorUserView>::empty() + others =~= others);
        Ok(users)
    }

    /// The accounts that an administrator looks for.
    pub fn admin_lookup(&self, project_id: &str, request: &AdminLookupRequest) -> (r: Vec<
        EmulatorUser,
    >)
        ensures
            r.deep_view() == admin_found(self.deep_view().project(project_id@), *request),
    {
        let mut users: Vec<EmulatorUser> = Vec::new();
        assert(users.deep_view() =~= Seq::empty());
        match self.projects.get(project_id) {
            Some(project) => {
                project.append_found(LookupKey::Id, &request.local_id, &mut users);
                assert(users.deep_view() =~= project.deep_view().find_given(
                    LookupKey::Id,
                    request.local_id,
                ));
                project.append_found(LookupKey::Email, &request.email, &mut users);
                project.append_found(LookupKey::Phone, &request.phone_number, &mut users);
            },
            None => {
                proof {
                    if let Some(keys) = &request.local_id {
                        nothing_found(LookupKey::Id, keys.deep_view());
                    }
                    if let Some(keys) = &request.email {
                        nothing_found(LookupKey::Email, keys.deep_view());
                    }
                    if let Some(keys) = &request.phone_number {
                        nothing_found(LookupKey::Phone, keys.deep_view());
                    }
                    assert(users.deep_view() =~= admin_found(
                        self.deep_view().project(project_id@),
                        *request,
                    ));
                }
            },
        }
        users
    }
}

proof fn nothing_found(by: LookupKey, keys: Seq<Seq<char>>)
    ensures
        ProjectView::empty().find_all(by, keys) == Seq::<EmulatorUserView>::empty(),
    decreases keys.len(),
{
    if keys.len() > 0 {
        nothing_found(by, keys.drop_last());
    }
}

proof fn empty_listing<W>()
    ensures
        listing(Map::<Seq<char>, W>::empty()) == Seq::<(Seq<char>, W)>::empty(),
{
    crate::text_map::listing_is(
        Map::<Seq<char>, W>::empty(),
        Seq::<(Seq<char>, W)>::empty(),
    );
}

/// How many accounts a list shows at most.
pub open spec fn accounts_asked(max_results: Option<usize>) -> nat {
    match max_results {
        Some(max) => max as nat,
        None => 1000,
    }
}

/// The first `max` of the accounts of a project.
pub open spec fn first_accounts(p: ProjectView, max: nat) -> Seq<EmulatorUserView> {
    let all = all_shown(p.accounts());
    if all.len() <= max {
        all
    } else {
        all.take(max as int)
    }
}

impl AuthState {
    /// The accounts of a project, at most as many as are asked for, or a thousand.
    pub fn admin_batch_get(&self, project_id: &str, query: &AdminBatchGetQuery) -> (r: Vec<
        EmulatorUser,
    >)
        ensures
            r.deep_view() == first_accounts(
                self.deep_view().project(project_id@),
                accounts_asked(query.max_results),
            ),
    {
        let max: usize = match query.max_results {
            Some(max) => max,
            None => 1000,
        };
        match self.projects.get(project_id) {
            Some(project) => project.list_accounts(max),
            None => {
                proof {
                    empty_listing::<UserView>();
                }
                let none: Vec<EmulatorUser> = Vec::new();
                assert(none.deep_view() =~= all_shown(ProjectView::empty().accounts()));
                none
            },
        }
    }

    /// All accounts of a project.
    pub fn list_accounts(&self, project_id: &str) -> (r: Vec<EmulatorUser>)
        ensures
            r.deep_view() == all_shown(self.deep_view().project(project_id@).accounts()),
    {
        match self.projects.get(project_id) {
            Some(project) => {
                let count: usize = project.users_by_id.len();
                project.list_accounts(count)
            },
            None => {
                proof {
                    empty_listing::<UserView>();
                }
                let none: Vec<EmulatorUser> = Vec::new();
                assert(none.deep_view() =~= all_shown(ProjectView::empty().accounts()));
                none
            },
        }
    }

    /// Forgets all that a project holds.
    pub fn reset_project_accounts(&mut self, project_id: &str)
        ensures
            final(self).deep_view() == without_project(old(self).deep_view(), project_id@),
            valid(old(self).deep_view()) ==> valid(final(self).deep_view()),
    {
        proof {
            if valid(self.deep_view()) {
                reset_keeps_valid(self.deep_view(), project_id@);
            }
        }
        self.projects.remove(project_id);
    }

    /// The mailed codes of a project that wait to be used.
    pub fn list_oob_codes(&self, project_id: &str) -> (r: Vec<EmulatorOobCode>)
        ensures
            r.deep_view() == listing(
                self.deep_view().project(project_id@).oob_codes,
            ).map_values(|pair: (Seq<char>, OobCodeView)| shown_oob_code(pair.0, pair.1)),
    {
        match self.projects.get(project_id) {
            Some(project) => project.list_oob_codes(),
            None => {
                proof {
                    empty_listing::<OobCodeView>();
                }
                let none: Vec<EmulatorOobCode> = Vec::new();
                assert(none.deep_view() =~= Seq::<(Seq<char>, OobCodeView)>::empty().map_values(
                    |pair: (Seq<char>, OobCodeView)| shown_oob_code(pair.0, pair.1),
                ));
                none
            },
        }
    }

    /// The codes of a project that were sent to phones and wait to be used.
    pub fn list_verification_codes(&self, project_id: &str) -> (r: Vec<EmulatorVerificationCode>)
        ensures
            r.deep_view() == in_sequence(
                listing(self.deep_view().project(project_id@).verification_codes),
            ).map_values(|code: SentCode| shown_verification_code(code.0, code.1)),
    {
        match self.projects.get(project_id) {
            Some(project) => project.list_verification_codes(),
            None => {
                proof {
                    empty_listing::<crate::auth::records::VerificationView>();
                }
                let none: Vec<EmulatorVerificationCode> = Vec::new();
                assert(none.deep_view() =~= Seq::<SentCode>::empty().map_values(
                    |code: SentCode| shown_verification_code(code.0, code.1),
                ));
                none
            },
        }
    }
}

/// The state after a project was forgotten.
pub open spec fn without_project(v: AuthView, project_id: Seq<char>) -> AuthView {
    AuthView { projects: v.projects.remove(project_id), ..v }
}

/// What a mailed code stands for.
pub open spec fn oob_action_outcome(v: AuthView, query: OobActionQuery) -> Result<
    OobActionView,
    AuthError,
> {
    let project_id = match query.project_id {
        Some(project_id) => project_id@,
        None => v.default_project,
    };
    match query.oob_code {
        None => Err(AuthError::MissingOobCode),
        Some(code) => if !v.project(project_id).oob_codes.contains_key(code@) {
            Err(AuthError::InvalidOobCode)
        } else {
            let record = v.project(project_id).oob_codes[code@];
            Ok(
                OobActionView {
                    mode: match query.mode {
                        Some(mode) => mode@,
                        None => "action"@,
                    },
                    oob_code: code@,
                    project_id,
                    email: record.email,
                    request_type: record.request_type,
                },
            )
        },
    }
}

impl AuthState {
    /// What a mailed code stands for.
    pub fn oob_action(&self, query: &OobActionQuery) -> (r: Result<OobActionResponse, AuthError>)
        ensures
            outcome(r) == oob_action_outcome(self.deep_view(), *query),
    {
        let project_id = match &query.project_id {
            Some(project_id) => project_id.clone(),
            None => self.default_project_id.clone(),
        };
        let code = match &query.oob_code {
            Some(code) => code.clone(),
            None => {
                return Err(AuthError::MissingOobCode);
            },
        };
        match self.projects.get(project_id.as_str()) {
            Some(project) => match project.oob_codes.get(code.as_str()) {
                Some(record) => Ok(
                    OobActionResponse {
                        mode: match &query.mode {
                            Some(mode) => mode.clone(),
                            None => "action".to_owned(),
                        },
                        email: record.email.clone(),
                        request_type: record.request_type.clone(),
                        oob_code: code,
                        project_id,
                    },
                ),
                None => Err(AuthError::InvalidOobCode),
            },
            None => Err(AuthError::InvalidOobCode),
        }
    }
}

/// Whether a project has an account.
pub open spec fn has_account(v: AuthView, project_id: Seq<char>, local_id: Seq<char>) -> bool {
    v.project(project_id).users.contains_key(local_id)
}

/// The state after an account was to be deleted.
pub open spec fn deleted(v: AuthView, project_id: Seq<char>, local_id: Seq<char>) -> AuthView {
    if has_account(v, project_id, local_id) {
        v.with_project(project_id, without_account(v.project(project_id), local_id))
    } else {
        v
    }
}

/// What comes of the deletion of an account.
pub open spec fn delete_outcome(v: AuthView, project_id: Seq<char>, local_id: Seq<char>) -> Result<
    (),
    AuthError,
> {
    if has_account(v, project_id, local_id) {
        Ok(())
    } else {
        Err(AuthError::UserNotFound)
    }
}

/// The account that a client's request would delete.
pub open spec fn delete_target(v: AuthView, request: DeleteRequest) -> Result<Seq<char>, AuthError> {
    match (request.local_id, request.id_token) {
        (Some(local_id), _) => Ok(local_id@),
        (None, Some(token)) => match client_claims(v, token@) {
            Some(claims) => Ok(claims.local_id),
            None => Err(AuthError::InvalidIdToken),
        },
        (None, None) => Err(AuthError::MissingLocalId),
    }
}

/// The state after several accounts were to be deleted.
pub open spec fn batch_deleted(v: AuthView, project_id: Seq<char>, ids: Seq<Seq<char>>) -> AuthView
    decreases ids.len(),
{
    if ids.len() == 0 {
        v
    } else {
        deleted(batch_deleted(v, project_id, ids.drop_last()), project_id, ids.last())
    }
}

/// Which of several accounts could not be deleted.
pub open spec fn batch_errors(v: AuthView, project_id: Seq<char>, ids: Seq<Seq<char>>) -> Seq<
    BatchDeleteErrorView,
>
    decreases ids.len(),
{
    if ids.len() == 0 {
        Seq::empty()
    } else {
        let before = batch_errors(v, project_id, ids.drop_last());
        if has_account(
            batch_deleted(v, project_id, ids.drop_last()),
            project_id,
            ids.last(),
        ) {
            before
        } else {
            before.push(
                BatchDeleteErrorView {
                    index: (ids.len() - 1) as nat,
                    local_id: ids.last(),
                    message: "USER_NOT_FOUND"@,
                },
            )
        }
    }
}

impl AuthState {
    /// Deletes an account and all that was under way for it.
    pub fn delete_account(&mut self, project_id: &str, local_id: &str) -> (r: Result<(), AuthError>)
        ensures
            final(self).deep_view() == deleted(old(self).deep_view(), project_id@, local_id@),
            r == delete_outcome(old(self).deep_view(), project_id@, local_id@),
            valid(old(self).deep_view()) ==> valid(final(self).deep_view()),
    {
        let ghost before = self.deep_view();
        proof {
            if valid(before) {
                deletion_keeps_valid(before, project_id@, local_id@);
            }
        }
        match self.projects.remove(project_id) {
            Some(mut project) => {
                let r = project.delete_account(local_id);
                self.projects.insert(project_id.to_owned(), project);
                proof {
                    let p = project.deep_view();
                    assert(before.projects.remove(project_id@).insert(project_id@, p)
                        =~= before.projects.insert(project_id@, p));
                    if r is Err {
                        assert(before.projects.insert(project_id@, p) =~= before.projects);
                    }
                }
                match r {
                    Ok(_) => Ok(()),
                    Err(e) => Err(e),
                }
            },
            None => {
                assert(before.projects.remove(project_id@) =~= before.projects);
                Err(AuthError::UserNotFound)
            },
        }
    }

    /// Deletes an account for a client.
    pub fn delete_identity_account(&mut self, request: &DeleteRequest) -> (r: Result<(), AuthError>)
        ensures
            match delete_target(old(self).deep_view(), *request) {
                Ok(local_id) => {
                    let v = old(self).deep_view();
                    final(self).deep_view() == deleted(v, v.default_project, local_id) && r
                        == delete_outcome(v, v.default_project, local_id)
                },
                Err(e) => final(self).deep_view() == old(self).deep_view() && r == Err::<
                    (),
                    AuthError,
                >(e),
            },
    {
        let local_id = match (&request.local_id, &request.id_token) {
            (Some(local_id), _) => local_id.clone(),
            (None, Some(token)) => match self.parse_client_token_claims(token.as_str()) {
                Ok(claims) => claims.local_id,
                Err(e) => {
                    return Err(e);
                },
            },
            (None, None) => {
                return Err(AuthError::MissingLocalId);
            },
        };
        let project_id = self.default_project_id.clone();
        self.delete_account(project_id.as_str(), local_id.as_str())
    }

    /// Deletes several accounts and tells which could not be; nothing happens without force.
    pub fn admin_batch_delete_users(
        &mut self,
        project_id: &str,
        request: &AdminBatchDeleteRequest,
    ) -> (r: Result<Vec<BatchDeleteError>, AuthError>)
        ensures
            ended(*final(self), r) == if request.force == Some(true) {
                (
                    batch_deleted(
                        old(self).deep_view(),
                        project_id@,
                        request.local_ids.deep_view(),
                    ),
                    Ok(
                        batch_errors(
                            old(self).deep_view(),
                            project_id@,
                            request.local_ids.deep_view(),
                        ),
                    ),
                )
            } else {
                (old(self).deep_view(), Err(AuthError::MissingForce))
            },
    {
        let forced = match request.force {
            Some(force) => force,
            None => false,
        };
        if !forced {
            return Err(AuthError::MissingForce);
        }
        let ghost before = self.deep_view();
        let ghost ids = request.local_ids.deep_view();
        let mut errors: Vec<BatchDeleteError> = Vec::new();
        let mut i: usize = 0;
        assert(ids.take(0) =~= Seq::empty());
        assert(errors.deep_view() =~= Seq::empty());
        while i < request.local_ids.len()
            invariant
                i <= request.local_ids@.len(),
                before == old(self).deep_view(),
                ids == request.local_ids.deep_view(),
                self.deep_view() == batch_deleted(before, project_id@, ids.take(i as int)),
                errors.deep_view() == batch_errors(before, project_id@, ids.take(i as int)),
            decreases request.local_ids@.len() - i,
        {
            let ghost so_far = errors.deep_view();
            assert(ids.take(i + 1).drop_last() =~= ids.take(i as int));
            assert(ids.take(i + 1).last() == request.local_ids@[i as int]@);
            if self.delete_account(project_id, request.local_ids[i].as_str()).is_err() {
                let error = BatchDeleteError {
                    index: i,
                    local_id: request.local_ids[i].clone(),
                    message: "USER_NOT_FOUND",
                };
                let ghost shown_error = error.deep_view();
                errors.push(error);
                assert(errors.deep_view() =~= so_far.push(shown_error));
            }
            i += 1;
        }
        assert(ids.take(i as int) =~= ids);
        Ok(errors)
    }
}

} // verus!
