//! Second factors: how a phone is enrolled, and how it completes a sign-in.

use crate::auth::accounts::secs;
use crate::auth::errors::AuthError;
use crate::auth::records::{
    clone_factors, MfaEnrollment, MfaView, ProjectAuthState, ProjectView, PurposeView, UserRecord,
    UserView, VerificationCodeRecord, VerificationPurpose, VerificationView,
};
use crate::auth::requests::{
    MfaEnrollmentFinalizeRequest, MfaSignInFinalizeRequest, MfaSignInStartRequest,
};
use crate::auth::responses::{factor_tokens_work, outcome, MfaResponse, MfaResponseView};
use crate::auth::sign_in::logged_in;
use crate::auth::tokens::{
    id_token, make_refresh_token, make_refresh_token_with_second_factor, make_token,
    make_token_with_second_factor, refresh_claims_of, refresh_token, refresh_view, token_reads,
    ClaimsView, FactorView, TokenClaims,
};
use crate::calendar::{format_timestamp_ms, timestamp_text};
use crate::digest::{session_code, verification_code};
use crate::fresh::{Draw, DrawView};
use crate::text::{join2, same_text};
use vstd::prelude::*;

verus! {

/// The session under which a code is sent to a phone.
pub open spec fn sms_session(id: Seq<char>) -> Seq<char> {
    "firelite-sms-session-"@ + id
}

/// The project with one more code sent to a phone.
pub open spec fn with_verification_code(
    p: ProjectView,
    phone_number: Seq<char>,
    purpose: PurposeView,
    id: Seq<char>,
) -> ProjectView {
    let sequence = (p.sequence + 1) as u64;
    ProjectView {
        verification_codes: p.verification_codes.insert(
            sms_session(id),
            VerificationView {
                phone_number,
                code: session_code(sms_session(id)),
                sequence,
                purpose,
            },
        ),
        sequence,
        ..p
    }
}

impl ProjectAuthState {
    /// Keeps a code that is sent to a phone and hands out its session.
    pub fn create_verification_code(
        &mut self,
        phone_number: String,
        purpose: VerificationPurpose,
        id: &str,
    ) -> (r: String)
        requires
            old(self).deep_view().sequence < u64::MAX,
        ensures
            r@ == sms_session(id@),
            final(self).deep_view() == with_verification_code(
                old(self).deep_view(),
                phone_number@,
                purpose.deep_view(),
                id@,
            ),
    {
        let session_info = join2("firelite-sms-session-", id);
        let code = verification_code(session_info.as_str());
        self.next_verification_code_sequence = self.next_verification_code_sequence + 1;
        self.verification_codes.insert(
            session_info.clone(),
            VerificationCodeRecord {
                phone_number,
                code,
                sequence: self.next_verification_code_sequence,
                purpose,
            },
        );
        session_info
    }
}

/// Whether one of the second factors is the phone.
pub open spec fn has_phone(factors: Seq<MfaView>, phone_number: Seq<char>) -> bool {
    exists|i: int|
        0 <= i < factors.len() && (#[trigger] factors[i]).phone_info == Some(phone_number)
}

/// The first of the second factors that has that id.
pub open spec fn factor_named(factors: Seq<MfaView>, id: Seq<char>) -> Option<MfaView>
    decreases factors.len(),
{
    if factors.len() == 0 {
        None
    } else if factors[0].mfa_enrollment_id == Some(id) {
        Some(factors[0])
    } else {
        factor_named(factors.drop_first(), id)
    }
}

fn holds_text(given: &Option<String>, wanted: &str) -> (r: bool)
    ensures
        r == (given.deep_view() == Some(wanted@)),
{
    match given {
        Some(text) => same_text(text.as_str(), wanted),
        None => false,
    }
}

fn find_phone(factors: &Vec<MfaEnrollment>, phone_number: &str) -> (r: bool)
    ensures
        r == has_phone(factors.deep_view(), phone_number@),
{
    let mut i: usize = 0;
    while i < factors.len()
        invariant
            i <= factors@.len(),
            forall|j: int|
                0 <= j < i ==> (#[trigger] factors.deep_view()[j]).phone_info != Some(
                    phone_number@,
                ),
        decreases factors@.len() - i,
    {
        if holds_text(&factors[i].phone_info, phone_number) {
            assert(factors.deep_view()[i as int].phone_info == Some(phone_number@));
            return true;
        }
        i += 1;
    }
    false
}

fn find_factor<'a>(factors: &'a Vec<MfaEnrollment>, id: &str) -> (r: Option<&'a MfaEnrollment>)
    ensures
        r.deep_view() == factor_named(factors.deep_view(), id@),
{
    let mut i: usize = 0;
    assert(factors.deep_view().skip(0) =~= factors.deep_view());
    while i < factors.len()
        invariant
            i <= factors@.len(),
            factor_named(factors.deep_view(), id@) == factor_named(
                factors.deep_view().skip(i as int),
                id@,
            ),
        decreases factors@.len() - i,
    {
        assert(factors.deep_view().skip(i as int)[0] == factors@[i as int].deep_view());
        assert(factors.deep_view().skip(i as int).drop_first() =~= factors.deep_view().skip(i + 1));
        if holds_text(&factors[i].mfa_enrollment_id, id) {
            return Some(&factors[i]);
        }
        i += 1;
    }
    None
}

/// Why the bearer of a credential of the time `issued_at` may not act for an account.
pub open spec fn bearer_refusal(p: ProjectView, local_id: Seq<char>, issued_at: u64) -> Option<
    AuthError,
> {
    if !p.users.contains_key(local_id) {
        Some(AuthError::UserNotFound)
    } else if p.users[local_id].disabled {
        Some(AuthError::UserDisabled)
    } else if issued_at < p.users[local_id].valid_since_secs {
        Some(AuthError::TokenExpired)
    } else {
        None
    }
}

impl ProjectAuthState {
    /// The account for which the bearer of a credential of the time `issued_at` may act.
    pub fn bearer(&self, local_id: &str, issued_at: u64) -> (r: Result<&UserRecord, AuthError>)
        ensures
            match bearer_refusal(self.deep_view(), local_id@, issued_at) {
                Some(e) => r == Err::<&UserRecord, AuthError>(e),
                None => r is Ok && r->Ok_0.deep_view() == self.deep_view().users[local_id@],
            },
    {
        match self.users_by_id.get(local_id) {
            Some(user) => {
                if user.disabled {
                    Err(AuthError::UserDisabled)
                } else if issued_at < user.valid_since_secs {
                    Err(AuthError::TokenExpired)
                } else {
                    Ok(user)
                }
            },
            None => Err(AuthError::UserNotFound),
        }
    }
}

/// Why the enrollment of a phone is not started, once the phone number is known to be one.
pub open spec fn enrollment_start_refusal(
    p: ProjectView,
    claims: ClaimsView,
    phone_number: Seq<char>,
) -> Option<AuthError> {
    if bearer_refusal(p, claims.local_id, claims.issued_at) is Some {
        bearer_refusal(p, claims.local_id, claims.issued_at)
    } else if has_phone(p.users[claims.local_id].mfa_info, phone_number) {
        Some(AuthError::SecondFactorExists)
    } else {
        None
    }
}

impl ProjectAuthState {
    /// Starts the enrollment of a phone: sends it a code and hands out the session.
    pub fn start_enrollment(&mut self, claims: &TokenClaims, phone_number: &str, draw: &Draw) -> (r:
        Result<String, AuthError>)
        requires
            draw.ids@.len() >= 1,
            old(self).deep_view().sequence < u64::MAX,
        ensures
            match enrollment_start_refusal(
                old(self).deep_view(),
                claims.deep_view(),
                phone_number@,
            ) {
                Some(e) => r == Err::<String, AuthError>(e) && *final(self) == *old(self),
                None => r is Ok && r->Ok_0@ == sms_session(draw.deep_view().ids[0])
                    && final(self).deep_view() == with_verification_code(
                    old(self).deep_view(),
                    phone_number@,
                    PurposeView::Enrollment { local_id: claims.local_id@ },
                    draw.deep_view().ids[0],
                ),
            },
    {
        let user = match self.bearer(claims.local_id.as_str(), claims.issued_at) {
            Ok(user) => user,
            Err(e) => {
                return Err(e);
            },
        };
        if find_phone(&user.mfa_info, phone_number) {
            return Err(AuthError::SecondFactorExists);
        }
        Ok(
            self.create_verification_code(
                phone_number.to_owned(),
                VerificationPurpose::Enrollment { local_id: claims.local_id.clone() },
                draw.ids[0].as_str(),
            ),
        )
    }
}

/// Why the enrollment of a phone is not completed.
pub open spec fn enrollment_end_refusal(
    p: ProjectView,
    claims: ClaimsView,
    request: MfaEnrollmentFinalizeRequest,
) -> Option<AuthError> {
    let session = request.phone_verification_info.session_info@;
    let sent = p.verification_codes[session];
    if !p.verification_codes.contains_key(session) || sent.purpose != (PurposeView::Enrollment {
        local_id: claims.local_id,
    }) {
        Some(AuthError::InvalidSessionInfo)
    } else if sent.code != request.phone_verification_info.code@ {
        Some(AuthError::InvalidCode)
    } else if bearer_refusal(p, claims.local_id, claims.issued_at) is Some {
        bearer_refusal(p, claims.local_id, claims.issued_at)
    } else if has_phone(p.users[claims.local_id].mfa_info, sent.phone_number) {
        Some(AuthError::SecondFactorExists)
    } else {
        None
    }
}

/// A phone that was just enrolled.
pub open spec fn enrolled_factor(
    request: MfaEnrollmentFinalizeRequest,
    phone_number: Seq<char>,
    d: DrawView,
) -> MfaView {
    MfaView {
        mfa_enrollment_id: Some(d.ids[0]),
        display_name: request.display_name.deep_view(),
        phone_info: Some(phone_number),
        unobfuscated_phone_info: None,
        enrolled_at: Some(timestamp_text(d.now_ms)),
    }
}

/// The account with the phone enrolled.
pub open spec fn enrolled_user(
    p: ProjectView,
    claims: ClaimsView,
    request: MfaEnrollmentFinalizeRequest,
    d: DrawView,
) -> UserView {
    let user = p.users[claims.local_id];
    let sent = p.verification_codes[request.phone_verification_info.session_info@];
    UserView {
        mfa_info: user.mfa_info.push(enrolled_factor(request, sent.phone_number, d)),
        ..user
    }
}

/// The project after the enrollment of a phone: the code is used up.
pub open spec fn with_enrollment(
    p: ProjectView,
    claims: ClaimsView,
    request: MfaEnrollmentFinalizeRequest,
    d: DrawView,
) -> ProjectView {
    ProjectView {
        users: p.users.insert(claims.local_id, enrolled_user(p, claims, request, d)),
        verification_codes: p.verification_codes.remove(
            request.phone_verification_info.session_info@,
        ),
        ..p
    }
}

/// The answer to the enrollment of a phone.
pub open spec fn enrollment_answer(user: UserView, claims: ClaimsView, d: DrawView) -> MfaResponseView {
    MfaResponseView {
        id_token: id_token(claims.project_id, user, None, secs(d)),
        refresh_token: refresh_token(
            claims.project_id,
            claims.local_id,
            None,
            secs(d),
            d.ids[1],
        ),
        local_id: user.local_id,
        email: user.email,
        mfa_info: user.mfa_info,
    }
}

impl ProjectAuthState {
    /// Completes the enrollment of a phone.
    pub fn finish_enrollment(
        &mut self,
        claims: &TokenClaims,
        request: &MfaEnrollmentFinalizeRequest,
        draw: &Draw,
    ) -> (r: Result<MfaResponse, AuthError>)
        requires
            draw.ids@.len() >= 2,
        ensures
            match enrollment_end_refusal(old(self).deep_view(), claims.deep_view(), *request) {
                Some(e) => outcome(r) == Err::<MfaResponseView, AuthError>(e) && *final(self)
                    == *old(self),
                None => {
                    let p = old(self).deep_view();
                    let d = draw.deep_view();
                    let user = enrolled_user(p, claims.deep_view(), *request, d);
                    outcome(r) == Ok::<MfaResponseView, AuthError>(
                        enrollment_answer(user, claims.deep_view(), d),
                    ) && final(self).deep_view() == with_enrollment(
                        p,
                        claims.deep_view(),
                        *request,
                        d,
                    )
                },
            },
            r matches Ok(answer) ==> refresh_claims_of(answer.refresh_token@) == Some(
                refresh_view(claims.project_id@, claims.local_id@, None, secs(draw.deep_view())),
            ) && token_reads(
                answer.id_token@,
                claims.project_id@,
                enrolled_user(
                    old(self).deep_view(),
                    claims.deep_view(),
                    *request,
                    draw.deep_view(),
                ),
                None,
                secs(draw.deep_view()),
            ),
    {
        let session: &str = request.phone_verification_info.session_info.as_str();
        let sent = match self.verification_codes.get(session) {
            Some(sent) => sent,
            None => {
                return Err(AuthError::InvalidSessionInfo);
            },
        };
        match &sent.purpose {
            VerificationPurpose::Enrollment { local_id } => {
                if !same_text(local_id.as_str(), claims.local_id.as_str()) {
                    return Err(AuthError::InvalidSessionInfo);
                }
            },
            VerificationPurpose::SignIn { .. } => {
                return Err(AuthError::InvalidSessionInfo);
            },
        }
        if !same_text(sent.code.as_str(), request.phone_verification_info.code.as_str()) {
            return Err(AuthError::InvalidCode);
        }
        let user = match self.bearer(claims.local_id.as_str(), claims.issued_at) {
            Ok(user) => user,
            Err(e) => {
                return Err(e);
            },
        };
        if find_phone(&user.mfa_info, sent.phone_number.as_str()) {
            return Err(AuthError::SecondFactorExists);
        }
        let factor = MfaEnrollment {
            mfa_enrollment_id: Some(draw.ids[0].clone()),
            display_name: request.display_name.clone(),
            phone_info: Some(sent.phone_number.clone()),
            unobfuscated_phone_info: None,
            enrolled_at: Some(format_timestamp_ms(draw.now_ms)),
        };
        let ghost factors = user.mfa_info.deep_view();
        let ghost added = factor.deep_view();
        let mut record = user.clone();
        record.mfa_info.push(factor);
        assert(record.mfa_info.deep_view() =~= factors.push(added));
        let answer = MfaResponse {
            id_token: make_token(claims.project_id.as_str(), &record, draw.now_ms / 1000),
            refresh_token: make_refresh_token(
                claims.project_id.as_str(),
                claims.local_id.as_str(),
                draw.now_ms / 1000,
                draw.ids[1].as_str(),
            ),
            local_id: record.local_id.clone(),
            email: record.email.clone(),
            mfa_info: clone_factors(&record.mfa_info),
        };
        self.users_by_id.insert(claims.local_id.clone(), record);
        self.verification_codes.remove(session);
        Ok(answer)
    }
}

/// Why a sign-in with a second factor is not started.
pub open spec fn sign_in_start_refusal(p: ProjectView, request: MfaSignInStartRequest) -> Option<
    AuthError,
> {
    let credential = request.mfa_pending_credential@;
    let pending = p.pending[credential];
    if !p.pending.contains_key(credential) {
        Some(AuthError::InvalidMfaPendingCredential)
    } else if bearer_refusal(p, pending.local_id, pending.issued_at) is Some {
        bearer_refusal(p, pending.local_id, pending.issued_at)
    } else {
        match factor_named(p.users[pending.local_id].mfa_info, request.mfa_enrollment_id@) {
            Some(factor) => if factor.phone_info is Some {
                None
            } else {
                Some(AuthError::MfaEnrollmentNotFound)
            },
            None => Some(AuthError::MfaEnrollmentNotFound),
        }
    }
}

/// The project after a sign-in with a second factor was started.
pub open spec fn with_sign_in_code(
    p: ProjectView,
    request: MfaSignInStartRequest,
    d: DrawView,
) -> ProjectView {
    let pending = p.pending[request.mfa_pending_credential@];
    let factor = factor_named(
        p.users[pending.local_id].mfa_info,
        request.mfa_enrollment_id@,
    )->0;
    with_verification_code(
        p,
        factor.phone_info->0,
        PurposeView::SignIn {
            local_id: pending.local_id,
            mfa_pending_credential: request.mfa_pending_credential@,
            mfa_enrollment_id: request.mfa_enrollment_id@,
        },
        d.ids[0],
    )
}

impl ProjectAuthState {
    /// Starts a sign-in with a second factor: sends the phone a code and hands out the session.
    pub fn start_sign_in(&mut self, request: &MfaSignInStartRequest, draw: &Draw) -> (r: Result<
        String,
        AuthError,
    >)
        requires
            draw.ids@.len() >= 1,
            old(self).deep_view().sequence < u64::MAX,
        ensures
            match sign_in_start_refusal(old(self).deep_view(), *request) {
                Some(e) => r == Err::<String, AuthError>(e) && *final(self) == *old(self),
                None => r is Ok && r->Ok_0@ == sms_session(draw.deep_view().ids[0])
                    && final(self).deep_view() == with_sign_in_code(
                    old(self).deep_view(),
                    *request,
                    draw.deep_view(),
                ),
            },
    {
        let credential: &str = request.mfa_pending_credential.as_str();
        let pending = match self.mfa_pending_credentials.get(credential) {
            Some(pending) => pending,
            None => {
                return Err(AuthError::InvalidMfaPendingCredential);
            },
        };
        let user = match self.bearer(pending.local_id.as_str(), pending.issued_at) {
            Ok(user) => user,
            Err(e) => {
                return Err(e);
            },
        };
        let factor = match find_factor(&user.mfa_info, request.mfa_enrollment_id.as_str()) {
            Some(factor) => factor,
            None => {
                return Err(AuthError::MfaEnrollmentNotFound);
            },
        };
        let phone_number = match &factor.phone_info {
            Some(phone_number) => phone_number.clone(),
            None => {
                return Err(AuthError::MfaEnrollmentNotFound);
            },
        };
        let local_id = pending.local_id.clone();
        Ok(
            self.create_verification_code(
                phone_number,
                VerificationPurpose::SignIn {
                    local_id,
                    mfa_pending_credential: request.mfa_pending_credential.clone(),
                    mfa_enrollment_id: request.mfa_enrollment_id.clone(),
                },
                draw.ids[0].as_str(),
            ),
        )
    }
}

/// Why a sign-in with a second factor is not completed.
pub open spec fn sign_in_end_refusal(p: ProjectView, request: MfaSignInFinalizeRequest) -> Option<
    AuthError,
> {
    let session = request.phone_verification_info.session_info@;
    let credential = request.mfa_pending_credential@;
    let sent = p.verification_codes[session];
    let pending = p.pending[credential];
    if !p.verification_codes.contains_key(session) {
        Some(AuthError::InvalidSessionInfo)
    } else {
        match sent.purpose {
            PurposeView::Enrollment { .. } => Some(AuthError::InvalidSessionInfo),
            PurposeView::SignIn { local_id, mfa_pending_credential, mfa_enrollment_id } => {
                if mfa_pending_credential != credential {
                    Some(AuthError::InvalidMfaPendingCredential)
                } else if sent.code != request.phone_verification_info.code@ {
                    Some(AuthError::InvalidCode)
                } else if !p.pending.contains_key(credential) || pending.local_id != local_id {
                    Some(AuthError::InvalidMfaPendingCredential)
                } else if bearer_refusal(p, local_id, pending.issued_at) is Some {
                    bearer_refusal(p, local_id, pending.issued_at)
                } else if factor_named(p.users[local_id].mfa_info, mfa_enrollment_id) is None {
                    Some(AuthError::MfaEnrollmentNotFound)
                } else {
                    None
                }
            },
        }
    }
}

/// The project after a sign-in with a second factor: code and credential are used up.
pub open spec fn with_mfa_login(
    p: ProjectView,
    request: MfaSignInFinalizeRequest,
    local_id: Seq<char>,
    d: DrawView,
) -> ProjectView {
    ProjectView {
        users: p.users.insert(local_id, logged_in(p.users[local_id], d)),
        verification_codes: p.verification_codes.remove(
            request.phone_verification_info.session_info@,
        ),
        pending: p.pending.remove(request.mfa_pending_credential@),
        ..p
    }
}

/// The account that a code signs in, as it is after that.
pub open spec fn mfa_user(
    p: ProjectView,
    request: MfaSignInFinalizeRequest,
    d: DrawView,
) -> UserView {
    let sent = p.verification_codes[request.phone_verification_info.session_info@];
    logged_in(p.users[sent.purpose.user()], d)
}

/// The second factor that a code signs in with.
pub open spec fn mfa_factor(p: ProjectView, request: MfaSignInFinalizeRequest) -> FactorView {
    let sent = p.verification_codes[request.phone_verification_info.session_info@];
    Some(("phone"@, sent.purpose->mfa_enrollment_id))
}

/// The answer to a sign-in with a second factor.
pub open spec fn mfa_answer(
    project_id: Seq<char>,
    user: UserView,
    local_id: Seq<char>,
    mfa_enrollment_id: Seq<char>,
    d: DrawView,
) -> MfaResponseView {
    let factor = Some(("phone"@, mfa_enrollment_id));
    MfaResponseView {
        id_token: id_token(project_id, user, factor, secs(d)),
        refresh_token: refresh_token(project_id, local_id, factor, secs(d), d.ids[0]),
        local_id,
        email: user.email,
        mfa_info: user.mfa_info,
    }
}

impl ProjectAuthState {
    /// Completes a sign-in with a second factor.
    pub fn finish_sign_in(
        &mut self,
        project_id: &str,
        request: &MfaSignInFinalizeRequest,
        draw: &Draw,
    ) -> (r: Result<MfaResponse, AuthError>)
        requires
            draw.ids@.len() >= 1,
        ensures
            match sign_in_end_refusal(old(self).deep_view(), *request) {
                Some(e) => outcome(r) == Err::<MfaResponseView, AuthError>(e) && *final(self)
                    == *old(self),
                None => {
                    let p = old(self).deep_view();
                    let d = draw.deep_view();
                    let sent = p.verification_codes[request.phone_verification_info.session_info@];
                    let local_id = sent.purpose->SignIn_local_id;
                    outcome(r) == Ok::<MfaResponseView, AuthError>(
                        mfa_answer(
                            project_id@,
                            logged_in(p.users[local_id], d),
                            local_id,
                            sent.purpose->mfa_enrollment_id,
                            d,
                        ),
                    ) && final(self).deep_view() == with_mfa_login(p, *request, local_id, d)
                },
            },
            r matches Ok(answer) ==> factor_tokens_work(
                answer.deep_view(),
                project_id@,
                mfa_user(old(self).deep_view(), *request, draw.deep_view()),
                mfa_factor(old(self).deep_view(), *request),
                secs(draw.deep_view()),
            ),
    {
        let session: &str = request.phone_verification_info.session_info.as_str();
        let credential: &str = request.mfa_pending_credential.as_str();
        let sent = match self.verification_codes.get(session) {
            Some(sent) => sent,
            None => {
                return Err(AuthError::InvalidSessionInfo);
            },
        };
        let (local_id, enrollment_id) = match &sent.purpose {
            VerificationPurpose::Enrollment { .. } => {
                return Err(AuthError::InvalidSessionInfo);
            },
            VerificationPurpose::SignIn {
                local_id,
                mfa_pending_credential,
                mfa_enrollment_id,
            } => {
                if !same_text(mfa_pending_credential.as_str(), credential) {
                    return Err(AuthError::InvalidMfaPendingCredential);
                }
                (local_id.clone(), mfa_enrollment_id.clone())
            },
        };
        if !same_text(sent.code.as_str(), request.phone_verification_info.code.as_str()) {
            return Err(AuthError::InvalidCode);
        }
        let issued_at: u64 = match self.mfa_pending_credentials.get(credential) {
            Some(pending) => {
                if !same_text(pending.local_id.as_str(), local_id.as_str()) {
                    return Err(AuthError::InvalidMfaPendingCredential);
                }
                pending.issued_at
            },
            None => {
                return Err(AuthError::InvalidMfaPendingCredential);
            },
        };
        match self.bearer(local_id.as_str(), issued_at) {
            Ok(user) => {
                if find_factor(&user.mfa_info, enrollment_id.as_str()).is_none() {
                    return Err(AuthError::MfaEnrollmentNotFound);
                }
            },
            Err(e) => {
                return Err(e);
            },
        }
        let record = self.log_in(local_id.as_str(), draw);
        let second_factor = Some(("phone", enrollment_id.as_str()));
        let answer = MfaResponse {
            id_token: make_token_with_second_factor(
                project_id,
                &record,
                second_factor,
                draw.now_ms / 1000,
            ),
            refresh_token: make_refresh_token_with_second_factor(
                project_id,
                local_id.as_str(),
                second_factor,
                draw.now_ms / 1000,
                draw.ids[0].as_str(),
            ),
            local_id,
            email: record.email.clone(),
            mfa_info: clone_factors(&record.mfa_info),
        };
        self.verification_codes.remove(session);
        self.mfa_pending_credentials.remove(credential);
        Ok(answer)
    }
}

} // verus!
