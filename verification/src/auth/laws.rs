//! What holds of accounts over several requests.

use crate::auth::accounts::{
    admin_create_refusal, admin_created_user, normal_email, secs, sign_up_refusal, signed_up_user,
};
use crate::auth::actions::{identity_step, IdentityCall};
use crate::auth::directory::LookupKey;
use crate::auth::errors::AuthError;
use crate::auth::provider::{form_fields, idp_identity};
use crate::auth::queries::{batch_deleted, lookup_outcome, refresh_outcome};
use crate::auth::records::ProjectView;
use crate::auth::requests::{
    AdminCreateRequest, AdminUpdateRequest, CustomTokenRequest, EmailLinkRequest, IdpRequest,
    LookupRequest, MfaEnrollmentFinalizeRequest, MfaEnrollmentStartRequest,
    MfaSignInFinalizeRequest, MfaSignInStartRequest, RefreshTokenRequest, SendOobCodeRequest,
    SignInRequest, SignUpRequest,
};
use crate::auth::responses::{
    shown, signed_in, tokens_work, AuthResponseView, EmulatorUserView, MfaResponseView,
    PasswordResponseView, SecureTokenView,
};
use crate::auth::second_factor::{bearer_refusal, factor_named, sms_session};
use crate::auth::sign_in::{logged_in, oob_code, password_refusal, pending_credential};
use crate::auth::soundness::normal_email_idempotent;
use crate::auth::state::{
    admin_create_step, admin_update_step, client_claims, custom_token_step, email_link_step,
    enrollment_end_step, enrollment_start_step, first_pending, idp_step, mfa_end_step,
    mfa_start_step, password_step, pending_project, send_oob_step, sign_up_step, AuthView,
};
use crate::auth::tokens::{custom_subject, refresh_claims_of};
use crate::auth::validity::{requests_keep_valid, valid};
use crate::digest::{password_digest, session_code};
use crate::fresh::DrawView;
use crate::text_map::listing;
use vstd::prelude::*;

verus! {

/// The project that a request may change, if any.
pub open spec fn target(v: AuthView, call: IdentityCall) -> Option<Seq<char>> {
    match call {
        IdentityCall::Lookup(_) => None,
        IdentityCall::Refresh(_) => None,
        IdentityCall::AdminLookup(_, _) => None,
        IdentityCall::AdminCreate(project_id, _) => Some(project_id@),
        IdentityCall::AdminUpdate(project_id, _) => Some(project_id@),
        IdentityCall::AdminDelete(project_id, _) => Some(project_id@),
        IdentityCall::AdminBatchDelete(project_id, _) => Some(project_id@),
        IdentityCall::AdminSendOobCode(project_id, _) => Some(project_id@),
        IdentityCall::StartSignIn(request) => pending_project(v, request.mfa_pending_credential@),
        IdentityCall::FinalizeSignIn(request) => pending_project(
            v,
            request.mfa_pending_credential@,
        ),
        _ => Some(v.default_project),
    }
}

/// Whether two states are the same but for one project.
pub open spec fn same_but(v: AuthView, w: AuthView, project_id: Option<Seq<char>>) -> bool {
    &&& w.default_project == v.default_project
    &&& w.persistence_path == v.persistence_path
    &&& forall|id: Seq<char>|
        Some(id) != project_id ==> (#[trigger] w.projects.contains_key(id)
            == v.projects.contains_key(id)) && (v.projects.contains_key(id) ==> w.projects[id]
            == v.projects[id])
}

proof fn batch_stays_in_project(v: AuthView, project_id: Seq<char>, ids: Seq<Seq<char>>)
    ensures
        same_but(v, batch_deleted(v, project_id, ids), Some(project_id)),
    decreases ids.len(),
{
    if ids.len() > 0 {
        batch_stays_in_project(v, project_id, ids.drop_last());
    }
}

/// A request changes at most the project that it is for: clients reach the default project,
/// administrators the one that they name, and a waiting sign-in the one it began in.
pub proof fn requests_stay_in_project(
    v: AuthView,
    auth_base_url: Seq<char>,
    call: IdentityCall,
    d: DrawView,
)
    ensures
        same_but(v, identity_step(v, auth_base_url, call, d).0, target(v, call)),
{
    let after = identity_step(v, auth_base_url, call, d).0;
    let changed = target(v, call);
    if let Some(id) = changed {
        assert(forall|p: ProjectView| same_but(v, #[trigger] v.with_project(id, p), changed));
    }
    match call {
        IdentityCall::AdminBatchDelete(project_id, request) => {
            batch_stays_in_project(v, project_id@, request.local_ids.deep_view());
        },
        IdentityCall::SignUp(request) => {
            assert(same_but(v, after, changed));
        },
        IdentityCall::SignInWithPassword(request) => {
            assert(same_but(v, after, changed));
        },
        IdentityCall::Lookup(request) => {
            assert(same_but(v, after, changed));
        },
        IdentityCall::Delete(request) => {
            assert(same_but(v, after, changed));
        },
        IdentityCall::SignInWithCustomToken(request) => {
            assert(same_but(v, after, changed));
        },
        IdentityCall::SignInWithIdp(request) => {
            assert(same_but(v, after, changed));
        },
        IdentityCall::SendOobCode(request) => {
            assert(same_but(v, after, changed));
        },
        IdentityCall::SignInWithEmailLink(request) => {
            assert(same_but(v, after, changed));
        },
        IdentityCall::AdminCreate(project_id, request) => {
            assert(same_but(v, after, changed));
        },
        IdentityCall::AdminLookup(project_id, request) => {
            assert(same_but(v, after, changed));
        },
        IdentityCall::AdminUpdate(project_id, request) => {
            assert(same_but(v, after, changed));
        },
        IdentityCall::AdminDelete(project_id, request) => {
            assert(same_but(v, after, changed));
        },
        IdentityCall::AdminSendOobCode(project_id, request) => {
            assert(same_but(v, after, changed));
        },
        IdentityCall::Refresh(request) => {
            assert(same_but(v, after, changed));
        },
        IdentityCall::StartEnrollment(request) => {
            assert(same_but(v, after, changed));
        },
        IdentityCall::FinalizeEnrollment(request) => {
            assert(same_but(v, after, changed));
        },
        IdentityCall::StartSignIn(request) => {
            assert(same_but(v, after, changed));
        },
        IdentityCall::FinalizeSignIn(request) => {
            assert(same_but(v, after, changed));
        },
    }
}

/// Whether two states hold the same accounts, codes and waiting sign-ins.
pub open spec fn alike(v: AuthView, w: AuthView) -> bool {
    &&& w.default_project == v.default_project
    &&& w.persistence_path == v.persistence_path
    &&& forall|id: Seq<char>| #[trigger] w.project(id) == v.project(id)
}

/// A request that is refused changes nothing; only a sign-in with a mailed code uses the code up
/// even where it is refused.
pub proof fn refused_changes_nothing(
    v: AuthView,
    auth_base_url: Seq<char>,
    call: IdentityCall,
    d: DrawView,
)
    requires
        !(call is SignInWithEmailLink),
        identity_step(v, auth_base_url, call, d).1 is Err,
    ensures
        alike(v, identity_step(v, auth_base_url, call, d).0),
{
    let after = identity_step(v, auth_base_url, call, d).0;
    assert(forall|id: Seq<char>| alike(v, #[trigger] v.with_project(id, v.project(id))));
    match call {
        IdentityCall::SignUp(request) => {
            assert(alike(v, after));
        },
        IdentityCall::SignInWithPassword(request) => {
            assert(alike(v, after));
        },
        IdentityCall::Delete(request) => {
            assert(alike(v, after));
        },
        IdentityCall::SignInWithCustomToken(request) => {
            assert(alike(v, after));
        },
        IdentityCall::SignInWithIdp(request) => {
            assert(alike(v, after));
        },
        IdentityCall::SendOobCode(request) => {
            assert(alike(v, after));
        },
        IdentityCall::AdminCreate(project_id, request) => {
            assert(alike(v, after));
        },
        IdentityCall::AdminUpdate(project_id, request) => {
            assert(alike(v, after));
        },
        IdentityCall::AdminDelete(project_id, request) => {
            assert(alike(v, after));
        },
        IdentityCall::AdminBatchDelete(project_id, request) => {
            assert(alike(v, after));
        },
        IdentityCall::AdminSendOobCode(project_id, request) => {
            assert(alike(v, after));
        },
        IdentityCall::StartEnrollment(request) => {
            assert(alike(v, after));
        },
        IdentityCall::FinalizeEnrollment(request) => {
            assert(alike(v, after));
        },
        IdentityCall::StartSignIn(request) => {
            assert(alike(v, after));
        },
        IdentityCall::FinalizeSignIn(request) => {
            assert(alike(v, after));
        },
        _ => {},
    }
}

/// Whoever has signed up with an email address and a password can sign in with them, and the
/// address may then be written in another case and with space at its ends.
pub proof fn signed_up_can_sign_in(
    v: AuthView,
    request: SignUpRequest,
    d: DrawView,
    again: SignInRequest,
    d2: DrawView,
)
    requires
        request.email is Some,
        request.password is Some,
        normal_email(request.email->0@).len() > 0,
        sign_up_refusal(v.home(), request) is None,
        normal_email(again.email@) == normal_email(request.email->0@),
        again.password@ == request.password->0@,
    ensures
        password_step(sign_up_step(v, request, d).0, again, d2).1 == Ok::<_, AuthError>(
            PasswordResponseView::SignedIn(
                signed_in(
                    v.default_project,
                    logged_in(signed_up_user(request, d.ids[0], d), d2),
                    again.return_secure_token,
                    secs(d2),
                    d2.ids[0],
                ),
            ),
        ),
{
    let w = sign_up_step(v, request, d).0;
    assert(w.home().users[d.ids[0]] == signed_up_user(request, d.ids[0], d));
}

/// The tokens from a sign-up are good for the account: the ID token is answered with it, and the
/// refresh token with new tokens for it.
pub proof fn signed_up_is_known(
    v: AuthView,
    request: SignUpRequest,
    d: DrawView,
    answer: AuthResponseView,
    lookup: LookupRequest,
    refresh: RefreshTokenRequest,
    d2: DrawView,
)
    requires
        sign_up_refusal(v.home(), request) is None,
        request.return_secure_token != Some(false),
        tokens_work(
            answer,
            v.default_project,
            signed_up_user(request, d.ids[0], d),
            request.return_secure_token,
            secs(d),
        ),
        lookup.id_token is Some,
        lookup.id_token->0@ == answer.id_token,
        lookup.local_id is None,
        refresh.grant_type@ == "refresh_token"@,
        refresh.refresh_token@ == answer.refresh_token,
    ensures
        lookup_outcome(sign_up_step(v, request, d).0, lookup) == Ok::<_, AuthError>(
            seq![shown(signed_up_user(request, d.ids[0], d))],
        ),
        refresh_outcome(sign_up_step(v, request, d).0, refresh, d2) is Ok,
        refresh_outcome(sign_up_step(v, request, d).0, refresh, d2)->Ok_0.user_id == d.ids[0],
{
    let w = sign_up_step(v, request, d).0;
    let user = signed_up_user(request, d.ids[0], d);
    assert(w.home().users[d.ids[0]] == user);
    assert(w.home().find_given(LookupKey::Id, lookup.local_id) =~= Seq::empty());
    assert(seq![shown(user)] + Seq::<EmulatorUserView>::empty() =~= seq![shown(user)]);
}

/// An account that an administrator made is found by its id, its email address and its phone
/// number.
pub proof fn created_is_found(
    v: AuthView,
    project_id: Seq<char>,
    request: AdminCreateRequest,
    d: DrawView,
)
    requires
        admin_create_refusal(v.project(project_id), request, d) is None,
    ensures
        ({
            let p = admin_create_step(v, project_id, request, d).0.project(project_id);
            let user = admin_created_user(request, d);
            &&& p.find(LookupKey::Id, user.local_id) == Some(user)
            &&& p.find(LookupKey::Email, user.email) == Some(user)
            &&& user.phone_number is Some ==> p.find(LookupKey::Phone, user.phone_number->0)
                == Some(user)
        }),
{
    let user = admin_created_user(request, d);
    if let Some(email) = request.email {
        normal_email_idempotent(email@);
    } else {
        normal_email_idempotent(user.local_id + "@admin.local"@);
    }
}

/// A custom token signs in the account of its subject.
pub proof fn subject_signs_in(v: AuthView, request: CustomTokenRequest, d: DrawView)
    requires
        custom_subject(request.token@) is Some,
        v.home().users.contains_key(custom_subject(request.token@)->0)
            ==> v.home().users[custom_subject(request.token@)->0].local_id == custom_subject(
            request.token@,
        )->0,
    ensures
        custom_token_step(v, request, d).1 is Ok,
        custom_token_step(v, request, d).1->Ok_0.local_id == custom_subject(request.token@)->0,
{
}

/// Signing in twice with one identity at a provider signs in one account.
pub proof fn identity_keeps_its_account(
    v: AuthView,
    first: IdpRequest,
    d: DrawView,
    second: IdpRequest,
    d2: DrawView,
)
    requires
        forall|id: Seq<char>| #[trigger]
            v.home().users.contains_key(id) ==> v.home().users[id].local_id == id,
        idp_identity(form_fields(first.post_body@), d) is Some,
        idp_identity(form_fields(second.post_body@), d2) is Some,
        idp_identity(form_fields(first.post_body@), d)->0.provider_id == idp_identity(
            form_fields(second.post_body@),
            d2,
        )->0.provider_id,
        idp_identity(form_fields(first.post_body@), d)->0.raw_id == idp_identity(
            form_fields(second.post_body@),
            d2,
        )->0.raw_id,
    ensures
        idp_step(v, first, d).1 is Ok,
        idp_step(idp_step(v, first, d).0, second, d2).1 is Ok,
        idp_step(idp_step(v, first, d).0, second, d2).1->Ok_0.local_id == idp_step(
            v,
            first,
            d,
        ).1->Ok_0.local_id,
{
}

/// A code that was mailed for a sign-in signs in whoever has the address it was mailed to.
pub proof fn mailed_code_signs_in(
    v: AuthView,
    auth_base_url: Seq<char>,
    send: SendOobCodeRequest,
    d: DrawView,
    link: EmailLinkRequest,
    d2: DrawView,
)
    requires
        send.request_type@ == "EMAIL_SIGNIN"@,
        link.oob_code@ == oob_code(d.ids[0]),
        normal_email(link.email@) == normal_email(send.email@),
    ensures
        send_oob_step(v, v.default_project, auth_base_url, send, d).1 is Ok,
        send_oob_step(v, v.default_project, auth_base_url, send, d).1->Ok_0.oob_code == link.oob_code@,
        email_link_step(
            send_oob_step(v, v.default_project, auth_base_url, send, d).0,
            link,
            d2,
        ).1 is Ok,
{
    reveal_strlit("EMAIL_SIGNIN");
    reveal_strlit("PASSWORD_RESET");
    assert("EMAIL_SIGNIN"@ != "PASSWORD_RESET"@) by {
        assert("EMAIL_SIGNIN"@[0] == 'E' && "PASSWORD_RESET"@[0] == 'P');
    }
    normal_email_idempotent(send.email@);
}

/// A mailed code works at most once: whatever came of its first use, its second is refused.
pub proof fn mailed_code_is_used_up(
    v: AuthView,
    first: EmailLinkRequest,
    d: DrawView,
    second: EmailLinkRequest,
    d2: DrawView,
)
    requires
        second.oob_code@ == first.oob_code@,
    ensures
        email_link_step(email_link_step(v, first, d).0, second, d2).1 == Err::<
            AuthResponseView,
            _,
        >(AuthError::InvalidOobCode),
{
}

proof fn first_pending_is(
    pairs: Seq<(Seq<char>, ProjectView)>,
    credential: Seq<char>,
    project_id: Seq<char>,
)
    requires
        forall|i: int|
            0 <= i < pairs.len() && (#[trigger] pairs[i]).1.pending.contains_key(credential)
                ==> pairs[i].0 == project_id,
    ensures
        first_pending(pairs, credential) == if exists|i: int|
            0 <= i < pairs.len() && (#[trigger] pairs[i]).1.pending.contains_key(credential) {
            Some(project_id)
        } else {
            None
        },
    decreases pairs.len(),
{
    if pairs.len() > 0 && !pairs[0].1.pending.contains_key(credential) {
        let rest = pairs.drop_first();
        assert forall|i: int|
            0 <= i < rest.len() && (#[trigger] rest[i]).1.pending.contains_key(
                credential,
            ) implies rest[i].0 == project_id by {
            assert(rest[i] == pairs[i + 1]);
        }
        first_pending_is(rest, credential, project_id);
        if exists|i: int|
            0 <= i < pairs.len() && (#[trigger] pairs[i]).1.pending.contains_key(credential) {
            let i = choose|i: int|
                0 <= i < pairs.len() && (#[trigger] pairs[i]).1.pending.contains_key(credential);
            assert(rest[i - 1] == pairs[i]);
        }
        if exists|i: int|
            0 <= i < rest.len() && (#[trigger] rest[i]).1.pending.contains_key(credential) {
            let i = choose|i: int|
                0 <= i < rest.len() && (#[trigger] rest[i]).1.pending.contains_key(credential);
            assert(rest[i] == pairs[i + 1]);
        }
    }
}

/// A credential is found in the project of the clients, where it waits there.
pub(crate) proof fn pending_is_found(v: AuthView, credential: Seq<char>)
    requires
        valid(v),
    ensures
        pending_project(v, credential) == if v.home().pending.contains_key(credential) {
            Some(v.default_project)
        } else {
            None
        },
{
    let pairs = listing(v.projects);
    let project_id = v.default_project;
    assert forall|i: int|
        0 <= i < pairs.len() && (#[trigger] pairs[i]).1.pending.contains_key(
            credential,
        ) implies pairs[i].0 == project_id by {
        assert(v.projects.contains_key(pairs[i].0));
    }
    first_pending_is(pairs, credential, project_id);
    if v.home().pending.contains_key(credential) {
        assert(v.projects.contains_key(project_id));
        let i = choose|i: int| 0 <= i < pairs.len() && (#[trigger] pairs[i]).0 == project_id;
        assert(pairs[i].1.pending.contains_key(credential));
    }
}

/// Whether a request and its code end a sign-in that was started.
pub open spec fn ends_sign_in(
    start: MfaSignInStartRequest,
    finish: MfaSignInFinalizeRequest,
    session: Seq<char>,
) -> bool {
    &&& finish.mfa_pending_credential@ == start.mfa_pending_credential@
    &&& finish.phone_verification_info.session_info@ == session
    &&& finish.phone_verification_info.code@ == session_code(session)
}

/// A sign-in with a second factor can be brought to its end: with the credential that the
/// password gave, a phone among the account's factors, and the code that was sent to it.
pub proof fn second_factor_completes(
    v: AuthView,
    password: SignInRequest,
    d: DrawView,
    start: MfaSignInStartRequest,
    d2: DrawView,
    finish: MfaSignInFinalizeRequest,
    d3: DrawView,
)
    requires
        valid(v),
        password_refusal(v.home(), password) is None,
        ({
            let user = v.home().users[v.home().ids_by_email[normal_email(password.email@)]];
            &&& user.valid_since_secs <= secs(d)
            &&& user.mfa_info.len() > 0
            &&& factor_named(user.mfa_info, start.mfa_enrollment_id@) is Some
            &&& factor_named(user.mfa_info, start.mfa_enrollment_id@)->0.phone_info is Some
        }),
        start.mfa_pending_credential@ == pending_credential(d.ids[0]),
        ends_sign_in(start, finish, sms_session(d2.ids[0])),
    ensures
        ({
            let waiting = password_step(v, password, d).0;
            let sent = mfa_start_step(waiting, start, d2);
            let done = mfa_end_step(sent.0, finish, d3);
            &&& sent.1 == Ok::<_, AuthError>(sms_session(d2.ids[0]))
            &&& done.1 is Ok
            &&& done.1->Ok_0.local_id == v.home().ids_by_email[normal_email(password.email@)]
        }),
{
    let credential = pending_credential(d.ids[0]);
    requests_keep_valid(v, Seq::empty(), IdentityCall::SignInWithPassword(password), d);
    let waiting = password_step(v, password, d).0;
    pending_is_found(waiting, credential);
    requests_keep_valid(waiting, Seq::empty(), IdentityCall::StartSignIn(start), d2);
    let sent = mfa_start_step(waiting, start, d2).0;
    pending_is_found(sent, credential);
}

/// A sign-in with a second factor that is refused changes nothing, so that the right code still
/// works after a wrong one. One that is completed works at most once: its session and its
/// credential are used up, and whatever comes with that credential is refused.
pub proof fn second_factor_is_used_up(
    v: AuthView,
    request: MfaSignInFinalizeRequest,
    d: DrawView,
    start: MfaSignInStartRequest,
    finish: MfaSignInFinalizeRequest,
    d2: DrawView,
)
    requires
        valid(v),
        start.mfa_pending_credential@ == request.mfa_pending_credential@,
        finish.mfa_pending_credential@ == request.mfa_pending_credential@,
    ensures
        mfa_end_step(v, request, d).1 is Err ==> mfa_end_step(v, request, d).0 == v,
        mfa_end_step(v, request, d).1 is Ok ==> ({
            let w = mfa_end_step(v, request, d).0;
            &&& !w.home().verification_codes.contains_key(
                request.phone_verification_info.session_info@,
            )
            &&& !w.home().pending.contains_key(request.mfa_pending_credential@)
            &&& mfa_start_step(w, start, d2) == (
                w,
                Err::<Seq<char>, _>(AuthError::InvalidMfaPendingCredential),
            )
            &&& mfa_end_step(w, finish, d2) == (
                w,
                Err::<MfaResponseView, _>(AuthError::InvalidMfaPendingCredential),
            )
        }),
{
    let credential = request.mfa_pending_credential@;
    let w = mfa_end_step(v, request, d).0;
    pending_is_found(v, credential);
    requests_keep_valid(v, Seq::empty(), IdentityCall::FinalizeSignIn(request), d);
    pending_is_found(w, credential);
}

/// The enrollment of a phone can be brought to its end, with the code that was sent to it, and
/// the account then has one more factor.
pub proof fn enrollment_completes(
    v: AuthView,
    start: MfaEnrollmentStartRequest,
    d: DrawView,
    finish: MfaEnrollmentFinalizeRequest,
    d2: DrawView,
)
    requires
        enrollment_start_step(v, start, d).1 is Ok,
        finish.id_token@ == start.id_token@,
        finish.phone_verification_info.session_info@ == enrollment_start_step(
            v,
            start,
            d,
        ).1->Ok_0,
        finish.phone_verification_info.code@ == session_code(
            enrollment_start_step(v, start, d).1->Ok_0,
        ),
    ensures
        ({
            let sent = enrollment_start_step(v, start, d).0;
            let done = enrollment_end_step(sent, finish, d2);
            let local_id = client_claims(v, start.id_token@)->0.local_id;
            &&& done.1 is Ok
            &&& done.0.home().users[local_id].mfa_info.len()
                == v.home().users[local_id].mfa_info.len() + 1
            &&& done.0.home().users[local_id].mfa_info.last().phone_info == Some(
                start.phone_number@,
            )
        }),
{
}

/// A code that is not the one that was sent is refused, whether it is to enroll a phone or to
/// sign in.
pub proof fn wrong_code_is_refused(
    v: AuthView,
    enroll: MfaEnrollmentFinalizeRequest,
    sign_in: MfaSignInFinalizeRequest,
    d: DrawView,
)
    ensures
        enrollment_end_step(v, enroll, d).1 is Ok
            ==> enroll.phone_verification_info.code@
            == v.home().verification_codes[enroll.phone_verification_info.session_info@].code,
        mfa_end_step(v, sign_in, d).1 is Ok ==> sign_in.phone_verification_info.code@ == v.project(
            pending_project(v, sign_in.mfa_pending_credential@)->0,
        ).verification_codes[sign_in.phone_verification_info.session_info@].code,
{
}

/// Whether a refresh token is one of the account in the default project.
pub open spec fn refreshes(v: AuthView, request: RefreshTokenRequest, local_id: Seq<char>) -> bool {
    &&& request.grant_type@ == "refresh_token"@
    &&& refresh_claims_of(request.refresh_token@) is Some
    &&& refresh_claims_of(request.refresh_token@)->0.project_id == v.default_project
    &&& refresh_claims_of(request.refresh_token@)->0.local_id == local_id
}

/// Whether an ID token is one of the account in the default project.
pub open spec fn identifies(v: AuthView, request: LookupRequest, local_id: Seq<char>) -> bool {
    &&& request.id_token is Some
    &&& client_claims(v, request.id_token->0@) is Some
    &&& client_claims(v, request.id_token->0@)->0.local_id == local_id
}

/// An account that is disabled gets no further: not with its password, its tokens or its second
/// factor.
pub proof fn disabled_is_refused(
    v: AuthView,
    local_id: Seq<char>,
    password: SignInRequest,
    refresh: RefreshTokenRequest,
    lookup: LookupRequest,
    finish: MfaSignInFinalizeRequest,
    d: DrawView,
)
    requires
        v.home().users.contains_key(local_id),
        v.home().users[local_id].disabled,
    ensures
        v.home().ids_by_email.contains_key(normal_email(password.email@))
            && v.home().ids_by_email[normal_email(password.email@)] == local_id ==> password_step(
            v,
            password,
            d,
        ).1 == Err::<PasswordResponseView, _>(AuthError::UserDisabled),
        refreshes(v, refresh, local_id) ==> refresh_outcome(v, refresh, d) == Err::<
            SecureTokenView,
            _,
        >(AuthError::UserDisabled),
        identifies(v, lookup, local_id) ==> lookup_outcome(v, lookup) == Err::<
            Seq<EmulatorUserView>,
            _,
        >(AuthError::UserDisabled),
        pending_project(v, finish.mfa_pending_credential@) == Some(v.default_project)
            && mfa_end_step(v, finish, d).1 is Ok ==> mfa_end_step(v, finish, d).1->Ok_0.local_id
            != local_id,
{
}

/// Tokens from before the time since which an account's tokens are valid are refused.
pub proof fn old_tokens_are_refused(
    v: AuthView,
    local_id: Seq<char>,
    refresh: RefreshTokenRequest,
    lookup: LookupRequest,
    d: DrawView,
)
    requires
        v.home().users.contains_key(local_id),
        !v.home().users[local_id].disabled,
    ensures
        refreshes(v, refresh, local_id) && refresh_claims_of(refresh.refresh_token@)->0.issued_at
            < v.home().users[local_id].valid_since_secs ==> refresh_outcome(v, refresh, d) == Err::<
            SecureTokenView,
            _,
        >(AuthError::TokenExpired),
        identifies(v, lookup, local_id) && client_claims(v, lookup.id_token->0@)->0.issued_at
            < v.home().users[local_id].valid_since_secs ==> lookup_outcome(v, lookup) == Err::<
            Seq<EmulatorUserView>,
            _,
        >(AuthError::TokenExpired),
{
}

/// A new password that an administrator sets is the one that counts from then on, and makes
/// every token from before it invalid, unless the same change sets another time.
pub proof fn new_password_revokes(
    v: AuthView,
    project_id: Seq<char>,
    request: AdminUpdateRequest,
    d: DrawView,
    issued_at: u64,
)
    requires
        request.password is Some,
        request.valid_since is None,
        admin_update_step(v, project_id, request, d).1 is Ok,
        issued_at < secs(d),
    ensures
        ({
            let p = admin_update_step(v, project_id, request, d).0.project(project_id);
            &&& p.users[request.local_id@].password_hash == Some(
                password_digest(request.password->0@),
            )
            &&& bearer_refusal(p, request.local_id@, issued_at) is Some
        }),
{
}

} // verus!
