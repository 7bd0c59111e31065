//! How a second factor is enrolled, and how a sign-in with one is brought to its end.

use crate::auth::account_laws::{good_for, why_not};
use crate::auth::accounts::is_phone_number;
use crate::auth::errors::AuthError;
use crate::auth::laws::pending_is_found;
use crate::auth::records::{MfaView, ProjectView, PurposeView, UserView};
use crate::auth::requests::{
    MfaEnrollmentFinalizeRequest, MfaEnrollmentStartRequest, MfaSignInFinalizeRequest,
    MfaSignInStartRequest,
};
use crate::auth::responses::MfaResponseView;
use crate::auth::second_factor::factor_named;
use crate::auth::sign_in_laws::only_signed_in;
use crate::auth::state::{
    client_claims, enrollment_end_step, enrollment_start_step, mfa_end_step, mfa_start_step,
    AuthView,
};
use crate::auth::tokens::{id_token, refresh_token};
use crate::auth::validity::valid;
use crate::calendar::timestamp_text;
use crate::decimal::{decimal, zero_padded};
use crate::digest::sha256;
use crate::fresh::DrawView;
use vstd::prelude::*;
use vstd::utf8::encode_utf8;

verus! {

/// Whether a code was sent to a phone under a session: six digits that the session's digest gives,
/// numbered on from the last code of the project. Nothing else of the project changes.
pub open spec fn code_was_sent(
    p: ProjectView,
    q: ProjectView,
    session: Seq<char>,
    phone_number: Seq<char>,
    purpose: PurposeView,
) -> bool {
    let digest = sha256(encode_utf8(session));
    let number = (digest[0] as nat) * 0x100_0000 + (digest[1] as nat) * 0x1_0000 + (digest[2] as nat)
        * 0x100 + (digest[3] as nat);
    let sent = q.verification_codes[session];
    &&& q.verification_codes.contains_key(session)
    &&& sent.phone_number == phone_number
    &&& sent.purpose == purpose
    &&& sent.code == zero_padded(decimal(number % 1_000_000), 6)
    &&& p.sequence < u64::MAX ==> sent.sequence == p.sequence + 1 && q.sequence == p.sequence + 1
    &&& q == (ProjectView {
        verification_codes: p.verification_codes.insert(session, sent),
        sequence: q.sequence,
        ..p
    })
}

/// Whether one of the factors is that phone.
pub open spec fn knows_phone(factors: Seq<MfaView>, phone_number: Seq<char>) -> bool {
    exists|i: int|
        0 <= i < factors.len() && (#[trigger] factors[i]).phone_info == Some(phone_number)
}

/// The bearer of a good token can enroll a phone that they have not enrolled: a code is sent to it.
/// Each reason for which they cannot has its own answer, and changes nothing.
#[verifier::rlimit(50)]
pub proof fn enrollment_sends_code(
    v: AuthView,
    request: MfaEnrollmentStartRequest,
    d: DrawView,
)
    requires
        d.ids.len() >= 1,
    ensures
        ({
            let p = v.home();
            let (w, r) = enrollment_start_step(v, request, d);
            let claims = client_claims(v, request.id_token@);
            let local_id = claims->0.local_id;
            let phone = request.phone_number@;
            let good = good_for(p, local_id, claims->0.issued_at);
            let known = knows_phone(p.users[local_id].mfa_info, phone);
            let session = "firelite-sms-session-"@ + d.ids[0];
            &&& claims is None ==> r == Err::<Seq<char>, _>(AuthError::InvalidIdToken)
            &&& claims is Some && !is_phone_number(phone) ==> r == Err::<Seq<char>, _>(
                AuthError::InvalidPhoneNumber,
            )
            &&& claims is Some && is_phone_number(phone) && !good ==> r == Err::<Seq<char>, _>(
                why_not(p, local_id, claims->0.issued_at),
            )
            &&& claims is Some && is_phone_number(phone) && good && known ==> r == Err::<
                Seq<char>,
                _,
            >(AuthError::SecondFactorExists)
            &&& r is Err ==> w == v
            &&& claims is Some && is_phone_number(phone) && good && !known ==> r == Ok::<
                _,
                AuthError,
            >(session) && code_was_sent(
                p,
                w.home(),
                session,
                phone,
                PurposeView::Enrollment { local_id },
            )
        }),
{
}

/// The code that was sent to enroll a phone adds that phone to the factors of the account it was
/// sent for, and is used up. Each reason for which it does not has its own answer, and changes
/// nothing.
#[verifier::rlimit(50)]
pub proof fn code_enrolls_its_phone(
    v: AuthView,
    request: MfaEnrollmentFinalizeRequest,
    d: DrawView,
)
    requires
        d.now_ms <= u64::MAX,
        d.ids.len() >= 2,
    ensures
        ({
            let p = v.home();
            let (w, r) = enrollment_end_step(v, request, d);
            let q = w.home();
            let claims = client_claims(v, request.id_token@);
            let local_id = claims->0.local_id;
            let session = request.phone_verification_info.session_info@;
            let sent = p.verification_codes[session];
            let his = p.verification_codes.contains_key(session) && sent.purpose == (
            PurposeView::Enrollment { local_id });
            let right = sent.code == request.phone_verification_info.code@;
            let good = good_for(p, local_id, claims->0.issued_at);
            let before = p.users[local_id];
            let after = q.users[local_id];
            let known = knows_phone(before.mfa_info, sent.phone_number);
            let added = after.mfa_info.last();
            let now = (d.now_ms / 1000) as u64;
            let ready = claims is Some && v.projects.contains_key(v.default_project);
            &&& claims is None ==> r == Err::<MfaResponseView, _>(AuthError::InvalidIdToken)
            &&& ready && !his ==> r == Err::<MfaResponseView, _>(AuthError::InvalidSessionInfo)
            &&& ready && his && !right ==> r == Err::<MfaResponseView, _>(AuthError::InvalidCode)
            &&& ready && his && right && !good ==> r == Err::<MfaResponseView, _>(
                why_not(p, local_id, claims->0.issued_at),
            )
            &&& ready && his && right && good && known ==> r == Err::<MfaResponseView, _>(
                AuthError::SecondFactorExists,
            )
            &&& r is Err ==> w == v
            &&& ready && his && right && good && !known ==> {
                &&& r is Ok
                &&& after == (UserView { mfa_info: after.mfa_info, ..before })
                &&& after.mfa_info == before.mfa_info.push(added)
                &&& added.mfa_enrollment_id == Some(d.ids[0])
                &&& added.phone_info == Some(sent.phone_number)
                &&& added.display_name == request.display_name.deep_view()
                &&& added.enrolled_at == Some(timestamp_text(d.now_ms))
                &&& added.unobfuscated_phone_info is None
                &&& q == (ProjectView {
                    users: p.users.insert(local_id, after),
                    verification_codes: p.verification_codes.remove(session),
                    ..p
                })
                &&& r->Ok_0.local_id == after.local_id
                &&& r->Ok_0.email == after.email
                &&& r->Ok_0.mfa_info == after.mfa_info
                &&& r->Ok_0.id_token == id_token(v.default_project, after, None, now)
                &&& r->Ok_0.refresh_token == refresh_token(
                    v.default_project,
                    local_id,
                    None,
                    now,
                    d.ids[1],
                )
            }
        }),
{
}

proof fn factor_is_first_named(factors: Seq<MfaView>, id: Seq<char>)
    ensures
        factor_named(factors, id) is None <==> forall|i: int|
            0 <= i < factors.len() ==> (#[trigger] factors[i]).mfa_enrollment_id != Some(id),
        factor_named(factors, id) is Some ==> exists|i: int| #![trigger factors[i]]
            0 <= i < factors.len() && factors[i] == factor_named(factors, id)->0
                && factors[i].mfa_enrollment_id == Some(id) && forall|j: int|
                0 <= j < i ==> (#[trigger] factors[j]).mfa_enrollment_id != Some(id),
    decreases factors.len(),
{
    if factors.len() > 0 {
        let rest = factors.drop_first();
        factor_is_first_named(rest, id);
        assert forall|i: int| 0 <= i < rest.len() implies rest[i] == factors[i + 1] by {}
        if factors[0].mfa_enrollment_id != Some(id) {
            if factor_named(rest, id) is Some {
                let i = choose|i: int| #![trigger rest[i]]
                    0 <= i < rest.len() && rest[i] == factor_named(rest, id)->0
                        && rest[i].mfa_enrollment_id == Some(id) && forall|j: int|
                        0 <= j < i ==> (#[trigger] rest[j]).mfa_enrollment_id != Some(id);
                assert(factors[i + 1] == rest[i]);
                assert forall|j: int| 0 <= j < i + 1 implies (
                #[trigger] factors[j]).mfa_enrollment_id != Some(id) by {
                    if j > 0 {
                        assert(factors[j] == rest[j - 1]);
                    }
                }
            } else {
                assert forall|i: int| 0 <= i < factors.len() implies (
                #[trigger] factors[i]).mfa_enrollment_id != Some(id) by {
                    if i > 0 {
                        assert(factors[i] == rest[i - 1]);
                    }
                }
            }
        } else {
            assert(factors[0] == factor_named(factors, id)->0);
        }
    }
}

/// Whoever has given their password can have a code sent to a phone among their factors, the first
/// of that id.
#[verifier::rlimit(50)]
pub proof fn sign_in_sends_code(
    v: AuthView,
    request: MfaSignInStartRequest,
    d: DrawView,
    i: int,
)
    requires
        valid(v),
        d.ids.len() >= 1,
    ensures
        ({
            let p = v.home();
            let (w, r) = mfa_start_step(v, request, d);
            let credential = request.mfa_pending_credential@;
            let waiting = p.pending[credential];
            let good = good_for(p, waiting.local_id, waiting.issued_at);
            let factors = p.users[waiting.local_id].mfa_info;
            let id = Some(request.mfa_enrollment_id@);
            let first = 0 <= i < factors.len() && factors[i].mfa_enrollment_id == id && forall|
                j: int,
            |
                0 <= j < i ==> (#[trigger] factors[j]).mfa_enrollment_id != id;
            let nowhere = forall|j: int|
                0 <= j < factors.len() ==> (#[trigger] factors[j]).mfa_enrollment_id != id;
            let session = "firelite-sms-session-"@ + d.ids[0];
            &&& !p.pending.contains_key(credential) ==> r == Err::<Seq<char>, _>(
                AuthError::InvalidMfaPendingCredential,
            )
            &&& p.pending.contains_key(credential) && !good ==> r == Err::<Seq<char>, _>(
                why_not(p, waiting.local_id, waiting.issued_at),
            )
            &&& p.pending.contains_key(credential) && good && nowhere ==> r == Err::<
                Seq<char>,
                _,
            >(AuthError::MfaEnrollmentNotFound)
            &&& p.pending.contains_key(credential) && good && first && factors[i].phone_info is None
                ==> r == Err::<Seq<char>, _>(AuthError::MfaEnrollmentNotFound)
            &&& r is Err ==> w == v
            &&& p.pending.contains_key(credential) && good && first && factors[i].phone_info is Some
                ==> r == Ok::<_, AuthError>(session) && code_was_sent(
                p,
                w.home(),
                session,
                factors[i].phone_info->0,
                PurposeView::SignIn {
                    local_id: waiting.local_id,
                    mfa_pending_credential: credential,
                    mfa_enrollment_id: request.mfa_enrollment_id@,
                },
            )
        }),
{
    let p = v.home();
    let credential = request.mfa_pending_credential@;
    pending_is_found(v, credential);
    let factors = p.users[p.pending[credential].local_id].mfa_info;
    let id = request.mfa_enrollment_id@;
    factor_is_first_named(factors, id);
    if 0 <= i < factors.len() && factors[i].mfa_enrollment_id == Some(id) && (forall|j: int|
        0 <= j < i ==> (#[trigger] factors[j]).mfa_enrollment_id != Some(id)) {
        let k = choose|k: int| #![trigger factors[k]]
            0 <= k < factors.len() && factors[k] == factor_named(factors, id)->0
                && factors[k].mfa_enrollment_id == Some(id) && forall|j: int|
                0 <= j < k ==> (#[trigger] factors[j]).mfa_enrollment_id != Some(id);
        assert(i == k);
    }
}

/// The code that was sent for a sign-in signs in the account that it was sent for, and says so in
/// the tokens; the code and the credential are used up. Each reason for which it does not has its
/// own answer, and changes nothing.
#[verifier::rlimit(50)]
pub proof fn code_signs_in_its_account(
    v: AuthView,
    request: MfaSignInFinalizeRequest,
    d: DrawView,
)
    requires
        valid(v),
        d.now_ms <= u64::MAX,
        d.ids.len() >= 1,
    ensures
        ({
            let p = v.home();
            let (w, r) = mfa_end_step(v, request, d);
            let q = w.home();
            let credential = request.mfa_pending_credential@;
            let session = request.phone_verification_info.session_info@;
            let waiting = p.pending[credential];
            let here = p.pending.contains_key(credential);
            let sent = p.verification_codes[session];
            let known = p.verification_codes.contains_key(session) && sent.purpose is SignIn;
            let local_id = sent.purpose->SignIn_local_id;
            let factor_id = sent.purpose->mfa_enrollment_id;
            let same = sent.purpose->mfa_pending_credential == credential;
            let right = sent.code == request.phone_verification_info.code@;
            let his = waiting.local_id == local_id;
            let good = good_for(p, local_id, waiting.issued_at);
            let factors = p.users[local_id].mfa_info;
            let has_factor = exists|i: int|
                0 <= i < factors.len() && (#[trigger] factors[i]).mfa_enrollment_id == Some(
                    factor_id,
                );
            let factor = Some(("phone"@, factor_id));
            let after = q.users[local_id];
            let now = (d.now_ms / 1000) as u64;
            &&& !here ==> r == Err::<MfaResponseView, _>(AuthError::InvalidMfaPendingCredential)
            &&& here && !known ==> r == Err::<MfaResponseView, _>(AuthError::InvalidSessionInfo)
            &&& here && known && !same ==> r == Err::<MfaResponseView, _>(
                AuthError::InvalidMfaPendingCredential,
            )
            &&& here && known && same && !right ==> r == Err::<MfaResponseView, _>(
                AuthError::InvalidCode,
            )
            &&& here && known && same && right && !his ==> r == Err::<MfaResponseView, _>(
                AuthError::InvalidMfaPendingCredential,
            )
            &&& here && known && same && right && his && !good ==> r == Err::<MfaResponseView, _>(
                why_not(p, local_id, waiting.issued_at),
            )
            &&& here && known && same && right && his && good && !has_factor ==> r == Err::<
                MfaResponseView,
                _,
            >(AuthError::MfaEnrollmentNotFound)
            &&& r is Err ==> w == v
            &&& here && known && same && right && his && good && has_factor ==> {
                &&& r is Ok
                &&& r->Ok_0.local_id == local_id
                &&& r->Ok_0.email == after.email
                &&& r->Ok_0.mfa_info == after.mfa_info
                &&& r->Ok_0.id_token == id_token(v.default_project, after, factor, now)
                &&& r->Ok_0.refresh_token == refresh_token(
                    v.default_project,
                    local_id,
                    factor,
                    now,
                    d.ids[0],
                )
                &&& only_signed_in(p.users[local_id], after, d.now_ms)
                &&& q == (ProjectView {
                    users: p.users.insert(local_id, after),
                    verification_codes: p.verification_codes.remove(session),
                    pending: p.pending.remove(credential),
                    ..p
                })
            }
        }),
{
    let p = v.home();
    pending_is_found(v, request.mfa_pending_credential@);
    let sent = p.verification_codes[request.phone_verification_info.session_info@];
    if sent.purpose is SignIn {
        factor_is_first_named(
            p.users[sent.purpose->SignIn_local_id].mfa_info,
            sent.purpose->mfa_enrollment_id,
        );
    }
}

} // verus!
