//! What a project finds its accounts by, and that it stays sound.

use crate::auth::accounts::{
    admin_create_refusal, admin_created_user, admin_update_refusal, admin_updated, normal_email,
    providers_left, signed_up_user, updated_user, with_account, with_admin_account,
    with_phone_provider, without_phone_providers,
};
use crate::auth::actions::{identity_step, IdentityCall};
use crate::auth::directory::{loaded, with_providers, without_account, without_providers};
use crate::auth::provider::{
    form_fields, idp_identity, idp_user, sanitized, with_idp_user, IdpIdentity,
};
use crate::auth::queries::{batch_deleted, delete_target, deleted, has_account};
use crate::auth::records::{ProjectView, ProviderView, UserView};
use crate::auth::requests::{
    AdminCreateRequest, AdminUpdateRequest, EmailLinkRequest, MfaEnrollmentFinalizeRequest,
    MfaSignInFinalizeRequest, SignUpRequest,
};
use crate::auth::second_factor::{
    enrolled_user, sign_in_end_refusal, with_enrollment, with_mfa_login,
};
use crate::auth::sign_in::{
    custom_token_email, email_link_project, email_link_user, logged_in, password_refusal,
    with_login, with_user, without_oob_code,
};
use crate::auth::state::{client_claims, kept, loaded_projects, pending_project, AuthView};
use crate::auth::tokens::{custom_subject, ClaimsView};
use crate::auth::validity::{after_steps, reached_is_valid, valid, AuthStep};
use crate::fresh::DrawView;
use crate::text_map::{can_list, listing};
use crate::text_order::{text_lt, text_lt_irreflexive};
use crate::trim::{is_space, lower_case, trimmed, without_leading_space, without_trailing_space};
use vstd::prelude::*;

verus! {

/// Whether a text has no white space at its ends.
spec fn clean_ends(s: Seq<char>) -> bool {
    s.len() > 0 ==> !is_space(s[0]) && !is_space(s.last())
}

proof fn leading_space_gone(s: Seq<char>)
    ensures
        without_leading_space(s).len() > 0 ==> !is_space(without_leading_space(s)[0]),
    decreases s.len(),
{
    if s.len() > 0 && is_space(s[0]) {
        leading_space_gone(s.drop_first());
    }
}

proof fn trailing_space_gone(s: Seq<char>)
    ensures
        without_trailing_space(s).is_prefix_of(s),
        without_trailing_space(s).len() > 0 ==> !is_space(without_trailing_space(s).last()),
    decreases s.len(),
{
    if s.len() > 0 && is_space(s.last()) {
        trailing_space_gone(s.drop_last());
    }
}

proof fn trimmed_is_clean(s: Seq<char>)
    ensures
        clean_ends(trimmed(s)),
{
    let t = without_leading_space(s);
    leading_space_gone(s);
    trailing_space_gone(t);
    let r = without_trailing_space(t);
    if r.len() > 0 {
        assert(r[0] == t.subrange(0, r.len() as int)[0]);
    }
}

/// Normalizing an email address twice is normalizing it once.
pub proof fn normal_email_idempotent(email: Seq<char>)
    ensures
        normal_email(normal_email(email)) == normal_email(email),
{
    let t = trimmed(email);
    let r = lower_case(t);
    trimmed_is_clean(email);
    assert(clean_ends(r));
    assert(trimmed(r) == r);
    assert(lower_case(r) =~= r);
}

/// Whether an account has an identity at a provider.
pub open spec fn has_identity(user: UserView, key: (Seq<char>, Seq<char>)) -> bool {
    exists|i: int|
        0 <= i < user.providers.len() && (#[trigger] user.providers[i]).provider_id == key.0
            && user.providers[i].raw_id == key.1
}

/// Whether each id finds the account of that id.
pub open spec fn ids_sound(p: ProjectView) -> bool {
    forall|id: Seq<char>| #[trigger] p.users.contains_key(id) ==> p.users[id].local_id == id
}

/// Whether each email address finds an account that has it. The empty one, which an account can
/// be made under, is left out: a deletion forgets every address but that one.
pub open spec fn emails_sound(p: ProjectView) -> bool {
    forall|e: Seq<char>| #[trigger]
        p.ids_by_email.contains_key(e) && e.len() > 0 ==> p.users.contains_key(p.ids_by_email[e])
            && normal_email(p.users[p.ids_by_email[e]].email) == e
}

/// Whether each phone number finds an account that has it.
pub open spec fn phones_sound(p: ProjectView) -> bool {
    forall|n: Seq<char>| #[trigger]
        p.ids_by_phone.contains_key(n) ==> p.users.contains_key(p.ids_by_phone[n])
            && p.users[p.ids_by_phone[n]].phone_number == Some(n)
}

/// Whether each identity at a provider finds an account that has it. Identities at a provider by
/// the name of `phone` are left out: the phone number of an account takes their place.
pub open spec fn identities_sound(p: ProjectView) -> bool {
    forall|key: (Seq<char>, Seq<char>)| #[trigger]
        p.ids_by_provider.contains_key(key) && key.0 != "phone"@ ==> p.users.contains_key(
            p.ids_by_provider[key],
        ) && has_identity(p.users[p.ids_by_provider[key]], key)
}

/// Whether what a project finds its accounts by is sound.
pub open spec fn sound(p: ProjectView) -> bool {
    &&& ids_sound(p)
    &&& emails_sound(p)
    &&& phones_sound(p)
    &&& identities_sound(p)
}

/// A project that nobody has used is sound.
pub proof fn empty_is_sound()
    ensures
        sound(ProjectView::empty()),
{
}

/// A new account under an id that is not in use leaves the project sound.
pub proof fn account_keeps_sound(p: ProjectView, user: UserView)
    requires
        sound(p),
        !p.users.contains_key(user.local_id),
        normal_email(user.email) == user.email,
    ensures
        sound(with_account(p, user)),
{
}

/// Signing up keeps a project sound.
pub proof fn sign_up_keeps_sound(p: ProjectView, request: SignUpRequest, id: Seq<char>, d: DrawView)
    requires
        sound(p),
        !p.users.contains_key(id),
    ensures
        sound(with_account(p, signed_up_user(request, id, d))),
{
    if let Some(email) = request.email {
        normal_email_idempotent(email@);
    }
    empty_is_normal();
    account_keeps_sound(p, signed_up_user(request, id, d));
}

proof fn empty_is_normal()
    ensures
        normal_email(Seq::empty()) == Seq::<char>::empty(),
{
    let none: Seq<char> = Seq::empty();
    assert(trimmed(none) == none);
    assert(lower_case(none) =~= none);
}

/// An account that an administrator makes keeps a project sound.
pub proof fn admin_create_keeps_sound(p: ProjectView, request: AdminCreateRequest, d: DrawView)
    requires
        sound(p),
        admin_create_refusal(p, request, d) is None,
    ensures
        sound(with_admin_account(p, admin_created_user(request, d))),
{
    let user = admin_created_user(request, d);
    if let Some(email) = request.email {
        normal_email_idempotent(email@);
    } else {
        normal_email_idempotent(user.local_id + "@admin.local"@);
    }
    let q = with_admin_account(p, user);
    assert forall|n: Seq<char>| #[trigger] q.ids_by_phone.contains_key(n) implies q.users.contains_key(
        q.ids_by_phone[n],
    ) && q.users[q.ids_by_phone[n]].phone_number == Some(n) by {
        if user.phone_number != Some(n) {
            assert(p.ids_by_phone.contains_key(n));
        }
    }
}

proof fn phone_provider_keeps_others(
    providers: Seq<ProviderView>,
    phone_number: Seq<char>,
    at: int,
)
    requires
        0 <= at < providers.len(),
        providers[at].provider_id != "phone"@,
    ensures
        with_phone_provider(providers, phone_number).contains(providers[at]),
    decreases providers.len(),
{
    let rest = providers.drop_first();
    let changed = with_phone_provider(providers, phone_number);
    if at == 0 {
        assert(changed[0] == providers[0]);
    } else if providers[0].provider_id == "phone"@ {
        assert(changed[at] == rest[at - 1]);
    } else {
        phone_provider_keeps_others(rest, phone_number, at - 1);
        let after = with_phone_provider(rest, phone_number);
        let i = choose|i: int| 0 <= i < after.len() && after[i] == rest[at - 1];
        assert(changed[i + 1] == providers[at]);
    }
}

proof fn dropping_phone_keeps_others(providers: Seq<ProviderView>, at: int)
    requires
        0 <= at < providers.len(),
        providers[at].provider_id != "phone"@,
    ensures
        without_phone_providers(providers).contains(providers[at]),
    decreases providers.len(),
{
    reveal(Seq::filter);
    let keep = |p: ProviderView| p.provider_id != "phone"@;
    let rest = providers.drop_last();
    let kept = rest.filter(keep);
    if at == providers.len() - 1 {
        assert(providers.filter(keep) == kept.push(providers.last()));
        assert(providers.filter(keep)[kept.len() as int] == providers[at]);
    } else {
        assert(rest[at] == providers[at]);
        dropping_phone_keeps_others(rest, at);
        let i = choose|i: int| 0 <= i < kept.len() && kept[i] == rest[at];
        assert(providers.filter(keep)[i] == providers[at]);
    }
}

proof fn update_keeps_identity(
    user: UserView,
    request: AdminUpdateRequest,
    d: DrawView,
    key: (Seq<char>, Seq<char>),
)
    requires
        has_identity(user, key),
        key.0 != "phone"@,
    ensures
        has_identity(updated_user(user, request, d), key),
{
    let at = choose|i: int|
        0 <= i < user.providers.len() && (#[trigger] user.providers[i]).provider_id == key.0
            && user.providers[i].raw_id == key.1;
    let one = user.providers[at];
    let left = providers_left(user, request);
    if left != user.providers {
        dropping_phone_keeps_others(user.providers, at);
    }
    assert(left.contains(one)) by {
        assert(user.providers[at] == one);
    }
    let i = choose|i: int| 0 <= i < left.len() && left[i] == one;
    let changed = updated_user(user, request, d).providers;
    if let Some(phone_number) = request.phone_number {
        phone_provider_keeps_others(left, phone_number@, i);
    }
    assert(changed.contains(one)) by {
        assert(left[i] == one);
    }
    let j = choose|j: int| 0 <= j < changed.len() && changed[j] == one;
    assert(changed[j].provider_id == key.0 && changed[j].raw_id == key.1);
}

/// An administrator's change keeps a project sound.
pub proof fn admin_update_keeps_sound(p: ProjectView, request: AdminUpdateRequest, d: DrawView)
    requires
        sound(p),
        admin_update_refusal(p, request) is None,
    ensures
        sound(admin_updated(p, request, d)),
{
    let id = request.local_id@;
    let user = p.users[id];
    let q = admin_updated(p, request, d);
    let changed = q.users[id];
    assert(changed.local_id == user.local_id && changed.email == user.email);
    assert forall|n: Seq<char>| #[trigger] q.ids_by_phone.contains_key(n) implies q.users.contains_key(
        q.ids_by_phone[n],
    ) && q.users[q.ids_by_phone[n]].phone_number == Some(n) by {
        if request.phone_number is Some && request.phone_number->0@ == n {
            assert(q.ids_by_phone[n] == id);
        } else {
            assert(p.ids_by_phone.contains_key(n));
            assert(q.ids_by_phone[n] == p.ids_by_phone[n]);
            if p.ids_by_phone[n] == id {
                assert(user.phone_number == Some(n));
            }
        }
    }
    assert forall|key: (Seq<char>, Seq<char>)| #[trigger]
        q.ids_by_provider.contains_key(key) && key.0 != "phone"@ implies q.users.contains_key(
        q.ids_by_provider[key],
    ) && has_identity(q.users[q.ids_by_provider[key]], key) by {
        if q.ids_by_provider[key] == id {
            update_keeps_identity(user, request, d, key);
        }
    }
}

proof fn changed_user_keeps_sound(p: ProjectView, local_id: Seq<char>, user: UserView)
    requires
        sound(p),
        p.users.contains_key(local_id),
        user.local_id == p.users[local_id].local_id,
        user.email == p.users[local_id].email,
        user.phone_number == p.users[local_id].phone_number,
        user.providers == p.users[local_id].providers,
    ensures
        forall|q: ProjectView|
            q.users == p.users.insert(local_id, user) && q.ids_by_email == p.ids_by_email
                && q.ids_by_phone == p.ids_by_phone && q.ids_by_provider == p.ids_by_provider
                ==> #[trigger] sound(q),
{
    assert forall|q: ProjectView|
        q.users == p.users.insert(local_id, user) && q.ids_by_email == p.ids_by_email
            && q.ids_by_phone == p.ids_by_phone && q.ids_by_provider
            == p.ids_by_provider implies #[trigger] sound(q) by {
        assert forall|key: (Seq<char>, Seq<char>)| #[trigger]
            q.ids_by_provider.contains_key(key) && key.0 != "phone"@ implies q.users.contains_key(
            q.ids_by_provider[key],
        ) && has_identity(q.users[q.ids_by_provider[key]], key) by {
            assert(has_identity(p.users[p.ids_by_provider[key]], key));
            if q.ids_by_provider[key] == local_id {
                let i = choose|i: int|
                    0 <= i < user.providers.len() && (#[trigger] user.providers[i]).provider_id
                        == key.0 && user.providers[i].raw_id == key.1;
                assert(user.providers[i].provider_id == key.0);
            }
        }
    }
}

/// A sign-in keeps a project sound.
pub proof fn login_keeps_sound(p: ProjectView, local_id: Seq<char>, d: DrawView)
    requires
        sound(p),
        p.users.contains_key(local_id),
    ensures
        sound(with_login(p, local_id, d)),
{
    changed_user_keeps_sound(p, local_id, logged_in(p.users[local_id], d));
}

/// An account that a sign-in makes keeps a project sound.
pub proof fn with_user_keeps_sound(
    p: ProjectView,
    local_id: Seq<char>,
    email: Seq<char>,
    provider_id: Seq<char>,
    raw_id: Seq<char>,
    d: DrawView,
)
    requires
        sound(p),
    ensures
        sound(with_user(p, local_id, email, provider_id, raw_id, d)),
{
    normal_email_idempotent(email);
    let q = with_user(p, local_id, email, provider_id, raw_id, d);
    if !p.users.contains_key(local_id) {
        assert(q.users[local_id].providers[0].provider_id == provider_id);
        assert(has_identity(q.users[local_id], (provider_id, raw_id)));
    }
}

/// A sign-in with a mailed code keeps a project sound.
pub proof fn email_link_keeps_sound(p: ProjectView, request: EmailLinkRequest, d: DrawView)
    requires
        sound(p),
    ensures
        sound(email_link_project(p, request, d)),
{
    let q = without_oob_code(p, request.oob_code@);
    assert(sound(q));
    let email = normal_email(request.email@);
    let local_id = email_link_user(q, request.email@, d);
    with_user_keeps_sound(q, local_id, email, "emailLink"@, email, d);
    login_keeps_sound(with_user(q, local_id, email, "emailLink"@, email, d), local_id, d);
}

/// A sign-in through a provider keeps a project sound, where a new account gets an id that is
/// not in use.
pub proof fn idp_keeps_sound(p: ProjectView, who: IdpIdentity, d: DrawView)
    requires
        sound(p),
        !p.users.contains_key(d.ids[1]),
        normal_email(who.email) == who.email,
    ensures
        sound(with_login(with_idp_user(p, who, d), idp_user(p, who, d), d)),
{
    let q = with_idp_user(p, who, d);
    let key = (who.provider_id, who.raw_id);
    if q != p {
        assert(q.users[d.ids[1]].providers[0].provider_id == who.provider_id);
        assert(has_identity(q.users[d.ids[1]], key));
    }
    assert(sound(q));
    login_keeps_sound(q, idp_user(p, who, d), d);
}

proof fn identities_go(
    ids: Map<(Seq<char>, Seq<char>), Seq<char>>,
    providers: Seq<ProviderView>,
    key: (Seq<char>, Seq<char>),
)
    ensures
        without_providers(ids, providers).contains_key(key) ==> ids.contains_key(key)
            && without_providers(ids, providers)[key] == ids[key] && forall|i: int|
            0 <= i < providers.len() ==> (#[trigger] providers[i]).provider_id != key.0
                || providers[i].raw_id != key.1,
    decreases providers.len(),
{
    if providers.len() > 0 {
        let head = providers.drop_last();
        identities_go(ids, head, key);
        if without_providers(ids, providers).contains_key(key) {
            assert forall|i: int| 0 <= i < providers.len() implies (
            #[trigger] providers[i]).provider_id != key.0 || providers[i].raw_id != key.1 by {
                if i < head.len() {
                    assert(head[i] == providers[i]);
                }
            }
        }
    }
}

/// The deletion of an account keeps a project sound.
pub proof fn delete_keeps_sound(p: ProjectView, local_id: Seq<char>)
    requires
        sound(p),
        p.users.contains_key(local_id),
    ensures
        sound(without_account(p, local_id)),
{
    empty_is_normal();
    let user = p.users[local_id];
    let q = without_account(p, local_id);
    assert forall|e: Seq<char>| #[trigger]
        q.ids_by_email.contains_key(e) && e.len() > 0 implies q.users.contains_key(
        q.ids_by_email[e],
    ) && normal_email(q.users[q.ids_by_email[e]].email) == e by {
        assert(p.ids_by_email.contains_key(e));
        if p.ids_by_email[e] == local_id {
            assert(normal_email(user.email) == e);
            if user.email.len() == 0 {
                assert(user.email =~= Seq::empty());
            }
        }
    }
    assert forall|n: Seq<char>| #[trigger] q.ids_by_phone.contains_key(n) implies q.users.contains_key(
        q.ids_by_phone[n],
    ) && q.users[q.ids_by_phone[n]].phone_number == Some(n) by {
        assert(p.ids_by_phone.contains_key(n));
    }
    assert forall|key: (Seq<char>, Seq<char>)| #[trigger]
        q.ids_by_provider.contains_key(key) && key.0 != "phone"@ implies q.users.contains_key(
        q.ids_by_provider[key],
    ) && has_identity(q.users[q.ids_by_provider[key]], key) by {
        identities_go(p.ids_by_provider, user.providers, key);
        assert(p.ids_by_provider.contains_key(key));
    }
}

/// Whether every project is sound.
pub open spec fn all_sound(v: AuthView) -> bool {
    forall|id: Seq<char>| #[trigger] v.projects.contains_key(id) ==> sound(v.projects[id])
}

/// Whether no project has an account under one of the drawn ids.
pub open spec fn unused(v: AuthView, d: DrawView) -> bool {
    forall|id: Seq<char>, i: int| #[trigger]
        v.projects.contains_key(id) && 0 <= i < d.ids.len()
            ==> !v.projects[id].users.contains_key(#[trigger] d.ids[i])
}

proof fn project_is_sound(v: AuthView, project_id: Seq<char>)
    requires
        all_sound(v),
    ensures
        sound(v.project(project_id)),
{
    empty_is_sound();
}

proof fn deletion_keeps_sound(v: AuthView, project_id: Seq<char>, local_id: Seq<char>)
    requires
        all_sound(v),
    ensures
        all_sound(deleted(v, project_id, local_id)),
{
    if has_account(v, project_id, local_id) {
        delete_keeps_sound(v.project(project_id), local_id);
    }
}

proof fn deletions_keep_sound(v: AuthView, project_id: Seq<char>, ids: Seq<Seq<char>>)
    requires
        all_sound(v),
    ensures
        all_sound(batch_deleted(v, project_id, ids)),
    decreases ids.len(),
{
    if ids.len() > 0 {
        deletions_keep_sound(v, project_id, ids.drop_last());
        deletion_keeps_sound(
            batch_deleted(v, project_id, ids.drop_last()),
            project_id,
            ids.last(),
        );
    }
}

proof fn enrollment_keeps_sound(
    p: ProjectView,
    claims: ClaimsView,
    request: MfaEnrollmentFinalizeRequest,
    d: DrawView,
)
    requires
        sound(p),
        p.users.contains_key(claims.local_id),
    ensures
        sound(with_enrollment(p, claims, request, d)),
{
    changed_user_keeps_sound(p, claims.local_id, enrolled_user(p, claims, request, d));
}

proof fn mfa_login_keeps_sound(
    p: ProjectView,
    request: MfaSignInFinalizeRequest,
    local_id: Seq<char>,
    d: DrawView,
)
    requires
        sound(p),
        p.users.contains_key(local_id),
    ensures
        sound(with_mfa_login(p, request, local_id, d)),
{
    changed_user_keeps_sound(p, local_id, logged_in(p.users[local_id], d));
}

/// Every request keeps every project sound, where drawn ids are not in use.
pub proof fn requests_keep_sound(
    v: AuthView,
    auth_base_url: Seq<char>,
    call: IdentityCall,
    d: DrawView,
)
    requires
        all_sound(v),
        unused(v, d),
        d.ids.len() >= 3,
    ensures
        all_sound(identity_step(v, auth_base_url, call, d).0),
{
    let home = v.home();
    project_is_sound(v, v.default_project);
    assert(!home.users.contains_key(d.ids[0]) && !home.users.contains_key(d.ids[1]));
    match call {
        IdentityCall::SignUp(request) => {
            sign_up_keeps_sound(home, request, d.ids[0], d);
        },
        IdentityCall::SignInWithPassword(request) => {
            if password_refusal(home, request) is None {
                login_keeps_sound(home, home.ids_by_email[normal_email(request.email@)], d);
            }
        },
        IdentityCall::Lookup(request) => {},
        IdentityCall::Delete(request) => {
            if let Ok(local_id) = delete_target(v, request) {
                deletion_keeps_sound(v, v.default_project, local_id);
            }
        },
        IdentityCall::SignInWithCustomToken(request) => {
            if let Some(id) = custom_subject(request.token@) {
                let email = custom_token_email(id);
                with_user_keeps_sound(home, id, email, "custom"@, id, d);
                login_keeps_sound(with_user(home, id, email, "custom"@, id, d), id, d);
            }
        },
        IdentityCall::SignInWithIdp(request) => {
            let form = form_fields(request.post_body@);
            if let Some(who) = idp_identity(form, d) {
                identity_email_normal(form, d);
                idp_keeps_sound(home, who, d);
            }
        },
        IdentityCall::SendOobCode(request) => {
            project_is_sound(v, v.default_project);
        },
        IdentityCall::SignInWithEmailLink(request) => {
            email_link_keeps_sound(home, request, d);
        },
        IdentityCall::AdminCreate(project_id, request) => {
            project_is_sound(v, project_id@);
            if admin_create_refusal(v.project(project_id@), request, d) is None {
                admin_create_keeps_sound(v.project(project_id@), request, d);
            }
        },
        IdentityCall::AdminLookup(project_id, request) => {},
        IdentityCall::AdminUpdate(project_id, request) => {
            project_is_sound(v, project_id@);
            if admin_update_refusal(v.project(project_id@), request) is None {
                admin_update_keeps_sound(v.project(project_id@), request, d);
            }
        },
        IdentityCall::AdminDelete(project_id, request) => {
            deletion_keeps_sound(v, project_id@, request.local_id@);
        },
        IdentityCall::AdminBatchDelete(project_id, request) => {
            deletions_keep_sound(v, project_id@, request.local_ids.deep_view());
        },
        IdentityCall::AdminSendOobCode(project_id, request) => {
            project_is_sound(v, project_id@);
        },
        IdentityCall::Refresh(request) => {},
        IdentityCall::StartEnrollment(request) => {},
        IdentityCall::FinalizeEnrollment(request) => {
            if let Some(claims) = client_claims(v, request.id_token@) {
                if home.users.contains_key(claims.local_id) {
                    enrollment_keeps_sound(home, claims, request, d);
                }
            }
        },
        IdentityCall::StartSignIn(request) => {
            if let Some(id) = pending_project(v, request.mfa_pending_credential@) {
                project_is_sound(v, id);
            }
        },
        IdentityCall::FinalizeSignIn(request) => {
            if let Some(id) = pending_project(v, request.mfa_pending_credential@) {
                project_is_sound(v, id);
                let p = v.project(id);
                if sign_in_end_refusal(p, request) is None {
                    let sent = p.verification_codes[request.phone_verification_info.session_info@];
                    mfa_login_keeps_sound(p, request, sent.purpose.user(), d);
                }
            }
        },
    }
}

proof fn identity_email_normal(form: Map<Seq<char>, Seq<char>>, d: DrawView)
    ensures
        idp_identity(form, d) matches Some(who) ==> normal_email(who.email) == who.email,
{
    if let Some(who) = idp_identity(form, d) {
        if form.contains_key("email"@) {
            normal_email_idempotent(form["email"@]);
        } else {
            normal_email_idempotent(
                sanitized(who.raw_id) + "@"@ + who.provider_id + ".local"@,
            );
        }
    }
}

/// Whether the accounts have distinct ids.
pub open spec fn distinct_ids(users: Seq<UserView>) -> bool {
    forall|i: int, j: int|
        0 <= i < j < users.len() ==> (#[trigger] users[i]).local_id != (#[trigger] users[j]).local_id
}

/// Accounts that were kept are there again when they are loaded: each under its id.
pub proof fn loading_gives_back(users: Seq<UserView>)
    requires
        distinct_ids(users),
    ensures
        forall|i: int|
            0 <= i < users.len() ==> loaded(users).users.contains_key(
                (#[trigger] users[i]).local_id,
            ) && loaded(users).users[users[i].local_id] == users[i],
        forall|id: Seq<char>| #[trigger]
            loaded(users).users.contains_key(id) ==> exists|i: int|
                0 <= i < users.len() && (#[trigger] users[i]).local_id == id,
    decreases users.len(),
{
    if users.len() > 0 {
        let head = users.drop_last();
        assert forall|i: int, j: int| 0 <= i < j < head.len() implies (
        #[trigger] head[i]).local_id != (#[trigger] head[j]).local_id by {
            assert(head[i] == users[i] && head[j] == users[j]);
        }
        loading_gives_back(head);
        let all = loaded(users);
        assert forall|i: int| 0 <= i < users.len() implies all.users.contains_key(
            (#[trigger] users[i]).local_id,
        ) && all.users[users[i].local_id] == users[i] by {
            if i < head.len() {
                assert(head[i] == users[i]);
                assert(users[i].local_id != users[users.len() - 1].local_id);
            }
        }
        assert forall|id: Seq<char>| #[trigger] all.users.contains_key(id) implies exists|i: int|
            0 <= i < users.len() && (#[trigger] users[i]).local_id == id by {
            if id == users.last().local_id {
                assert(users[users.len() - 1].local_id == id);
            } else {
                assert(loaded(head).users.contains_key(id));
                let i = choose|i: int| 0 <= i < head.len() && (#[trigger] head[i]).local_id == id;
                assert(users[i].local_id == id);
            }
        }
    }
}

/// The accounts of a project have distinct ids, each that under which it is found.
proof fn accounts_are_distinct(p: ProjectView)
    requires
        ids_sound(p),
        can_list(p.users),
    ensures
        distinct_ids(p.accounts()),
        p.accounts().len() == listing(p.users).len(),
        forall|i: int|
            0 <= i < p.accounts().len() ==> (#[trigger] p.accounts()[i]).local_id == listing(
                p.users,
            )[i].0,
{
    let pairs = listing(p.users);
    let users = p.accounts();
    assert forall|i: int| 0 <= i < users.len() implies (#[trigger] users[i]).local_id
        == pairs[i].0 by {
        assert(users[i] == pairs[i].1);
        assert(p.users.contains_key(pairs[i].0));
    }
    assert forall|i: int, j: int| 0 <= i < j < users.len() implies (#[trigger] users[i]).local_id
        != (#[trigger] users[j]).local_id by {
        assert(text_lt(pairs[i].0, pairs[j].0));
        text_lt_irreflexive(pairs[i].0);
    }
}

/// What a project keeps gives back its accounts when it is loaded.
pub proof fn kept_accounts_come_back(p: ProjectView)
    requires
        ids_sound(p),
        can_list(p.users),
    ensures
        loaded(p.accounts()).users == p.users,
{
    let pairs = listing(p.users);
    let users = p.accounts();
    accounts_are_distinct(p);
    loading_gives_back(users);
    let q = loaded(users);
    assert forall|id: Seq<char>| #[trigger] q.users.contains_key(id) == p.users.contains_key(id) by {
        if p.users.contains_key(id) {
            let i = choose|i: int| 0 <= i < pairs.len() && (#[trigger] pairs[i]).0 == id;
            assert(users[i].local_id == id);
        }
        if q.users.contains_key(id) {
            let i = choose|i: int| 0 <= i < users.len() && (#[trigger] users[i]).local_id == id;
            assert(p.users.contains_key(pairs[i].0));
        }
    }
    assert forall|id: Seq<char>| #[trigger] p.users.contains_key(id) implies q.users[id]
        == p.users[id] by {
        let i = choose|i: int| 0 <= i < pairs.len() && (#[trigger] pairs[i]).0 == id;
        assert(users[i].local_id == id);
        assert(users[i] == pairs[i].1);
    }
    assert(q.users =~= p.users);
}

proof fn provider_ids_loaded(
    ids: Map<(Seq<char>, Seq<char>), Seq<char>>,
    providers: Seq<ProviderView>,
    local_id: Seq<char>,
    key: (Seq<char>, Seq<char>),
)
    ensures
        with_providers(ids, providers, local_id).contains_key(key) ==> (ids.contains_key(key)
            && with_providers(ids, providers, local_id)[key] == ids[key]) || (with_providers(
            ids,
            providers,
            local_id,
        )[key] == local_id && exists|i: int|
            0 <= i < providers.len() && (#[trigger] providers[i]).provider_id == key.0
                && providers[i].raw_id == key.1),
    decreases providers.len(),
{
    if providers.len() > 0 {
        let head = providers.drop_last();
        provider_ids_loaded(ids, head, local_id, key);
        let last = providers.last();
        if key == (last.provider_id, last.raw_id) {
            assert(providers[providers.len() - 1].provider_id == key.0);
        } else if with_providers(ids, providers, local_id).contains_key(key) {
            if !(ids.contains_key(key) && with_providers(ids, head, local_id)[key] == ids[key]) {
                let i = choose|i: int|
                    0 <= i < head.len() && (#[trigger] head[i]).provider_id == key.0
                        && head[i].raw_id == key.1;
                assert(providers[i].provider_id == key.0);
            }
        }
    }
}

/// A project that is made anew from accounts is sound, and holds no codes and no waiting sign-ins.
pub proof fn loaded_is_sound(users: Seq<UserView>)
    requires
        distinct_ids(users),
    ensures
        sound(loaded(users)),
        loaded(users).oob_codes == ProjectView::empty().oob_codes,
        loaded(users).verification_codes == ProjectView::empty().verification_codes,
        loaded(users).pending == ProjectView::empty().pending,
    decreases users.len(),
{
    if users.len() > 0 {
        let head = users.drop_last();
        let user = users.last();
        assert forall|i: int, j: int| 0 <= i < j < head.len() implies (
        #[trigger] head[i]).local_id != (#[trigger] head[j]).local_id by {
            assert(head[i] == users[i] && head[j] == users[j]);
        }
        loaded_is_sound(head);
        loading_gives_back(head);
        let p = loaded(head);
        let q = loaded(users);
        if p.users.contains_key(user.local_id) {
            let i = choose|i: int|
                0 <= i < head.len() && (#[trigger] head[i]).local_id == user.local_id;
            assert(users[i].local_id == users[users.len() - 1].local_id);
        }
        assert forall|key: (Seq<char>, Seq<char>)| #[trigger]
            q.ids_by_provider.contains_key(key) && key.0 != "phone"@ implies q.users.contains_key(
            q.ids_by_provider[key],
        ) && has_identity(q.users[q.ids_by_provider[key]], key) by {
            provider_ids_loaded(p.ids_by_provider, user.providers, user.local_id, key);
            if q.ids_by_provider[key] == user.local_id {
                if p.ids_by_provider.contains_key(key) {
                    assert(p.users.contains_key(p.ids_by_provider[key]));
                }
                assert(has_identity(user, key));
            }
        }
    } else {
        empty_is_sound();
    }
}

proof fn rows_loaded(rows: Seq<(Seq<char>, Seq<UserView>)>)
    requires
        forall|i: int, j: int|
            0 <= i < j < rows.len() ==> (#[trigger] rows[i]).0 != (#[trigger] rows[j]).0,
    ensures
        forall|i: int|
            0 <= i < rows.len() ==> loaded_projects(rows).contains_key((#[trigger] rows[i]).0)
                && loaded_projects(rows)[rows[i].0] == loaded(rows[i].1),
        forall|id: Seq<char>| #[trigger]
            loaded_projects(rows).contains_key(id) ==> exists|i: int|
                0 <= i < rows.len() && (#[trigger] rows[i]).0 == id,
    decreases rows.len(),
{
    if rows.len() > 0 {
        let head = rows.drop_last();
        let all = loaded_projects(rows);
        assert forall|i: int, j: int| 0 <= i < j < head.len() implies (#[trigger] head[i]).0 != (
        #[trigger] head[j]).0 by {
            assert(head[i] == rows[i] && head[j] == rows[j]);
        }
        rows_loaded(head);
        assert forall|i: int| 0 <= i < rows.len() implies all.contains_key((#[trigger] rows[i]).0)
            && all[rows[i].0] == loaded(rows[i].1) by {
            if i < head.len() {
                assert(head[i] == rows[i]);
                assert(rows[i].0 != rows[rows.len() - 1].0);
            }
        }
        assert forall|id: Seq<char>| #[trigger] all.contains_key(id) implies exists|i: int|
            0 <= i < rows.len() && (#[trigger] rows[i]).0 == id by {
            if id == rows.last().0 {
                assert(rows[rows.len() - 1].0 == id);
            } else {
                assert(loaded_projects(head).contains_key(id));
                let i = choose|i: int| 0 <= i < head.len() && (#[trigger] head[i]).0 == id;
                assert(rows[i].0 == id);
            }
        }
    }
}

/// What is kept of a state gives back every project with its accounts when it is loaded. What a
/// loaded project finds its accounts by is sound, and no code and no waiting sign-in comes back.
pub proof fn kept_projects_come_back(v: AuthView)
    requires
        valid(v),
    ensures
        loaded_projects(kept(v)).dom() == v.projects.dom(),
        forall|id: Seq<char>| #[trigger]
            v.projects.contains_key(id) ==> ({
                let p = loaded_projects(kept(v))[id];
                &&& p.users == v.projects[id].users
                &&& sound(p)
                &&& p.oob_codes == ProjectView::empty().oob_codes
                &&& p.verification_codes == ProjectView::empty().verification_codes
                &&& p.pending == ProjectView::empty().pending
            }),
{
    let pairs = listing(v.projects);
    let rows = kept(v);
    assert forall|i: int, j: int| 0 <= i < j < rows.len() implies (#[trigger] rows[i]).0 != (
    #[trigger] rows[j]).0 by {
        assert(text_lt(pairs[i].0, pairs[j].0));
        text_lt_irreflexive(pairs[i].0);
    }
    rows_loaded(rows);
    let all = loaded_projects(rows);
    assert forall|id: Seq<char>| #[trigger] all.contains_key(id) == v.projects.contains_key(id) by {
        if v.projects.contains_key(id) {
            let i = choose|i: int| 0 <= i < pairs.len() && (#[trigger] pairs[i]).0 == id;
            assert(rows[i].0 == id);
        }
        if all.contains_key(id) {
            let i = choose|i: int| 0 <= i < rows.len() && (#[trigger] rows[i]).0 == id;
            assert(v.projects.contains_key(pairs[i].0));
        }
    }
    assert(all.dom() =~= v.projects.dom());
    assert forall|id: Seq<char>| #[trigger] v.projects.contains_key(id) implies ({
        let p = all[id];
        &&& p.users == v.projects[id].users
        &&& sound(p)
        &&& p.oob_codes == ProjectView::empty().oob_codes
        &&& p.verification_codes == ProjectView::empty().verification_codes
        &&& p.pending == ProjectView::empty().pending
    }) by {
        let i = choose|i: int| 0 <= i < pairs.len() && (#[trigger] pairs[i]).0 == id;
        assert(rows[i].0 == id);
        assert(rows[i].1 == v.projects[id].accounts());
        kept_accounts_come_back(v.projects[id]);
        accounts_are_distinct(v.projects[id]);
        loaded_is_sound(v.projects[id].accounts());
    }
}

/// Whatever steps have led to a state, from a new one or one that was loaded, what is kept of it
/// gives back every project with its accounts.
pub proof fn reached_projects_come_back(
    v: AuthView,
    rows: Seq<(Seq<char>, Seq<UserView>)>,
    steps: Seq<AuthStep>,
)
    requires
        v.projects == loaded_projects(rows),
    ensures
        ({
            let w = after_steps(v, steps);
            let back = loaded_projects(kept(w));
            &&& back.dom() == w.projects.dom()
            &&& forall|id: Seq<char>| #[trigger]
                w.projects.contains_key(id) ==> back[id].users == w.projects[id].users
        }),
{
    reached_is_valid(v, rows, steps);
    kept_projects_come_back(after_steps(v, steps));
}

/// After the deletion of an account nothing of it is left: no sign-in waits for it, no code was
/// sent for it, and in a sound project no address, phone number or identity finds it.
pub proof fn deletion_leaves_nothing(p: ProjectView, local_id: Seq<char>)
    requires
        sound(p),
        p.users.contains_key(local_id),
    ensures
        ({
            let q = without_account(p, local_id);
            &&& !q.users.contains_key(local_id)
            &&& forall|c: Seq<char>| #[trigger]
                q.pending.contains_key(c) ==> q.pending[c].local_id != local_id
            &&& forall|s: Seq<char>| #[trigger]
                q.verification_codes.contains_key(s) ==> q.verification_codes[s].purpose.user()
                    != local_id
            &&& forall|e: Seq<char>| #[trigger]
                q.ids_by_email.contains_key(e) && e.len() > 0 ==> q.ids_by_email[e] != local_id
            &&& forall|n: Seq<char>| #[trigger]
                q.ids_by_phone.contains_key(n) ==> q.ids_by_phone[n] != local_id
            &&& forall|key: (Seq<char>, Seq<char>)| #[trigger]
                q.ids_by_provider.contains_key(key) && key.0 != "phone"@
                    ==> q.ids_by_provider[key] != local_id
        }),
{
    delete_keeps_sound(p, local_id);
}

proof fn providers_are_found(
    ids: Map<(Seq<char>, Seq<char>), Seq<char>>,
    providers: Seq<ProviderView>,
    local_id: Seq<char>,
    key: (Seq<char>, Seq<char>),
)
    ensures
        ({
            let known = exists|i: int|
                0 <= i < providers.len() && (#[trigger] providers[i]).provider_id == key.0
                    && providers[i].raw_id == key.1;
            let after = with_providers(ids, providers, local_id);
            &&& known ==> after.contains_key(key) && after[key] == local_id
            &&& !known ==> after.contains_key(key) == ids.contains_key(key) && (ids.contains_key(
                key,
            ) ==> after[key] == ids[key])
        }),
    decreases providers.len(),
{
    if providers.len() > 0 {
        let head = providers.drop_last();
        providers_are_found(ids, head, local_id, key);
        let last = providers[providers.len() - 1];
        if exists|i: int|
            0 <= i < head.len() && (#[trigger] head[i]).provider_id == key.0 && head[i].raw_id
                == key.1 {
            let i = choose|i: int|
                0 <= i < head.len() && (#[trigger] head[i]).provider_id == key.0 && head[i].raw_id
                    == key.1;
            assert(providers[i] == head[i]);
        }
        if exists|i: int|
            0 <= i < providers.len() && (#[trigger] providers[i]).provider_id == key.0
                && providers[i].raw_id == key.1 {
            let i = choose|i: int|
                0 <= i < providers.len() && (#[trigger] providers[i]).provider_id == key.0
                    && providers[i].raw_id == key.1;
            if i < head.len() {
                assert(head[i] == providers[i]);
            }
        }
        assert(last == providers.last());
    }
}

/// An account that is loaded is found by its email address, by its phone number and by its
/// identities at providers, as before it was kept; of several accounts that share one of these, the
/// last is.
pub proof fn loaded_account_is_found(users: Seq<UserView>, i: int, key: (Seq<char>, Seq<char>))
    requires
        0 <= i < users.len(),
    ensures
        ({
            let p = loaded(users);
            let user = users[i];
            &&& user.email.len() > 0 && (forall|j: int|
                i < j < users.len() ==> (#[trigger] users[j]).email.len() == 0 || normal_email(
                    users[j].email,
                ) != normal_email(user.email)) ==> p.ids_by_email.contains_key(
                normal_email(user.email),
            ) && p.ids_by_email[normal_email(user.email)] == user.local_id
            &&& user.phone_number is Some && (forall|j: int|
                i < j < users.len() ==> (#[trigger] users[j]).phone_number != user.phone_number)
                ==> p.ids_by_phone.contains_key(user.phone_number->0)
                && p.ids_by_phone[user.phone_number->0] == user.local_id
            &&& has_identity(user, key) && (forall|j: int|
                i < j < users.len() ==> !has_identity(#[trigger] users[j], key))
                ==> p.ids_by_provider.contains_key(key) && p.ids_by_provider[key] == user.local_id
        }),
    decreases users.len(),
{
    let head = users.drop_last();
    let last = users[users.len() - 1];
    let before = loaded(head);
    assert(last == users.last());
    providers_are_found(before.ids_by_provider, last.providers, last.local_id, key);
    if i < head.len() {
        loaded_account_is_found(head, i, key);
        assert(head[i] == users[i]);
        let user = users[i];
        if forall|j: int|
            i < j < users.len() ==> (#[trigger] users[j]).email.len() == 0 || normal_email(
                users[j].email,
            ) != normal_email(user.email) {
            assert forall|j: int| i < j < head.len() implies (#[trigger] head[j]).email.len() == 0
                || normal_email(head[j].email) != normal_email(user.email) by {
                assert(head[j] == users[j]);
            }
            assert(last.email.len() == 0 || normal_email(last.email) != normal_email(user.email));
        }
        if forall|j: int|
            i < j < users.len() ==> (#[trigger] users[j]).phone_number != user.phone_number {
            assert forall|j: int| i < j < head.len() implies (#[trigger] head[j]).phone_number
                != user.phone_number by {
                assert(head[j] == users[j]);
            }
            assert(last.phone_number != user.phone_number);
        }
        if forall|j: int| i < j < users.len() ==> !has_identity(#[trigger] users[j], key) {
            assert forall|j: int| i < j < head.len() implies !has_identity(
                #[trigger] head[j],
                key,
            ) by {
                assert(head[j] == users[j]);
            }
            assert(!has_identity(last, key));
        }
    }
}

} // verus!
