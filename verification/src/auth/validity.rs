//! What holds of the accounts of all projects in every state that requests lead to.

use crate::auth::accounts::{
    admin_create_refusal, admin_created_user, admin_update_refusal, admin_updated, normal_email,
    signed_up_user, updated_user, with_account, with_admin_account,
};
use crate::auth::actions::{identity_step, IdentityCall};
use crate::auth::directory::{loaded, with_loaded, without_account};
use crate::auth::provider::{form_fields, idp_identity, idp_user, with_idp_user};
use crate::auth::queries::{batch_deleted, delete_target, deleted, has_account};
use crate::auth::records::{ProjectView, UserView};
use crate::auth::second_factor::{
    enrolled_user, enrollment_end_refusal, sign_in_end_refusal, with_enrollment, with_mfa_login,
};
use crate::auth::sign_in::{
    custom_token_email, email_link_project, email_link_user, logged_in, password_accepted,
    password_refusal, with_login, with_user, without_oob_code,
};
use crate::auth::soundness::ids_sound;
use crate::auth::state::{client_claims, loaded_projects, pending_project, AuthView};
use crate::auth::tokens::custom_subject;
use crate::fresh::DrawView;
use crate::text_map::{can_list, insertion_can_list, nothing_can_list, removal_can_list};
use vstd::prelude::*;

verus! {

/// Whether no sign-in waits for its second factor.
pub open spec fn nothing_waits(p: ProjectView) -> bool {
    forall|credential: Seq<char>| !(#[trigger] p.pending.contains_key(credential))
}

/// Whether the accounts of a project can be listed, each under its own id.
pub open spec fn project_valid(p: ProjectView) -> bool {
    can_list(p.users) && ids_sound(p)
}

/// Whether a state is well formed: projects and their accounts can be listed, each account stands
/// under its own id, and sign-ins wait in the project of the clients alone.
pub open spec fn valid(v: AuthView) -> bool {
    &&& can_list(v.projects)
    &&& forall|id: Seq<char>| #[trigger]
        v.projects.contains_key(id) ==> project_valid(v.projects[id]) && (id != v.default_project
            ==> nothing_waits(v.projects[id]))
}

/// A state without projects is well formed.
pub proof fn new_is_valid(v: AuthView)
    requires
        v.projects == Map::<Seq<char>, ProjectView>::empty(),
    ensures
        valid(v),
{
    nothing_can_list::<ProjectView>();
}

proof fn project_is_valid(v: AuthView, project_id: Seq<char>)
    requires
        valid(v),
    ensures
        project_valid(v.project(project_id)),
        project_id != v.default_project ==> nothing_waits(v.project(project_id)),
{
    nothing_can_list::<UserView>();
}

proof fn put_keeps_valid(p: ProjectView, q: ProjectView, user: UserView)
    requires
        project_valid(p),
        q.users == p.users.insert(user.local_id, user),
    ensures
        project_valid(q),
{
    insertion_can_list(p.users, user.local_id, user);
}

proof fn changed_project_keeps_valid(v: AuthView, project_id: Seq<char>, p: ProjectView)
    requires
        valid(v),
        project_valid(p),
        project_id == v.default_project || nothing_waits(p),
    ensures
        valid(v.with_project(project_id, p)),
{
    insertion_can_list(v.projects, project_id, p);
}

proof fn loaded_project_is_valid(users: Seq<UserView>)
    ensures
        project_valid(loaded(users)),
        nothing_waits(loaded(users)),
    decreases users.len(),
{
    if users.len() == 0 {
        nothing_can_list::<UserView>();
    } else {
        let head = users.drop_last();
        loaded_project_is_valid(head);
        put_keeps_valid(loaded(head), with_loaded(loaded(head), users.last()), users.last());
    }
}

/// A state that was loaded is well formed, whatever it was loaded from.
pub proof fn loaded_is_valid(v: AuthView, rows: Seq<(Seq<char>, Seq<UserView>)>)
    requires
        v.projects == loaded_projects(rows),
    ensures
        valid(v),
    decreases rows.len(),
{
    if rows.len() == 0 {
        new_is_valid(v);
    } else {
        let head = AuthView { projects: loaded_projects(rows.drop_last()), ..v };
        loaded_is_valid(head, rows.drop_last());
        loaded_project_is_valid(rows.last().1);
        changed_project_keeps_valid(head, rows.last().0, loaded(rows.last().1));
    }
}

proof fn login_keeps_valid(p: ProjectView, local_id: Seq<char>, d: DrawView)
    requires
        project_valid(p),
        p.users.contains_key(local_id),
    ensures
        project_valid(with_login(p, local_id, d)),
{
    put_keeps_valid(p, with_login(p, local_id, d), logged_in(p.users[local_id], d));
}

proof fn with_user_keeps_valid(
    p: ProjectView,
    local_id: Seq<char>,
    email: Seq<char>,
    provider_id: Seq<char>,
    raw_id: Seq<char>,
    d: DrawView,
)
    requires
        project_valid(p),
    ensures
        project_valid(with_user(p, local_id, email, provider_id, raw_id, d)),
{
    let q = with_user(p, local_id, email, provider_id, raw_id, d);
    if !p.users.contains_key(local_id) {
        put_keeps_valid(p, q, q.users[local_id]);
    }
}

/// The deletion of an account leaves a state well formed.
pub proof fn deletion_keeps_valid(v: AuthView, project_id: Seq<char>, local_id: Seq<char>)
    requires
        valid(v),
    ensures
        valid(deleted(v, project_id, local_id)),
{
    if has_account(v, project_id, local_id) {
        let p = v.project(project_id);
        project_is_valid(v, project_id);
        removal_can_list(p.users, local_id);
        changed_project_keeps_valid(v, project_id, without_account(p, local_id));
    }
}

proof fn deletions_keep_valid(v: AuthView, project_id: Seq<char>, ids: Seq<Seq<char>>)
    requires
        valid(v),
    ensures
        valid(batch_deleted(v, project_id, ids)),
    decreases ids.len(),
{
    if ids.len() > 0 {
        deletions_keep_valid(v, project_id, ids.drop_last());
        deletion_keeps_valid(batch_deleted(v, project_id, ids.drop_last()), project_id, ids.last());
    }
}

/// Forgetting a project leaves a state well formed.
pub proof fn reset_keeps_valid(v: AuthView, project_id: Seq<char>)
    requires
        valid(v),
    ensures
        valid(AuthView { projects: v.projects.remove(project_id), ..v }),
{
    removal_can_list(v.projects, project_id);
}

/// Every request leaves a state well formed, whatever is drawn for it.
pub proof fn requests_keep_valid(
    v: AuthView,
    auth_base_url: Seq<char>,
    call: IdentityCall,
    d: DrawView,
)
    requires
        valid(v),
    ensures
        valid(identity_step(v, auth_base_url, call, d).0),
{
    let home = v.home();
    let after = identity_step(v, auth_base_url, call, d).0;
    project_is_valid(v, v.default_project);
    match call {
        IdentityCall::SignUp(request) => {
            let user = signed_up_user(request, d.ids[0], d);
            put_keeps_valid(home, with_account(home, user), user);
            changed_project_keeps_valid(v, v.default_project, after.home());
        },
        IdentityCall::SignInWithPassword(request) => {
            if password_refusal(home, request) is None {
                let local_id = home.ids_by_email[normal_email(request.email@)];
                login_keeps_valid(home, local_id, d);
                assert(project_valid(password_accepted(home, local_id, d)));
            }
            changed_project_keeps_valid(v, v.default_project, after.home());
        },
        IdentityCall::Lookup(request) => {},
        IdentityCall::Delete(request) => {
            if let Ok(local_id) = delete_target(v, request) {
                deletion_keeps_valid(v, v.default_project, local_id);
            }
        },
        IdentityCall::SignInWithCustomToken(request) => {
            if let Some(id) = custom_subject(request.token@) {
                let email = custom_token_email(id);
                with_user_keeps_valid(home, id, email, "custom"@, id, d);
                login_keeps_valid(with_user(home, id, email, "custom"@, id, d), id, d);
                changed_project_keeps_valid(v, v.default_project, after.home());
            }
        },
        IdentityCall::SignInWithIdp(request) => {
            if let Some(who) = idp_identity(form_fields(request.post_body@), d) {
                let q = with_idp_user(home, who, d);
                let local_id = idp_user(home, who, d);
                if q != home {
                    put_keeps_valid(home, q, q.users[local_id]);
                }
                login_keeps_valid(q, local_id, d);
                changed_project_keeps_valid(v, v.default_project, after.home());
            }
        },
        IdentityCall::SendOobCode(request) => {
            changed_project_keeps_valid(v, v.default_project, after.home());
        },
        IdentityCall::SignInWithEmailLink(request) => {
            let q = without_oob_code(home, request.oob_code@);
            let email = normal_email(request.email@);
            let local_id = email_link_user(q, request.email@, d);
            with_user_keeps_valid(q, local_id, email, "emailLink"@, email, d);
            login_keeps_valid(with_user(q, local_id, email, "emailLink"@, email, d), local_id, d);
            assert(project_valid(email_link_project(home, request, d)));
            changed_project_keeps_valid(v, v.default_project, after.home());
        },
        IdentityCall::AdminCreate(project_id, request) => {
            let p = v.project(project_id@);
            project_is_valid(v, project_id@);
            if admin_create_refusal(p, request, d) is None {
                let user = admin_created_user(request, d);
                put_keeps_valid(p, with_admin_account(p, user), user);
            }
            changed_project_keeps_valid(v, project_id@, after.project(project_id@));
        },
        IdentityCall::AdminLookup(project_id, request) => {},
        IdentityCall::AdminUpdate(project_id, request) => {
            let p = v.project(project_id@);
            project_is_valid(v, project_id@);
            if v.projects.contains_key(project_id@) && admin_update_refusal(p, request) is None {
                put_keeps_valid(
                    p,
                    admin_updated(p, request, d),
                    updated_user(p.users[request.local_id@], request, d),
                );
                changed_project_keeps_valid(v, project_id@, after.project(project_id@));
            }
        },
        IdentityCall::AdminDelete(project_id, request) => {
            deletion_keeps_valid(v, project_id@, request.local_id@);
        },
        IdentityCall::AdminBatchDelete(project_id, request) => {
            deletions_keep_valid(v, project_id@, request.local_ids.deep_view());
        },
        IdentityCall::AdminSendOobCode(project_id, request) => {
            project_is_valid(v, project_id@);
            if after != v {
                changed_project_keeps_valid(v, project_id@, after.project(project_id@));
            }
        },
        IdentityCall::Refresh(request) => {},
        IdentityCall::StartEnrollment(request) => {
            if after != v {
                changed_project_keeps_valid(v, v.default_project, after.home());
            }
        },
        IdentityCall::FinalizeEnrollment(request) => {
            if let Some(claims) = client_claims(v, request.id_token@) {
                if enrollment_end_refusal(home, claims, request) is None {
                    put_keeps_valid(
                        home,
                        with_enrollment(home, claims, request, d),
                        enrolled_user(home, claims, request, d),
                    );
                    changed_project_keeps_valid(
                        v,
                        v.default_project,
                        with_enrollment(home, claims, request, d),
                    );
                }
            }
        },
        IdentityCall::StartSignIn(request) => {
            if let Some(id) = pending_project(v, request.mfa_pending_credential@) {
                project_is_valid(v, id);
                if after != v {
                    changed_project_keeps_valid(v, id, after.project(id));
                }
            }
        },
        IdentityCall::FinalizeSignIn(request) => {
            if let Some(id) = pending_project(v, request.mfa_pending_credential@) {
                let p = v.project(id);
                project_is_valid(v, id);
                if sign_in_end_refusal(p, request) is None {
                    let sent = p.verification_codes[request.phone_verification_info.session_info@];
                    let local_id = sent.purpose.user();
                    put_keeps_valid(
                        p,
                        with_mfa_login(p, request, local_id, d),
                        logged_in(p.users[local_id], d),
                    );
                    changed_project_keeps_valid(v, id, with_mfa_login(p, request, local_id, d));
                }
            }
        },
    }
}

/// What changes a state from outside.
pub enum AuthStep {
    /// A request, with the base of the URLs in its answer and what is drawn for it.
    Request { auth_base_url: Seq<char>, call: IdentityCall, draw: DrawView },
    /// A project is forgotten.
    Reset { project_id: Seq<char> },
}

/// The state after one step.
pub open spec fn after_step(v: AuthView, step: AuthStep) -> AuthView {
    match step {
        AuthStep::Request { auth_base_url, call, draw } => identity_step(
            v,
            auth_base_url,
            call,
            draw,
        ).0,
        AuthStep::Reset { project_id } => AuthView {
            projects: v.projects.remove(project_id),
            ..v
        },
    }
}

/// The state after several steps.
pub open spec fn after_steps(v: AuthView, steps: Seq<AuthStep>) -> AuthView
    decreases steps.len(),
{
    if steps.len() == 0 {
        v
    } else {
        after_step(after_steps(v, steps.drop_last()), steps.last())
    }
}

/// Every state that steps lead to, from a new state or one that was loaded, is well formed.
pub proof fn reached_is_valid(
    v: AuthView,
    rows: Seq<(Seq<char>, Seq<UserView>)>,
    steps: Seq<AuthStep>,
)
    requires
        v.projects == loaded_projects(rows),
    ensures
        valid(after_steps(v, steps)),
    decreases steps.len(),
{
    if steps.len() == 0 {
        loaded_is_valid(v, rows);
    } else {
        reached_is_valid(v, rows, steps.drop_last());
        let before = after_steps(v, steps.drop_last());
        match steps.last() {
            AuthStep::Request { auth_base_url, call, draw } => {
                requests_keep_valid(before, auth_base_url, call, draw);
            },
            AuthStep::Reset { project_id } => {
                reset_keeps_valid(before, project_id);
            },
        }
    }
}

} // verus!
