//! What each request asks for, and of which project.

use crate::auth::actions::{
    base_url, batch_get_project, client_action, identity_action_of, identity_step, mfa_action_of,
    project_action, IdentityAction, IdentityAnswerView, IdentityCall, MfaAction,
};
use crate::auth::errors::AuthError;
use crate::auth::queries::{
    admin_found, batch_deleted, batch_errors, delete_outcome, delete_target, deleted,
    lookup_outcome, refresh_outcome,
};
use crate::auth::state::{
    admin_create_step, admin_update_step, custom_token_step, email_link_step, enrollment_end_step,
    enrollment_start_step, idp_step, mfa_end_step, mfa_start_step, password_step, send_oob_step,
    sign_up_step, AuthView,
};
use crate::fresh::DrawView;
use crate::text::{cut_reads_back, one_char_lacks};
use vstd::prelude::*;

verus! {

proof fn client_names_differ()
    ensures
        "accounts:signUp"@ != "accounts:signInWithPassword"@,
        "accounts:signUp"@ != "accounts:lookup"@,
        "accounts:signUp"@ != "accounts:delete"@,
        "accounts:signUp"@ != "accounts:signInWithCustomToken"@,
        "accounts:signUp"@ != "accounts:signInWithIdp"@,
        "accounts:signUp"@ != "accounts:sendOobCode"@,
        "accounts:signUp"@ != "accounts:signInWithEmailLink"@,
        "accounts:signInWithPassword"@ != "accounts:lookup"@,
        "accounts:signInWithPassword"@ != "accounts:delete"@,
        "accounts:signInWithPassword"@ != "accounts:signInWithCustomToken"@,
        "accounts:signInWithPassword"@ != "accounts:signInWithIdp"@,
        "accounts:signInWithPassword"@ != "accounts:sendOobCode"@,
        "accounts:signInWithPassword"@ != "accounts:signInWithEmailLink"@,
        "accounts:lookup"@ != "accounts:delete"@,
        "accounts:lookup"@ != "accounts:signInWithCustomToken"@,
        "accounts:lookup"@ != "accounts:signInWithIdp"@,
        "accounts:lookup"@ != "accounts:sendOobCode"@,
        "accounts:lookup"@ != "accounts:signInWithEmailLink"@,
        "accounts:delete"@ != "accounts:signInWithCustomToken"@,
        "accounts:delete"@ != "accounts:signInWithIdp"@,
        "accounts:delete"@ != "accounts:sendOobCode"@,
        "accounts:delete"@ != "accounts:signInWithEmailLink"@,
        "accounts:signInWithCustomToken"@ != "accounts:signInWithIdp"@,
        "accounts:signInWithCustomToken"@ != "accounts:sendOobCode"@,
        "accounts:signInWithCustomToken"@ != "accounts:signInWithEmailLink"@,
        "accounts:signInWithIdp"@ != "accounts:sendOobCode"@,
        "accounts:signInWithIdp"@ != "accounts:signInWithEmailLink"@,
        "accounts:sendOobCode"@ != "accounts:signInWithEmailLink"@,
{
    reveal_strlit("accounts:signUp");
    reveal_strlit("accounts:signInWithPassword");
    reveal_strlit("accounts:lookup");
    reveal_strlit("accounts:delete");
    reveal_strlit("accounts:signInWithCustomToken");
    reveal_strlit("accounts:signInWithIdp");
    reveal_strlit("accounts:sendOobCode");
    reveal_strlit("accounts:signInWithEmailLink");
    assert("accounts:signUp"@.len() == 15);
    assert("accounts:signInWithPassword"@.len() == 27);
    assert("accounts:lookup"@.len() == 15);
    assert("accounts:delete"@.len() == 15);
    assert("accounts:signInWithCustomToken"@.len() == 30);
    assert("accounts:signInWithIdp"@.len() == 22);
    assert("accounts:sendOobCode"@.len() == 20);
    assert("accounts:signInWithEmailLink"@.len() == 28);
    assert("accounts:signUp"@[9] == 's' && "accounts:lookup"@[9] == 'l');
    assert("accounts:signUp"@[9] == 's' && "accounts:delete"@[9] == 'd');
    assert("accounts:lookup"@[9] == 'l' && "accounts:delete"@[9] == 'd');
}

proof fn admin_names_differ()
    ensures
        "accounts"@ != "accounts:lookup"@,
        "accounts"@ != "accounts:update"@,
        "accounts"@ != "accounts:delete"@,
        "accounts"@ != "accounts:batchDelete"@,
        "accounts"@ != "accounts:sendOobCode"@,
        "accounts:lookup"@ != "accounts:update"@,
        "accounts:lookup"@ != "accounts:delete"@,
        "accounts:lookup"@ != "accounts:batchDelete"@,
        "accounts:lookup"@ != "accounts:sendOobCode"@,
        "accounts:update"@ != "accounts:delete"@,
        "accounts:update"@ != "accounts:batchDelete"@,
        "accounts:update"@ != "accounts:sendOobCode"@,
        "accounts:delete"@ != "accounts:batchDelete"@,
        "accounts:delete"@ != "accounts:sendOobCode"@,
        "accounts:batchDelete"@ != "accounts:sendOobCode"@,
{
    reveal_strlit("accounts");
    reveal_strlit("accounts:lookup");
    reveal_strlit("accounts:update");
    reveal_strlit("accounts:delete");
    reveal_strlit("accounts:batchDelete");
    reveal_strlit("accounts:sendOobCode");
    assert("accounts"@.len() == 8);
    assert("accounts:lookup"@.len() == 15);
    assert("accounts:update"@.len() == 15);
    assert("accounts:delete"@.len() == 15);
    assert("accounts:batchDelete"@.len() == 20);
    assert("accounts:sendOobCode"@.len() == 20);
    assert("accounts:lookup"@[9] == 'l' && "accounts:update"@[9] == 'u');
    assert("accounts:lookup"@[9] == 'l' && "accounts:delete"@[9] == 'd');
    assert("accounts:update"@[9] == 'u' && "accounts:delete"@[9] == 'd');
    assert("accounts:batchDelete"@[9] == 'b' && "accounts:sendOobCode"@[9] == 's');
}

proof fn mfa_names_differ()
    ensures
        "accounts/mfaEnrollment:start"@ != "accounts/mfaEnrollment:finalize"@,
        "accounts/mfaEnrollment:start"@ != "accounts/mfaSignIn:start"@,
        "accounts/mfaEnrollment:start"@ != "accounts/mfaSignIn:finalize"@,
        "accounts/mfaEnrollment:finalize"@ != "accounts/mfaSignIn:start"@,
        "accounts/mfaEnrollment:finalize"@ != "accounts/mfaSignIn:finalize"@,
        "accounts/mfaSignIn:start"@ != "accounts/mfaSignIn:finalize"@,
{
    reveal_strlit("accounts/mfaEnrollment:start");
    reveal_strlit("accounts/mfaEnrollment:finalize");
    reveal_strlit("accounts/mfaSignIn:start");
    reveal_strlit("accounts/mfaSignIn:finalize");
    assert("accounts/mfaEnrollment:start"@.len() == 28);
    assert("accounts/mfaEnrollment:finalize"@.len() == 31);
    assert("accounts/mfaSignIn:start"@.len() == 24);
    assert("accounts/mfaSignIn:finalize"@.len() == 27);
}

/// What clients ask for by the last part of a path.
pub proof fn clients_ask_by_name(action: Seq<char>)
    ensures
        identity_action_of("accounts:signUp"@) == Some((None::<Seq<char>>, IdentityAction::SignUp)),
        identity_action_of("accounts:signInWithPassword"@) == Some((None::<Seq<char>>, IdentityAction::SignInWithPassword)),
        identity_action_of("accounts:lookup"@) == Some((None::<Seq<char>>, IdentityAction::Lookup)),
        identity_action_of("accounts:delete"@) == Some((None::<Seq<char>>, IdentityAction::Delete)),
        identity_action_of("accounts:signInWithCustomToken"@) == Some((None::<Seq<char>>, IdentityAction::SignInWithCustomToken)),
        identity_action_of("accounts:signInWithIdp"@) == Some((None::<Seq<char>>, IdentityAction::SignInWithIdp)),
        identity_action_of("accounts:sendOobCode"@) == Some((None::<Seq<char>>, IdentityAction::SendOobCode)),
        identity_action_of("accounts:signInWithEmailLink"@) == Some((None::<Seq<char>>, IdentityAction::SignInWithEmailLink)),
        mfa_action_of("accounts/mfaEnrollment:start"@) == Some(MfaAction::StartEnrollment),
        mfa_action_of("accounts/mfaEnrollment:finalize"@) == Some(MfaAction::FinalizeEnrollment),
        mfa_action_of("accounts/mfaSignIn:start"@) == Some(MfaAction::StartSignIn),
        mfa_action_of("accounts/mfaSignIn:finalize"@) == Some(MfaAction::FinalizeSignIn),
        mfa_action_of(action) is None <==> !seq![
            "accounts/mfaEnrollment:start"@,
            "accounts/mfaEnrollment:finalize"@,
            "accounts/mfaSignIn:start"@,
            "accounts/mfaSignIn:finalize"@,
        ].contains(action),
{
    client_names_differ();
    mfa_names_differ();
    let names = seq!["accounts/mfaEnrollment:start"@, "accounts/mfaEnrollment:finalize"@, "accounts/mfaSignIn:start"@, "accounts/mfaSignIn:finalize"@];
    assert(names[0] == "accounts/mfaEnrollment:start"@ && names[1] == "accounts/mfaEnrollment:finalize"@ && names[2] == "accounts/mfaSignIn:start"@ && names[3] == "accounts/mfaSignIn:finalize"@);
}

/// What administrators ask for, of the project that they name.
#[verifier::rlimit(50)]
pub proof fn administrators_name_their_project(project_id: Seq<char>, rest: Seq<char>)
    requires
        project_id.len() > 0,
        !project_id.contains('/'),
    ensures
        identity_action_of("projects/"@ + project_id + "/"@ + "accounts"@) == Some(
            (Some(project_id), IdentityAction::AdminCreate),
        ),
        identity_action_of("projects/"@ + project_id + "/"@ + "accounts:lookup"@) == Some(
            (Some(project_id), IdentityAction::AdminLookup),
        ),
        identity_action_of("projects/"@ + project_id + "/"@ + "accounts:update"@) == Some(
            (Some(project_id), IdentityAction::AdminUpdate),
        ),
        identity_action_of("projects/"@ + project_id + "/"@ + "accounts:delete"@) == Some(
            (Some(project_id), IdentityAction::AdminDelete),
        ),
        identity_action_of("projects/"@ + project_id + "/"@ + "accounts:batchDelete"@) == Some(
            (Some(project_id), IdentityAction::AdminBatchDelete),
        ),
        identity_action_of("projects/"@ + project_id + "/"@ + "accounts:sendOobCode"@) == Some(
            (Some(project_id), IdentityAction::AdminSendOobCode),
        ),
        batch_get_project("projects/"@ + project_id + "/"@ + "accounts:batchGet"@) == Some(
            project_id,
        ),
        rest != "accounts:batchGet"@ ==> batch_get_project("projects/"@ + project_id + "/"@ + rest)
            is None,
{
    admin_names_differ();
    reveal_strlit("accounts");
    assert("accounts"@.len() == 8);
    reveal_strlit("accounts:lookup");
    assert("accounts:lookup"@.len() == 15);
    reveal_strlit("accounts:update");
    assert("accounts:update"@.len() == 15);
    reveal_strlit("accounts:delete");
    assert("accounts:delete"@.len() == 15);
    reveal_strlit("accounts:batchDelete");
    assert("accounts:batchDelete"@.len() == 20);
    reveal_strlit("accounts:sendOobCode");
    assert("accounts:sendOobCode"@.len() == 20);
    reveal_strlit("accounts:batchGet");
    assert("accounts:batchGet"@.len() == 17);
    project_is_named(project_id, "accounts"@);
    project_is_named(project_id, "accounts:lookup"@);
    project_is_named(project_id, "accounts:update"@);
    project_is_named(project_id, "accounts:delete"@);
    project_is_named(project_id, "accounts:batchDelete"@);
    project_is_named(project_id, "accounts:sendOobCode"@);
    project_is_named(project_id, "accounts:batchGet"@);
    if rest.len() > 0 {
        project_is_named(project_id, rest);
    } else {
        nothing_is_asked(project_id, rest);
    }
}

proof fn nothing_is_asked(project_id: Seq<char>, rest: Seq<char>)
    requires
        !project_id.contains('/'),
        rest.len() == 0,
    ensures
        project_action("projects/"@ + project_id + "/"@ + rest) is None,
{
    reveal_strlit("projects/");
    reveal_strlit("/");
    assert("/"@ =~= seq!['/']);
    one_char_lacks(project_id, '/');
    let action = "projects/"@ + project_id + "/"@ + rest;
    assert(action.subrange(0, 9) =~= "projects/"@);
    assert(action.skip(9) =~= project_id + "/"@ + rest);
    cut_reads_back(project_id, "/"@, rest);
}

proof fn project_is_named(project_id: Seq<char>, rest: Seq<char>)
    requires
        project_id.len() > 0,
        !project_id.contains('/'),
        rest.len() > 0,
    ensures
        project_action("projects/"@ + project_id + "/"@ + rest) == Some((project_id, rest)),
        client_action("projects/"@ + project_id + "/"@ + rest) is None,
{
    reveal_strlit("projects/");
    reveal_strlit("/");
    assert("/"@ =~= seq!['/']);
    one_char_lacks(project_id, '/');
    let action = "projects/"@ + project_id + "/"@ + rest;
    assert(action.subrange(0, 9) =~= "projects/"@);
    assert(action.skip(9) =~= project_id + "/"@ + rest);
    cut_reads_back(project_id, "/"@, rest);
    assert(action[0] == 'p');
    reveal_strlit("accounts:signUp");
    assert("accounts:signUp"@[0] == 'a');
    reveal_strlit("accounts:signInWithPassword");
    assert("accounts:signInWithPassword"@[0] == 'a');
    reveal_strlit("accounts:lookup");
    assert("accounts:lookup"@[0] == 'a');
    reveal_strlit("accounts:delete");
    assert("accounts:delete"@[0] == 'a');
    reveal_strlit("accounts:signInWithCustomToken");
    assert("accounts:signInWithCustomToken"@[0] == 'a');
    reveal_strlit("accounts:signInWithIdp");
    assert("accounts:signInWithIdp"@[0] == 'a');
    reveal_strlit("accounts:sendOobCode");
    assert("accounts:sendOobCode"@[0] == 'a');
    reveal_strlit("accounts:signInWithEmailLink");
    assert("accounts:signInWithEmailLink"@[0] == 'a');
}

/// Links are made for the host and by the scheme that a request came by, or else by `http` for the
/// host that is set.
pub proof fn links_lead_where_request_came(
    host: Option<Seq<char>>,
    proto: Option<Seq<char>>,
    default_host: Seq<char>,
)
    ensures
        host is Some && proto is Some ==> base_url(host, proto, default_host) == proto->0 + "://"@
            + host->0,
        host is Some && proto is None ==> base_url(host, proto, default_host) == "http"@ + "://"@
            + host->0,
        host is None && proto is Some ==> base_url(host, proto, default_host) == proto->0 + "://"@
            + default_host,
        host is None && proto is None ==> base_url(host, proto, default_host) == "http"@ + "://"@
            + default_host,
{
}

/// Each request does what it asks for, of the project that it is for, and is answered with what that
/// gives: those of clients are for the default project, those of administrators for the one that
/// they name.
#[verifier::rlimit(50)]
pub proof fn request_does_what_it_asks(
    v: AuthView,
    auth_base_url: Seq<char>,
    call: IdentityCall,
    d: DrawView,
)
    ensures
        ({
            let (w, r) = identity_step(v, auth_base_url, call, d);
            match call {
                IdentityCall::SignUp(request) => {
                    let done = sign_up_step(v, request, d);
                    w == done.0 && r is Ok == done.1 is Ok && (done.1 is Err ==> r->Err_0
                        == done.1->Err_0) && (done.1 is Ok ==> r->Ok_0
                        == IdentityAnswerView::SignedIn(done.1->Ok_0))
                },
                IdentityCall::SignInWithPassword(request) => {
                    let done = password_step(v, request, d);
                    w == done.0 && r is Ok == done.1 is Ok && (done.1 is Err ==> r->Err_0
                        == done.1->Err_0) && (done.1 is Ok ==> r->Ok_0
                        == IdentityAnswerView::Password(done.1->Ok_0))
                },
                IdentityCall::Lookup(request) => {
                    let done = (v, lookup_outcome(v, request));
                    w == done.0 && r is Ok == done.1 is Ok && (done.1 is Err ==> r->Err_0
                        == done.1->Err_0) && (done.1 is Ok ==> r->Ok_0
                        == IdentityAnswerView::Users(done.1->Ok_0))
                },
                IdentityCall::SignInWithCustomToken(request) => {
                    let done = custom_token_step(v, request, d);
                    w == done.0 && r is Ok == done.1 is Ok && (done.1 is Err ==> r->Err_0
                        == done.1->Err_0) && (done.1 is Ok ==> r->Ok_0
                        == IdentityAnswerView::SignedIn(done.1->Ok_0))
                },
                IdentityCall::SignInWithIdp(request) => {
                    let done = idp_step(v, request, d);
                    w == done.0 && r is Ok == done.1 is Ok && (done.1 is Err ==> r->Err_0
                        == done.1->Err_0) && (done.1 is Ok ==> r->Ok_0
                        == IdentityAnswerView::SignedIn(done.1->Ok_0))
                },
                IdentityCall::SendOobCode(request) => {
                    let done = send_oob_step(v, v.default_project, auth_base_url, request, d);
                    w == done.0 && r is Ok == done.1 is Ok && (done.1 is Err ==> r->Err_0
                        == done.1->Err_0) && (done.1 is Ok ==> r->Ok_0
                        == IdentityAnswerView::Mailed(done.1->Ok_0))
                },
                IdentityCall::SignInWithEmailLink(request) => {
                    let done = email_link_step(v, request, d);
                    w == done.0 && r is Ok == done.1 is Ok && (done.1 is Err ==> r->Err_0
                        == done.1->Err_0) && (done.1 is Ok ==> r->Ok_0
                        == IdentityAnswerView::SignedIn(done.1->Ok_0))
                },
                IdentityCall::AdminCreate(project_id, request) => {
                    let done = admin_create_step(v, project_id@, request, d);
                    w == done.0 && r is Ok == done.1 is Ok && (done.1 is Err ==> r->Err_0
                        == done.1->Err_0) && (done.1 is Ok ==> r->Ok_0
                        == IdentityAnswerView::User(done.1->Ok_0))
                },
                IdentityCall::AdminUpdate(project_id, request) => {
                    let done = admin_update_step(v, project_id@, request, d);
                    w == done.0 && r is Ok == done.1 is Ok && (done.1 is Err ==> r->Err_0
                        == done.1->Err_0) && (done.1 is Ok ==> r->Ok_0
                        == IdentityAnswerView::User(done.1->Ok_0))
                },
                IdentityCall::AdminSendOobCode(project_id, request) => {
                    let done = send_oob_step(v, project_id@, auth_base_url, request, d);
                    w == done.0 && r is Ok == done.1 is Ok && (done.1 is Err ==> r->Err_0
                        == done.1->Err_0) && (done.1 is Ok ==> r->Ok_0
                        == IdentityAnswerView::Mailed(done.1->Ok_0))
                },
                IdentityCall::Refresh(request) => {
                    let done = (v, refresh_outcome(v, request, d));
                    w == done.0 && r is Ok == done.1 is Ok && (done.1 is Err ==> r->Err_0
                        == done.1->Err_0) && (done.1 is Ok ==> r->Ok_0
                        == IdentityAnswerView::Tokens(done.1->Ok_0))
                },
                IdentityCall::StartEnrollment(request) => {
                    let done = enrollment_start_step(v, request, d);
                    w == done.0 && r is Ok == done.1 is Ok && (done.1 is Err ==> r->Err_0
                        == done.1->Err_0) && (done.1 is Ok ==> r->Ok_0
                        == IdentityAnswerView::Session(done.1->Ok_0))
                },
                IdentityCall::FinalizeEnrollment(request) => {
                    let done = enrollment_end_step(v, request, d);
                    w == done.0 && r is Ok == done.1 is Ok && (done.1 is Err ==> r->Err_0
                        == done.1->Err_0) && (done.1 is Ok ==> r->Ok_0
                        == IdentityAnswerView::SecondFactor(done.1->Ok_0))
                },
                IdentityCall::StartSignIn(request) => {
                    let done = mfa_start_step(v, request, d);
                    w == done.0 && r is Ok == done.1 is Ok && (done.1 is Err ==> r->Err_0
                        == done.1->Err_0) && (done.1 is Ok ==> r->Ok_0
                        == IdentityAnswerView::Session(done.1->Ok_0))
                },
                IdentityCall::FinalizeSignIn(request) => {
                    let done = mfa_end_step(v, request, d);
                    w == done.0 && r is Ok == done.1 is Ok && (done.1 is Err ==> r->Err_0
                        == done.1->Err_0) && (done.1 is Ok ==> r->Ok_0
                        == IdentityAnswerView::SecondFactor(done.1->Ok_0))
                },
                IdentityCall::Delete(request) => {
                    let named = delete_target(v, request);
                    let done = delete_outcome(v, v.default_project, named->Ok_0);
                    &&& named is Err ==> w == v && r == Err::<IdentityAnswerView, _>(named->Err_0)
                    &&& named is Ok ==> w == deleted(v, v.default_project, named->Ok_0)
                    &&& named is Ok && done is Ok ==> r == Ok::<_, AuthError>(
                        IdentityAnswerView::Done,
                    )
                    &&& named is Ok && done is Err ==> r == Err::<IdentityAnswerView, _>(
                        done->Err_0,
                    )
                },
                IdentityCall::AdminLookup(project_id, request) => w == v && r == Ok::<_, AuthError>(
                    IdentityAnswerView::Users(admin_found(v.project(project_id@), request)),
                ),
                IdentityCall::AdminDelete(project_id, request) => {
                    let done = delete_outcome(v, project_id@, request.local_id@);
                    &&& w == deleted(v, project_id@, request.local_id@)
                    &&& done is Ok ==> r == Ok::<_, AuthError>(IdentityAnswerView::Done)
                    &&& done is Err ==> r == Err::<IdentityAnswerView, _>(done->Err_0)
                },
                IdentityCall::AdminBatchDelete(project_id, request) => {
                    let ids = request.local_ids.deep_view();
                    &&& request.force != Some(true) ==> w == v && r == Err::<
                        IdentityAnswerView,
                        _,
                    >(AuthError::MissingForce)
                    &&& request.force == Some(true) ==> w == batch_deleted(v, project_id@, ids) && r
                        == Ok::<_, AuthError>(
                        IdentityAnswerView::NotDeleted(batch_errors(v, project_id@, ids)),
                    )
                },
            }
        }),
{
}

} // verus!
