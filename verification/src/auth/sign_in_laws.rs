//! Whom each way of signing in signs in, and what it leaves as it was.

use crate::auth::accounts::normal_email;
use crate::auth::errors::AuthError;
use crate::auth::provider::{
    first_field, form_fields, idp_identity, provider_names, raw_id_names, sanitized,
};
use crate::auth::records::{ProjectView, ProviderView, UserView};
use crate::auth::requests::{
    CustomTokenRequest, EmailLinkRequest, IdpRequest, SendOobCodeRequest, SignInRequest,
    SignUpRequest,
};
use crate::auth::responses::{AuthResponseView, PasswordResponseView};
use crate::auth::soundness::normal_email_idempotent;
use crate::auth::state::{
    custom_token_step, email_link_step, idp_step, password_step, send_oob_step, sign_up_step,
    AuthView,
};
use crate::auth::tokens::{custom_subject, id_token, refresh_token};
use crate::digest::{hex_text, sha256};
use crate::fresh::DrawView;
use crate::percent::percent_encoded;
use crate::trim::{case_changes_letters_alone, is_space, trimmed, trimming_takes_space_off_ends};
use vstd::prelude::*;
use vstd::utf8::encode_utf8;

verus! {

/// Whether two projects are the same but for one account and what leads to it.
pub open spec fn same_but_account(p: ProjectView, q: ProjectView, local_id: Seq<char>) -> bool {
    &&& q.users.remove(local_id) == p.users.remove(local_id)
    &&& q.ids_by_phone == p.ids_by_phone
    &&& q.verification_codes == p.verification_codes
    &&& q.sequence == p.sequence
    &&& q.pending == p.pending
    &&& forall|email: Seq<char>| #[trigger]
        p.ids_by_email.contains_key(email) ==> q.ids_by_email.contains_key(email)
            && q.ids_by_email[email] == p.ids_by_email[email]
    &&& forall|email: Seq<char>| #[trigger]
        q.ids_by_email.contains_key(email) && !p.ids_by_email.contains_key(email)
            ==> q.ids_by_email[email] == local_id
    &&& forall|key: (Seq<char>, Seq<char>)| #[trigger]
        q.ids_by_provider.contains_key(key) && q.ids_by_provider[key] != local_id
            ==> p.ids_by_provider.contains_key(key) && p.ids_by_provider[key]
            == q.ids_by_provider[key]
}

/// Whether the only thing that changed of an account is that it signed in at `now_ms`.
pub open spec fn only_signed_in(before: UserView, after: UserView, now_ms: nat) -> bool {
    &&& after.last_login_at_ms is Some
    &&& after.last_login_at_ms->0 == now_ms
    &&& after == (UserView { last_login_at_ms: after.last_login_at_ms, ..before })
}

/// Whether an account was made at `now_ms` and nothing has been set of it.
pub open spec fn is_plain(user: UserView, now_ms: nat) -> bool {
    &&& user.display_name is None
    &&& user.photo_url is None
    &&& user.phone_number is None
    &&& user.custom_attributes is None
    &&& !user.disabled
    &&& !user.email_verified
    &&& user.mfa_info.len() == 0
    &&& user.created_at_ms == now_ms
    &&& user.valid_since_secs == now_ms / 1000
}

/// Whether an answer is that an account is signed in: its id, its email address where it has one,
/// and tokens for it that are good for an hour, unless they are not wanted.
pub open spec fn tells_of(
    answer: AuthResponseView,
    project_id: Seq<char>,
    user: UserView,
    return_secure_token: Option<bool>,
    now_ms: nat,
    nonce: Seq<char>,
) -> bool {
    &&& answer.local_id == user.local_id
    &&& answer.email == if user.email.len() > 0 {
        Some(user.email)
    } else {
        None
    }
    &&& answer.expires_in == "3600"@
    &&& return_secure_token == Some(false) ==> answer.id_token.len() == 0
        && answer.refresh_token.len() == 0
    &&& return_secure_token != Some(false) ==> answer.id_token == id_token(
        project_id,
        user,
        None,
        (now_ms / 1000) as u64,
    ) && answer.refresh_token == refresh_token(
        project_id,
        user.local_id,
        None,
        (now_ms / 1000) as u64,
        nonce,
    )
}

/// Whoever gives an email address that no account has and a password of six bytes or more gets a
/// new account with them, under a new id; without both they get an account with neither. All other
/// requests are refused, each for its reason.
#[verifier::rlimit(50)]
pub proof fn sign_up_makes_one_account(v: AuthView, request: SignUpRequest, d: DrawView)
    requires
        d.now_ms <= u64::MAX,
        d.ids.len() >= 2,
    ensures
        ({
            let p = v.home();
            let (w, r) = sign_up_step(v, request, d);
            let q = w.home();
            let address = normal_email(request.email->0@);
            let taken = request.email is Some && address.len() > 0 && p.ids_by_email.contains_key(
                address,
            );
            let weak = request.password is Some && encode_utf8(request.password->0@).len() < 6;
            let user = q.users[d.ids[0]];
            &&& request.email is Some && request.password is None ==> r == Err::<
                AuthResponseView,
                _,
            >(AuthError::MissingEmailOrPassword)
            &&& request.email is None && request.password is Some ==> r == Err::<
                AuthResponseView,
                _,
            >(AuthError::MissingEmailOrPassword)
            &&& request.email is Some && request.password is Some && taken ==> r == Err::<
                AuthResponseView,
                _,
            >(AuthError::EmailExists)
            &&& request.email is Some && request.password is Some && !taken && weak ==> r == Err::<
                AuthResponseView,
                _,
            >(AuthError::WeakPassword)
            &&& request.email is Some && request.password is Some && !taken && !weak ==> {
                &&& r is Ok
                &&& q.users.contains_key(d.ids[0])
                &&& user.email == address
                &&& user.password_hash == Some(
                    hex_text(sha256(encode_utf8(request.password->0@))),
                )
                &&& user.providers == seq![
                    ProviderView {
                        provider_id: "password"@,
                        raw_id: d.ids[0],
                        email: address,
                    },
                ]
                &&& address.len() > 0 ==> q.ids_by_email.contains_key(address)
                    && q.ids_by_email[address] == d.ids[0]
            }
            &&& request.email is None && request.password is None ==> {
                &&& r is Ok
                &&& q.users.contains_key(d.ids[0])
                &&& user.email.len() == 0
                &&& user.password_hash is None
                &&& user.providers.len() == 0
                &&& q.ids_by_email == p.ids_by_email
            }
            &&& r is Ok ==> {
                &&& user.local_id == d.ids[0]
                &&& is_plain(user, d.now_ms)
                &&& user.last_login_at_ms is None
                &&& tells_of(
                    r->Ok_0,
                    v.default_project,
                    user,
                    request.return_secure_token,
                    d.now_ms,
                    d.ids[1],
                )
                &&& same_but_account(p, q, d.ids[0])
                &&& q.oob_codes == p.oob_codes
                &&& q.ids_by_provider == p.ids_by_provider
            }
            &&& r is Err ==> q == p
        }),
{
    let p = v.home();
    let (w, r) = sign_up_step(v, request, d);
    if r is Ok {
        assert(w.home().users.remove(d.ids[0]) =~= p.users.remove(d.ids[0]));
    }
}

/// A password signs in the account that has the email address, if it is that account's password
/// and the account is not disabled; one with a second factor is asked for that first. Whether it
/// is signed in or refused, no other account changes.
#[verifier::rlimit(50)]
pub proof fn password_signs_in_its_account(v: AuthView, request: SignInRequest, d: DrawView)
    requires
        d.now_ms <= u64::MAX,
        d.ids.len() >= 1,
    ensures
        ({
            let p = v.home();
            let (w, r) = password_step(v, request, d);
            let q = w.home();
            let address = normal_email(request.email@);
            let local_id = p.ids_by_email[address];
            let user = p.users[local_id];
            let known = p.ids_by_email.contains_key(address);
            let here = known && p.users.contains_key(local_id);
            let right = user.password_hash == Some(hex_text(sha256(encode_utf8(request.password@))));
            &&& !known ==> r == Err::<PasswordResponseView, _>(AuthError::EmailNotFound)
            &&& known && !here ==> r == Err::<PasswordResponseView, _>(AuthError::UserNotFound)
            &&& here && user.disabled ==> r == Err::<PasswordResponseView, _>(
                AuthError::UserDisabled,
            )
            &&& here && !user.disabled && !right ==> r == Err::<PasswordResponseView, _>(
                AuthError::InvalidPassword,
            )
            &&& r is Err ==> q == p
            &&& here && !user.disabled && right && user.mfa_info.len() == 0 ==> {
                &&& r is Ok
                &&& r->Ok_0 is SignedIn
                &&& tells_of(
                    r->Ok_0->SignedIn_0,
                    v.default_project,
                    q.users[local_id],
                    request.return_secure_token,
                    d.now_ms,
                    d.ids[0],
                )
                &&& only_signed_in(user, q.users[local_id], d.now_ms)
                &&& q == (ProjectView { users: p.users.insert(local_id, q.users[local_id]), ..p })
            }
            &&& here && !user.disabled && right && user.mfa_info.len() > 0 ==> {
                let credential = r->Ok_0->mfa_pending_credential;
                &&& r is Ok
                &&& r->Ok_0 is SecondFactorRequired
                &&& r->Ok_0->SecondFactorRequired_local_id == user.local_id
                &&& r->Ok_0->SecondFactorRequired_email == user.email
                &&& r->Ok_0->SecondFactorRequired_mfa_info == user.mfa_info
                &&& credential == "firelite-mfa-pending-"@ + d.ids[0]
                &&& q.pending.contains_key(credential)
                &&& q.pending[credential].local_id == user.local_id
                &&& q.pending[credential].issued_at == d.now_ms / 1000
                &&& q == (ProjectView {
                    pending: p.pending.insert(credential, q.pending[credential]),
                    ..p
                })
            }
        }),
{
}

/// A custom token signs in the account of its subject, which is made if there is none; without a
/// subject it is refused. No other account changes.
#[verifier::rlimit(50)]
pub proof fn custom_token_signs_in_its_subject(
    v: AuthView,
    request: CustomTokenRequest,
    d: DrawView,
)
    requires
        d.now_ms <= u64::MAX,
        d.ids.len() >= 1,
        forall|id: Seq<char>| #[trigger]
            v.home().users.contains_key(id) ==> v.home().users[id].local_id == id,
    ensures
        ({
            let p = v.home();
            let (w, r) = custom_token_step(v, request, d);
            let q = w.home();
            let local_id = custom_subject(request.token@)->0;
            let address = normal_email(local_id + "@custom-token.local"@);
            let user = q.users[local_id];
            &&& custom_subject(request.token@) is None ==> r == Err::<AuthResponseView, _>(
                AuthError::InvalidCustomToken,
            ) && w == v
            &&& custom_subject(request.token@) is Some ==> {
                &&& r is Ok
                &&& r->Ok_0.local_id == local_id
                &&& q.users.contains_key(local_id)
                &&& tells_of(
                    r->Ok_0,
                    v.default_project,
                    user,
                    request.return_secure_token,
                    d.now_ms,
                    d.ids[0],
                )
                &&& p.users.contains_key(local_id) ==> only_signed_in(
                    p.users[local_id],
                    user,
                    d.now_ms,
                ) && q == (ProjectView { users: p.users.insert(local_id, user), ..p })
                &&& !p.users.contains_key(local_id) ==> {
                    &&& is_plain(user, d.now_ms)
                    &&& user.local_id == local_id
                    &&& user.email == address
                    &&& user.password_hash is None
                    &&& user.providers == seq![
                        ProviderView {
                            provider_id: "custom"@,
                            raw_id: local_id,
                            email: address,
                        },
                    ]
                    &&& same_but_account(p, q, local_id)
                    &&& q.oob_codes == p.oob_codes
                    &&& q.ids_by_email.contains_key(address)
                    &&& q.ids_by_provider.contains_key(("custom"@, local_id))
                    &&& q.ids_by_provider[("custom"@, local_id)] == local_id
                }
            }
        }),
{
    let p = v.home();
    let (w, r) = custom_token_step(v, request, d);
    if custom_subject(request.token@) is Some {
        let local_id = custom_subject(request.token@)->0;
        let q = w.home();
        assert(q.users.remove(local_id) =~= p.users.remove(local_id));
        assert(q.users =~= p.users.insert(local_id, q.users[local_id]));
    }
}

/// What the form of a sign-in at a provider says of who signs in: the provider, their id there and
/// their email address, each under the first name for it that the form has. Without an id one is
/// made up, without an email address one is made of the id.
#[verifier::rlimit(50)]
pub proof fn form_tells_identity(form: Map<Seq<char>, Seq<char>>, d: DrawView)
    ensures
        ({
            let who = idp_identity(form, d);
            let raw_id = who->0.raw_id;
            &&& who is Some <==> form.contains_key("providerId"@) || form.contains_key(
                "provider_id"@,
            )
            &&& form.contains_key("providerId"@) ==> who->0.provider_id == form["providerId"@]
            &&& !form.contains_key("providerId"@) && form.contains_key("provider_id"@)
                ==> who->0.provider_id == form["provider_id"@]
            &&& who is Some && form.contains_key("rawId"@) ==> raw_id == form["rawId"@]
            &&& who is Some && !form.contains_key("rawId"@) && form.contains_key("raw_id"@)
                ==> raw_id == form["raw_id"@]
            &&& who is Some && !form.contains_key("rawId"@) && !form.contains_key("raw_id"@)
                && form.contains_key("id_token"@) ==> raw_id == form["id_token"@]
            &&& who is Some && !form.contains_key("rawId"@) && !form.contains_key("raw_id"@)
                && !form.contains_key("id_token"@) && form.contains_key("access_token"@) ==> raw_id
                == form["access_token"@]
            &&& who is Some && !form.contains_key("rawId"@) && !form.contains_key("raw_id"@)
                && !form.contains_key("id_token"@) && !form.contains_key("access_token"@)
                && form.contains_key("oauth_token"@) ==> raw_id == form["oauth_token"@]
            &&& who is Some && !form.contains_key("rawId"@) && !form.contains_key("raw_id"@)
                && !form.contains_key("id_token"@) && !form.contains_key("access_token"@)
                && !form.contains_key("oauth_token"@) ==> raw_id == who->0.provider_id + ":"@
                + d.ids[0]
            &&& who is Some && form.contains_key("email"@) ==> who->0.email == normal_email(
                form["email"@],
            )
            &&& who is Some && !form.contains_key("email"@) ==> exists|local: Seq<char>|
                local.len() == raw_id.len() && (forall|i: int|
                    0 <= i < raw_id.len() ==> #[trigger] local[i] == if ('a' <= raw_id[i] <= 'z')
                        || ('A' <= raw_id[i] <= 'Z') || ('0' <= raw_id[i] <= '9') || raw_id[i]
                        == '.' || raw_id[i] == '-' || raw_id[i] == '_' {
                        raw_id[i]
                    } else {
                        '_'
                    }) && who->0.email == #[trigger] normal_email(
                    local + "@"@ + who->0.provider_id + ".local"@,
                )
        }),
{
    reveal_with_fuel(first_field, 6);
    let names = raw_id_names();
    let rest1 = names.drop_first();
    let rest2 = rest1.drop_first();
    let rest3 = rest2.drop_first();
    let rest4 = rest3.drop_first();
    assert(names[0] == "rawId"@ && rest1[0] == "raw_id"@ && rest2[0] == "id_token"@ && rest3[0]
        == "access_token"@ && rest4[0] == "oauth_token"@ && rest4.drop_first().len() == 0);
    let provider = provider_names();
    assert(provider[0] == "providerId"@ && provider.drop_first()[0] == "provider_id"@
        && provider.drop_first().drop_first().len() == 0);
    if let Some(who) = idp_identity(form, d) {
        let local = sanitized(who.raw_id);
        assert(normal_email(local + "@"@ + who.provider_id + ".local"@) == normal_email(
            local + "@"@ + who.provider_id + ".local"@,
        ));
    }
}

/// Whoever is known by an identity at a provider is signed in as the account of that identity; for
/// an identity that is not known an account is made, which has it from then on. No other account
/// changes.
#[verifier::rlimit(50)]
pub proof fn identity_signs_in_its_account(v: AuthView, request: IdpRequest, d: DrawView)
    requires
        d.now_ms <= u64::MAX,
        d.ids.len() >= 3,
        forall|id: Seq<char>| #[trigger]
            v.home().users.contains_key(id) ==> v.home().users[id].local_id == id,
    ensures
        ({
            let p = v.home();
            let who = idp_identity(form_fields(request.post_body@), d);
            let key = (who->0.provider_id, who->0.raw_id);
            let known = p.ids_by_provider.contains_key(key) && p.users.contains_key(
                p.ids_by_provider[key],
            );
            let (w, r) = idp_step(v, request, d);
            let q = w.home();
            let local_id = r->Ok_0.local_id;
            let user = q.users[local_id];
            &&& who is None ==> r == Err::<AuthResponseView, _>(AuthError::MissingProviderId) && w
                == v
            &&& who is Some ==> {
                &&& r is Ok
                &&& q.users.contains_key(local_id)
                &&& tells_of(
                    r->Ok_0,
                    v.default_project,
                    user,
                    request.return_secure_token,
                    d.now_ms,
                    d.ids[2],
                )
                &&& known ==> {
                    &&& local_id == p.ids_by_provider[key]
                    &&& only_signed_in(p.users[local_id], user, d.now_ms)
                    &&& q == (ProjectView { users: p.users.insert(local_id, user), ..p })
                }
                &&& !known ==> {
                    &&& local_id == d.ids[1]
                    &&& is_plain(user, d.now_ms)
                    &&& user.email == who->0.email
                    &&& user.password_hash is None
                    &&& user.providers == seq![
                        ProviderView {
                            provider_id: who->0.provider_id,
                            raw_id: who->0.raw_id,
                            email: who->0.email,
                        },
                    ]
                    &&& q.ids_by_provider.contains_key(key) && q.ids_by_provider[key] == local_id
                    &&& q.ids_by_email.contains_key(who->0.email)
                    &&& same_but_account(p, q, local_id)
                    &&& q.oob_codes == p.oob_codes
                }
            }
        }),
{
    let p = v.home();
    let (w, r) = idp_step(v, request, d);
    if r is Ok {
        let local_id = r->Ok_0.local_id;
        let q = w.home();
        assert(q.users.remove(local_id) =~= p.users.remove(local_id));
        assert(q.users =~= p.users.insert(local_id, q.users[local_id]));
    }
}

/// A code is mailed for a sign-in to any address, and for a new password only to that of an
/// account; it is kept under itself with the address it went to.
#[verifier::rlimit(50)]
pub proof fn mailed_code_is_kept(
    v: AuthView,
    project_id: Seq<char>,
    auth_base_url: Seq<char>,
    request: SendOobCodeRequest,
    d: DrawView,
)
    requires
        d.now_ms <= u64::MAX,
        d.ids.len() >= 1,
    ensures
        ({
            let p = v.project(project_id);
            let (w, r) = send_oob_step(v, project_id, auth_base_url, request, d);
            let q = w.project(project_id);
            let address = normal_email(request.email@);
            let code = r->Ok_0.oob_code;
            let sign_in = request.request_type@ == "EMAIL_SIGNIN"@;
            let reset = request.request_type@ == "PASSWORD_RESET"@;
            &&& !sign_in && !reset ==> r is Err && r->Err_0 == AuthError::UnsupportedOobRequestType
            &&& reset && !p.ids_by_email.contains_key(address) ==> r is Err && r->Err_0
                == AuthError::EmailNotFound
            &&& sign_in || (reset && p.ids_by_email.contains_key(address)) ==> {
                &&& r is Ok
                &&& code == "firelite-oob-"@ + d.ids[0]
                &&& r->Ok_0.email == address
                &&& q.oob_codes.contains_key(code)
                &&& q.oob_codes[code].email == address
                &&& q.oob_codes[code].request_type == request.request_type@
                &&& q.oob_codes[code].created_at_ms == d.now_ms
                &&& q == (ProjectView {
                    oob_codes: p.oob_codes.insert(code, q.oob_codes[code]),
                    ..p
                })
                &&& request.return_oob_link != Some(true) ==> r->Ok_0.oob_link is None
                &&& request.return_oob_link == Some(true) ==> r->Ok_0.oob_link == Some(
                    auth_base_url + "/emulator/action?mode="@ + (if reset {
                        "resetPassword"@
                    } else {
                        "signIn"@
                    }) + "&oobCode="@ + percent_encoded(code) + "&projectId="@ + percent_encoded(
                        project_id,
                    ),
                )
            }
            &&& r is Err ==> q == p
        }),
{
    reveal_strlit("EMAIL_SIGNIN");
    reveal_strlit("PASSWORD_RESET");
    assert("EMAIL_SIGNIN"@[0] == 'E' && "PASSWORD_RESET"@[0] == 'P');
}

/// A mailed code that was sent for a sign-in signs in the account that has the address it was sent
/// to, and no account is made where there is one; only for an address that no account has is one
/// made. The code is used up, and no other account changes.
#[verifier::rlimit(50)]
pub proof fn mailed_code_signs_in_its_account(v: AuthView, request: EmailLinkRequest, d: DrawView)
    requires
        d.now_ms <= u64::MAX,
        d.ids.len() >= 2,
        forall|id: Seq<char>| #[trigger]
            v.home().users.contains_key(id) ==> v.home().users[id].local_id == id,
        forall|email: Seq<char>| #[trigger]
            v.home().ids_by_email.contains_key(email) ==> v.home().users.contains_key(
                v.home().ids_by_email[email],
            ),
    ensures
        ({
            let p = v.home();
            let (w, r) = email_link_step(v, request, d);
            let q = w.home();
            let address = normal_email(request.email@);
            let sent = p.oob_codes[request.oob_code@];
            let local_id = r->Ok_0.local_id;
            let user = q.users[local_id];
            let known = p.oob_codes.contains_key(request.oob_code@);
            let right = sent.request_type == "EMAIL_SIGNIN"@ && normal_email(sent.email)
                == address;
            &&& !known ==> r == Err::<AuthResponseView, _>(AuthError::InvalidOobCode) && q == p
            &&& known && !right ==> r == Err::<AuthResponseView, _>(AuthError::InvalidEmail)
            &&& q.oob_codes == p.oob_codes.remove(request.oob_code@)
            &&& r is Err ==> q == (ProjectView { oob_codes: q.oob_codes, ..p })
            &&& known && right ==> {
                &&& r is Ok
                &&& q.users.contains_key(local_id)
                &&& tells_of(
                    r->Ok_0,
                    v.default_project,
                    user,
                    request.return_secure_token,
                    d.now_ms,
                    d.ids[1],
                )
                &&& p.ids_by_email.contains_key(address) ==> {
                    &&& local_id == p.ids_by_email[address]
                    &&& q.users.dom() == p.users.dom()
                    &&& only_signed_in(p.users[local_id], user, d.now_ms)
                    &&& q == (ProjectView {
                        users: p.users.insert(local_id, user),
                        oob_codes: q.oob_codes,
                        ..p
                    })
                }
                &&& !p.ids_by_email.contains_key(address) && !p.users.contains_key(d.ids[0]) ==> {
                    &&& local_id == d.ids[0]
                    &&& is_plain(user, d.now_ms)
                    &&& user.email == address
                    &&& user.password_hash is None
                    &&& user.providers == seq![
                        ProviderView {
                            provider_id: "emailLink"@,
                            raw_id: address,
                            email: address,
                        },
                    ]
                    &&& q.ids_by_email.contains_key(address) && q.ids_by_email[address] == local_id
                    &&& same_but_account(p, q, local_id)
                }
            }
        }),
{
    let p = v.home();
    let (w, r) = email_link_step(v, request, d);
    let q = w.home();
    let address = normal_email(request.email@);
    normal_email_idempotent(request.email@);
    assert(p.oob_codes.contains_key(request.oob_code@) || p.oob_codes.remove(request.oob_code@)
        =~= p.oob_codes);
    if r is Ok {
        let local_id = r->Ok_0.local_id;
        assert(q.users.remove(local_id) =~= p.users.remove(local_id));
        assert(q.users =~= p.users.insert(local_id, q.users[local_id]));
        if p.ids_by_email.contains_key(address) {
            assert(q.users.dom() =~= p.users.dom());
        }
    }
}

/// An account is known by its email address however the address is written: white space at its
/// ends does not count, nor does the case of its letters, and everything else does.
pub proof fn address_is_known_however_written(email: Seq<char>)
    ensures
        exists|a: int, b: int| #![trigger email.subrange(a, b)]
            0 <= a <= b <= email.len() && normal_email(email).len() == b - a && (forall|i: int|
                0 <= i < a ==> is_space(#[trigger] email[i])) && (forall|i: int|
                b <= i < email.len() ==> is_space(#[trigger] email[i])) && (b > a ==> !is_space(
                email[a],
            ) && !is_space(email[b - 1])) && (forall|i: int|
                0 <= i < b - a ==> if 'A' <= email[a + i] <= 'Z' {
                    #[trigger] normal_email(email)[i] as u32 == email[a + i] as u32 + 32
                } else {
                    normal_email(email)[i] == email[a + i]
                }),
{
    trimming_takes_space_off_ends(email);
    let (a, b) = choose|a: int, b: int|
        0 <= a <= b <= email.len() && trimmed(email) == #[trigger] email.subrange(a, b) && (forall|
            i: int,
        |
            0 <= i < a ==> is_space(#[trigger] email[i])) && (forall|i: int|
            b <= i < email.len() ==> is_space(#[trigger] email[i]));
    let inner = email.subrange(a, b);
    assert forall|i: int| 0 <= i < b - a implies if 'A' <= email[a + i] <= 'Z' {
        #[trigger] normal_email(email)[i] as u32 == email[a + i] as u32 + 32
    } else {
        normal_email(email)[i] == email[a + i]
    } by {
        case_changes_letters_alone(inner, i);
        assert(inner[i] == email[a + i]);
    }
}

} // verus!
