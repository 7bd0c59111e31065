//! What administrators and bearers of tokens do to accounts, and what they are told of them.

use crate::auth::accounts::{is_phone_number, normal_email, with_phone_provider};
use crate::auth::directory::{without_providers, LookupKey};
use crate::auth::errors::AuthError;
use crate::auth::queries::{
    accounts_asked, admin_found, batch_deleted, batch_errors, delete_outcome, delete_target,
    deleted, first_accounts, lookup_outcome, oob_action_outcome, refresh_outcome, without_project,
};
use crate::auth::records::{
    MfaView, OobCodeView, ProjectView, ProviderView, UserView, VerificationView,
};
use crate::auth::requests::{
    AdminCreateRequest, AdminLookupRequest, AdminUpdateRequest, DeleteRequest, LookupRequest,
    OobActionQuery, RefreshTokenRequest,
};
use crate::auth::responses::{
    shown, shown_oob_code, shown_verification_code, BatchDeleteErrorView, EmulatorUserView,
    OobActionView, SecureTokenView,
};
use crate::auth::state::{admin_create_step, admin_update_step, client_claims, AuthView};
use crate::auth::tokens::{claims_of, id_token, refresh_claims_of, refresh_token};
use crate::calendar::timestamp_text;
use crate::decimal::{all_digits, decimal, is_digit};
use crate::digest::{hex_text, sha256};
use crate::fresh::DrawView;
use crate::text_map::listing;
use vstd::prelude::*;
use vstd::utf8::encode_utf8;

verus! {

/// Whether what is shown is shown of an account: all that is kept of it, with its times as decimal
/// texts, and the time it was made at for an account that has not signed in.
pub open spec fn shows(answer: EmulatorUserView, user: UserView) -> bool {
    &&& answer.local_id == user.local_id
    &&& user.email.len() > 0 ==> answer.email == Some(user.email)
    &&& user.email.len() == 0 ==> answer.email is None
    &&& answer.display_name == user.display_name
    &&& answer.photo_url == user.photo_url
    &&& answer.phone_number == user.phone_number
    &&& answer.custom_attributes == user.custom_attributes
    &&& answer.disabled == user.disabled
    &&& answer.email_verified == user.email_verified
    &&& answer.password_hash == user.password_hash
    &&& answer.valid_since == decimal(user.valid_since_secs as nat)
    &&& answer.created_at == decimal(user.created_at_ms as nat)
    &&& user.last_login_at_ms is Some ==> answer.last_login_at == decimal(
        user.last_login_at_ms->0 as nat,
    )
    &&& user.last_login_at_ms is None ==> answer.last_login_at == decimal(
        user.created_at_ms as nat,
    )
    &&& answer.provider_user_info == user.providers
    &&& answer.mfa_info == user.mfa_info
}

/// An account is shown as it is kept.
pub proof fn account_is_shown_as_kept(user: UserView)
    ensures
        shows(shown(user), user),
{
}

/// Whether second factors are kept as they were given, with an id and a time for those that came
/// without, and the number in full where it was not given apart.
pub open spec fn kept_factors(
    given: Seq<MfaView>,
    kept: Seq<MfaView>,
    d: DrawView,
    first: int,
) -> bool {
    &&& kept.len() == given.len()
    &&& forall|i: int| #![trigger kept[i]]
        0 <= i < kept.len() ==> {
            &&& kept[i].phone_info == given[i].phone_info
            &&& kept[i].display_name == given[i].display_name
            &&& given[i].mfa_enrollment_id is Some ==> kept[i].mfa_enrollment_id
                == given[i].mfa_enrollment_id
            &&& given[i].mfa_enrollment_id is None ==> kept[i].mfa_enrollment_id == Some(
                d.ids[first + i],
            )
            &&& given[i].enrolled_at is Some ==> kept[i].enrolled_at == given[i].enrolled_at
            &&& given[i].enrolled_at is None ==> kept[i].enrolled_at == Some(
                timestamp_text(d.now_ms),
            )
            &&& given[i].unobfuscated_phone_info is Some ==> kept[i].unobfuscated_phone_info
                == given[i].unobfuscated_phone_info
            &&& given[i].unobfuscated_phone_info is None ==> kept[i].unobfuscated_phone_info
                == given[i].phone_info
        }
}

/// A phone number is a plus and then one to fifteen digits.
pub proof fn phone_number_is_plus_and_digits(s: Seq<char>)
    ensures
        is_phone_number(s) ==> s.len() >= 2 && s[0] == '+' && forall|i: int|
            1 <= i < s.len() ==> '0' <= #[trigger] s[i] <= '9',
        is_phone_number(s) <==> s.len() > 0 && s[0] == '+' && 1 <= encode_utf8(s.skip(1)).len()
            <= 15 && forall|i: int| 1 <= i < s.len() ==> '0' <= #[trigger] s[i] <= '9',
{
    let plus = seq!['+'];
    if s.len() > 0 {
        assert(s.subrange(0, 1) =~= seq![s[0]]);
        assert(seq![s[0]][0] == s[0] && plus[0] == '+');
        assert(plus.is_prefix_of(s) <==> s[0] == '+');
        let rest = s.skip(1);
        assert forall|i: int| 0 <= i < rest.len() implies rest[i] == s[i + 1] by {}
        if all_digits(rest) {
            assert forall|i: int| 1 <= i < s.len() implies '0' <= #[trigger] s[i] <= '9' by {
                assert(is_digit(rest[i - 1]));
            }
        }
        if rest.len() == 0 {
            assert(rest =~= Seq::<char>::empty());
            assert(encode_utf8(rest).len() == 0);
        }
    }
}

/// An administrator makes an account with all that they give of it, under the id and the email
/// address that they give or else new ones. An id, an address or a phone number that an account has
/// is refused, and so is a phone number that is none. No other account changes.
#[verifier::rlimit(50)]
pub proof fn created_account_is_as_given(
    v: AuthView,
    project_id: Seq<char>,
    request: AdminCreateRequest,
    d: DrawView,
)
    requires
        d.now_ms <= u64::MAX,
        d.ids.len() >= 1,
    ensures
        ({
            let p = v.project(project_id);
            let (w, r) = admin_create_step(v, project_id, request, d);
            let q = w.project(project_id);
            let local_id = if request.local_id is Some {
                request.local_id->0@
            } else {
                d.ids[0]
            };
            let address = if request.email is Some {
                normal_email(request.email->0@)
            } else {
                normal_email(local_id + "@admin.local"@)
            };
            let phone = request.phone_number->0@;
            let user = q.users[local_id];
            let id_taken = p.users.contains_key(local_id);
            let address_taken = p.ids_by_email.contains_key(address);
            let phone_taken = request.phone_number is Some && p.ids_by_phone.contains_key(phone);
            let no_phone = request.phone_number is Some && !is_phone_number(phone);
            &&& id_taken ==> r == Err::<EmulatorUserView, _>(AuthError::UidExists)
            &&& !id_taken && address_taken ==> r == Err::<EmulatorUserView, _>(
                AuthError::EmailExists,
            )
            &&& !id_taken && !address_taken && phone_taken ==> r == Err::<EmulatorUserView, _>(
                AuthError::PhoneNumberExists,
            )
            &&& !id_taken && !address_taken && !phone_taken && no_phone ==> r == Err::<
                EmulatorUserView,
                _,
            >(AuthError::InvalidPhoneNumber)
            &&& r is Err ==> q == p
            &&& !id_taken && !address_taken && !phone_taken && !no_phone ==> {
                &&& r is Ok
                &&& shows(r->Ok_0, user)
                &&& q.users == p.users.insert(local_id, user)
                &&& q.ids_by_email == p.ids_by_email.insert(address, local_id)
                &&& request.phone_number is Some ==> q.ids_by_phone == p.ids_by_phone.insert(
                    phone,
                    local_id,
                )
                &&& request.phone_number is None ==> q.ids_by_phone == p.ids_by_phone
                &&& q == (ProjectView {
                    users: q.users,
                    ids_by_email: q.ids_by_email,
                    ids_by_phone: q.ids_by_phone,
                    ..p
                })
                &&& user.local_id == local_id
                &&& user.email == address
                &&& user.display_name == request.display_name.deep_view()
                &&& user.photo_url == request.photo_url.deep_view()
                &&& user.phone_number == request.phone_number.deep_view()
                &&& user.custom_attributes == request.custom_attributes.deep_view()
                &&& user.disabled == (request.disabled == Some(true))
                &&& user.email_verified == (request.email_verified == Some(true))
                &&& request.password is Some ==> user.password_hash == Some(
                    hex_text(sha256(encode_utf8(request.password->0@))),
                )
                &&& request.password is None ==> user.password_hash is None
                &&& request.mfa_info is None ==> user.mfa_info.len() == 0
                &&& request.mfa_info is Some ==> kept_factors(
                    request.mfa_info->0.deep_view(),
                    user.mfa_info,
                    d,
                    1,
                )
                &&& user.providers == seq![
                    ProviderView { provider_id: "password"@, raw_id: local_id, email: address },
                ]
                &&& user.created_at_ms == d.now_ms
                &&& user.valid_since_secs == d.now_ms / 1000
                &&& user.last_login_at_ms is None
            }
        }),
{
}

/// An administrator's change sets what it gives and leaves the rest of the account as it was: it
/// takes away a name or a picture that it lists for that and does not set, sets a password, which
/// makes older tokens invalid, and replaces the second factors where it gives some.
#[verifier::rlimit(50)]
pub proof fn change_sets_what_it_gives(
    v: AuthView,
    project_id: Seq<char>,
    request: AdminUpdateRequest,
    d: DrawView,
)
    requires
        d.now_ms <= u64::MAX,
    ensures
        ({
            let p = v.project(project_id);
            let (w, r) = admin_update_step(v, project_id, request, d);
            let q = w.project(project_id);
            let local_id = request.local_id@;
            let before = p.users[local_id];
            let after = q.users[local_id];
            let phone = request.phone_number->0@;
            let phone_taken = request.phone_number is Some && p.ids_by_phone.contains_key(phone)
                && p.ids_by_phone[phone] != local_id;
            let no_phone = request.phone_number is Some && !is_phone_number(phone);
            let drops = |name: Seq<char>|
                request.delete_attribute is Some
                    && request.delete_attribute->0.deep_view().contains(name);
            let drops_phone = request.delete_provider is Some
                && request.delete_provider->0.deep_view().contains("phone"@);
            let known = p.users.contains_key(local_id);
            &&& v.projects.contains_key(project_id) && phone_taken ==> r == Err::<
                EmulatorUserView,
                _,
            >(AuthError::PhoneNumberExists)
            &&& v.projects.contains_key(project_id) && !phone_taken && no_phone ==> r == Err::<
                EmulatorUserView,
                _,
            >(AuthError::InvalidPhoneNumber)
            &&& !known && !phone_taken && !no_phone ==> r == Err::<EmulatorUserView, _>(
                AuthError::UserNotFound,
            )
            &&& r is Err ==> w == v
            &&& known && !phone_taken && !no_phone ==> {
                &&& r is Ok
                &&& shows(r->Ok_0, after)
                &&& q.users == p.users.insert(local_id, after)
                &&& q == (ProjectView { users: q.users, ids_by_phone: q.ids_by_phone, ..p })
                &&& after.local_id == before.local_id
                &&& after.email == before.email
                &&& after.created_at_ms == before.created_at_ms
                &&& after.last_login_at_ms == before.last_login_at_ms
                &&& request.display_name is Some ==> after.display_name
                    == request.display_name.deep_view()
                &&& request.display_name is None && drops("DISPLAY_NAME"@) ==> after.display_name
                    is None
                &&& request.display_name is None && !drops("DISPLAY_NAME"@) ==> after.display_name
                    == before.display_name
                &&& request.photo_url is Some ==> after.photo_url == request.photo_url.deep_view()
                &&& request.photo_url is None && drops("PHOTO_URL"@) ==> after.photo_url is None
                &&& request.photo_url is None && !drops("PHOTO_URL"@) ==> after.photo_url
                    == before.photo_url
                &&& request.custom_attributes is Some ==> after.custom_attributes
                    == request.custom_attributes.deep_view()
                &&& request.custom_attributes is None ==> after.custom_attributes
                    == before.custom_attributes
                &&& request.disabled is Some ==> after.disabled == request.disabled->0
                &&& request.disabled is None && request.disable_user is Some ==> after.disabled
                    == request.disable_user->0
                &&& request.disabled is None && request.disable_user is None ==> after.disabled
                    == before.disabled
                &&& request.email_verified is Some ==> after.email_verified
                    == request.email_verified->0
                &&& request.email_verified is None ==> after.email_verified
                    == before.email_verified
                &&& request.password is Some ==> after.password_hash == Some(
                    hex_text(sha256(encode_utf8(request.password->0@))),
                )
                &&& request.password is None ==> after.password_hash == before.password_hash
                &&& request.valid_since is Some ==> after.valid_since_secs
                    == request.valid_since->0
                &&& request.valid_since is None && request.password is Some
                    ==> after.valid_since_secs == d.now_ms / 1000
                &&& request.valid_since is None && request.password is None
                    ==> after.valid_since_secs == before.valid_since_secs
                &&& request.mfa_info is Some ==> kept_factors(
                    request.mfa_info->0.deep_view(),
                    after.mfa_info,
                    d,
                    0,
                )
                &&& request.mfa_info is None && request.mfa is Some
                    && request.mfa->0.enrollments is Some ==> kept_factors(
                    request.mfa->0.enrollments->0.deep_view(),
                    after.mfa_info,
                    d,
                    0,
                )
                &&& request.mfa_info is None && request.mfa is Some
                    && request.mfa->0.enrollments is None ==> after.mfa_info.len() == 0
                &&& request.mfa_info is None && request.mfa is None ==> after.mfa_info
                    == before.mfa_info
                &&& request.phone_number is Some ==> after.phone_number == Some(phone)
                    && q.ids_by_phone.contains_key(phone) && q.ids_by_phone[phone] == local_id
                &&& request.phone_number is Some && !drops_phone ==> after.providers
                    == with_phone_provider(before.providers, phone)
                &&& request.phone_number is Some && drops_phone ==> after.providers
                    == with_phone_provider(
                    before.providers.filter(
                        |known_by: ProviderView| known_by.provider_id != "phone"@,
                    ),
                    phone,
                )
                &&& request.phone_number is None && drops_phone ==> after.phone_number is None
                    && after.providers == before.providers.filter(
                    |known_by: ProviderView| known_by.provider_id != "phone"@,
                )
                &&& request.phone_number is None && !drops_phone ==> after.phone_number
                    == before.phone_number && after.providers == before.providers
                    && q.ids_by_phone == p.ids_by_phone
                &&& before.phone_number is Some && after.phone_number != before.phone_number
                    ==> !q.ids_by_phone.contains_key(before.phone_number->0)
                &&& forall|number: Seq<char>| #[trigger]
                    p.ids_by_phone.contains_key(number) && request.phone_number.deep_view()
                        != Some(number) && before.phone_number != Some(number)
                        ==> q.ids_by_phone.contains_key(number) && q.ids_by_phone[number]
                        == p.ids_by_phone[number]
            }
        }),
{
}

/// An account gets a phone among what it is known by, in the place of the first that was there or
/// behind all others; those that are no phone stay.
pub proof fn phone_takes_the_place_of_phone(providers: Seq<ProviderView>, phone: Seq<char>)
    ensures
        ({
            let r = with_phone_provider(providers, phone);
            let mine = ProviderView {
                provider_id: "phone"@,
                raw_id: phone,
                email: Seq::empty(),
            };
            let had = exists|i: int|
                0 <= i < providers.len() && (#[trigger] providers[i]).provider_id == "phone"@;
            &&& r.contains(mine)
            &&& !had ==> r == providers.push(mine)
            &&& had ==> r.len() == providers.len() && exists|i: int| #![trigger providers[i]]
                0 <= i < providers.len() && providers[i].provider_id == "phone"@ && (forall|j: int|
                    0 <= j < i ==> (#[trigger] providers[j]).provider_id != "phone"@) && r
                    == providers.update(i, mine)
        }),
    decreases providers.len(),
{
    let mine = ProviderView { provider_id: "phone"@, raw_id: phone, email: Seq::empty() };
    let r = with_phone_provider(providers, phone);
    if providers.len() == 0 {
        assert(r =~= providers.push(mine));
        assert(r[0] == mine);
    } else if providers[0].provider_id == "phone"@ {
        assert(r =~= providers.update(0, mine));
        assert(r[0] == mine);
    } else {
        let rest = providers.drop_first();
        phone_takes_the_place_of_phone(rest, phone);
        let tail = with_phone_provider(rest, phone);
        let at = choose|k: int| 0 <= k < tail.len() && tail[k] == mine;
        assert(r[at + 1] == mine);
        if exists|i: int| 0 <= i < rest.len() && (#[trigger] rest[i]).provider_id == "phone"@ {
            let i = choose|i: int| #![trigger rest[i]]
                0 <= i < rest.len() && rest[i].provider_id == "phone"@ && (forall|j: int|
                    0 <= j < i ==> (#[trigger] rest[j]).provider_id != "phone"@) && tail
                    == rest.update(i, mine);
            assert(providers[i + 1] == rest[i]);
            assert forall|j: int| 0 <= j < i + 1 implies (#[trigger] providers[j]).provider_id
                != "phone"@ by {
                if j > 0 {
                    assert(providers[j] == rest[j - 1]);
                }
            }
            assert(r =~= providers.update(i + 1, mine));
        } else {
            assert(!(exists|i: int|
                0 <= i < providers.len() && (#[trigger] providers[i]).provider_id == "phone"@)) by {
                if exists|i: int|
                    0 <= i < providers.len() && (#[trigger] providers[i]).provider_id
                        == "phone"@ {
                    let i = choose|i: int|
                        0 <= i < providers.len() && (#[trigger] providers[i]).provider_id
                            == "phone"@;
                    assert(rest[i - 1] == providers[i]);
                }
            }
            assert(r =~= providers.push(mine));
        }
    }
}

/// Whether a token that was issued then is good for the account: it is there, not disabled, and
/// its tokens from that time are valid.
pub open spec fn good_for(p: ProjectView, local_id: Seq<char>, issued_at: u64) -> bool {
    p.users.contains_key(local_id) && !p.users[local_id].disabled
        && p.users[local_id].valid_since_secs <= issued_at
}

/// Why a token is not good for an account.
pub open spec fn why_not(p: ProjectView, local_id: Seq<char>, issued_at: u64) -> AuthError {
    if !p.users.contains_key(local_id) {
        AuthError::UserNotFound
    } else if p.users[local_id].disabled {
        AuthError::UserDisabled
    } else {
        AuthError::TokenExpired
    }
}

/// A refresh token that is good gives new tokens for its account as it is now, with the second
/// factor that it came with; any other is refused, for its reason.
#[verifier::rlimit(50)]
pub proof fn refresh_renews_tokens(v: AuthView, request: RefreshTokenRequest, d: DrawView)
    requires
        d.now_ms <= u64::MAX,
        d.ids.len() >= 1,
    ensures
        ({
            let p = v.home();
            let r = refresh_outcome(v, request, d);
            let read = refresh_claims_of(request.refresh_token@);
            let claims = read->0;
            let wanted = request.grant_type@ == "refresh_token"@;
            let ours = read is Some && claims.project_id == v.default_project;
            let good = good_for(p, claims.local_id, claims.issued_at);
            let factor = if claims.second_factor is Some
                && claims.second_factor_identifier is Some {
                Some((claims.second_factor->0, claims.second_factor_identifier->0))
            } else {
                None
            };
            let now = (d.now_ms / 1000) as u64;
            &&& !wanted ==> r == Err::<SecureTokenView, _>(AuthError::UnsupportedGrantType)
            &&& wanted && !ours ==> r == Err::<SecureTokenView, _>(AuthError::InvalidRefreshToken)
            &&& wanted && ours && !good ==> r == Err::<SecureTokenView, _>(
                why_not(p, claims.local_id, claims.issued_at),
            )
            &&& wanted && ours && good ==> {
                &&& r is Ok
                &&& r->Ok_0.user_id == claims.local_id
                &&& r->Ok_0.project_id == v.default_project
                &&& r->Ok_0.expires_in == "3600"@
                &&& r->Ok_0.token_type == "Bearer"@
                &&& r->Ok_0.access_token == r->Ok_0.id_token
                &&& r->Ok_0.id_token == id_token(
                    v.default_project,
                    p.users[claims.local_id],
                    factor,
                    now,
                )
                &&& r->Ok_0.refresh_token == refresh_token(
                    v.default_project,
                    claims.local_id,
                    factor,
                    now,
                    d.ids[0],
                )
            }
        }),
{
}

/// Whoever gives a good ID token is told of its account first, and then of the accounts whose ids
/// they give. A token of an account that is gone adds nothing; any other token that is not good is
/// refused, for its reason.
#[verifier::rlimit(50)]
pub proof fn lookup_tells_of_the_bearer(v: AuthView, request: LookupRequest)
    ensures
        ({
            let p = v.home();
            let r = lookup_outcome(v, request);
            let claims = client_claims(v, request.id_token->0@);
            let local_id = claims->0.local_id;
            let good = good_for(p, local_id, claims->0.issued_at);
            let others = if request.local_id is Some {
                p.find_all(LookupKey::Id, request.local_id->0.deep_view())
            } else {
                Seq::empty()
            };
            &&& request.id_token is None ==> r == Ok::<_, AuthError>(others)
            &&& request.id_token is Some && claims is None ==> r == Err::<
                Seq<EmulatorUserView>,
                _,
            >(AuthError::InvalidIdToken)
            &&& request.id_token is Some && claims is Some && good ==> r is Ok && r->Ok_0.len()
                == 1 + others.len() && shows(r->Ok_0[0], p.users[local_id]) && r->Ok_0.skip(1)
                == others
            &&& request.id_token is Some && claims is Some && !p.users.contains_key(local_id) ==> r
                == Ok::<_, AuthError>(others)
            &&& request.id_token is Some && claims is Some && !good && p.users.contains_key(
                local_id,
            ) ==> r == Err::<Seq<EmulatorUserView>, _>(
                why_not(p, local_id, claims->0.issued_at),
            )
        }),
{
    let r = lookup_outcome(v, request);
    if r is Ok && r->Ok_0.len() > 0 {
        let others = v.home().find_given(LookupKey::Id, request.local_id);
        let p = v.home();
        if request.id_token is Some && client_claims(v, request.id_token->0@) is Some {
            let id = client_claims(v, request.id_token->0@)->0.local_id;
            assert((seq![shown(p.users[id])] + others).skip(1) =~= others);
        }
    }
}

/// Whether an account is the one that a key stands for: an id, an email address however it is
/// written, or a phone number.
pub open spec fn stands_for(
    p: ProjectView,
    by: LookupKey,
    key: Seq<char>,
    local_id: Seq<char>,
) -> bool {
    p.users.contains_key(local_id) && match by {
        LookupKey::Id => key == local_id,
        LookupKey::Email => p.ids_by_email.contains_key(normal_email(key))
            && p.ids_by_email[normal_email(key)] == local_id,
        LookupKey::Phone => p.ids_by_phone.contains_key(key) && p.ids_by_phone[key] == local_id,
    }
}

/// A list of keys is answered with the accounts they stand for, in their order, and those that
/// stand for none add nothing.
pub proof fn keys_find_their_accounts(
    p: ProjectView,
    by: LookupKey,
    keys: Seq<Seq<char>>,
    key: Seq<char>,
    local_id: Seq<char>,
)
    ensures
        stands_for(p, by, key, local_id) ==> p.find_all(by, keys.push(key)) == p.find_all(
            by,
            keys,
        ).push(shown(p.users[local_id])),
        (forall|id: Seq<char>| !#[trigger] stands_for(p, by, key, id)) ==> p.find_all(
            by,
            keys.push(key),
        ) == p.find_all(by, keys),
        p.find_all(by, Seq::empty()) == Seq::<EmulatorUserView>::empty(),
{
    assert(keys.push(key).drop_last() =~= keys);
    if let Some(user) = p.find(by, key) {
        let id = match by {
            LookupKey::Id => key,
            LookupKey::Email => p.ids_by_email[normal_email(key)],
            LookupKey::Phone => p.ids_by_phone[key],
        };
        assert(stands_for(p, by, key, id));
    }
}

/// An administrator's lookup is answered with the accounts of the ids, then of the email addresses,
/// then of the phone numbers that it gives.
pub proof fn admin_lookup_finds_by_all_keys(p: ProjectView, request: AdminLookupRequest)
    ensures
        admin_found(p, request) == (if request.local_id is Some {
            p.find_all(LookupKey::Id, request.local_id->0.deep_view())
        } else {
            Seq::empty()
        }) + (if request.email is Some {
            p.find_all(LookupKey::Email, request.email->0.deep_view())
        } else {
            Seq::empty()
        }) + (if request.phone_number is Some {
            p.find_all(LookupKey::Phone, request.phone_number->0.deep_view())
        } else {
            Seq::empty()
        }),
{
}

/// A list of accounts shows all of them in the order of their ids, or the first ones where no more
/// are asked for.
pub proof fn list_shows_all_accounts(p: ProjectView, max: nat)
    ensures
        ({
            let all = listing(p.users);
            let r = first_accounts(p, max);
            &&& all.len() <= max ==> r.len() == all.len()
            &&& all.len() > max ==> r.len() == max
            &&& forall|i: int| 0 <= i < r.len() ==> shows(#[trigger] r[i], all[i].1)
        }),
{
}

/// An account is deleted by its id, or else by its token; whoever gives neither is refused. With
/// the account goes what leads to it and what waits for it, and nothing of any other account.
#[verifier::rlimit(50)]
pub proof fn deletion_takes_one_account(
    v: AuthView,
    project_id: Seq<char>,
    local_id: Seq<char>,
    request: DeleteRequest,
)
    ensures
        ({
            let p = v.project(project_id);
            let w = deleted(v, project_id, local_id);
            let q = w.project(project_id);
            let r = delete_outcome(v, project_id, local_id);
            let target = delete_target(v, request);
            &&& !p.users.contains_key(local_id) ==> w == v && r == Err::<(), _>(
                AuthError::UserNotFound,
            )
            &&& p.users.contains_key(local_id) ==> {
                &&& r is Ok
                &&& q.users == p.users.remove(local_id)
                &&& p.users[local_id].email.len() > 0 ==> q.ids_by_email == p.ids_by_email.remove(
                    normal_email(p.users[local_id].email),
                )
                &&& p.users[local_id].email.len() == 0 ==> q.ids_by_email == p.ids_by_email
                &&& p.users[local_id].phone_number is Some ==> q.ids_by_phone
                    == p.ids_by_phone.remove(p.users[local_id].phone_number->0)
                &&& p.users[local_id].phone_number is None ==> q.ids_by_phone == p.ids_by_phone
                &&& forall|c: Seq<char>| #[trigger]
                    q.pending.contains_key(c) <==> p.pending.contains_key(c)
                        && p.pending[c].local_id != local_id
                &&& forall|c: Seq<char>| #[trigger]
                    q.verification_codes.contains_key(c) <==> p.verification_codes.contains_key(c)
                        && p.verification_codes[c].purpose.user() != local_id
                &&& q.oob_codes == p.oob_codes
                &&& forall|key: (Seq<char>, Seq<char>)| #[trigger]
                    q.ids_by_provider.contains_key(key) <==> p.ids_by_provider.contains_key(key)
                        && !known_by(p.users[local_id].providers, key)
                &&& forall|key: (Seq<char>, Seq<char>)| #[trigger]
                    q.ids_by_provider.contains_key(key) ==> q.ids_by_provider[key]
                        == p.ids_by_provider[key]
            }
            &&& request.local_id is Some ==> target == Ok::<_, AuthError>(request.local_id->0@)
            &&& request.local_id is None && request.id_token is None ==> target == Err::<
                Seq<char>,
                _,
            >(AuthError::MissingLocalId)
            &&& request.local_id is None && request.id_token is Some && client_claims(
                v,
                request.id_token->0@,
            ) is None ==> target == Err::<Seq<char>, _>(AuthError::InvalidIdToken)
            &&& request.local_id is None && request.id_token is Some && client_claims(
                v,
                request.id_token->0@,
            ) is Some ==> target == Ok::<_, AuthError>(
                client_claims(v, request.id_token->0@)->0.local_id,
            )
        }),
{
    let p = v.project(project_id);
    if p.users.contains_key(local_id) {
        let providers = p.users[local_id].providers;
        let left = without_providers(p.ids_by_provider, providers);
        assert forall|key: (Seq<char>, Seq<char>)| #[trigger] left.contains_key(key) implies left[key]
            == p.ids_by_provider[key] by {
            providers_come_off(p.ids_by_provider, providers, key);
        }
        assert forall|key: (Seq<char>, Seq<char>)| #[trigger] left.contains_key(key)
            <==> p.ids_by_provider.contains_key(key) && !known_by(providers, key) by {
            providers_come_off(p.ids_by_provider, providers, key);
        }
    }
}

/// Whether an identity at a provider is among those that an account is known by.
pub open spec fn known_by(providers: Seq<ProviderView>, key: (Seq<char>, Seq<char>)) -> bool {
    exists|i: int|
        0 <= i < providers.len() && (#[trigger] providers[i]).provider_id == key.0
            && providers[i].raw_id == key.1
}

proof fn providers_come_off(
    ids: Map<(Seq<char>, Seq<char>), Seq<char>>,
    providers: Seq<ProviderView>,
    key: (Seq<char>, Seq<char>),
)
    ensures
        without_providers(ids, providers).contains_key(key) <==> ids.contains_key(key) && !known_by(
            providers,
            key,
        ),
        without_providers(ids, providers).contains_key(key) ==> without_providers(
            ids,
            providers,
        )[key] == ids[key],
    decreases providers.len(),
{
    if providers.len() > 0 {
        let head = providers.drop_last();
        providers_come_off(ids, head, key);
        if known_by(head, key) {
            let i = choose|i: int|
                0 <= i < head.len() && (#[trigger] head[i]).provider_id == key.0 && head[i].raw_id
                    == key.1;
            assert(providers[i] == head[i]);
        }
        if known_by(providers, key) {
            let i = choose|i: int|
                0 <= i < providers.len() && (#[trigger] providers[i]).provider_id == key.0
                    && providers[i].raw_id == key.1;
            if i < head.len() {
                assert(head[i] == providers[i]);
            }
        }
        assert(providers[providers.len() - 1] == providers.last());
    }
}

/// A list of ids is deleted one by one: all accounts of the list are gone then, and no others.
pub proof fn batch_takes_what_it_lists(
    v: AuthView,
    project_id: Seq<char>,
    ids: Seq<Seq<char>>,
    other: Seq<char>,
)
    ensures
        ({
            let p = v.project(project_id);
            let q = batch_deleted(v, project_id, ids).project(project_id);
            &&& q.users.contains_key(other) <==> p.users.contains_key(other) && !ids.contains(other)
            &&& q.users.contains_key(other) ==> q.users[other] == p.users[other]
        }),
    decreases ids.len(),
{
    if ids.len() > 0 {
        let head = ids.drop_last();
        batch_takes_what_it_lists(v, project_id, head, other);
        assert(ids =~= head.push(ids.last()));
        if head.contains(other) {
            let i = choose|i: int| 0 <= i < head.len() && head[i] == other;
            assert(ids[i] == other);
        }
        if ids.contains(other) && ids.last() != other {
            let i = choose|i: int| 0 <= i < ids.len() && ids[i] == other;
            assert(head[i] == other);
        }
        if ids.last() == other {
            assert(ids[ids.len() - 1] == other);
        }
    }
}

/// What a list of ids that are to be deleted is answered grows by one entry where there is no
/// account for the last one, or where it was listed before, and not where there is one.
pub proof fn batch_tells_what_it_missed(
    v: AuthView,
    project_id: Seq<char>,
    ids: Seq<Seq<char>>,
    last: Seq<char>,
)
    ensures
        ({
            let before = batch_errors(v, project_id, ids);
            let after = batch_errors(v, project_id, ids.push(last));
            let there = v.project(project_id).users.contains_key(last) && !ids.contains(last);
            &&& there ==> after == before
            &&& !there ==> after == before.push(
                BatchDeleteErrorView {
                    index: ids.len(),
                    local_id: last,
                    message: "USER_NOT_FOUND"@,
                },
            )
            &&& batch_errors(v, project_id, Seq::empty()).len() == 0
        }),
{
    assert(ids.push(last).drop_last() =~= ids);
    batch_takes_what_it_lists(v, project_id, ids, last);
}

/// The page behind a mailed link tells what the code was mailed for, and to whom; without a code,
/// or with one that was not mailed, there is none.
pub proof fn link_tells_its_code(v: AuthView, query: OobActionQuery)
    ensures
        ({
            let r = oob_action_outcome(v, query);
            let project_id = if query.project_id is Some {
                query.project_id->0@
            } else {
                v.default_project
            };
            let code = query.oob_code->0@;
            let codes = v.project(project_id).oob_codes;
            &&& query.oob_code is None ==> r == Err::<OobActionView, _>(AuthError::MissingOobCode)
            &&& query.oob_code is Some && !codes.contains_key(code) ==> r == Err::<
                OobActionView,
                _,
            >(AuthError::InvalidOobCode)
            &&& query.oob_code is Some && codes.contains_key(code) ==> {
                &&& r is Ok
                &&& r->Ok_0.oob_code == code
                &&& r->Ok_0.project_id == project_id
                &&& r->Ok_0.email == codes[code].email
                &&& r->Ok_0.request_type == codes[code].request_type
                &&& query.mode is Some ==> r->Ok_0.mode == query.mode->0@
                &&& query.mode is None ==> r->Ok_0.mode == "action"@
            }
        }),
{
}

/// A list shows a thousand accounts at most, unless another number is asked for.
pub proof fn list_shows_what_is_asked(max_results: Option<usize>)
    ensures
        max_results is None ==> accounts_asked(max_results) == 1000,
        max_results is Some ==> accounts_asked(max_results) == max_results->0,
{
}

/// A mailed code and a code that was sent to a phone are shown as they are kept.
pub proof fn codes_are_shown_as_kept(
    code: Seq<char>,
    mailed: OobCodeView,
    session: Seq<char>,
    sent: VerificationView,
)
    ensures
        ({
            let a = shown_oob_code(code, mailed);
            let b = shown_verification_code(session, sent);
            &&& a.oob_code == code
            &&& a.email == mailed.email
            &&& a.request_type == mailed.request_type
            &&& a.created_at == decimal(mailed.created_at_ms as nat)
            &&& b.session_info == session
            &&& b.phone_number == sent.phone_number
            &&& b.code == sent.code
        }),
{
}

/// A token is one of a client where it can be read and is of the default project.
pub proof fn token_of_other_project_is_none(v: AuthView, token: Seq<char>)
    ensures
        ({
            let read = claims_of(token, v.default_project);
            &&& client_claims(v, token) is Some <==> read is Some && read->0.project_id
                == v.default_project
            &&& client_claims(v, token) is Some ==> client_claims(v, token) == read
        }),
{
}

/// A project that was forgotten holds nothing, and all others are as they were.
pub proof fn forgotten_project_holds_nothing(v: AuthView, project_id: Seq<char>, other: Seq<char>)
    ensures
        ({
            let w = without_project(v, project_id);
            &&& w.project(project_id) == ProjectView::empty()
            &&& w.project(project_id).users == Map::<Seq<char>, UserView>::empty()
            &&& other != project_id ==> w.project(other) == v.project(other)
            &&& w.default_project == v.default_project
            &&& w.persistence_path == v.persistence_path
        }),
{
}

} // verus!
