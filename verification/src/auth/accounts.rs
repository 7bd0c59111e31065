//! The accounts of a project: how they are made, changed, found and deleted.

use crate::auth::errors::AuthError;
use crate::auth::records::{
    MfaEnrollment, MfaView, ProjectAuthState, ProjectView, ProviderRecord, ProviderView, UserRecord,
    UserView,
};
use crate::auth::requests::{AdminCreateRequest, AdminUpdateRequest, SignUpRequest};
use crate::calendar::{format_timestamp_ms, timestamp_text};
use crate::decimal::{all_digits, only_digits};
use crate::digest::{hash_password, password_digest};
use crate::fresh::{Draw, DrawView};
use crate::text::{
    byte_len, join2, list_contains, same_text, strip_prefix, utf8_len, without_prefix,
};
use crate::trim::{lower_case, to_ascii_lowercase, trim, trimmed};
use vstd::prelude::*;

verus! {

/// The form in which email addresses are compared: without space at the ends and in lower case.
pub open spec fn normal_email(email: Seq<char>) -> Seq<char> {
    lower_case(trimmed(email))
}

/// The form in which email addresses are compared.
pub fn normalize_email(email: &str) -> (r: String)
    ensures
        r@ == normal_email(email@),
{
    to_ascii_lowercase(trim(email))
}

/// Whether a phone number is a plus sign and one to fifteen digits.
pub open spec fn is_phone_number(s: Seq<char>) -> bool {
    match without_prefix(s, seq!['+']) {
        Some(rest) => 1 <= byte_len(rest) <= 15 && all_digits(rest),
        None => false,
    }
}

/// Whether a phone number is a plus sign and one to fifteen digits.
pub fn is_valid_phone_number(phone_number: &str) -> (r: bool)
    ensures
        r == is_phone_number(phone_number@),
{
    proof {
        reveal_strlit("+");
        assert("+"@ =~= seq!['+']);
    }
    match strip_prefix(phone_number, "+") {
        Some(rest) => {
            let length: usize = utf8_len(rest);
            1 <= length && length <= 15 && only_digits(rest)
        },
        None => false,
    }
}

/// Why an account may not have a phone number.
pub open spec fn phone_refusal(
    p: ProjectView,
    phone_number: Seq<char>,
    current: Option<Seq<char>>,
) -> Option<AuthError> {
    if p.ids_by_phone.contains_key(phone_number) && Some(p.ids_by_phone[phone_number]) != current {
        Some(AuthError::PhoneNumberExists)
    } else if !is_phone_number(phone_number) {
        Some(AuthError::InvalidPhoneNumber)
    } else {
        None
    }
}

/// The moment of a draw as an account keeps it, in milliseconds.
pub open spec fn ms(d: DrawView) -> u64 {
    d.now_ms as u64
}

/// The moment of a draw as an account keeps it, in seconds.
pub open spec fn secs(d: DrawView) -> u64 {
    d.now_secs() as u64
}

/// An account as it is when it was just made.
pub open spec fn new_user(
    local_id: Seq<char>,
    email: Seq<char>,
    password: Option<Seq<char>>,
    providers: Seq<ProviderView>,
    d: DrawView,
) -> UserView {
    UserView {
        local_id,
        email,
        display_name: None,
        photo_url: None,
        phone_number: None,
        custom_attributes: None,
        disabled: false,
        email_verified: false,
        password_hash: match password {
            Some(password) => Some(password_digest(password)),
            None => None,
        },
        valid_since_secs: secs(d),
        mfa_info: Seq::empty(),
        providers,
        created_at_ms: ms(d),
        last_login_at_ms: None,
    }
}

/// An account as it is when it was just made.
pub(crate) fn make_user(
    local_id: &str,
    email: &str,
    password: Option<&str>,
    providers: Vec<ProviderRecord>,
    draw: &Draw,
) -> (r: UserRecord)
    ensures
        r.deep_view() == new_user(
            local_id@,
            email@,
            password.deep_view(),
            providers.deep_view(),
            draw.deep_view(),
        ),
{
    let mfa_info: Vec<MfaEnrollment> = Vec::new();
    assert(mfa_info.deep_view() =~= Seq::empty());
    UserRecord {
        local_id: local_id.to_owned(),
        email: email.to_owned(),
        display_name: None,
        photo_url: None,
        phone_number: None,
        custom_attributes: None,
        disabled: false,
        email_verified: false,
        password_hash: match password {
            Some(password) => Some(hash_password(password)),
            None => None,
        },
        valid_since_secs: draw.now_ms / 1000,
        mfa_info,
        providers,
        created_at_ms: draw.now_ms,
        last_login_at_ms: None,
    }
}

/// One provider's record of an account.
pub(crate) fn one_provider(provider_id: &str, raw_id: &str, email: &str) -> (r: Vec<ProviderRecord>)
    ensures
        r.deep_view() == seq![
            ProviderView { provider_id: provider_id@, raw_id: raw_id@, email: email@ },
        ],
{
    let mut r: Vec<ProviderRecord> = Vec::new();
    r.push(
        ProviderRecord {
            provider_id: provider_id.to_owned(),
            raw_id: raw_id.to_owned(),
            email: email.to_owned(),
        },
    );
    assert(r.deep_view() =~= seq![
        ProviderView { provider_id: provider_id@, raw_id: raw_id@, email: email@ },
    ]);
    r
}

/// The email address of a new account.
pub open spec fn sign_up_email(request: SignUpRequest) -> Seq<char> {
    match request.email {
        Some(email) => normal_email(email@),
        None => Seq::empty(),
    }
}

/// Why a new account is refused.
pub open spec fn sign_up_refusal(p: ProjectView, request: SignUpRequest) -> Option<AuthError> {
    let email = sign_up_email(request);
    if request.email is Some != request.password is Some {
        Some(AuthError::MissingEmailOrPassword)
    } else if email.len() > 0 && p.ids_by_email.contains_key(email) {
        Some(AuthError::EmailExists)
    } else if request.password is Some && byte_len(request.password->0@) < 6 {
        Some(AuthError::WeakPassword)
    } else {
        None
    }
}

/// The account that a request for a new one makes.
pub open spec fn signed_up_user(
    request: SignUpRequest,
    local_id: Seq<char>,
    d: DrawView,
) -> UserView {
    let email = sign_up_email(request);
    new_user(
        local_id,
        email,
        request.password.deep_view(),
        if request.password is Some {
            seq![ProviderView { provider_id: "password"@, raw_id: local_id, email }]
        } else {
            Seq::empty()
        },
        d,
    )
}

/// The project with one more account, found by its email address where it has one.
pub open spec fn with_account(p: ProjectView, user: UserView) -> ProjectView {
    ProjectView {
        users: p.users.insert(user.local_id, user),
        ids_by_email: if user.email.len() > 0 {
            p.ids_by_email.insert(user.email, user.local_id)
        } else {
            p.ids_by_email
        },
        ..p
    }
}

/// A second factor with what was left open filled in.
pub open spec fn completed(factor: MfaView, id: Seq<char>, at: Seq<char>) -> MfaView {
    MfaView {
        mfa_enrollment_id: if factor.mfa_enrollment_id is Some {
            factor.mfa_enrollment_id
        } else {
            Some(id)
        },
        enrolled_at: if factor.enrolled_at is Some {
            factor.enrolled_at
        } else {
            Some(at)
        },
        unobfuscated_phone_info: if factor.unobfuscated_phone_info is Some {
            factor.unobfuscated_phone_info
        } else {
            factor.phone_info
        },
        ..factor
    }
}

/// Second factors with what was left open filled in: the one at `i` may take the id that was
/// drawn at `first + i`.
pub open spec fn completed_factors(factors: Seq<MfaView>, d: DrawView, first: int) -> Seq<
    MfaView,
> {
    Seq::new(
        factors.len(),
        |i: int| completed(factors[i], d.ids[first + i], timestamp_text(d.now_ms)),
    )
}

/// Fills in what second factors leave open.
pub fn normalize_mfa_enrollments(enrollments: Vec<MfaEnrollment>, draw: &Draw, first: usize) -> (r:
    Vec<MfaEnrollment>)
    requires
        first + enrollments@.len() <= draw.ids@.len(),
    ensures
        r.deep_view() == completed_factors(enrollments.deep_view(), draw.deep_view(), first as int),
{
    let mut r: Vec<MfaEnrollment> = Vec::new();
    let mut i: usize = 0;
    let count: usize = draw.ids.len();
    let ghost wanted = completed_factors(
        enrollments.deep_view(),
        draw.deep_view(),
        first as int,
    );
    while i < enrollments.len()
        invariant
            i <= enrollments@.len(),
            count == draw.ids@.len(),
            first + enrollments@.len() <= count,
            wanted == completed_factors(enrollments.deep_view(), draw.deep_view(), first as int),
            r.deep_view() == wanted.take(i as int),
        decreases enrollments@.len() - i,
    {
        let mut factor = enrollments[i].clone();
        let ghost given = factor.deep_view();
        if factor.mfa_enrollment_id.is_none() {
            factor.mfa_enrollment_id = Some(draw.ids[first + i].clone());
        }
        if factor.enrolled_at.is_none() {
            factor.enrolled_at = Some(format_timestamp_ms(draw.now_ms));
        }
        if factor.unobfuscated_phone_info.is_none() {
            factor.unobfuscated_phone_info = factor.phone_info.clone();
        }
        assert(factor.deep_view() == wanted[i as int]);
        let ghost before = r.deep_view();
        r.push(factor);
        assert(r.deep_view() =~= before.push(wanted[i as int]));
        i += 1;
        assert(r.deep_view() =~= wanted.take(i as int));
    }
    assert(wanted.take(i as int) =~= wanted);
    r
}

impl ProjectAuthState {
    /// Whether an account may have the phone number.
    pub fn validate_phone_number_available(
        &self,
        phone_number: &str,
        current_local_id: Option<&str>,
    ) -> (r: Result<(), AuthError>)
        ensures
            match phone_refusal(self.deep_view(), phone_number@, current_local_id.deep_view()) {
                Some(e) => r == Err::<(), AuthError>(e),
                None => r is Ok,
            },
    {
        if let Some(owner) = self.user_ids_by_phone.get(phone_number) {
            let own = match current_local_id {
                Some(current) => same_text(owner.as_str(), current),
                None => false,
            };
            if !own {
                return Err(AuthError::PhoneNumberExists);
            }
        }
        if !is_valid_phone_number(phone_number) {
            return Err(AuthError::InvalidPhoneNumber);
        }
        Ok(())
    }

    /// Makes the account of a visitor, under the drawn id, and hands out a copy.
    pub fn sign_up(&mut self, request: &SignUpRequest, draw: &Draw) -> (r: Result<
        UserRecord,
        AuthError,
    >)
        requires
            draw.ids@.len() >= 1,
        ensures
            match sign_up_refusal(old(self).deep_view(), *request) {
                Some(e) => r == Err::<UserRecord, AuthError>(e) && *final(self) == *old(self),
                None => {
                    let user = signed_up_user(
                        *request,
                        draw.deep_view().ids[0],
                        draw.deep_view(),
                    );
                    r is Ok && r->Ok_0.deep_view() == user && final(self).deep_view()
                        == with_account(old(self).deep_view(), user)
                },
            },
    {
        let email = match (&request.email, &request.password) {
            (Some(email), Some(_)) => normalize_email(email.as_str()),
            (None, None) => String::new(),
            _ => {
                return Err(AuthError::MissingEmailOrPassword);
            },
        };
        let has_email = !email.as_str().is_empty();
        if has_email && self.user_ids_by_email.contains_key(email.as_str()) {
            return Err(AuthError::EmailExists);
        }
        if let Some(password) = &request.password {
            if utf8_len(password.as_str()) < 6 {
                return Err(AuthError::WeakPassword);
            }
        }
        let local_id = draw.ids[0].clone();
        let providers = match &request.password {
            Some(_) => one_provider("password", local_id.as_str(), email.as_str()),
            None => {
                let none: Vec<ProviderRecord> = Vec::new();
                assert(none.deep_view() =~= Seq::empty());
                none
            },
        };
        let password = match &request.password {
            Some(password) => Some(password.as_str()),
            None => None,
        };
        let record = make_user(local_id.as_str(), email.as_str(), password, providers, draw);
        let copy = record.clone();
        if has_email {
            self.user_ids_by_email.insert(email, local_id.clone());
        }
        self.users_by_id.insert(local_id, record);
        Ok(copy)
    }
}

/// The id of an account that an administrator makes.
pub open spec fn admin_created_id(request: AdminCreateRequest, d: DrawView) -> Seq<char> {
    match request.local_id {
        Some(local_id) => local_id@,
        None => d.ids[0],
    }
}

/// The email address of an account that an administrator makes.
pub open spec fn admin_created_email(request: AdminCreateRequest, d: DrawView) -> Seq<char> {
    match request.email {
        Some(email) => normal_email(email@),
        None => normal_email(admin_created_id(request, d) + "@admin.local"@),
    }
}

/// Why an administrator's new account is refused.
pub open spec fn admin_create_refusal(
    p: ProjectView,
    request: AdminCreateRequest,
    d: DrawView,
) -> Option<AuthError> {
    if p.users.contains_key(admin_created_id(request, d)) {
        Some(AuthError::UidExists)
    } else if p.ids_by_email.contains_key(admin_created_email(request, d)) {
        Some(AuthError::EmailExists)
    } else {
        match request.phone_number {
            Some(phone_number) => phone_refusal(p, phone_number@, None),
            None => None,
        }
    }
}

/// What a request leaves open, as no second factors.
pub open spec fn given_factors(factors: Option<Vec<MfaEnrollment>>) -> Seq<MfaView> {
    match factors {
        Some(factors) => factors.deep_view(),
        None => Seq::empty(),
    }
}

/// The account that an administrator makes.
pub open spec fn admin_created_user(request: AdminCreateRequest, d: DrawView) -> UserView {
    let local_id = admin_created_id(request, d);
    let email = admin_created_email(request, d);
    let user = new_user(
        local_id,
        email,
        request.password.deep_view(),
        seq![ProviderView { provider_id: "password"@, raw_id: local_id, email }],
        d,
    );
    UserView {
        display_name: request.display_name.deep_view(),
        photo_url: request.photo_url.deep_view(),
        phone_number: request.phone_number.deep_view(),
        custom_attributes: request.custom_attributes.deep_view(),
        disabled: request.disabled == Some(true),
        email_verified: request.email_verified == Some(true),
        mfa_info: completed_factors(given_factors(request.mfa_info), d, 1),
        ..user
    }
}

/// The project with an account that an administrator made, found by its email address and its
/// phone number.
pub open spec fn with_admin_account(p: ProjectView, user: UserView) -> ProjectView {
    ProjectView {
        users: p.users.insert(user.local_id, user),
        ids_by_email: p.ids_by_email.insert(user.email, user.local_id),
        ids_by_phone: match user.phone_number {
            Some(phone_number) => p.ids_by_phone.insert(phone_number, user.local_id),
            None => p.ids_by_phone,
        },
        ..p
    }
}

fn factors_or_none(factors: &Option<Vec<MfaEnrollment>>) -> (r: Vec<MfaEnrollment>)
    ensures
        r.deep_view() == given_factors(*factors),
        r@.len() == given_factors(*factors).len(),
{
    match factors {
        Some(factors) => {
            let r = crate::auth::records::clone_factors(factors);
            assert(r.deep_view().len() == r@.len());
            r
        },
        None => {
            let none: Vec<MfaEnrollment> = Vec::new();
            assert(none.deep_view() =~= Seq::empty());
            none
        },
    }
}

impl ProjectAuthState {
    /// Makes the account that an administrator asks for and hands out a copy.
    pub fn admin_create(&mut self, request: &AdminCreateRequest, draw: &Draw) -> (r: Result<
        UserRecord,
        AuthError,
    >)
        requires
            draw.ids@.len() >= 1 + given_factors(request.mfa_info).len(),
        ensures
            match admin_create_refusal(old(self).deep_view(), *request, draw.deep_view()) {
                Some(e) => r == Err::<UserRecord, AuthError>(e) && *final(self) == *old(self),
                None => {
                    let user = admin_created_user(*request, draw.deep_view());
                    r is Ok && r->Ok_0.deep_view() == user && final(self).deep_view()
                        == with_admin_account(old(self).deep_view(), user)
                },
            },
    {
        let local_id = match &request.local_id {
            Some(local_id) => local_id.clone(),
            None => draw.ids[0].clone(),
        };
        let email = match &request.email {
            Some(email) => normalize_email(email.as_str()),
            None => normalize_email(join2(local_id.as_str(), "@admin.local").as_str()),
        };
        if self.users_by_id.contains_key(local_id.as_str()) {
            return Err(AuthError::UidExists);
        }
        if self.user_ids_by_email.contains_key(email.as_str()) {
            return Err(AuthError::EmailExists);
        }
        if let Some(phone_number) = &request.phone_number {
            if let Err(e) = self.validate_phone_number_available(phone_number.as_str(), None) {
                return Err(e);
            }
        }
        let password = match &request.password {
            Some(password) => Some(password.as_str()),
            None => None,
        };
        let providers = one_provider("password", local_id.as_str(), email.as_str());
        let mut record = make_user(local_id.as_str(), email.as_str(), password, providers, draw);
        record.display_name = request.display_name.clone();
        record.photo_url = request.photo_url.clone();
        record.phone_number = request.phone_number.clone();
        record.custom_attributes = request.custom_attributes.clone();
        record.disabled = match request.disabled {
            Some(disabled) => disabled,
            None => false,
        };
        record.email_verified = match request.email_verified {
            Some(verified) => verified,
            None => false,
        };
        record.mfa_info = normalize_mfa_enrollments(factors_or_none(&request.mfa_info), draw, 1);
        let copy = record.clone();
        self.user_ids_by_email.insert(email, local_id.clone());
        if let Some(phone_number) = &request.phone_number {
            self.user_ids_by_phone.insert(phone_number.clone(), local_id.clone());
        }
        self.users_by_id.insert(local_id, record);
        Ok(copy)
    }
}

/// Whether a list that may be missing holds a text.
pub open spec fn lists(texts: Option<Vec<String>>, wanted: Seq<char>) -> bool {
    texts is Some && texts->0.deep_view().contains(wanted)
}

fn has_text(texts: &Option<Vec<String>>, wanted: &str) -> (r: bool)
    ensures
        r == lists(*texts, wanted@),
{
    match texts {
        Some(texts) => list_contains(texts, wanted),
        None => false,
    }
}

/// Provider records with the one of the phone made or changed.
pub open spec fn with_phone_provider(
    providers: Seq<ProviderView>,
    phone_number: Seq<char>,
) -> Seq<ProviderView>
    decreases providers.len(),
{
    if providers.len() == 0 {
        seq![ProviderView { provider_id: "phone"@, raw_id: phone_number, email: Seq::empty() }]
    } else if providers[0].provider_id == "phone"@ {
        seq![ProviderView { provider_id: "phone"@, raw_id: phone_number, email: Seq::empty() }]
            + providers.drop_first()
    } else {
        seq![providers[0]] + with_phone_provider(providers.drop_first(), phone_number)
    }
}

/// Provider records without those of the phone.
pub open spec fn without_phone_providers(providers: Seq<ProviderView>) -> Seq<ProviderView> {
    providers.filter(|p: ProviderView| p.provider_id != "phone"@)
}

proof fn phone_provider_at(providers: Seq<ProviderView>, i: int, phone_number: Seq<char>)
    requires
        0 <= i <= providers.len(),
        forall|j: int| 0 <= j < i ==> (#[trigger] providers[j]).provider_id != "phone"@,
    ensures
        with_phone_provider(providers, phone_number) == providers.take(i) + with_phone_provider(
            providers.skip(i),
            phone_number,
        ),
    decreases i,
{
    if i == 0 {
        assert(providers.skip(0) =~= providers);
        assert(providers.take(0) + with_phone_provider(providers, phone_number)
            =~= with_phone_provider(providers, phone_number));
    } else {
        let rest = providers.drop_first();
        assert(providers[0].provider_id != "phone"@);
        assert forall|j: int| 0 <= j < i - 1 implies (#[trigger] rest[j]).provider_id
            != "phone"@ by {
            assert(rest[j] == providers[j + 1]);
        }
        phone_provider_at(rest, i - 1, phone_number);
        assert(rest.skip(i - 1) =~= providers.skip(i));
        assert(seq![providers[0]] + (rest.take(i - 1) + with_phone_provider(
            providers.skip(i),
            phone_number,
        )) =~= providers.take(i) + with_phone_provider(providers.skip(i), phone_number));
    }
}

/// Makes or changes the phone's record among those of the providers.
pub fn upsert_phone_provider(providers: &mut Vec<ProviderRecord>, phone_number: &str)
    ensures
        final(providers).deep_view() == with_phone_provider(
            old(providers).deep_view(),
            phone_number@,
        ),
{
    let ghost before = providers.deep_view();
    let ghost phone = ProviderView {
        provider_id: "phone"@,
        raw_id: phone_number@,
        email: Seq::empty(),
    };
    let mut i: usize = 0;
    while i < providers.len()
        invariant
            i <= providers@.len(),
            providers.deep_view() == before,
            before == old(providers).deep_view(),
            phone == (ProviderView {
                provider_id: "phone"@,
                raw_id: phone_number@,
                email: Seq::empty(),
            }),
            forall|j: int| 0 <= j < i ==> (#[trigger] before[j]).provider_id != "phone"@,
        decreases providers@.len() - i,
    {
        assert(before[i as int].provider_id == providers@[i as int].provider_id@);
        if same_text(providers[i].provider_id.as_str(), "phone") {
            proof {
                phone_provider_at(before, i as int, phone_number@);
                assert(before.skip(i as int)[0] == before[i as int]);
            }
            providers[i] = ProviderRecord {
                provider_id: "phone".to_owned(),
                raw_id: phone_number.to_owned(),
                email: String::new(),
            };
            assert(providers.deep_view() =~= before.update(i as int, phone));
            assert(before.update(i as int, phone) =~= before.take(i as int) + (seq![phone]
                + before.skip(i as int).drop_first()));
            return;
        }
        i += 1;
    }
    proof {
        phone_provider_at(before, i as int, phone_number@);
    }
    providers.push(
        ProviderRecord {
            provider_id: "phone".to_owned(),
            raw_id: phone_number.to_owned(),
            email: String::new(),
        },
    );
    assert(providers.deep_view() =~= before.push(phone));
    assert(before.push(phone) =~= before.take(i as int) + seq![phone]);
}

fn drop_phone_providers(providers: &Vec<ProviderRecord>) -> (r: Vec<ProviderRecord>)
    ensures
        r.deep_view() == without_phone_providers(providers.deep_view()),
{
    let mut r: Vec<ProviderRecord> = Vec::new();
    let mut i: usize = 0;
    let ghost all = providers.deep_view();
    let ghost keep = |p: ProviderView| p.provider_id != "phone"@;
    assert(r.deep_view() =~= all.take(0).filter(keep)) by {
        reveal(Seq::filter);
    }
    while i < providers.len()
        invariant
            i <= providers@.len(),
            all == providers.deep_view(),
            keep == (|p: ProviderView| p.provider_id != "phone"@),
            r.deep_view() == all.take(i as int).filter(keep),
        decreases providers@.len() - i,
    {
        let ghost before = r.deep_view();
        proof {
            reveal(Seq::filter);
            assert(all.take(i + 1).drop_last() =~= all.take(i as int));
            assert(all.take(i + 1).last() == all[i as int]);
            assert(all[i as int].provider_id == providers@[i as int].provider_id@);
        }
        if !same_text(providers[i].provider_id.as_str(), "phone") {
            r.push(providers[i].clone());
            assert(r.deep_view() =~= before.push(all[i as int]));
        }
        i += 1;
    }
    assert(all.take(i as int) =~= all);
    r
}

/// The phone number of an account after the deletions that a request asks for.
pub open spec fn phone_left(user: UserView, request: AdminUpdateRequest) -> Option<Seq<char>> {
    if lists(request.delete_provider, "phone"@) {
        None
    } else {
        user.phone_number
    }
}

/// The provider records of an account after the deletions that a request asks for.
pub open spec fn providers_left(user: UserView, request: AdminUpdateRequest) -> Seq<
    ProviderView,
> {
    if lists(request.delete_provider, "phone"@) {
        without_phone_providers(user.providers)
    } else {
        user.providers
    }
}

/// The second factors of an account after a request.
pub open spec fn factors_after(user: UserView, request: AdminUpdateRequest, d: DrawView) -> Seq<
    MfaView,
> {
    if request.mfa_info is Some {
        completed_factors(request.mfa_info->0.deep_view(), d, 0)
    } else if request.mfa is Some {
        completed_factors(given_factors(request.mfa->0.enrollments), d, 0)
    } else {
        user.mfa_info
    }
}

/// An account after the changes that an administrator asks for.
pub open spec fn updated_user(user: UserView, request: AdminUpdateRequest, d: DrawView) -> UserView {
    UserView {
        local_id: user.local_id,
        email: user.email,
        display_name: if request.display_name is Some {
            request.display_name.deep_view()
        } else if lists(request.delete_attribute, "DISPLAY_NAME"@) {
            None
        } else {
            user.display_name
        },
        photo_url: if request.photo_url is Some {
            request.photo_url.deep_view()
        } else if lists(request.delete_attribute, "PHOTO_URL"@) {
            None
        } else {
            user.photo_url
        },
        phone_number: if request.phone_number is Some {
            request.phone_number.deep_view()
        } else {
            phone_left(user, request)
        },
        custom_attributes: if request.custom_attributes is Some {
            request.custom_attributes.deep_view()
        } else {
            user.custom_attributes
        },
        disabled: match (request.disabled, request.disable_user) {
            (Some(disabled), _) => disabled,
            (None, Some(disabled)) => disabled,
            (None, None) => user.disabled,
        },
        email_verified: match request.email_verified {
            Some(verified) => verified,
            None => user.email_verified,
        },
        password_hash: match request.password {
            Some(password) => Some(password_digest(password@)),
            None => user.password_hash,
        },
        valid_since_secs: match request.valid_since {
            Some(valid_since) => valid_since,
            None => if request.password is Some {
                secs(d)
            } else {
                user.valid_since_secs
            },
        },
        mfa_info: factors_after(user, request, d),
        providers: match request.phone_number {
            Some(phone_number) => with_phone_provider(
                providers_left(user, request),
                phone_number@,
            ),
            None => providers_left(user, request),
        },
        created_at_ms: user.created_at_ms,
        last_login_at_ms: user.last_login_at_ms,
    }
}

/// `ids` without the phone number, where there is one.
pub open spec fn forget_phone(
    ids: Map<Seq<char>, Seq<char>>,
    phone_number: Option<Seq<char>>,
) -> Map<Seq<char>, Seq<char>> {
    match phone_number {
        Some(phone_number) => ids.remove(phone_number),
        None => ids,
    }
}

/// Which account has which phone number after a request.
pub open spec fn phones_after(
    ids: Map<Seq<char>, Seq<char>>,
    user: UserView,
    request: AdminUpdateRequest,
) -> Map<Seq<char>, Seq<char>> {
    let kept = if lists(request.delete_provider, "phone"@) {
        forget_phone(ids, user.phone_number)
    } else {
        ids
    };
    match request.phone_number {
        Some(phone_number) => forget_phone(kept, phone_left(user, request)).insert(
            phone_number@,
            request.local_id@,
        ),
        None => kept,
    }
}

/// Why an administrator's change is refused.
pub open spec fn admin_update_refusal(p: ProjectView, request: AdminUpdateRequest) -> Option<
    AuthError,
> {
    if request.phone_number is Some && phone_refusal(
        p,
        request.phone_number->0@,
        Some(request.local_id@),
    ) is Some {
        phone_refusal(p, request.phone_number->0@, Some(request.local_id@))
    } else if !p.users.contains_key(request.local_id@) {
        Some(AuthError::UserNotFound)
    } else {
        None
    }
}

/// The project after an administrator's change.
pub open spec fn admin_updated(p: ProjectView, request: AdminUpdateRequest, d: DrawView) -> ProjectView {
    let user = p.users[request.local_id@];
    ProjectView {
        users: p.users.insert(request.local_id@, updated_user(user, request, d)),
        ids_by_phone: phones_after(p.ids_by_phone, user, request),
        ..p
    }
}

/// How many ids an administrator's change may draw.
pub open spec fn update_draws(request: AdminUpdateRequest) -> nat {
    if request.mfa_info is Some {
        request.mfa_info->0@.len()
    } else if request.mfa is Some && request.mfa->0.enrollments is Some {
        request.mfa->0.enrollments->0@.len()
    } else {
        0
    }
}

fn changed_text(current: &Option<String>, dropped: bool, given: &Option<String>) -> (r: Option<
    String,
>)
    ensures
        r.deep_view() == if *given is Some {
            given.deep_view()
        } else if dropped {
            None
        } else {
            current.deep_view()
        },
{
    if given.is_some() {
        given.clone()
    } else if dropped {
        None
    } else {
        current.clone()
    }
}

fn changed_factors(
    current: &Vec<MfaEnrollment>,
    request: &AdminUpdateRequest,
    draw: &Draw,
    Ghost(user): Ghost<UserView>,
) -> (r: Vec<MfaEnrollment>)
    requires
        draw.ids@.len() >= update_draws(*request),
        current.deep_view() == user.mfa_info,
    ensures
        r.deep_view() == factors_after(user, *request, draw.deep_view()),
{
    if request.mfa_info.is_some() {
        normalize_mfa_enrollments(factors_or_none(&request.mfa_info), draw, 0)
    } else if let Some(mfa) = &request.mfa {
        normalize_mfa_enrollments(factors_or_none(&mfa.enrollments), draw, 0)
    } else {
        crate::auth::records::clone_factors(current)
    }
}

fn changed_flag(current: bool, given: Option<bool>, otherwise: Option<bool>) -> (r: bool)
    ensures
        r == match (given, otherwise) {
            (Some(b), _) => b,
            (None, Some(b)) => b,
            (None, None) => current,
        },
{
    match (given, otherwise) {
        (Some(b), _) => b,
        (None, Some(b)) => b,
        (None, None) => current,
    }
}

fn changed_valid_since(current: u64, request: &AdminUpdateRequest, draw: &Draw) -> (r: u64)
    ensures
        r == match request.valid_since {
            Some(valid_since) => valid_since,
            None => if request.password is Some {
                secs(draw.deep_view())
            } else {
                current
            },
        },
{
    match request.valid_since {
        Some(valid_since) => valid_since,
        None => if request.password.is_some() {
            draw.now_ms / 1000
        } else {
            current
        },
    }
}

fn changed_providers(current: &Vec<ProviderRecord>, request: &AdminUpdateRequest, drops_phone: bool) -> (r:
    Vec<ProviderRecord>)
    ensures
        r.deep_view() == ({
            let left = if drops_phone {
                without_phone_providers(current.deep_view())
            } else {
                current.deep_view()
            };
            match request.phone_number {
                Some(phone_number) => with_phone_provider(left, phone_number@),
                None => left,
            }
        }),
{
    let mut left = if drops_phone {
        drop_phone_providers(current)
    } else {
        crate::auth::records::clone_providers(current)
    };
    if let Some(phone_number) = &request.phone_number {
        upsert_phone_provider(&mut left, phone_number.as_str());
    }
    left
}

fn changed_record(record: &UserRecord, request: &AdminUpdateRequest, draw: &Draw) -> (r: UserRecord)
    requires
        draw.ids@.len() >= update_draws(*request),
    ensures
        r.deep_view() == updated_user(record.deep_view(), *request, draw.deep_view()),
{
    let drops_phone = has_text(&request.delete_provider, "phone");
    let password_hash = match &request.password {
        Some(password) => Some(hash_password(password.as_str())),
        None => record.password_hash.clone(),
    };
    UserRecord {
        local_id: record.local_id.clone(),
        email: record.email.clone(),
        display_name: changed_text(
            &record.display_name,
            has_text(&request.delete_attribute, "DISPLAY_NAME"),
            &request.display_name,
        ),
        photo_url: changed_text(
            &record.photo_url,
            has_text(&request.delete_attribute, "PHOTO_URL"),
            &request.photo_url,
        ),
        phone_number: changed_text(&record.phone_number, drops_phone, &request.phone_number),
        custom_attributes: changed_text(
            &record.custom_attributes,
            false,
            &request.custom_attributes,
        ),
        disabled: changed_flag(record.disabled, request.disabled, request.disable_user),
        email_verified: changed_flag(record.email_verified, request.email_verified, None),
        password_hash,
        valid_since_secs: changed_valid_since(record.valid_since_secs, request, draw),
        mfa_info: changed_factors(&record.mfa_info, request, draw, Ghost(record.deep_view())),
        providers: changed_providers(&record.providers, request, drops_phone),
        created_at_ms: record.created_at_ms,
        last_login_at_ms: record.last_login_at_ms,
    }
}

impl ProjectAuthState {
    /// Makes the changes that an administrator asks for and hands out a copy of the account.
    pub fn admin_update(&mut self, request: &AdminUpdateRequest, draw: &Draw) -> (r: Result<
        UserRecord,
        AuthError,
    >)
        requires
            draw.ids@.len() >= update_draws(*request),
        ensures
            match admin_update_refusal(old(self).deep_view(), *request) {
                Some(e) => r == Err::<UserRecord, AuthError>(e) && *final(self) == *old(self),
                None => r is Ok && r->Ok_0.deep_view() == updated_user(
                    old(self).deep_view().users[request.local_id@],
                    *request,
                    draw.deep_view(),
                ) && final(self).deep_view() == admin_updated(
                    old(self).deep_view(),
                    *request,
                    draw.deep_view(),
                ),
            },
    {
        if let Some(phone_number) = &request.phone_number {
            if let Err(e) = self.validate_phone_number_available(
                phone_number.as_str(),
                Some(request.local_id.as_str()),
            ) {
                return Err(e);
            }
        }
        let (record, old_phone_number) = match self.users_by_id.get(request.local_id.as_str()) {
            Some(record) => (changed_record(record, request, draw), record.phone_number.clone()),
            None => {
                return Err(AuthError::UserNotFound);
            },
        };
        let drops_phone = has_text(&request.delete_provider, "phone");
        if drops_phone || request.phone_number.is_some() {
            if let Some(phone_number) = &old_phone_number {
                self.user_ids_by_phone.remove(phone_number.as_str());
            }
        }
        if let Some(phone_number) = &request.phone_number {
            self.user_ids_by_phone.insert(phone_number.clone(), request.local_id.clone());
        }
        let copy = record.clone();
        self.users_by_id.insert(request.local_id.clone(), record);
        Ok(copy)
    }
}

} // verus!
