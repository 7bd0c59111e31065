//! What a project keeps of its accounts.

use crate::pair_map::PairMap;
use crate::text_map::TextMap;
use vstd::prelude::*;

verus! {

/// An identity that a provider has given to an account.
#[derive(Debug)]
pub struct ProviderRecord {
    pub provider_id: String,
    pub raw_id: String,
    pub email: String,
}

/// What a provider record holds.
#[verifier::ext_equal]
pub struct ProviderView {
    pub provider_id: Seq<char>,
    pub raw_id: Seq<char>,
    pub email: Seq<char>,
}

impl DeepView for ProviderRecord {
    type V = ProviderView;

    open spec fn deep_view(&self) -> ProviderView {
        ProviderView {
            provider_id: self.provider_id@,
            raw_id: self.raw_id@,
            email: self.email@,
        }
    }
}

impl Clone for ProviderRecord {
    fn clone(&self) -> (r: Self)
        ensures
            r.deep_view() == self.deep_view(),
    {
        ProviderRecord {
            provider_id: self.provider_id.clone(),
            raw_id: self.raw_id.clone(),
            email: self.email.clone(),
        }
    }
}

/// A second factor of an account.
#[derive(Debug)]
pub struct MfaEnrollment {
    pub mfa_enrollment_id: Option<String>,
    pub display_name: Option<String>,
    pub phone_info: Option<String>,
    pub unobfuscated_phone_info: Option<String>,
    pub enrolled_at: Option<String>,
}

/// What a second factor holds.
#[verifier::ext_equal]
pub struct MfaView {
    pub mfa_enrollment_id: Option<Seq<char>>,
    pub display_name: Option<Seq<char>>,
    pub phone_info: Option<Seq<char>>,
    pub unobfuscated_phone_info: Option<Seq<char>>,
    pub enrolled_at: Option<Seq<char>>,
}

impl DeepView for MfaEnrollment {
    type V = MfaView;

    open spec fn deep_view(&self) -> MfaView {
        MfaView {
            mfa_enrollment_id: self.mfa_enrollment_id.deep_view(),
            display_name: self.display_name.deep_view(),
            phone_info: self.phone_info.deep_view(),
            unobfuscated_phone_info: self.unobfuscated_phone_info.deep_view(),
            enrolled_at: self.enrolled_at.deep_view(),
        }
    }
}

impl Clone for MfaEnrollment {
    fn clone(&self) -> (r: Self)
        ensures
            r.deep_view() == self.deep_view(),
    {
        MfaEnrollment {
            mfa_enrollment_id: self.mfa_enrollment_id.clone(),
            display_name: self.display_name.clone(),
            phone_info: self.phone_info.clone(),
            unobfuscated_phone_info: self.unobfuscated_phone_info.clone(),
            enrolled_at: self.enrolled_at.clone(),
        }
    }
}

/// Copies of second factors.
pub fn clone_factors(factors: &Vec<MfaEnrollment>) -> (r: Vec<MfaEnrollment>)
    ensures
        r.deep_view() == factors.deep_view(),
{
    let mut r: Vec<MfaEnrollment> = Vec::new();
    let mut i: usize = 0;
    while i < factors.len()
        invariant
            i <= factors@.len(),
            r.deep_view() == factors.deep_view().take(i as int),
        decreases factors@.len() - i,
    {
        let ghost before = r.deep_view();
        r.push(factors[i].clone());
        assert(r.deep_view() =~= before.push(factors.deep_view()[i as int]));
        i += 1;
        assert(r.deep_view() =~= factors.deep_view().take(i as int));
    }
    assert(factors.deep_view().take(i as int) =~= factors.deep_view());
    r
}

/// Copies of provider records.
pub fn clone_providers(providers: &Vec<ProviderRecord>) -> (r: Vec<ProviderRecord>)
    ensures
        r.deep_view() == providers.deep_view(),
{
    let mut r: Vec<ProviderRecord> = Vec::new();
    let mut i: usize = 0;
    while i < providers.len()
        invariant
            i <= providers@.len(),
            r.deep_view() == providers.deep_view().take(i as int),
        decreases providers@.len() - i,
    {
        let ghost before = r.deep_view();
        r.push(providers[i].clone());
        assert(r.deep_view() =~= before.push(providers.deep_view()[i as int]));
        i += 1;
        assert(r.deep_view() =~= providers.deep_view().take(i as int));
    }
    assert(providers.deep_view().take(i as int) =~= providers.deep_view());
    r
}

/// An account.
#[derive(Debug)]
pub struct UserRecord {
    pub local_id: String,
    pub email: String,
    pub display_name: Option<String>,
    pub photo_url: Option<String>,
    pub phone_number: Option<String>,
    pub custom_attributes: Option<String>,
    pub disabled: bool,
    pub email_verified: bool,
    pub password_hash: Option<String>,
    pub valid_since_secs: u64,
    pub mfa_info: Vec<MfaEnrollment>,
    pub providers: Vec<ProviderRecord>,
    pub created_at_ms: u64,
    pub last_login_at_ms: Option<u64>,
}

/// What an account holds.
#[verifier::ext_equal]
pub struct UserView {
    pub local_id: Seq<char>,
    pub email: Seq<char>,
    pub display_name: Option<Seq<char>>,
    pub photo_url: Option<Seq<char>>,
    pub phone_number: Option<Seq<char>>,
    pub custom_attributes: Option<Seq<char>>,
    pub disabled: bool,
    pub email_verified: bool,
    pub password_hash: Option<Seq<char>>,
    pub valid_since_secs: u64,
    pub mfa_info: Seq<MfaView>,
    pub providers: Seq<ProviderView>,
    pub created_at_ms: u64,
    pub last_login_at_ms: Option<u64>,
}

impl DeepView for UserRecord {
    type V = UserView;

    open spec fn deep_view(&self) -> UserView {
        UserView {
            local_id: self.local_id@,
            email: self.email@,
            display_name: self.display_name.deep_view(),
            photo_url: self.photo_url.deep_view(),
            phone_number: self.phone_number.deep_view(),
            custom_attributes: self.custom_attributes.deep_view(),
            disabled: self.disabled,
            email_verified: self.email_verified,
            password_hash: self.password_hash.deep_view(),
            valid_since_secs: self.valid_since_secs,
            mfa_info: self.mfa_info.deep_view(),
            providers: self.providers.deep_view(),
            created_at_ms: self.created_at_ms,
            last_login_at_ms: self.last_login_at_ms,
        }
    }
}

impl Clone for UserRecord {
    fn clone(&self) -> (r: Self)
        ensures
            r.deep_view() == self.deep_view(),
    {
        UserRecord {
            local_id: self.local_id.clone(),
            email: self.email.clone(),
            display_name: self.display_name.clone(),
            photo_url: self.photo_url.clone(),
            phone_number: self.phone_number.clone(),
            custom_attributes: self.custom_attributes.clone(),
            disabled: self.disabled,
            email_verified: self.email_verified,
            password_hash: self.password_hash.clone(),
            valid_since_secs: self.valid_since_secs,
            mfa_info: clone_factors(&self.mfa_info),
            providers: clone_providers(&self.providers),
            created_at_ms: self.created_at_ms,
            last_login_at_ms: self.last_login_at_ms,
        }
    }
}

/// A code that was sent out by mail.
#[derive(Debug)]
pub struct OobCodeRecord {
    pub email: String,
    pub request_type: String,
    pub created_at_ms: u64,
}

/// What a mailed code is for.
#[verifier::ext_equal]
pub struct OobCodeView {
    pub email: Seq<char>,
    pub request_type: Seq<char>,
    pub created_at_ms: u64,
}

impl DeepView for OobCodeRecord {
    type V = OobCodeView;

    open spec fn deep_view(&self) -> OobCodeView {
        OobCodeView {
            email: self.email@,
            request_type: self.request_type@,
            created_at_ms: self.created_at_ms,
        }
    }
}

/// What a verification code is for.
#[derive(Debug)]
pub enum VerificationPurpose {
    Enrollment { local_id: String },
    SignIn { local_id: String, mfa_pending_credential: String, mfa_enrollment_id: String },
}

/// What a verification code is for.
#[verifier::ext_equal]
pub enum PurposeView {
    Enrollment { local_id: Seq<char> },
    SignIn {
        local_id: Seq<char>,
        mfa_pending_credential: Seq<char>,
        mfa_enrollment_id: Seq<char>,
    },
}

impl PurposeView {
    /// The account that the code is for.
    pub open spec fn user(self) -> Seq<char> {
        match self {
            PurposeView::Enrollment { local_id } => local_id,
            PurposeView::SignIn { local_id, .. } => local_id,
        }
    }
}

impl DeepView for VerificationPurpose {
    type V = PurposeView;

    open spec fn deep_view(&self) -> PurposeView {
        match *self {
            VerificationPurpose::Enrollment { local_id } => PurposeView::Enrollment {
                local_id: local_id@,
            },
            VerificationPurpose::SignIn {
                local_id,
                mfa_pending_credential,
                mfa_enrollment_id,
            } => PurposeView::SignIn {
                local_id: local_id@,
                mfa_pending_credential: mfa_pending_credential@,
                mfa_enrollment_id: mfa_enrollment_id@,
            },
        }
    }
}

/// A code that was sent to a phone.
#[derive(Debug)]
pub struct VerificationCodeRecord {
    pub phone_number: String,
    pub code: String,
    pub sequence: u64,
    pub purpose: VerificationPurpose,
}

/// What a verification code holds.
#[verifier::ext_equal]
pub struct VerificationView {
    pub phone_number: Seq<char>,
    pub code: Seq<char>,
    pub sequence: u64,
    pub purpose: PurposeView,
}

impl DeepView for VerificationCodeRecord {
    type V = VerificationView;

    open spec fn deep_view(&self) -> VerificationView {
        VerificationView {
            phone_number: self.phone_number@,
            code: self.code@,
            sequence: self.sequence,
            purpose: self.purpose.deep_view(),
        }
    }
}

/// A sign-in that waits for its second factor.
#[derive(Debug)]
pub struct MfaPendingCredential {
    pub local_id: String,
    pub issued_at: u64,
}

/// What a waiting sign-in holds.
#[verifier::ext_equal]
pub struct PendingView {
    pub local_id: Seq<char>,
    pub issued_at: u64,
}

impl DeepView for MfaPendingCredential {
    type V = PendingView;

    open spec fn deep_view(&self) -> PendingView {
        PendingView { local_id: self.local_id@, issued_at: self.issued_at }
    }
}

/// The accounts of a project, and what is under way for them.
#[derive(Debug)]
pub struct ProjectAuthState {
    pub users_by_id: TextMap<UserRecord>,
    pub user_ids_by_email: TextMap<String>,
    pub user_ids_by_phone: TextMap<String>,
    pub user_ids_by_provider: PairMap,
    pub oob_codes: TextMap<OobCodeRecord>,
    pub verification_codes: TextMap<VerificationCodeRecord>,
    pub next_verification_code_sequence: u64,
    pub mfa_pending_credentials: TextMap<MfaPendingCredential>,
}

/// What a project holds.
#[verifier::ext_equal]
pub struct ProjectView {
    pub users: Map<Seq<char>, UserView>,
    pub ids_by_email: Map<Seq<char>, Seq<char>>,
    pub ids_by_phone: Map<Seq<char>, Seq<char>>,
    pub ids_by_provider: Map<(Seq<char>, Seq<char>), Seq<char>>,
    pub oob_codes: Map<Seq<char>, OobCodeView>,
    pub verification_codes: Map<Seq<char>, VerificationView>,
    pub sequence: u64,
    pub pending: Map<Seq<char>, PendingView>,
}

impl DeepView for ProjectAuthState {
    type V = ProjectView;

    open spec fn deep_view(&self) -> ProjectView {
        ProjectView {
            users: self.users_by_id.deep_view(),
            ids_by_email: self.user_ids_by_email.deep_view(),
            ids_by_phone: self.user_ids_by_phone.deep_view(),
            ids_by_provider: self.user_ids_by_provider.deep_view(),
            oob_codes: self.oob_codes.deep_view(),
            verification_codes: self.verification_codes.deep_view(),
            sequence: self.next_verification_code_sequence,
            pending: self.mfa_pending_credentials.deep_view(),
        }
    }
}

impl ProjectView {
    /// A project without accounts.
    pub open spec fn empty() -> ProjectView {
        ProjectView {
            users: Map::empty(),
            ids_by_email: Map::empty(),
            ids_by_phone: Map::empty(),
            ids_by_provider: Map::empty(),
            oob_codes: Map::empty(),
            verification_codes: Map::empty(),
            sequence: 0,
            pending: Map::empty(),
        }
    }

    /// The account of that id.
    pub open spec fn user(self, local_id: Seq<char>) -> Option<UserView> {
        if self.users.contains_key(local_id) {
            Some(self.users[local_id])
        } else {
            None
        }
    }
}

impl ProjectAuthState {
    /// A project without accounts.
    pub fn new() -> (r: Self)
        ensures
            r.deep_view() == ProjectView::empty(),
    {
        ProjectAuthState {
            users_by_id: TextMap::new(),
            user_ids_by_email: TextMap::new(),
            user_ids_by_phone: TextMap::new(),
            user_ids_by_provider: PairMap::new(),
            oob_codes: TextMap::new(),
            verification_codes: TextMap::new(),
            next_verification_code_sequence: 0,
            mfa_pending_credentials: TextMap::new(),
        }
    }
}

} // verus!
