//! Finding, listing, loading and deleting the accounts of a project.

use crate::auth::accounts::{normal_email, normalize_email};
use crate::auth::errors::AuthError;
use crate::auth::records::{
    MfaPendingCredential, OobCodeView, PendingView, ProjectAuthState, ProjectView, ProviderView,
    UserRecord, UserView, VerificationCodeRecord, VerificationPurpose, VerificationView,
};
use crate::auth::responses::{
    show_oob_code, show_verification_code, shown, shown_oob_code, shown_verification_code,
    EmulatorOobCode, EmulatorUser, EmulatorUserView, EmulatorVerificationCode,
};
use crate::text::same_text;
use crate::text_map::{keep_values, listing};
use vstd::prelude::*;

verus! {

/// By what an account is looked up.
#[derive(Clone, Copy, PartialEq, Eq, Structural, Debug)]
pub enum LookupKey {
    Id,
    Email,
    Phone,
}

impl ProjectView {
    /// The account that a key finds.
    pub open spec fn find(self, by: LookupKey, key: Seq<char>) -> Option<UserView> {
        match by {
            LookupKey::Id => self.user(key),
            LookupKey::Email => if self.ids_by_email.contains_key(normal_email(key)) {
                self.user(self.ids_by_email[normal_email(key)])
            } else {
                None
            },
            LookupKey::Phone => if self.ids_by_phone.contains_key(key) {
                self.user(self.ids_by_phone[key])
            } else {
                None
            },
        }
    }

    /// The accounts that keys find, in the order of the keys.
    pub open spec fn find_all(self, by: LookupKey, keys: Seq<Seq<char>>) -> Seq<EmulatorUserView>
        decreases keys.len(),
    {
        if keys.len() == 0 {
            Seq::empty()
        } else {
            let before = self.find_all(by, keys.drop_last());
            match self.find(by, keys.last()) {
                Some(user) => before.push(shown(user)),
                None => before,
            }
        }
    }

    /// The accounts that keys find, where there are keys.
    pub open spec fn find_given(self, by: LookupKey, keys: Option<Vec<String>>) -> Seq<
        EmulatorUserView,
    > {
        match keys {
            Some(keys) => self.find_all(by, keys.deep_view()),
            None => Seq::empty(),
        }
    }

    /// All accounts in the order of their ids.
    pub open spec fn accounts(self) -> Seq<UserView> {
        listing(self.users).map_values(|pair: (Seq<char>, UserView)| pair.1)
    }
}

/// The accounts as they are shown.
pub open spec fn all_shown(users: Seq<UserView>) -> Seq<EmulatorUserView> {
    users.map_values(|user: UserView| shown(user))
}

impl ProjectAuthState {
    /// The account that a key finds.
    pub fn find(&self, by: LookupKey, key: &str) -> (r: Option<&UserRecord>)
        ensures
            r.deep_view() == self.deep_view().find(by, key@),
    {
        match by {
            LookupKey::Id => self.users_by_id.get(key),
            LookupKey::Email => match self.user_ids_by_email.get(normalize_email(key).as_str()) {
                Some(local_id) => self.users_by_id.get(local_id.as_str()),
                None => None,
            },
            LookupKey::Phone => match self.user_ids_by_phone.get(key) {
                Some(local_id) => self.users_by_id.get(local_id.as_str()),
                None => None,
            },
        }
    }

    /// Adds the accounts that keys find to `users`.
    pub fn append_found(
        &self,
        by: LookupKey,
        keys: &Option<Vec<String>>,
        users: &mut Vec<EmulatorUser>,
    )
        ensures
            final(users).deep_view() == old(users).deep_view() + self.deep_view().find_given(
                by,
                *keys,
            ),
    {
        let ghost start = users.deep_view();
        match keys {
            Some(keys) => {
                let mut i: usize = 0;
                let ghost all = keys.deep_view();
                assert(all.take(0) =~= Seq::empty());
                assert(users.deep_view() =~= start + self.deep_view().find_all(by, all.take(0)));
                while i < keys.len()
                    invariant
                        i <= keys@.len(),
                        all == keys.deep_view(),
                        users.deep_view() == start + self.deep_view().find_all(
                            by,
                            all.take(i as int),
                        ),
                    decreases keys@.len() - i,
                {
                    let ghost before = users.deep_view();
                    assert(all.take(i + 1).drop_last() =~= all.take(i as int));
                    assert(all.take(i + 1).last() == keys@[i as int]@);
                    if let Some(record) = self.find(by, keys[i].as_str()) {
                        users.push(EmulatorUser::from_record(record));
                        assert(users.deep_view() =~= before.push(shown(record.deep_view())));
                    }
                    i += 1;
                    assert(users.deep_view() =~= start + self.deep_view().find_all(
                        by,
                        all.take(i as int),
                    ));
                }
                assert(all.take(i as int) =~= all);
            },
            None => {
                assert(start + Seq::<EmulatorUserView>::empty() =~= start);
            },
        }
    }

    /// The first `max` accounts in the order of their ids.
    pub fn list_accounts(&self, max: usize) -> (r: Vec<EmulatorUser>)
        ensures
            ({
                let all = all_shown(self.deep_view().accounts());
                r.deep_view() == if all.len() <= max {
                    all
                } else {
                    all.take(max as int)
                }
            }),
    {
        let ghost all = all_shown(self.deep_view().accounts());
        let mut r: Vec<EmulatorUser> = Vec::new();
        let count: usize = self.users_by_id.len();
        let mut i: usize = 0;
        assert(r.deep_view() =~= all.take(0));
        while i < count && i < max
            invariant
                count == all.len(),
                count == listing(self.deep_view().users).len(),
                all == all_shown(self.deep_view().accounts()),
                i <= count,
                i <= max,
                r.deep_view() == all.take(i as int),
            decreases count - i,
        {
            let ghost before = r.deep_view();
            r.push(EmulatorUser::from_record(self.users_by_id.value_at(i)));
            assert(r.deep_view() =~= before.push(all[i as int]));
            i += 1;
            assert(r.deep_view() =~= all.take(i as int));
        }
        assert(all.take(count as int) =~= all);
        r
    }

    /// Copies of all accounts in the order of their ids.
    pub fn all_users(&self) -> (r: Vec<UserRecord>)
        ensures
            r.deep_view() == self.deep_view().accounts(),
    {
        let ghost all = self.deep_view().accounts();
        let mut r: Vec<UserRecord> = Vec::new();
        let count: usize = self.users_by_id.len();
        let mut i: usize = 0;
        assert(r.deep_view() =~= all.take(0));
        while i < count
            invariant
                count == all.len(),
                count == listing(self.deep_view().users).len(),
                all == self.deep_view().accounts(),
                i <= count,
                r.deep_view() == all.take(i as int),
            decreases count - i,
        {
            let ghost before = r.deep_view();
            r.push(self.users_by_id.value_at(i).clone());
            assert(r.deep_view() =~= before.push(all[i as int]));
            i += 1;
            assert(r.deep_view() =~= all.take(i as int));
        }
        assert(all.take(count as int) =~= all);
        r
    }

    /// The mailed codes that wait to be used.
    pub fn list_oob_codes(&self) -> (r: Vec<EmulatorOobCode>)
        ensures
            r.deep_view() == listing(self.deep_view().oob_codes).map_values(
                |pair: (Seq<char>, OobCodeView)| shown_oob_code(pair.0, pair.1),
            ),
    {
        let ghost all = listing(self.deep_view().oob_codes).map_values(
            |pair: (Seq<char>, OobCodeView)| shown_oob_code(pair.0, pair.1),
        );
        let mut r: Vec<EmulatorOobCode> = Vec::new();
        let count: usize = self.oob_codes.len();
        let mut i: usize = 0;
        assert(r.deep_view() =~= all.take(0));
        while i < count
            invariant
                count == listing(self.deep_view().oob_codes).len(),
                all == listing(self.deep_view().oob_codes).map_values(
                    |pair: (Seq<char>, OobCodeView)| shown_oob_code(pair.0, pair.1),
                ),
                i <= count,
                r.deep_view() == all.take(i as int),
            decreases count - i,
        {
            let ghost before = r.deep_view();
            r.push(show_oob_code(self.oob_codes.key_at(i), self.oob_codes.value_at(i)));
            assert(r.deep_view() =~= before.push(all[i as int]));
            i += 1;
            assert(r.deep_view() =~= all.take(i as int));
        }
        assert(all.take(count as int) =~= all);
        r
    }
}

/// A session and the code that was sent in it.
pub type SentCode = (Seq<char>, VerificationView);

/// `sent` with `code` put behind all that were sent no later.
pub open spec fn placed(sent: Seq<SentCode>, code: SentCode) -> Seq<SentCode>
    decreases sent.len(),
{
    if sent.len() == 0 || sent.last().1.sequence <= code.1.sequence {
        sent.push(code)
    } else {
        placed(sent.drop_last(), code).push(sent.last())
    }
}

/// Codes in the order in which they were sent.
pub open spec fn in_sequence(sent: Seq<SentCode>) -> Seq<SentCode>
    decreases sent.len(),
{
    if sent.len() == 0 {
        Seq::empty()
    } else {
        placed(in_sequence(sent.drop_last()), sent.last())
    }
}

/// Whether codes are in the order in which they were sent.
pub open spec fn sent_in_order(sent: Seq<SentCode>) -> bool {
    forall|i: int, j: int|
        0 <= i <= j < sent.len() ==> (#[trigger] sent[i]).1.sequence <= (#[trigger] sent[j]).1.sequence
}

proof fn placed_in_order(sent: Seq<SentCode>, code: SentCode)
    requires
        sent_in_order(sent),
    ensures
        sent_in_order(placed(sent, code)),
        placed(sent, code).to_multiset() == sent.to_multiset().insert(code),
        placed(sent, code).len() == sent.len() + 1,
        placed(sent, code).last().1.sequence == if sent.len() > 0 && sent.last().1.sequence
            > code.1.sequence {
            sent.last().1.sequence
        } else {
            code.1.sequence
        },
    decreases sent.len(),
{
    broadcast use vstd::seq_lib::group_to_multiset_ensures;

    if sent.len() == 0 || sent.last().1.sequence <= code.1.sequence {
        let r = sent.push(code);
        assert forall|i: int, j: int| 0 <= i <= j < r.len() implies (#[trigger] r[i]).1.sequence
            <= (#[trigger] r[j]).1.sequence by {
            if i < sent.len() && j == sent.len() {
                assert(sent[i].1.sequence <= sent[sent.len() - 1].1.sequence);
            }
        }
    } else {
        let head = sent.drop_last();
        assert forall|i: int, j: int| 0 <= i <= j < head.len() implies (
        #[trigger] head[i]).1.sequence <= (#[trigger] head[j]).1.sequence by {
            assert(head[i] == sent[i] && head[j] == sent[j]);
        }
        placed_in_order(head, code);
        let first = placed(head, code);
        let r = first.push(sent.last());
        assert(head.len() > 0 ==> head.last() == sent[sent.len() - 2]);
        assert(first.last().1.sequence <= sent.last().1.sequence);
        assert forall|i: int, j: int| 0 <= i <= j < r.len() implies (#[trigger] r[i]).1.sequence
            <= (#[trigger] r[j]).1.sequence by {
            if i < first.len() && j == first.len() {
                assert(first[i].1.sequence <= first[first.len() - 1].1.sequence);
            }
        }
        assert(sent =~= head.push(sent.last()));
        assert(r.to_multiset() =~= sent.to_multiset().insert(code));
    }
}

/// The list of codes in the order in which they were sent holds each of them once.
pub proof fn in_sequence_sorts(sent: Seq<SentCode>)
    ensures
        sent_in_order(in_sequence(sent)),
        in_sequence(sent).to_multiset() == sent.to_multiset(),
    decreases sent.len(),
{
    broadcast use vstd::seq_lib::group_to_multiset_ensures;

    if sent.len() > 0 {
        in_sequence_sorts(sent.drop_last());
        placed_in_order(in_sequence(sent.drop_last()), sent.last());
        assert(sent =~= sent.drop_last().push(sent.last()));
    } else {
        assert(sent =~= Seq::empty());
    }
}

proof fn placed_at(sent: Seq<SentCode>, k: int, code: SentCode)
    requires
        0 <= k <= sent.len(),
        forall|j: int| k <= j < sent.len() ==> (#[trigger] sent[j]).1.sequence > code.1.sequence,
        k > 0 ==> sent[k - 1].1.sequence <= code.1.sequence,
    ensures
        placed(sent, code) == sent.insert(k, code),
    decreases sent.len() - k,
{
    if k == sent.len() {
        assert(sent.insert(k, code) =~= sent.push(code));
    } else {
        assert(sent[sent.len() - 1].1.sequence > code.1.sequence);
        let head = sent.drop_last();
        assert forall|j: int| k <= j < head.len() implies (#[trigger] head[j]).1.sequence
            > code.1.sequence by {
            assert(head[j] == sent[j]);
        }
        placed_at(head, k, code);
        assert(head.insert(k, code).push(sent.last()) =~= sent.insert(k, code));
    }
}

impl ProjectAuthState {
    /// The codes sent to phones that wait to be used, in the order in which they were sent.
    pub fn list_verification_codes(&self) -> (r: Vec<EmulatorVerificationCode>)
        ensures
            r.deep_view() == in_sequence(listing(self.deep_view().verification_codes)).map_values(
                |code: SentCode| shown_verification_code(code.0, code.1),
            ),
    {
        let ghost all = listing(self.deep_view().verification_codes);
        let ghost show = |code: SentCode| shown_verification_code(code.0, code.1);
        let ghost mut so_far: Seq<SentCode> = Seq::empty();
        let mut sequences: Vec<u64> = Vec::new();
        let mut r: Vec<EmulatorVerificationCode> = Vec::new();
        let count: usize = self.verification_codes.len();
        let mut i: usize = 0;
        assert(all.take(0) =~= Seq::empty());
        assert(r.deep_view() =~= so_far.map_values(show));
        while i < count
            invariant
                all == listing(self.deep_view().verification_codes),
                show == (|code: SentCode| shown_verification_code(code.0, code.1)),
                count == all.len(),
                i <= count,
                so_far == in_sequence(all.take(i as int)),
                sequences@.len() == so_far.len(),
                forall|j: int| 0 <= j < so_far.len() ==> sequences@[j] == (#[trigger] so_far[j]).1.sequence,
                r.deep_view() == so_far.map_values(show),
                r@.len() == so_far.len(),
            decreases count - i,
        {
            let record = self.verification_codes.value_at(i);
            let session_info = self.verification_codes.key_at(i);
            let ghost code = all[i as int];
            let ghost before = r.deep_view();
            let ghost old_sequences = sequences@;
            let mut at: usize = sequences.len();
            while at > 0 && sequences[at - 1] > record.sequence
                invariant
                    at <= sequences@.len(),
                    forall|j: int| at <= j < sequences@.len() ==> sequences@[j] > record.sequence,
                decreases at,
            {
                at -= 1;
            }
            proof {
                placed_at(so_far, at as int, code);
                assert(all.take(i + 1).drop_last() =~= all.take(i as int));
                assert(all.take(i + 1).last() == code);
                so_far = so_far.insert(at as int, code);
            }
            sequences.insert(at, record.sequence);
            r.insert(at, show_verification_code(session_info, record));
            assert(r.deep_view() =~= before.insert(at as int, show(code)));
            assert(r.deep_view() =~= so_far.map_values(show));
            i += 1;
        }
        assert(all.take(count as int) =~= all);
        r
    }
}

/// `ids` without the identities of the providers.
pub open spec fn without_providers(
    ids: Map<(Seq<char>, Seq<char>), Seq<char>>,
    providers: Seq<ProviderView>,
) -> Map<(Seq<char>, Seq<char>), Seq<char>>
    decreases providers.len(),
{
    if providers.len() == 0 {
        ids
    } else {
        without_providers(ids, providers.drop_last()).remove(
            (providers.last().provider_id, providers.last().raw_id),
        )
    }
}

/// The project without an account and all that was under way for it.
pub open spec fn without_account(p: ProjectView, local_id: Seq<char>) -> ProjectView {
    let user = p.users[local_id];
    ProjectView {
        users: p.users.remove(local_id),
        ids_by_email: if user.email.len() > 0 {
            p.ids_by_email.remove(normal_email(user.email))
        } else {
            p.ids_by_email
        },
        ids_by_phone: match user.phone_number {
            Some(phone_number) => p.ids_by_phone.remove(phone_number),
            None => p.ids_by_phone,
        },
        ids_by_provider: without_providers(p.ids_by_provider, user.providers),
        pending: keep_values(p.pending, |pending: PendingView| pending.local_id != local_id),
        verification_codes: keep_values(
            p.verification_codes,
            |sent: VerificationView| sent.purpose.user() != local_id,
        ),
        ..p
    }
}

fn code_is_for(record: &VerificationCodeRecord, local_id: &str) -> (r: bool)
    ensures
        r == (record.deep_view().purpose.user() == local_id@),
{
    match &record.purpose {
        VerificationPurpose::Enrollment { local_id: user } => same_text(user.as_str(), local_id),
        VerificationPurpose::SignIn { local_id: user, .. } => same_text(user.as_str(), local_id),
    }
}

impl ProjectAuthState {
    /// Deletes an account and all that was under way for it.
    pub fn delete_account(&mut self, local_id: &str) -> (r: Result<(), AuthError>)
        ensures
            if old(self).deep_view().users.contains_key(local_id@) {
                r is Ok && final(self).deep_view() == without_account(
                    old(self).deep_view(),
                    local_id@,
                )
            } else {
                r == Err::<(), AuthError>(AuthError::UserNotFound) && final(self).deep_view()
                    == old(self).deep_view()
            },
    {
        let record = match self.users_by_id.remove(local_id) {
            Some(record) => record,
            None => {
                assert(self.deep_view().users =~= old(self).deep_view().users);
                return Err(AuthError::UserNotFound);
            },
        };
        if !record.email.as_str().is_empty() {
            self.user_ids_by_email.remove(normalize_email(record.email.as_str()).as_str());
        }
        if let Some(phone_number) = &record.phone_number {
            self.user_ids_by_phone.remove(phone_number.as_str());
        }
        let mut i: usize = 0;
        let ghost providers = record.providers.deep_view();
        let ghost ids = self.user_ids_by_provider.deep_view();
        let ghost before = self.deep_view();
        assert(providers.take(0) =~= Seq::empty());
        while i < record.providers.len()
            invariant
                i <= record.providers@.len(),
                providers == record.providers.deep_view(),
                self.deep_view() == (ProjectView {
                    ids_by_provider: without_providers(ids, providers.take(i as int)),
                    ..before
                }),
            decreases record.providers@.len() - i,
        {
            assert(providers.take(i + 1).drop_last() =~= providers.take(i as int));
            assert(providers.take(i + 1).last() == record.providers@[i as int].deep_view());
            self.user_ids_by_provider.remove(
                record.providers[i].provider_id.as_str(),
                record.providers[i].raw_id.as_str(),
            );
            i += 1;
        }
        assert(providers.take(i as int) =~= providers);
        let not_pending_for = |pending: &MfaPendingCredential| -> (kept: bool)
            ensures
                kept == (pending.deep_view().local_id != local_id@),
        {
            !same_text(pending.local_id.as_str(), local_id)
        };
        self.mfa_pending_credentials.retain(
            not_pending_for,
            Ghost(|pending: PendingView| pending.local_id != local_id@),
        );
        let not_sent_for = |sent: &VerificationCodeRecord| -> (kept: bool)
            ensures
                kept == (sent.deep_view().purpose.user() != local_id@),
        {
            !code_is_for(sent, local_id)
        };
        self.verification_codes.retain(
            not_sent_for,
            Ghost(|sent: VerificationView| sent.purpose.user() != local_id@),
        );
        Ok(())
    }
}

/// `ids` with the identities of the providers led to an account.
pub open spec fn with_providers(
    ids: Map<(Seq<char>, Seq<char>), Seq<char>>,
    providers: Seq<ProviderView>,
    local_id: Seq<char>,
) -> Map<(Seq<char>, Seq<char>), Seq<char>>
    decreases providers.len(),
{
    if providers.len() == 0 {
        ids
    } else {
        with_providers(ids, providers.drop_last(), local_id).insert(
            (providers.last().provider_id, providers.last().raw_id),
            local_id,
        )
    }
}

/// The project with an account that was loaded.
pub open spec fn with_loaded(p: ProjectView, user: UserView) -> ProjectView {
    ProjectView {
        users: p.users.insert(user.local_id, user),
        ids_by_email: if user.email.len() > 0 {
            p.ids_by_email.insert(normal_email(user.email), user.local_id)
        } else {
            p.ids_by_email
        },
        ids_by_phone: match user.phone_number {
            Some(phone_number) => p.ids_by_phone.insert(phone_number, user.local_id),
            None => p.ids_by_phone,
        },
        ids_by_provider: with_providers(p.ids_by_provider, user.providers, user.local_id),
        ..p
    }
}

/// A project of accounts that were loaded in turn.
pub open spec fn loaded(users: Seq<UserView>) -> ProjectView
    decreases users.len(),
{
    if users.len() == 0 {
        ProjectView::empty()
    } else {
        with_loaded(loaded(users.drop_last()), users.last())
    }
}

impl ProjectAuthState {
    fn load(&mut self, user: UserRecord)
        ensures
            final(self).deep_view() == with_loaded(old(self).deep_view(), user.deep_view()),
    {
        let local_id = user.local_id.clone();
        if !user.email.as_str().is_empty() {
            self.user_ids_by_email.insert(
                normalize_email(user.email.as_str()),
                local_id.clone(),
            );
        }
        if let Some(phone_number) = &user.phone_number {
            self.user_ids_by_phone.insert(phone_number.clone(), local_id.clone());
        }
        let mut i: usize = 0;
        let ghost providers = user.providers.deep_view();
        let ghost ids = self.user_ids_by_provider.deep_view();
        let ghost before = self.deep_view();
        assert(providers.take(0) =~= Seq::empty());
        while i < user.providers.len()
            invariant
                i <= user.providers@.len(),
                providers == user.providers.deep_view(),
                self.deep_view() == (ProjectView {
                    ids_by_provider: with_providers(ids, providers.take(i as int), local_id@),
                    ..before
                }),
            decreases user.providers@.len() - i,
        {
            assert(providers.take(i + 1).drop_last() =~= providers.take(i as int));
            assert(providers.take(i + 1).last() == user.providers@[i as int].deep_view());
            self.user_ids_by_provider.insert(
                user.providers[i].provider_id.clone(),
                user.providers[i].raw_id.clone(),
                local_id.clone(),
            );
            i += 1;
        }
        assert(providers.take(i as int) =~= providers);
        self.users_by_id.insert(local_id, user);
    }

    /// A project of accounts that were kept before.
    pub fn from_users(users: Vec<UserRecord>) -> (r: ProjectAuthState)
        ensures
            r.deep_view() == loaded(users.deep_view()),
    {
        let ghost all = users.deep_view();
        let mut r = ProjectAuthState::new();
        let mut i: usize = 0;
        assert(all.take(0) =~= Seq::empty());
        while i < users.len()
            invariant
                i <= users@.len(),
                all == users.deep_view(),
                r.deep_view() == loaded(all.take(i as int)),
            decreases users@.len() - i,
        {
            assert(all.take(i + 1).drop_last() =~= all.take(i as int));
            assert(all.take(i + 1).last() == users@[i as int].deep_view());
            r.load(users[i].clone());
            i += 1;
        }
        assert(all.take(i as int) =~= all);
        r
    }
}

} // verus!
