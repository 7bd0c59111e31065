//! Signing in through an identity provider.

use crate::auth::accounts::{make_user, new_user, normal_email, normalize_email, one_provider, secs};
use crate::auth::errors::AuthError;
use crate::auth::records::{ProjectAuthState, ProjectView, ProviderView};
use crate::auth::responses::{auth_response, signed_in, tokens_work, AuthResponse};
use crate::auth::sign_in::{logged_in, with_login};
use crate::fresh::{Draw, DrawView};
use crate::percent::{
    encoded_text_is_plain, escapes_whole, has_whole_escapes, percent_decode, percent_decoded,
    percent_encoded, percent_round_trip,
};
use crate::text::{
    chars_of, cut, cut_is_at_first, cut_reads_back, join3, one_char_lacks, pieces, split,
    split_once,
};
use crate::text_map::TextMap;
use vstd::prelude::*;

verus! {

/// The fields of a form, where each of `parts` is a name, an equals sign and a value. Of two
/// fields of one name the later one counts.
pub open spec fn form_of(parts: Seq<Seq<char>>) -> Map<Seq<char>, Seq<char>>
    decreases parts.len(),
{
    if parts.len() == 0 {
        Map::empty()
    } else {
        let before = form_of(parts.drop_last());
        match cut(parts.last(), "="@) {
            Some((name, value)) => before.insert(percent_decoded(name), percent_decoded(value)),
            None => before,
        }
    }
}

/// The fields of a form.
pub open spec fn form_fields(body: Seq<char>) -> Map<Seq<char>, Seq<char>> {
    form_of(pieces(body, "&"@))
}

/// Whether the name and the value in one part of a form can be decoded.
pub open spec fn part_decodes(part: Seq<char>) -> bool {
    match cut(part, "="@) {
        Some((name, value)) => escapes_whole(name) && escapes_whole(value),
        None => true,
    }
}

/// Whether all names and values of a form can be decoded.
pub open spec fn form_decodes(body: Seq<char>) -> bool {
    forall|i: int|
        0 <= i < pieces(body, "&"@).len() ==> part_decodes(#[trigger] pieces(body, "&"@)[i])
}

/// Whether `parse_post_body` takes `body`.
pub fn can_parse_post_body(body: &str) -> (r: bool)
    ensures
        r == form_decodes(body@),
{
    proof {
        reveal_strlit("&");
    }
    let parts = split(body, "&");
    let mut i: usize = 0;
    while i < parts.len()
        invariant
            i <= parts@.len(),
            parts.deep_view() == pieces(body@, "&"@),
            forall|j: int| 0 <= j < i ==> part_decodes(#[trigger] parts.deep_view()[j]),
        decreases parts@.len() - i,
    {
        assert(parts.deep_view()[i as int] == parts@[i as int]@);
        if let Some((name, value)) = split_once(parts[i], "=") {
            if !has_whole_escapes(name) || !has_whole_escapes(value) {
                assert(!part_decodes(parts.deep_view()[i as int]));
                return false;
            }
        }
        i += 1;
    }
    true
}

/// The fields of a form.
pub fn parse_post_body(body: &str) -> (r: TextMap<String>)
    requires
        form_decodes(body@),
    ensures
        r.deep_view() == form_fields(body@),
{
    proof {
        reveal_strlit("&");
    }
    let parts = split(body, "&");
    let mut r: TextMap<String> = TextMap::new();
    let mut i: usize = 0;
    let ghost all = parts.deep_view();
    assert(all.take(0) =~= Seq::empty());
    while i < parts.len()
        invariant
            i <= parts@.len(),
            all == parts.deep_view(),
            all == pieces(body@, "&"@),
            form_decodes(body@),
            r.deep_view() == form_of(all.take(i as int)),
        decreases parts@.len() - i,
    {
        assert(all.take(i + 1).drop_last() =~= all.take(i as int));
        assert(all.take(i + 1).last() == all[i as int]);
        assert(all[i as int] == parts@[i as int]@);
        assert(part_decodes(pieces(body@, "&"@)[i as int]));
        if let Some((name, value)) = split_once(parts[i], "=") {
            r.insert(percent_decode(name), percent_decode(value));
        }
        i += 1;
    }
    assert(all.take(i as int) =~= all);
    r
}

/// Whether a code point may stand in the name part of an email address.
pub open spec fn is_email_char(c: char) -> bool {
    ||| 'a' <= c <= 'z'
    ||| 'A' <= c <= 'Z'
    ||| '0' <= c <= '9'
    ||| c == '.'
    ||| c == '-'
    ||| c == '_'
}

/// `s` with an underscore for each code point that may not stand in an email address.
pub open spec fn sanitized(s: Seq<char>) -> Seq<char> {
    s.map_values(
        |c: char|
            if is_email_char(c) {
                c
            } else {
                '_'
            },
    )
}

/// `value` with an underscore for each code point that may not stand in an email address.
pub fn sanitize_email_part(value: &str) -> (r: String)
    ensures
        r@ == sanitized(value@),
{
    let chars = chars_of(value);
    let mut r = String::new();
    let mut i: usize = 0;
    while i < chars.len()
        invariant
            chars@ == value@,
            i <= chars@.len(),
            r@ == sanitized(value@).take(i as int),
        decreases chars@.len() - i,
    {
        let c = chars[i];
        if ('a' <= c && c <= 'z') || ('A' <= c && c <= 'Z') || ('0' <= c && c <= '9') || c == '.'
            || c == '-' || c == '_' {
            r.push(c);
        } else {
            r.push('_');
        }
        i += 1;
        assert(r@ =~= sanitized(value@).take(i as int));
    }
    assert(sanitized(value@).take(i as int) =~= sanitized(value@));
    r
}

/// The value of the first of `names` that a form has.
pub open spec fn first_field(form: Map<Seq<char>, Seq<char>>, names: Seq<Seq<char>>) -> Option<
    Seq<char>,
>
    decreases names.len(),
{
    if names.len() == 0 {
        None
    } else if form.contains_key(names[0]) {
        Some(form[names[0]])
    } else {
        first_field(form, names.drop_first())
    }
}

/// Who signs in through a provider, by the fields of a form.
#[verifier::ext_equal]
pub struct IdpIdentity {
    pub provider_id: Seq<char>,
    pub raw_id: Seq<char>,
    pub email: Seq<char>,
}

/// The names under which a form gives the provider.
pub open spec fn provider_names() -> Seq<Seq<char>> {
    seq!["providerId"@, "provider_id"@]
}

/// The names under which a form gives the id that the provider knows the account by.
pub open spec fn raw_id_names() -> Seq<Seq<char>> {
    seq!["rawId"@, "raw_id"@, "id_token"@, "access_token"@, "oauth_token"@]
}

/// Who signs in through a provider, where the form names one.
pub open spec fn idp_identity(form: Map<Seq<char>, Seq<char>>, d: DrawView) -> Option<IdpIdentity> {
    match first_field(form, provider_names()) {
        Some(provider_id) => {
            let raw_id = match first_field(form, raw_id_names()) {
                Some(raw_id) => raw_id,
                None => provider_id + ":"@ + d.ids[0],
            };
            let email = if form.contains_key("email"@) {
                form["email"@]
            } else {
                sanitized(raw_id) + "@"@ + provider_id + ".local"@
            };
            Some(IdpIdentity { provider_id, raw_id, email: normal_email(email) })
        },
        None => None,
    }
}

/// The account that a provider's identity signs in: the one that has it, or the drawn id.
pub open spec fn idp_user(p: ProjectView, who: IdpIdentity, d: DrawView) -> Seq<char> {
    let key = (who.provider_id, who.raw_id);
    if p.ids_by_provider.contains_key(key) && p.users.contains_key(p.ids_by_provider[key]) {
        p.ids_by_provider[key]
    } else {
        d.ids[1]
    }
}

/// The project with an account for a provider's identity.
pub open spec fn with_idp_user(p: ProjectView, who: IdpIdentity, d: DrawView) -> ProjectView {
    let key = (who.provider_id, who.raw_id);
    if p.ids_by_provider.contains_key(key) && p.users.contains_key(p.ids_by_provider[key]) {
        p
    } else {
        let local_id = d.ids[1];
        ProjectView {
            users: p.users.insert(
                local_id,
                new_user(
                    local_id,
                    who.email,
                    None,
                    seq![
                        ProviderView {
                            provider_id: who.provider_id,
                            raw_id: who.raw_id,
                            email: who.email,
                        },
                    ],
                    d,
                ),
            ),
            ids_by_email: if p.ids_by_email.contains_key(who.email) {
                p.ids_by_email
            } else {
                p.ids_by_email.insert(who.email, local_id)
            },
            ids_by_provider: p.ids_by_provider.insert(key, local_id),
            ..p
        }
    }
}

fn take_field(form: &TextMap<String>, names: Vec<&str>) -> (r: Option<String>)
    ensures
        r.deep_view() == first_field(form.deep_view(), names.deep_view()),
{
    let mut i: usize = 0;
    assert(names.deep_view().skip(0) =~= names.deep_view());
    while i < names.len()
        invariant
            i <= names@.len(),
            first_field(form.deep_view(), names.deep_view()) == first_field(
                form.deep_view(),
                names.deep_view().skip(i as int),
            ),
        decreases names@.len() - i,
    {
        let name: &str = names[i];
        assert(names.deep_view().skip(i as int)[0] == name@);
        assert(names.deep_view().skip(i as int).drop_first() =~= names.deep_view().skip(i + 1));
        if let Some(value) = form.get(name) {
            return Some(value.clone());
        }
        i += 1;
    }
    None
}

/// Who signs in through a provider.
#[derive(Debug)]
pub struct ProviderIdentity {
    pub provider_id: String,
    pub raw_id: String,
    pub email: String,
}

impl DeepView for ProviderIdentity {
    type V = IdpIdentity;

    open spec fn deep_view(&self) -> IdpIdentity {
        IdpIdentity { provider_id: self.provider_id@, raw_id: self.raw_id@, email: self.email@ }
    }
}

/// Who signs in through a provider, by the fields of a form.
pub fn read_identity(form: &TextMap<String>, draw: &Draw) -> (r: Result<
    ProviderIdentity,
    AuthError,
>)
    requires
        draw.ids@.len() >= 1,
    ensures
        match idp_identity(form.deep_view(), draw.deep_view()) {
            Some(who) => r is Ok && r->Ok_0.deep_view() == who,
            None => r == Err::<ProviderIdentity, AuthError>(AuthError::MissingProviderId),
        },
{
    let provider_list = vec!["providerId", "provider_id"];
    assert(provider_list.deep_view() =~= provider_names());
    let provider_id = match take_field(form, provider_list) {
        Some(provider_id) => provider_id,
        None => {
            return Err(AuthError::MissingProviderId);
        },
    };
    let raw_id_list = vec!["rawId", "raw_id", "id_token", "access_token", "oauth_token"];
    assert(raw_id_list.deep_view() =~= raw_id_names());
    let raw_id = match take_field(form, raw_id_list) {
        Some(raw_id) => raw_id,
        None => join3(provider_id.as_str(), ":", draw.ids[0].as_str()),
    };
    let email = match form.get("email") {
        Some(email) => normalize_email(email.as_str()),
        None => {
            let mut email = sanitize_email_part(raw_id.as_str());
            email.append("@");
            email.append(provider_id.as_str());
            email.append(".local");
            normalize_email(email.as_str())
        },
    };
    Ok(ProviderIdentity { provider_id, raw_id, email })
}

impl ProjectAuthState {
    /// Signs in the account of a provider's identity, made if there is none.
    pub fn sign_in_with_identity(
        &mut self,
        project_id: &str,
        who: &ProviderIdentity,
        return_secure_token: Option<bool>,
        draw: &Draw,
    ) -> (r: AuthResponse)
        requires
            draw.ids@.len() >= 3,
        ensures
            ({
                let d = draw.deep_view();
                let local_id = idp_user(old(self).deep_view(), who.deep_view(), d);
                let p = with_idp_user(old(self).deep_view(), who.deep_view(), d);
                let user = logged_in(p.users[local_id], d);
                &&& final(self).deep_view() == with_login(p, local_id, d)
                &&& r.deep_view() == signed_in(
                    project_id@,
                    user,
                    return_secure_token,
                    secs(d),
                    d.ids[2],
                )
                &&& tokens_work(r.deep_view(), project_id@, user, return_secure_token, secs(d))
            }),
    {
        let mut local_id = draw.ids[1].clone();
        let mut known = false;
        if let Some(owner) = self.user_ids_by_provider.get(
            who.provider_id.as_str(),
            who.raw_id.as_str(),
        ) {
            if self.users_by_id.contains_key(owner.as_str()) {
                local_id = owner.clone();
                known = true;
            }
        }
        if !known {
            let providers = one_provider(
                who.provider_id.as_str(),
                who.raw_id.as_str(),
                who.email.as_str(),
            );
            let record = make_user(local_id.as_str(), who.email.as_str(), None, providers, draw);
            self.user_ids_by_provider.insert(
                who.provider_id.clone(),
                who.raw_id.clone(),
                local_id.clone(),
            );
            if !self.user_ids_by_email.contains_key(who.email.as_str()) {
                self.user_ids_by_email.insert(who.email.clone(), local_id.clone());
            }
            self.users_by_id.insert(local_id.clone(), record);
        }
        let record = self.log_in(local_id.as_str(), draw);
        auth_response(
            project_id,
            &record,
            return_secure_token,
            draw.now_ms / 1000,
            draw.ids[2].as_str(),
        )
    }
}

/// A field of a form is read as it was encoded, over a field of that name in front of it.
pub proof fn form_field_reads_back(parts: Seq<Seq<char>>, name: Seq<char>, value: Seq<char>)
    ensures
        form_of(parts.push(percent_encoded(name) + "="@ + percent_encoded(value))) == form_of(
            parts,
        ).insert(name, value),
        form_of(Seq::empty()) == Map::<Seq<char>, Seq<char>>::empty(),
{
    reveal_strlit("=");
    assert("="@ =~= seq!['=']);
    let n = percent_encoded(name);
    encoded_text_is_plain(name);
    assert(!n.contains('='));
    one_char_lacks(n, '=');
    cut_reads_back(n, "="@, percent_encoded(value));
    percent_round_trip(name);
    percent_round_trip(value);
    let all = parts.push(n + "="@ + percent_encoded(value));
    assert(all.drop_last() =~= parts);
}

/// A form is what stands between its ampersands, and a part of it without an equals sign is passed
/// over.
pub proof fn form_is_its_parts(body: Seq<char>, parts: Seq<Seq<char>>, part: Seq<char>)
    requires
        !part.contains('='),
    ensures
        form_fields(body) == form_of(pieces(body, "&"@)),
        form_of(parts.push(part)) == form_of(parts),
{
    reveal_strlit("=");
    assert("="@ =~= seq!['=']);
    one_char_lacks(part, '=');
    cut_is_at_first(part, "="@);
    assert(parts.push(part).drop_last() =~= parts);
}

} // verus!
