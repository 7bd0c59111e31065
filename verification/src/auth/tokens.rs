//! The tokens that stand for a signed-in account.

use crate::auth::errors::AuthError;
use crate::auth::records::{UserRecord, UserView};
use crate::base64_text::{
    base64_bytes, base64_has_no_dot, base64_round_trip, base64_text, bytes_of_url_safe,
    encode_url_safe,
};
use crate::decimal::decimal;
use crate::json::{
    alike_fields, can_be_read, field_of, fields_put_over, names_ordered, nests_within, no_fields,
    no_raw_object, object, object_view, ordered_json, over, parsed_json, put_field, put_is_found,
    put_keeps_order, raw_mark, reads_alike, rendered_json, with_field, with_fields, Fields, Json,
    JsonView, MAX_NESTING,
};
use crate::text::{
    contains_char, find, find_from_meaning, first_piece, join2, occurs_at, one_char_lacks,
    only_piece, pieces, split, strip_prefix, without_prefix,
};
use crate::text_order::{text_lt, text_lt_irreflexive, text_lt_transitive};
use vstd::prelude::*;
use vstd::utf8::encode_utf8;

verus! {

/// The claims of an ID token by which its bearer is known.
#[derive(Debug)]
pub struct TokenClaims {
    pub project_id: String,
    pub local_id: String,
    pub issued_at: u64,
}

/// What the claims of an ID token hold.
#[verifier::ext_equal]
pub struct ClaimsView {
    pub project_id: Seq<char>,
    pub local_id: Seq<char>,
    pub issued_at: u64,
}

impl DeepView for TokenClaims {
    type V = ClaimsView;

    open spec fn deep_view(&self) -> ClaimsView {
        ClaimsView {
            project_id: self.project_id@,
            local_id: self.local_id@,
            issued_at: self.issued_at,
        }
    }
}

/// The claims of a refresh token.
#[derive(Debug)]
pub struct RefreshTokenClaims {
    pub project_id: String,
    pub local_id: String,
    pub issued_at: u64,
    pub second_factor: Option<String>,
    pub second_factor_identifier: Option<String>,
}

/// What the claims of a refresh token hold.
#[verifier::ext_equal]
pub struct RefreshView {
    pub project_id: Seq<char>,
    pub local_id: Seq<char>,
    pub issued_at: u64,
    pub second_factor: Option<Seq<char>>,
    pub second_factor_identifier: Option<Seq<char>>,
}

impl DeepView for RefreshTokenClaims {
    type V = RefreshView;

    open spec fn deep_view(&self) -> RefreshView {
        RefreshView {
            project_id: self.project_id@,
            local_id: self.local_id@,
            issued_at: self.issued_at,
            second_factor: self.second_factor.deep_view(),
            second_factor_identifier: self.second_factor_identifier.deep_view(),
        }
    }
}

/// A kind of second factor and its identifier.
pub type FactorView = Option<(Seq<char>, Seq<char>)>;

/// A text as a JSON value.
pub open spec fn json_text(s: Seq<char>) -> JsonView {
    JsonView::Text(s)
}

/// A whole number as a JSON value.
pub open spec fn json_number(n: u64) -> JsonView {
    JsonView::Number(Some(n), decimal(n as nat))
}

/// The provider by which an account signs in.
pub open spec fn sign_in_provider(user: UserView) -> Seq<char> {
    if user.providers.len() > 0 {
        user.providers[0].provider_id
    } else {
        "anonymous"@
    }
}

/// The identities in an ID token.
pub open spec fn identities(user: UserView) -> Fields {
    let by_email = if user.email.len() > 0 {
        with_field(Seq::empty(), "email"@, JsonView::Array(seq![json_text(user.email)]))
    } else {
        Seq::empty()
    };
    match user.phone_number {
        Some(phone) => with_field(by_email, "phone"@, JsonView::Array(seq![json_text(phone)])),
        None => by_email,
    }
}

/// The `firebase` claim of an ID token.
pub open spec fn firebase_claim(user: UserView, factor: FactorView) -> Fields {
    let first = with_field(
        with_field(Seq::empty(), "sign_in_provider"@, json_text(sign_in_provider(user))),
        "identities"@,
        JsonView::Object(identities(user)),
    );
    match factor {
        Some((kind, identifier)) => with_field(
            with_field(first, "sign_in_second_factor"@, json_text(kind)),
            "second_factor_identifier"@,
            json_text(identifier),
        ),
        None => first,
    }
}

/// The claims of an ID token that every account has.
pub open spec fn common_claims(
    project_id: Seq<char>,
    user: UserView,
    factor: FactorView,
    issued_at: u64,
) -> Fields {
    let f = with_field(Seq::empty(), "aud"@, json_text(project_id));
    let f = with_field(f, "iss"@, json_text("https://securetoken.google.com/"@ + project_id));
    let f = with_field(f, "sub"@, json_text(user.local_id));
    let f = with_field(f, "user_id"@, json_text(user.local_id));
    let f = with_field(f, "iat"@, json_number(issued_at));
    let f = with_field(f, "auth_time"@, json_number(issued_at));
    let f = with_field(f, "exp"@, json_number((issued_at + 3600) as u64));
    with_field(f, "firebase"@, JsonView::Object(firebase_claim(user, factor)))
}

/// The claims of an ID token that come with an email address.
pub open spec fn with_email_claims(f: Fields, user: UserView) -> Fields {
    if user.email.len() > 0 {
        with_field(
            with_field(f, "email"@, json_text(user.email)),
            "email_verified"@,
            JsonView::Bool(user.email_verified),
        )
    } else {
        f
    }
}

/// The claims of an ID token that come with a phone number.
pub open spec fn with_phone_claim(f: Fields, user: UserView) -> Fields {
    match user.phone_number {
        Some(phone) => with_field(f, "phone_number"@, json_text(phone)),
        None => f,
    }
}

/// The claims of an ID token that are not the account's own.
pub open spec fn standard_claims(
    project_id: Seq<char>,
    user: UserView,
    factor: FactorView,
    issued_at: u64,
) -> Fields {
    with_phone_claim(
        with_email_claims(common_claims(project_id, user, factor, issued_at), user),
        user,
    )
}

/// The fields of a JSON value, where it is an object.
pub open spec fn fields_in(v: Option<JsonView>) -> Fields {
    match v {
        Some(JsonView::Object(fields)) => fields,
        _ => Seq::empty(),
    }
}

/// The claims that an account has of its own: the fields of its custom attributes, where those
/// are a JSON object.
pub open spec fn custom_claims(user: UserView) -> Fields {
    match user.custom_attributes {
        Some(text) => fields_in(parsed_json(encode_utf8(text))),
        None => Seq::empty(),
    }
}

/// The claims of an ID token. The account's own go over the others.
pub open spec fn token_claims(
    project_id: Seq<char>,
    user: UserView,
    factor: FactorView,
    issued_at: u64,
) -> Fields {
    with_fields(standard_claims(project_id, user, factor, issued_at), custom_claims(user))
}

/// The first part of an ID token.
pub open spec fn token_header() -> Seq<char> {
    base64_text(encode_utf8("{\"alg\":\"none\",\"typ\":\"JWT\"}"@), true)
}

/// A JSON value in Base64.
pub open spec fn sealed(v: JsonView) -> Seq<char> {
    base64_text(encode_utf8(rendered_json(v)), true)
}

/// An ID token: header, claims and an empty signature.
pub open spec fn id_token(
    project_id: Seq<char>,
    user: UserView,
    factor: FactorView,
    issued_at: u64,
) -> Seq<char> {
    token_header() + seq!['.'] + sealed(
        JsonView::Object(token_claims(project_id, user, factor, issued_at)),
    ) + seq!['.']
}

/// The fields of a refresh token.
pub open spec fn refresh_fields(
    project_id: Seq<char>,
    local_id: Seq<char>,
    factor: FactorView,
    issued_at: u64,
    nonce: Seq<char>,
) -> Fields {
    let f = with_field(Seq::empty(), "project_id"@, json_text(project_id));
    let f = with_field(f, "local_id"@, json_text(local_id));
    let f = with_field(f, "iat"@, json_number(issued_at));
    let f = with_field(f, "nonce"@, json_text(nonce));
    match factor {
        Some((kind, identifier)) => with_field(
            with_field(f, "second_factor"@, json_text(kind)),
            "second_factor_identifier"@,
            json_text(identifier),
        ),
        None => f,
    }
}

/// A refresh token.
pub open spec fn refresh_token(
    project_id: Seq<char>,
    local_id: Seq<char>,
    factor: FactorView,
    issued_at: u64,
    nonce: Seq<char>,
) -> Seq<char> {
    "firelite-refresh."@ + sealed(
        JsonView::Object(refresh_fields(project_id, local_id, factor, issued_at, nonce)),
    )
}

/// The claims by which the bearer of a token with these fields is known.
pub open spec fn claims_in(v: JsonView, fallback_project: Seq<char>) -> Option<ClaimsView> {
    match v.text_in("sub"@) {
        Some(local_id) => Some(
            ClaimsView {
                project_id: match v.text_in("aud"@) {
                    Some(project_id) => project_id,
                    None => fallback_project,
                },
                local_id,
                issued_at: match v.unsigned_in("iat"@) {
                    Some(n) => n,
                    None => 0,
                },
            },
        ),
        None => None,
    }
}

/// The JSON value in the second of the parts of a token that dots divide.
pub open spec fn token_body(token: Seq<char>) -> Option<JsonView> {
    let parts = pieces(token, "."@);
    if parts.len() < 2 {
        None
    } else {
        match base64_bytes(parts[1], true) {
            Some(bytes) => parsed_json(bytes),
            None => None,
        }
    }
}

/// The claims of an ID token, where it has them.
pub open spec fn claims_of(token: Seq<char>, fallback_project: Seq<char>) -> Option<ClaimsView> {
    match token_body(token) {
        Some(v) => claims_in(v, fallback_project),
        None => None,
    }
}

/// The claims in the fields of a refresh token.
pub open spec fn refresh_claims_in(v: JsonView) -> Option<RefreshView> {
    match (v.text_in("project_id"@), v.text_in("local_id"@)) {
        (Some(project_id), Some(local_id)) => Some(
            RefreshView {
                project_id,
                local_id,
                issued_at: match v.unsigned_in("iat"@) {
                    Some(n) => n,
                    None => 0,
                },
                second_factor: v.text_in("second_factor"@),
                second_factor_identifier: v.text_in("second_factor_identifier"@),
            },
        ),
        _ => None,
    }
}

/// The JSON value in a refresh token.
pub open spec fn refresh_body(token: Seq<char>) -> Option<JsonView> {
    match without_prefix(token, "firelite-refresh."@) {
        Some(payload) => match base64_bytes(payload, true) {
            Some(bytes) => parsed_json(bytes),
            None => None,
        },
        None => None,
    }
}

/// The claims of a refresh token, where it has them.
pub open spec fn refresh_claims_of(token: Seq<char>) -> Option<RefreshView> {
    match refresh_body(token) {
        Some(v) => refresh_claims_in(v),
        None => None,
    }
}

/// The account that a custom token with these fields is for.
pub open spec fn subject_in(v: JsonView) -> Option<Seq<char>> {
    let named = if v.get("uid"@) is Some {
        v.get("uid"@)
    } else if v.get("sub"@) is Some {
        v.get("sub"@)
    } else {
        v.get("user_id"@)
    };
    match named {
        Some(value) => value.text(),
        None => None,
    }
}

/// The account that a custom token is for: the token itself where it has no dot.
pub open spec fn custom_subject(token: Seq<char>) -> Option<Seq<char>> {
    if !token.contains('.') {
        Some(token)
    } else {
        match token_body(token) {
            Some(v) => subject_in(v),
            None => None,
        }
    }
}

fn text_list(s: &str) -> (r: Json)
    ensures
        r.deep_view() == JsonView::Array(seq![json_text(s@)]),
{
    let mut items: Vec<Json> = Vec::new();
    items.push(Json::text(s));
    proof {
        crate::json::array_view(items);
        assert(items.deep_view() =~= seq![json_text(s@)]);
    }
    Json::Array(items)
}

fn make_identities(record: &UserRecord) -> (r: Vec<(String, Json)>)
    ensures
        r.deep_view() == identities(record.deep_view()),
{
    let mut r = no_fields();
    if !record.email.as_str().is_empty() {
        put_field(&mut r, "email", text_list(record.email.as_str()));
    }
    if let Some(phone) = &record.phone_number {
        put_field(&mut r, "phone", text_list(phone.as_str()));
    }
    r
}

fn make_firebase_claim(record: &UserRecord, second_factor: Option<(&str, &str)>) -> (r: Vec<
    (String, Json),
>)
    ensures
        r.deep_view() == firebase_claim(record.deep_view(), second_factor.deep_view()),
{
    let provider: &str = if record.providers.len() > 0 {
        record.providers[0].provider_id.as_str()
    } else {
        "anonymous"
    };
    let mut r = no_fields();
    put_field(&mut r, "sign_in_provider", Json::text(provider));
    put_field(&mut r, "identities", object(make_identities(record)));
    if let Some((kind, identifier)) = second_factor {
        put_field(&mut r, "sign_in_second_factor", Json::text(kind));
        put_field(&mut r, "second_factor_identifier", Json::text(identifier));
    }
    r
}

fn make_standard_claims(
    project_id: &str,
    record: &UserRecord,
    second_factor: Option<(&str, &str)>,
    issued_at: u64,
) -> (r: Vec<(String, Json)>)
    requires
        issued_at <= u64::MAX - 3600,
    ensures
        r.deep_view() == standard_claims(
            project_id@,
            record.deep_view(),
            second_factor.deep_view(),
            issued_at,
        ),
{
    let mut r = no_fields();
    let issuer = join2("https://securetoken.google.com/", project_id);
    put_field(&mut r, "aud", Json::text(project_id));
    put_field(&mut r, "iss", Json::text(issuer.as_str()));
    put_field(&mut r, "sub", Json::text(record.local_id.as_str()));
    put_field(&mut r, "user_id", Json::text(record.local_id.as_str()));
    put_field(&mut r, "iat", Json::unsigned(issued_at));
    put_field(&mut r, "auth_time", Json::unsigned(issued_at));
    put_field(&mut r, "exp", Json::unsigned(issued_at + 3600));
    put_field(&mut r, "firebase", object(make_firebase_claim(record, second_factor)));
    if !record.email.as_str().is_empty() {
        put_field(&mut r, "email", Json::text(record.email.as_str()));
        put_field(&mut r, "email_verified", Json::Bool(record.email_verified));
    }
    if let Some(phone) = &record.phone_number {
        put_field(&mut r, "phone_number", Json::text(phone.as_str()));
    }
    r
}

fn put_fields(fields: &mut Vec<(String, Json)>, more: Vec<(String, Json)>)
    ensures
        final(fields).deep_view() == with_fields(old(fields).deep_view(), more.deep_view()),
{
    let ghost base = fields.deep_view();
    let ghost all = more.deep_view();
    let mut rest = more;
    let ghost mut i: int = 0;
    assert(all.skip(0) =~= all);
    assert(all.take(0) =~= Seq::empty());
    while rest.len() > 0
        invariant
            0 <= i <= all.len(),
            base == old(fields).deep_view(),
            rest.deep_view() == all.skip(i),
            fields.deep_view() == with_fields(base, all.take(i)),
        decreases rest@.len(),
    {
        let ghost before = rest.deep_view();
        let (name, value) = rest.remove(0);
        assert(before[0] == (name@, value.deep_view()));
        assert(rest.deep_view() =~= before.drop_first());
        assert(all.take(i + 1).drop_last() =~= all.take(i));
        assert(all.take(i + 1).last() == all[i] && all[i] == all.skip(i)[0]);
        put_field(fields, name.as_str(), value);
        proof {
            i = i + 1;
            assert(rest.deep_view() =~= all.skip(i));
        }
    }
    proof {
        assert(all.skip(i).len() == 0);
        assert(all.take(i) =~= all);
    }
}

/// The claims of an ID token with `own`, where it is an object, over those that every account
/// has.
pub fn claims_with(
    project_id: &str,
    record: &UserRecord,
    second_factor: Option<(&str, &str)>,
    issued_at: u64,
    own: Option<Json>,
) -> (r: Vec<(String, Json)>)
    requires
        issued_at <= u64::MAX - 3600,
    ensures
        r.deep_view() == with_fields(
            standard_claims(project_id@, record.deep_view(), second_factor.deep_view(), issued_at),
            fields_in(own.deep_view()),
        ),
{
    let mut claims = make_standard_claims(project_id, record, second_factor, issued_at);
    if let Some(Json::Object(fields)) = own {
        proof {
            object_view(fields);
        }
        put_fields(&mut claims, fields);
    }
    claims
}

/// Whether every field's value passes `p`.
spec fn values_pass(fields: Fields, p: spec_fn(JsonView) -> bool) -> bool {
    forall|i: int| 0 <= i < fields.len() ==> p((#[trigger] fields[i]).1)
}

proof fn put_keeps_passing(
    fields: Fields,
    name: Seq<char>,
    value: JsonView,
    p: spec_fn(JsonView) -> bool,
)
    requires
        values_pass(fields, p),
        p(value),
    ensures
        values_pass(with_field(fields, name, value), p),
    decreases fields.len(),
{
    let all = with_field(fields, name, value);
    if fields.len() == 0 || text_before(name, fields) {
        assert forall|i: int| 0 <= i < all.len() implies p((#[trigger] all[i]).1) by {
            if i > 0 {
                assert(all[i] == fields[i - 1]);
            }
        }
    } else {
        let rest = fields.drop_first();
        assert forall|i: int| 0 <= i < rest.len() implies p((#[trigger] rest[i]).1) by {
            assert(rest[i] == fields[i + 1]);
        }
        put_keeps_passing(rest, name, value, p);
        let tail = if fields[0].0 == name {
            rest
        } else {
            with_field(rest, name, value)
        };
        assert forall|i: int| 0 <= i < all.len() implies p((#[trigger] all[i]).1) by {
            if i > 0 {
                assert(all[i] == tail[i - 1]);
            } else {
                assert(p(fields[0].1));
            }
        }
    }
}

spec fn text_before(name: Seq<char>, fields: Fields) -> bool {
    text_lt(name, fields[0].0)
}

proof fn puts_keep_passing(fields: Fields, more: Fields, p: spec_fn(JsonView) -> bool)
    requires
        values_pass(fields, p),
        values_pass(more, p),
    ensures
        values_pass(with_fields(fields, more), p),
    decreases more.len(),
{
    if more.len() > 0 {
        let head = more.drop_last();
        assert forall|i: int| 0 <= i < head.len() implies p((#[trigger] head[i]).1) by {
            assert(head[i] == more[i]);
        }
        puts_keep_passing(fields, head, p);
        assert(p(more[more.len() - 1].1));
        put_keeps_passing(with_fields(fields, head), more.last().0, more.last().1, p);
    }
}

/// Whether a value can stand in a token: its objects are in order and stand for no JSON text, and
/// it leaves one level of nesting for the token itself.
spec fn fits_in_token(v: JsonView) -> bool {
    ordered_json(v) && nests_within(v, (MAX_NESTING - 1) as nat) && no_raw_object(v)
}

/// Whether no field has the name that marks a JSON text.
spec fn unmarked(f: Fields) -> bool {
    field_of(f, raw_mark()) is None
}

/// Fields that can be those of a token.
spec fn token_fields(f: Fields) -> bool {
    names_ordered(f) && unmarked(f) && values_pass(f, |v: JsonView| fits_in_token(v))
}

proof fn put_in_token(f: Fields, name: Seq<char>, value: JsonView)
    requires
        token_fields(f),
        fits_in_token(value),
        name != raw_mark(),
    ensures
        token_fields(with_field(f, name, value)),
{
    put_keeps_order(f, name, value);
    put_is_found(f, name, value, raw_mark());
    put_keeps_passing(f, name, value, |v: JsonView| fits_in_token(v));
}

/// Whether a value can stand two levels below a token.
spec fn fits_in_claim(v: JsonView) -> bool {
    ordered_json(v) && nests_within(v, 2) && no_raw_object(v)
}

/// Fields that can be those of an object two levels deep at most.
spec fn claim_fields(f: Fields) -> bool {
    names_ordered(f) && unmarked(f) && values_pass(f, |v: JsonView| fits_in_claim(v))
}

proof fn put_in_claim(f: Fields, name: Seq<char>, value: JsonView)
    requires
        claim_fields(f),
        fits_in_claim(value),
        name != raw_mark(),
    ensures
        claim_fields(with_field(f, name, value)),
{
    put_keeps_order(f, name, value);
    put_is_found(f, name, value, raw_mark());
    put_keeps_passing(f, name, value, |v: JsonView| fits_in_claim(v));
}

proof fn wider(v: JsonView, a: nat, b: nat)
    requires
        nests_within(v, a),
        a <= b,
    ensures
        nests_within(v, b),
    decreases a,
{
    match v {
        JsonView::Array(items) => {
            assert forall|i: int| 0 <= i < items.len() implies nests_within(
                #[trigger] items[i],
                (b - 1) as nat,
            ) by {
                wider(items[i], (a - 1) as nat, (b - 1) as nat);
            }
        },
        JsonView::Object(fields) => {
            assert forall|i: int| 0 <= i < fields.len() implies nests_within(
                (#[trigger] fields[i]).1,
                (b - 1) as nat,
            ) by {
                wider(fields[i].1, (a - 1) as nat, (b - 1) as nat);
            }
        },
        _ => {},
    }
}

proof fn text_in_array(s: Seq<char>)
    ensures
        ordered_json(JsonView::Array(seq![json_text(s)])),
        nests_within(JsonView::Array(seq![json_text(s)]), 1),
        no_raw_object(JsonView::Array(seq![json_text(s)])),
{
    assert(ordered_json(json_text(s)) && nests_within(json_text(s), 0) && no_raw_object(
        json_text(s),
    ));
}

/// An object without the mark of a JSON text among its names stands for no JSON text.
proof fn unmarked_object(f: Fields)
    requires
        unmarked(f),
        values_pass(f, |v: JsonView| no_raw_object(v)),
    ensures
        no_raw_object(JsonView::Object(f)),
{
    assert forall|i: int| 0 <= i < f.len() implies no_raw_object((#[trigger] f[i]).1) by {
        assert((|v: JsonView| no_raw_object(v))(f[i].1));
    }
}

proof fn firebase_claim_fits(user: UserView, factor: FactorView)
    ensures
        fits_in_token(JsonView::Object(firebase_claim(user, factor))),
{
    names_are_unmarked();
    let ids = identities(user);
    let none: Fields = Seq::empty();
    text_in_array(user.email);
    wider(JsonView::Array(seq![json_text(user.email)]), 1, 2);
    assert(claim_fields(none));
    let by_email = if user.email.len() > 0 {
        with_field(none, "email"@, JsonView::Array(seq![json_text(user.email)]))
    } else {
        none
    };
    put_in_claim(none, "email"@, JsonView::Array(seq![json_text(user.email)]));
    put_keeps_passing(
        none,
        "email"@,
        JsonView::Array(seq![json_text(user.email)]),
        |v: JsonView| nests_within(v, 1),
    );
    if let Some(phone) = user.phone_number {
        text_in_array(phone);
        wider(JsonView::Array(seq![json_text(phone)]), 1, 2);
        put_in_claim(by_email, "phone"@, JsonView::Array(seq![json_text(phone)]));
        put_keeps_passing(
            by_email,
            "phone"@,
            JsonView::Array(seq![json_text(phone)]),
            |v: JsonView| nests_within(v, 1),
        );
    }
    let identities_claim = JsonView::Object(ids);
    assert(fits_in_claim(identities_claim)) by {
        assert forall|i: int| 0 <= i < ids.len() implies ordered_json((#[trigger] ids[i]).1) by {
            assert(fits_in_claim(ids[i].1));
        }
        assert forall|i: int| 0 <= i < ids.len() implies nests_within(
            (#[trigger] ids[i]).1,
            1,
        ) by {
            assert((|v: JsonView| nests_within(v, 1))(ids[i].1));
        }
        assert forall|i: int| 0 <= i < ids.len() implies (|v: JsonView| no_raw_object(v))(
            (#[trigger] ids[i]).1,
        ) by {
            assert(fits_in_claim(ids[i].1));
        }
        unmarked_object(ids);
    }
    let p = json_text(sign_in_provider(user));
    put_in_claim(none, "sign_in_provider"@, p);
    let first = with_field(none, "sign_in_provider"@, p);
    put_in_claim(first, "identities"@, identities_claim);
    let second = with_field(first, "identities"@, identities_claim);
    if let Some((kind, identifier)) = factor {
        put_in_claim(second, "sign_in_second_factor"@, json_text(kind));
        put_in_claim(
            with_field(second, "sign_in_second_factor"@, json_text(kind)),
            "second_factor_identifier"@,
            json_text(identifier),
        );
    }
    let all = firebase_claim(user, factor);
    assert(claim_fields(all));
    assert forall|i: int| 0 <= i < all.len() implies ordered_json((#[trigger] all[i]).1)
        && nests_within(all[i].1, 2) by {
        assert(fits_in_claim(all[i].1));
    }
    assert forall|i: int| 0 <= i < all.len() implies (|v: JsonView| no_raw_object(v))(
        (#[trigger] all[i]).1,
    ) by {
        assert(fits_in_claim(all[i].1));
    }
    unmarked_object(all);
    assert(nests_within(JsonView::Object(all), 3));
    wider(JsonView::Object(all), 3, (MAX_NESTING - 1) as nat);
}

proof fn standard_claims_fit(
    project_id: Seq<char>,
    user: UserView,
    factor: FactorView,
    issued_at: u64,
)
    ensures
        token_fields(standard_claims(project_id, user, factor, issued_at)),
{
    names_are_unmarked();
    let none: Fields = Seq::empty();
    assert(token_fields(none));
    put_in_token(none, "aud"@, json_text(project_id));
    let f = with_field(none, "aud"@, json_text(project_id));
    let iss = json_text("https://securetoken.google.com/"@ + project_id);
    put_in_token(f, "iss"@, iss);
    let f = with_field(f, "iss"@, iss);
    put_in_token(f, "sub"@, json_text(user.local_id));
    let f = with_field(f, "sub"@, json_text(user.local_id));
    put_in_token(f, "user_id"@, json_text(user.local_id));
    let f = with_field(f, "user_id"@, json_text(user.local_id));
    put_in_token(f, "iat"@, json_number(issued_at));
    let f = with_field(f, "iat"@, json_number(issued_at));
    put_in_token(f, "auth_time"@, json_number(issued_at));
    let f = with_field(f, "auth_time"@, json_number(issued_at));
    put_in_token(f, "exp"@, json_number((issued_at + 3600) as u64));
    let f = with_field(f, "exp"@, json_number((issued_at + 3600) as u64));
    firebase_claim_fits(user, factor);
    put_in_token(f, "firebase"@, JsonView::Object(firebase_claim(user, factor)));
    let f = common_claims(project_id, user, factor, issued_at);
    put_in_token(f, "email"@, json_text(user.email));
    put_in_token(
        with_field(f, "email"@, json_text(user.email)),
        "email_verified"@,
        JsonView::Bool(user.email_verified),
    );
    let f = with_email_claims(f, user);
    if let Some(phone) = user.phone_number {
        put_in_token(f, "phone_number"@, json_text(phone));
    }
}

proof fn object_fits(f: Fields)
    requires
        token_fields(f),
    ensures
        can_be_read(JsonView::Object(f)),
{
    assert forall|i: int| 0 <= i < f.len() implies ordered_json((#[trigger] f[i]).1)
        && nests_within(f[i].1, (MAX_NESTING - 1) as nat) by {
        assert(fits_in_token(f[i].1));
    }
    assert forall|i: int| 0 <= i < f.len() implies (|v: JsonView| no_raw_object(v))(
        (#[trigger] f[i]).1,
    ) by {
        assert(fits_in_token(f[i].1));
    }
    unmarked_object(f);
}

/// A field that is found stands somewhere, and one that stands somewhere is found.
proof fn found_field(f: Fields, name: Seq<char>)
    ensures
        field_of(f, name) is Some <==> exists|i: int| 0 <= i < f.len() && (#[trigger] f[i]).0
            == name,
    decreases f.len(),
{
    if f.len() > 0 {
        let rest = f.drop_first();
        found_field(rest, name);
        if f[0].0 != name {
            if field_of(f, name) is Some {
                let i = choose|i: int| 0 <= i < rest.len() && (#[trigger] rest[i]).0 == name;
                assert(f[i + 1].0 == name);
            }
            if exists|i: int| 0 <= i < f.len() && (#[trigger] f[i]).0 == name {
                let i = choose|i: int| 0 <= i < f.len() && (#[trigger] f[i]).0 == name;
                assert(rest[i - 1].0 == name);
            }
        }
    }
}

/// Fields of an object that can be read, put over fields that can be those of a token: the whole
/// can be read.
proof fn put_over_can_be_read(f: Fields, more: Fields)
    requires
        token_fields(f),
        can_be_read(JsonView::Object(more)),
    ensures
        can_be_read(JsonView::Object(with_fields(f, more))),
{
    let all = with_fields(f, more);
    let mark = raw_mark();
    assert forall|i: int| 0 <= i < more.len() implies (|v: JsonView| fits_in_token(v))(
        (#[trigger] more[i]).1,
    ) by {
        assert(ordered_json(more[i].1));
        assert(nests_within(more[i].1, (MAX_NESTING - 1) as nat));
        assert(no_raw_object(more[i].1));
    }
    puts_keep_passing(f, more, |v: JsonView| fits_in_token(v));
    fields_put_over(f, more);
    if all.len() > 0 && all[0].0 == mark {
        found_field(all, mark);
        assert(field_of(all, mark) == over(f, more, mark));
        found_field(more, mark);
        let k = choose|k: int| 0 <= k < more.len() && (#[trigger] more[k]).0 == mark;
        let first = more[0].0;
        assert(text_lt(first, more[k].0));
        found_field(more, first);
        assert(field_of(all, first) == over(f, more, first));
        found_field(all, first);
        let m = choose|m: int| 0 <= m < all.len() && (#[trigger] all[m]).0 == first;
        assert(text_lt(all[0].0, all[m].0));
        text_lt_transitive(mark, first, mark);
        text_lt_irreflexive(mark);
    }
    assert forall|i: int| 0 <= i < all.len() implies ordered_json((#[trigger] all[i]).1)
        && nests_within(all[i].1, (MAX_NESTING - 1) as nat) && no_raw_object(all[i].1) by {
        assert(fits_in_token(all[i].1));
    }
}

/// No claim that this library writes has the name that marks a JSON text.
proof fn names_are_unmarked()
    ensures
        raw_mark().len() == 30,
        "aud"@.len() < 30,
        "iss"@.len() < 30,
        "sub"@.len() < 30,
        "user_id"@.len() < 30,
        "iat"@.len() < 30,
        "auth_time"@.len() < 30,
        "exp"@.len() < 30,
        "firebase"@.len() < 30,
        "email"@.len() < 30,
        "email_verified"@.len() < 30,
        "phone_number"@.len() < 30,
        "phone"@.len() < 30,
        "sign_in_provider"@.len() < 30,
        "identities"@.len() < 30,
        "sign_in_second_factor"@.len() < 30,
        "second_factor_identifier"@.len() < 30,
{
    reveal_strlit("$serde_json::private::RawValue");
    claim_names_differ();
    factor_names_differ();
    reveal_strlit("iss");
    reveal_strlit("exp");
    reveal_strlit("phone");
}

/// The place of the first dot.
proof fn first_dot(s: Seq<char>, t: Seq<char>)
    requires
        !s.contains('.'),
    ensures
        find(s + seq!['.'] + t, seq!['.']) == Some(s.len() as int),
{
    let whole = s + seq!['.'] + t;
    let dot = seq!['.'];
    find_from_meaning(whole, dot, 0);
    assert(whole.subrange(s.len() as int, s.len() as int + 1) =~= dot);
    assert(occurs_at(whole, dot, s.len() as int));
    if let Some(i) = find(whole, dot) {
        if i < s.len() {
            assert(whole.subrange(i, i + 1)[0] == s[i]);
            assert(s.contains(s[i]));
        }
    }
}

/// The second part of a token with a header and a body that have no dot.
proof fn second_part(header: Seq<char>, body: Seq<char>)
    requires
        !header.contains('.'),
        !body.contains('.'),
    ensures
        pieces(header + seq!['.'] + body + seq!['.'], "."@).len() >= 2,
        pieces(header + seq!['.'] + body + seq!['.'], "."@)[1] == body,
{
    reveal_strlit(".");
    assert("."@ =~= seq!['.']);
    let rest = body + seq!['.'];
    let token = header + seq!['.'] + body + seq!['.'];
    assert(token =~= header + seq!['.'] + rest);
    first_dot(header, rest);
    assert(token.skip(header.len() as int + 1) =~= rest);
    first_dot(body, Seq::empty());
    assert(rest =~= body + seq!['.'] + Seq::<char>::empty());
    assert(rest.take(body.len() as int) =~= body);
    let dot = seq!['.'];
    assert(find(rest, dot) == Some(body.len() as int));
    assert(pieces(rest, dot) == seq![body] + pieces(rest.skip(body.len() as int + 1), dot));
    assert(find(token, dot) == Some(header.len() as int));
    assert(pieces(token, dot) == seq![token.take(header.len() as int)] + pieces(rest, dot));
}

/// The claims that are read from a value that reads like another.
proof fn alike_claims(a: JsonView, f: Fields)
    requires
        reads_alike(a, JsonView::Object(f)),
    ensures
        forall|name: Seq<char>| #[trigger] a.text_in(name) == JsonView::Object(f).text_in(name),
        forall|name: Seq<char>| #[trigger]
            a.unsigned_in(name) == JsonView::Object(f).unsigned_in(name),
{
    let b = JsonView::Object(f);
    match a {
        JsonView::Object(g) => {
            assert forall|name: Seq<char>| #[trigger] a.text_in(name) == b.text_in(name) by {
                alike_fields(g, f, name);
            }
            assert forall|name: Seq<char>| #[trigger] a.unsigned_in(name) == b.unsigned_in(
                name,
            ) by {
                alike_fields(g, f, name);
            }
        },
        _ => {},
    }
}

/// The names of the claims of an ID token are not the three by which the bearer is known, but
/// for those three.
proof fn claim_names_differ()
    ensures
        "aud"@ != "sub"@ && "aud"@ != "iat"@ && "sub"@ != "iat"@,
        "iss"@ != "aud"@ && "iss"@ != "sub"@ && "iss"@ != "iat"@,
        "exp"@ != "aud"@ && "exp"@ != "sub"@ && "exp"@ != "iat"@,
        "user_id"@.len() == 7,
        "auth_time"@.len() == 9,
        "firebase"@.len() == 8,
        "email"@.len() == 5,
        "email_verified"@.len() == 14,
        "phone_number"@.len() == 12,
        "aud"@.len() == 3 && "sub"@.len() == 3 && "iat"@.len() == 3,
{
    reveal_strlit("aud");
    reveal_strlit("sub");
    reveal_strlit("iat");
    reveal_strlit("iss");
    reveal_strlit("exp");
    reveal_strlit("user_id");
    reveal_strlit("auth_time");
    reveal_strlit("firebase");
    reveal_strlit("email");
    reveal_strlit("email_verified");
    reveal_strlit("phone_number");
    assert("aud"@[0] == 'a' && "sub"@[0] == 's' && "iat"@[0] == 'i' && "iss"@[0] == 'i'
        && "exp"@[0] == 'e' && "iss"@[1] == 's' && "iat"@[1] == 'a');
}

/// The value of a claim of every account, under a name that later claims do not have.
proof fn claim_stays(f: Fields, user: UserView, name: Seq<char>)
    requires
        token_fields(f),
        name != "email"@,
        name != "email_verified"@,
        name != "phone_number"@,
    ensures
        field_of(with_phone_claim(with_email_claims(f, user), user), name) == field_of(f, name),
{
    claim_names_differ();
    names_are_unmarked();
    let g = with_field(f, "email"@, json_text(user.email));
    put_in_token(f, "email"@, json_text(user.email));
    put_is_found(f, "email"@, json_text(user.email), name);
    put_in_token(g, "email_verified"@, JsonView::Bool(user.email_verified));
    put_is_found(g, "email_verified"@, JsonView::Bool(user.email_verified), name);
    let h = with_email_claims(f, user);
    if let Some(phone) = user.phone_number {
        put_is_found(h, "phone_number"@, json_text(phone), name);
    }
}

/// What the claims by which the bearer is known hold.
proof fn standard_claims_read(
    project_id: Seq<char>,
    user: UserView,
    factor: FactorView,
    issued_at: u64,
)
    ensures
        field_of(standard_claims(project_id, user, factor, issued_at), "aud"@) == Some(
            json_text(project_id),
        ),
        field_of(standard_claims(project_id, user, factor, issued_at), "sub"@) == Some(
            json_text(user.local_id),
        ),
        field_of(standard_claims(project_id, user, factor, issued_at), "iat"@) == Some(
            json_number(issued_at),
        ),
        field_of(standard_claims(project_id, user, factor, issued_at), "firebase"@) == Some(
            JsonView::Object(firebase_claim(user, factor)),
        ),
{
    claim_names_differ();
    names_are_unmarked();
    let none: Fields = Seq::empty();
    assert(token_fields(none));
    let aud = json_text(project_id);
    let iss = json_text("https://securetoken.google.com/"@ + project_id);
    let sub = json_text(user.local_id);
    let iat = json_number(issued_at);
    let exp = json_number((issued_at + 3600) as u64);
    let fb = JsonView::Object(firebase_claim(user, factor));
    firebase_claim_fits(user, factor);
    put_in_token(none, "aud"@, aud);
    let f1 = with_field(none, "aud"@, aud);
    put_in_token(f1, "iss"@, iss);
    let f2 = with_field(f1, "iss"@, iss);
    put_in_token(f2, "sub"@, sub);
    let f3 = with_field(f2, "sub"@, sub);
    put_in_token(f3, "user_id"@, sub);
    let f4 = with_field(f3, "user_id"@, sub);
    put_in_token(f4, "iat"@, iat);
    let f5 = with_field(f4, "iat"@, iat);
    put_in_token(f5, "auth_time"@, iat);
    let f6 = with_field(f5, "auth_time"@, iat);
    put_in_token(f6, "exp"@, exp);
    let f7 = with_field(f6, "exp"@, exp);
    put_in_token(f7, "firebase"@, fb);
    let f8 = with_field(f7, "firebase"@, fb);
    assert(f8 == common_claims(project_id, user, factor, issued_at));
    put_is_found(none, "aud"@, aud, "aud"@);
    put_is_found(f1, "iss"@, iss, "aud"@);
    put_is_found(f2, "sub"@, sub, "aud"@);
    put_is_found(f3, "user_id"@, sub, "aud"@);
    put_is_found(f4, "iat"@, iat, "aud"@);
    put_is_found(f5, "auth_time"@, iat, "aud"@);
    put_is_found(f6, "exp"@, exp, "aud"@);
    put_is_found(f7, "firebase"@, fb, "aud"@);
    claim_stays(f8, user, "aud"@);
    put_is_found(f2, "sub"@, sub, "sub"@);
    put_is_found(f3, "user_id"@, sub, "sub"@);
    put_is_found(f4, "iat"@, iat, "sub"@);
    put_is_found(f5, "auth_time"@, iat, "sub"@);
    put_is_found(f6, "exp"@, exp, "sub"@);
    put_is_found(f7, "firebase"@, fb, "sub"@);
    claim_stays(f8, user, "sub"@);
    put_is_found(f4, "iat"@, iat, "iat"@);
    put_is_found(f5, "auth_time"@, iat, "iat"@);
    put_is_found(f6, "exp"@, exp, "iat"@);
    put_is_found(f7, "firebase"@, fb, "iat"@);
    claim_stays(f8, user, "iat"@);
    put_is_found(f7, "firebase"@, fb, "firebase"@);
    claim_stays(f8, user, "firebase"@);
}

/// Whether the claims of the account's own leave those alone by which the bearer is known.
pub open spec fn keeps_identity(user: UserView) -> bool {
    field_of(custom_claims(user), "aud"@) is None && field_of(custom_claims(user), "sub"@) is None
        && field_of(custom_claims(user), "iat"@) is None
}

/// Whether a token with the claims of the account's own can be read: they nest no deeper than a
/// text is read, and no object in them stands for a JSON text. An account without such claims has
/// nothing that stands in the way.
pub open spec fn own_claims_can_be_read(user: UserView) -> bool {
    can_be_read(JsonView::Object(custom_claims(user)))
}

/// Whether a token is read as one of the account: all claims that went into it are found in it,
/// those of the account's own over the others, and the bearer is known by it unless claims of the
/// account's own go over that. What is read where the account's own claims cannot be read is left
/// open.
pub open spec fn token_reads(
    token: Seq<char>,
    project_id: Seq<char>,
    user: UserView,
    factor: FactorView,
    issued_at: u64,
) -> bool {
    let claims = token_claims(project_id, user, factor, issued_at);
    &&& forall|name: Seq<char>| #[trigger]
        field_of(claims, name) == over(
            standard_claims(project_id, user, factor, issued_at),
            custom_claims(user),
            name,
        )
    &&& own_claims_can_be_read(user) ==> {
        &&& token_body(token) is Some
        &&& reads_alike(token_body(token)->0, JsonView::Object(claims))
        &&& keeps_identity(user) ==> forall|fallback: Seq<char>| #[trigger]
            claims_of(token, fallback) == Some(
                ClaimsView { project_id, local_id: user.local_id, issued_at },
            )
    }
}

/// An ID token for the account, issued at `issued_at`. Whoever reads its claims finds those that
/// went into it: the account, its project and the time, unless claims of the account's own go
/// over them or cannot be read.
pub fn make_token_with_second_factor(
    project_id: &str,
    record: &UserRecord,
    second_factor: Option<(&str, &str)>,
    issued_at: u64,
) -> (r: String)
    requires
        issued_at <= u64::MAX - 3600,
    ensures
        r@ == id_token(project_id@, record.deep_view(), second_factor.deep_view(), issued_at),
        own_claims_can_be_read(record.deep_view()) ==> forall|fallback: Seq<char>| #[trigger]
            claims_of(r@, fallback) == claims_in(
                JsonView::Object(
                    token_claims(
                        project_id@,
                        record.deep_view(),
                        second_factor.deep_view(),
                        issued_at,
                    ),
                ),
                fallback,
            ),
        token_reads(r@, project_id@, record.deep_view(), second_factor.deep_view(), issued_at),
{
    let ghost user = record.deep_view();
    let ghost factor = second_factor.deep_view();
    let own = match &record.custom_attributes {
        Some(custom_attributes) => Json::parse(custom_attributes.as_str().as_bytes()),
        None => None,
    };
    proof {
        standard_claims_fit(project_id@, user, factor, issued_at);
        standard_claims_read(project_id@, user, factor, issued_at);
        let standard = standard_claims(project_id@, user, factor, issued_at);
        let extra = fields_in(own.deep_view());
        assert(names_ordered(extra));
        fields_put_over(standard, extra);
        if own_claims_can_be_read(user) {
            put_over_can_be_read(standard, extra);
        }
    }
    let claims = claims_with(project_id, record, second_factor, issued_at, own);
    let ghost fields = claims.deep_view();
    proof {
        let standard = standard_claims(project_id@, user, factor, issued_at);
        let own = custom_claims(user);
        assert(field_of(fields, "aud"@) == over(standard, own, "aud"@));
        assert(field_of(fields, "sub"@) == over(standard, own, "sub"@));
        assert(field_of(fields, "iat"@) == over(standard, own, "iat"@));
    }
    assert(fields == token_claims(project_id@, user, factor, issued_at));
    let body = object(claims);
    let text = body.render();
    let header = encode_url_safe("{\"alg\":\"none\",\"typ\":\"JWT\"}".as_bytes());
    let payload = encode_url_safe(text.as_str().as_bytes());
    let mut r = header;
    r.push('.');
    r.append(payload.as_str());
    r.push('.');
    proof {
        let head = token_header();
        let sealed_body = sealed(JsonView::Object(fields));
        assert(r@ =~= head + seq!['.'] + sealed_body + seq!['.']);
        base64_has_no_dot(encode_utf8("{\"alg\":\"none\",\"typ\":\"JWT\"}"@), true);
        base64_has_no_dot(encode_utf8(text@), true);
        second_part(head, sealed_body);
        base64_round_trip(encode_utf8(text@), true);
        assert(token_body(r@) == parsed_json(encode_utf8(text@)));
        if own_claims_can_be_read(user) {
            alike_claims(token_body(r@)->0, fields);
        }
    }
    r
}

/// An ID token for an account that has signed in without a second factor.
pub fn make_token(project_id: &str, record: &UserRecord, issued_at: u64) -> (r: String)
    requires
        issued_at <= u64::MAX - 3600,
    ensures
        r@ == id_token(project_id@, record.deep_view(), None, issued_at),
        own_claims_can_be_read(record.deep_view()) ==> forall|fallback: Seq<char>| #[trigger]
            claims_of(r@, fallback) == claims_in(
                JsonView::Object(token_claims(project_id@, record.deep_view(), None, issued_at)),
                fallback,
            ),
        token_reads(r@, project_id@, record.deep_view(), None, issued_at),
{
    make_token_with_second_factor(project_id, record, None, issued_at)
}

/// What went into a refresh token.
pub open spec fn refresh_view(
    project_id: Seq<char>,
    local_id: Seq<char>,
    factor: FactorView,
    issued_at: u64,
) -> RefreshView {
    RefreshView {
        project_id,
        local_id,
        issued_at,
        second_factor: match factor {
            Some((kind, _)) => Some(kind),
            None => None,
        },
        second_factor_identifier: match factor {
            Some((_, identifier)) => Some(identifier),
            None => None,
        },
    }
}

proof fn refresh_names_differ()
    ensures
        "project_id"@.len() == 10,
        "local_id"@.len() == 8,
        "iat"@.len() == 3,
        "nonce"@.len() == 5,
        "second_factor"@.len() == 13,
        "second_factor_identifier"@.len() == 24,
{
    reveal_strlit("project_id");
    reveal_strlit("local_id");
    reveal_strlit("iat");
    reveal_strlit("nonce");
    reveal_strlit("second_factor");
    reveal_strlit("second_factor_identifier");
}

proof fn refresh_fields_read(
    project_id: Seq<char>,
    local_id: Seq<char>,
    factor: FactorView,
    issued_at: u64,
    nonce: Seq<char>,
)
    ensures
        token_fields(refresh_fields(project_id, local_id, factor, issued_at, nonce)),
        refresh_claims_in(
            JsonView::Object(refresh_fields(project_id, local_id, factor, issued_at, nonce)),
        ) == Some(refresh_view(project_id, local_id, factor, issued_at)),
{
    refresh_names_differ();
    names_are_unmarked();
    let none: Fields = Seq::empty();
    let p = json_text(project_id);
    let l = json_text(local_id);
    let t = json_number(issued_at);
    let n = json_text(nonce);
    let f1 = with_field(none, "project_id"@, p);
    let f2 = with_field(f1, "local_id"@, l);
    let f3 = with_field(f2, "iat"@, t);
    let f4 = with_field(f3, "nonce"@, n);
    assert(token_fields(none));
    put_in_token(none, "project_id"@, p);
    put_in_token(f1, "local_id"@, l);
    put_in_token(f2, "iat"@, t);
    put_in_token(f3, "nonce"@, n);
    put_is_found(none, "project_id"@, p, "project_id"@);
    put_is_found(f1, "local_id"@, l, "project_id"@);
    put_is_found(f2, "iat"@, t, "project_id"@);
    put_is_found(f3, "nonce"@, n, "project_id"@);
    put_is_found(f1, "local_id"@, l, "local_id"@);
    put_is_found(f2, "iat"@, t, "local_id"@);
    put_is_found(f3, "nonce"@, n, "local_id"@);
    put_is_found(f2, "iat"@, t, "iat"@);
    put_is_found(f3, "nonce"@, n, "iat"@);
    put_is_found(none, "project_id"@, p, "second_factor"@);
    put_is_found(f1, "local_id"@, l, "second_factor"@);
    put_is_found(f2, "iat"@, t, "second_factor"@);
    put_is_found(f3, "nonce"@, n, "second_factor"@);
    put_is_found(none, "project_id"@, p, "second_factor_identifier"@);
    put_is_found(f1, "local_id"@, l, "second_factor_identifier"@);
    put_is_found(f2, "iat"@, t, "second_factor_identifier"@);
    put_is_found(f3, "nonce"@, n, "second_factor_identifier"@);
    if let Some((kind, identifier)) = factor {
        let k = json_text(kind);
        let i = json_text(identifier);
        let f5 = with_field(f4, "second_factor"@, k);
        put_in_token(f4, "second_factor"@, k);
        put_in_token(f5, "second_factor_identifier"@, i);
        put_is_found(f4, "second_factor"@, k, "project_id"@);
        put_is_found(f5, "second_factor_identifier"@, i, "project_id"@);
        put_is_found(f4, "second_factor"@, k, "local_id"@);
        put_is_found(f5, "second_factor_identifier"@, i, "local_id"@);
        put_is_found(f4, "second_factor"@, k, "iat"@);
        put_is_found(f5, "second_factor_identifier"@, i, "iat"@);
        put_is_found(f4, "second_factor"@, k, "second_factor"@);
        put_is_found(f5, "second_factor_identifier"@, i, "second_factor"@);
        put_is_found(f5, "second_factor_identifier"@, i, "second_factor_identifier"@);
    }
}

/// A refresh token for the account; whoever reads its claims finds those that went into it.
pub fn make_refresh_token_with_second_factor(
    project_id: &str,
    local_id: &str,
    second_factor: Option<(&str, &str)>,
    issued_at: u64,
    nonce: &str,
) -> (r: String)
    ensures
        r@ == refresh_token(
            project_id@,
            local_id@,
            second_factor.deep_view(),
            issued_at,
            nonce@,
        ),
        refresh_claims_of(r@) == Some(
            refresh_view(project_id@, local_id@, second_factor.deep_view(), issued_at),
        ),
{
    let ghost factor = second_factor.deep_view();
    let mut fields = no_fields();
    put_field(&mut fields, "project_id", Json::text(project_id));
    put_field(&mut fields, "local_id", Json::text(local_id));
    put_field(&mut fields, "iat", Json::unsigned(issued_at));
    put_field(&mut fields, "nonce", Json::text(nonce));
    if let Some((kind, identifier)) = second_factor {
        put_field(&mut fields, "second_factor", Json::text(kind));
        put_field(&mut fields, "second_factor_identifier", Json::text(identifier));
    }
    let ghost f = fields.deep_view();
    assert(f == refresh_fields(project_id@, local_id@, factor, issued_at, nonce@));
    let text = object(fields).render();
    let payload = encode_url_safe(text.as_str().as_bytes());
    let r = join2("firelite-refresh.", payload.as_str());
    proof {
        refresh_fields_read(project_id@, local_id@, factor, issued_at, nonce@);
        object_fits(f);
        let prefix = "firelite-refresh."@;
        assert(prefix.is_prefix_of(r@)) by {
            assert(r@.subrange(0, prefix.len() as int) =~= prefix);
        }
        assert(r@.skip(prefix.len() as int) =~= payload@);
        base64_round_trip(encode_utf8(text@), true);
        assert(refresh_body(r@) == parsed_json(encode_utf8(text@)));
        alike_claims(refresh_body(r@)->0, f);
    }
    r
}

/// A refresh token for an account that has signed in without a second factor.
pub fn make_refresh_token(project_id: &str, local_id: &str, issued_at: u64, nonce: &str) -> (r:
    String)
    ensures
        r@ == refresh_token(project_id@, local_id@, None, issued_at, nonce@),
        refresh_claims_of(r@) == Some(refresh_view(project_id@, local_id@, None, issued_at)),
{
    make_refresh_token_with_second_factor(project_id, local_id, None, issued_at, nonce)
}

fn read_token_body(token: &str) -> (r: Option<Json>)
    ensures
        r.deep_view() == token_body(token@),
{
    proof {
        reveal_strlit(".");
    }
    let parts = split(token, ".");
    if parts.len() < 2 {
        return None;
    }
    assert(parts.deep_view()[1] == parts@[1]@);
    match bytes_of_url_safe(parts[1]) {
        Some(bytes) => {
            assert(bytes.deep_view() =~= bytes@);
            Json::parse(bytes.as_slice())
        },
        None => None,
    }
}

fn read_refresh_body(token: &str) -> (r: Option<Json>)
    ensures
        r.deep_view() == refresh_body(token@),
{
    match strip_prefix(token, "firelite-refresh.") {
        Some(payload) => match bytes_of_url_safe(payload) {
            Some(bytes) => {
                assert(bytes.deep_view() =~= bytes@);
                Json::parse(bytes.as_slice())
            },
            None => None,
        },
        None => None,
    }
}

/// The claims of an ID token; a token without a project is taken to be of
/// `fallback_project_id`.
pub fn parse_token_claims(token: &str, fallback_project_id: &str) -> (r: Result<
    TokenClaims,
    AuthError,
>)
    ensures
        match claims_of(token@, fallback_project_id@) {
            Some(claims) => r is Ok && r->Ok_0.deep_view() == claims,
            None => r == Err::<TokenClaims, AuthError>(AuthError::InvalidIdToken),
        },
{
    match read_token_body(token) {
        Some(value) => match claims_from(&value, fallback_project_id) {
            Some(claims) => Ok(claims),
            None => Err(AuthError::InvalidIdToken),
        },
        None => Err(AuthError::InvalidIdToken),
    }
}

/// The claims by which the bearer of a token that holds `value` is known.
pub fn claims_from(value: &Json, fallback_project_id: &str) -> (r: Option<TokenClaims>)
    ensures
        r.deep_view() == claims_in(value.deep_view(), fallback_project_id@),
{
    let local_id = match value.text_in("sub") {
        Some(sub) => sub.to_owned(),
        None => {
            return None;
        },
    };
    let project_id = match value.text_in("aud") {
        Some(aud) => aud.to_owned(),
        None => fallback_project_id.to_owned(),
    };
    let issued_at: u64 = match value.unsigned_in("iat") {
        Some(n) => n,
        None => 0,
    };
    Some(TokenClaims { project_id, local_id, issued_at })
}

/// The claims of a refresh token.
pub fn parse_refresh_token(token: &str) -> (r: Result<RefreshTokenClaims, AuthError>)
    ensures
        match refresh_claims_of(token@) {
            Some(claims) => r is Ok && r->Ok_0.deep_view() == claims,
            None => r == Err::<RefreshTokenClaims, AuthError>(AuthError::InvalidRefreshToken),
        },
{
    match read_refresh_body(token) {
        Some(value) => match refresh_claims_from(&value) {
            Some(claims) => Ok(claims),
            None => Err(AuthError::InvalidRefreshToken),
        },
        None => Err(AuthError::InvalidRefreshToken),
    }
}

/// The claims of a refresh token that holds `value`.
pub fn refresh_claims_from(value: &Json) -> (r: Option<RefreshTokenClaims>)
    ensures
        r.deep_view() == refresh_claims_in(value.deep_view()),
{
    let project_id = match value.text_in("project_id") {
        Some(project_id) => project_id.to_owned(),
        None => {
            return None;
        },
    };
    let local_id = match value.text_in("local_id") {
        Some(local_id) => local_id.to_owned(),
        None => {
            return None;
        },
    };
    let issued_at: u64 = match value.unsigned_in("iat") {
        Some(n) => n,
        None => 0,
    };
    let second_factor = match value.text_in("second_factor") {
        Some(kind) => Some(kind.to_owned()),
        None => None,
    };
    let second_factor_identifier = match value.text_in("second_factor_identifier") {
        Some(identifier) => Some(identifier.to_owned()),
        None => None,
    };
    Some(
        RefreshTokenClaims {
            project_id,
            local_id,
            issued_at,
            second_factor,
            second_factor_identifier,
        },
    )
}

/// The account that a custom token is for.
pub fn parse_custom_token_subject(token: &str) -> (r: Result<String, AuthError>)
    ensures
        match custom_subject(token@) {
            Some(subject) => r is Ok && r->Ok_0@ == subject,
            None => r == Err::<String, AuthError>(AuthError::InvalidCustomToken),
        },
{
    if !contains_char(token, '.') {
        return Ok(token.to_owned());
    }
    match read_token_body(token) {
        Some(value) => match subject_from(&value) {
            Some(subject) => Ok(subject),
            None => Err(AuthError::InvalidCustomToken),
        },
        None => Err(AuthError::InvalidCustomToken),
    }
}

/// The account that a custom token that holds `value` is for.
pub fn subject_from(value: &Json) -> (r: Option<String>)
    ensures
        r.deep_view() == subject_in(value.deep_view()),
{
    let named = match value.get("uid") {
        Some(found) => Some(found),
        None => match value.get("sub") {
            Some(found) => Some(found),
            None => value.get("user_id"),
        },
    };
    match named {
        Some(found) => match found.as_str() {
            Some(subject) => Some(subject.to_owned()),
            None => None,
        },
        None => None,
    }
}

proof fn factor_names_differ()
    ensures
        "sign_in_provider"@.len() == 16,
        "identities"@.len() == 10,
        "sign_in_second_factor"@.len() == 21,
        "second_factor_identifier"@.len() == 24,
{
    reveal_strlit("sign_in_provider");
    reveal_strlit("identities");
    reveal_strlit("sign_in_second_factor");
    reveal_strlit("second_factor_identifier");
}

/// Whether whoever reads a token finds the second factor of the sign-in in it.
pub open spec fn tells_factor(token: Seq<char>, factor: (Seq<char>, Seq<char>)) -> bool {
    let told = token_body(token)->0.get("firebase"@);
    &&& token_body(token) is Some
    &&& told is Some
    &&& told->0.text_in("sign_in_second_factor"@) == Some(factor.0)
    &&& told->0.text_in("second_factor_identifier"@) == Some(factor.1)
}

/// Whoever reads a token finds the provider and the second factor of the sign-in in it, unless the
/// account's own claims go over them or cannot be read.
pub proof fn sign_in_is_told(
    token: Seq<char>,
    project_id: Seq<char>,
    user: UserView,
    factor: FactorView,
    issued_at: u64,
)
    requires
        token_reads(token, project_id, user, factor, issued_at),
        own_claims_can_be_read(user),
        field_of(custom_claims(user), "firebase"@) is None,
    ensures
        ({
            let told = token_body(token)->0.get("firebase"@);
            &&& told is Some
            &&& told->0.text_in("sign_in_provider"@) == Some(sign_in_provider(user))
            &&& factor is Some ==> tells_factor(token, factor->0)
        }),
{
    factor_names_differ();
    standard_claims_read(project_id, user, factor, issued_at);
    let claims = token_claims(project_id, user, factor, issued_at);
    let told = firebase_claim(user, factor);
    assert(field_of(claims, "firebase"@) == Some(JsonView::Object(told)));
    let none: Fields = Seq::empty();
    let provider = json_text(sign_in_provider(user));
    let ids = JsonView::Object(identities(user));
    put_keeps_order(none, "sign_in_provider"@, provider);
    let f1 = with_field(none, "sign_in_provider"@, provider);
    put_is_found(none, "sign_in_provider"@, provider, "sign_in_provider"@);
    put_keeps_order(f1, "identities"@, ids);
    let f2 = with_field(f1, "identities"@, ids);
    put_is_found(f1, "identities"@, ids, "sign_in_provider"@);
    if let Some((kind, identifier)) = factor {
        put_keeps_order(f2, "sign_in_second_factor"@, json_text(kind));
        let f3 = with_field(f2, "sign_in_second_factor"@, json_text(kind));
        put_is_found(f2, "sign_in_second_factor"@, json_text(kind), "sign_in_provider"@);
        put_is_found(f2, "sign_in_second_factor"@, json_text(kind), "sign_in_second_factor"@);
        put_is_found(
            f3,
            "second_factor_identifier"@,
            json_text(identifier),
            "sign_in_provider"@,
        );
        put_is_found(
            f3,
            "second_factor_identifier"@,
            json_text(identifier),
            "sign_in_second_factor"@,
        );
        put_is_found(
            f3,
            "second_factor_identifier"@,
            json_text(identifier),
            "second_factor_identifier"@,
        );
    }
    match token_body(token)->0 {
        JsonView::Object(read) => {
            alike_fields(read, claims, "firebase"@);
            alike_claims(field_of(read, "firebase"@)->0, told);
        },
        _ => {},
    }
}

/// What the claims of every ID token hold: the account under both its names, the project and who
/// issued the token, the time from which and until when it is good, which is an hour, and the email
/// address and the phone number of an account that has them.
#[verifier::rlimit(50)]
pub proof fn claims_tell_account(
    project_id: Seq<char>,
    user: UserView,
    factor: FactorView,
    issued_at: u64,
)
    requires
        issued_at <= u64::MAX - 3600,
    ensures
        ({
            let f = standard_claims(project_id, user, factor, issued_at);
            &&& field_of(f, "aud"@) == Some(JsonView::Text(project_id))
            &&& field_of(f, "iss"@) == Some(
                JsonView::Text("https://securetoken.google.com/"@ + project_id),
            )
            &&& field_of(f, "sub"@) == Some(JsonView::Text(user.local_id))
            &&& field_of(f, "user_id"@) == Some(JsonView::Text(user.local_id))
            &&& field_of(f, "iat"@) == Some(
                JsonView::Number(Some(issued_at), decimal(issued_at as nat)),
            )
            &&& field_of(f, "auth_time"@) == Some(
                JsonView::Number(Some(issued_at), decimal(issued_at as nat)),
            )
            &&& field_of(f, "exp"@) == Some(
                JsonView::Number(
                    Some((issued_at + 3600) as u64),
                    decimal((issued_at + 3600) as nat),
                ),
            )
            &&& user.email.len() > 0 ==> field_of(f, "email"@) == Some(JsonView::Text(user.email))
                && field_of(f, "email_verified"@) == Some(JsonView::Bool(user.email_verified))
            &&& user.email.len() == 0 ==> field_of(f, "email"@) is None && field_of(
                f,
                "email_verified"@,
            ) is None
            &&& user.phone_number is Some ==> field_of(f, "phone_number"@) == Some(
                JsonView::Text(user.phone_number->0),
            )
            &&& user.phone_number is None ==> field_of(f, "phone_number"@) is None
        }),
{
    claim_names_differ();
    names_are_unmarked();
    standard_claims_read(project_id, user, factor, issued_at);
    assert("iss"@ != "exp"@) by {
        reveal_strlit("iss");
        reveal_strlit("exp");
        assert("iss"@[0] == 'i' && "exp"@[0] == 'e');
    }
    assert("iss"@.len() == 3 && "exp"@.len() == 3) by {
        reveal_strlit("iss");
        reveal_strlit("exp");
    }
    let none: Fields = Seq::empty();
    assert(token_fields(none));
    let aud = json_text(project_id);
    let iss = json_text("https://securetoken.google.com/"@ + project_id);
    let sub = json_text(user.local_id);
    let iat = json_number(issued_at);
    let exp = json_number((issued_at + 3600) as u64);
    let fb = JsonView::Object(firebase_claim(user, factor));
    firebase_claim_fits(user, factor);
    put_in_token(none, "aud"@, aud);
    let f1 = with_field(none, "aud"@, aud);
    put_in_token(f1, "iss"@, iss);
    let f2 = with_field(f1, "iss"@, iss);
    put_in_token(f2, "sub"@, sub);
    let f3 = with_field(f2, "sub"@, sub);
    put_in_token(f3, "user_id"@, sub);
    let f4 = with_field(f3, "user_id"@, sub);
    put_in_token(f4, "iat"@, iat);
    let f5 = with_field(f4, "iat"@, iat);
    put_in_token(f5, "auth_time"@, iat);
    let f6 = with_field(f5, "auth_time"@, iat);
    put_in_token(f6, "exp"@, exp);
    let f7 = with_field(f6, "exp"@, exp);
    put_in_token(f7, "firebase"@, fb);
    let f8 = with_field(f7, "firebase"@, fb);
    assert(f8 == common_claims(project_id, user, factor, issued_at));
    put_is_found(f1, "iss"@, iss, "iss"@);
    put_is_found(f2, "sub"@, sub, "iss"@);
    put_is_found(f3, "user_id"@, sub, "iss"@);
    put_is_found(f4, "iat"@, iat, "iss"@);
    put_is_found(f5, "auth_time"@, iat, "iss"@);
    put_is_found(f6, "exp"@, exp, "iss"@);
    put_is_found(f7, "firebase"@, fb, "iss"@);
    claim_stays(f8, user, "iss"@);
    put_is_found(f3, "user_id"@, sub, "user_id"@);
    put_is_found(f4, "iat"@, iat, "user_id"@);
    put_is_found(f5, "auth_time"@, iat, "user_id"@);
    put_is_found(f6, "exp"@, exp, "user_id"@);
    put_is_found(f7, "firebase"@, fb, "user_id"@);
    claim_stays(f8, user, "user_id"@);
    put_is_found(f5, "auth_time"@, iat, "auth_time"@);
    put_is_found(f6, "exp"@, exp, "auth_time"@);
    put_is_found(f7, "firebase"@, fb, "auth_time"@);
    claim_stays(f8, user, "auth_time"@);
    put_is_found(f6, "exp"@, exp, "exp"@);
    put_is_found(f7, "firebase"@, fb, "exp"@);
    claim_stays(f8, user, "exp"@);
    put_is_found(none, "aud"@, aud, "email"@);
    put_is_found(f1, "iss"@, iss, "email"@);
    put_is_found(f2, "sub"@, sub, "email"@);
    put_is_found(f3, "user_id"@, sub, "email"@);
    put_is_found(f4, "iat"@, iat, "email"@);
    put_is_found(f5, "auth_time"@, iat, "email"@);
    put_is_found(f6, "exp"@, exp, "email"@);
    put_is_found(f7, "firebase"@, fb, "email"@);
    put_is_found(none, "aud"@, aud, "email_verified"@);
    put_is_found(f1, "iss"@, iss, "email_verified"@);
    put_is_found(f2, "sub"@, sub, "email_verified"@);
    put_is_found(f3, "user_id"@, sub, "email_verified"@);
    put_is_found(f4, "iat"@, iat, "email_verified"@);
    put_is_found(f5, "auth_time"@, iat, "email_verified"@);
    put_is_found(f6, "exp"@, exp, "email_verified"@);
    put_is_found(f7, "firebase"@, fb, "email_verified"@);
    put_is_found(none, "aud"@, aud, "phone_number"@);
    put_is_found(f1, "iss"@, iss, "phone_number"@);
    put_is_found(f2, "sub"@, sub, "phone_number"@);
    put_is_found(f3, "user_id"@, sub, "phone_number"@);
    put_is_found(f4, "iat"@, iat, "phone_number"@);
    put_is_found(f5, "auth_time"@, iat, "phone_number"@);
    put_is_found(f6, "exp"@, exp, "phone_number"@);
    put_is_found(f7, "firebase"@, fb, "phone_number"@);
    let email = json_text(user.email);
    let verified = JsonView::Bool(user.email_verified);
    put_in_token(f8, "email"@, email);
    let g = with_field(f8, "email"@, email);
    put_in_token(g, "email_verified"@, verified);
    put_is_found(f8, "email"@, email, "email"@);
    put_is_found(g, "email_verified"@, verified, "email"@);
    put_is_found(f8, "email"@, email, "email_verified"@);
    put_is_found(g, "email_verified"@, verified, "email_verified"@);
    put_is_found(f8, "email"@, email, "phone_number"@);
    put_is_found(g, "email_verified"@, verified, "phone_number"@);
    let h = with_email_claims(f8, user);
    assert(token_fields(h));
    if let Some(phone) = user.phone_number {
        put_is_found(h, "phone_number"@, json_text(phone), "email"@);
        put_is_found(h, "phone_number"@, json_text(phone), "email_verified"@);
        put_is_found(h, "phone_number"@, json_text(phone), "phone_number"@);
    }
}

/// Whoever reads the token of an account without claims of its own finds the account, the project,
/// the issuer and the times in it, and the email address and the phone number of an account that has
/// them.
pub proof fn token_tells_account(
    token: Seq<char>,
    project_id: Seq<char>,
    user: UserView,
    factor: FactorView,
    issued_at: u64,
)
    requires
        issued_at <= u64::MAX - 3600,
        token_reads(token, project_id, user, factor, issued_at),
        custom_claims(user).len() == 0,
    ensures
        ({
            let body = token_body(token)->0;
            &&& token_body(token) is Some
            &&& body.text_in("aud"@) == Some(project_id)
            &&& body.text_in("iss"@) == Some("https://securetoken.google.com/"@ + project_id)
            &&& body.text_in("sub"@) == Some(user.local_id)
            &&& body.text_in("user_id"@) == Some(user.local_id)
            &&& body.unsigned_in("iat"@) == Some(issued_at)
            &&& body.unsigned_in("auth_time"@) == Some(issued_at)
            &&& body.unsigned_in("exp"@) == Some((issued_at + 3600) as u64)
            &&& user.email.len() > 0 ==> body.text_in("email"@) == Some(user.email)
            &&& user.email.len() == 0 ==> body.text_in("email"@) is None
            &&& user.phone_number is Some ==> body.text_in("phone_number"@) == user.phone_number
            &&& user.phone_number is None ==> body.text_in("phone_number"@) is None
        }),
{
    let own = custom_claims(user);
    assert(own =~= Seq::empty());
    assert(can_be_read(JsonView::Object(own)));
    claims_tell_account(project_id, user, factor, issued_at);
    let claims = token_claims(project_id, user, factor, issued_at);
    assert(claims == standard_claims(project_id, user, factor, issued_at));
    alike_claims(token_body(token)->0, claims);
}

/// The claims of an account's own are in its token as they are, over all others of their names.
pub proof fn own_claims_go_over(
    token: Seq<char>,
    project_id: Seq<char>,
    user: UserView,
    factor: FactorView,
    issued_at: u64,
    name: Seq<char>,
)
    requires
        token_reads(token, project_id, user, factor, issued_at),
        own_claims_can_be_read(user),
        field_of(custom_claims(user), name) is Some,
    ensures
        token_body(token) is Some,
        token_body(token)->0.get(name) is Some,
        reads_alike(token_body(token)->0.get(name)->0, field_of(custom_claims(user), name)->0),
{
    let claims = token_claims(project_id, user, factor, issued_at);
    assert(field_of(claims, name) == over(
        standard_claims(project_id, user, factor, issued_at),
        custom_claims(user),
        name,
    ));
    match token_body(token)->0 {
        JsonView::Object(read) => {
            alike_fields(read, claims, name);
        },
        _ => {},
    }
}

/// A token tells how its account signs in: its first provider, and its email address and phone
/// number among its identities.
#[verifier::rlimit(50)]
pub proof fn token_tells_identities(user: UserView, factor: FactorView)
    ensures
        ({
            let told = firebase_claim(user, factor);
            let ids = field_of(told, "identities"@)->0;
            &&& field_of(told, "sign_in_provider"@) == Some(
                JsonView::Text(
                    if user.providers.len() > 0 {
                        user.providers[0].provider_id
                    } else {
                        "anonymous"@
                    },
                ),
            )
            &&& field_of(told, "identities"@) is Some
            &&& user.email.len() > 0 ==> ids.get("email"@) == Some(
                JsonView::Array(seq![JsonView::Text(user.email)]),
            )
            &&& user.email.len() == 0 ==> ids.get("email"@) is None
            &&& user.phone_number is Some ==> ids.get("phone"@) == Some(
                JsonView::Array(seq![JsonView::Text(user.phone_number->0)]),
            )
            &&& user.phone_number is None ==> ids.get("phone"@) is None
            &&& factor is Some ==> field_of(told, "sign_in_second_factor"@) == Some(
                JsonView::Text((factor->0).0),
            ) && field_of(told, "second_factor_identifier"@) == Some(
                JsonView::Text((factor->0).1),
            )
            &&& factor is None ==> field_of(told, "sign_in_second_factor"@) is None && field_of(
                told,
                "second_factor_identifier"@,
            ) is None
        }),
{
    factor_names_differ();
    let none: Fields = Seq::empty();
    assert("email"@ != "phone"@) by {
        reveal_strlit("email");
        reveal_strlit("phone");
        assert("email"@[0] == 'e' && "phone"@[0] == 'p');
    }
    let mail = JsonView::Array(seq![json_text(user.email)]);
    put_keeps_order(none, "email"@, mail);
    let by_email = if user.email.len() > 0 {
        with_field(none, "email"@, mail)
    } else {
        none
    };
    put_is_found(none, "email"@, mail, "email"@);
    put_is_found(none, "email"@, mail, "phone"@);
    if let Some(phone) = user.phone_number {
        let number = JsonView::Array(seq![json_text(phone)]);
        put_is_found(by_email, "phone"@, number, "email"@);
        put_is_found(by_email, "phone"@, number, "phone"@);
    }
    let provider = json_text(sign_in_provider(user));
    let ids = JsonView::Object(identities(user));
    put_keeps_order(none, "sign_in_provider"@, provider);
    let f1 = with_field(none, "sign_in_provider"@, provider);
    put_keeps_order(f1, "identities"@, ids);
    let f2 = with_field(f1, "identities"@, ids);
    put_is_found(none, "sign_in_provider"@, provider, "sign_in_provider"@);
    put_is_found(f1, "identities"@, ids, "sign_in_provider"@);
    put_is_found(none, "sign_in_provider"@, provider, "identities"@);
    put_is_found(f1, "identities"@, ids, "identities"@);
    put_is_found(none, "sign_in_provider"@, provider, "sign_in_second_factor"@);
    put_is_found(f1, "identities"@, ids, "sign_in_second_factor"@);
    put_is_found(none, "sign_in_provider"@, provider, "second_factor_identifier"@);
    put_is_found(f1, "identities"@, ids, "second_factor_identifier"@);
    if let Some((kind, identifier)) = factor {
        put_keeps_order(f2, "sign_in_second_factor"@, json_text(kind));
        let f3 = with_field(f2, "sign_in_second_factor"@, json_text(kind));
        put_is_found(f2, "sign_in_second_factor"@, json_text(kind), "sign_in_provider"@);
        put_is_found(f3, "second_factor_identifier"@, json_text(identifier), "sign_in_provider"@);
        put_is_found(f2, "sign_in_second_factor"@, json_text(kind), "identities"@);
        put_is_found(f3, "second_factor_identifier"@, json_text(identifier), "identities"@);
        put_is_found(f2, "sign_in_second_factor"@, json_text(kind), "sign_in_second_factor"@);
        put_is_found(f3, "second_factor_identifier"@, json_text(identifier), "sign_in_second_factor"@);
        put_is_found(f2, "sign_in_second_factor"@, json_text(kind), "second_factor_identifier"@);
        put_is_found(f3, "second_factor_identifier"@, json_text(identifier), "second_factor_identifier"@);
    }
}

/// A custom token without a dot is the id of its account. One with dots names the account in its
/// body, as `uid` or else as `sub` or else as `user_id`, and has to name it by a text.
pub proof fn custom_token_names_its_account(token: Seq<char>)
    ensures
        ({
            let body = token_body(token)->0;
            let dotted = token.contains('.');
            &&& !dotted ==> custom_subject(token) == Some(token)
            &&& dotted && token_body(token) is None ==> custom_subject(token) is None
            &&& dotted && token_body(token) is Some && body.get("uid"@) is Some ==> custom_subject(
                token,
            ) == body.text_in("uid"@)
            &&& dotted && token_body(token) is Some && body.get("uid"@) is None && body.get(
                "sub"@,
            ) is Some ==> custom_subject(token) == body.text_in("sub"@)
            &&& dotted && token_body(token) is Some && body.get("uid"@) is None && body.get(
                "sub"@,
            ) is None ==> custom_subject(token) == body.text_in("user_id"@)
        }),
{
}

/// The bearer of an ID token is the account in its `sub`, of the project in its `aud` or else of
/// the one that is given, since the time in its `iat`; a token without a `sub` has none.
pub proof fn token_names_its_bearer(token: Seq<char>, fallback: Seq<char>)
    ensures
        ({
            let body = token_body(token)->0;
            let claims = claims_of(token, fallback);
            &&& claims is Some <==> token_body(token) is Some && body.text_in("sub"@) is Some
            &&& claims is Some ==> {
                &&& Some(claims->0.local_id) == body.text_in("sub"@)
                &&& body.text_in("aud"@) is Some ==> Some(claims->0.project_id) == body.text_in(
                    "aud"@,
                )
                &&& body.text_in("aud"@) is None ==> claims->0.project_id == fallback
                &&& body.unsigned_in("iat"@) is Some ==> Some(claims->0.issued_at)
                    == body.unsigned_in("iat"@)
                &&& body.unsigned_in("iat"@) is None ==> claims->0.issued_at == 0
            }
        }),
{
}

/// The claims of an account's own are the fields of its custom attributes, where those are a JSON
/// object; an account with any other has none.
pub proof fn own_claims_are_custom_attributes(user: UserView)
    ensures
        ({
            let read = parsed_json(encode_utf8(user.custom_attributes->0));
            let given = user.custom_attributes is Some && read is Some && read->0 is Object;
            &&& given ==> custom_claims(user) == read->0->Object_0
            &&& !given ==> custom_claims(user).len() == 0
        }),
{
}

/// An ID token is a header that says it is not signed, its claims, and no signature, with dots
/// between them; the header and the claims are JSON texts in Base64.
pub proof fn token_has_three_parts(
    project_id: Seq<char>,
    user: UserView,
    factor: FactorView,
    issued_at: u64,
)
    ensures
        ({
            let claims = token_claims(project_id, user, factor, issued_at);
            let token = id_token(project_id, user, factor, issued_at);
            let header = base64_text(encode_utf8("{\"alg\":\"none\",\"typ\":\"JWT\"}"@), true);
            let body = base64_text(encode_utf8(rendered_json(JsonView::Object(claims))), true);
            pieces(token, "."@) == seq![header, body, Seq::empty()]
        }),
{
    reveal_strlit(".");
    let dot = "."@;
    assert(dot =~= seq!['.']);
    let claims = token_claims(project_id, user, factor, issued_at);
    let header = base64_text(encode_utf8("{\"alg\":\"none\",\"typ\":\"JWT\"}"@), true);
    let body = base64_text(encode_utf8(rendered_json(JsonView::Object(claims))), true);
    base64_has_no_dot(encode_utf8("{\"alg\":\"none\",\"typ\":\"JWT\"}"@), true);
    base64_has_no_dot(encode_utf8(rendered_json(JsonView::Object(claims))), true);
    one_char_lacks(header, '.');
    one_char_lacks(body, '.');
    let none: Seq<char> = Seq::empty();
    one_char_lacks(none, '.');
    let token = id_token(project_id, user, factor, issued_at);
    assert(token =~= header + dot + (body + dot + none));
    first_piece(header, dot, body + dot + none);
    first_piece(body, dot, none);
    only_piece(none, dot);
    assert(pieces(token, dot) =~= seq![header, body, none]);
}

/// A refresh token is read as the one of the account, the project and the time that it was made
/// for, with the second factor that the account signed in with.
pub proof fn refresh_token_tells_account(
    project_id: Seq<char>,
    local_id: Seq<char>,
    factor: FactorView,
    issued_at: u64,
)
    ensures
        ({
            let told = refresh_view(project_id, local_id, factor, issued_at);
            &&& told.project_id == project_id
            &&& told.local_id == local_id
            &&& told.issued_at == issued_at
            &&& factor is None ==> told.second_factor is None && told.second_factor_identifier
                is None
            &&& factor is Some ==> told.second_factor == Some((factor->0).0)
                && told.second_factor_identifier == Some((factor->0).1)
        }),
{
}

} // verus!
