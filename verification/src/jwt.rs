use vstd::prelude::*;
use crate::error::{DomainError, ErrorView};
use crate::json::{JsonValue, JsonView, json_member, json_str};
use crate::text::{copy_str, str_eq};
use crate::user::{AuthUser, AuthUserView};

verus! {

#[verifier::external_type_specification]
#[verifier::external_body]
pub struct ExJwtAlgorithm(jsonwebtoken::Algorithm);

#[verifier::external_type_specification]
#[verifier::external_body]
pub struct ExJwtDecodingKey(jsonwebtoken::DecodingKey);

/// The public material of a signing key.
#[derive(Debug, Clone)]
pub enum KeyMaterial {
    /// An RSA key: base64url modulus and exponent.
    Rsa { n: String, e: String },
    /// An elliptic-curve key: base64url coordinates.
    Ec { x: String, y: String },
    /// A key of another family.
    Other,
}

/// A signing key of the identity provider, with its key id.
#[derive(Debug, Clone)]
pub struct JsonWebKey {
    pub kid: Option<String>,
    pub material: KeyMaterial,
}

/// The signing keys the identity provider publishes.
#[derive(Debug, Clone)]
pub struct KeySet {
    pub keys: Vec<JsonWebKey>,
}

/// The key ids of a key set, in order.
pub open spec fn key_ids(keys: Seq<JsonWebKey>) -> Seq<Option<Seq<char>>> {
    keys.map_values(|k: JsonWebKey| k.kid.deep_view())
}

/// The index of the first key whose id is `kid`.
pub open spec fn first_with_id(ids: Seq<Option<Seq<char>>>, kid: Seq<char>) -> Option<int>
    decreases ids.len(),
{
    if ids.len() == 0 {
        None
    } else if ids[0] == Some(kid) {
        Some(0)
    } else {
        match first_with_id(ids.drop_first(), kid) {
            Some(i) => Some(i + 1),
            None => None,
        }
    }
}

proof fn lemma_first_with_id(ids: Seq<Option<Seq<char>>>, kid: Seq<char>)
    ensures
        match first_with_id(ids, kid) {
            Some(i) => 0 <= i < ids.len() && ids[i] == Some(kid)
                && forall|j: int| 0 <= j < i ==> ids[j] != Some(kid),
            None => forall|j: int| 0 <= j < ids.len() ==> ids[j] != Some(kid),
        },
    decreases ids.len(),
{
    if ids.len() > 0 && ids[0] != Some(kid) {
        let rest = ids.drop_first();
        lemma_first_with_id(rest, kid);
        match first_with_id(rest, kid) {
            Some(i) => {
                assert(ids[i + 1] == rest[i]);
                assert forall|j: int| 0 <= j < i + 1 implies ids[j] != Some(kid) by {
                    if j > 0 {
                        assert(ids[j] == rest[j - 1]);
                    }
                }
            },
            None => {
                assert forall|j: int| 0 <= j < ids.len() implies ids[j] != Some(kid) by {
                    if j > 0 {
                        assert(ids[j] == rest[j - 1]);
                    }
                }
            },
        }
    }
}

impl KeySet {
    /// The first key with id `kid`.
    pub fn find(&self, kid: &str) -> (r: Option<&JsonWebKey>)
        ensures
            match first_with_id(key_ids(self.keys@), kid@) {
                Some(i) => r == Some(&self.keys@[i]),
                None => r is None,
            },
    {
        let ghost ids = key_ids(self.keys@);
        proof {
            lemma_first_with_id(ids, kid@);
        }
        let mut i: usize = 0;
        while i < self.keys.len()
            invariant
                ids == key_ids(self.keys@),
                ids.len() == self.keys@.len(),
                i <= ids.len(),
                forall|j: int| 0 <= j < i ==> ids[j] != Some(kid@),
            decreases self.keys.len() - i,
        {
            assert(ids[i as int] == self.keys@[i as int].kid.deep_view());
            match &self.keys[i].kid {
                Some(id) => {
                    if str_eq(id.as_str(), kid) {
                        proof {
                            lemma_first_with_id(ids, kid@);
                            if first_with_id(ids, kid@) != Some(i as int) {
                                let k = first_with_id(ids, kid@)->0;
                                assert(k < i || k > i);
                            }
                        }
                        return Some(&self.keys[i]);
                    }
                },
                None => {},
            }
            i = i + 1;
        }
        None
    }
}

/// Names what `jsonwebtoken::decode_header` reads from a token: the key id of its
/// header, or the text of the error it reports.
pub uninterp spec fn jwt_header_kid(token: Seq<char>) -> Result<Option<Seq<char>>, Seq<char>>;

/// The key id and error text of a header read.
pub open spec fn header_view(r: Result<(Option<String>, jsonwebtoken::Algorithm), String>) -> Result<Option<Seq<char>>, Seq<char>> {
    match r {
        Ok((kid, _)) => Ok(kid.deep_view()),
        Err(m) => Err(m@),
    }
}

/// Trusted: `jsonwebtoken::decode_header`; the contract claims that the key id read,
/// or the error text, is the one `jwt_header_kid` names. The algorithm is carried as read.
#[verifier::external_body]
fn read_header(token: &str) -> (r: Result<(Option<String>, jsonwebtoken::Algorithm), String>)
    ensures
        header_view(r) == jwt_header_kid(token@),
{
    match jsonwebtoken::decode_header(token) {
        Ok(h) => Ok((h.kid, h.alg)),
        Err(e) => Err(e.to_string()),
    }
}

/// Trusted: `jsonwebtoken::DecodingKey::from_rsa_components`; `None` where it reports
/// an error. Nothing is claimed of the key.
#[verifier::external_body]
fn rsa_key(n: &str, e: &str) -> Option<jsonwebtoken::DecodingKey> {
    jsonwebtoken::DecodingKey::from_rsa_components(n, e).ok()
}

/// Trusted: `jsonwebtoken::DecodingKey::from_ec_components`; `None` where it reports
/// an error. Nothing is claimed of the key.
#[verifier::external_body]
fn ec_key(x: &str, y: &str) -> Option<jsonwebtoken::DecodingKey> {
    jsonwebtoken::DecodingKey::from_ec_components(x, y).ok()
}

/// What a token is checked against: the signing algorithm, the accepted issuers and
/// audiences, and the registered claims that must be present.
pub struct TokenValidation {
    pub algorithm: jsonwebtoken::Algorithm,
    pub issuers: Vec<String>,
    pub audiences: Vec<String>,
    pub required_claims: Vec<String>,
}

/// The check a token of the identity provider must pass: the algorithm its header
/// names, the configured issuer, this client as audience, and `exp`, `iss` and `aud`
/// present.
pub fn token_validation(alg: jsonwebtoken::Algorithm, issuer: &str, client_id: &str) -> (v: TokenValidation)
    ensures
        v.algorithm == alg,
        v.issuers.deep_view() == seq![issuer@],
        v.audiences.deep_view() == seq![client_id@],
        v.required_claims.deep_view() == seq!["exp"@, "iss"@, "aud"@],
{
    let mut issuers: Vec<String> = Vec::new();
    issuers.push(copy_str(issuer));
    let mut audiences: Vec<String> = Vec::new();
    audiences.push(copy_str(client_id));
    let mut required_claims: Vec<String> = Vec::new();
    required_claims.push(copy_str("exp"));
    required_claims.push(copy_str("iss"));
    required_claims.push(copy_str("aud"));
    proof {
        assert(issuers.deep_view() =~= seq![issuer@]);
        assert(audiences.deep_view() =~= seq![client_id@]);
        assert(required_claims.deep_view() =~= seq!["exp"@, "iss"@, "aud"@]);
    }
    TokenValidation { algorithm: alg, issuers, audiences, required_claims }
}

/// Names the claims document of a token: its payload segment, decoded and read as
/// JSON, as `jsonwebtoken::decode` hands it back.
pub uninterp spec fn jwt_claims(token: Seq<char>) -> Option<JsonView>;

/// A registered claim names one of `accepted`: a string among them, or an array
/// holding such a string.
pub open spec fn claim_among(claim: Option<JsonView>, accepted: Seq<Seq<char>>) -> bool {
    match claim {
        Some(JsonView::Str(s)) => accepted.contains(s),
        Some(JsonView::Array(items)) => exists|i: int| 0 <= i < items.len()
            && (#[trigger] items[i] matches JsonView::Str(s) && accepted.contains(s)),
        _ => false,
    }
}

/// Trusted: `jsonwebtoken::decode` of the token's claims as a JSON document under the
/// given validation. Whether it succeeds depends on the clock (expiry), so success is
/// not claimed. When it succeeds, the contract claims what the crate's `decode` and
/// `validate` show: the claims are the token's own (`jwt_claims`), a required `exp` is
/// a number, and a required `iss` or `aud` names an accepted issuer or audience.
#[verifier::external_body]
fn decode_claims(token: &str, key: &jsonwebtoken::DecodingKey, validation: &TokenValidation) -> (r: Option<JsonValue>)
    ensures
        r matches Some(c) ==> jwt_claims(token@) == Some(c@),
        r matches Some(c) ==> (validation.required_claims.deep_view().contains("exp"@)
            ==> crate::json::json_member(c@, "exp"@) matches Some(JsonView::Number(_))),
        r matches Some(c) ==> (validation.required_claims.deep_view().contains("iss"@)
            ==> claim_among(crate::json::json_member(c@, "iss"@), validation.issuers.deep_view())),
        r matches Some(c) ==> (validation.required_claims.deep_view().contains("aud"@)
            ==> claim_among(crate::json::json_member(c@, "aud"@), validation.audiences.deep_view())),
{
    let mut checks = jsonwebtoken::Validation::new(validation.algorithm);
    checks.set_issuer(&validation.issuers);
    checks.set_audience(&validation.audiences);
    checks.set_required_spec_claims(&validation.required_claims);
    match jsonwebtoken::decode::<serde_json::Value>(token, key, &checks) {
        Ok(data) => Some(crate::json::from_serde(data.claims)),
        Err(_) => None,
    }
}

/// The identity a token's claims carry: the `sub`, `email` and `name` strings of
/// the claims object.
pub open spec fn spec_claims_user(claims: JsonView) -> Option<AuthUserView> {
    match claims {
        JsonView::Object(_) => match (
            json_member(claims, "sub"@),
            json_member(claims, "email"@),
            json_member(claims, "name"@),
        ) {
            (Some(s), Some(e), Some(n)) => match (json_str(s), json_str(e), json_str(n)) {
                (Some(sub), Some(email), Some(name)) =>
                    Some(AuthUserView { sub, email, display_name: name }),
                _ => None,
            },
            _ => None,
        },
        _ => None,
    }
}

/// Reads the identity out of a token's claims.
pub fn claims_user(claims: &JsonValue) -> (r: Option<AuthUser>)
    ensures
        match r {
            Some(u) => spec_claims_user(claims@) == Some(u@),
            None => spec_claims_user(claims@) is None,
        },
{
    match claims {
        JsonValue::Object(_) => {},
        _ => return None,
    }
    let (s, e, n) = match (claims.member("sub"), claims.member("email"), claims.member("name")) {
        (Some(s), Some(e), Some(n)) => (s, e, n),
        _ => return None,
    };
    match (s.as_str(), e.as_str(), n.as_str()) {
        (Some(sub), Some(email), Some(name)) => Some(AuthUser {
            sub: copy_str(sub),
            email: copy_str(email),
            display_name: copy_str(name),
        }),
        _ => None,
    }
}

/// Where the signing key of a token is looked up: the key named by the header's key
/// id. A header that cannot be read is invalid input; a header without a key id, or
/// naming no published key, is unauthorized.
pub open spec fn spec_token_key(keys: Seq<JsonWebKey>, token: Seq<char>) -> Result<JsonWebKey, ErrorView> {
    match jwt_header_kid(token) {
        Err(m) => Err(ErrorView::InvalidInput(m)),
        Ok(None) => Err(ErrorView::Unauthorized),
        Ok(Some(kid)) => match first_with_id(key_ids(keys), kid) {
            None => Err(ErrorView::Unauthorized),
            Some(i) => Ok(keys[i]),
        },
    }
}

/// The registered claims of an accepted token: an `exp` number, the issuer, and this
/// client among the audiences.
pub open spec fn token_accepted(claims: JsonView, issuer: Seq<char>, client_id: Seq<char>) -> bool {
    &&& crate::json::json_member(claims, "exp"@) matches Some(JsonView::Number(_))
    &&& claim_among(crate::json::json_member(claims, "iss"@), seq![issuer])
    &&& claim_among(crate::json::json_member(claims, "aud"@), seq![client_id])
}

/// Validates a bearer token against the published keys, the issuer and the client id,
/// and returns the identity it carries.
pub fn validate_token(keys: &KeySet, issuer: &str, client_id: &str, token: &str) -> (r: Result<AuthUser, DomainError>)
    ensures
        match spec_token_key(keys.keys@, token@) {
            Err(e) => r matches Err(f) && f@ == e,
            Ok(k) => match r {
                Ok(u) => !(k.material is Other) && match jwt_claims(token@) {
                    Some(c) => spec_claims_user(c) == Some(u@) && token_accepted(c, issuer@, client_id@),
                    None => false,
                },
                Err(f) => f@ == ErrorView::Unauthorized,
            },
        },
{
    let (kid, alg) = match read_header(token) {
        Ok(h) => h,
        Err(m) => return Err(DomainError::InvalidInput(m)),
    };
    let kid = match kid {
        Some(k) => k,
        None => return Err(DomainError::Unauthorized),
    };
    let jwk = match keys.find(kid.as_str()) {
        Some(k) => k,
        None => return Err(DomainError::Unauthorized),
    };
    let key = match &jwk.material {
        KeyMaterial::Rsa { n, e } => rsa_key(n.as_str(), e.as_str()),
        KeyMaterial::Ec { x, y } => ec_key(x.as_str(), y.as_str()),
        KeyMaterial::Other => return Err(DomainError::Unauthorized),
    };
    let key = match key {
        Some(k) => k,
        None => return Err(DomainError::Unauthorized),
    };
    let validation = token_validation(alg, issuer, client_id);
    let claims = match decode_claims(token, &key, &validation) {
        Some(c) => c,
        None => return Err(DomainError::Unauthorized),
    };
    match claims_user(&claims) {
        Some(u) => Ok(u),
        None => Err(DomainError::Unauthorized),
    }
}

} // verus!
