//! The signed assertion that a service account trades for an access token.
//!
//! This module says what goes into the assertion and into the request that
//! carries it. Signing and sending are left to the caller.

use vstd::prelude::*;
use vstd::string::*;
use vstd::utf8::*;

verus! {

/// What the access token is asked to allow: writing the events of calendars.
pub const SCOPE: &'static str = "https://www.googleapis.com/auth/calendar.events";

/// Where the assertion is traded for an access token, which is also whom the
/// assertion is made out to.
pub const TOKEN_URL: &'static str = "https://www.googleapis.com/oauth2/v3/token";

/// What the request for an access token names as the kind of its grant.
pub const GRANT_TYPE: &'static str = "urn:ietf:params:oauth:grant-type:jwt-bearer";

/// What the header of the assertion names as its type.
pub const TOKEN_TYPE: &'static str = "JWT";

/// For how many seconds an assertion holds: ten minutes.
pub const LIFETIME: i64 = 600;

/// The identity of a service account.
#[derive(Debug)]
pub struct Credential {
    /// The address that names the account.
    pub email: String,
    /// The private key of the account, in PEM.
    pub private_key_pem: String,
    /// What names the key.
    pub private_key_id: String,
}

/// How an assertion is signed.
#[derive(Clone, Copy, Debug, PartialEq, Eq, Structural)]
pub enum Algorithm {
    /// An RSA signature over a SHA-256 digest.
    RS256,
}

/// The header of an assertion.
#[derive(Debug)]
pub struct Header {
    /// The type of the token.
    pub typ: String,
    /// How the assertion is signed.
    pub alg: Algorithm,
    /// What names the key that signs.
    pub kid: String,
}

/// The claims of an assertion.
#[derive(Debug)]
pub struct Claims {
    /// Who issues the assertion.
    pub iss: String,
    /// What the access token is asked to allow.
    pub scope: String,
    /// Whom the assertion is made out to.
    pub aud: String,
    /// The second after which the assertion no longer holds.
    pub exp: i64,
    /// The second at which the assertion was issued.
    pub iat: i64,
}

/// What a claim says: a text or a number.
#[derive(Debug)]
pub enum ClaimValue {
    Text(String),
    Number(i64),
}

/// One claim as it is written into the assertion.
#[derive(Debug)]
pub struct Claim {
    /// The name under which the claim is written.
    pub name: String,
    /// What the claim says.
    pub value: ClaimValue,
}

/// Why no access token could be had.
#[derive(Clone, Copy, Debug, PartialEq, Eq, Structural)]
pub enum AuthError {
    /// The assertion could not be signed.
    Signing,
    /// The assertion could not be traded for an access token.
    Exchange,
    /// The answer to the request held no access token.
    Response,
}

/// The form that asks for an access token.
#[derive(Debug)]
pub struct Body {
    /// The signed assertion.
    pub assertion: String,
    /// The kind of the grant.
    pub grant_type: String,
}

/// A header as contracts see it.
pub struct HeaderView {
    pub typ: Seq<char>,
    pub alg: Algorithm,
    pub kid: Seq<char>,
}

/// Claims as contracts see them.
pub struct ClaimsView {
    pub iss: Seq<char>,
    pub scope: Seq<char>,
    pub aud: Seq<char>,
    pub exp: int,
    pub iat: int,
}

/// What a claim says, as contracts see it.
pub enum ClaimValueView {
    Text(Seq<char>),
    Number(int),
}

/// A claim as contracts see it.
pub struct ClaimView {
    pub name: Seq<char>,
    pub value: ClaimValueView,
}

/// A form as contracts see it.
pub struct BodyView {
    pub assertion: Seq<char>,
    pub grant_type: Seq<char>,
}

impl View for Header {
    type V = HeaderView;

    open spec fn view(&self) -> HeaderView {
        HeaderView { typ: self.typ@, alg: self.alg, kid: self.kid@ }
    }
}

impl View for Claims {
    type V = ClaimsView;

    open spec fn view(&self) -> ClaimsView {
        ClaimsView {
            iss: self.iss@,
            scope: self.scope@,
            aud: self.aud@,
            exp: self.exp as int,
            iat: self.iat as int,
        }
    }
}

impl View for Claim {
    type V = ClaimView;

    open spec fn view(&self) -> ClaimView {
        ClaimView {
            name: self.name@,
            value: match self.value {
                ClaimValue::Text(text) => ClaimValueView::Text(text@),
                ClaimValue::Number(number) => ClaimValueView::Number(number as int),
            },
        }
    }
}

impl DeepView for Claim {
    type V = ClaimView;

    open spec fn deep_view(&self) -> ClaimView {
        self@
    }
}

impl View for Body {
    type V = BodyView;

    open spec fn view(&self) -> BodyView {
        BodyView { assertion: self.assertion@, grant_type: self.grant_type@ }
    }
}

/// The header of an assertion signed with the key that `key_id` names.
pub open spec fn header_for(key_id: Seq<char>) -> HeaderView {
    HeaderView { typ: TOKEN_TYPE@, alg: Algorithm::RS256, kid: key_id }
}

/// The claims of an assertion that the account `email` issues at the second
/// `now`: it asks for the right to write events, is made out to the place
/// that trades it, and holds for ten minutes.
pub open spec fn claims_for(email: Seq<char>, now: int) -> ClaimsView {
    ClaimsView { iss: email, scope: SCOPE@, aud: TOKEN_URL@, exp: now + LIFETIME, iat: now }
}

impl ClaimsView {
    /// The claims under the names that the assertion gives them.
    pub open spec fn entries(&self) -> Seq<ClaimView> {
        seq![
            ClaimView { name: "iss"@, value: ClaimValueView::Text(self.iss) },
            ClaimView { name: "scope"@, value: ClaimValueView::Text(self.scope) },
            ClaimView { name: "aud"@, value: ClaimValueView::Text(self.aud) },
            ClaimView { name: "exp"@, value: ClaimValueView::Number(self.exp) },
            ClaimView { name: "iat"@, value: ClaimValueView::Number(self.iat) },
        ]
    }
}

/// The form that trades the signed assertion for an access token.
pub open spec fn body_for(assertion: Seq<char>) -> BodyView {
    BodyView { assertion, grant_type: GRANT_TYPE@ }
}

impl Header {
    /// The header of an assertion of the account.
    pub fn new(credential: &Credential) -> (header: Header)
        ensures
            header@ == header_for(credential.private_key_id@),
    {
        Header {
            typ: String::from_str(TOKEN_TYPE),
            alg: Algorithm::RS256,
            kid: credential.private_key_id.clone(),
        }
    }
}

impl Claims {
    /// The claims of an assertion that the account issues at the second
    /// `now`, counted from the start of 1970.
    pub fn new(credential: &Credential, now: i64) -> (claims: Claims)
        requires
            now + LIFETIME <= i64::MAX,
        ensures
            claims@ == claims_for(credential.email@, now as int),
    {
        Claims {
            iss: credential.email.clone(),
            scope: String::from_str(SCOPE),
            aud: String::from_str(TOKEN_URL),
            exp: now + LIFETIME,
            iat: now,
        }
    }

    /// The claims under the names that the assertion gives them.
    pub fn entries(&self) -> (entries: Vec<Claim>)
        ensures
            entries.deep_view() == self@.entries(),
    {
        let mut entries: Vec<Claim> = Vec::new();
        entries.push(
            Claim { name: String::from_str("iss"), value: ClaimValue::Text(self.iss.clone()) },
        );
        entries.push(
            Claim { name: String::from_str("scope"), value: ClaimValue::Text(self.scope.clone()) },
        );
        entries.push(
            Claim { name: String::from_str("aud"), value: ClaimValue::Text(self.aud.clone()) },
        );
        entries.push(Claim { name: String::from_str("exp"), value: ClaimValue::Number(self.exp) });
        entries.push(Claim { name: String::from_str("iat"), value: ClaimValue::Number(self.iat) });
        assert(entries.deep_view() =~= self@.entries()) by {
            assert forall|i: int| 0 <= i < 5 implies entries.deep_view()[i]
                == self@.entries()[i] by {
                assert(entries.deep_view()[i] == entries[i]@);
            }
        }
        entries
    }
}

/// An error of jsonwebtoken, of which nothing is read.
#[verifier::external_type_specification]
#[verifier::external_body]
pub struct ExSigningError(jsonwebtoken::errors::Error);

/// What `jsonwebtoken::encode` makes of a header, of claims and of the key
/// that `EncodingKey::from_rsa_pem` reads from `key_pem`: the signed
/// assertion, or nothing where the key cannot be read or used.
pub uninterp spec fn encoded(
    header: HeaderView,
    claims: Seq<ClaimView>,
    key_pem: Seq<u8>,
) -> Option<Seq<char>>;

/// The assertion in the outcome of signing, if there is one.
pub open spec fn signed_text(signed: Result<String, jsonwebtoken::errors::Error>) -> Option<
    Seq<char>,
> {
    match signed {
        Ok(assertion) => Some(assertion@),
        Err(_) => None,
    }
}

/// Calls `jsonwebtoken::encode` with a key that `EncodingKey::from_rsa_pem`
/// read: it writes the header and the claims, in their order, as JSON and
/// signs them. The same header, claims and key give the same assertion.
#[verifier::external_body]
fn encode(header: &Header, claims: &Vec<Claim>, key_pem: &[u8]) -> (signed: Result<
    String,
    jsonwebtoken::errors::Error,
>)
    ensures
        signed_text(signed) == encoded(header@, claims.deep_view(), key_pem@),
{
    let algorithm = match header.alg {
        Algorithm::RS256 => jsonwebtoken::Algorithm::RS256,
    };
    let mut head = jsonwebtoken::Header::new(algorithm);
    head.typ = Some(header.typ.clone());
    head.kid = Some(header.kid.clone());
    let json = |claim: &Claim| match &claim.value {
        ClaimValue::Text(text) => (claim.name.clone(), serde_json::Value::from(text.as_str())),
        ClaimValue::Number(number) => (claim.name.clone(), serde_json::Value::from(*number)),
    };
    let object: serde_json::Map<String, serde_json::Value> = claims.iter().map(json).collect();
    jsonwebtoken::encode(&head, &object, &jsonwebtoken::EncodingKey::from_rsa_pem(key_pem)?)
}

/// What is made of the outcome of signing: the assertion, or the error that
/// says that signing failed.
pub open spec fn signing_outcome(signed: Result<String, jsonwebtoken::errors::Error>) -> Result<
    Seq<char>,
    AuthError,
> {
    match signed {
        Ok(assertion) => Ok(assertion@),
        Err(_) => Err(AuthError::Signing),
    }
}

/// The text in a result, as contracts see it.
pub open spec fn text_result(made: Result<String, AuthError>) -> Result<Seq<char>, AuthError> {
    match made {
        Ok(text) => Ok(text@),
        Err(error) => Err(error),
    }
}

/// The form in a result, as contracts see it.
pub open spec fn body_result(made: Result<Body, AuthError>) -> Result<BodyView, AuthError> {
    match made {
        Ok(body) => Ok(body@),
        Err(error) => Err(error),
    }
}

/// Takes the outcome of signing: hands the assertion on, and reports that
/// signing failed where it did.
pub fn signed_assertion(signed: Result<String, jsonwebtoken::errors::Error>) -> (made: Result<
    String,
    AuthError,
>)
    ensures
        text_result(made) == signing_outcome(signed),
{
    match signed {
        Ok(assertion) => Ok(assertion),
        Err(_) => Err(AuthError::Signing),
    }
}

/// The form that asks for an access token with an assertion, where there is
/// one.
pub fn token_request(assertion: Result<String, AuthError>) -> (made: Result<Body, AuthError>)
    ensures
        body_result(made) == (match assertion {
            Ok(text) => Ok(body_for(text@)),
            Err(error) => Err(error),
        }),
{
    match assertion {
        Ok(text) => Ok(Body::new(text)),
        Err(error) => Err(error),
    }
}

/// The assertion of an account for the second `now`, signed with the key of
/// the account; the error that says that signing failed where the key cannot
/// be read or used.
pub open spec fn assertion_for(
    email: Seq<char>,
    key_id: Seq<char>,
    key_pem: Seq<char>,
    now: int,
) -> Result<Seq<char>, AuthError> {
    match encoded(header_for(key_id), claims_for(email, now).entries(), encode_utf8(key_pem)) {
        Some(assertion) => Ok(assertion),
        None => Err(AuthError::Signing),
    }
}

/// Makes the assertion of the account for the second `now` and signs it with
/// the account's key. Signing is the only thing that can fail.
pub fn assertion(credential: &Credential, now: i64) -> (made: Result<String, AuthError>)
    requires
        now + LIFETIME <= i64::MAX,
    ensures
        text_result(made) == assertion_for(
            credential.email@,
            credential.private_key_id@,
            credential.private_key_pem@,
            now as int,
        ),
{
    let header = Header::new(credential);
    let claims = Claims::new(credential, now);
    let entries = claims.entries();
    signed_assertion(encode(&header, &entries, credential.private_key_pem.as_str().as_bytes()))
}

impl Body {
    /// The form that trades a signed assertion for an access token.
    pub fn new(assertion: String) -> (body: Body)
        ensures
            body@ == body_for(assertion@),
    {
        Body { assertion, grant_type: String::from_str(GRANT_TYPE) }
    }
}

} // verus!
