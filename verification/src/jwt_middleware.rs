//! The token guard: credentials are minted at login and checked on every
//! request under the protected prefix. Nothing is stored: a credential is
//! valid by its signature, its audience and its expiry alone.

use vstd::prelude::*;
use vstd::string::*;
use crate::clock::unix_now;
use crate::data_service::{has_user, post_login, UserRecord};
use crate::entities::{
    opt_view, AuthError, Claims, ClaimsView, ErrorKind, JwtResponse, JwtResponseView,
    TOKEN_LIFETIME,
};
use crate::text::{chars_of, copy_range, has_prefix, matches_at, string_of};

verus! {

/// The error of the `jsonwebtoken` crate.
#[verifier::external_type_specification]
#[verifier::external_body]
pub struct ExTokenError(jsonwebtoken::errors::Error);

/// The issuer of every credential.
pub open spec fn issuer() -> Seq<char> {
    "kafka-repo-iss"@
}

/// The audience of every credential.
pub open spec fn audience() -> Seq<char> {
    "kafka-repo-service-aud"@
}

/// The prefix of the paths that the guard protects.
pub open spec fn protected_prefix() -> Seq<char> {
    "/api/v1"@
}

/// What stands in front of the token in an `Authorization` header.
pub open spec fn bearer_prefix() -> Seq<char> {
    "Bearer "@
}

/// The claims of a token as they were read, each absent where the token
/// does not carry it as a text or as a count.
#[derive(Debug, Clone, PartialEq)]
pub struct RawClaims {
    pub sub: Option<String>,
    pub exp: Option<u64>,
    pub iat: Option<u64>,
    pub iss: Option<String>,
    pub aud: Option<String>,
}

/// The token that `jsonwebtoken::encode` makes of the five claims under
/// the default header, signed with the secret.
pub uninterp spec fn signed_token(
    sub: Seq<char>,
    exp: nat,
    iat: nat,
    iss: Seq<char>,
    aud: Seq<char>,
    secret: Seq<char>,
) -> Seq<char>;

/// The claims `sub`, `exp`, `iat`, `iss` and `aud` that
/// `jsonwebtoken::decode` reads from a token whose signature it verifies
/// with the secret and whose audience it accepts, without looking at the
/// clock; nothing where it rejects the token.
pub uninterp spec fn verified_claims(token: Seq<char>, secret: Seq<char>, audience: Seq<char>) -> Option<
    (Option<Seq<char>>, Option<u64>, Option<u64>, Option<Seq<char>>, Option<Seq<char>>),
>;

impl RawClaims {
    /// The five claims in the order `sub`, `exp`, `iat`, `iss`, `aud`.
    pub open spec fn fields(self) -> (
        Option<Seq<char>>,
        Option<u64>,
        Option<u64>,
        Option<Seq<char>>,
        Option<Seq<char>>,
    ) {
        (opt_view(self.sub), self.exp, self.iat, opt_view(self.iss), opt_view(self.aud))
    }
}

/// `jsonwebtoken::encode` with the default header (HS256) on a JSON object
/// of the five claims and the secret as the key. The token is a function
/// of the claims and the secret. The call succeeds: a secret is a key of
/// the family that HS256 asks for, the header and an object of texts and
/// counts serialise, and signing with a secret returns the signature.
#[verifier::external_body]
fn encode_token(claims: &Claims, secret: &str) -> (token: Result<String, jsonwebtoken::errors::Error>)
    ensures
        token is Ok,
        token matches Ok(t) ==> t@ == signed_token(
            claims@.sub,
            claims@.exp,
            claims@.iat,
            claims@.iss,
            claims@.aud,
            secret@,
        ),
{
    let mut payload = serde_json::Map::new();
    payload.insert("sub".to_string(), claims.sub().clone().into());
    payload.insert("exp".to_string(), claims.exp().into());
    payload.insert("iat".to_string(), claims.iat().into());
    payload.insert("iss".to_string(), claims.iss().clone().into());
    payload.insert("aud".to_string(), claims.aud().clone().into());
    let key = jsonwebtoken::EncodingKey::from_secret(secret.as_bytes());
    jsonwebtoken::encode(&jsonwebtoken::Header::default(), &payload, &key)
}

/// `jsonwebtoken::decode` under the default validation (HS256) with the
/// given audience set and the check of `exp` against the clock switched
/// off, so that the outcome is a function of the three arguments. On
/// success the five claims are handed out as they stand in the payload.
#[verifier::external_body]
fn decode_token(token: &str, secret: &str, audience: &str) -> (claims: Result<
    RawClaims,
    jsonwebtoken::errors::Error,
>)
    ensures
        claims matches Ok(c) ==> verified_claims(token@, secret@, audience@) == Some(c.fields()),
        claims is Err ==> verified_claims(token@, secret@, audience@) is None,
{
    let mut validation = jsonwebtoken::Validation::default();
    validation.set_audience(&[audience]);
    validation.validate_exp = false;
    let key = jsonwebtoken::DecodingKey::from_secret(secret.as_bytes());
    let c = jsonwebtoken::decode::<serde_json::Value>(token, &key, &validation)?.claims;
    Ok(RawClaims {
        sub: c["sub"].as_str().map(String::from),
        exp: c["exp"].as_u64(),
        iat: c["iat"].as_u64(),
        iss: c["iss"].as_str().map(String::from),
        aud: c["aud"].as_str().map(String::from),
    })
}

/// The claims that a login at the second `now` is given.
pub open spec fn minted(user_name: Seq<char>, now: nat) -> ClaimsView {
    ClaimsView {
        sub: user_name,
        exp: now + TOKEN_LIFETIME as nat,
        iat: now,
        iss: issuer(),
        aud: audience(),
    }
}

/// What a login attempt at the second `now` comes to: the minted claims
/// where the table holds the user with this password, `InvalidCredentials`
/// where it does not. A clock so far on that the expiry is no `usize`
/// mints nothing.
pub open spec fn issue_outcome(
    users: Seq<UserRecord>,
    user_name: Seq<char>,
    password: Seq<char>,
    now: nat,
) -> Result<ClaimsView, ErrorKind> {
    if !has_user(users, user_name, password) {
        Err(ErrorKind::InvalidCredentials)
    } else if now + TOKEN_LIFETIME > usize::MAX {
        Err(ErrorKind::SigningFailed)
    } else {
        Ok(minted(user_name, now))
    }
}

/// The view of claims or of the failure in their place.
pub open spec fn claims_result<E>(r: Result<Claims, E>) -> Result<ClaimsView, E> {
    match r {
        Ok(c) => Ok(c@),
        Err(e) => Err(e),
    }
}

/// Checks a login against the authentication table and mints the claims
/// of the credential: issued at `now`, expiring 3600 seconds later.
pub fn issue(users: &Vec<UserRecord>, user_name: &String, password: &String, now: usize) -> (claims:
    Result<Claims, ErrorKind>)
    ensures
        claims_result(claims) == issue_outcome(users@, user_name@, password@, now as nat),
{
    if !post_login(users, user_name, password) {
        return Err(ErrorKind::InvalidCredentials);
    }
    if now > usize::MAX - TOKEN_LIFETIME {
        return Err(ErrorKind::SigningFailed);
    }
    Ok(
        Claims::issued_at(
            user_name.clone(),
            now + TOKEN_LIFETIME,
            now,
            "kafka-repo-iss".to_owned(),
            "kafka-repo-service-aud".to_owned(),
        ),
    )
}

/// The view of a login answer or of the failure in its place.
pub open spec fn response_result(r: Result<JwtResponse, ErrorKind>) -> Result<
    JwtResponseView,
    ErrorKind,
> {
    match r {
        Ok(c) => Ok(c@),
        Err(e) => Err(e),
    }
}

/// The answer to a login whose token was signed, or `SigningFailed` where
/// signing failed: a bearer token that expires in 3600 seconds.
pub fn token_response<E>(signed: Result<String, E>) -> (response: Result<JwtResponse, ErrorKind>)
    ensures
        response_result(response) == match signed {
            Ok(token) => Ok(
                JwtResponseView {
                    token: token@,
                    token_type: "Bearer"@,
                    expires_in: TOKEN_LIFETIME as nat,
                },
            ),
            Err(_) => Err(ErrorKind::SigningFailed),
        },
{
    match signed {
        Ok(token) => Ok(
            JwtResponse { token, token_type: "Bearer".to_owned(), expires_in: TOKEN_LIFETIME },
        ),
        Err(_) => Err(ErrorKind::SigningFailed),
    }
}

/// The answer that carries the token of the given claims under the
/// secret: a bearer token that expires in 3600 seconds.
pub open spec fn token_answer(claims: ClaimsView, secret: Seq<char>) -> JwtResponseView {
    JwtResponseView {
        token: signed_token(claims.sub, claims.exp, claims.iat, claims.iss, claims.aud, secret),
        token_type: "Bearer"@,
        expires_in: TOKEN_LIFETIME as nat,
    }
}

/// Signs claims with the secret and answers with the token: the one that
/// `signed_token` names. Signing a credential with a secret always
/// succeeds.
pub fn sign(claims: &Claims, secret: &str) -> (response: Result<JwtResponse, ErrorKind>)
    ensures
        response matches Ok(r) && r@ == token_answer(claims@, secret@),
{
    token_response(encode_token(claims, secret))
}

/// The token of an `Authorization` header: what follows `Bearer `. There
/// is none where the header is absent or begins otherwise.
pub open spec fn bearer_token_of(authorization: Option<Seq<char>>) -> Option<Seq<char>> {
    match authorization {
        Some(h) => if has_prefix(h, bearer_prefix()) {
            Some(h.skip(bearer_prefix().len() as int))
        } else {
            None
        },
        None => None,
    }
}

/// The view of an optional string slice.
pub open spec fn opt_str_view(s: Option<&str>) -> Option<Seq<char>> {
    match s {
        Some(t) => Some(t@),
        None => None,
    }
}

/// The token of an `Authorization` header.
pub fn bearer_token(authorization: Option<&str>) -> (token: Option<String>)
    ensures
        opt_view(token) == bearer_token_of(opt_str_view(authorization)),
{
    match authorization {
        None => None,
        Some(h) => {
            let header = chars_of(h);
            let prefix = chars_of("Bearer ");
            if matches_at(&header, &prefix, 0) {
                let end = header.len();
                let rest = copy_range(&header, prefix.len(), end);
                assert(rest@ =~= h@.skip(bearer_prefix().len() as int));
                Some(string_of(&rest))
            } else {
                None
            }
        },
    }
}

/// Whether the guard protects a path.
pub fn is_protected(path: &str) -> (protected: bool)
    ensures
        protected == has_prefix(path@, protected_prefix()),
{
    crate::text::starts_with(path, "/api/v1")
}

/// What the claims read from a verified token come to at the second
/// `now`: they are admitted where all five are there, the counts are
/// `usize`, the audience is the expected one and the expiry has not
/// passed, which is `now <= exp`. Anything else is unauthorized.
pub open spec fn admitted(
    fields: (Option<Seq<char>>, Option<u64>, Option<u64>, Option<Seq<char>>, Option<Seq<char>>),
    expected_audience: Seq<char>,
    now: nat,
) -> Result<ClaimsView, AuthError> {
    match fields {
        (Some(sub), Some(exp), Some(iat), Some(iss), Some(aud)) => if exp <= usize::MAX && iat
            <= usize::MAX && aud == expected_audience && now <= exp {
            Ok(ClaimsView { sub, exp: exp as nat, iat: iat as nat, iss, aud })
        } else {
            Err(AuthError::Unauthorized)
        },
        _ => Err(AuthError::Unauthorized),
    }
}

/// Admits or rejects the claims that were read from a verified token.
pub fn accept(raw: RawClaims, expected_audience: &str, now: usize) -> (claims: Result<
    Claims,
    AuthError,
>)
    ensures
        claims_result(claims) == admitted(raw.fields(), expected_audience@, now as nat),
{
    let RawClaims { sub, exp, iat, iss, aud } = raw;
    match (sub, exp, iat, iss, aud) {
        (Some(sub), Some(exp), Some(iat), Some(iss), Some(aud)) => {
            if exp > usize::MAX as u64 || iat > usize::MAX as u64 {
                return Err(AuthError::Unauthorized);
            }
            if !crate::text::str_eq(aud.as_str(), expected_audience) {
                return Err(AuthError::Unauthorized);
            }
            if now as u64 > exp {
                return Err(AuthError::Unauthorized);
            }
            Ok(Claims::issued_at(sub, exp as usize, iat as usize, iss, aud))
        },
        _ => Err(AuthError::Unauthorized),
    }
}

/// What the guard lets through.
#[derive(Debug, Clone, PartialEq)]
pub enum Access {
    /// The path is not protected: the request passes as it is.
    Open,
    /// The path is protected and the token is good: the request passes
    /// with these claims attached.
    Granted(Claims),
}

pub enum AccessView {
    Open,
    Granted(ClaimsView),
}

impl View for Access {
    type V = AccessView;

    open spec fn view(&self) -> AccessView {
        match self {
            Access::Open => AccessView::Open,
            Access::Granted(c) => AccessView::Granted(c@),
        }
    }
}

/// The view of an access or of the failure in its place.
pub open spec fn access_result(r: Result<Access, AuthError>) -> Result<AccessView, AuthError> {
    match r {
        Ok(a) => Ok(a@),
        Err(e) => Err(e),
    }
}

/// What the guard decides on a request at the second `now`. A path outside
/// the protected prefix passes. Under the prefix the request must carry a
/// bearer token that verifies under the secret and the audience, and
/// whose claims are admitted.
pub open spec fn guard_outcome(
    secret: Seq<char>,
    path: Seq<char>,
    authorization: Option<Seq<char>>,
    now: nat,
) -> Result<AccessView, AuthError> {
    if !has_prefix(path, protected_prefix()) {
        Ok(AccessView::Open)
    } else {
        match bearer_token_of(authorization) {
            None => Err(AuthError::Unauthorized),
            Some(token) => match verified_claims(token, secret, audience()) {
                None => Err(AuthError::Unauthorized),
                Some(fields) => match admitted(fields, audience(), now) {
                    Ok(claims) => Ok(AccessView::Granted(claims)),
                    Err(e) => Err(e),
                },
            },
        }
    }
}

/// The guard's configuration: the secret that credentials are signed with.
#[derive(Debug, Clone, PartialEq)]
pub struct JwtMiddleware {
    secret: String,
}

impl JwtMiddleware {
    pub closed spec fn secret(&self) -> Seq<char> {
        self.secret@
    }

    pub fn new(secret: String) -> (guard: JwtMiddleware)
        ensures
            guard.secret() == secret@,
    {
        JwtMiddleware { secret }
    }

    /// The guard in front of one service.
    pub fn new_transform<S>(&self, service: S) -> (guard: JwtMiddlewareMiddleware<S>)
        ensures
            guard.secret() == self.secret(),
            *guard.inner() == service,
    {
        JwtMiddlewareMiddleware { service, secret: self.secret.clone() }
    }
}

/// The guard in front of a service.
#[derive(Debug, Clone, PartialEq)]
pub struct JwtMiddlewareMiddleware<S> {
    service: S,
    secret: String,
}

impl<S> JwtMiddlewareMiddleware<S> {
    pub closed spec fn secret(&self) -> Seq<char> {
        self.secret@
    }

    pub closed spec fn inner(&self) -> &S {
        &self.service
    }

    /// The service behind the guard.
    pub fn service(&self) -> (service: &S)
        ensures
            service == self.inner(),
    {
        &self.service
    }

    /// Decides on a request at the second `now`.
    pub fn authorize_at(&self, path: &str, authorization: Option<&str>, now: usize) -> (access:
        Result<Access, AuthError>)
        ensures
            access_result(access) == guard_outcome(
                self.secret(),
                path@,
                opt_str_view(authorization),
                now as nat,
            ),
    {
        if !is_protected(path) {
            return Ok(Access::Open);
        }
        let token = match bearer_token(authorization) {
            Some(t) => t,
            None => {
                return Err(AuthError::Unauthorized);
            },
        };
        let raw = match decode_token(
            token.as_str(),
            self.secret.as_str(),
            "kafka-repo-service-aud",
        ) {
            Ok(raw) => raw,
            Err(_) => {
                return Err(AuthError::Unauthorized);
            },
        };
        match accept(raw, "kafka-repo-service-aud", now) {
            Ok(claims) => Ok(Access::Granted(claims)),
            Err(e) => Err(e),
        }
    }

    /// Decides on a request now, by the system clock. The decision is the
    /// one for the second that the clock read, whichever that was; a path
    /// that is not protected passes whatever the clock reads, and a
    /// protected path without a bearer token never passes.
    pub fn authorize(&self, path: &str, authorization: Option<&str>) -> (access: Result<
        Access,
        AuthError,
    >)
        ensures
            exists|now: nat|
                access_result(access) == #[trigger] guard_outcome(
                    self.secret(),
                    path@,
                    opt_str_view(authorization),
                    now,
                ),
            !has_prefix(path@, protected_prefix()) ==> access_result(access) == Ok::<
                AccessView,
                AuthError,
            >(AccessView::Open),
            has_prefix(path@, protected_prefix()) && bearer_token_of(opt_str_view(authorization))
                is None ==> access_result(access) == Err::<AccessView, AuthError>(
                AuthError::Unauthorized,
            ),
    {
        let now = unix_now();
        self.authorize_at(path, authorization, now)
    }
}

/// A credential is accepted up to and at its expiry and rejected after
/// it: of complete claims with the expected audience, those with
/// `now <= exp` are admitted and those with `now > exp` are not. Claims
/// for another audience are never admitted.
pub proof fn lemma_expiry(
    sub: Seq<char>,
    exp: u64,
    iat: u64,
    iss: Seq<char>,
    aud: Seq<char>,
    expected_audience: Seq<char>,
    now: nat,
)
    requires
        exp <= usize::MAX,
        iat <= usize::MAX,
    ensures
        aud == expected_audience && now <= exp ==> admitted(
            (Some(sub), Some(exp), Some(iat), Some(iss), Some(aud)),
            expected_audience,
            now,
        ) == Ok::<ClaimsView, AuthError>(
            ClaimsView { sub, exp: exp as nat, iat: iat as nat, iss, aud },
        ),
        now > exp || aud != expected_audience ==> admitted(
            (Some(sub), Some(exp), Some(iat), Some(iss), Some(aud)),
            expected_audience,
            now,
        ) == Err::<ClaimsView, AuthError>(AuthError::Unauthorized),
{
}

/// A request outside the protected prefix passes the guard whatever its
/// headers, the secret and the time.
pub proof fn lemma_unprotected_path_passes(
    secret: Seq<char>,
    path: Seq<char>,
    authorization: Option<Seq<char>>,
    now: nat,
)
    requires
        !has_prefix(path, protected_prefix()),
    ensures
        guard_outcome(secret, path, authorization, now) == Ok::<AccessView, AuthError>(
            AccessView::Open,
        ),
{
}

} // verus!
