use vstd::prelude::*;
use crate::error::AppError;
use crate::models::{CreateUser, User};
use crate::session::AuthError;

verus! {

/// How long an issued token stays valid, in seconds.
pub const TOKEN_TTL_SECONDS: i64 = 86400;

/// The claims carried by an issued token. The subject is the 128-bit value
/// of the user's UUID; `exp` and `iat` are unix seconds.
#[derive(Debug, Clone)]
pub struct Claims {
    pub sub: u128,
    pub email: String,
    pub exp: i64,
    pub iat: i64,
    pub iss: String,
}

impl Claims {
    /// Claims for `user_id`, issued at `now` (unix seconds, supplied by the
    /// caller's clock) and expiring one day later.
    pub fn new(user_id: u128, email: String, now: i64) -> (c: Claims)
        requires
            now <= i64::MAX - TOKEN_TTL_SECONDS,
        ensures
            c.sub == user_id,
            c.email == email,
            c.iat == now,
            c.exp == now + TOKEN_TTL_SECONDS,
            c.iss@ == "realtime-backend"@,
    {
        Claims {
            sub: user_id,
            email,
            exp: now + TOKEN_TTL_SECONDS,
            iat: now,
            iss: "realtime-backend".to_owned(),
        }
    }
}

/// The signed compact token that `jsonwebtoken::encode` produces for the
/// given secret and claim fields: a deterministic function of them alone.
pub uninterp spec fn token_of(
    secret: Seq<u8>,
    sub: u128,
    email: Seq<char>,
    exp: int,
    iat: int,
    iss: Seq<char>,
) -> Seq<char>;

/// Relies on `jsonwebtoken::encode` with the HS256 `Header::default()` and
/// an `EncodingKey::from_secret`: signing never reads anything but the
/// secret and the serialized claims, so the token is the deterministic
/// function `token_of` of them.
#[verifier::external_body]
pub fn create_token(secret: &[u8], claims: &Claims) -> (r: Result<String, ()>)
    ensures
        r matches Ok(t) ==> t@ == token_of(
            secret@,
            claims.sub,
            claims.email@,
            claims.exp as int,
            claims.iat as int,
            claims.iss@,
        ),
{
    let mut map = serde_json::Map::new();
    let sub = uuid::Uuid::from_u128(claims.sub).to_string();
    map.insert("sub".to_owned(), serde_json::Value::String(sub));
    map.insert("email".to_owned(), serde_json::Value::String(claims.email.clone()));
    map.insert("exp".to_owned(), serde_json::Value::from(claims.exp));
    map.insert("iat".to_owned(), serde_json::Value::from(claims.iat));
    map.insert("iss".to_owned(), serde_json::Value::String(claims.iss.clone()));
    let key = jsonwebtoken::EncodingKey::from_secret(secret);
    jsonwebtoken::encode(&jsonwebtoken::Header::default(), &serde_json::Value::Object(map), &key)
        .map_err(|_| ())
}

/// Relies on `jsonwebtoken::decode` with `Validation::default()` (HS256;
/// `exp` required and checked against the wall clock with leeway). Success
/// therefore depends on the clock as well as the arguments, so nothing is
/// promised of the outcome; whoever takes the verdict is verified for every
/// value of it.
#[verifier::external_body]
pub fn verify_token(secret: &[u8], token: &str) -> (r: Result<Claims, ()>)
{
    let key = jsonwebtoken::DecodingKey::from_secret(secret);
    let validation = jsonwebtoken::Validation::default();
    let c = jsonwebtoken::decode::<serde_json::Value>(token, &key, &validation).map_err(
        |_| (),
    )?.claims;
    Ok(Claims {
        sub: uuid::Uuid::parse_str(c["sub"].as_str().ok_or(())?).map_err(|_| ())?.as_u128(),
        email: c["email"].as_str().ok_or(())?.to_owned(),
        exp: c["exp"].as_i64().ok_or(())?,
        iat: c["iat"].as_i64().ok_or(())?,
        iss: c["iss"].as_str().ok_or(())?.to_owned(),
    })
}

/// The identity verifier at the session boundary: verifies the credential
/// and reduces the outcome to the session's verdict. Every failure, of
/// whatever cause, surfaces as the one generic rejection; the
/// credential-specific reason goes no further.
pub fn verify_credential(secret: &[u8], token: &str) -> (r: Result<u128, AuthError>)
    ensures
        r matches Err(e) ==> e == AuthError::Rejected,
{
    match verify_token(secret, token) {
        Ok(c) => Ok(c.sub),
        Err(_) => Err(AuthError::Rejected),
    }
}

/// Role-based access control.
#[derive(Debug, Clone, PartialEq, Eq, Structural)]
pub enum Role {
    User,
    Admin,
    Moderator,
}

/// Which role a lower-case name denotes.
pub open spec fn spec_role_of(t: Seq<char>) -> Option<Role> {
    if t == "user"@ {
        Some(Role::User)
    } else if t == "admin"@ {
        Some(Role::Admin)
    } else if t == "moderator"@ {
        Some(Role::Moderator)
    } else {
        None
    }
}

/// What `str::to_lowercase` returns for the given characters: a function of
/// them alone.
pub uninterp spec fn lower_of(s: Seq<char>) -> Seq<char>;

/// Relies on `str::to_lowercase`: the result depends on the characters of
/// the input alone, named `lower_of`.
#[verifier::external_body]
fn lowercase(s: &str) -> (r: String)
    ensures
        r@ == lower_of(s@),
{
    s.to_lowercase()
}

impl Role {
    /// The role denoted by an already lower-case name, exactly.
    pub fn from_lowered(t: &String) -> (r: Option<Role>)
        ensures
            r == spec_role_of(t@),
    {
        if *t == "user".to_owned() {
            Some(Role::User)
        } else if *t == "admin".to_owned() {
            Some(Role::Admin)
        } else if *t == "moderator".to_owned() {
            Some(Role::Moderator)
        } else {
            None
        }
    }

    /// The role denoted by a name in any letter case.
    pub fn from_str(s: &str) -> (r: Option<Role>)
        ensures
            r == spec_role_of(lower_of(s@)),
    {
        let lowered = lowercase(s);
        Role::from_lowered(&lowered)
    }
}

/// An authenticated request principal.
#[derive(Debug)]
pub struct AuthUser {
    pub user_id: u128,
    pub email: String,
    pub claims: Claims,
}

/// What the external identity provider reports about a verified account:
/// the identity, and the profile fields this service reads from its
/// metadata.
#[derive(Debug)]
pub struct SupabaseUser {
    pub id: u128,
    pub email: String,
    pub email_verified: bool,
    pub username: Option<String>,
    pub full_name: Option<String>,
    pub avatar_url: Option<String>,
}

/// How a bearer whose credential the external provider accepted resolves
/// against the account store: the stored account is used as it is, or one
/// is to be created first.
#[derive(Debug)]
pub enum ExternalResolution {
    UseExisting(User),
    CreateFrom(CreateUser),
}

/// The decision after this service's own token verified: the account must
/// still exist. An existing account yields the principal carried by the
/// claims; a missing account is an authentication failure; a store failure
/// is internal, and neither tells the client more.
pub fn resolve_local_user(claims: Claims, lookup: Result<Option<User>, ()>) -> (r: Result<
    AuthUser,
    AppError,
>)
    ensures
        lookup matches Ok(found) && found is Some ==> (r matches Ok(a) && a.user_id == claims.sub
            && a.email == claims.email && a.claims == claims),
        lookup matches Ok(found) && found is None ==> (r matches Err(e) && (
        e matches AppError::Unauthorized(m) && m@ == "User not found"@)),
        lookup is Err ==> (r matches Err(e) && (e matches AppError::InternalServer(m) && m@
            == "Database error"@)),
{
    match lookup {
        Ok(Some(_)) => {
            let email = claims.email.clone();
            Ok(AuthUser { user_id: claims.sub, email, claims })
        },
        Ok(None) => Err(AppError::Unauthorized("User not found".to_owned())),
        Err(_) => Err(AppError::InternalServer("Database error".to_owned())),
    }
}

/// The account-creation request built from the external provider's
/// profile: identity and email are taken over, profile fields move across
/// one for one, and the bio starts empty.
pub fn create_user_request(su: &SupabaseUser) -> (r: CreateUser)
    ensures
        r.id == su.id,
        r.email == su.email,
        r.username == su.username,
        r.full_name == su.full_name,
        r.avatar_url == su.avatar_url,
        r.bio is None,
{
    CreateUser {
        id: su.id,
        email: su.email.clone(),
        username: match &su.username {
            Some(s) => Some(s.clone()),
            None => None,
        },
        full_name: match &su.full_name {
            Some(s) => Some(s.clone()),
            None => None,
        },
        avatar_url: match &su.avatar_url {
            Some(s) => Some(s.clone()),
            None => None,
        },
        bio: None,
    }
}

/// The decision after the external provider accepted the credential: a
/// stored account is used unchanged, a missing one is to be created from
/// the provider's profile, and a store failure is internal.
pub fn resolve_external_user(su: SupabaseUser, lookup: Result<Option<User>, ()>) -> (r: Result<
    ExternalResolution,
    AppError,
>)
    ensures
        lookup matches Ok(found) ==> (found matches Some(u) ==> r == Result::<
            ExternalResolution,
            AppError,
        >::Ok(ExternalResolution::UseExisting(u))),
        lookup matches Ok(found) && found is None ==> (r matches Ok(res) && (
        res matches ExternalResolution::CreateFrom(c) && (c.id == su.id && c.email == su.email
            && c.username == su.username && c.full_name == su.full_name && c.avatar_url
            == su.avatar_url && c.bio is None))),
        lookup is Err ==> (r matches Err(e) && (e matches AppError::InternalServer(m) && m@
            == "Database error"@)),
{
    match lookup {
        Ok(Some(user)) => Ok(ExternalResolution::UseExisting(user)),
        Ok(None) => Ok(ExternalResolution::CreateFrom(create_user_request(&su))),
        Err(_) => Err(AppError::InternalServer("Database error".to_owned())),
    }
}

/// The principal for an account that came through the external provider:
/// fresh claims are issued for it at `now` (unix seconds).
pub fn finish_external_auth(user: User, now: i64) -> (r: AuthUser)
    requires
        now <= i64::MAX - TOKEN_TTL_SECONDS,
    ensures
        r.user_id == user.id,
        r.email == user.email,
        r.claims.sub == user.id,
        r.claims.email == user.email,
        r.claims.iat == now,
        r.claims.exp == now + TOKEN_TTL_SECONDS,
{
    let email = user.email.clone();
    let claims = Claims::new(user.id, user.email, now);
    AuthUser { user_id: user.id, email, claims }
}

/// A principal together with its resolved role.
#[derive(Debug)]
pub struct AuthUserWithRole {
    pub user: AuthUser,
    pub role: Role,
}

/// Grants access exactly when the holder's role is the required one, or
/// Admin (who may do anything); anyone else is turned away with a
/// permission error.
pub fn require_role(required_role: Role, auth: AuthUserWithRole) -> (r: Result<
    AuthUserWithRole,
    AppError,
>)
    ensures
        (auth.role == required_role || auth.role == Role::Admin) ==> (r matches Ok(a) && a
            == auth),
        !(auth.role == required_role || auth.role == Role::Admin) ==> (r matches Err(e) && (
        e matches AppError::Forbidden(m) && m@ == "Insufficient permissions"@)),
{
    if auth.role == required_role || matches!(auth.role, Role::Admin) {
        Ok(auth)
    } else {
        Err(AppError::Forbidden("Insufficient permissions".to_owned()))
    }
}

} // verus!
