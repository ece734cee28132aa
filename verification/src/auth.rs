//! Accounts: signing up stores an Argon2 hash of the password; signing in
//! checks the password against it and hands out the user's id as token.
use vstd::prelude::*;
use vstd::utf8::*;
use crate::ids::{
    bucket_advanced, bucket_can_draw, bucket_clock, bucket_next, bucket_machine, bucket_node, fresh_draw,
    next_id,
};
use crate::text::{i64_to_text, signed_decimal, spec_parse_u64};

verus! {

/// The body of a sign-up request.
pub struct CreateUserPayload {
    pub username: String,
    pub display_name: String,
    pub email: String,
    pub password: String,
}

/// The body of a sign-in request.
pub struct LoginPayload {
    pub username: String,
    pub password: String,
}

/// The PHC string that default Argon2 makes of `password` with the salt
/// whose B64 text is `salt`; `None` when hashing fails.
pub uninterp spec fn argon2_phc_hash(password: Seq<u8>, salt: Seq<char>) -> Option<Seq<char>>;

/// Whether `hash` is a PHC string that `PasswordHash::new` reads.
pub uninterp spec fn phc_well_formed(hash: Seq<char>) -> bool;

/// Whether `Argon2::default().verify_password` accepts `password` for the
/// PHC string `hash`.
pub uninterp spec fn argon2_accepts(password: Seq<u8>, hash: Seq<char>) -> bool;

/// Calls `Argon2::default().hash_password(password, &salt)` with the salt
/// read by `SaltString::from_b64`, and renders the hash as its PHC string.
/// The hash is named by `argon2_phc_hash`; as the crate's documentation
/// shows, the string it renders reads back with `PasswordHash::new` and is
/// accepted by `verify_password` for the same password.
#[verifier::external_body]
fn argon2_hash(password: &[u8], salt: &str) -> (res: Option<String>)
    ensures
        res is None <==> argon2_phc_hash(password@, salt@) is None,
        res matches Some(h) ==> argon2_phc_hash(password@, salt@) == Some(h@),
        res matches Some(h) ==> phc_well_formed(h@) && argon2_accepts(password@, h@),
{
    let salt = match argon2::password_hash::SaltString::from_b64(salt) {
        Ok(s) => s,
        Err(_) => return None,
    };
    match argon2::PasswordHasher::hash_password(&argon2::Argon2::default(), password, &salt) {
        Ok(h) => Some(h.to_string()),
        Err(_) => None,
    }
}

/// Reads the stored PHC string with `PasswordHash::new` (`None` when it is
/// not one) and asks `Argon2::default().verify_password` whether
/// `password` matches it.
#[verifier::external_body]
fn argon2_check(password: &[u8], hash: &str) -> (res: Option<bool>)
    ensures
        res is None <==> !phc_well_formed(hash@),
        res matches Some(ok) ==> ok == argon2_accepts(password@, hash@),
{
    match argon2::PasswordHash::new(hash) {
        Ok(parsed) => Some(
            argon2::PasswordVerifier::verify_password(
                &argon2::Argon2::default(),
                password,
                &parsed,
            ).is_ok(),
        ),
        Err(_) => None,
    }
}

/// A user ready to be stored.
pub struct NewUser {
    pub user_id: i64,
    pub username: String,
    pub display_name: String,
    pub email: String,
    pub pass_hash: String,
}

/// Why a sign-up was refused before it reached the database.
#[derive(Clone, Copy, Debug, PartialEq, Eq, Structural)]
pub enum SignupError {
    /// The password could not be hashed.
    HashingFailed,
}

/// Whether the stored hash lets `password` sign in.
pub open spec fn signs_in(hash: Seq<char>, password: Seq<char>) -> bool {
    phc_well_formed(hash) && argon2_accepts(encode_utf8(password), hash)
}

/// The user to store for a sign-up, given its id and a salt: the fields as
/// sent and the Argon2 hash of the password.
pub fn signup_with_id(payload: &CreateUserPayload, salt: &str, user_id: i64) -> (res: Result<
    NewUser,
    SignupError,
>)
    ensures
        res is Err <==> argon2_phc_hash(encode_utf8(payload.password@), salt@) is None,
        res matches Ok(u) ==> {
            &&& u.user_id == user_id
            &&& u.username@ == payload.username@
            &&& u.display_name@ == payload.display_name@
            &&& u.email@ == payload.email@
            &&& argon2_phc_hash(encode_utf8(payload.password@), salt@) == Some(u.pass_hash@)
            &&& signs_in(u.pass_hash@, payload.password@)
        },
{
    match argon2_hash(payload.password.as_str().as_bytes(), salt) {
        Some(h) => Ok(
            NewUser {
                user_id,
                username: payload.username.clone(),
                display_name: payload.display_name.clone(),
                email: payload.email.clone(),
                pass_hash: h,
            },
        ),
        None => Err(SignupError::HashingFailed),
    }
}

/// The user to store for a sign-up: draws the bucket's next id for the new
/// user first (also when hashing then fails), then hashes the password with
/// the salt.
pub fn signup(payload: &CreateUserPayload, salt: &str, ids: &mut snowflake::SnowflakeIdBucket) -> (res:
    Result<NewUser, SignupError>)
    ensures
        *final(ids) == bucket_advanced(*old(ids)),
        bucket_machine(*final(ids)) == bucket_machine(*old(ids)),
        bucket_node(*final(ids)) == bucket_node(*old(ids)),
        bucket_clock(*old(ids)) <= bucket_clock(*final(ids)) <= bucket_clock(*old(ids)) + 1,
        bucket_can_draw(*old(ids), 1) ==> fresh_draw(*old(ids), *final(ids), bucket_next(*old(ids))),
        res is Err <==> argon2_phc_hash(encode_utf8(payload.password@), salt@) is None,
        res matches Ok(u) ==> {
            &&& u.user_id == bucket_next(*old(ids))
            &&& u.username@ == payload.username@
            &&& u.display_name@ == payload.display_name@
            &&& u.email@ == payload.email@
            &&& argon2_phc_hash(encode_utf8(payload.password@), salt@) == Some(u.pass_hash@)
            &&& signs_in(u.pass_hash@, payload.password@)
        },
{
    let user_id = next_id(ids);
    signup_with_id(payload, salt, user_id)
}

/// What the database said about the user signing in.
pub enum LoginLookup {
    Found { user_id: i64, pass_hash: String },
    Missing,
    Failed,
}

/// The answer to a sign-in.
pub enum LoginReply {
    /// 200 with the user's token: the user id in decimal.
    Token(String),
    /// 401: unknown user or wrong password, alike.
    InvalidCredentials,
    /// 500: the database failed.
    DatabaseError,
    /// 500: the stored hash is no PHC string.
    InvalidHashFormat,
}

/// The answer to a sign-in, abstractly.
pub enum LoginOutcome {
    Token(Seq<char>),
    InvalidCredentials,
    DatabaseError,
    InvalidHashFormat,
}

impl View for LoginReply {
    type V = LoginOutcome;

    open spec fn view(&self) -> LoginOutcome {
        match self {
            LoginReply::Token(t) => LoginOutcome::Token(t@),
            LoginReply::InvalidCredentials => LoginOutcome::InvalidCredentials,
            LoginReply::DatabaseError => LoginOutcome::DatabaseError,
            LoginReply::InvalidHashFormat => LoginOutcome::InvalidHashFormat,
        }
    }
}

/// The answer for a known user once the stored hash was checked: `None`
/// when it is no PHC string, otherwise whether the password matched.
pub open spec fn verdict(user_id: i64, check: Option<bool>) -> LoginOutcome {
    match check {
        None => LoginOutcome::InvalidHashFormat,
        Some(false) => LoginOutcome::InvalidCredentials,
        Some(true) => LoginOutcome::Token(signed_decimal(user_id as int)),
    }
}

/// The answer to a sign-in with `password`, given what the database said.
pub open spec fn login_outcome(lookup: LoginLookup, password: Seq<char>) -> LoginOutcome {
    match lookup {
        LoginLookup::Failed => LoginOutcome::DatabaseError,
        LoginLookup::Missing => LoginOutcome::InvalidCredentials,
        LoginLookup::Found { user_id, pass_hash } => if !phc_well_formed(pass_hash@) {
            LoginOutcome::InvalidHashFormat
        } else {
            verdict(user_id, Some(argon2_accepts(encode_utf8(password), pass_hash@)))
        },
    }
}

/// The answer for a known user, given the outcome of the hash check.
pub fn login_verdict(user_id: i64, check: Option<bool>) -> (res: LoginReply)
    ensures
        res@ == verdict(user_id, check),
{
    match check {
        None => LoginReply::InvalidHashFormat,
        Some(false) => LoginReply::InvalidCredentials,
        Some(true) => LoginReply::Token(i64_to_text(user_id)),
    }
}

/// Answers a sign-in with `password`, given what the database said.
pub fn login_reply(lookup: &LoginLookup, password: &str) -> (res: LoginReply)
    ensures
        res@ == login_outcome(*lookup, password@),
{
    match lookup {
        LoginLookup::Failed => LoginReply::DatabaseError,
        LoginLookup::Missing => LoginReply::InvalidCredentials,
        LoginLookup::Found { user_id, pass_hash } => {
            let check = argon2_check(password.as_bytes(), pass_hash.as_str());
            login_verdict(*user_id, check)
        },
    }
}

/// A user that signed up with a password signs in with that password and
/// gets a token; for a user id that is not negative, the token read as the
/// websocket reads it (as a `u64`) names that user.
pub proof fn lemma_signup_then_login(user_id: i64, pass_hash: String, password: Seq<char>)
    requires
        signs_in(pass_hash@, password),
        user_id >= 0,
    ensures
        login_outcome(LoginLookup::Found { user_id, pass_hash }, password) == LoginOutcome::Token(
            signed_decimal(user_id as int),
        ),
        spec_parse_u64(signed_decimal(user_id as int)) == Some(user_id as u64),
{
    crate::text::lemma_u64_text_round_trip(user_id as u64);
}

} // verus!
