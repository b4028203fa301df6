//! Registration and login.
//!
//! All users would trade with the one account that the exchange knows, so registration is
//! open only until there is a user.

use crate::models::user::User;
use crate::web::auth::{encoded_token, sign, TOKEN_TTL_SECS};
use crate::web::error::AppError;
use vstd::prelude::*;
use vstd::utf8::encode_utf8;

verus! {

/// A wish to register.
#[derive(Debug)]
pub struct RegisterRequest {
    pub username: String,
    pub password: String,
    pub email: String,
}

/// A wish to log in.
#[derive(Debug)]
pub struct LoginRequest {
    pub username: String,
    pub password: String,
}

/// The answer to a login.
#[derive(Debug)]
pub struct LoginResponse {
    pub access_token: String,
    pub username: String,
}

/// The hash that a password is held against where there is no such user, so that the
/// answer takes as long. No password is known for it.
pub const DUMMY_HASH: &'static str = "$2b$12$C6UzMDM.H6dfI/f/IKcEe.7Cn0Vv2S2xVQZBxHnQNvnBiHqTQFqIS";

/// Whether `bcrypt` finds that a password belongs to a hash; nothing of what is no hash.
pub uninterp spec fn bcrypt_verdict(password: Seq<char>, hash: Seq<char>) -> Option<bool>;

/// Calls `bcrypt::hash` with the default cost. The claim: where it succeeds, the password
/// belongs to the hash. The hash itself rests on chance, and so does whether there is one.
#[verifier::external_body]
fn outside_hash(password: &str) -> (r: Result<String, String>)
    ensures
        r matches Ok(hash) ==> bcrypt_verdict(password@, hash@) == Some(true),
{
    bcrypt::hash(password, bcrypt::DEFAULT_COST).map_err(|e| e.to_string())
}

/// Calls `bcrypt::verify`. The claim: the result depends on the password and the hash
/// alone.
#[verifier::external_body]
fn outside_verify(password: &str, hash: &str) -> (r: Result<bool, String>)
    ensures
        match r {
            Ok(verdict) => bcrypt_verdict(password@, hash@) == Some(verdict),
            Err(_) => bcrypt_verdict(password@, hash@) is None,
        },
{
    bcrypt::verify(password, hash).map_err(|e| e.to_string())
}

/// A hash of a password.
pub fn hash_password(password: &str) -> (r: Result<String, String>)
    ensures
        r matches Ok(hash) ==> bcrypt_verdict(password@, hash@) == Some(true),
{
    outside_hash(password)
}

/// Whether a password belongs to a hash.
pub fn verify_password(password: &str, hash: &str) -> (r: Result<bool, String>)
    ensures
        match r {
            Ok(verdict) => bcrypt_verdict(password@, hash@) == Some(verdict),
            Err(_) => bcrypt_verdict(password@, hash@) is None,
        },
{
    outside_verify(password, hash)
}

/// Where a registration stands.
pub enum RegisterStep {
    /// It is to be looked up whether the name is taken.
    FindUser(Register),
    /// The password is to be hashed.
    Hash(Register),
    /// The user is to be stored, if there is still none.
    CreateFirst(FirstUser),
    /// There is a user now, with this id.
    Done(i32),
    /// It failed.
    Failed(AppError),
}

/// A registration whose form is in order.
pub struct Register {
    pub request: RegisterRequest,
}

/// A user who is to be stored.
pub struct FirstUser {
    pub username: String,
    pub password_hash: String,
    pub email: String,
}

/// How many bytes a piece of text has.
pub open spec fn byte_len(text: Seq<char>) -> usize {
    encode_utf8(text).len() as usize
}

/// What is said when registration is closed.
pub open spec fn registration_closed(e: AppError) -> bool {
    e matches AppError::Forbidden(reason) && reason@
        == "注册已关闭：本系统为单运营者设计，账号已初始化"@
}

/// Whether a request is refused with these words.
pub open spec fn bad_request(e: AppError, words: Seq<char>) -> bool {
    e matches AppError::BadRequest(reason) && reason@ == words
}

/// What comes of a wish to register, where there are so many users. A name has 1 to 64
/// bytes, a password 8 to 72, an address 1 to 255.
pub open spec fn registers(count: i64, request: RegisterRequest, r: RegisterStep) -> bool {
    let name = byte_len(request.username@);
    let password = byte_len(request.password@);
    let email = byte_len(request.email@);
    if count > 0 {
        r matches RegisterStep::Failed(e) && registration_closed(e)
    } else if name == 0 || name > 64 {
        r matches RegisterStep::Failed(e) && bad_request(e, "username 长度须在 1-64 之间"@)
    } else if password < 8 || password > 72 {
        r matches RegisterStep::Failed(e) && bad_request(e, "password 长度须在 8-72 之间"@)
    } else if email == 0 || email > 255 {
        r matches RegisterStep::Failed(e) && bad_request(e, "email 长度须在 1-255 之间"@)
    } else {
        r == RegisterStep::FindUser(Register { request })
    }
}

fn closed() -> (r: AppError)
    ensures
        registration_closed(r),
{
    AppError::Forbidden("注册已关闭：本系统为单运营者设计，账号已初始化".to_owned())
}

/// Begins a registration, with the number of users that there are.
pub fn register(count: Result<i64, String>, request: RegisterRequest) -> (r: RegisterStep)
    ensures
        match count {
            Err(reason) => r == RegisterStep::Failed(AppError::Database(reason)),
            Ok(count) => registers(count, request, r),
        },
{
    let count = match count {
        Ok(count) => count,
        Err(reason) => {
            return RegisterStep::Failed(AppError::Database(reason));
        },
    };
    if count > 0 {
        return RegisterStep::Failed(closed());
    }
    let name = request.username.as_str().len();
    let password = request.password.as_str().len();
    let email = request.email.as_str().len();
    if name == 0 || name > 64 {
        return RegisterStep::Failed(
            AppError::BadRequest("username 长度须在 1-64 之间".to_owned()),
        );
    }
    if password < 8 || password > 72 {
        return RegisterStep::Failed(
            AppError::BadRequest("password 长度须在 8-72 之间".to_owned()),
        );
    }
    if email == 0 || email > 255 {
        return RegisterStep::Failed(
            AppError::BadRequest("email 长度须在 1-255 之间".to_owned()),
        );
    }
    RegisterStep::FindUser(Register { request })
}

impl Register {
    /// Goes on with whether there is a user of that name.
    pub fn found(self, taken: Result<bool, String>) -> (r: RegisterStep)
        ensures
            r == match taken {
                Err(reason) => RegisterStep::Failed(AppError::Database(reason)),
                Ok(true) => RegisterStep::Failed(AppError::UsernameConflict),
                Ok(false) => RegisterStep::Hash(self),
            },
    {
        match taken {
            Err(reason) => RegisterStep::Failed(AppError::Database(reason)),
            Ok(true) => RegisterStep::Failed(AppError::UsernameConflict),
            Ok(false) => RegisterStep::Hash(self),
        }
    }

    /// Goes on with the hash of the password. The password itself is not stored.
    pub fn hashed(self, hash: Result<String, String>) -> (r: RegisterStep)
        ensures
            r == match hash {
                Err(reason) => RegisterStep::Failed(AppError::Internal(reason)),
                Ok(password_hash) => RegisterStep::CreateFirst(
                    FirstUser {
                        username: self.request.username,
                        password_hash,
                        email: self.request.email,
                    },
                ),
            },
    {
        match hash {
            Err(reason) => RegisterStep::Failed(AppError::Internal(reason)),
            Ok(password_hash) => RegisterStep::CreateFirst(
                FirstUser {
                    username: self.request.username,
                    password_hash,
                    email: self.request.email,
                },
            ),
        }
    }
}

impl FirstUser {
    /// Ends the registration, with the id of the user, if the user was the first.
    pub fn created(self, id: Result<Option<i32>, String>) -> (r: RegisterStep)
        ensures
            match id {
                Err(reason) => r == RegisterStep::Failed(AppError::Database(reason)),
                Ok(None) => r matches RegisterStep::Failed(e) && registration_closed(e),
                Ok(Some(id)) => r == RegisterStep::Done(id),
            },
    {
        match id {
            Err(reason) => RegisterStep::Failed(AppError::Database(reason)),
            Ok(None) => RegisterStep::Failed(closed()),
            Ok(Some(id)) => RegisterStep::Done(id),
        }
    }
}

/// Where a login stands.
pub enum LoginStep {
    /// The password is to be held against a hash.
    Verify(Login),
    /// It succeeded.
    Done(LoginResponse),
    /// A time is out of range.
    Overflow,
    /// It failed.
    Failed(AppError),
}

/// A login whose password is to be checked.
pub struct Login {
    /// The user, if there is one of that name.
    pub user: Option<User>,
    pub password: String,
    /// The hash that the password is held against.
    pub hash: String,
}

/// Begins a login, with the user of that name, if there is one. A password is checked in
/// any case.
pub fn login(user: Result<Option<User>, String>, request: LoginRequest) -> (r: LoginStep)
    ensures
        match user {
            Err(reason) => r == LoginStep::Failed(AppError::Database(reason)),
            Ok(user) => r matches LoginStep::Verify(next) && next.user == user && next.password
                == request.password && next.hash@ == match user {
                Some(u) => u.password@,
                None => DUMMY_HASH@,
            },
        },
{
    let user = match user {
        Ok(user) => user,
        Err(reason) => {
            return LoginStep::Failed(AppError::Database(reason));
        },
    };
    let hash = match &user {
        Some(u) => u.password.clone(),
        None => DUMMY_HASH.to_owned(),
    };
    LoginStep::Verify(Login { user, password: request.password, hash })
}

impl Login {
    /// Ends the login, with whether the password belongs to the hash. Only a user who
    /// exists and whose password it is gets a token; the others all get the same answer.
    pub fn verified(self, verdict: Result<bool, String>, secret: &str, now_secs: u64) -> (r:
        LoginStep)
        ensures
            match verdict {
                Err(reason) => r == LoginStep::Failed(AppError::Internal(reason)),
                Ok(matches) => match self.user {
                    Some(user) => if !matches {
                        r == LoginStep::Failed(AppError::InvalidCredentials)
                    } else if now_secs + TOKEN_TTL_SECS > u64::MAX {
                        r == LoginStep::Overflow
                    } else {
                        r matches LoginStep::Done(response) && response.username == user.username
                            && response.access_token@ == encoded_token(
                            user.id,
                            (now_secs + TOKEN_TTL_SECS) as u64,
                            secret@,
                        )
                    },
                    None => r == LoginStep::Failed(AppError::InvalidCredentials),
                },
            },
    {
        let matches = match verdict {
            Ok(matches) => matches,
            Err(reason) => {
                return LoginStep::Failed(AppError::Internal(reason));
            },
        };
        let user = match self.user {
            Some(user) => user,
            None => {
                return LoginStep::Failed(AppError::InvalidCredentials);
            },
        };
        if !matches {
            return LoginStep::Failed(AppError::InvalidCredentials);
        }
        match sign(user.id, secret, now_secs) {
            Ok(access_token) => LoginStep::Done(
                LoginResponse { access_token, username: user.username },
            ),
            Err(_) => LoginStep::Overflow,
        }
    }
}

/// A registration goes on exactly if there is no user yet, and the name has 1 to 64 bytes, the
/// password 8 to 72 and the address 1 to 255. Where there is a user it is closed, whatever the
/// form holds.
pub proof fn law_only_the_first_user_registers(
    count: i64,
    request: RegisterRequest,
    r: RegisterStep,
)
    requires
        call_ensures(register, (Ok::<i64, String>(count), request), r),
    ensures
        count > 0 ==> (r matches RegisterStep::Failed(e) && e is Forbidden),
        r == RegisterStep::FindUser(Register { request }) <==> {
            &&& count <= 0
            &&& 1 <= byte_len(request.username@) <= 64
            &&& 8 <= byte_len(request.password@) <= 72
            &&& 1 <= byte_len(request.email@) <= 255
        },
        r is FindUser || r is Failed,
{
}

/// What is stored of a user is the name, the address and the hash of the password, and not the
/// password; and only where the name is not taken.
pub proof fn law_passwords_are_stored_as_hashes(
    form: Register,
    taken: bool,
    next: RegisterStep,
    hash: String,
    r: RegisterStep,
)
    requires
        call_ensures(Register::found, (form, Ok::<bool, String>(taken)), next),
        call_ensures(Register::hashed, (form, Ok::<String, String>(hash)), r),
    ensures
        taken ==> next == RegisterStep::Failed(AppError::UsernameConflict),
        !taken ==> next == RegisterStep::Hash(form),
        r matches RegisterStep::CreateFirst(user) && user.username@ == form.request.username@
            && user.password_hash@ == hash@ && user.email@ == form.request.email@,
{
}

/// A login succeeds only for a user who exists and whose password it is; everybody else gets the
/// same answer. The token names the user and is good for seven days.
pub proof fn law_logins_need_the_right_password(
    login: Login,
    matches: bool,
    secret: &str,
    now_secs: u64,
    r: LoginStep,
)
    requires
        call_ensures(
            Login::verified,
            (login, Ok::<bool, String>(matches), secret, now_secs),
            r,
        ),
        now_secs + 604800 <= u64::MAX,
    ensures
        r is Done <==> login.user is Some && matches,
        !(r is Done) ==> r == LoginStep::Failed(AppError::InvalidCredentials),
        r matches LoginStep::Done(response) ==> (login.user matches Some(user)
            && response.username@ == user.username@ && response.access_token@ == encoded_token(
            user.id,
            (now_secs + 604800) as u64,
            secret@,
        )),
{
}

/// The password is held against the user's hash, and against some other hash if there is no such
/// user, so that the two cannot be told apart by how long it takes.
pub proof fn law_passwords_are_held_against_the_users_hash(
    user: Option<User>,
    request: LoginRequest,
    r: LoginStep,
)
    requires
        call_ensures(login, (Ok::<Option<User>, String>(user), request), r),
    ensures
        r matches LoginStep::Verify(next) && next.user == user && next.password@
            == request.password@ && (user matches Some(u) ==> next.hash@ == u.password@),
{
}

} // verus!
