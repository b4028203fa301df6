//! Why a request of a user fails, and what the user is told.

use vstd::prelude::*;

verus! {

/// Why a request fails.
#[derive(Debug)]
pub enum AppError {
    Unauthorized,
    InvalidCredentials,
    UsernameConflict,
    Forbidden(String),
    NotFound,
    BadRequest(String),
    Internal(String),
    Database(String),
}

/// The wording of an error.
pub open spec fn app_error_text(e: AppError) -> Seq<char> {
    match e {
        AppError::Unauthorized => "未授权"@,
        AppError::InvalidCredentials => "用户名或密码错误"@,
        AppError::UsernameConflict => "用户名已存在"@,
        AppError::Forbidden(reason) => "禁止访问: "@ + reason@,
        AppError::NotFound => "资源不存在"@,
        AppError::BadRequest(reason) => "请求参数错误: "@ + reason@,
        AppError::Internal(reason) => "内部错误: "@ + reason@,
        AppError::Database(reason) => "数据库错误: "@ + reason@,
    }
}

/// What the user is told: of an error inside, nothing but that there was one.
pub open spec fn told(e: AppError) -> Seq<char> {
    match e {
        AppError::Internal(_) => "内部服务器错误"@,
        AppError::Database(_) => "数据库错误"@,
        _ => app_error_text(e),
    }
}

/// The HTTP status of an error.
pub open spec fn status_of(e: AppError) -> u16 {
    match e {
        AppError::Unauthorized => 401,
        AppError::InvalidCredentials => 401,
        AppError::UsernameConflict => 409,
        AppError::Forbidden(_) => 403,
        AppError::NotFound => 404,
        AppError::BadRequest(_) => 400,
        AppError::Internal(_) => 500,
        AppError::Database(_) => 500,
    }
}

fn prefixed(prefix: &str, reason: &String) -> (r: String)
    ensures
        r@ == prefix@ + reason@,
{
    let mut r = prefix.to_owned();
    r.append(reason.as_str());
    r
}

impl AppError {
    /// The error in words, for the log.
    pub fn to_text(&self) -> (r: String)
        ensures
            r@ == app_error_text(*self),
    {
        match self {
            AppError::Unauthorized => "未授权".to_owned(),
            AppError::InvalidCredentials => "用户名或密码错误".to_owned(),
            AppError::UsernameConflict => "用户名已存在".to_owned(),
            AppError::Forbidden(reason) => prefixed("禁止访问: ", reason),
            AppError::NotFound => "资源不存在".to_owned(),
            AppError::BadRequest(reason) => prefixed("请求参数错误: ", reason),
            AppError::Internal(reason) => prefixed("内部错误: ", reason),
            AppError::Database(reason) => prefixed("数据库错误: ", reason),
        }
    }

    /// The HTTP status, and what the user is told.
    pub fn into_response(&self) -> (r: (u16, String))
        ensures
            r.0 == status_of(*self),
            r.1@ == told(*self),
    {
        match self {
            AppError::Unauthorized => (401, self.to_text()),
            AppError::InvalidCredentials => (401, self.to_text()),
            AppError::UsernameConflict => (409, self.to_text()),
            AppError::Forbidden(_) => (403, self.to_text()),
            AppError::NotFound => (404, self.to_text()),
            AppError::BadRequest(_) => (400, self.to_text()),
            AppError::Internal(_) => (500, "内部服务器错误".to_owned()),
            AppError::Database(_) => (500, "数据库错误".to_owned()),
        }
    }
}

/// A user is never told what went wrong inside.
pub proof fn law_inner_errors_are_not_told(a: String, b: String)
    ensures
        told(AppError::Internal(a)) == told(AppError::Internal(b)),
        told(AppError::Database(a)) == told(AppError::Database(b)),
{
}

/// Who asks without a token or with the wrong password is not authorised, who asks for what is
/// not theirs does not find it, who asks wrongly is told so, and what goes wrong inside is not
/// the user's fault and not told.
pub proof fn law_errors_have_their_status(e: &AppError, r: (u16, String))
    requires
        call_ensures(AppError::into_response, (e,), r),
    ensures
        *e is Unauthorized || *e is InvalidCredentials <==> r.0 == 401,
        *e is UsernameConflict <==> r.0 == 409,
        *e is Forbidden <==> r.0 == 403,
        *e is NotFound <==> r.0 == 404,
        *e is BadRequest <==> r.0 == 400,
        *e is Internal || *e is Database <==> r.0 == 500,
        *e is Internal ==> r.1@ == "内部服务器错误"@,
        *e is Database ==> r.1@ == "数据库错误"@,
{
}

} // verus!
