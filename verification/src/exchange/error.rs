//! What can go wrong when the exchange is asked.

use crate::text::{digits, i64_text, int_text, u64_text};
use vstd::prelude::*;

verus! {

/// Why a request to the exchange failed.
#[derive(Debug)]
pub enum BinanceError {
    /// The request did not get through.
    Http(String),
    /// The exchange refused the request.
    Api { code: i32, msg: String },
    /// The exchange asks for a pause.
    RateLimit { retry_after_ms: u64 },
    /// The reply could not be read.
    Parse(String),
}

/// The body of a refusal.
#[derive(Debug)]
pub struct BinanceApiError {
    pub code: i32,
    pub msg: String,
}

/// The wording of an error.
pub open spec fn error_text(e: BinanceError) -> Seq<char> {
    match e {
        BinanceError::Http(reason) => "HTTP 错误: "@ + reason@,
        BinanceError::Api { code, msg } => "Binance API 错误 "@ + int_text(code as int) + ": "@
            + msg@,
        BinanceError::RateLimit { retry_after_ms } => "速率限制 (429)，等待 "@ + digits(
            retry_after_ms as nat,
        ) + "ms"@,
        BinanceError::Parse(reason) => "响应解析错误: "@ + reason@,
    }
}

impl BinanceError {
    /// The error in words.
    pub fn to_text(&self) -> (r: String)
        ensures
            r@ == error_text(*self),
    {
        match self {
            BinanceError::Http(reason) => {
                let mut r = "HTTP 错误: ".to_owned();
                r.append(reason.as_str());
                r
            },
            BinanceError::Api { code, msg } => {
                let mut r = "Binance API 错误 ".to_owned();
                r.append(i64_text(*code as i64).as_str());
                r.append(": ");
                r.append(msg.as_str());
                r
            },
            BinanceError::RateLimit { retry_after_ms } => {
                let mut r = "速率限制 (429)，等待 ".to_owned();
                r.append(u64_text(*retry_after_ms).as_str());
                r.append("ms");
                r
            },
            BinanceError::Parse(reason) => {
                let mut r = "响应解析错误: ".to_owned();
                r.append(reason.as_str());
                r
            },
        }
    }

    /// Whether the exchange refused the request with this code.
    pub fn has_code(&self, wanted: i32) -> (r: bool)
        ensures
            r == (self matches BinanceError::Api { code, .. } && code == wanted),
    {
        match self {
            BinanceError::Api { code, .. } => *code == wanted,
            _ => false,
        }
    }
}

} // verus!
