//! The configuration, and what has to hold of it before anything starts.

use crate::text::{digits, int_text, same_text, u64_text};
use vstd::prelude::*;
use vstd::utf8::encode_utf8;

verus! {

/// The configuration.
#[derive(Debug)]
pub struct AppConfig {
    pub binance_apikey: String,
    pub binance_secret: String,
    pub database_url: String,
    pub jwt_secret: String,
    pub port: u16,
    /// The address to listen at. Whoever reaches it can trade with the account.
    pub bind_addr: String,
}

/// The shortest secret that tokens may be signed with, in bytes: as long as a signature.
pub const MIN_SECRET_LEN: usize = 32;

/// The port to listen at, unless another is given.
pub fn default_port() -> (r: u16)
    ensures
        r == 3000,
{
    3000
}

/// The address to listen at, unless another is given: reachable from this machine only.
pub fn default_bind_addr() -> (r: String)
    ensures
        r@ == "127.0.0.1"@,
{
    "127.0.0.1".to_owned()
}

/// What is said of a secret that is too short.
pub open spec fn short_secret(len: nat) -> Seq<char> {
    "JWT_SECRET 长度须 >= 32 字符（当前 "@ + digits(len) + " 字符），请在 .env 中更新"@
}

/// Whether the secret is long enough to sign tokens with.
pub fn check_jwt_secret(secret: &str) -> (r: Result<(), String>)
    ensures
        r is Ok <==> encode_utf8(secret@).len() as usize >= MIN_SECRET_LEN,
        r matches Err(reason) ==> reason@ == short_secret(
            encode_utf8(secret@).len() as usize as nat,
        ),
{
    let len = secret.len();
    if len >= MIN_SECRET_LEN {
        return Ok(());
    }
    let mut reason = "JWT_SECRET 长度须 >= 32 字符（当前 ".to_owned();
    reason.append(u64_text(len as u64).as_str());
    reason.append(" 字符），请在 .env 中更新");
    Err(reason)
}

/// What is said when more than one user owns grids.
pub open spec fn many_owners(owners: nat) -> Seq<char> {
    "检测到 "@ + digits(owners)
        + " 个不同用户持有网格，但本系统共用单套 Binance 密钥。请清理多余账号的网格后再启动，否则他人的网格会动用你的资金。"@
}

/// Whether at most one user owns grids. All grids are traded with one account.
pub fn check_owners(owners: usize) -> (r: Result<(), String>)
    ensures
        r is Ok <==> owners <= 1,
        r matches Err(reason) ==> reason@ == many_owners(owners as nat),
{
    if owners <= 1 {
        return Ok(());
    }
    let mut reason = "检测到 ".to_owned();
    reason.append(u64_text(owners as u64).as_str());
    reason.append(
        " 个不同用户持有网格，但本系统共用单套 Binance 密钥。请清理多余账号的网格后再启动，否则他人的网格会动用你的资金。",
    );
    Err(reason)
}

/// Whether an address is reachable from this machine only.
pub fn is_local(bind_addr: &str) -> (r: bool)
    ensures
        r == (bind_addr@ == "127.0.0.1"@ || bind_addr@ == "localhost"@),
{
    same_text(bind_addr, "127.0.0.1") || same_text(bind_addr, "localhost")
}

/// An address with its port.
pub fn listen_addr(bind_addr: &str, port: u16) -> (r: String)
    ensures
        r@ == bind_addr@ + ":"@ + int_text(port as int),
{
    let mut r = bind_addr.to_owned();
    r.append(":");
    r.append(u64_text(port as u64).as_str());
    r
}

/// Nothing starts with a secret of fewer than 32 bytes, nor while more than one user owns grids:
/// all are traded with one account.
pub proof fn law_nothing_starts_unsafely(
    secret: &str,
    r: Result<(), String>,
    owners: usize,
    q: Result<(), String>,
)
    requires
        call_ensures(check_jwt_secret, (secret,), r),
        call_ensures(check_owners, (owners,), q),
        encode_utf8(secret@).len() <= usize::MAX,
    ensures
        r is Ok <==> encode_utf8(secret@).len() >= 32,
        q is Ok <==> owners <= 1,
{
}

} // verus!
