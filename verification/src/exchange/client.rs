//! Requests to the exchange: how they are put together, signed, held back and repeated.

use crate::decimal::Overflow;
use crate::exchange::error::{BinanceApiError, BinanceError};
use crate::text::{
    digits, i64_text, int_text, is_digit, lemma_digits_value, parse_u64, parsed_u64, same_text,
    u64_text,
};
use hmac::Mac;
use vstd::prelude::*;
use vstd::utf8::encode_utf8;

verus! {

/// How long it takes until the exchange has released what cancelled orders held, in
/// seconds.
pub const CANCEL_ORDERS_SETTLE_SECS: u64 = 2;

/// How far the clock of a signed request may be off, in milliseconds.
pub const RECV_WINDOW_MS: u64 = 5000;

/// The HTTP method of a request.
#[derive(Clone, Copy, Debug, PartialEq, Eq, Structural)]
pub enum Method {
    Get,
    Post,
    Delete,
}

/// A request that is signed when it is sent.
#[derive(Debug)]
pub struct SignedCall {
    pub method: Method,
    pub path: String,
    pub params: Vec<(String, String)>,
    /// Whether it is being sent a second time.
    pub retried: bool,
}

/// A request that needs no signature.
#[derive(Debug)]
pub struct PublicCall {
    pub path: String,
    pub query: Vec<(String, String)>,
}

/// A request as it is sent.
#[derive(Debug)]
pub struct HttpRequest {
    pub method: Method,
    pub url: String,
    /// The key of the account, for signed requests.
    pub api_key: Option<String>,
    pub query: Vec<(String, String)>,
    /// The body of a form.
    pub form: Option<String>,
    /// How many milliseconds to wait before it is sent.
    pub wait_ms: u64,
}

/// What is known of a connection to the exchange. Points in time count milliseconds
/// since 1970.
pub struct BinanceClient {
    pub api_key: String,
    pub secret: String,
    pub base_url: String,
    /// Until when nothing may be sent.
    pub blocked_until_ms: i64,
    /// How far the clock of the exchange is ahead.
    pub time_offset_ms: i64,
}

/// What to do with the outcome of a signed request.
pub enum CallStep {
    /// It is final.
    Done(Result<String, BinanceError>),
    /// The clock is off: compare it with the exchange, then send the request again.
    SyncTime(SignedCall),
}

/// The names and values of some parameters.
pub open spec fn pairs(params: Seq<(String, String)>) -> Seq<(Seq<char>, Seq<char>)> {
    params.map_values(|p: (String, String)| (p.0@, p.1@))
}

/// Parameters in one line: names and values with an equals sign between, joined by
/// ampersands.
pub open spec fn query_text(params: Seq<(Seq<char>, Seq<char>)>) -> Seq<char>
    decreases params.len(),
{
    if params.len() == 0 {
        Seq::empty()
    } else {
        let front = query_text(params.drop_last());
        let last = params.last().0 + "="@ + params.last().1;
        if params.len() == 1 {
            last
        } else {
            front + "&"@ + last
        }
    }
}

/// The HMAC with SHA-256 of a message.
pub uninterp spec fn hmac_sha256(key: Seq<u8>, message: Seq<u8>) -> Seq<u8>;

/// A hexadecimal digit.
pub open spec fn hex_digit(d: int) -> char {
    if d < 10 {
        (48 + d) as char
    } else {
        (87 + d) as char
    }
}

/// Bytes in hexadecimal, two digits each.
pub open spec fn hex_text(bytes: Seq<u8>) -> Seq<char> {
    Seq::new(
        2 * bytes.len(),
        |i: int|
            if i % 2 == 0 {
                hex_digit(bytes[i / 2] as int / 16)
            } else {
                hex_digit(bytes[i / 2] as int % 16)
            },
    )
}

/// The signature of a line of parameters.
pub open spec fn signature_of(secret: Seq<char>, query: Seq<char>) -> Seq<char> {
    hex_text(hmac_sha256(encode_utf8(secret), encode_utf8(query)))
}

/// Calls `Hmac::<Sha256>` of the `hmac` and `sha2` crates: a key, one message, the
/// finished code. The claim: the result depends on the key and the message alone.
#[verifier::external_body]
fn outside_hmac_sha256(key: &[u8], message: &[u8]) -> (r: Vec<u8>)
    ensures
        r@ == hmac_sha256(key@, message@),
{
    let mut mac = hmac::Hmac::<sha2::Sha256>::new_from_slice(key).expect("any length of key");
    mac.update(message);
    mac.finalize().into_bytes().to_vec()
}

/// Calls `hex::encode`. The claim: the text has two hexadecimal digits for each byte, in
/// small letters, the upper four bits first.
#[verifier::external_body]
fn outside_hex_encode(bytes: &[u8]) -> (r: String)
    ensures
        r@ == hex_text(bytes@),
{
    hex::encode(bytes)
}

/// Whether a parameter is one that signing adds.
pub open spec fn added_by_signing(name: Seq<char>) -> bool {
    name == "recvWindow"@ || name == "timestamp"@
}

/// The parameters that signing has not added.
pub open spec fn unsigned(params: Seq<(Seq<char>, Seq<char>)>) -> Seq<(Seq<char>, Seq<char>)> {
    params.filter(|p: (Seq<char>, Seq<char>)| !added_by_signing(p.0))
}

/// The parameters with those that signing adds.
pub open spec fn with_time(params: Seq<(Seq<char>, Seq<char>)>, timestamp: int) -> Seq<
    (Seq<char>, Seq<char>),
> {
    params.push(("recvWindow"@, digits(RECV_WINDOW_MS as nat))).push(
        ("timestamp"@, int_text(timestamp)),
    )
}

/// What is sent for a signed request: the parameters and the signature, in the body of a
/// POST, else in the query.
pub open spec fn signed_as(
    client: BinanceClient,
    call: SignedCall,
    timestamp: int,
    r: HttpRequest,
) -> bool {
    let params = with_time(pairs(call.params@), timestamp);
    let signature = signature_of(client.secret@, query_text(params));
    &&& r.method == call.method
    &&& r.url@ == client.base_url@ + call.path@
    &&& r.api_key matches Some(key) && key@ == client.api_key@
    &&& if call.method == Method::Post {
        &&& pairs(r.query@) == Seq::<(Seq<char>, Seq<char>)>::empty()
        &&& r.form matches Some(body) && body@ == query_text(params) + "&signature="@ + signature
    } else {
        &&& pairs(r.query@) == params.push(("signature"@, signature))
        &&& r.form is None
    }
}

/// The milliseconds that a reply asks to wait: its seconds, or one if it does not say;
/// `None` where that is too long.
pub open spec fn pause_asked(retry_after: Option<Seq<char>>) -> Option<int> {
    match retry_after {
        Some(text) => match parsed_u64(text) {
            Some(secs) => if secs * 1000 <= u64::MAX {
                Some(secs * 1000)
            } else {
                None
            },
            None => Some(1000),
        },
        None => Some(1000),
    }
}

/// Until when requests are held back when they are to be held back until a point in time.
pub open spec fn held_until(blocked_until_ms: i64, until: int) -> int {
    if until > blocked_until_ms {
        until
    } else {
        blocked_until_ms as int
    }
}

/// How long a request waits.
pub open spec fn wait_of(blocked_until_ms: i64, now_ms: i64) -> int {
    if blocked_until_ms > now_ms {
        blocked_until_ms - now_ms
    } else {
        0
    }
}

/// Whether a request that is handed out at some point in time waits for as long as requests
/// are held back.
pub open spec fn waits_out(client: BinanceClient, now_ms: i64, r: HttpRequest) -> bool {
    r.wait_ms == wait_of(client.blocked_until_ms, now_ms)
}

/// No request is sent before a pause is over that the exchange asked for, nor before an
/// earlier one is.
pub proof fn law_pauses_are_waited_for(
    before: BinanceClient,
    after: BinanceClient,
    until: i64,
    now_ms: i64,
    request: HttpRequest,
)
    requires
        after.blocked_until_ms == held_until(before.blocked_until_ms, until as int),
        waits_out(after, now_ms, request),
    ensures
        now_ms + request.wait_ms >= until,
        now_ms + request.wait_ms >= before.blocked_until_ms,
        now_ms + request.wait_ms >= after.blocked_until_ms,
{
}

/// A parameter.
fn param(name: &str, value: &str) -> (r: (String, String))
    ensures
        r.0@ == name@,
        r.1@ == value@,
{
    (name.to_owned(), value.to_owned())
}

/// A copy of some parameters.
fn copy_params(params: &Vec<(String, String)>) -> (r: Vec<(String, String)>)
    ensures
        pairs(r@) == pairs(params@),
{
    let mut r: Vec<(String, String)> = Vec::new();
    let mut i: usize = 0;
    while i < params.len()
        invariant
            i <= params.len(),
            pairs(r@) == pairs(params@).take(i as int),
        decreases params.len() - i,
    {
        let ghost before = r@;
        r.push((params[i].0.clone(), params[i].1.clone()));
        assert(pairs(r@) =~= pairs(before).push(pairs(params@)[i as int]));
        i = i + 1;
        assert(pairs(params@).take(i as int) =~= pairs(params@).take(i - 1).push(
            pairs(params@)[i - 1],
        ));
    }
    assert(pairs(params@).take(i as int) =~= pairs(params@));
    r
}

/// Parameters in one line.
pub fn query_line(params: &Vec<(String, String)>) -> (r: String)
    ensures
        r@ == query_text(pairs(params@)),
{
    let mut r = "".to_owned();
    proof {
        reveal_strlit("");
        assert(r@ =~= Seq::<char>::empty());
    }
    let ghost all = pairs(params@);
    let mut i: usize = 0;
    while i < params.len()
        invariant
            i <= params.len(),
            all == pairs(params@),
            r@ == query_text(all.take(i as int)),
        decreases params.len() - i,
    {
        if i > 0 {
            r.append("&");
        }
        r.append(params[i].0.as_str());
        r.append("=");
        r.append(params[i].1.as_str());
        proof {
            let front = all.take(i + 1).drop_last();
            assert(front =~= all.take(i as int));
            assert(all.take(i + 1).last() == all[i as int]);
            assert(r@ =~= query_text(all.take(i + 1)));
        }
        i = i + 1;
    }
    assert(all.take(i as int) =~= all);
    r
}

impl BinanceClient {
    /// A connection that may send at once and whose clock is right.
    pub fn new(api_key: &str, secret: &str, base_url: &str) -> (r: BinanceClient)
        ensures
            r.api_key@ == api_key@,
            r.secret@ == secret@,
            r.base_url@ == base_url@,
            r.blocked_until_ms == 0,
            r.time_offset_ms == 0,
    {
        BinanceClient {
            api_key: api_key.to_owned(),
            secret: secret.to_owned(),
            base_url: base_url.to_owned(),
            blocked_until_ms: 0,
            time_offset_ms: 0,
        }
    }

    /// Holds requests back for a while from now on; a longer hold stays. Nothing happens,
    /// and the answer is no, if the end is out of range.
    pub fn block_until(&mut self, retry_after_ms: u64, now_ms: i64) -> (r: bool)
        ensures
            r == (i64::MIN <= now_ms + (retry_after_ms as i64) <= i64::MAX),
            *final(self) == (BinanceClient {
                blocked_until_ms: if r {
                    held_until(old(self).blocked_until_ms, now_ms + (retry_after_ms as i64)) as i64
                } else {
                    old(self).blocked_until_ms
                },
                ..*old(self)
            }),
    {
        match now_ms.checked_add(retry_after_ms as i64) {
            Some(until) => {
                if until > self.blocked_until_ms {
                    self.blocked_until_ms = until;
                }
                true
            },
            None => false,
        }
    }

    /// How many milliseconds to wait before anything is sent.
    pub fn await_throttle(&self, now_ms: i64) -> (r: u64)
        ensures
            r == wait_of(self.blocked_until_ms, now_ms),
    {
        if self.blocked_until_ms > now_ms {
            (self.blocked_until_ms as i128 - now_ms as i128) as u64
        } else {
            0
        }
    }

    /// The request for the time of the exchange, as it is sent when the wait is over.
    pub fn sync_time_request(&self, now_ms: i64) -> (r: HttpRequest)
        ensures
            waits_out(*self, now_ms, r),
            r.method == Method::Get,
            r.url@ == self.base_url@ + "/api/v3/time"@,
            r.api_key is None,
            r.query.len() == 0,
            r.form is None,
    {
        let mut url = self.base_url.clone();
        url.append("/api/v3/time");
        HttpRequest {
            method: Method::Get,
            url,
            api_key: None,
            query: Vec::new(),
            form: None,
            wait_ms: self.await_throttle(now_ms),
        }
    }

    /// Sets the clock by the time of the exchange, and says how far it is off. Nothing
    /// happens if that is out of range.
    pub fn sync_time_offset(&mut self, server_time: i64, now_ms: i64) -> (r: Option<i64>)
        ensures
            match r {
                Some(offset) => offset == server_time - now_ms && *final(self) == (BinanceClient {
                    time_offset_ms: offset,
                    ..*old(self)
                }),
                None => !(i64::MIN <= server_time - now_ms <= i64::MAX) && *final(self)
                    == *old(self),
            },
    {
        match server_time.checked_sub(now_ms) {
            Some(offset) => {
                self.time_offset_ms = offset;
                Some(offset)
            },
            None => None,
        }
    }

    /// The signature of a line of parameters: its HMAC with SHA-256 under the secret, in
    /// hexadecimal.
    pub fn sign(&self, query: &str) -> (r: String)
        ensures
            r@ == signature_of(self.secret@, query@),
    {
        let mac = outside_hmac_sha256(self.secret.as_str().as_bytes(), query.as_bytes());
        outside_hex_encode(mac.as_slice())
    }

    /// The time at the exchange, if it is in range.
    pub fn timestamp(&self, now_ms: i64) -> (r: Option<i64>)
        ensures
            match r {
                Some(t) => t == now_ms + self.time_offset_ms,
                None => !(i64::MIN <= now_ms + self.time_offset_ms <= i64::MAX),
            },
    {
        now_ms.checked_add(self.time_offset_ms)
    }

    /// Adds the time to the parameters, and returns them in one line, with its signature.
    pub fn build_signed_query(&self, params: &mut Vec<(String, String)>, now_ms: i64) -> (r: Result<
        (String, String),
        Overflow,
    >)
        ensures
            match r {
                Ok(line) => {
                    &&& pairs(final(params)@) == with_time(
                        pairs(old(params)@),
                        now_ms + self.time_offset_ms,
                    )
                    &&& line.0@ == query_text(pairs(final(params)@))
                    &&& line.1@ == signature_of(self.secret@, line.0@)
                },
                Err(_) => *final(params) == *old(params),
            },
            r is Err <==> !(i64::MIN <= now_ms + self.time_offset_ms <= i64::MAX),
    {
        let timestamp = match self.timestamp(now_ms) {
            Some(t) => t,
            None => {
                return Err(Overflow);
            },
        };
        let ghost before = pairs(params@);
        params.push(param("recvWindow", u64_text(RECV_WINDOW_MS).as_str()));
        params.push(param("timestamp", i64_text(timestamp).as_str()));
        assert(pairs(params@) =~= with_time(before, timestamp as int));
        let line = query_line(params);
        let signature = self.sign(line.as_str());
        Ok((line, signature))
    }

    /// The request, signed now, as it is sent when the wait is over.
    pub fn signed_req_once(&self, call: &mut SignedCall, now_ms: i64) -> (r: Result<
        HttpRequest,
        Overflow,
    >)
        ensures
            match r {
                Ok(request) => {
                    &&& signed_as(*self, *old(call), now_ms + self.time_offset_ms, request)
                    &&& waits_out(*self, now_ms, request)
                    &&& pairs(final(call).params@) == with_time(
                        pairs(old(call).params@),
                        now_ms + self.time_offset_ms,
                    )
                },
                Err(_) => final(call).params == old(call).params,
            },
            r is Err <==> !(i64::MIN <= now_ms + self.time_offset_ms <= i64::MAX),
            final(call).method == old(call).method,
            final(call).path == old(call).path,
            final(call).retried == old(call).retried,
    {
        let (line, signature) = match self.build_signed_query(&mut call.params, now_ms) {
            Ok(line) => line,
            Err(e) => {
                return Err(e);
            },
        };
        let mut url = self.base_url.clone();
        url.append(call.path.as_str());
        let api_key = Some(self.api_key.clone());
        let wait_ms = self.await_throttle(now_ms);
        if call.method == Method::Post {
            let mut body = line;
            body.append("&signature=");
            body.append(signature.as_str());
            let query: Vec<(String, String)> = Vec::new();
            assert(pairs(query@) =~= Seq::<(Seq<char>, Seq<char>)>::empty());
            Ok(HttpRequest { method: call.method, url, api_key, query, form: Some(body), wait_ms })
        } else {
            let mut query = copy_params(&call.params);
            let ghost before = pairs(query@);
            query.push(param("signature", signature.as_str()));
            assert(pairs(query@) =~= before.push(("signature"@, signature@)));
            Ok(HttpRequest { method: call.method, url, api_key, query, form: None, wait_ms })
        }
    }

    /// The request without a signature, as it is sent when the wait is over.
    pub fn unsigned_get(&self, call: PublicCall, now_ms: i64) -> (r: HttpRequest)
        ensures
            waits_out(*self, now_ms, r),
            r.method == Method::Get,
            r.url@ == self.base_url@ + call.path@,
            r.api_key is None,
            r.query == call.query,
            r.form is None,
    {
        let mut url = self.base_url.clone();
        url.append(call.path.as_str());
        HttpRequest {
            method: Method::Get,
            url,
            api_key: None,
            query: call.query,
            form: None,
            wait_ms: self.await_throttle(now_ms),
        }
    }

    /// Looks at the status of a reply: too many requests were sent (429), or the address
    /// is banned for it (418). Then requests are held back for as long as the reply asks,
    /// and the error is returned. `Err` where the pause is too long to be counted.
    pub fn rate_limited(
        &mut self,
        status: u16,
        retry_after: Option<&str>,
        now_ms: i64,
    ) -> (r: Result<Option<BinanceError>, Overflow>)
        ensures
            ({
                let limited = status == 429 || status == 418;
                let asked = pause_asked(
                    match retry_after {
                        Some(text) => Some(text@),
                        None => None,
                    },
                );
                let until = now_ms + ((asked->0 as u64) as i64);
                match r {
                    Ok(None) => !limited && *final(self) == *old(self),
                    Ok(Some(e)) => {
                        &&& limited
                        &&& asked is Some
                        &&& e == (BinanceError::RateLimit { retry_after_ms: asked->0 as u64 })
                        &&& i64::MIN <= until <= i64::MAX
                        &&& *final(self) == (BinanceClient {
                            blocked_until_ms: held_until(old(self).blocked_until_ms, until) as i64,
                            ..*old(self)
                        })
                    },
                    Err(_) => limited && (asked is None || !(i64::MIN <= until <= i64::MAX))
                        && *final(self) == *old(self),
                }
            }),
    {
        if status != 429 && status != 418 {
            return Ok(None);
        }
        let mut retry_after_ms: u64 = 1000;
        if let Some(text) = retry_after {
            if let Some(secs) = parse_u64(text) {
                match secs.checked_mul(1000) {
                    Some(ms) => {
                        retry_after_ms = ms;
                    },
                    None => {
                        return Err(Overflow);
                    },
                }
            }
        }
        if self.block_until(retry_after_ms, now_ms) {
            Ok(Some(BinanceError::RateLimit { retry_after_ms }))
        } else {
            Err(Overflow)
        }
    }

    /// The body of a reply that was not held back: itself, if the request succeeded; else
    /// the refusal that it holds, or the body as it could not be read.
    pub fn parse_response(
        status: u16,
        body: String,
        refusal: Option<BinanceApiError>,
    ) -> (r: Result<String, BinanceError>)
        ensures
            match r {
                Ok(text) => 200 <= status < 300 && text == body,
                Err(e) => !(200 <= status < 300) && e == match refusal {
                    Some(api) => BinanceError::Api { code: api.code, msg: api.msg },
                    None => BinanceError::Parse(body),
                },
            },
    {
        if 200 <= status && status < 300 {
            return Ok(body);
        }
        match refusal {
            Some(api) => Err(BinanceError::Api { code: api.code, msg: api.msg }),
            None => Err(BinanceError::Parse(body)),
        }
    }

    /// What to do with the outcome of a signed request. Where the exchange finds the time
    /// wrong (-1021), the request is sent once more with the clock set right, and for that
    /// the parameters that signing added are taken out again.
    pub fn signed_req(call: SignedCall, outcome: Result<String, BinanceError>) -> (r: CallStep)
        ensures
            ({
                let clock_off = outcome matches Err(BinanceError::Api { code, .. }) && code
                    == -1021;
                match r {
                    CallStep::SyncTime(next) => {
                        &&& clock_off && !call.retried
                        &&& next.method == call.method
                        &&& next.path == call.path
                        &&& next.retried
                        &&& pairs(next.params@) == unsigned(pairs(call.params@))
                    },
                    CallStep::Done(result) => (!clock_off || call.retried) && result == outcome,
                }
            }),
    {
        let clock_off = match &outcome {
            Err(e) => e.has_code(-1021),
            Ok(_) => false,
        };
        if !clock_off || call.retried {
            return CallStep::Done(outcome);
        }
        let params = without_time(&call.params);
        CallStep::SyncTime(
            SignedCall { method: call.method, path: call.path, params, retried: true },
        )
    }
}

/// The parameters that signing has not added.
fn without_time(params: &Vec<(String, String)>) -> (r: Vec<(String, String)>)
    ensures
        pairs(r@) == unsigned(pairs(params@)),
{
    let ghost all = pairs(params@);
    let ghost keep = |p: (Seq<char>, Seq<char>)| !added_by_signing(p.0);
    let mut r: Vec<(String, String)> = Vec::new();
    let mut i: usize = 0;
    assert(pairs(r@) =~= all.take(0).filter(keep)) by {
        reveal(Seq::filter);
    }
    while i < params.len()
        invariant
            i <= params.len(),
            all == pairs(params@),
            keep == (|p: (Seq<char>, Seq<char>)| !added_by_signing(p.0)),
            pairs(r@) == all.take(i as int).filter(keep),
        decreases params.len() - i,
    {
        let name = params[i].0.as_str();
        proof {
            reveal(Seq::filter);
            assert(all.take(i + 1).drop_last() =~= all.take(i as int));
            assert(all.take(i + 1).last() == all[i as int]);
        }
        if !same_text(name, "recvWindow") && !same_text(name, "timestamp") {
            let ghost before = r@;
            r.push((params[i].0.clone(), params[i].1.clone()));
            assert(pairs(r@) =~= pairs(before).push(all[i as int]));
        }
        i = i + 1;
    }
    assert(all.take(i as int) =~= all);
    r
}

/// A request that is signed carries the parameters that it has, the window and the time at the
/// exchange, in this order, and a signature of just that line under the secret; it is sent to
/// its path with the key of the account.
pub proof fn law_signed_requests_carry_their_parameters(
    client: &BinanceClient,
    call: &mut SignedCall,
    now_ms: i64,
    request: HttpRequest,
    i: int,
)
    requires
        call_ensures(
            BinanceClient::signed_req_once,
            (client, call, now_ms),
            Ok::<HttpRequest, Overflow>(request),
        ),
    ensures
        ({
            let given = pairs(old(call).params@);
            let n = given.len() as int;
            let sent = pairs(final(call).params@);
            let line = query_text(sent);
            let signature = hex_text(
                hmac_sha256(encode_utf8(client.secret@), encode_utf8(line)),
            );
            &&& request.method == old(call).method
            &&& request.url@ == client.base_url@ + old(call).path@
            &&& request.api_key matches Some(key) && key@ == client.api_key@
            &&& sent.len() == n + 2
            &&& 0 <= i < n ==> sent[i] == given[i]
            &&& sent[n] == ("recvWindow"@, digits(5000))
            &&& sent[n + 1] == ("timestamp"@, int_text(now_ms + client.time_offset_ms))
            &&& request.method == Method::Post ==> (request.form matches Some(body) && body@ == line
                + "&signature="@ + signature)
            &&& request.method != Method::Post ==> {
                &&& request.form is None
                &&& pairs(request.query@).len() == n + 3
                &&& 0 <= i < n + 2 ==> pairs(request.query@)[i] == sent[i]
                &&& pairs(request.query@)[n + 2] == ("signature"@, signature)
            }
        }),
{
}

/// Parameters stand in one line as they are: a parameter more adds its name and its value behind
/// the others.
pub proof fn law_parameters_stand_in_one_line(
    params: Seq<(Seq<char>, Seq<char>)>,
    name: Seq<char>,
    value: Seq<char>,
)
    ensures
        query_text(seq![(name, value)]) == name + "="@ + value,
        params.len() > 0 ==> query_text(params.push((name, value))) == query_text(params) + "&"@
            + (name + "="@ + value),
{
    assert(params.push((name, value)).drop_last() =~= params);
    assert(seq![(name, value)].last() == (name, value));
}

/// Bytes are told apart by their hexadecimal text.
pub proof fn law_hexadecimal_text_tells_bytes_apart(a: Seq<u8>, b: Seq<u8>)
    requires
        hex_text(a) == hex_text(b),
    ensures
        a == b,
{
    assert(hex_text(a).len() == 2 * a.len() && hex_text(b).len() == 2 * b.len());
    assert forall|i: int| 0 <= i < a.len() implies a[i] == b[i] by {
        assert(hex_text(a)[2 * i] == hex_text(b)[2 * i]);
        assert(hex_text(a)[2 * i + 1] == hex_text(b)[2 * i + 1]);
        assert((2 * i) / 2 == i && (2 * i + 1) / 2 == i && (2 * i) % 2 == 0 && (2 * i + 1) % 2
            == 1);
        let (x, y) = (a[i] as int, b[i] as int);
        assert(hex_text(a)[2 * i] == hex_digit(x / 16) && hex_text(b)[2 * i] == hex_digit(y / 16));
        assert(hex_text(a)[2 * i + 1] == hex_digit(x % 16) && hex_text(b)[2 * i + 1] == hex_digit(
            y % 16,
        ));
        lemma_hex_digit(x / 16, y / 16);
        lemma_hex_digit(x % 16, y % 16);
        assert(x == 16 * (x / 16) + x % 16);
        assert(y == 16 * (y / 16) + y % 16);
    }
    assert(a =~= b);
}

proof fn lemma_hex_digit(d: int, e: int)
    requires
        0 <= d < 16,
        0 <= e < 16,
        hex_digit(d) == hex_digit(e),
    ensures
        d == e,
{
    assert((48 + d) as char as int == 48 + d && (87 + d) as char as int == 87 + d);
    assert((48 + e) as char as int == 48 + e && (87 + e) as char as int == 87 + e);
}

/// A reply that says that too many requests were sent holds back every request for as many
/// seconds as it says, or one second if it does not say, and a longer hold stays; no other reply
/// holds anything back.
pub proof fn law_replies_hold_requests_back(
    client: &mut BinanceClient,
    status: u16,
    retry_after: Option<&str>,
    now_ms: i64,
    r: Option<BinanceError>,
    secs: u64,
)
    requires
        call_ensures(
            BinanceClient::rate_limited,
            (client, status, retry_after, now_ms),
            Ok::<Option<BinanceError>, Overflow>(r),
        ),
        retry_after matches Some(text) ==> text@ == digits(secs as nat),
        retry_after is None ==> secs == 1,
    ensures
        ({
            let limited = status == 429 || status == 418;
            &&& limited ==> r == Some(
                BinanceError::RateLimit { retry_after_ms: (secs * 1000) as u64 },
            )
            &&& limited && secs * 1000 <= i64::MAX ==> {
                &&& final(client).blocked_until_ms >= now_ms + secs * 1000
                &&& final(client).blocked_until_ms >= old(client).blocked_until_ms
                &&& final(client).blocked_until_ms <= now_ms + secs * 1000
                    || final(client).blocked_until_ms <= old(client).blocked_until_ms
            }
            &&& !limited ==> r is None && *final(client) == *old(client)
            &&& final(client).secret == old(client).secret
            &&& final(client).api_key == old(client).api_key
            &&& final(client).time_offset_ms == old(client).time_offset_ms
        }),
{
    lemma_digits_value(secs as nat);
    let text = digits(secs as nat);
    assert(text[0] != '+') by {
        assert(is_digit(text[0]));
    }
}

/// A signed request is sent once more, and only once, when the exchange finds its time wrong;
/// every other outcome is final.
pub proof fn law_only_a_wrong_clock_repeats_a_request(
    call: SignedCall,
    outcome: Result<String, BinanceError>,
    r: CallStep,
)
    requires
        call_ensures(BinanceClient::signed_req, (call, outcome), r),
    ensures
        r is SyncTime <==> !call.retried && (outcome matches Err(BinanceError::Api { code, .. })
            && code == -1021),
        r matches CallStep::SyncTime(again) ==> again.retried && again.method == call.method
            && again.path == call.path,
        r matches CallStep::Done(result) ==> result == outcome,
{
}

/// A reply is its body if the request succeeded, else the refusal that it holds, or the body as
/// it is.
pub proof fn law_replies_succeed_by_their_status(
    status: u16,
    body: String,
    refusal: Option<BinanceApiError>,
    r: Result<String, BinanceError>,
)
    requires
        call_ensures(BinanceClient::parse_response, (status, body, refusal), r),
    ensures
        200 <= status <= 299 ==> r == Ok::<String, BinanceError>(body),
        !(200 <= status <= 299) ==> (r matches Err(e) && match refusal {
            Some(api) => e == (BinanceError::Api { code: api.code, msg: api.msg }),
            None => e == BinanceError::Parse(body),
        }),
{
}

/// The clock is set by the time of the exchange: from then on the time of a request is the local
/// time and what the exchange was ahead.
pub proof fn law_clocks_are_set_by_the_exchange(
    client: &mut BinanceClient,
    server_time: i64,
    now_ms: i64,
    r: Option<i64>,
    later: &BinanceClient,
    then_ms: i64,
    time: Option<i64>,
)
    requires
        call_ensures(BinanceClient::sync_time_offset, (client, server_time, now_ms), r),
        *later == *final(client),
        call_ensures(BinanceClient::timestamp, (later, then_ms), time),
    ensures
        r matches Some(offset) ==> offset == server_time - now_ms,
        r is Some && time is Some ==> time->0 - server_time == then_ms - now_ms,
        i64::MIN <= server_time - now_ms <= i64::MAX ==> r is Some,
        final(client).blocked_until_ms == old(client).blocked_until_ms,
{
}

} // verus!
