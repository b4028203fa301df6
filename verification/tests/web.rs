//! Requests of users.

use grid_trader::config::{
    check_jwt_secret, check_owners, default_bind_addr, default_port, is_local, listen_addr,
};
use grid_trader::decimal::{Decimal, Overflow, MAX_MANTISSA};
use grid_trader::engine::error::EngineError;
use grid_trader::exchange::error::BinanceError;
use grid_trader::exchange::types::SymbolFilters;
use grid_trader::models::user::{create, create_first, User};
use grid_trader::models::user_grid::UserGrid;
use grid_trader::web::account::{
    hash_password, login, register, verify_password, LoginRequest, LoginStep, RegisterRequest, RegisterStep,
    DUMMY_HASH,
};
use grid_trader::web::auth::{
    bearer_token, claims_from, from_request_parts, read_claims, sign, user_of, verify, Claims, TokenError,
    UserId, TOKEN_TTL_SECS,
};
use grid_trader::web::center::{
    auto_center_grids, replaced, AutoCenterRequest, CenterPlan, CenterStep, Gathered,
};
use grid_trader::web::error::AppError;
use grid_trader::web::grids::{
    bad_order, create_grid, delete_grid, get_grids, owned_grid, toggle_grid_pause, update_grid,
    validate_grid_input, CreateGridRequest, EditAnswer, EditStep, Editing, UpdateGridRequest,
    Write,
};
use grid_trader::web::pause::{
    marked, pause_grids, paused, resume_grids, PauseResumeRequest, PauseStep, ResumeStep,
};
use std::collections::HashMap;

const SECRET: &str = "a secret of more than thirty-two bytes";

fn d(text: &str) -> Decimal {
    Decimal::parse(text).unwrap()
}

fn now() -> u64 {
    std::time::SystemTime::now()
        .duration_since(std::time::UNIX_EPOCH)
        .unwrap()
        .as_secs()
}

fn api(code: i32) -> BinanceError {
    BinanceError::Api { code, msg: "no".to_owned() }
}

fn words(e: &AppError) -> String {
    match e {
        AppError::BadRequest(reason) => reason.clone(),
        other => panic!("{other:?}"),
    }
}

#[test]
fn errors_have_a_status_and_words() {
    let x = || "x".to_owned();
    let cases = [
        (AppError::Unauthorized, 401, "未授权", "未授权"),
        (AppError::InvalidCredentials, 401, "用户名或密码错误", "用户名或密码错误"),
        (AppError::UsernameConflict, 409, "用户名已存在", "用户名已存在"),
        (AppError::Forbidden(x()), 403, "禁止访问: x", "禁止访问: x"),
        (AppError::NotFound, 404, "资源不存在", "资源不存在"),
        (AppError::BadRequest(x()), 400, "请求参数错误: x", "请求参数错误: x"),
        (AppError::Internal(x()), 500, "内部服务器错误", "内部错误: x"),
        (AppError::Database(x()), 500, "数据库错误", "数据库错误: x"),
    ];
    for (e, status, told, text) in cases {
        assert_eq!(e.into_response(), (status, told.to_owned()));
        assert_eq!(e.to_text(), text);
    }
}

#[test]
fn a_token_names_its_user() {
    let token = sign(42, SECRET, now()).unwrap();
    let claims = verify(&token, SECRET).unwrap();
    assert_eq!(claims.sub, 42);
    assert!(claims.exp >= now() + TOKEN_TTL_SECS - 60);
    let header = format!("Bearer {token}");
    assert_eq!(from_request_parts(Some(&header), SECRET).unwrap(), UserId(42));
    let negative = sign(-7, SECRET, now()).unwrap();
    assert_eq!(verify(&negative, SECRET).unwrap().sub, -7);
}

#[test]
fn a_token_that_is_good_for_ever_is_accepted() {
    let token = sign(42, SECRET, u64::MAX - TOKEN_TTL_SECS).unwrap();
    assert_eq!(verify(&token, SECRET), Ok(Claims { sub: 42, exp: u64::MAX }));
    let header = format!("Bearer {token}");
    assert_eq!(from_request_parts(Some(&header), SECRET).unwrap(), UserId(42));
}

#[test]
fn tokens_that_are_not_to_be_trusted_are_refused() {
    let token = sign(42, SECRET, now()).unwrap();
    assert_eq!(verify(&token, "another secret of the same length....."), Err(TokenError));
    assert_eq!(verify("x.y.z", SECRET), Err(TokenError));
    let old = sign(42, SECRET, now() - TOKEN_TTL_SECS - 3600).unwrap();
    assert_eq!(verify(&old, SECRET), Err(TokenError));
    assert_eq!(sign(42, SECRET, u64::MAX), Err(Overflow));
    let refused = |h: Option<&str>| {
        matches!(from_request_parts(h, SECRET), Err(AppError::Unauthorized))
    };
    assert!(refused(None));
    assert!(refused(Some(&token)));
    assert!(refused(Some("Bearer x")));
    assert!(refused(Some(&format!("bearer {token}"))));
}

#[test]
fn the_same_claims_make_the_same_token() {
    assert_eq!(sign(1, SECRET, 5).unwrap(), sign(1, SECRET, 5).unwrap());
    assert_ne!(sign(1, SECRET, 5).unwrap(), sign(2, SECRET, 5).unwrap());
    assert_ne!(sign(1, SECRET, 5).unwrap(), sign(1, SECRET, 6).unwrap());
}

fn raw(claims: &[(&str, &str)]) -> String {
    let mut map: HashMap<String, Box<serde_json::value::RawValue>> = HashMap::new();
    for (name, value) in claims {
        let value = serde_json::value::RawValue::from_string((*value).to_owned()).unwrap();
        map.insert((*name).to_owned(), value);
    }
    let key = jsonwebtoken::EncodingKey::from_secret(SECRET.as_bytes());
    jsonwebtoken::encode(&jsonwebtoken::Header::default(), &map, &key).unwrap()
}

#[test]
fn other_claims_are_not_looked_at() {
    let good = (now() + 1000).to_string();
    let exp = ("exp", good.as_str());
    let deep = "[".repeat(1000) + &"]".repeat(1000);
    let sub_of = |claims: &[(&str, &str)]| verify(&raw(claims), SECRET).map(|c| c.sub);
    assert_eq!(sub_of(&[("sub", "7"), exp]), Ok(7));
    assert_eq!(sub_of(&[("sub", "7"), exp, ("more", deep.as_str())]), Ok(7));
    assert_eq!(sub_of(&[("sub", "7"), exp, ("more", "1e999")]), Ok(7));
    assert_eq!(sub_of(&[("sub", "7.0"), exp]), Err(TokenError));
    assert_eq!(sub_of(&[("sub", "null"), exp]), Err(TokenError));
    assert_eq!(sub_of(&[("sub", "\"7\""), exp]), Err(TokenError));
    assert_eq!(sub_of(&[("sub", "2147483648"), exp]), Err(TokenError));
    assert_eq!(sub_of(&[exp]), Err(TokenError));
    assert_eq!(sub_of(&[("sub", "7")]), Err(TokenError));
    assert_eq!(sub_of(&[("sub", "7"), ("exp", "99999999999.5")]), Err(TokenError));
}

#[test]
fn what_was_read_is_checked_and_refusals_stay() {
    assert_eq!(claims_from(Ok((Some(7), Some(9)))), Ok(Claims { sub: 7, exp: 9 }));
    assert_eq!(claims_from(Ok((Some(7), None))), Err(TokenError));
    assert_eq!(claims_from(Ok((None, Some(9)))), Err(TokenError));
    assert_eq!(claims_from(Ok((Some(1 << 40), Some(9)))), Err(TokenError));
    let refusal = jsonwebtoken::decode_header("x").unwrap_err();
    assert_eq!(claims_from(Err(refusal)), Err(TokenError));
}

#[test]
fn claims_are_numbers_in_range() {
    assert_eq!(read_claims(Some(5), Some(9)), Some(Claims { sub: 5, exp: 9 }));
    assert_eq!(read_claims(Some(i32::MIN as i64), Some(9)).unwrap().sub, i32::MIN);
    assert_eq!(read_claims(Some(i32::MAX as i64 + 1), Some(9)), None);
    assert_eq!(read_claims(None, Some(9)), None);
    assert_eq!(read_claims(Some(5), None), None);
    assert_eq!(bearer_token(Some("Bearer abc")).unwrap(), "abc");
    assert_eq!(user_of(Ok(Claims { sub: 5, exp: 9 })).unwrap(), UserId(5));
    assert!(matches!(user_of(Err(TokenError)), Err(AppError::Unauthorized)));
}

#[test]
fn passwords_belong_to_their_hash() {
    let hash = hash_password("correct horse").unwrap();
    assert_ne!(hash, "correct horse");
    assert_eq!(verify_password("correct horse", &hash), Ok(true));
    assert_eq!(verify_password("wrong horse", &hash), Ok(false));
    assert!(verify_password("x", "no hash").is_err());
    assert_eq!(verify_password("", DUMMY_HASH), Ok(false));
}

fn request(name: &str, password: &str, email: &str) -> RegisterRequest {
    RegisterRequest {
        username: name.to_owned(),
        password: password.to_owned(),
        email: email.to_owned(),
    }
}

#[test]
fn registration_is_open_until_there_is_a_user() {
    assert!(create_first(1, "a", "h", "e").is_none());
    let closed = |step| match step {
        RegisterStep::Failed(AppError::Forbidden(reason)) => {
            assert_eq!(reason, "注册已关闭：本系统为单运营者设计，账号已初始化")
        }
        _ => panic!("not closed"),
    };
    closed(register(Ok(1), request("a", "12345678", "e")));
    let found = match register(Ok(0), request("a", "12345678", "e")) {
        RegisterStep::FindUser(r) => r,
        _ => panic!("refused"),
    };
    let hash = match found.found(Ok(false)) {
        RegisterStep::Hash(r) => r,
        _ => panic!("refused"),
    };
    let first = match hash.hashed(Ok("h".to_owned())) {
        RegisterStep::CreateFirst(first) => first,
        _ => panic!("refused"),
    };
    assert_eq!((first.username.as_str(), first.password_hash.as_str()), ("a", "h"));
    assert!(matches!(first.created(Ok(Some(7))), RegisterStep::Done(7)));
    let late = match register(Ok(0), request("a", "12345678", "e")) {
        RegisterStep::FindUser(r) => match r.found(Ok(false)) {
            RegisterStep::Hash(r) => match r.hashed(Ok("h".to_owned())) {
                RegisterStep::CreateFirst(first) => first,
                _ => panic!("refused"),
            },
            _ => panic!("refused"),
        },
        _ => panic!("refused"),
    };
    closed(late.created(Ok(None)));
    match register(Ok(0), request("a", "12345678", "e")) {
        RegisterStep::FindUser(r) => assert!(matches!(
            r.found(Ok(true)),
            RegisterStep::Failed(AppError::UsernameConflict)
        )),
        _ => panic!("refused"),
    }
    assert!(matches!(
        register(Err("down".to_owned()), request("a", "12345678", "e")),
        RegisterStep::Failed(AppError::Database(_))
    ));
}

#[test]
fn one_of_several_first_users_is_stored() {
    let calls = [("ann", "h1", "e1"), ("ben", "h2", "e2"), ("cyd", "h3", "e3")];
    let stored_of = |turns: &[usize], mut users: Vec<String>| {
        let mut successes = 0;
        for turn in turns {
            let (name, hash, email) = calls[*turn];
            if let Some(new) = create_first(users.len() as i64, name, hash, email) {
                successes += 1;
                assert_eq!((new.password.as_str(), new.email.as_str()), (hash, email));
                users.push(new.username);
            }
        }
        (successes, users)
    };
    assert_eq!(stored_of(&[0, 1, 2], vec![]), (1, vec!["ann".to_owned()]));
    assert_eq!(stored_of(&[2, 0, 1], vec![]), (1, vec!["cyd".to_owned()]));
    assert_eq!(stored_of(&[1, 2, 0], vec!["old".to_owned()]), (0, vec!["old".to_owned()]));
    let new = create("ann", "hash", "a@b");
    assert_eq!((new.username.as_str(), new.password.as_str()), ("ann", "hash"));
    assert_eq!(new.email, "a@b");
}

#[test]
fn forms_are_measured_in_bytes() {
    let accepted = |n: &str, p: &str, e: &str| {
        matches!(register(Ok(0), request(n, p, e)), RegisterStep::FindUser(_))
    };
    let long = |n: usize| "x".repeat(n);
    assert!(accepted(&long(64), &long(72), &long(255)));
    assert!(accepted("n", &long(8), "e"));
    assert!(!accepted("", &long(8), "e"));
    assert!(!accepted(&long(65), &long(8), "e"));
    assert!(!accepted("n", &long(7), "e"));
    assert!(!accepted("n", &long(73), "e"));
    assert!(!accepted("n", &long(8), ""));
    assert!(!accepted("n", &long(8), &long(256)));
    // Three bytes each.
    assert!(accepted("n", "网格网", "e"));
    assert!(!accepted("n", &"网".repeat(25), "e"));
    let refused = |n: &str, p: &str, e: &str| match register(Ok(0), request(n, p, e)) {
        RegisterStep::Failed(e) => words(&e),
        _ => panic!("accepted"),
    };
    assert_eq!(refused("", "", ""), "username 长度须在 1-64 之间");
    assert_eq!(refused("n", "", ""), "password 长度须在 8-72 之间");
    assert_eq!(refused("n", &long(8), ""), "email 长度须在 1-255 之间");
}

fn user() -> User {
    User {
        id: 9,
        username: "ann".to_owned(),
        password: "hash".to_owned(),
        email: "e".to_owned(),
        created_at: 0,
    }
}

fn login_request() -> LoginRequest {
    LoginRequest { username: "ann".to_owned(), password: "pw".to_owned() }
}

#[test]
fn login_gives_a_token_to_the_right_user_only() {
    let begin = |user: Option<User>| match login(Ok(user), login_request()) {
        LoginStep::Verify(next) => next,
        _ => panic!("refused"),
    };
    assert_eq!(begin(Some(user())).hash, "hash");
    assert_eq!(begin(None).hash, DUMMY_HASH);
    match begin(Some(user())).verified(Ok(true), SECRET, now()) {
        LoginStep::Done(response) => {
            assert_eq!(response.username, "ann");
            assert_eq!(verify(&response.access_token, SECRET).unwrap().sub, 9);
        }
        _ => panic!("refused"),
    }
    let wrong = |step| matches!(step, LoginStep::Failed(AppError::InvalidCredentials));
    assert!(wrong(begin(Some(user())).verified(Ok(false), SECRET, now())));
    assert!(wrong(begin(None).verified(Ok(true), SECRET, now())));
    assert!(wrong(begin(None).verified(Ok(false), SECRET, now())));
    assert!(matches!(
        begin(Some(user())).verified(Err("x".to_owned()), SECRET, now()),
        LoginStep::Failed(AppError::Internal(_))
    ));
    assert!(matches!(
        begin(Some(user())).verified(Ok(true), SECRET, u64::MAX),
        LoginStep::Overflow
    ));
    assert!(matches!(
        login(Err("down".to_owned()), login_request()),
        LoginStep::Failed(AppError::Database(_))
    ));
}

#[test]
fn grids_have_to_be_in_order() {
    let check = |amount: &str, buy: &str, sell: &str, side: &str| {
        validate_grid_input(d(amount), d(buy), d(sell), side).map_err(|e| words(&e))
    };
    assert_eq!(check("1", "1", "2", "buy"), Ok(()));
    assert_eq!(check("1", "1", "2", "sell"), Ok(()));
    let positive = Err("buy_price 和 sell_price 必须大于 0".to_owned());
    assert_eq!(check("1", "0", "2", "buy"), positive);
    assert_eq!(check("1", "1", "-2", "buy"), positive);
    assert_eq!(check("1", "2", "2", "buy"), Err("buy_price 必须小于 sell_price".to_owned()));
    assert_eq!(check("0", "1", "2", "buy"), Err("amount 必须大于 0".to_owned()));
    assert_eq!(check("1", "1", "2", "BUY"), Err("side 只能为 buy 或 sell".to_owned()));
    let wish = |side: &str| CreateGridRequest {
        symbol: "BTCUSDT".to_owned(),
        amount: d("1"),
        buy_price: d("2"),
        sell_price: d("3"),
        side: side.to_owned(),
    };
    let grid = create_grid(4, wish("buy")).unwrap();
    assert_eq!((grid.user_id, grid.source.as_str(), grid.side.as_str()), (4, "manual", "buy"));
    assert!(create_grid(4, wish("x")).is_err());
}

fn grid(id: i32, symbol: &str, status: &str, order_id: Option<&str>) -> UserGrid {
    UserGrid {
        id,
        user_id: 1,
        order_id: order_id.map(str::to_owned),
        amount: d("50"),
        buy_price: d("90"),
        sell_price: d("100"),
        side: "buy".to_owned(),
        symbol: symbol.to_owned(),
        status: status.to_owned(),
        source: "auto".to_owned(),
        is_paused: false,
        version: 1,
        created_at: 0,
        updated_at: 0,
    }
}

#[test]
fn grids_of_others_do_not_exist() {
    let found = || Ok(Some(grid(1, "BTCUSDT", "new", None)));
    assert!(owned_grid(found(), 1).is_ok());
    assert!(matches!(owned_grid(found(), 2), Err(AppError::NotFound)));
    assert!(matches!(owned_grid(Ok(None), 1), Err(AppError::NotFound)));
    assert!(matches!(owned_grid(Err("down".to_owned()), 1), Err(AppError::Database(_))));
}

fn locked(step: EditStep, g: UserGrid) -> EditStep {
    let first = match step {
        EditStep::Find(editing) => editing.found(Ok(Some(g.clone()))),
        _ => panic!("not looked for"),
    };
    let editing: Editing = match first {
        EditStep::Lock(symbol, editing) => {
            assert_eq!(symbol, g.symbol);
            editing
        }
        _ => panic!("not locked"),
    };
    match editing.locked() {
        EditStep::FindLocked(editing) => editing.found_locked(Ok(Some(g))),
        _ => panic!("not read again"),
    }
}

fn wish() -> UpdateGridRequest {
    UpdateGridRequest {
        amount: d("1"),
        buy_price: d("2"),
        sell_price: d("3"),
        side: "sell".to_owned(),
    }
}

#[test]
fn an_edit_cancels_the_order_first() {
    let open = || grid(5, "BTCUSDT", "open", Some("77"));
    let cancel = || match locked(update_grid(5, 1, wish()), open()) {
        EditStep::CancelOrder(cancel) => cancel,
        _ => panic!("not cancelled"),
    };
    assert_eq!((cancel().symbol.as_str(), cancel().order_id), ("BTCUSDT", 77));
    for reply in [Ok(()), Err(api(-2011)), Err(api(-2013))] {
        match cancel().resume(reply) {
            EditStep::Write(Write::Update { id, user_id, update }) => {
                assert_eq!((id, user_id), (5, 1));
                assert_eq!(update.sell_price, d("3"));
            }
            _ => panic!("not written"),
        }
    }
    match cancel().resume(Err(api(-1))) {
        EditStep::Failed(AppError::Internal(reason)) => {
            assert_eq!(reason, "grid_id=5 撤单失败，保留数据库订单追踪: Binance API 错误 -1: no")
        }
        _ => panic!("written"),
    }
}

#[test]
fn grids_without_an_order_are_written_at_once() {
    let step = locked(delete_grid(5, 1), grid(5, "BTCUSDT", "new", Some("77")));
    assert!(matches!(step, EditStep::Write(Write::Delete { id: 5 })));
    let step = locked(delete_grid(5, 1), grid(5, "BTCUSDT", "open", None));
    assert!(matches!(step, EditStep::Write(Write::Delete { id: 5 })));
    let reason_of = |order_id: &str| {
        match locked(delete_grid(5, 1), grid(5, "BTCUSDT", "open", Some(order_id))) {
            EditStep::Failed(AppError::Internal(reason)) => reason,
            _ => panic!("written"),
        }
    };
    for bad in ["x", "", "-", "12a", "9223372036854775808", "-9223372036854775809"] {
        let failure = bad.parse::<i64>().unwrap_err().to_string();
        assert_eq!(reason_of(bad), format!("grid_id=5 存储了非法 order_id={bad}: {failure}"));
    }
    assert_eq!(
        reason_of("x"),
        "grid_id=5 存储了非法 order_id=x: invalid digit found in string"
    );
    assert_eq!(bad_order(-3, "7", "why"), "grid_id=-3 存储了非法 order_id=7: why");
}

#[test]
fn pausing_is_turned_on_and_off() {
    let running = grid(5, "BTCUSDT", "open", Some("77"));
    let mut idle = running.clone();
    idle.is_paused = true;
    let step = locked(toggle_grid_pause(5, 1), idle);
    assert!(matches!(step, EditStep::Write(Write::Resume { id: 5 })));
    match locked(toggle_grid_pause(5, 1), running) {
        EditStep::CancelOrder(cancel) => assert!(matches!(
            cancel.resume(Ok(())),
            EditStep::Write(Write::Pause { id: 5 })
        )),
        _ => panic!("not cancelled"),
    }
}

#[test]
fn an_edit_ends_with_what_was_written() {
    let delete = Write::Delete { id: 5 };
    assert!(matches!(delete.resume(Ok(true)), EditStep::Done(EditAnswer::Nothing)));
    assert!(matches!(delete.resume(Ok(false)), EditStep::Failed(AppError::NotFound)));
    assert!(matches!(
        delete.resume(Err("down".to_owned())),
        EditStep::Failed(AppError::Database(_))
    ));
    let pause = Write::Pause { id: 5 };
    assert!(matches!(pause.resume(Ok(false)), EditStep::Done(EditAnswer::Paused(true))));
    let resume = Write::Resume { id: 5 };
    assert!(matches!(resume.resume(Ok(true)), EditStep::Done(EditAnswer::Paused(false))));
    let mut bad = wish();
    bad.amount = d("0");
    match update_grid(5, 1, bad) {
        EditStep::Failed(e) => assert_eq!(words(&e), "amount 必须大于 0"),
        _ => panic!("accepted"),
    }
    match delete_grid(5, 2) {
        EditStep::Find(editing) => assert!(matches!(
            editing.found(Ok(Some(grid(5, "BTCUSDT", "new", None)))),
            EditStep::Failed(AppError::NotFound)
        )),
        _ => panic!("not looked for"),
    }
}

#[test]
fn grids_are_shown_by_symbol() {
    let grids = vec![
        grid(1, "ETHUSDT", "new", None),
        grid(2, "BTCUSDT", "new", None),
        grid(3, "ETHUSDT", "new", None),
        grid(4, "ADAUSDT", "new", None),
    ];
    let groups = get_grids(&grids);
    let shown: Vec<(&str, Vec<i32>)> = groups
        .iter()
        .map(|g| (g.name.as_str(), g.grid.iter().map(|g| g.id).collect()))
        .collect();
    assert_eq!(
        shown,
        [("ADAUSDT", vec![4]), ("BTCUSDT", vec![2]), ("ETHUSDT", vec![1, 3])]
    );
    assert!(get_grids(&vec![]).is_empty());
}

fn center(symbol: &str, grid_count: u32, spacing: &str) -> CenterStep {
    auto_center_grids(
        1,
        AutoCenterRequest { symbol: symbol.to_owned(), grid_count, spacing: d(spacing) },
    )
}

#[test]
fn a_wish_for_grids_has_to_be_in_order() {
    let refused = |step| match step {
        CenterStep::Failed(e) => words(&e),
        _ => panic!("accepted"),
    };
    assert_eq!(refused(center("", 5, "1")), "symbol 不能为空");
    assert_eq!(refused(center("BTCUSDT", 0, "1")), "grid_count 必须在 1-20 之间");
    assert_eq!(refused(center("BTCUSDT", 21, "1")), "grid_count 必须在 1-20 之间");
    assert_eq!(refused(center("BTCUSDT", 20, "0")), "spacing 必须大于 0");
    assert_eq!(refused(center("BTCEUR", 20, "1")), "无法解析 symbol 的 base/quote: BTCEUR");
}

fn plan(grid_count: u32, spacing: &str) -> CenterPlan {
    match center("BTCUSDT", grid_count, spacing) {
        CenterStep::Lock(plan) => match plan.locked() {
            CenterStep::CancelAll(plan) => match plan.cancelled(Ok(())) {
                CenterStep::Settle(plan) => match plan.settled() {
                    CenterStep::Gather(plan) => plan,
                    _ => panic!("nothing is looked up"),
                },
                _ => panic!("no pause"),
            },
            _ => panic!("not cancelled"),
        },
        _ => panic!("refused"),
    }
}

fn known(base: &str, quote: &str, price: &str) -> Gathered {
    Gathered {
        base: d(base),
        quote: d(quote),
        price: d(price),
        filters: SymbolFilters {
            step_size: d("0.01"),
            min_qty: d("0.01"),
            tick_size: d("0.1"),
            min_notional: d("5"),
        },
    }
}

#[test]
fn grids_are_laid_out_round_the_price() {
    let replace = match plan(4, "10").gathered(Ok(known("1", "95", "95"))) {
        CenterStep::ReplaceAuto(replace) => replace,
        CenterStep::Failed(e) => panic!("{e:?}"),
        _ => panic!("not replaced"),
    };
    assert_eq!((replace.user_id, replace.symbol.as_str()), (1, "BTCUSDT"));
    let prices: Vec<String> = replace.grids.iter().map(|g| g.buy_price.to_text()).collect();
    assert_eq!(prices, ["100", "110", "90", "80"]);
    match replaced(replace.counts, replace.price, Ok(vec![1, 2, 3, 4])) {
        CenterStep::Done(answer) => {
            assert_eq!(answer.ids, [1, 2, 3, 4]);
            assert_eq!((answer.sell_count, answer.buy_count), (2, 2));
            assert_eq!(answer.current_price, "95");
            assert_eq!(d(&answer.sell_amount), d("0.5"));
            assert_eq!(d(&answer.buy_amount), d("47.5"));
        }
        _ => panic!("not done"),
    }
    let down = replaced(replace.counts, replace.price, Err("down".to_owned()));
    assert!(matches!(down, CenterStep::Failed(AppError::Database(_))));
}

#[test]
fn grids_that_cannot_be_laid_out_are_refused() {
    match plan(4, "10").gathered(Ok(known("0", "1", "95"))) {
        CenterStep::Failed(e) => assert_eq!(words(&e), "账户余额不足以建仓：BTC=0, USDT=1"),
        _ => panic!("accepted"),
    }
    match plan(4, "50").gathered(Ok(known("0", "400", "95"))) {
        CenterStep::Failed(e) => {
            assert_eq!(words(&e), "当前 spacing、余额与价格会生成无效网格，请减小 spacing 或格子数量")
        }
        _ => panic!("accepted"),
    }
    let mut huge = known("0", "400", "2");
    huge.base = Decimal::new(MAX_MANTISSA, 0).unwrap();
    assert!(matches!(plan(4, "10").gathered(Ok(huge)), CenterStep::Overflow));
    let failed = plan(4, "10").gathered(Err(EngineError::Exchange(api(-1))));
    assert!(matches!(
        failed,
        CenterStep::Failed(AppError::Internal(reason)) if reason == "Binance API 错误 -1: no"
    ));
    match center("BTCUSDT", 4, "10") {
        CenterStep::Lock(p) => match p.cancelled(Err(api(-1))) {
            CenterStep::Failed(AppError::Internal(reason)) => {
                assert_eq!(reason, "撤单失败，中止自动居中: Binance API 错误 -1: no")
            }
            _ => panic!("went on"),
        },
        _ => panic!("refused"),
    }
}

fn symbol(text: &str) -> PauseResumeRequest {
    PauseResumeRequest { symbol: text.to_owned() }
}

#[test]
fn pausing_cancels_the_orders_first() {
    let cancel = || match pause_grids(1, symbol("BTCUSDT")) {
        PauseStep::Lock(next) => match next.locked() {
            PauseStep::CancelAll(next) => next,
            _ => panic!("not cancelled"),
        },
        _ => panic!("refused"),
    };
    assert!(matches!(cancel().cancelled(Ok(())), PauseStep::Pause(_)));
    match cancel().cancelled(Err(api(-1))) {
        PauseStep::Failed(AppError::Internal(reason)) => {
            assert_eq!(reason, "撤单失败，中止暂停: Binance API 错误 -1: no")
        }
        _ => panic!("paused"),
    }
    assert!(matches!(paused(Ok(3)), PauseStep::Done(3)));
    assert!(matches!(paused(Err("down".to_owned())), PauseStep::Failed(AppError::Database(_))));
    match pause_grids(1, symbol("")) {
        PauseStep::Failed(e) => assert_eq!(words(&e), "symbol 不能为空"),
        _ => panic!("accepted"),
    }
}

#[test]
fn resuming_is_taken_back_if_trading_fails() {
    let begin = || match resume_grids(1, symbol("BTCUSDT")) {
        ResumeStep::Resume(next) => next,
        _ => panic!("refused"),
    };
    match begin().resumed(Ok(0)) {
        ResumeStep::Done(0, Some(message)) => assert_eq!(message, "没有找到已暂停的网格"),
        _ => panic!("went on"),
    }
    let process = || match begin().resumed(Ok(2)) {
        ResumeStep::Process(next, 2) => next,
        _ => panic!("not traded"),
    };
    assert!(matches!(process().processed(2, Ok(())), ResumeStep::Done(2, None)));
    let down = EngineError::Database("down".to_owned());
    match process().processed(2, Err(down)) {
        ResumeStep::MarkPaused(next, failure) => {
            assert_eq!((next.user_id, next.symbol.as_str()), (1, "BTCUSDT"));
            match marked(failure, Ok(2)) {
                ResumeStep::Failed(AppError::Internal(reason)) => {
                    assert_eq!(reason, "恢复失败：down")
                }
                _ => panic!("not failed"),
            }
        }
        _ => panic!("not taken back"),
    }
    assert!(matches!(resume_grids(1, symbol("")), ResumeStep::Failed(AppError::BadRequest(_))));
}

#[test]
fn the_configuration_is_checked() {
    assert_eq!(default_port(), 3000);
    assert_eq!(default_bind_addr(), "127.0.0.1");
    assert_eq!(check_jwt_secret(&"x".repeat(32)), Ok(()));
    assert_eq!(
        check_jwt_secret("short"),
        Err("JWT_SECRET 长度须 >= 32 字符（当前 5 字符），请在 .env 中更新".to_owned())
    );
    assert_eq!(check_owners(0), Ok(()));
    assert_eq!(check_owners(1), Ok(()));
    assert_eq!(
        check_owners(2),
        Err("检测到 2 个不同用户持有网格，但本系统共用单套 Binance 密钥。请清理多余账号的网格后再启动，否则他人的网格会动用你的资金。".to_owned())
    );
    assert!(is_local("127.0.0.1") && is_local("localhost") && !is_local("0.0.0.0"));
    assert_eq!(listen_addr("127.0.0.1", 3000), "127.0.0.1:3000");
}
