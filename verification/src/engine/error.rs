//! Why a turn of the engine fails.

use crate::decimal::Decimal;
use crate::exchange::error::{error_text, BinanceError};
use crate::exchange::types::OrderSide;
use crate::text::{i64_text, int_text};
use vstd::prelude::*;

verus! {

/// Why a turn of the engine fails.
#[derive(Debug)]
pub enum EngineError {
    /// A result is too large, or a divisor is zero, where nothing can be done about it.
    Overflow,
    /// A name has no meaning.
    Unknown(String),
    /// The price, brought down to a multiple of the tick, is nothing.
    PriceIsZero { grid_id: i32 },
    /// The amount cannot be turned into a quantity.
    NoQuantity { grid_id: i32 },
    /// The quantity, brought down to a multiple of the step, is nothing.
    QuantityIsZero {
        grid_id: i32,
        side: OrderSide,
        amount: Decimal,
        price: Decimal,
        step: Decimal,
    },
    /// The exchange would refuse the order.
    Refused { grid_id: i32, reason: String },
    /// The exchange could not be asked.
    Exchange(BinanceError),
    /// The exchange could not be asked, for this.
    Context(String, BinanceError),
    /// An order could not be placed, and whether it was could not be found out.
    RecoveryFailed { place: BinanceError, recovery: BinanceError },
    /// The number of an order cannot be read.
    BadOrderId { grid_id: i32, order_id: String },
    /// A filled buy cannot be turned into a quantity.
    NoBuyPrice { grid_id: i32 },
    /// The assets of a symbol are not known.
    UnknownAssets { symbol: String },
    /// There is no grid to lay out anew.
    NoActiveGrids { symbol: String },
    /// No grids can be laid out.
    NoLayout { symbol: String },
    /// The table could not be read or written.
    Database(String),
}

/// The name of a side in a message.
pub open spec fn side_name(side: OrderSide) -> Seq<char> {
    match side {
        OrderSide::Buy => "Buy"@,
        OrderSide::Sell => "Sell"@,
    }
}

/// The wording of an error.
pub open spec fn engine_error_text(e: EngineError) -> Seq<char> {
    match e {
        EngineError::Overflow => "数值溢出"@,
        EngineError::Unknown(reason) => reason@,
        EngineError::PriceIsZero { grid_id } => "grid_id="@ + int_text(grid_id as int)
            + " 价格取整后为零，跳过"@,
        EngineError::NoQuantity { grid_id } => "grid_id="@ + int_text(grid_id as int)
            + " 价格为零，无法换算数量，跳过"@,
        EngineError::QuantityIsZero { grid_id, side, amount, price, step } =>
            "计算得到挂单数量为零，跳过 grid_id="@ + int_text(grid_id as int) + " side="@
            + side_name(side) + " amount="@ + amount.text() + " price="@ + price.text() + " step="@
            + step.text(),
        EngineError::Refused { grid_id, reason } => "grid_id="@ + int_text(grid_id as int)
            + " 不满足交易所下单约束："@ + reason@,
        EngineError::Exchange(source) => error_text(source),
        EngineError::Context(what, _) => what@,
        EngineError::RecoveryFailed { place, recovery } =>
            "下单失败且按 client_order_id 恢复失败；place="@ + error_text(place) + "; recovery="@
            + error_text(recovery),
        EngineError::BadOrderId { grid_id, order_id } => "grid "@ + int_text(grid_id as int)
            + " 存储了无法解析的 order_id: "@ + order_id@,
        EngineError::NoBuyPrice { grid_id } => "grid_id="@ + int_text(grid_id as int)
            + " buy_price 为零，无法换算翻转数量"@,
        EngineError::UnknownAssets { symbol } => "无法解析 symbol 的 base/quote: "@ + symbol@,
        EngineError::NoActiveGrids { symbol } => "没有活跃的网格: "@ + symbol@,
        EngineError::NoLayout { symbol } => symbol@
            + " 当前 spacing、余额与锚点会生成非正价格或零金额网格"@,
        EngineError::Database(reason) => reason@,
    }
}

/// A piece of text, a number and another piece of text.
fn around(before: &str, number: i32, after: &str) -> (r: String)
    ensures
        r@ == before@ + int_text(number as int) + after@,
{
    let mut r = before.to_owned();
    r.append(i64_text(number as i64).as_str());
    r.append(after);
    r
}

impl EngineError {
    /// The error in words.
    pub fn to_text(&self) -> (r: String)
        ensures
            r@ == engine_error_text(*self),
    {
        match self {
            EngineError::Overflow => "数值溢出".to_owned(),
            EngineError::Unknown(reason) => reason.clone(),
            EngineError::PriceIsZero { grid_id } => around(
                "grid_id=",
                *grid_id,
                " 价格取整后为零，跳过",
            ),
            EngineError::NoQuantity { grid_id } => around(
                "grid_id=",
                *grid_id,
                " 价格为零，无法换算数量，跳过",
            ),
            EngineError::QuantityIsZero { grid_id, side, amount, price, step } => {
                let mut r = around("计算得到挂单数量为零，跳过 grid_id=", *grid_id, " side=");
                r.append(
                    match side {
                        OrderSide::Buy => "Buy",
                        OrderSide::Sell => "Sell",
                    },
                );
                r.append(" amount=");
                r.append(amount.to_text().as_str());
                r.append(" price=");
                r.append(price.to_text().as_str());
                r.append(" step=");
                r.append(step.to_text().as_str());
                r
            },
            EngineError::Refused { grid_id, reason } => {
                let mut r = around("grid_id=", *grid_id, " 不满足交易所下单约束：");
                r.append(reason.as_str());
                r
            },
            EngineError::Exchange(source) => source.to_text(),
            EngineError::Context(what, _) => what.clone(),
            EngineError::RecoveryFailed { place, recovery } => {
                let mut r = "下单失败且按 client_order_id 恢复失败；place=".to_owned();
                r.append(place.to_text().as_str());
                r.append("; recovery=");
                r.append(recovery.to_text().as_str());
                r
            },
            EngineError::BadOrderId { grid_id, order_id } => {
                let mut r = around("grid ", *grid_id, " 存储了无法解析的 order_id: ");
                r.append(order_id.as_str());
                r
            },
            EngineError::NoBuyPrice { grid_id } => around(
                "grid_id=",
                *grid_id,
                " buy_price 为零，无法换算翻转数量",
            ),
            EngineError::UnknownAssets { symbol } => {
                let mut r = "无法解析 symbol 的 base/quote: ".to_owned();
                r.append(symbol.as_str());
                r
            },
            EngineError::NoActiveGrids { symbol } => {
                let mut r = "没有活跃的网格: ".to_owned();
                r.append(symbol.as_str());
                r
            },
            EngineError::NoLayout { symbol } => {
                let mut r = symbol.clone();
                r.append(" 当前 spacing、余额与锚点会生成非正价格或零金额网格");
                r
            },
            EngineError::Database(reason) => reason.clone(),
        }
    }

    /// Whether the exchange found that there is not enough to pay for an order (-2010).
    pub fn is_short_of_funds(&self) -> (r: bool)
        ensures
            r == match *self {
                EngineError::Exchange(BinanceError::Api { code, .. }) => code == -2010,
                EngineError::Context(_, BinanceError::Api { code, .. }) => code == -2010,
                _ => false,
            },
    {
        match self {
            EngineError::Exchange(e) => e.has_code(-2010),
            EngineError::Context(_, e) => e.has_code(-2010),
            _ => false,
        }
    }
}

} // verus!
