//! Pausing all of a user's grids for a symbol, and letting them be traded again.

use crate::engine::error::{engine_error_text, EngineError};
use crate::exchange::error::{error_text, BinanceError};
use crate::text::join;
use crate::web::account::bad_request;
use crate::web::error::AppError;
use vstd::prelude::*;

verus! {

/// A wish to pause the grids of a symbol, or to let them be traded again.
#[derive(Debug)]
pub struct PauseResumeRequest {
    pub symbol: String,
}

/// A user and a symbol.
#[derive(Debug)]
pub struct UserSymbol {
    pub user_id: i32,
    pub symbol: String,
}

/// Where pausing stands.
pub enum PauseStep {
    /// The symbol is to be locked.
    Lock(UserSymbol),
    /// All orders of the symbol are to be cancelled.
    CancelAll(UserSymbol),
    /// The grids are to be paused, without their orders.
    Pause(UserSymbol),
    /// So many grids are paused.
    Done(u64),
    /// It failed.
    Failed(AppError),
}

/// Begins to pause the grids of a symbol.
pub fn pause_grids(user_id: i32, req: PauseResumeRequest) -> (r: PauseStep)
    ensures
        if req.symbol@.len() == 0 {
            r matches PauseStep::Failed(e) && bad_request(e, "symbol 不能为空"@)
        } else {
            r == PauseStep::Lock(UserSymbol { user_id, symbol: req.symbol })
        },
{
    if req.symbol.as_str().unicode_len() == 0 {
        return PauseStep::Failed(AppError::BadRequest("symbol 不能为空".to_owned()));
    }
    PauseStep::Lock(UserSymbol { user_id, symbol: req.symbol })
}

impl UserSymbol {
    /// Goes on when the symbol is locked.
    pub fn locked(self) -> (r: PauseStep)
        ensures
            r == PauseStep::CancelAll(self),
    {
        PauseStep::CancelAll(self)
    }

    /// Goes on with whether the orders were cancelled. If they were not, the rows keep the
    /// trace of them.
    pub fn cancelled(self, reply: Result<(), BinanceError>) -> (r: PauseStep)
        ensures
            match reply {
                Ok(()) => r == PauseStep::Pause(self),
                Err(e) => r matches PauseStep::Failed(AppError::Internal(reason)) && reason@
                    == "撤单失败，中止暂停: "@ + error_text(e),
            },
    {
        match reply {
            Ok(()) => PauseStep::Pause(self),
            Err(e) => PauseStep::Failed(
                AppError::Internal(join("撤单失败，中止暂停: ", e.to_text().as_str())),
            ),
        }
    }
}

/// Ends pausing, with the number of grids that were paused.
pub fn paused(reply: Result<u64, String>) -> (r: PauseStep)
    ensures
        r == match reply {
            Ok(count) => PauseStep::Done(count),
            Err(reason) => PauseStep::Failed(AppError::Database(reason)),
        },
{
    match reply {
        Ok(count) => PauseStep::Done(count),
        Err(reason) => PauseStep::Failed(AppError::Database(reason)),
    }
}

/// Where letting grids be traded again stands.
pub enum ResumeStep {
    /// The grids are to be unmarked.
    Resume(UserSymbol),
    /// So many grids were unmarked: the symbol is to be traded at once.
    Process(UserSymbol, u64),
    /// Trading failed: the grids are to be marked as paused again. Orders may have been
    /// placed for some of them, so status and order stay.
    MarkPaused(UserSymbol, AppError),
    /// So many grids are traded again.
    Done(u64, Option<String>),
    /// It failed.
    Failed(AppError),
}

/// Begins to let the grids of a symbol be traded again.
pub fn resume_grids(user_id: i32, req: PauseResumeRequest) -> (r: ResumeStep)
    ensures
        if req.symbol@.len() == 0 {
            r matches ResumeStep::Failed(e) && bad_request(e, "symbol 不能为空"@)
        } else {
            r == ResumeStep::Resume(UserSymbol { user_id, symbol: req.symbol })
        },
{
    if req.symbol.as_str().unicode_len() == 0 {
        return ResumeStep::Failed(AppError::BadRequest("symbol 不能为空".to_owned()));
    }
    ResumeStep::Resume(UserSymbol { user_id, symbol: req.symbol })
}

impl UserSymbol {
    /// Goes on with the number of grids that were unmarked.
    pub fn resumed(self, reply: Result<u64, String>) -> (r: ResumeStep)
        ensures
            match reply {
                Err(reason) => r == ResumeStep::Failed(AppError::Database(reason)),
                Ok(count) => if count == 0 {
                    r matches ResumeStep::Done(n, Some(message)) && n == 0 && message@
                        == "没有找到已暂停的网格"@
                } else {
                    r == ResumeStep::Process(self, count)
                },
            },
    {
        match reply {
            Err(reason) => ResumeStep::Failed(AppError::Database(reason)),
            Ok(count) => if count == 0 {
                ResumeStep::Done(0, Some("没有找到已暂停的网格".to_owned()))
            } else {
                ResumeStep::Process(self, count)
            },
        }
    }

    /// Goes on with whether the symbol was traded. If not, the grids are paused again
    /// before the failure is reported.
    pub fn processed(self, count: u64, reply: Result<(), EngineError>) -> (r: ResumeStep)
        ensures
            match reply {
                Ok(()) => r == ResumeStep::Done(count, None),
                Err(e) => r matches ResumeStep::MarkPaused(next, AppError::Internal(reason))
                    && next == self && reason@ == "恢复失败："@ + engine_error_text(e),
            },
    {
        match reply {
            Ok(()) => ResumeStep::Done(count, None),
            Err(e) => {
                let reason = join("恢复失败：", e.to_text().as_str());
                ResumeStep::MarkPaused(self, AppError::Internal(reason))
            },
        }
    }
}

/// Reports the failure, whether or not the grids could be marked.
pub fn marked(failure: AppError, _reply: Result<u64, String>) -> (r: ResumeStep)
    ensures
        r == ResumeStep::Failed(failure),
{
    ResumeStep::Failed(failure)
}

/// A user's grids for a symbol are paused only when all orders of the symbol were cancelled, and
/// they are the grids of that user and that symbol.
pub proof fn law_orders_are_cancelled_before_grids_are_paused(
    user_id: i32,
    req: PauseResumeRequest,
    begun: PauseStep,
    plan: UserSymbol,
    reply: Result<(), BinanceError>,
    r: PauseStep,
)
    requires
        call_ensures(pause_grids, (user_id, req), begun),
        call_ensures(UserSymbol::cancelled, (plan, reply), r),
    ensures
        begun matches PauseStep::Lock(next) ==> next.user_id == user_id && next.symbol@
            == req.symbol@,
        begun is Lock || begun is Failed,
        begun is Lock <==> req.symbol@.len() > 0,
        r == PauseStep::Pause(plan) <==> reply is Ok,
        r == PauseStep::Pause(plan) || r is Failed,
{
}

/// Grids that are traded again and cannot be traded at once are marked as paused again, the same
/// user's and symbol's, before the failure is reported.
pub proof fn law_grids_that_cannot_be_traded_are_paused_again(
    plan: UserSymbol,
    count: u64,
    reply: Result<(), EngineError>,
    r: ResumeStep,
)
    requires
        call_ensures(UserSymbol::processed, (plan, count, reply), r),
    ensures
        reply is Ok ==> r == ResumeStep::Done(count, None),
        reply is Err ==> (r matches ResumeStep::MarkPaused(next, _) && next == plan),
{
}

/// Grids that were unmarked are traded at once, and as many as were unmarked; if there was none
/// nothing is traded.
pub proof fn law_resumed_grids_are_traded_at_once(
    user_id: i32,
    req: PauseResumeRequest,
    begun: ResumeStep,
    plan: UserSymbol,
    count: u64,
    r: ResumeStep,
)
    requires
        call_ensures(resume_grids, (user_id, req), begun),
        call_ensures(UserSymbol::resumed, (plan, Ok::<u64, String>(count)), r),
    ensures
        begun matches ResumeStep::Resume(next) ==> next.user_id == user_id && next.symbol@
            == req.symbol@,
        begun is Resume <==> req.symbol@.len() > 0,
        count > 0 ==> r == ResumeStep::Process(plan, count),
        count == 0 ==> (r matches ResumeStep::Done(n, _) && n == 0),
{
}

} // verus!
