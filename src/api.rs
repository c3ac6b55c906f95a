use vstd::prelude::*;

use crate::constants::MAX_PER_PAGE;
use crate::lifecycle::TradeError;
use crate::models::{ApiResponse, TradingViewAlert};

verus! {

/// The records of a listing page: how many to skip and how many to return,
/// the page size being capped at `MAX_PER_PAGE`. Pages are numbered from 1.
pub fn page_window(page: u32, per_page: u32) -> (r: (u64, u32))
    requires
        page >= 1,
    ensures
        r.1 == if per_page <= MAX_PER_PAGE {
            per_page
        } else {
            MAX_PER_PAGE
        },
        r.0 == (page - 1) * r.1,
{
    let limit: u32 = if per_page <= MAX_PER_PAGE {
        per_page
    } else {
        MAX_PER_PAGE
    };
    assert((page - 1) * limit <= 0xffff_ffff * 0xffff_ffff) by (nonlinear_arith)
        requires
            1 <= page <= 0xffff_ffff,
            limit <= 0xffff_ffff,
    ;
    let skip: u64 = ((page - 1) as u64) * (limit as u64);
    (skip, limit)
}

/// Whether the alert carries the expected secret.
pub fn secret_matches(alert: &TradingViewAlert, expected: &String) -> (r: bool)
    ensures
        r == (alert.secret@ == expected@),
{
    alert.secret == *expected
}

/// The step of an alert's handling at which the store failed.
#[derive(Debug, Clone, Copy, PartialEq, Eq, Structural)]
pub enum StoreStep {
    AddClosedTrade,
    DeleteActiveTrade,
    AddActiveTrade,
}

/// How the handling of an alert ended.
#[derive(Debug, Clone, Copy, PartialEq, Eq, Structural)]
pub enum AlertOutcome {
    /// the payload is not an alert.
    Unprocessable,
    /// the alert's secret is wrong.
    Unauthorized,
    /// a position under the alert's key already has the signal's direction.
    Ignored,
    /// a new position was opened.
    Opened,
    /// the opposite position was closed and a new one opened.
    Reversed,
    /// the alert could not be acted on.
    Rejected(TradeError),
    /// the store failed at the given step.
    StoreFailed(StoreStep),
}

/// The HTTP status code reported for an outcome.
pub open spec fn status_code_spec(outcome: AlertOutcome) -> u16 {
    match outcome {
        AlertOutcome::Unprocessable => 422,
        AlertOutcome::Unauthorized => 401,
        AlertOutcome::Ignored | AlertOutcome::Opened | AlertOutcome::Reversed => 200,
        AlertOutcome::Rejected(_) => 422,
        AlertOutcome::StoreFailed(_) => 500,
    }
}

/// The status line reported for an outcome.
pub open spec fn status_line_spec(outcome: AlertOutcome) -> Seq<char> {
    match outcome {
        AlertOutcome::Unprocessable | AlertOutcome::Rejected(_) => "422 Unprocessable Entity"@,
        AlertOutcome::Unauthorized => "401 Unauthorized"@,
        AlertOutcome::StoreFailed(_) => "500 Internal Server Error"@,
        _ => "200 OK"@,
    }
}

/// The message reported for an outcome.
pub open spec fn message_spec(outcome: AlertOutcome) -> Seq<char> {
    match outcome {
        AlertOutcome::Unprocessable => "Failed to deserialize payload."@,
        AlertOutcome::Unauthorized => "Invalid secret provided."@,
        AlertOutcome::Ignored => "Alert signal matches existing trade direction. Ignoring alert."@,
        AlertOutcome::Opened => "Opened new trade successfully."@,
        AlertOutcome::Reversed => "Closed existing trade and added to closed trades collection. Also opened new trade successfully."@,
        AlertOutcome::Rejected(TradeError::UnsupportedPair) => "Alert pair is not accepted."@,
        AlertOutcome::Rejected(TradeError::InvalidPrice) => "Alert price is out of range."@,
        AlertOutcome::Rejected(TradeError::QuantityTooSmall) => "Alert price is too high for the default trade size."@,
        AlertOutcome::Rejected(TradeError::PositionInFlight) => "Existing trade is being opened or closed."@,
        AlertOutcome::Rejected(TradeError::DuplicateId) => "Trade id is already in use."@,
        AlertOutcome::StoreFailed(StoreStep::AddClosedTrade) => "Failed to add closed trade."@,
        AlertOutcome::StoreFailed(StoreStep::DeleteActiveTrade) => "Failed to delete existing trade."@,
        AlertOutcome::StoreFailed(StoreStep::AddActiveTrade) => "Failed to open new trade."@,
    }
}

impl AlertOutcome {
    /// Returns the HTTP status code reported for this outcome.
    pub fn status_code(&self) -> (r: u16)
        ensures
            r == status_code_spec(*self),
    {
        match self {
            AlertOutcome::Unprocessable => 422,
            AlertOutcome::Unauthorized => 401,
            AlertOutcome::Ignored | AlertOutcome::Opened | AlertOutcome::Reversed => 200,
            AlertOutcome::Rejected(_) => 422,
            AlertOutcome::StoreFailed(_) => 500,
        }
    }

    /// Returns the status line reported for this outcome.
    pub fn status_line(&self) -> (r: &'static str)
        ensures
            r@ == status_line_spec(*self),
    {
        match self {
            AlertOutcome::Unprocessable | AlertOutcome::Rejected(_) => "422 Unprocessable Entity",
            AlertOutcome::Unauthorized => "401 Unauthorized",
            AlertOutcome::StoreFailed(_) => "500 Internal Server Error",
            _ => "200 OK",
        }
    }

    /// Returns the message reported for this outcome.
    pub fn message(&self) -> (r: &'static str)
        ensures
            r@ == message_spec(*self),
    {
        match self {
            AlertOutcome::Unprocessable => "Failed to deserialize payload.",
            AlertOutcome::Unauthorized => "Invalid secret provided.",
            AlertOutcome::Ignored => "Alert signal matches existing trade direction. Ignoring alert.",
            AlertOutcome::Opened => "Opened new trade successfully.",
            AlertOutcome::Reversed => "Closed existing trade and added to closed trades collection. Also opened new trade successfully.",
            AlertOutcome::Rejected(TradeError::UnsupportedPair) => "Alert pair is not accepted.",
            AlertOutcome::Rejected(TradeError::InvalidPrice) => "Alert price is out of range.",
            AlertOutcome::Rejected(TradeError::QuantityTooSmall) => "Alert price is too high for the default trade size.",
            AlertOutcome::Rejected(TradeError::PositionInFlight) => "Existing trade is being opened or closed.",
            AlertOutcome::Rejected(TradeError::DuplicateId) => "Trade id is already in use.",
            AlertOutcome::StoreFailed(StoreStep::AddClosedTrade) => "Failed to add closed trade.",
            AlertOutcome::StoreFailed(StoreStep::DeleteActiveTrade) => "Failed to delete existing trade.",
            AlertOutcome::StoreFailed(StoreStep::AddActiveTrade) => "Failed to open new trade.",
        }
    }

    /// The response sent back to the alert's sender for this outcome.
    pub fn response(&self) -> (r: ApiResponse<()>)
        ensures
            r.status@ == status_line_spec(*self),
            r.message@ == message_spec(*self),
            r.data is None,
    {
        ApiResponse { status: self.status_line(), message: self.message().to_owned(), data: None }
    }
}

} // verus!
