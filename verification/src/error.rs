//! Why a submission did not go through.
use crate::replies::{excerpt, excerpt_defined, FillError, FillErrorView};
use crate::signing::{SignError, SignErrorView};
use crate::text::{decimal, push_decimal};
use vstd::prelude::*;
use vstd::string::StringExecFns;

verus! {

#[derive(Debug)]
pub enum ExecError {
    /// The kill switch is on.
    KillSwitch,
    /// No token was left in the throttle's window.
    Throttled,
    /// The order's value exceeds what one trade may risk.
    RiskSize,
    /// Nothing is left of the quantity once it is rounded to the lot size, which
    /// is given as it is displayed.
    InvalidSize(String),
    /// The order book leans the other way.
    ImbalanceFilter,
    /// The simulated account did not open the position.
    SimNoFill,
    /// The exchange did not answer within the given number of milliseconds.
    Timeout(u64),
    /// The order could not be signed.
    Sign(SignError),
    /// The exchange's answer reports no fill.
    Fill(FillError),
    /// The request could not be sent, or its answer not be read.
    Transport(String),
}

/// What an `ExecError` says.
pub enum ExecErrorView {
    KillSwitch,
    Throttled,
    RiskSize,
    InvalidSize(Seq<char>),
    ImbalanceFilter,
    SimNoFill,
    Timeout(u64),
    Sign(SignErrorView),
    Fill(FillErrorView),
    Transport(Seq<char>),
}

impl View for ExecError {
    type V = ExecErrorView;

    open spec fn view(&self) -> ExecErrorView {
        match self {
            ExecError::KillSwitch => ExecErrorView::KillSwitch,
            ExecError::Throttled => ExecErrorView::Throttled,
            ExecError::RiskSize => ExecErrorView::RiskSize,
            ExecError::InvalidSize(lot_size) => ExecErrorView::InvalidSize(lot_size@),
            ExecError::ImbalanceFilter => ExecErrorView::ImbalanceFilter,
            ExecError::SimNoFill => ExecErrorView::SimNoFill,
            ExecError::Timeout(ms) => ExecErrorView::Timeout(*ms),
            ExecError::Sign(e) => ExecErrorView::Sign(e@),
            ExecError::Fill(e) => ExecErrorView::Fill(e@),
            ExecError::Transport(cause) => ExecErrorView::Transport(cause@),
        }
    }
}

impl ExecErrorView {
    /// Does the message quote the exchange's answer?
    pub open spec fn quotes_reply(self) -> bool {
        self is Fill && self->Fill_0.quotes_reply()
    }

    /// The error's message; `raw` is the beginning of the exchange's answer, which
    /// some messages quote.
    pub open spec fn message(self, raw: Seq<char>) -> Seq<char> {
        match self {
            ExecErrorView::KillSwitch => "KS"@,
            ExecErrorView::Throttled => "THROTTLE"@,
            ExecErrorView::RiskSize => "RISK_SIZE"@,
            ExecErrorView::InvalidSize(lot_size) =>
                "INVALID_SIZE: rounded qty is zero for lot_size="@ + lot_size,
            ExecErrorView::ImbalanceFilter => "OB_IMBALANCE_FILTER"@,
            ExecErrorView::SimNoFill => "SIM_NO_FILL: max positions or insufficient balance"@,
            ExecErrorView::Timeout(ms) => "TIMEOUT_"@ + decimal(ms as nat) + "ms"@,
            ExecErrorView::Sign(e) => e.message(),
            ExecErrorView::Fill(e) => e.message(raw),
            ExecErrorView::Transport(cause) => cause,
        }
    }
}

impl ExecError {
    pub fn message(&self, raw: &str) -> (r: String)
        ensures
            r@ == self@.message(raw@),
    {
        match self {
            ExecError::KillSwitch => "KS".to_owned(),
            ExecError::Throttled => "THROTTLE".to_owned(),
            ExecError::RiskSize => "RISK_SIZE".to_owned(),
            ExecError::InvalidSize(lot_size) =>
                "INVALID_SIZE: rounded qty is zero for lot_size=".to_owned().concat(
                lot_size.as_str(),
            ),
            ExecError::ImbalanceFilter => "OB_IMBALANCE_FILTER".to_owned(),
            ExecError::SimNoFill =>
                "SIM_NO_FILL: max positions or insufficient balance".to_owned(),
            ExecError::Timeout(ms) => {
                let mut out: String = "TIMEOUT_".to_owned();
                push_decimal(&mut out, *ms);
                out.append("ms");
                out
            },
            ExecError::Sign(e) => e.message(),
            ExecError::Fill(e) => e.message(raw),
            ExecError::Transport(cause) => cause.clone(),
        }
    }

    pub fn quotes_reply(&self) -> (r: bool)
        ensures
            r == self@.quotes_reply(),
    {
        match self {
            ExecError::Fill(e) => e.quotes_reply(),
            _ => false,
        }
    }

    /// The error's message, for an order that the exchange answered with `reply`.
    pub fn describe(&self, reply: &[u8]) -> (r: String)
        requires
            self@.quotes_reply() ==> excerpt_defined(reply@),
        ensures
            r@ == self@.message(excerpt(reply@)),
    {
        match self {
            ExecError::Fill(e) => e.describe(reply),
            _ => self.message(""),
        }
    }
}

} // verus!
