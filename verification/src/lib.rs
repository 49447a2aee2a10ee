//! Order execution for a Hyperliquid trading engine: admission, throttling,
//! signing, reply parsing and position bookkeeping, each with a proved contract.
pub mod action;
pub mod binary64;
pub mod book_laws;
pub mod bracket;
pub mod call_laws;
pub mod clock;
pub mod decision_laws;
pub mod encoding_laws;
pub mod engine;
pub mod error;
pub mod history_laws;
pub mod json;
pub mod number_laws;
pub mod operation_laws;
pub mod order;
pub mod pricing;
pub mod record_laws;
pub mod replies;
pub mod reply_laws;
pub mod request_laws;
pub mod requests;
pub mod signing;
pub mod signing_laws;
pub mod state;
pub mod state_laws;
pub mod tables;
pub mod text;
pub mod text_laws;
pub mod throttle;
pub mod trade_ring;
pub mod wire;
pub mod wire_laws;
