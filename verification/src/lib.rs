//! A verified billing engine for recurring subscriptions.
//!
//! Merchants register, publish plans, and subscribers join plans; each billing
//! cycle charges the plan amount, and missed payments move a subscription
//! through a grace period towards failure once the plan's retry limit is
//! reached. The engine is a state machine over plain values: everything the
//! host supplies (the current time, the payer's token balance) is an argument,
//! and everything the host must carry out (token transfers, published events)
//! is recorded in the state for the host to drain.

pub mod engine;
pub mod errors;
pub mod laws;
pub mod state;
pub mod types;

pub use engine::SubscriptionEngine;
pub use errors::ContractError;
pub use state::EngineState;
pub use types::{
    AccountId, Event, Merchant, PaymentRecord, Subscriber, SubscriptionPlan, SubscriptionStatus,
    Transfer,
};
