use vstd::prelude::*;

verus! {

/// Every way in which a request to the engine can be refused.
#[derive(Clone, Copy, PartialEq, Eq, Debug, Structural)]
pub enum ContractError {
    MerchantNotFound,
    MerchantAlreadyExists,
    MerchantInactive,
    PlanNotFound,
    PlanInactive,
    SubscriptionNotFound,
    SubscriptionNotActive,
    SubscriptionAlreadyExists,
    BillingNotDue,
    InsufficientBalance,
    RetryLimitExceeded,
    Unauthorized,
    InvalidAmount,
    InvalidInterval,
    AlreadyPaused,
    NotPaused,
    AlreadyCancelled,
}

} // verus!
