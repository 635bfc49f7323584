use vstd::prelude::*;

verus! {

/// Identifies an account (a merchant, a subscriber, a treasury wallet or a
/// token contract).
pub type AccountId = u64;

/// Where a subscription stands in its billing life cycle.
#[derive(Clone, Copy, PartialEq, Eq, Debug, Structural)]
pub enum SubscriptionStatus {
    Active,
    Paused,
    Cancelled,
    GracePeriod,
    Failed,
}

/// A registered merchant. Its identity is the wallet it registered with.
#[derive(Debug)]
pub struct Merchant {
    pub merchant_id: AccountId,
    pub name: String,
    pub treasury_wallet: AccountId,
    pub active: bool,
    pub created_at: u64,
}

impl Clone for Merchant {
    fn clone(&self) -> (r: Self)
        ensures
            r == *self,
    {
        Merchant {
            merchant_id: self.merchant_id,
            name: self.name.clone(),
            treasury_wallet: self.treasury_wallet,
            active: self.active,
            created_at: self.created_at,
        }
    }
}

/// A billing plan: `amount` of `token` every `interval` seconds.
#[derive(Debug)]
pub struct SubscriptionPlan {
    pub plan_id: u64,
    pub merchant_id: AccountId,
    pub name: String,
    pub amount: i128,
    pub token: AccountId,
    pub interval: u64,
    pub grace_period: u64,
    pub retry_limit: u32,
    pub active: bool,
}

impl Clone for SubscriptionPlan {
    fn clone(&self) -> (r: Self)
        ensures
            r == *self,
    {
        SubscriptionPlan {
            plan_id: self.plan_id,
            merchant_id: self.merchant_id,
            name: self.name.clone(),
            amount: self.amount,
            token: self.token,
            interval: self.interval,
            grace_period: self.grace_period,
            retry_limit: self.retry_limit,
            active: self.active,
        }
    }
}

/// The subscription of one account to one plan.
#[derive(Clone, Copy, PartialEq, Eq, Debug, Structural)]
pub struct Subscriber {
    pub subscriber: AccountId,
    pub plan_id: u64,
    pub next_billing_at: u64,
    pub status: SubscriptionStatus,
    pub retries: u32,
    pub started_at: u64,
}

/// One charge attempt that was recorded in the payment log.
#[derive(Clone, Copy, PartialEq, Eq, Debug, Structural)]
pub struct PaymentRecord {
    pub payment_id: u64,
    pub subscriber: AccountId,
    pub merchant: AccountId,
    pub amount: i128,
    pub timestamp: u64,
    pub success: bool,
}

/// A token transfer that the host must carry out: `amount` of `token` from
/// `from` to `to`.
#[derive(Clone, Copy, PartialEq, Eq, Debug, Structural)]
pub struct Transfer {
    pub token: AccountId,
    pub from: AccountId,
    pub to: AccountId,
    pub amount: i128,
}

/// A notification for off-chain indexers.
#[derive(Clone, Copy, PartialEq, Eq, Debug, Structural)]
pub enum Event {
    MerchantRegistered { merchant: AccountId },
    PlanCreated { merchant: AccountId, plan_id: u64 },
    Subscribed { subscriber: AccountId, plan_id: u64, next_billing: u64 },
    PaymentSuccess { subscriber: AccountId, amount: i128, timestamp: u64 },
    PaymentFailed { subscriber: AccountId, plan_id: u64, retries: u32 },
    SubscriptionPaused { subscriber: AccountId, plan_id: u64 },
    SubscriptionResumed { subscriber: AccountId, plan_id: u64 },
    SubscriptionCancelled { subscriber: AccountId, plan_id: u64 },
    RetryAttempted { subscriber: AccountId, plan_id: u64, attempt: u32 },
}

} // verus!
