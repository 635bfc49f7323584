use vstd::prelude::*;

use crate::errors::ContractError;
use crate::types::{
    AccountId, Event, Merchant, PaymentRecord, Subscriber, SubscriptionPlan, SubscriptionStatus,
    Transfer,
};

verus! {

/// The mathematical model of the engine: every stored record, in the order in
/// which it was created, together with the events and token transfers that
/// the host has not yet drained.
///
/// Plans and payments are numbered from 1 in creation order, so the plan with
/// id `k` is `plans[k - 1]` and likewise for payments.
#[verifier::ext_equal]
pub struct EngineState {
    pub merchants: Seq<Merchant>,
    pub plans: Seq<SubscriptionPlan>,
    pub subscribers: Seq<Subscriber>,
    pub payments: Seq<PaymentRecord>,
    pub events: Seq<Event>,
    pub transfers: Seq<Transfer>,
}

/// The ids of the plans created by `merchant`, in creation order.
pub open spec fn plan_ids_of_merchant(plans: Seq<SubscriptionPlan>, merchant: AccountId) -> Seq<u64>
    decreases plans.len(),
{
    if plans.len() == 0 {
        Seq::empty()
    } else {
        let rest = plan_ids_of_merchant(plans.drop_last(), merchant);
        if plans.last().merchant_id == merchant {
            rest.push(plans.last().plan_id)
        } else {
            rest
        }
    }
}

/// The ids of the plans that `subscriber` subscribed to, in subscription order.
pub open spec fn plan_ids_of_subscriber(subs: Seq<Subscriber>, subscriber: AccountId) -> Seq<u64>
    decreases subs.len(),
{
    if subs.len() == 0 {
        Seq::empty()
    } else {
        let rest = plan_ids_of_subscriber(subs.drop_last(), subscriber);
        if subs.last().subscriber == subscriber {
            rest.push(subs.last().plan_id)
        } else {
            rest
        }
    }
}

/// A request to the engine, with the values the host supplies for it (the
/// current time, the payer's token balance). Used to state what holds of
/// every operation alike.
pub enum Request {
    RegisterMerchant { name: String, treasury_wallet: AccountId, now: u64 },
    UpdateTreasury { merchant_id: AccountId, new_treasury: AccountId },
    CreatePlan {
        merchant_id: AccountId,
        name: String,
        amount: i128,
        token: AccountId,
        interval: u64,
        grace_period: u64,
        retry_limit: u32,
    },
    UpdatePlan {
        merchant_id: AccountId,
        plan_id: u64,
        amount: i128,
        interval: u64,
        grace_period: u64,
        retry_limit: u32,
    },
    DisablePlan { merchant_id: AccountId, plan_id: u64 },
    Subscribe { subscriber: AccountId, plan_id: u64, now: u64, balance: i128 },
    ProcessPayment { subscriber: AccountId, plan_id: u64, now: u64, balance: i128 },
    PauseSubscription { subscriber: AccountId, plan_id: u64 },
    ResumeSubscription { subscriber: AccountId, plan_id: u64, now: u64 },
    CancelSubscription { subscriber: AccountId, plan_id: u64 },
}

impl EngineState {
    /// The state of a freshly deployed engine.
    pub open spec fn empty() -> Self {
        EngineState {
            merchants: Seq::empty(),
            plans: Seq::empty(),
            subscribers: Seq::empty(),
            payments: Seq::empty(),
            events: Seq::empty(),
            transfers: Seq::empty(),
        }
    }

    // ── Lookups ─────────────────────────────────────────────────────────────

    pub open spec fn is_merchant_at(self, i: int, id: AccountId) -> bool {
        0 <= i < self.merchants.len() && self.merchants[i].merchant_id == id
    }

    pub open spec fn has_merchant(self, id: AccountId) -> bool {
        exists|i: int| #[trigger] self.is_merchant_at(i, id)
    }

    pub open spec fn merchant_index(self, id: AccountId) -> int {
        choose|i: int| #[trigger] self.is_merchant_at(i, id)
    }

    /// The merchant registered under `id`, if any.
    pub open spec fn merchant(self, id: AccountId) -> Option<Merchant> {
        if self.has_merchant(id) {
            Some(self.merchants[self.merchant_index(id)])
        } else {
            None
        }
    }

    /// The plan with id `plan_id`, if any.
    pub open spec fn plan(self, plan_id: u64) -> Option<SubscriptionPlan> {
        if 1 <= plan_id <= self.plans.len() {
            Some(self.plans[plan_id - 1])
        } else {
            None
        }
    }

    pub open spec fn is_subscription_at(self, i: int, subscriber: AccountId, plan_id: u64) -> bool {
        &&& 0 <= i < self.subscribers.len()
        &&& self.subscribers[i].subscriber == subscriber
        &&& self.subscribers[i].plan_id == plan_id
    }

    pub open spec fn has_subscription(self, subscriber: AccountId, plan_id: u64) -> bool {
        exists|i: int| #[trigger] self.is_subscription_at(i, subscriber, plan_id)
    }

    pub open spec fn subscription_index(self, subscriber: AccountId, plan_id: u64) -> int {
        choose|i: int| #[trigger] self.is_subscription_at(i, subscriber, plan_id)
    }

    /// The subscription of `subscriber` to plan `plan_id`, if any.
    pub open spec fn subscription(self, subscriber: AccountId, plan_id: u64) -> Option<Subscriber> {
        if self.has_subscription(subscriber, plan_id) {
            Some(self.subscribers[self.subscription_index(subscriber, plan_id)])
        } else {
            None
        }
    }

    /// The payment record with id `payment_id`, if any.
    pub open spec fn payment(self, payment_id: u64) -> Option<PaymentRecord> {
        if 1 <= payment_id <= self.payments.len() {
            Some(self.payments[payment_id - 1])
        } else {
            None
        }
    }

    /// The ids of the plans of merchant `merchant`, in creation order.
    pub open spec fn merchant_plans(self, merchant: AccountId) -> Seq<u64> {
        plan_ids_of_merchant(self.plans, merchant)
    }

    /// The ids of the plans that `subscriber` subscribed to, in order.
    pub open spec fn subscriber_plans(self, subscriber: AccountId) -> Seq<u64> {
        plan_ids_of_subscriber(self.subscribers, subscriber)
    }

    // ── Well-formedness ─────────────────────────────────────────────────────

    /// What every reachable state satisfies: merchants and subscriptions are
    /// unique per key, plans and payments carry their position as id, every
    /// plan belongs to a registered merchant and charges a positive amount at
    /// a positive interval, and every subscription refers to a stored plan.
    pub open spec fn wf(self) -> bool {
        &&& forall|i: int, j: int|
            0 <= i < self.merchants.len() && 0 <= j < self.merchants.len()
                && #[trigger] self.merchants[i].merchant_id == #[trigger] self.merchants[j].merchant_id
                ==> i == j
        &&& forall|i: int|
            0 <= i < self.plans.len() ==> {
                &&& (#[trigger] self.plans[i]).plan_id == i + 1
                &&& self.has_merchant(self.plans[i].merchant_id)
                &&& self.plans[i].amount > 0
                &&& self.plans[i].interval > 0
            }
        &&& forall|i: int, j: int|
            0 <= i < self.subscribers.len() && 0 <= j < self.subscribers.len()
                && (#[trigger] self.subscribers[i]).subscriber == (#[trigger] self.subscribers[j]).subscriber
                && self.subscribers[i].plan_id == self.subscribers[j].plan_id
                ==> i == j
        &&& forall|i: int|
            0 <= i < self.subscribers.len() ==> 1 <= (#[trigger] self.subscribers[i]).plan_id
                <= self.plans.len()
        &&& forall|i: int|
            0 <= i < self.payments.len() ==> (#[trigger] self.payments[i]).payment_id == i + 1
    }

    // ── Transitions ─────────────────────────────────────────────────────────
    //
    // Each transition gives the next state and the answer to the request.

    /// Registers `treasury_wallet` as a merchant; the wallet is its identity.
    pub open spec fn register_merchant(self, name: String, treasury_wallet: AccountId, now: u64) -> (
        EngineState,
        Result<(), ContractError>,
    ) {
        if self.has_merchant(treasury_wallet) {
            (self, Err(ContractError::MerchantAlreadyExists))
        } else {
            let m = Merchant {
                merchant_id: treasury_wallet,
                name,
                treasury_wallet,
                active: true,
                created_at: now,
            };
            (
                EngineState {
                    merchants: self.merchants.push(m),
                    events: self.events.push(Event::MerchantRegistered { merchant: treasury_wallet }),
                    ..self
                },
                Ok(()),
            )
        }
    }

    /// Points the merchant's payouts at `new_treasury`.
    pub open spec fn update_treasury(self, merchant_id: AccountId, new_treasury: AccountId) -> (
        EngineState,
        Result<(), ContractError>,
    ) {
        match self.merchant(merchant_id) {
            None => (self, Err(ContractError::MerchantNotFound)),
            Some(m) => (
                EngineState {
                    merchants: self.merchants.update(
                        self.merchant_index(merchant_id),
                        Merchant { treasury_wallet: new_treasury, ..m },
                    ),
                    ..self
                },
                Ok(()),
            ),
        }
    }

    /// The first reason, if any, for which `create_plan` refuses the request.
    pub open spec fn create_plan_error(self, merchant_id: AccountId, amount: i128, interval: u64) -> Option<
        ContractError,
    > {
        match self.merchant(merchant_id) {
            None => Some(ContractError::MerchantNotFound),
            Some(m) => if !m.active {
                Some(ContractError::MerchantInactive)
            } else if amount <= 0 {
                Some(ContractError::InvalidAmount)
            } else if interval == 0 {
                Some(ContractError::InvalidInterval)
            } else {
                None
            },
        }
    }

    /// Creates a plan; its id is one more than the number of plans so far.
    pub open spec fn create_plan(
        self,
        merchant_id: AccountId,
        name: String,
        amount: i128,
        token: AccountId,
        interval: u64,
        grace_period: u64,
        retry_limit: u32,
    ) -> (EngineState, Result<u64, ContractError>) {
        match self.create_plan_error(merchant_id, amount, interval) {
            Some(e) => (self, Err(e)),
            None => {
                let plan_id = (self.plans.len() + 1) as u64;
                let plan = SubscriptionPlan {
                    plan_id,
                    merchant_id,
                    name,
                    amount,
                    token,
                    interval,
                    grace_period,
                    retry_limit,
                    active: true,
                };
                (
                    EngineState {
                        plans: self.plans.push(plan),
                        events: self.events.push(Event::PlanCreated { merchant: merchant_id, plan_id }),
                        ..self
                    },
                    Ok(plan_id),
                )
            },
        }
    }

    /// The first reason, if any, for which `update_plan` refuses the request.
    pub open spec fn update_plan_error(
        self,
        merchant_id: AccountId,
        plan_id: u64,
        amount: i128,
        interval: u64,
    ) -> Option<ContractError> {
        match self.plan(plan_id) {
            None => Some(ContractError::PlanNotFound),
            Some(p) => if p.merchant_id != merchant_id {
                Some(ContractError::Unauthorized)
            } else if amount <= 0 {
                Some(ContractError::InvalidAmount)
            } else if interval == 0 {
                Some(ContractError::InvalidInterval)
            } else {
                None
            },
        }
    }

    /// Replaces the amount, interval, grace period and retry limit of a plan.
    pub open spec fn update_plan(
        self,
        merchant_id: AccountId,
        plan_id: u64,
        amount: i128,
        interval: u64,
        grace_period: u64,
        retry_limit: u32,
    ) -> (EngineState, Result<(), ContractError>) {
        match self.update_plan_error(merchant_id, plan_id, amount, interval) {
            Some(e) => (self, Err(e)),
            None => {
                let p = self.plans[plan_id - 1];
                (
                    EngineState {
                        plans: self.plans.update(
                            plan_id - 1,
                            SubscriptionPlan { amount, interval, grace_period, retry_limit, ..p },
                        ),
                        ..self
                    },
                    Ok(()),
                )
            },
        }
    }

    /// Closes a plan to new subscriptions.
    pub open spec fn disable_plan(self, merchant_id: AccountId, plan_id: u64) -> (
        EngineState,
        Result<(), ContractError>,
    ) {
        match self.plan(plan_id) {
            None => (self, Err(ContractError::PlanNotFound)),
            Some(p) => if p.merchant_id != merchant_id {
                (self, Err(ContractError::Unauthorized))
            } else {
                (
                    EngineState {
                        plans: self.plans.update(plan_id - 1, SubscriptionPlan { active: false, ..p }),
                        ..self
                    },
                    Ok(()),
                )
            },
        }
    }

    /// The first reason, if any, for which `subscribe` refuses the request
    /// before the payer's balance is looked at.
    pub open spec fn subscribe_error(self, subscriber: AccountId, plan_id: u64) -> Option<ContractError> {
        match self.plan(plan_id) {
            None => Some(ContractError::PlanNotFound),
            Some(plan) => if !plan.active {
                Some(ContractError::PlanInactive)
            } else {
                match self.merchant(plan.merchant_id) {
                    None => Some(ContractError::MerchantNotFound),
                    Some(m) => if !m.active {
                        Some(ContractError::MerchantInactive)
                    } else if self.has_subscription(subscriber, plan_id) {
                        Some(ContractError::SubscriptionAlreadyExists)
                    } else {
                        None
                    },
                }
            },
        }
    }

    /// Whether `subscribe` gets as far as charging the first payment.
    pub open spec fn subscribe_charges(self, subscriber: AccountId, plan_id: u64, balance: i128) -> bool {
        self.subscribe_error(subscriber, plan_id) is None && balance >= self.plan(plan_id)->0.amount
    }

    /// Subscribes `subscriber` to plan `plan_id` at time `now`, charging the
    /// first payment at once. `balance` is the subscriber's balance of the
    /// plan's token.
    pub open spec fn subscribe(self, subscriber: AccountId, plan_id: u64, now: u64, balance: i128) -> (
        EngineState,
        Result<(), ContractError>,
    ) {
        match self.subscribe_error(subscriber, plan_id) {
            Some(e) => (self, Err(e)),
            None => {
                let plan = self.plans[plan_id - 1];
                if balance < plan.amount {
                    (self, Err(ContractError::InsufficientBalance))
                } else {
                    let treasury = self.merchant(plan.merchant_id)->0.treasury_wallet;
                    let next_billing_at = (now + plan.interval) as u64;
                    let record = PaymentRecord {
                        payment_id: (self.payments.len() + 1) as u64,
                        subscriber,
                        merchant: plan.merchant_id,
                        amount: plan.amount,
                        timestamp: now,
                        success: true,
                    };
                    let sub = Subscriber {
                        subscriber,
                        plan_id,
                        next_billing_at,
                        status: SubscriptionStatus::Active,
                        retries: 0,
                        started_at: now,
                    };
                    (
                        EngineState {
                            subscribers: self.subscribers.push(sub),
                            payments: self.payments.push(record),
                            transfers: self.transfers.push(
                                Transfer { token: plan.token, from: subscriber, to: treasury, amount: plan.amount },
                            ),
                            events: self.events.push(
                                Event::Subscribed { subscriber, plan_id, next_billing: next_billing_at },
                            ).push(Event::PaymentSuccess { subscriber, amount: plan.amount, timestamp: now }),
                            ..self
                        },
                        Ok(()),
                    )
                }
            },
        }
    }

    /// The arithmetic of `subscribe` stays within its integer types.
    pub open spec fn subscribe_fits(self, subscriber: AccountId, plan_id: u64, now: u64, balance: i128) -> bool {
        self.subscribe_charges(subscriber, plan_id, balance) ==> {
            &&& now + self.plans[plan_id - 1].interval <= u64::MAX
            &&& self.payments.len() + 1 <= u64::MAX
        }
    }

    /// The first reason, if any, for which `process_payment` refuses the
    /// request before the payer's balance is looked at.
    pub open spec fn process_payment_error(self, subscriber: AccountId, plan_id: u64, now: u64) -> Option<
        ContractError,
    > {
        match self.subscription(subscriber, plan_id) {
            None => Some(ContractError::SubscriptionNotFound),
            Some(sub) => if sub.status == SubscriptionStatus::Cancelled {
                Some(ContractError::AlreadyCancelled)
            } else if sub.status == SubscriptionStatus::Paused {
                Some(ContractError::SubscriptionNotActive)
            } else {
                match self.plan(plan_id) {
                    None => Some(ContractError::PlanNotFound),
                    Some(plan) => if !self.has_merchant(plan.merchant_id) {
                        Some(ContractError::MerchantNotFound)
                    } else if now < sub.next_billing_at {
                        Some(ContractError::BillingNotDue)
                    } else {
                        None
                    },
                }
            },
        }
    }

    /// Runs one billing cycle of the subscription of `subscriber` to plan
    /// `plan_id` at time `now`; `balance` is the subscriber's balance of the
    /// plan's token. On a failed charge the subscription enters its grace
    /// period, or fails for good once the retry limit is reached; both
    /// outcomes are kept and reported as errors.
    pub open spec fn process_payment(self, subscriber: AccountId, plan_id: u64, now: u64, balance: i128) -> (
        EngineState,
        Result<(), ContractError>,
    ) {
        match self.process_payment_error(subscriber, plan_id, now) {
            Some(e) => (self, Err(e)),
            None => {
                let idx = self.subscription_index(subscriber, plan_id);
                let sub = self.subscribers[idx];
                let plan = self.plans[plan_id - 1];
                let payment_id = (self.payments.len() + 1) as u64;
                if balance >= plan.amount {
                    let treasury = self.merchant(plan.merchant_id)->0.treasury_wallet;
                    let new_sub = Subscriber {
                        next_billing_at: (now + plan.interval) as u64,
                        retries: 0,
                        status: SubscriptionStatus::Active,
                        ..sub
                    };
                    let record = PaymentRecord {
                        payment_id,
                        subscriber,
                        merchant: plan.merchant_id,
                        amount: plan.amount,
                        timestamp: now,
                        success: true,
                    };
                    (
                        EngineState {
                            subscribers: self.subscribers.update(idx, new_sub),
                            payments: self.payments.push(record),
                            transfers: self.transfers.push(
                                Transfer { token: plan.token, from: subscriber, to: treasury, amount: plan.amount },
                            ),
                            events: self.events.push(
                                Event::PaymentSuccess { subscriber, amount: plan.amount, timestamp: now },
                            ),
                            ..self
                        },
                        Ok(()),
                    )
                } else {
                    let retries = (sub.retries + 1) as u32;
                    let attempted = self.events.push(Event::RetryAttempted { subscriber, plan_id, attempt: retries });
                    let failed = Event::PaymentFailed { subscriber, plan_id, retries };
                    if retries >= plan.retry_limit {
                        let new_sub = Subscriber { retries, status: SubscriptionStatus::Failed, ..sub };
                        let record = PaymentRecord {
                            payment_id,
                            subscriber,
                            merchant: plan.merchant_id,
                            amount: plan.amount,
                            timestamp: now,
                            success: false,
                        };
                        (
                            EngineState {
                                subscribers: self.subscribers.update(idx, new_sub),
                                payments: self.payments.push(record),
                                events: attempted.push(failed),
                                ..self
                            },
                            Err(ContractError::RetryLimitExceeded),
                        )
                    } else {
                        let new_sub = Subscriber { retries, status: SubscriptionStatus::GracePeriod, ..sub };
                        (
                            EngineState {
                                subscribers: self.subscribers.update(idx, new_sub),
                                events: attempted.push(failed),
                                ..self
                            },
                            Err(ContractError::InsufficientBalance),
                        )
                    }
                }
            },
        }
    }

    /// The arithmetic of `process_payment` stays within its integer types:
    /// the end of the grace window, the next billing time, the retry count
    /// and the next payment id.
    pub open spec fn process_payment_fits(self, subscriber: AccountId, plan_id: u64, now: u64, balance: i128) -> bool {
        self.process_payment_error(subscriber, plan_id, now) is None ==> {
            let sub = self.subscription(subscriber, plan_id)->0;
            let plan = self.plans[plan_id - 1];
            &&& sub.next_billing_at + plan.grace_period <= u64::MAX
            &&& balance >= plan.amount ==> now + plan.interval <= u64::MAX && self.payments.len() + 1 <= u64::MAX
            &&& balance < plan.amount ==> sub.retries + 1 <= u32::MAX
            &&& balance < plan.amount && sub.retries + 1 >= plan.retry_limit ==> self.payments.len() + 1 <= u64::MAX
        }
    }

    /// Pauses a subscription that is neither paused nor cancelled.
    pub open spec fn pause_subscription(self, subscriber: AccountId, plan_id: u64) -> (
        EngineState,
        Result<(), ContractError>,
    ) {
        match self.subscription(subscriber, plan_id) {
            None => (self, Err(ContractError::SubscriptionNotFound)),
            Some(sub) => if sub.status == SubscriptionStatus::Paused {
                (self, Err(ContractError::AlreadyPaused))
            } else if sub.status == SubscriptionStatus::Cancelled {
                (self, Err(ContractError::AlreadyCancelled))
            } else {
                (
                    EngineState {
                        subscribers: self.subscribers.update(
                            self.subscription_index(subscriber, plan_id),
                            Subscriber { status: SubscriptionStatus::Paused, ..sub },
                        ),
                        events: self.events.push(Event::SubscriptionPaused { subscriber, plan_id }),
                        ..self
                    },
                    Ok(()),
                )
            },
        }
    }

    /// Resumes a paused subscription; the next charge falls one interval
    /// after `now`.
    pub open spec fn resume_subscription(self, subscriber: AccountId, plan_id: u64, now: u64) -> (
        EngineState,
        Result<(), ContractError>,
    ) {
        match self.subscription(subscriber, plan_id) {
            None => (self, Err(ContractError::SubscriptionNotFound)),
            Some(sub) => if sub.status != SubscriptionStatus::Paused {
                (self, Err(ContractError::NotPaused))
            } else {
                match self.plan(plan_id) {
                    None => (self, Err(ContractError::PlanNotFound)),
                    Some(plan) => (
                        EngineState {
                            subscribers: self.subscribers.update(
                                self.subscription_index(subscriber, plan_id),
                                Subscriber {
                                    next_billing_at: (now + plan.interval) as u64,
                                    status: SubscriptionStatus::Active,
                                    ..sub
                                },
                            ),
                            events: self.events.push(Event::SubscriptionResumed { subscriber, plan_id }),
                            ..self
                        },
                        Ok(()),
                    ),
                }
            },
        }
    }

    /// The arithmetic of `resume_subscription` stays within its integer types.
    pub open spec fn resume_subscription_fits(self, subscriber: AccountId, plan_id: u64, now: u64) -> bool {
        (self.has_subscription(subscriber, plan_id)
            && self.subscription(subscriber, plan_id)->0.status == SubscriptionStatus::Paused
            && self.plan(plan_id) is Some) ==> now + self.plans[plan_id - 1].interval <= u64::MAX
    }

    /// Cancels a subscription for good.
    pub open spec fn cancel_subscription(self, subscriber: AccountId, plan_id: u64) -> (
        EngineState,
        Result<(), ContractError>,
    ) {
        match self.subscription(subscriber, plan_id) {
            None => (self, Err(ContractError::SubscriptionNotFound)),
            Some(sub) => if sub.status == SubscriptionStatus::Cancelled {
                (self, Err(ContractError::AlreadyCancelled))
            } else {
                (
                    EngineState {
                        subscribers: self.subscribers.update(
                            self.subscription_index(subscriber, plan_id),
                            Subscriber { status: SubscriptionStatus::Cancelled, ..sub },
                        ),
                        events: self.events.push(Event::SubscriptionCancelled { subscriber, plan_id }),
                        ..self
                    },
                    Ok(()),
                )
            },
        }
    }

    /// The state after serving `req`.
    pub open spec fn apply(self, req: Request) -> EngineState {
        match req {
            Request::RegisterMerchant { name, treasury_wallet, now } => self.register_merchant(
                name,
                treasury_wallet,
                now,
            ).0,
            Request::UpdateTreasury { merchant_id, new_treasury } => self.update_treasury(
                merchant_id,
                new_treasury,
            ).0,
            Request::CreatePlan {
                merchant_id,
                name,
                amount,
                token,
                interval,
                grace_period,
                retry_limit,
            } => self.create_plan(merchant_id, name, amount, token, interval, grace_period, retry_limit).0,
            Request::UpdatePlan { merchant_id, plan_id, amount, interval, grace_period, retry_limit } =>
                self.update_plan(merchant_id, plan_id, amount, interval, grace_period, retry_limit).0,
            Request::DisablePlan { merchant_id, plan_id } => self.disable_plan(merchant_id, plan_id).0,
            Request::Subscribe { subscriber, plan_id, now, balance } => self.subscribe(
                subscriber,
                plan_id,
                now,
                balance,
            ).0,
            Request::ProcessPayment { subscriber, plan_id, now, balance } => self.process_payment(
                subscriber,
                plan_id,
                now,
                balance,
            ).0,
            Request::PauseSubscription { subscriber, plan_id } => self.pause_subscription(
                subscriber,
                plan_id,
            ).0,
            Request::ResumeSubscription { subscriber, plan_id, now } => self.resume_subscription(
                subscriber,
                plan_id,
                now,
            ).0,
            Request::CancelSubscription { subscriber, plan_id } => self.cancel_subscription(
                subscriber,
                plan_id,
            ).0,
        }
    }

    /// The error with which `req` is refused, if it is refused.
    pub open spec fn refusal(self, req: Request) -> Option<ContractError> {
        let r = match req {
            Request::RegisterMerchant { name, treasury_wallet, now } => self.register_merchant(
                name,
                treasury_wallet,
                now,
            ).1,
            Request::UpdateTreasury { merchant_id, new_treasury } => self.update_treasury(
                merchant_id,
                new_treasury,
            ).1,
            Request::CreatePlan {
                merchant_id,
                name,
                amount,
                token,
                interval,
                grace_period,
                retry_limit,
            } => match self.create_plan(
                merchant_id,
                name,
                amount,
                token,
                interval,
                grace_period,
                retry_limit,
            ).1 {
                Ok(_) => Ok(()),
                Err(e) => Err(e),
            },
            Request::UpdatePlan { merchant_id, plan_id, amount, interval, grace_period, retry_limit } =>
                self.update_plan(merchant_id, plan_id, amount, interval, grace_period, retry_limit).1,
            Request::DisablePlan { merchant_id, plan_id } => self.disable_plan(merchant_id, plan_id).1,
            Request::Subscribe { subscriber, plan_id, now, balance } => self.subscribe(
                subscriber,
                plan_id,
                now,
                balance,
            ).1,
            Request::ProcessPayment { subscriber, plan_id, now, balance } => self.process_payment(
                subscriber,
                plan_id,
                now,
                balance,
            ).1,
            Request::PauseSubscription { subscriber, plan_id } => self.pause_subscription(
                subscriber,
                plan_id,
            ).1,
            Request::ResumeSubscription { subscriber, plan_id, now } => self.resume_subscription(
                subscriber,
                plan_id,
                now,
            ).1,
            Request::CancelSubscription { subscriber, plan_id } => self.cancel_subscription(
                subscriber,
                plan_id,
            ).1,
        };
        match r {
            Ok(_) => None,
            Err(e) => Some(e),
        }
    }

    /// The arithmetic of serving `req` stays within its integer types.
    pub open spec fn fits(self, req: Request) -> bool {
        match req {
            Request::CreatePlan { merchant_id, amount, interval, .. } => self.create_plan_fits(
                merchant_id,
                amount,
                interval,
            ),
            Request::Subscribe { subscriber, plan_id, now, balance } => self.subscribe_fits(
                subscriber,
                plan_id,
                now,
                balance,
            ),
            Request::ProcessPayment { subscriber, plan_id, now, balance } => self.process_payment_fits(
                subscriber,
                plan_id,
                now,
                balance,
            ),
            Request::ResumeSubscription { subscriber, plan_id, now } => self.resume_subscription_fits(
                subscriber,
                plan_id,
                now,
            ),
            _ => true,
        }
    }

    /// The transfer with which `subscriber` pays one cycle of plan `plan_id`:
    /// the plan amount of the plan's token, to the current treasury of the
    /// plan's merchant.
    pub open spec fn charge(self, subscriber: AccountId, plan_id: u64) -> Transfer {
        let plan = self.plans[plan_id - 1];
        Transfer {
            token: plan.token,
            from: subscriber,
            to: self.merchant(plan.merchant_id)->0.treasury_wallet,
            amount: plan.amount,
        }
    }

    /// Whether `create_plan` would hand out a plan id that fits in `u64`.
    pub open spec fn create_plan_fits(self, merchant_id: AccountId, amount: i128, interval: u64) -> bool {
        self.create_plan_error(merchant_id, amount, interval) is None ==> self.plans.len() + 1 <= u64::MAX
    }
}

// ── Lemmas about lookups ────────────────────────────────────────────────────

/// In a well-formed state a merchant found at `i` is the one `merchant` gives.
pub proof fn lemma_merchant_at(s: EngineState, i: int, id: AccountId)
    requires
        s.wf(),
        s.is_merchant_at(i, id),
    ensures
        s.has_merchant(id),
        s.merchant_index(id) == i,
        s.merchant(id) == Some(s.merchants[i]),
{
    let k = s.merchant_index(id);
    assert(s.is_merchant_at(k, id));
    assert(s.merchants[k].merchant_id == s.merchants[i].merchant_id);
}

/// In a well-formed state a subscription found at `i` is the one
/// `subscription` gives.
pub proof fn lemma_subscription_at(s: EngineState, i: int, subscriber: AccountId, plan_id: u64)
    requires
        s.wf(),
        s.is_subscription_at(i, subscriber, plan_id),
    ensures
        s.has_subscription(subscriber, plan_id),
        s.subscription_index(subscriber, plan_id) == i,
        s.subscription(subscriber, plan_id) == Some(s.subscribers[i]),
{
    let k = s.subscription_index(subscriber, plan_id);
    assert(s.is_subscription_at(k, subscriber, plan_id));
    assert(s.subscribers[k].subscriber == s.subscribers[i].subscriber);
}

/// Merchants whose ids are kept in place stay registered.
pub proof fn lemma_merchants_kept(s: EngineState, n: EngineState)
    requires
        s.merchants.len() <= n.merchants.len(),
        forall|k: int|
            0 <= k < s.merchants.len() ==> #[trigger] n.merchants[k].merchant_id
                == s.merchants[k].merchant_id,
    ensures
        forall|id: AccountId| #[trigger] s.has_merchant(id) ==> n.has_merchant(id),
{
    assert forall|id: AccountId| #[trigger] s.has_merchant(id) implies n.has_merchant(id) by {
        let k = s.merchant_index(id);
        assert(n.merchants[k].merchant_id == s.merchants[k].merchant_id);
        assert(n.is_merchant_at(k, id));
    }
}

/// Well-formedness depends on the stored records only, not on the pending
/// events and transfers.
pub proof fn lemma_wf_ignores_logs(s: EngineState, n: EngineState)
    requires
        s.wf(),
        n.merchants == s.merchants,
        n.plans == s.plans,
        n.subscribers == s.subscribers,
        n.payments == s.payments,
    ensures
        n.wf(),
{
    lemma_merchants_kept(s, n);
}

/// A subscription that keeps its place and key keeps being found there.
pub proof fn lemma_subscription_kept(s: EngineState, n: EngineState, subscriber: AccountId, plan_id: u64)
    requires
        s.wf(),
        s.has_subscription(subscriber, plan_id),
        s.subscribers.len() <= n.subscribers.len(),
        forall|k: int|
            0 <= k < s.subscribers.len() ==> {
                &&& (#[trigger] n.subscribers[k]).subscriber == s.subscribers[k].subscriber
                &&& n.subscribers[k].plan_id == s.subscribers[k].plan_id
            },
        forall|k: int|
            s.subscribers.len() <= k < n.subscribers.len() ==> !(
            (#[trigger] n.subscribers[k]).subscriber == subscriber && n.subscribers[k].plan_id
                == plan_id),
    ensures
        n.has_subscription(subscriber, plan_id),
        n.subscription_index(subscriber, plan_id) == s.subscription_index(subscriber, plan_id),
{
    let k = s.subscription_index(subscriber, plan_id);
    assert(s.is_subscription_at(k, subscriber, plan_id));
    assert(n.subscribers[k].subscriber == s.subscribers[k].subscriber);
    assert(n.is_subscription_at(k, subscriber, plan_id));
    let j = n.subscription_index(subscriber, plan_id);
    assert(n.is_subscription_at(j, subscriber, plan_id));
    assert(n.subscribers[j].subscriber == s.subscribers[j].subscriber);
    assert(s.is_subscription_at(j, subscriber, plan_id));
}

} // verus!
