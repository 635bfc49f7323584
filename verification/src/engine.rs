use vstd::prelude::*;

use crate::errors::ContractError;
use crate::laws::{
    lemma_cancel_subscription_wf, lemma_create_plan_wf, lemma_disable_plan_wf,
    lemma_pause_subscription_wf, lemma_process_payment_wf, lemma_register_merchant_wf,
    lemma_resume_subscription_wf, lemma_subscribe_wf, lemma_update_plan_wf,
    lemma_update_treasury_wf,
};
use crate::state::{
    lemma_merchant_at, lemma_subscription_at, lemma_wf_ignores_logs, plan_ids_of_merchant, plan_ids_of_subscriber,
    EngineState,
};
use crate::types::{
    AccountId, Event, Merchant, PaymentRecord, Subscriber, SubscriptionPlan, SubscriptionStatus,
    Transfer,
};

verus! {

/// The billing engine: merchants, plans, subscriptions and the payment log,
/// plus the events and token transfers that the host has yet to carry out.
pub struct SubscriptionEngine {
    merchants: Vec<Merchant>,
    plans: Vec<SubscriptionPlan>,
    subscribers: Vec<Subscriber>,
    payments: Vec<PaymentRecord>,
    events: Vec<Event>,
    transfers: Vec<Transfer>,
}

impl View for SubscriptionEngine {
    type V = EngineState;

    closed spec fn view(&self) -> EngineState {
        EngineState {
            merchants: self.merchants@,
            plans: self.plans@,
            subscribers: self.subscribers@,
            payments: self.payments@,
            events: self.events@,
            transfers: self.transfers@,
        }
    }
}

impl SubscriptionEngine {
    /// The engine's invariant; see `EngineState::wf`.
    pub open spec fn wf(&self) -> bool {
        self@.wf()
    }

    /// An engine with no records.
    pub fn new() -> (r: Self)
        ensures
            r@ == EngineState::empty(),
            r.wf(),
    {
        SubscriptionEngine {
            merchants: Vec::new(),
            plans: Vec::new(),
            subscribers: Vec::new(),
            payments: Vec::new(),
            events: Vec::new(),
            transfers: Vec::new(),
        }
    }

    fn merchant_position(&self, id: AccountId) -> (r: Option<usize>)
        ensures
            match r {
                Some(i) => self@.is_merchant_at(i as int, id),
                None => !self@.has_merchant(id),
            },
    {
        let mut i: usize = 0;
        while i < self.merchants.len()
            invariant
                i <= self.merchants@.len(),
                forall|j: int| 0 <= j < i ==> !self@.is_merchant_at(j, id),
            decreases self.merchants@.len() - i,
        {
            if self.merchants[i].merchant_id == id {
                return Some(i);
            }
            i += 1;
        }
        None
    }

    fn find_merchant(&self, id: AccountId) -> (r: Option<usize>)
        requires
            self.wf(),
        ensures
            match r {
                Some(i) => self@.is_merchant_at(i as int, id) && self@.merchant(id) == Some(
                    self@.merchants[i as int],
                ) && self@.merchant_index(id) == i,
                None => !self@.has_merchant(id) && self@.merchant(id) is None,
            },
    {
        let r = self.merchant_position(id);
        if let Some(i) = r {
            proof {
                lemma_merchant_at(self@, i as int, id);
            }
        }
        r
    }

    /// Registers `treasury_wallet` as a merchant named `name` at time `now`.
    pub fn register_merchant(&mut self, name: String, treasury_wallet: AccountId, now: u64) -> (r:
        Result<(), ContractError>)
        requires
            old(self).wf(),
        ensures
            final(self).wf(),
            final(self)@ == old(self)@.register_merchant(name, treasury_wallet, now).0,
            r == old(self)@.register_merchant(name, treasury_wallet, now).1,
    {
        if self.find_merchant(treasury_wallet).is_some() {
            return Err(ContractError::MerchantAlreadyExists);
        }
        let ghost pre = self@;
        self.merchants.push(
            Merchant {
                merchant_id: treasury_wallet,
                name,
                treasury_wallet,
                active: true,
                created_at: now,
            },
        );
        self.events.push(Event::MerchantRegistered { merchant: treasury_wallet });
        proof {
            assert(self@ =~= pre.register_merchant(name, treasury_wallet, now).0);
            lemma_register_merchant_wf(pre, name, treasury_wallet, now);
        }
        Ok(())
    }

    fn find_subscription(&self, subscriber: AccountId, plan_id: u64) -> (r: Option<usize>)
        requires
            self.wf(),
        ensures
            match r {
                Some(i) => self@.is_subscription_at(i as int, subscriber, plan_id)
                    && self@.subscription(subscriber, plan_id) == Some(self@.subscribers[i as int])
                    && self@.subscription_index(subscriber, plan_id) == i,
                None => !self@.has_subscription(subscriber, plan_id) && self@.subscription(
                    subscriber,
                    plan_id,
                ) is None,
            },
    {
        let mut i: usize = 0;
        while i < self.subscribers.len()
            invariant
                self.wf(),
                i <= self.subscribers@.len(),
                forall|j: int| 0 <= j < i ==> !self@.is_subscription_at(j, subscriber, plan_id),
            decreases self.subscribers@.len() - i,
        {
            if self.subscribers[i].subscriber == subscriber && self.subscribers[i].plan_id == plan_id {
                proof {
                    lemma_subscription_at(self@, i as int, subscriber, plan_id);
                }
                return Some(i);
            }
            i += 1;
        }
        None
    }

    fn find_plan(&self, plan_id: u64) -> (r: Option<usize>)
        ensures
            match r {
                Some(i) => self@.plan(plan_id) == Some(self@.plans[i as int]) && i == plan_id - 1
                    && i < self@.plans.len(),
                None => self@.plan(plan_id) is None,
            },
    {
        if 1 <= plan_id && plan_id <= self.plans.len() as u64 {
            Some((plan_id - 1) as usize)
        } else {
            None
        }
    }

    /// Points the payouts of merchant `merchant_id` at `new_treasury`.
    pub fn update_treasury(&mut self, merchant_id: AccountId, new_treasury: AccountId) -> (r: Result<
        (),
        ContractError,
    >)
        requires
            old(self).wf(),
        ensures
            final(self).wf(),
            final(self)@ == old(self)@.update_treasury(merchant_id, new_treasury).0,
            r == old(self)@.update_treasury(merchant_id, new_treasury).1,
    {
        let i = match self.find_merchant(merchant_id) {
            None => return Err(ContractError::MerchantNotFound),
            Some(i) => i,
        };
        let ghost pre = self@;
        let mut m = self.merchants[i].clone();
        m.treasury_wallet = new_treasury;
        self.merchants.set(i, m);
        proof {
            assert(self@ =~= pre.update_treasury(merchant_id, new_treasury).0);
            lemma_update_treasury_wf(pre, merchant_id, new_treasury);
        }
        Ok(())
    }

    /// Creates a plan of merchant `merchant_id` and returns its id.
    pub fn create_plan(
        &mut self,
        merchant_id: AccountId,
        name: String,
        amount: i128,
        token: AccountId,
        interval: u64,
        grace_period: u64,
        retry_limit: u32,
    ) -> (r: Result<u64, ContractError>)
        requires
            old(self).wf(),
            old(self)@.create_plan_fits(merchant_id, amount, interval),
        ensures
            final(self).wf(),
            final(self)@ == old(self)@.create_plan(
                merchant_id,
                name,
                amount,
                token,
                interval,
                grace_period,
                retry_limit,
            ).0,
            r == old(self)@.create_plan(
                merchant_id,
                name,
                amount,
                token,
                interval,
                grace_period,
                retry_limit,
            ).1,
    {
        let i = match self.find_merchant(merchant_id) {
            None => return Err(ContractError::MerchantNotFound),
            Some(i) => i,
        };
        if !self.merchants[i].active {
            return Err(ContractError::MerchantInactive);
        }
        if amount <= 0 {
            return Err(ContractError::InvalidAmount);
        }
        if interval == 0 {
            return Err(ContractError::InvalidInterval);
        }
        let ghost pre = self@;
        let plan_id = self.plans.len() as u64 + 1;
        self.plans.push(
            SubscriptionPlan {
                plan_id,
                merchant_id,
                name,
                amount,
                token,
                interval,
                grace_period,
                retry_limit,
                active: true,
            },
        );
        self.events.push(Event::PlanCreated { merchant: merchant_id, plan_id });
        proof {
            assert(self@ =~= pre.create_plan(
                merchant_id,
                name,
                amount,
                token,
                interval,
                grace_period,
                retry_limit,
            ).0);
            lemma_create_plan_wf(
                pre,
                merchant_id,
                name,
                amount,
                token,
                interval,
                grace_period,
                retry_limit,
            );
        }
        Ok(plan_id)
    }

    /// Replaces the amount, interval, grace period and retry limit of plan
    /// `plan_id`, which must belong to `merchant_id`.
    pub fn update_plan(
        &mut self,
        merchant_id: AccountId,
        plan_id: u64,
        amount: i128,
        interval: u64,
        grace_period: u64,
        retry_limit: u32,
    ) -> (r: Result<(), ContractError>)
        requires
            old(self).wf(),
        ensures
            final(self).wf(),
            final(self)@ == old(self)@.update_plan(
                merchant_id,
                plan_id,
                amount,
                interval,
                grace_period,
                retry_limit,
            ).0,
            r == old(self)@.update_plan(
                merchant_id,
                plan_id,
                amount,
                interval,
                grace_period,
                retry_limit,
            ).1,
    {
        let i = match self.find_plan(plan_id) {
            None => return Err(ContractError::PlanNotFound),
            Some(i) => i,
        };
        if self.plans[i].merchant_id != merchant_id {
            return Err(ContractError::Unauthorized);
        }
        if amount <= 0 {
            return Err(ContractError::InvalidAmount);
        }
        if interval == 0 {
            return Err(ContractError::InvalidInterval);
        }
        let ghost pre = self@;
        let mut plan = self.plans[i].clone();
        plan.amount = amount;
        plan.interval = interval;
        plan.grace_period = grace_period;
        plan.retry_limit = retry_limit;
        self.plans.set(i, plan);
        proof {
            assert(self@ =~= pre.update_plan(
                merchant_id,
                plan_id,
                amount,
                interval,
                grace_period,
                retry_limit,
            ).0);
            lemma_update_plan_wf(pre, merchant_id, plan_id, amount, interval, grace_period, retry_limit);
        }
        Ok(())
    }

    /// Closes plan `plan_id`, which must belong to `merchant_id`, to new
    /// subscriptions; existing subscriptions carry on.
    pub fn disable_plan(&mut self, merchant_id: AccountId, plan_id: u64) -> (r: Result<
        (),
        ContractError,
    >)
        requires
            old(self).wf(),
        ensures
            final(self).wf(),
            final(self)@ == old(self)@.disable_plan(merchant_id, plan_id).0,
            r == old(self)@.disable_plan(merchant_id, plan_id).1,
    {
        let i = match self.find_plan(plan_id) {
            None => return Err(ContractError::PlanNotFound),
            Some(i) => i,
        };
        if self.plans[i].merchant_id != merchant_id {
            return Err(ContractError::Unauthorized);
        }
        let ghost pre = self@;
        let mut plan = self.plans[i].clone();
        plan.active = false;
        self.plans.set(i, plan);
        proof {
            assert(self@ =~= pre.disable_plan(merchant_id, plan_id).0);
            lemma_disable_plan_wf(pre, merchant_id, plan_id);
        }
        Ok(())
    }

    /// Subscribes `subscriber` to plan `plan_id` at time `now` and charges the
    /// first payment at once; `balance` is the subscriber's balance of the
    /// plan's token. The charge is queued as a transfer for the host.
    pub fn subscribe(&mut self, subscriber: AccountId, plan_id: u64, now: u64, balance: i128) -> (r:
        Result<(), ContractError>)
        requires
            old(self).wf(),
            old(self)@.subscribe_fits(subscriber, plan_id, now, balance),
        ensures
            final(self).wf(),
            final(self)@ == old(self)@.subscribe(subscriber, plan_id, now, balance).0,
            r == old(self)@.subscribe(subscriber, plan_id, now, balance).1,
    {
        let pi = match self.find_plan(plan_id) {
            None => return Err(ContractError::PlanNotFound),
            Some(i) => i,
        };
        if !self.plans[pi].active {
            return Err(ContractError::PlanInactive);
        }
        let merchant_id = self.plans[pi].merchant_id;
        let amount = self.plans[pi].amount;
        let token = self.plans[pi].token;
        let interval = self.plans[pi].interval;
        let mi = match self.find_merchant(merchant_id) {
            None => return Err(ContractError::MerchantNotFound),
            Some(i) => i,
        };
        if !self.merchants[mi].active {
            return Err(ContractError::MerchantInactive);
        }
        if self.find_subscription(subscriber, plan_id).is_some() {
            return Err(ContractError::SubscriptionAlreadyExists);
        }
        if balance < amount {
            return Err(ContractError::InsufficientBalance);
        }
        let ghost pre = self@;
        let treasury = self.merchants[mi].treasury_wallet;
        self.transfers.push(Transfer { token, from: subscriber, to: treasury, amount });
        let payment_id = self.payments.len() as u64 + 1;
        self.payments.push(
            PaymentRecord {
                payment_id,
                subscriber,
                merchant: merchant_id,
                amount,
                timestamp: now,
                success: true,
            },
        );
        let next_billing_at = now + interval;
        self.subscribers.push(
            Subscriber {
                subscriber,
                plan_id,
                next_billing_at,
                status: SubscriptionStatus::Active,
                retries: 0,
                started_at: now,
            },
        );
        self.events.push(Event::Subscribed { subscriber, plan_id, next_billing: next_billing_at });
        self.events.push(Event::PaymentSuccess { subscriber, amount, timestamp: now });
        proof {
            assert(self@ =~= pre.subscribe(subscriber, plan_id, now, balance).0);
            lemma_subscribe_wf(pre, subscriber, plan_id, now, balance);
        }
        Ok(())
    }

    /// Runs one billing cycle of the subscription of `subscriber` to plan
    /// `plan_id` at time `now`; `balance` is the subscriber's balance of the
    /// plan's token. Anyone may call it once the cycle is due.
    pub fn process_payment(&mut self, subscriber: AccountId, plan_id: u64, now: u64, balance: i128) -> (r:
        Result<(), ContractError>)
        requires
            old(self).wf(),
            old(self)@.process_payment_fits(subscriber, plan_id, now, balance),
        ensures
            final(self).wf(),
            final(self)@ == old(self)@.process_payment(subscriber, plan_id, now, balance).0,
            r == old(self)@.process_payment(subscriber, plan_id, now, balance).1,
    {
        let si = match self.find_subscription(subscriber, plan_id) {
            None => return Err(ContractError::SubscriptionNotFound),
            Some(i) => i,
        };
        let sub = self.subscribers[si];
        if sub.status == SubscriptionStatus::Cancelled {
            return Err(ContractError::AlreadyCancelled);
        }
        if sub.status == SubscriptionStatus::Paused {
            return Err(ContractError::SubscriptionNotActive);
        }
        let pi = match self.find_plan(plan_id) {
            None => return Err(ContractError::PlanNotFound),
            Some(i) => i,
        };
        let merchant_id = self.plans[pi].merchant_id;
        let amount = self.plans[pi].amount;
        let token = self.plans[pi].token;
        let interval = self.plans[pi].interval;
        let retry_limit = self.plans[pi].retry_limit;
        let mi = match self.find_merchant(merchant_id) {
            None => return Err(ContractError::MerchantNotFound),
            Some(i) => i,
        };
        if now < sub.next_billing_at {
            return Err(ContractError::BillingNotDue);
        }
        let ghost pre = self@;
        if balance >= amount {
            let treasury = self.merchants[mi].treasury_wallet;
            self.transfers.push(Transfer { token, from: subscriber, to: treasury, amount });
            let payment_id = self.payments.len() as u64 + 1;
            self.payments.push(
                PaymentRecord {
                    payment_id,
                    subscriber,
                    merchant: merchant_id,
                    amount,
                    timestamp: now,
                    success: true,
                },
            );
            self.subscribers.set(
                si,
                Subscriber {
                    next_billing_at: now + interval,
                    retries: 0,
                    status: SubscriptionStatus::Active,
                    ..sub
                },
            );
            self.events.push(Event::PaymentSuccess { subscriber, amount, timestamp: now });
            proof {
                assert(self@ =~= pre.process_payment(subscriber, plan_id, now, balance).0);
                lemma_process_payment_wf(pre, subscriber, plan_id, now, balance);
            }
            Ok(())
        } else {
            let retries = sub.retries + 1;
            self.events.push(Event::RetryAttempted { subscriber, plan_id, attempt: retries });
            if retries >= retry_limit {
                self.subscribers.set(
                    si,
                    Subscriber { retries, status: SubscriptionStatus::Failed, ..sub },
                );
                let payment_id = self.payments.len() as u64 + 1;
                self.payments.push(
                    PaymentRecord {
                        payment_id,
                        subscriber,
                        merchant: merchant_id,
                        amount,
                        timestamp: now,
                        success: false,
                    },
                );
                self.events.push(Event::PaymentFailed { subscriber, plan_id, retries });
                proof {
                    assert(self@ =~= pre.process_payment(subscriber, plan_id, now, balance).0);
                    lemma_process_payment_wf(pre, subscriber, plan_id, now, balance);
                }
                Err(ContractError::RetryLimitExceeded)
            } else {
                self.subscribers.set(
                    si,
                    Subscriber { retries, status: SubscriptionStatus::GracePeriod, ..sub },
                );
                self.events.push(Event::PaymentFailed { subscriber, plan_id, retries });
                proof {
                    assert(self@ =~= pre.process_payment(subscriber, plan_id, now, balance).0);
                    lemma_process_payment_wf(pre, subscriber, plan_id, now, balance);
                }
                Err(ContractError::InsufficientBalance)
            }
        }
    }

    /// Pauses the subscription of `subscriber` to plan `plan_id`.
    pub fn pause_subscription(&mut self, subscriber: AccountId, plan_id: u64) -> (r: Result<
        (),
        ContractError,
    >)
        requires
            old(self).wf(),
        ensures
            final(self).wf(),
            final(self)@ == old(self)@.pause_subscription(subscriber, plan_id).0,
            r == old(self)@.pause_subscription(subscriber, plan_id).1,
    {
        let si = match self.find_subscription(subscriber, plan_id) {
            None => return Err(ContractError::SubscriptionNotFound),
            Some(i) => i,
        };
        let sub = self.subscribers[si];
        if sub.status == SubscriptionStatus::Paused {
            return Err(ContractError::AlreadyPaused);
        }
        if sub.status == SubscriptionStatus::Cancelled {
            return Err(ContractError::AlreadyCancelled);
        }
        let ghost pre = self@;
        self.subscribers.set(si, Subscriber { status: SubscriptionStatus::Paused, ..sub });
        self.events.push(Event::SubscriptionPaused { subscriber, plan_id });
        proof {
            assert(self@ =~= pre.pause_subscription(subscriber, plan_id).0);
            lemma_pause_subscription_wf(pre, subscriber, plan_id);
        }
        Ok(())
    }

    /// Resumes the paused subscription of `subscriber` to plan `plan_id`; the
    /// next charge falls one interval after `now`.
    pub fn resume_subscription(&mut self, subscriber: AccountId, plan_id: u64, now: u64) -> (r: Result<
        (),
        ContractError,
    >)
        requires
            old(self).wf(),
            old(self)@.resume_subscription_fits(subscriber, plan_id, now),
        ensures
            final(self).wf(),
            final(self)@ == old(self)@.resume_subscription(subscriber, plan_id, now).0,
            r == old(self)@.resume_subscription(subscriber, plan_id, now).1,
    {
        let si = match self.find_subscription(subscriber, plan_id) {
            None => return Err(ContractError::SubscriptionNotFound),
            Some(i) => i,
        };
        let sub = self.subscribers[si];
        if sub.status != SubscriptionStatus::Paused {
            return Err(ContractError::NotPaused);
        }
        let pi = match self.find_plan(plan_id) {
            None => return Err(ContractError::PlanNotFound),
            Some(i) => i,
        };
        let ghost pre = self@;
        let next_billing_at = now + self.plans[pi].interval;
        self.subscribers.set(
            si,
            Subscriber { next_billing_at, status: SubscriptionStatus::Active, ..sub },
        );
        self.events.push(Event::SubscriptionResumed { subscriber, plan_id });
        proof {
            assert(self@ =~= pre.resume_subscription(subscriber, plan_id, now).0);
            lemma_resume_subscription_wf(pre, subscriber, plan_id, now);
        }
        Ok(())
    }

    /// Cancels the subscription of `subscriber` to plan `plan_id` for good.
    pub fn cancel_subscription(&mut self, subscriber: AccountId, plan_id: u64) -> (r: Result<
        (),
        ContractError,
    >)
        requires
            old(self).wf(),
        ensures
            final(self).wf(),
            final(self)@ == old(self)@.cancel_subscription(subscriber, plan_id).0,
            r == old(self)@.cancel_subscription(subscriber, plan_id).1,
    {
        let si = match self.find_subscription(subscriber, plan_id) {
            None => return Err(ContractError::SubscriptionNotFound),
            Some(i) => i,
        };
        let sub = self.subscribers[si];
        if sub.status == SubscriptionStatus::Cancelled {
            return Err(ContractError::AlreadyCancelled);
        }
        let ghost pre = self@;
        self.subscribers.set(si, Subscriber { status: SubscriptionStatus::Cancelled, ..sub });
        self.events.push(Event::SubscriptionCancelled { subscriber, plan_id });
        proof {
            assert(self@ =~= pre.cancel_subscription(subscriber, plan_id).0);
            lemma_cancel_subscription_wf(pre, subscriber, plan_id);
        }
        Ok(())
    }

    // ── Queries ─────────────────────────────────────────────────────────────

    /// The merchant registered under `merchant_id`, if any.
    pub fn get_merchant(&self, merchant_id: AccountId) -> (r: Option<Merchant>)
        requires
            self.wf(),
        ensures
            r == self@.merchant(merchant_id),
    {
        match self.find_merchant(merchant_id) {
            None => None,
            Some(i) => Some(self.merchants[i].clone()),
        }
    }

    /// The plan with id `plan_id`, if any.
    pub fn get_plan(&self, plan_id: u64) -> (r: Option<SubscriptionPlan>)
        ensures
            r == self@.plan(plan_id),
    {
        match self.find_plan(plan_id) {
            None => None,
            Some(i) => Some(self.plans[i].clone()),
        }
    }

    /// The subscription of `subscriber` to plan `plan_id`, if any.
    pub fn get_subscriber(&self, subscriber: AccountId, plan_id: u64) -> (r: Option<Subscriber>)
        requires
            self.wf(),
        ensures
            r == self@.subscription(subscriber, plan_id),
    {
        match self.find_subscription(subscriber, plan_id) {
            None => None,
            Some(i) => Some(self.subscribers[i]),
        }
    }

    /// The payment record with id `payment_id`, if any.
    pub fn get_payment(&self, payment_id: u64) -> (r: Option<PaymentRecord>)
        ensures
            r == self@.payment(payment_id),
    {
        if 1 <= payment_id && payment_id <= self.payments.len() as u64 {
            Some(self.payments[(payment_id - 1) as usize])
        } else {
            None
        }
    }

    /// The ids of the plans of merchant `merchant_id`, in creation order.
    pub fn get_merchant_plans(&self, merchant_id: AccountId) -> (r: Vec<u64>)
        ensures
            r@ == self@.merchant_plans(merchant_id),
    {
        let mut r: Vec<u64> = Vec::new();
        let mut i: usize = 0;
        while i < self.plans.len()
            invariant
                i <= self.plans@.len(),
                r@ == plan_ids_of_merchant(self@.plans.take(i as int), merchant_id),
            decreases self.plans@.len() - i,
        {
            proof {
                assert(self@.plans.take(i + 1).drop_last() =~= self@.plans.take(i as int));
            }
            if self.plans[i].merchant_id == merchant_id {
                r.push(self.plans[i].plan_id);
            }
            i += 1;
        }
        proof {
            assert(self@.plans.take(i as int) =~= self@.plans);
        }
        r
    }

    /// The ids of the plans that `subscriber` subscribed to, in order.
    pub fn get_subscriber_plans(&self, subscriber: AccountId) -> (r: Vec<u64>)
        ensures
            r@ == self@.subscriber_plans(subscriber),
    {
        let mut r: Vec<u64> = Vec::new();
        let mut i: usize = 0;
        while i < self.subscribers.len()
            invariant
                i <= self.subscribers@.len(),
                r@ == plan_ids_of_subscriber(self@.subscribers.take(i as int), subscriber),
            decreases self.subscribers@.len() - i,
        {
            proof {
                assert(self@.subscribers.take(i + 1).drop_last() =~= self@.subscribers.take(i as int));
            }
            if self.subscribers[i].subscriber == subscriber {
                r.push(self.subscribers[i].plan_id);
            }
            i += 1;
        }
        proof {
            assert(self@.subscribers.take(i as int) =~= self@.subscribers);
        }
        r
    }

    // ── Host interface ──────────────────────────────────────────────────────

    /// Hands the events recorded so far to the host and forgets them.
    pub fn take_events(&mut self) -> (r: Vec<Event>)
        requires
            old(self).wf(),
        ensures
            final(self).wf(),
            r@ == old(self)@.events,
            final(self)@ == (EngineState { events: Seq::empty(), ..old(self)@ }),
    {
        let mut r: Vec<Event> = Vec::new();
        std::mem::swap(&mut r, &mut self.events);
        proof {
            lemma_wf_ignores_logs(old(self)@, self@);
            assert(self@ =~= (EngineState { events: Seq::empty(), ..old(self)@ }));
        }
        r
    }

    /// Hands the token transfers queued so far to the host and forgets them.
    pub fn take_transfers(&mut self) -> (r: Vec<Transfer>)
        requires
            old(self).wf(),
        ensures
            final(self).wf(),
            r@ == old(self)@.transfers,
            final(self)@ == (EngineState { transfers: Seq::empty(), ..old(self)@ }),
    {
        let mut r: Vec<Transfer> = Vec::new();
        std::mem::swap(&mut r, &mut self.transfers);
        proof {
            lemma_wf_ignores_logs(old(self)@, self@);
            assert(self@ =~= (EngineState { transfers: Seq::empty(), ..old(self)@ }));
        }
        r
    }

    /// Every merchant, in registration order.
    pub fn merchant_records(&self) -> (r: &Vec<Merchant>)
        ensures
            r@ == self@.merchants,
    {
        &self.merchants
    }

    /// Every plan, in id order.
    pub fn plan_records(&self) -> (r: &Vec<SubscriptionPlan>)
        ensures
            r@ == self@.plans,
    {
        &self.plans
    }

    /// Every subscription, in the order in which they were taken out.
    pub fn subscriber_records(&self) -> (r: &Vec<Subscriber>)
        ensures
            r@ == self@.subscribers,
    {
        &self.subscribers
    }

    /// The payment log, in id order.
    pub fn payment_records(&self) -> (r: &Vec<PaymentRecord>)
        ensures
            r@ == self@.payments,
    {
        &self.payments
    }

    /// Rebuilds an engine from stored records, with no pending events or
    /// transfers; `None` when the records do not form a well-formed state.
    pub fn restore(
        merchants: Vec<Merchant>,
        plans: Vec<SubscriptionPlan>,
        subscribers: Vec<Subscriber>,
        payments: Vec<PaymentRecord>,
    ) -> (r: Option<Self>)
        ensures
            ({
                let s = EngineState {
                    merchants: merchants@,
                    plans: plans@,
                    subscribers: subscribers@,
                    payments: payments@,
                    events: Seq::empty(),
                    transfers: Seq::empty(),
                };
                &&& r is Some <==> s.wf()
                &&& r matches Some(e) ==> e@ == s && e.wf()
            }),
    {
        let e = SubscriptionEngine {
            merchants,
            plans,
            subscribers,
            payments,
            events: Vec::new(),
            transfers: Vec::new(),
        };
        if e.check_wf() {
            Some(e)
        } else {
            None
        }
    }

    fn check_wf(&self) -> (r: bool)
        ensures
            r == self.wf(),
    {
        let ghost s = self@;
        // Merchant ids are unique.
        let n = self.merchants.len();
        let mut i: usize = 0;
        while i < n
            invariant
                s == self@,
                n == self.merchants@.len(),
                i <= n,
                forall|a: int, b: int|
                    0 <= a < i && a < b < n ==> #[trigger] self.merchants@[a].merchant_id
                        != #[trigger] self.merchants@[b].merchant_id,
            decreases n - i,
        {
            let mut j: usize = i + 1;
            while j < n
                invariant
                s == self@,
                    n == self.merchants@.len(),
                    i < n,
                    i < j <= n,
                    forall|a: int, b: int|
                        0 <= a < i && a < b < n ==> #[trigger] self.merchants@[a].merchant_id
                            != #[trigger] self.merchants@[b].merchant_id,
                    forall|b: int|
                        i < b < j ==> self.merchants@[i as int].merchant_id
                            != #[trigger] self.merchants@[b].merchant_id,
                decreases n - j,
            {
                if self.merchants[i].merchant_id == self.merchants[j].merchant_id {
                    assert(s.merchants[i as int].merchant_id == s.merchants[j as int].merchant_id);
                    return false;
                }
                j += 1;
            }
            i += 1;
        }
        assert forall|a: int, b: int|
            0 <= a < s.merchants.len() && 0 <= b < s.merchants.len()
                && #[trigger] s.merchants[a].merchant_id == #[trigger] s.merchants[b].merchant_id
                implies a == b by {
            if a < b {
                assert(self.merchants@[a].merchant_id != self.merchants@[b].merchant_id);
            } else if b < a {
                assert(self.merchants@[b].merchant_id != self.merchants@[a].merchant_id);
            }
        }
        // Plans carry their position as id, belong to a registered merchant
        // and charge a positive amount at a positive interval.
        let np = self.plans.len();
        let mut i: usize = 0;
        while i < np
            invariant
                s == self@,
                np == self.plans@.len(),
                i <= np,
                forall|k: int|
                    0 <= k < i ==> {
                        &&& (#[trigger] s.plans[k]).plan_id == k + 1
                        &&& s.has_merchant(s.plans[k].merchant_id)
                        &&& s.plans[k].amount > 0
                        &&& s.plans[k].interval > 0
                    },
            decreases np - i,
        {
            let p = &self.plans[i];
            if p.plan_id != i as u64 + 1 || p.amount <= 0 || p.interval == 0 {
                assert(s.plans[i as int] == *p);
                return false;
            }
            if self.merchant_position(p.merchant_id).is_none() {
                assert(s.plans[i as int] == *p);
                return false;
            }
            i += 1;
        }
        // Subscriptions are unique per subscriber and plan and refer to a
        // stored plan.
        let ns = self.subscribers.len();
        let mut i: usize = 0;
        while i < ns
            invariant
                s == self@,
                ns == self.subscribers@.len(),
                np == self.plans@.len(),
                i <= ns,
                forall|a: int| 0 <= a < i ==> 1 <= (#[trigger] self.subscribers@[a]).plan_id <= np,
                forall|a: int, b: int|
                    0 <= a < i && a < b < ns ==> !((#[trigger] self.subscribers@[a]).subscriber
                        == (#[trigger] self.subscribers@[b]).subscriber
                        && self.subscribers@[a].plan_id == self.subscribers@[b].plan_id),
            decreases ns - i,
        {
            let si = self.subscribers[i];
            if si.plan_id < 1 || si.plan_id > np as u64 {
                assert(s.subscribers[i as int] == si);
                return false;
            }
            let mut j: usize = i + 1;
            while j < ns
                invariant
                s == self@,
                    ns == self.subscribers@.len(),
                    i < ns,
                    i < j <= ns,
                    si == self.subscribers@[i as int],
                    forall|a: int, b: int|
                        0 <= a < i && a < b < ns ==> !((#[trigger] self.subscribers@[a]).subscriber
                            == (#[trigger] self.subscribers@[b]).subscriber
                            && self.subscribers@[a].plan_id == self.subscribers@[b].plan_id),
                    forall|b: int|
                        i < b < j ==> !(si.subscriber == (#[trigger] self.subscribers@[b]).subscriber
                            && si.plan_id == self.subscribers@[b].plan_id),
                decreases ns - j,
            {
                let sj = self.subscribers[j];
                if si.subscriber == sj.subscriber && si.plan_id == sj.plan_id {
                    assert(s.subscribers[i as int] == si && s.subscribers[j as int] == sj);
                    return false;
                }
                j += 1;
            }
            i += 1;
        }
        assert forall|a: int, b: int|
            0 <= a < s.subscribers.len() && 0 <= b < s.subscribers.len()
                && (#[trigger] s.subscribers[a]).subscriber == (#[trigger] s.subscribers[b]).subscriber
                && s.subscribers[a].plan_id == s.subscribers[b].plan_id
                implies a == b by {
            if a < b {
                assert(!(self.subscribers@[a].subscriber == self.subscribers@[b].subscriber
                    && self.subscribers@[a].plan_id == self.subscribers@[b].plan_id));
            } else if b < a {
                assert(!(self.subscribers@[b].subscriber == self.subscribers@[a].subscriber
                    && self.subscribers@[b].plan_id == self.subscribers@[a].plan_id));
            }
        }
        // Payments carry their position as id.
        let nq = self.payments.len();
        let mut i: usize = 0;
        while i < nq
            invariant
                s == self@,
                nq == self.payments@.len(),
                i <= nq,
                forall|k: int| 0 <= k < i ==> (#[trigger] self.payments@[k]).payment_id == k + 1,
            decreases nq - i,
        {
            if self.payments[i].payment_id != i as u64 + 1 {
                assert(s.payments[i as int] == self.payments@[i as int]);
                return false;
            }
            i += 1;
        }
        true
    }

    // ── Charges ─────────────────────────────────────────────────────────────

    /// The first payment that `subscribe` would charge, or the error with
    /// which it refuses the request before looking at the payer's balance.
    pub fn subscribe_charge(&self, subscriber: AccountId, plan_id: u64) -> (r: Result<
        Transfer,
        ContractError,
    >)
        requires
            self.wf(),
        ensures
            match r {
                Ok(t) => self@.subscribe_error(subscriber, plan_id) is None && t == self@.charge(
                    subscriber,
                    plan_id,
                ),
                Err(e) => self@.subscribe_error(subscriber, plan_id) == Some(e),
            },
    {
        let pi = match self.find_plan(plan_id) {
            None => return Err(ContractError::PlanNotFound),
            Some(i) => i,
        };
        if !self.plans[pi].active {
            return Err(ContractError::PlanInactive);
        }
        let mi = match self.find_merchant(self.plans[pi].merchant_id) {
            None => return Err(ContractError::MerchantNotFound),
            Some(i) => i,
        };
        if !self.merchants[mi].active {
            return Err(ContractError::MerchantInactive);
        }
        if self.find_subscription(subscriber, plan_id).is_some() {
            return Err(ContractError::SubscriptionAlreadyExists);
        }
        Ok(
            Transfer {
                token: self.plans[pi].token,
                from: subscriber,
                to: self.merchants[mi].treasury_wallet,
                amount: self.plans[pi].amount,
            },
        )
    }

    /// The payment that a billing cycle at time `now` would charge, or the
    /// error with which `process_payment` refuses the request before looking
    /// at the payer's balance.
    pub fn billing_charge(&self, subscriber: AccountId, plan_id: u64, now: u64) -> (r: Result<
        Transfer,
        ContractError,
    >)
        requires
            self.wf(),
        ensures
            match r {
                Ok(t) => self@.process_payment_error(subscriber, plan_id, now) is None && t
                    == self@.charge(subscriber, plan_id),
                Err(e) => self@.process_payment_error(subscriber, plan_id, now) == Some(e),
            },
    {
        let si = match self.find_subscription(subscriber, plan_id) {
            None => return Err(ContractError::SubscriptionNotFound),
            Some(i) => i,
        };
        let sub = self.subscribers[si];
        if sub.status == SubscriptionStatus::Cancelled {
            return Err(ContractError::AlreadyCancelled);
        }
        if sub.status == SubscriptionStatus::Paused {
            return Err(ContractError::SubscriptionNotActive);
        }
        let pi = match self.find_plan(plan_id) {
            None => return Err(ContractError::PlanNotFound),
            Some(i) => i,
        };
        let mi = match self.find_merchant(self.plans[pi].merchant_id) {
            None => return Err(ContractError::MerchantNotFound),
            Some(i) => i,
        };
        if now < sub.next_billing_at {
            return Err(ContractError::BillingNotDue);
        }
        Ok(
            Transfer {
                token: self.plans[pi].token,
                from: subscriber,
                to: self.merchants[mi].treasury_wallet,
                amount: self.plans[pi].amount,
            },
        )
    }

    // ── Range checks ────────────────────────────────────────────────────────

    /// Whether `create_plan` with these arguments stays within its integer
    /// types; see `EngineState::create_plan_fits`.
    pub fn create_plan_fits(&self, merchant_id: AccountId, amount: i128, interval: u64) -> (r: bool)
        requires
            self.wf(),
        ensures
            r == self@.create_plan_fits(merchant_id, amount, interval),
    {
        match self.find_merchant(merchant_id) {
            None => true,
            Some(i) => !self.merchants[i].active || amount <= 0 || interval == 0 || (self.plans.len() as u64) < u64::MAX,
        }
    }

    /// Whether `subscribe` with these arguments stays within its integer
    /// types; see `EngineState::subscribe_fits`.
    pub fn subscribe_fits(&self, subscriber: AccountId, plan_id: u64, now: u64, balance: i128) -> (r:
        bool)
        requires
            self.wf(),
        ensures
            r == self@.subscribe_fits(subscriber, plan_id, now, balance),
    {
        let pi = match self.find_plan(plan_id) {
            None => return true,
            Some(i) => i,
        };
        if !self.plans[pi].active {
            return true;
        }
        let mi = match self.find_merchant(self.plans[pi].merchant_id) {
            None => return true,
            Some(i) => i,
        };
        if !self.merchants[mi].active || self.find_subscription(subscriber, plan_id).is_some()
            || balance < self.plans[pi].amount {
            return true;
        }
        now <= u64::MAX - self.plans[pi].interval && (self.payments.len() as u64) < u64::MAX
    }

    /// Whether `process_payment` with these arguments stays within its
    /// integer types; see `EngineState::process_payment_fits`.
    pub fn process_payment_fits(&self, subscriber: AccountId, plan_id: u64, now: u64, balance: i128) -> (r:
        bool)
        requires
            self.wf(),
        ensures
            r == self@.process_payment_fits(subscriber, plan_id, now, balance),
    {
        let si = match self.find_subscription(subscriber, plan_id) {
            None => return true,
            Some(i) => i,
        };
        let sub = self.subscribers[si];
        if sub.status == SubscriptionStatus::Cancelled || sub.status == SubscriptionStatus::Paused {
            return true;
        }
        let pi = match self.find_plan(plan_id) {
            None => return true,
            Some(i) => i,
        };
        if self.find_merchant(self.plans[pi].merchant_id).is_none() || now < sub.next_billing_at {
            return true;
        }
        let plan = &self.plans[pi];
        let payments_fit = (self.payments.len() as u64) < u64::MAX;
        if sub.next_billing_at > u64::MAX - plan.grace_period {
            false
        } else if balance >= plan.amount {
            now <= u64::MAX - plan.interval && payments_fit
        } else if sub.retries == u32::MAX {
            false
        } else if sub.retries + 1 >= plan.retry_limit {
            payments_fit
        } else {
            true
        }
    }

    /// Whether `resume_subscription` with these arguments stays within its
    /// integer types; see `EngineState::resume_subscription_fits`.
    pub fn resume_subscription_fits(&self, subscriber: AccountId, plan_id: u64, now: u64) -> (r: bool)
        requires
            self.wf(),
        ensures
            r == self@.resume_subscription_fits(subscriber, plan_id, now),
    {
        let si = match self.find_subscription(subscriber, plan_id) {
            None => return true,
            Some(i) => i,
        };
        if self.subscribers[si].status != SubscriptionStatus::Paused {
            return true;
        }
        match self.find_plan(plan_id) {
            None => true,
            Some(pi) => now <= u64::MAX - self.plans[pi].interval,
        }
    }
}

} // verus!
