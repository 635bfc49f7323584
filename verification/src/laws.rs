use vstd::prelude::*;

use crate::errors::ContractError;
use crate::state::{
    lemma_merchant_at, lemma_merchants_kept, lemma_subscription_at, lemma_subscription_kept,
    EngineState, Request,
};
use crate::types::{
    AccountId, Merchant, PaymentRecord, Subscriber, SubscriptionPlan, SubscriptionStatus, Transfer,
};

verus! {

/// Registering a merchant keeps the engine well formed.
pub proof fn lemma_register_merchant_wf(s: EngineState, name: String, treasury_wallet: AccountId, now: u64)
    requires
        s.wf(),
    ensures
        s.register_merchant(name, treasury_wallet, now).0.wf(),
{
    let n = s.register_merchant(name, treasury_wallet, now).0;
    if !s.has_merchant(treasury_wallet) {
        lemma_merchants_kept(s, n);
        assert forall|i: int, j: int|
            0 <= i < n.merchants.len() && 0 <= j < n.merchants.len()
                && #[trigger] n.merchants[i].merchant_id == #[trigger] n.merchants[j].merchant_id
                implies i == j by {
            if i < s.merchants.len() && j == s.merchants.len() {
                assert(!s.is_merchant_at(i, treasury_wallet));
            }
            if j < s.merchants.len() && i == s.merchants.len() {
                assert(!s.is_merchant_at(j, treasury_wallet));
            }
        }
        assert forall|i: int| 0 <= i < n.plans.len() implies n.has_merchant(
            (#[trigger] n.plans[i]).merchant_id,
        ) by {
            assert(s.has_merchant(s.plans[i].merchant_id));
        }
    }
}

/// A state that keeps every key of a well-formed state in place, adds no
/// merchant, plan or subscription, keeps plan amounts and intervals positive
/// and numbers its payments by position is well formed.
pub proof fn lemma_wf_keys_kept(s: EngineState, n: EngineState)
    requires
        s.wf(),
        n.merchants.len() == s.merchants.len(),
        forall|k: int|
            0 <= k < s.merchants.len() ==> #[trigger] n.merchants[k].merchant_id
                == s.merchants[k].merchant_id,
        n.plans.len() == s.plans.len(),
        forall|k: int|
            0 <= k < s.plans.len() ==> {
                &&& (#[trigger] n.plans[k]).plan_id == s.plans[k].plan_id
                &&& n.plans[k].merchant_id == s.plans[k].merchant_id
                &&& n.plans[k].amount > 0
                &&& n.plans[k].interval > 0
            },
        n.subscribers.len() == s.subscribers.len(),
        forall|k: int|
            0 <= k < s.subscribers.len() ==> {
                &&& (#[trigger] n.subscribers[k]).subscriber == s.subscribers[k].subscriber
                &&& n.subscribers[k].plan_id == s.subscribers[k].plan_id
            },
        forall|k: int| 0 <= k < n.payments.len() ==> (#[trigger] n.payments[k]).payment_id == k + 1,
    ensures
        n.wf(),
{
    lemma_merchants_kept(s, n);
    assert forall|i: int, j: int|
        0 <= i < n.merchants.len() && 0 <= j < n.merchants.len()
            && #[trigger] n.merchants[i].merchant_id == #[trigger] n.merchants[j].merchant_id
            implies i == j by {
        assert(s.merchants[i].merchant_id == s.merchants[j].merchant_id);
    }
    assert forall|i: int| 0 <= i < n.plans.len() implies n.has_merchant(
        (#[trigger] n.plans[i]).merchant_id,
    ) by {
        assert(s.has_merchant(s.plans[i].merchant_id));
    }
    assert forall|i: int, j: int|
        0 <= i < n.subscribers.len() && 0 <= j < n.subscribers.len()
            && (#[trigger] n.subscribers[i]).subscriber == (#[trigger] n.subscribers[j]).subscriber
            && n.subscribers[i].plan_id == n.subscribers[j].plan_id
            implies i == j by {
        assert(s.subscribers[i].subscriber == s.subscribers[j].subscriber);
    }
    assert forall|i: int| 0 <= i < n.subscribers.len() implies 1 <= (
    #[trigger] n.subscribers[i]).plan_id <= n.plans.len() by {
        assert(s.subscribers[i].plan_id == n.subscribers[i].plan_id);
    }
}

/// Pointing a merchant's payouts elsewhere keeps the engine well formed.
pub proof fn lemma_update_treasury_wf(s: EngineState, merchant_id: AccountId, new_treasury: AccountId)
    requires
        s.wf(),
    ensures
        s.update_treasury(merchant_id, new_treasury).0.wf(),
{
    let n = s.update_treasury(merchant_id, new_treasury).0;
    if s.has_merchant(merchant_id) {
        let k = s.merchant_index(merchant_id);
        assert(s.is_merchant_at(k, merchant_id));
        lemma_wf_keys_kept(s, n);
    }
}

/// Creating a plan keeps the engine well formed.
pub proof fn lemma_create_plan_wf(
    s: EngineState,
    merchant_id: AccountId,
    name: String,
    amount: i128,
    token: AccountId,
    interval: u64,
    grace_period: u64,
    retry_limit: u32,
)
    requires
        s.wf(),
        s.create_plan_fits(merchant_id, amount, interval),
    ensures
        s.create_plan(merchant_id, name, amount, token, interval, grace_period, retry_limit).0.wf(),
{
    let n = s.create_plan(merchant_id, name, amount, token, interval, grace_period, retry_limit).0;
    if s.create_plan_error(merchant_id, amount, interval) is None {
        lemma_merchants_kept(s, n);
        assert forall|i: int| 0 <= i < n.plans.len() implies {
            &&& (#[trigger] n.plans[i]).plan_id == i + 1
            &&& n.has_merchant(n.plans[i].merchant_id)
            &&& n.plans[i].amount > 0
            &&& n.plans[i].interval > 0
        } by {
            if i < s.plans.len() {
                assert(s.has_merchant(s.plans[i].merchant_id));
            } else {
                assert(s.has_merchant(merchant_id));
            }
        }
        assert forall|i: int| 0 <= i < n.subscribers.len() implies 1 <= (
        #[trigger] n.subscribers[i]).plan_id <= n.plans.len() by {
            assert(s.subscribers[i] == n.subscribers[i]);
        }
    }
}

/// Changing a plan's terms keeps the engine well formed.
pub proof fn lemma_update_plan_wf(
    s: EngineState,
    merchant_id: AccountId,
    plan_id: u64,
    amount: i128,
    interval: u64,
    grace_period: u64,
    retry_limit: u32,
)
    requires
        s.wf(),
    ensures
        s.update_plan(merchant_id, plan_id, amount, interval, grace_period, retry_limit).0.wf(),
{
    let n = s.update_plan(merchant_id, plan_id, amount, interval, grace_period, retry_limit).0;
    if s.update_plan_error(merchant_id, plan_id, amount, interval) is None {
        lemma_wf_keys_kept(s, n);
    }
}

/// Disabling a plan keeps the engine well formed.
pub proof fn lemma_disable_plan_wf(s: EngineState, merchant_id: AccountId, plan_id: u64)
    requires
        s.wf(),
    ensures
        s.disable_plan(merchant_id, plan_id).0.wf(),
{
    let n = s.disable_plan(merchant_id, plan_id).0;
    if s.plan(plan_id) is Some {
        lemma_wf_keys_kept(s, n);
    }
}

/// Subscribing keeps the engine well formed.
pub proof fn lemma_subscribe_wf(s: EngineState, subscriber: AccountId, plan_id: u64, now: u64, balance: i128)
    requires
        s.wf(),
        s.subscribe_fits(subscriber, plan_id, now, balance),
    ensures
        s.subscribe(subscriber, plan_id, now, balance).0.wf(),
{
    let n = s.subscribe(subscriber, plan_id, now, balance).0;
    if s.subscribe_charges(subscriber, plan_id, balance) {
        lemma_merchants_kept(s, n);
        assert forall|i: int| 0 <= i < n.plans.len() implies n.has_merchant(
            (#[trigger] n.plans[i]).merchant_id,
        ) by {
            assert(s.has_merchant(s.plans[i].merchant_id));
        }
        assert forall|i: int, j: int|
            0 <= i < n.subscribers.len() && 0 <= j < n.subscribers.len()
                && (#[trigger] n.subscribers[i]).subscriber == (#[trigger] n.subscribers[j]).subscriber
                && n.subscribers[i].plan_id == n.subscribers[j].plan_id
                implies i == j by {
            if i < s.subscribers.len() && j == s.subscribers.len() {
                assert(!s.is_subscription_at(i, subscriber, plan_id));
            }
            if j < s.subscribers.len() && i == s.subscribers.len() {
                assert(!s.is_subscription_at(j, subscriber, plan_id));
            }
        }
    }
}

/// Running a billing cycle keeps the engine well formed.
pub proof fn lemma_process_payment_wf(
    s: EngineState,
    subscriber: AccountId,
    plan_id: u64,
    now: u64,
    balance: i128,
)
    requires
        s.wf(),
        s.process_payment_fits(subscriber, plan_id, now, balance),
    ensures
        s.process_payment(subscriber, plan_id, now, balance).0.wf(),
{
    let n = s.process_payment(subscriber, plan_id, now, balance).0;
    if s.process_payment_error(subscriber, plan_id, now) is None {
        let k = s.subscription_index(subscriber, plan_id);
        assert(s.is_subscription_at(k, subscriber, plan_id));
        lemma_wf_keys_kept(s, n);
    }
}

/// Pausing keeps the engine well formed.
pub proof fn lemma_pause_subscription_wf(s: EngineState, subscriber: AccountId, plan_id: u64)
    requires
        s.wf(),
    ensures
        s.pause_subscription(subscriber, plan_id).0.wf(),
{
    let n = s.pause_subscription(subscriber, plan_id).0;
    if s.has_subscription(subscriber, plan_id) {
        let k = s.subscription_index(subscriber, plan_id);
        assert(s.is_subscription_at(k, subscriber, plan_id));
        lemma_wf_keys_kept(s, n);
    }
}

/// Resuming keeps the engine well formed.
pub proof fn lemma_resume_subscription_wf(s: EngineState, subscriber: AccountId, plan_id: u64, now: u64)
    requires
        s.wf(),
    ensures
        s.resume_subscription(subscriber, plan_id, now).0.wf(),
{
    let n = s.resume_subscription(subscriber, plan_id, now).0;
    if s.has_subscription(subscriber, plan_id) {
        let k = s.subscription_index(subscriber, plan_id);
        assert(s.is_subscription_at(k, subscriber, plan_id));
        lemma_wf_keys_kept(s, n);
    }
}

/// Cancelling keeps the engine well formed.
pub proof fn lemma_cancel_subscription_wf(s: EngineState, subscriber: AccountId, plan_id: u64)
    requires
        s.wf(),
    ensures
        s.cancel_subscription(subscriber, plan_id).0.wf(),
{
    let n = s.cancel_subscription(subscriber, plan_id).0;
    if s.has_subscription(subscriber, plan_id) {
        let k = s.subscription_index(subscriber, plan_id);
        assert(s.is_subscription_at(k, subscriber, plan_id));
        lemma_wf_keys_kept(s, n);
    }
}

// ── Laws over every request ─────────────────────────────────────────────────

/// Every request keeps the engine well formed.
pub proof fn lemma_apply_wf(s: EngineState, req: Request)
    requires
        s.wf(),
        s.fits(req),
    ensures
        s.apply(req).wf(),
{
    match req {
        Request::RegisterMerchant { name, treasury_wallet, now } => lemma_register_merchant_wf(
            s,
            name,
            treasury_wallet,
            now,
        ),
        Request::UpdateTreasury { merchant_id, new_treasury } => lemma_update_treasury_wf(
            s,
            merchant_id,
            new_treasury,
        ),
        Request::CreatePlan { merchant_id, name, amount, token, interval, grace_period, retry_limit } =>
            lemma_create_plan_wf(
            s,
            merchant_id,
            name,
            amount,
            token,
            interval,
            grace_period,
            retry_limit,
        ),
        Request::UpdatePlan { merchant_id, plan_id, amount, interval, grace_period, retry_limit } =>
            lemma_update_plan_wf(s, merchant_id, plan_id, amount, interval, grace_period, retry_limit),
        Request::DisablePlan { merchant_id, plan_id } => lemma_disable_plan_wf(s, merchant_id, plan_id),
        Request::Subscribe { subscriber, plan_id, now, balance } => lemma_subscribe_wf(
            s,
            subscriber,
            plan_id,
            now,
            balance,
        ),
        Request::ProcessPayment { subscriber, plan_id, now, balance } => lemma_process_payment_wf(
            s,
            subscriber,
            plan_id,
            now,
            balance,
        ),
        Request::PauseSubscription { subscriber, plan_id } => lemma_pause_subscription_wf(
            s,
            subscriber,
            plan_id,
        ),
        Request::ResumeSubscription { subscriber, plan_id, now } => lemma_resume_subscription_wf(
            s,
            subscriber,
            plan_id,
            now,
        ),
        Request::CancelSubscription { subscriber, plan_id } => lemma_cancel_subscription_wf(
            s,
            subscriber,
            plan_id,
        ),
    }
}

/// A refused request changes nothing. The one exception is a failed charge
/// in `process_payment`, answered with `InsufficientBalance` or
/// `RetryLimitExceeded`, which records the missed payment.
pub proof fn lemma_refusal_changes_nothing(s: EngineState, req: Request)
    ensures
        s.refusal(req) matches Some(e) ==> (req is ProcessPayment && (e
            == ContractError::InsufficientBalance || e == ContractError::RetryLimitExceeded))
            || s.apply(req) == s,
{
}

/// A cancelled subscription stays cancelled, unchanged, whatever is asked
/// of the engine.
pub proof fn lemma_cancelled_is_final(s: EngineState, req: Request, subscriber: AccountId, plan_id: u64)
    requires
        s.wf(),
        s.subscription(subscriber, plan_id) matches Some(sub) && sub.status
            == SubscriptionStatus::Cancelled,
    ensures
        s.apply(req).subscription(subscriber, plan_id) == s.subscription(subscriber, plan_id),
{
    let n = s.apply(req);
    let k = s.subscription_index(subscriber, plan_id);
    assert(s.is_subscription_at(k, subscriber, plan_id));
    match req {
        Request::Subscribe { subscriber: a, plan_id: p, now, balance } => {
            if a == subscriber && p == plan_id {
                assert(s.subscribe_error(a, p) is Some);
            }
        },
        Request::ProcessPayment { subscriber: a, plan_id: p, now, balance } => {
            if s.process_payment_error(a, p, now) is None {
                let j = s.subscription_index(a, p);
                assert(s.is_subscription_at(j, a, p));
                assert(j != k);
            }
        },
        Request::PauseSubscription { subscriber: a, plan_id: p } => {
            if s.has_subscription(a, p) && !(a == subscriber && p == plan_id) {
                let j = s.subscription_index(a, p);
                assert(s.is_subscription_at(j, a, p));
                assert(j != k);
            }
        },
        Request::ResumeSubscription { subscriber: a, plan_id: p, now } => {
            if s.has_subscription(a, p) && !(a == subscriber && p == plan_id) {
                let j = s.subscription_index(a, p);
                assert(s.is_subscription_at(j, a, p));
                assert(j != k);
            }
        },
        Request::CancelSubscription { subscriber: a, plan_id: p } => {
            if s.has_subscription(a, p) && !(a == subscriber && p == plan_id) {
                let j = s.subscription_index(a, p);
                assert(s.is_subscription_at(j, a, p));
                assert(j != k);
            }
        },
        _ => {},
    }
    lemma_subscription_kept(s, n, subscriber, plan_id);
}

/// Nothing stored is ever lost: registered merchants stay registered; plans
/// keep their id, merchant, name and token; subscriptions keep their place,
/// subscriber, plan and start time; and the payment log, the event log and
/// the transfer queue are only ever appended to.
#[verifier::spinoff_prover]
#[verifier::rlimit(40)]
pub proof fn lemma_history_is_kept(s: EngineState, req: Request)
    requires
        s.wf(),
    ensures
        forall|id: AccountId| #[trigger] s.has_merchant(id) ==> s.apply(req).has_merchant(id),
        s.plans.len() <= s.apply(req).plans.len(),
        forall|i: int|
            0 <= i < s.plans.len() ==> {
                let p = #[trigger] s.apply(req).plans[i];
                &&& p.plan_id == s.plans[i].plan_id
                &&& p.merchant_id == s.plans[i].merchant_id
                &&& p.name == s.plans[i].name
                &&& p.token == s.plans[i].token
            },
        s.subscribers.len() <= s.apply(req).subscribers.len(),
        forall|i: int|
            0 <= i < s.subscribers.len() ==> {
                let x = #[trigger] s.apply(req).subscribers[i];
                &&& x.subscriber == s.subscribers[i].subscriber
                &&& x.plan_id == s.subscribers[i].plan_id
                &&& x.started_at == s.subscribers[i].started_at
            },
        s.apply(req).payments.subrange(0, s.payments.len() as int) == s.payments,
        s.apply(req).events.subrange(0, s.events.len() as int) == s.events,
        s.apply(req).transfers.subrange(0, s.transfers.len() as int) == s.transfers,
{
    let n = s.apply(req);
    match req {
        Request::UpdateTreasury { merchant_id, new_treasury } => {
            if s.has_merchant(merchant_id) {
                let k = s.merchant_index(merchant_id);
                assert(s.is_merchant_at(k, merchant_id));
            }
        },
        _ => {},
    }
    lemma_merchants_kept(s, n);
    assert(n.payments.subrange(0, s.payments.len() as int) =~= s.payments);
    assert(n.events.subrange(0, s.events.len() as int) =~= s.events);
    assert(n.transfers.subrange(0, s.transfers.len() as int) =~= s.transfers);
}

// ── Laws of single operations ───────────────────────────────────────────────

/// A merchant can register once; afterwards it is found under its wallet,
/// active, with that wallet as treasury.
pub proof fn lemma_register_merchant_then_read(
    s: EngineState,
    name: String,
    treasury_wallet: AccountId,
    now: u64,
)
    requires
        s.wf(),
    ensures
        s.register_merchant(name, treasury_wallet, now).1 is Err <==> s.has_merchant(treasury_wallet),
        s.register_merchant(name, treasury_wallet, now).1 is Ok ==> s.register_merchant(
            name,
            treasury_wallet,
            now,
        ).0.merchant(treasury_wallet) == Some(
            Merchant { merchant_id: treasury_wallet, name, treasury_wallet, active: true, created_at: now },
        ),
{
    let n = s.register_merchant(name, treasury_wallet, now).0;
    if !s.has_merchant(treasury_wallet) {
        lemma_register_merchant_wf(s, name, treasury_wallet, now);
        lemma_merchant_at(n, s.merchants.len() as int, treasury_wallet);
    }
}

/// Plan ids are handed out in sequence from 1: a created plan gets the id
/// one past the number of plans before it, is found under that id with the
/// terms it was created with, active, and is listed last among its
/// merchant's plans; no other merchant's list changes.
pub proof fn lemma_create_plan_then_read(
    s: EngineState,
    merchant_id: AccountId,
    name: String,
    amount: i128,
    token: AccountId,
    interval: u64,
    grace_period: u64,
    retry_limit: u32,
)
    requires
        s.wf(),
        s.create_plan_fits(merchant_id, amount, interval),
    ensures
        ({
            let (n, r) = s.create_plan(
                merchant_id,
                name,
                amount,
                token,
                interval,
                grace_period,
                retry_limit,
            );
            &&& r is Ok <==> s.create_plan_error(merchant_id, amount, interval) is None
            &&& r matches Ok(id) ==> {
                &&& id == s.plans.len() + 1
                &&& n.plan(id) == Some(
                    SubscriptionPlan {
                        plan_id: id,
                        merchant_id,
                        name,
                        amount,
                        token,
                        interval,
                        grace_period,
                        retry_limit,
                        active: true,
                    },
                )
                &&& n.merchant_plans(merchant_id) == s.merchant_plans(merchant_id).push(id)
                &&& forall|m: AccountId|
                    m != merchant_id ==> #[trigger] n.merchant_plans(m) == s.merchant_plans(m)
            }
        }),
{
    let n = s.create_plan(merchant_id, name, amount, token, interval, grace_period, retry_limit).0;
    if s.create_plan_error(merchant_id, amount, interval) is None {
        assert(n.plans.drop_last() =~= s.plans);
    }
}

/// A subscription is taken out at most once per subscriber and plan: while
/// one exists, in whatever state, another `subscribe` is refused and changes
/// nothing.
pub proof fn lemma_subscribe_once(s: EngineState, subscriber: AccountId, plan_id: u64, now: u64, balance: i128)
    requires
        s.has_subscription(subscriber, plan_id),
    ensures
        s.subscribe(subscriber, plan_id, now, balance).1 is Err,
        s.subscribe(subscriber, plan_id, now, balance).0 == s,
{
}

/// A successful subscription charges the plan amount at once: it pays the
/// merchant's treasury one plan amount of the plan's token, logs a
/// successful payment under the next payment id, and leaves the
/// subscription active with no retries and its first renewal one interval
/// after `now`. It is listed last among the subscriber's plans.
pub proof fn lemma_subscribe_then_read(s: EngineState, subscriber: AccountId, plan_id: u64, now: u64, balance: i128)
    requires
        s.wf(),
        s.subscribe_fits(subscriber, plan_id, now, balance),
    ensures
        s.subscribe(subscriber, plan_id, now, balance).1 is Ok <==> s.subscribe_charges(
            subscriber,
            plan_id,
            balance,
        ),
        s.subscribe(subscriber, plan_id, now, balance).1 is Ok ==> {
            let n = s.subscribe(subscriber, plan_id, now, balance).0;
            let plan = s.plan(plan_id)->0;
            &&& n.subscription(subscriber, plan_id) == Some(
                Subscriber {
                    subscriber,
                    plan_id,
                    next_billing_at: (now + plan.interval) as u64,
                    status: SubscriptionStatus::Active,
                    retries: 0,
                    started_at: now,
                },
            )
            &&& n.payment((s.payments.len() + 1) as u64) == Some(
                PaymentRecord {
                    payment_id: (s.payments.len() + 1) as u64,
                    subscriber,
                    merchant: plan.merchant_id,
                    amount: plan.amount,
                    timestamp: now,
                    success: true,
                },
            )
            &&& n.transfers == s.transfers.push(
                Transfer {
                    token: plan.token,
                    from: subscriber,
                    to: s.merchant(plan.merchant_id)->0.treasury_wallet,
                    amount: plan.amount,
                },
            )
            &&& n.subscriber_plans(subscriber) == s.subscriber_plans(subscriber).push(plan_id)
        },
{
    let n = s.subscribe(subscriber, plan_id, now, balance).0;
    if s.subscribe_charges(subscriber, plan_id, balance) {
        lemma_subscribe_wf(s, subscriber, plan_id, now, balance);
        lemma_subscription_at(n, s.subscribers.len() as int, subscriber, plan_id);
        assert(n.subscribers.drop_last() =~= s.subscribers);
    }
}

/// In a well-formed state every stored subscription refers to a stored
/// plan of a registered merchant, so billing never answers `PlanNotFound`
/// or `MerchantNotFound`.
pub proof fn lemma_process_payment_finds_plan(s: EngineState, subscriber: AccountId, plan_id: u64, now: u64)
    requires
        s.wf(),
    ensures
        s.process_payment_error(subscriber, plan_id, now) != Some(ContractError::PlanNotFound),
        s.process_payment_error(subscriber, plan_id, now) != Some(ContractError::MerchantNotFound),
{
    if s.has_subscription(subscriber, plan_id) {
        let k = s.subscription_index(subscriber, plan_id);
        assert(s.is_subscription_at(k, subscriber, plan_id));
        let p = s.plans[plan_id - 1];
        assert(s.has_merchant(p.merchant_id));
    }
}

/// Paused and cancelled subscriptions are not billed, and a subscription is
/// not billed before its billing time; such a request changes nothing.
pub proof fn lemma_process_payment_not_billed(
    s: EngineState,
    subscriber: AccountId,
    plan_id: u64,
    now: u64,
    balance: i128,
)
    requires
        s.subscription(subscriber, plan_id) matches Some(sub) && (sub.status
            == SubscriptionStatus::Paused || sub.status == SubscriptionStatus::Cancelled || now
            < sub.next_billing_at),
    ensures
        s.process_payment(subscriber, plan_id, now, balance).0 == s,
        s.process_payment(subscriber, plan_id, now, balance).1 == Err::<(), ContractError>(
            if s.subscription(subscriber, plan_id)->0.status == SubscriptionStatus::Cancelled {
                ContractError::AlreadyCancelled
            } else if s.subscription(subscriber, plan_id)->0.status == SubscriptionStatus::Paused {
                ContractError::SubscriptionNotActive
            } else if s.plan(plan_id) is None {
                ContractError::PlanNotFound
            } else if !s.has_merchant(s.plan(plan_id)->0.merchant_id) {
                ContractError::MerchantNotFound
            } else {
                ContractError::BillingNotDue
            },
        ),
{
}

/// A due billing cycle succeeds exactly when the balance covers the plan
/// amount. A success pays the treasury, resets the retries, makes the
/// subscription active and moves its billing time one interval past `now`,
/// strictly later than `now`. A failure counts one more retry; once the
/// count reaches the plan's retry limit the subscription fails for good and
/// the missed payment is logged, otherwise it enters its grace period.
pub proof fn lemma_process_payment_outcome(
    s: EngineState,
    subscriber: AccountId,
    plan_id: u64,
    now: u64,
    balance: i128,
)
    requires
        s.wf(),
        s.process_payment_fits(subscriber, plan_id, now, balance),
        s.process_payment_error(subscriber, plan_id, now) is None,
    ensures
        ({
            let (n, r) = s.process_payment(subscriber, plan_id, now, balance);
            let sub = s.subscription(subscriber, plan_id)->0;
            let plan = s.plan(plan_id)->0;
            let retries = (sub.retries + 1) as u32;
            &&& r is Ok <==> balance >= plan.amount
            &&& r is Ok ==> {
                &&& n.subscription(subscriber, plan_id) == Some(
                    Subscriber {
                        next_billing_at: (now + plan.interval) as u64,
                        retries: 0,
                        status: SubscriptionStatus::Active,
                        ..sub
                    },
                )
                &&& n.subscription(subscriber, plan_id)->0.next_billing_at > now
                &&& n.transfers == s.transfers.push(
                    Transfer {
                        token: plan.token,
                        from: subscriber,
                        to: s.merchant(plan.merchant_id)->0.treasury_wallet,
                        amount: plan.amount,
                    },
                )
                &&& n.payments == s.payments.push(
                    PaymentRecord {
                        payment_id: (s.payments.len() + 1) as u64,
                        subscriber,
                        merchant: plan.merchant_id,
                        amount: plan.amount,
                        timestamp: now,
                        success: true,
                    },
                )
            }
            &&& r is Err ==> {
                &&& retries == sub.retries + 1
                &&& n.transfers == s.transfers
                &&& retries >= plan.retry_limit ==> {
                    &&& r == Err::<(), ContractError>(ContractError::RetryLimitExceeded)
                    &&& n.subscription(subscriber, plan_id) == Some(
                        Subscriber { retries, status: SubscriptionStatus::Failed, ..sub },
                    )
                    &&& n.payments == s.payments.push(
                        PaymentRecord {
                            payment_id: (s.payments.len() + 1) as u64,
                            subscriber,
                            merchant: plan.merchant_id,
                            amount: plan.amount,
                            timestamp: now,
                            success: false,
                        },
                    )
                }
                &&& retries < plan.retry_limit ==> {
                    &&& r == Err::<(), ContractError>(ContractError::InsufficientBalance)
                    &&& n.subscription(subscriber, plan_id) == Some(
                        Subscriber { retries, status: SubscriptionStatus::GracePeriod, ..sub },
                    )
                    &&& n.payments == s.payments
                }
            }
        }),
{
    let n = s.process_payment(subscriber, plan_id, now, balance).0;
    let k = s.subscription_index(subscriber, plan_id);
    assert(s.is_subscription_at(k, subscriber, plan_id));
    assert(s.plans[plan_id - 1].interval > 0);
    lemma_process_payment_wf(s, subscriber, plan_id, now, balance);
    assert(n.is_subscription_at(k, subscriber, plan_id));
    lemma_subscription_at(n, k, subscriber, plan_id);
}

/// Disabling a plan closes it to new subscribers only: billing an existing
/// subscription gives the same answer and the same records whether or not
/// its plan is active.
pub proof fn lemma_disabled_plan_still_bills(
    s: EngineState,
    subscriber: AccountId,
    plan_id: u64,
    now: u64,
    balance: i128,
)
    requires
        s.wf(),
        1 <= plan_id <= s.plans.len(),
    ensures
        ({
            let t = EngineState {
                plans: s.plans.update(plan_id - 1, SubscriptionPlan { active: false, ..s.plans[plan_id - 1] }),
                ..s
            };
            let (n, r) = s.process_payment(subscriber, plan_id, now, balance);
            let (m, q) = t.process_payment(subscriber, plan_id, now, balance);
            &&& q == r
            &&& m.subscribers == n.subscribers
            &&& m.payments == n.payments
            &&& m.events == n.events
            &&& m.transfers == n.transfers
        }),
{
    let t = EngineState {
        plans: s.plans.update(plan_id - 1, SubscriptionPlan { active: false, ..s.plans[plan_id - 1] }),
        ..s
    };
    assert(t.merchants == s.merchants);
    assert(t.subscribers == s.subscribers);
    lemma_wf_keys_kept(s, t);
    assert forall|id: AccountId| #[trigger] t.has_merchant(id) == s.has_merchant(id) by {
        if s.has_merchant(id) {
            let k = s.merchant_index(id);
            assert(s.is_merchant_at(k, id));
            assert(t.is_merchant_at(k, id));
            lemma_merchant_at(t, k, id);
        }
        if t.has_merchant(id) {
            assert(s.is_merchant_at(t.merchant_index(id), id));
        }
    }
    if s.has_subscription(subscriber, plan_id) {
        let k = s.subscription_index(subscriber, plan_id);
        assert(s.is_subscription_at(k, subscriber, plan_id));
        assert(t.is_subscription_at(k, subscriber, plan_id));
        lemma_subscription_at(t, k, subscriber, plan_id);
    } else if t.has_subscription(subscriber, plan_id) {
        assert(s.is_subscription_at(t.subscription_index(subscriber, plan_id), subscriber, plan_id));
    }
}

/// Pausing and then resuming leaves a subscription active, with its retries
/// untouched, next billed one interval after the time of resumption.
pub proof fn lemma_pause_then_resume(s: EngineState, subscriber: AccountId, plan_id: u64, now: u64)
    requires
        s.wf(),
        s.pause_subscription(subscriber, plan_id).1 is Ok,
    ensures
        ({
            let p = s.pause_subscription(subscriber, plan_id).0;
            let (n, r) = p.resume_subscription(subscriber, plan_id, now);
            let sub = s.subscription(subscriber, plan_id)->0;
            &&& r is Ok
            &&& n.subscription(subscriber, plan_id) == Some(
                Subscriber {
                    next_billing_at: (now + s.plans[plan_id - 1].interval) as u64,
                    status: SubscriptionStatus::Active,
                    ..sub
                },
            )
        }),
{
    let p = s.pause_subscription(subscriber, plan_id).0;
    let k = s.subscription_index(subscriber, plan_id);
    assert(s.is_subscription_at(k, subscriber, plan_id));
    lemma_pause_subscription_wf(s, subscriber, plan_id);
    assert(p.is_subscription_at(k, subscriber, plan_id));
    lemma_subscription_at(p, k, subscriber, plan_id);
    let n = p.resume_subscription(subscriber, plan_id, now).0;
    lemma_resume_subscription_wf(p, subscriber, plan_id, now);
    assert(n.is_subscription_at(k, subscriber, plan_id));
    lemma_subscription_at(n, k, subscriber, plan_id);
}

/// Tokens move only when a subscription is charged: every other request
/// leaves the transfer queue alone, and a charge queues exactly one transfer,
/// of the plan amount, from the subscriber.
pub proof fn lemma_only_charges_move_tokens(s: EngineState, req: Request)
    ensures
        !(req is Subscribe || req is ProcessPayment) ==> s.apply(req).transfers == s.transfers,
        s.apply(req).transfers == s.transfers || ({
            let t = s.apply(req).transfers.last();
            &&& s.apply(req).transfers == s.transfers.push(t)
            &&& match req {
                Request::Subscribe { subscriber, plan_id, .. } => t.from == subscriber && t.amount
                    == s.plan(plan_id)->0.amount && t.token == s.plan(plan_id)->0.token,
                Request::ProcessPayment { subscriber, plan_id, .. } => t.from == subscriber
                    && t.amount == s.plan(plan_id)->0.amount && t.token == s.plan(plan_id)->0.token,
                _ => false,
            }
        }),
{
}

// ── Who may be billed, subscribed, cancelled; what plan changes touch ──────

/// A cycle is due from its billing time on, with no upper bound: for a
/// stored subscription that is neither paused nor cancelled, billing at any
/// `now` at or after `next_billing_at` passes every check before the charge,
/// however far past the end of the grace window `now` lies.
pub proof fn lemma_due_whenever_late(s: EngineState, subscriber: AccountId, plan_id: u64, now: u64)
    requires
        s.wf(),
        s.subscription(subscriber, plan_id) matches Some(sub) && sub.status
            != SubscriptionStatus::Paused && sub.status != SubscriptionStatus::Cancelled && now
            >= sub.next_billing_at,
    ensures
        s.process_payment_error(subscriber, plan_id, now) is None,
        s.plan(plan_id) is Some,
        s.merchant(s.plan(plan_id)->0.merchant_id) is Some,
{
    let k = s.subscription_index(subscriber, plan_id);
    assert(s.is_subscription_at(k, subscriber, plan_id));
    assert(1 <= s.subscribers[k].plan_id <= s.plans.len());
    let p = s.plans[plan_id - 1];
    assert(s.has_merchant(p.merchant_id));
}

/// A late cycle is still charged: once `now` has reached the billing time of
/// a subscription that is neither paused nor cancelled, a balance that covers
/// the plan amount makes billing succeed, queue one plan amount from the
/// subscriber to the merchant's treasury, log a successful payment and move
/// the billing time one interval past `now`, whatever the grace period.
pub proof fn lemma_late_cycle_is_charged(
    s: EngineState,
    subscriber: AccountId,
    plan_id: u64,
    now: u64,
    balance: i128,
)
    requires
        s.wf(),
        s.subscription(subscriber, plan_id) matches Some(sub) && sub.status
            != SubscriptionStatus::Paused && sub.status != SubscriptionStatus::Cancelled && now
            >= sub.next_billing_at,
        s.plan(plan_id) matches Some(plan) && balance >= plan.amount,
        s.process_payment_fits(subscriber, plan_id, now, balance),
    ensures
        ({
            let (n, r) = s.process_payment(subscriber, plan_id, now, balance);
            let sub = s.subscription(subscriber, plan_id)->0;
            let plan = s.plan(plan_id)->0;
            &&& r == Ok::<(), ContractError>(())
            &&& n.transfers == s.transfers.push(
                Transfer {
                    token: plan.token,
                    from: subscriber,
                    to: s.merchant(plan.merchant_id)->0.treasury_wallet,
                    amount: plan.amount,
                },
            )
            &&& n.payments.len() == s.payments.len() + 1
            &&& n.payments.last().success
            &&& n.payments.last().amount == plan.amount
            &&& n.subscription(subscriber, plan_id) == Some(
                Subscriber {
                    next_billing_at: (now + plan.interval) as u64,
                    retries: 0,
                    status: SubscriptionStatus::Active,
                    ..sub
                },
            )
        }),
{
    lemma_due_whenever_late(s, subscriber, plan_id, now);
    lemma_process_payment_outcome(s, subscriber, plan_id, now, balance);
}

/// Subscriptions are kept per subscriber: an account that holds no
/// subscription to an open plan of an active merchant can subscribe with a
/// balance that covers the plan amount, however many other accounts already
/// subscribed to the same plan. It then holds an active subscription
/// started at `now`, and the first payment is charged to it.
pub proof fn lemma_any_new_subscriber_is_accepted(
    s: EngineState,
    subscriber: AccountId,
    plan_id: u64,
    now: u64,
    balance: i128,
)
    requires
        s.wf(),
        s.plan(plan_id) matches Some(plan) && plan.active && balance >= plan.amount,
        s.merchant(s.plan(plan_id)->0.merchant_id) matches Some(m) && m.active,
        !s.has_subscription(subscriber, plan_id),
        s.subscribe_fits(subscriber, plan_id, now, balance),
    ensures
        s.subscribe_error(subscriber, plan_id) is None,
        ({
            let (n, r) = s.subscribe(subscriber, plan_id, now, balance);
            let plan = s.plan(plan_id)->0;
            &&& r == Ok::<(), ContractError>(())
            &&& n.subscription(subscriber, plan_id) matches Some(x) && x.status
                == SubscriptionStatus::Active && x.retries == 0 && x.started_at == now
                && x.next_billing_at == now + plan.interval
            &&& n.transfers == s.transfers.push(
                Transfer {
                    token: plan.token,
                    from: subscriber,
                    to: s.merchant(plan.merchant_id)->0.treasury_wallet,
                    amount: plan.amount,
                },
            )
            &&& forall|other: AccountId, q: u64| #[trigger]
                s.has_subscription(other, q) ==> n.has_subscription(other, q)
        }),
{
    assert(s.subscribe_charges(subscriber, plan_id, balance));
    lemma_subscribe_then_read(s, subscriber, plan_id, now, balance);
    let n = s.subscribe(subscriber, plan_id, now, balance).0;
    assert forall|other: AccountId, q: u64| #[trigger] s.has_subscription(other, q) implies n.has_subscription(
        other,
        q,
    ) by {
        let k = s.subscription_index(other, q);
        assert(s.is_subscription_at(k, other, q));
        assert(n.is_subscription_at(k, other, q));
    }
}

/// Any subscription that is not yet cancelled can be cancelled, paused ones
/// included: the request succeeds and the subscription keeps every field but
/// its status, which becomes `Cancelled`.
pub proof fn lemma_cancel_any_live_subscription(s: EngineState, subscriber: AccountId, plan_id: u64)
    requires
        s.wf(),
        s.subscription(subscriber, plan_id) matches Some(sub) && sub.status
            != SubscriptionStatus::Cancelled,
    ensures
        ({
            let (n, r) = s.cancel_subscription(subscriber, plan_id);
            let sub = s.subscription(subscriber, plan_id)->0;
            &&& r == Ok::<(), ContractError>(())
            &&& n.subscription(subscriber, plan_id) == Some(
                Subscriber { status: SubscriptionStatus::Cancelled, ..sub },
            )
            &&& n.plans == s.plans
            &&& n.payments == s.payments
            &&& n.transfers == s.transfers
        }),
{
    let n = s.cancel_subscription(subscriber, plan_id).0;
    let k = s.subscription_index(subscriber, plan_id);
    assert(s.is_subscription_at(k, subscriber, plan_id));
    lemma_cancel_subscription_wf(s, subscriber, plan_id);
    assert(n.is_subscription_at(k, subscriber, plan_id));
    lemma_subscription_at(n, k, subscriber, plan_id);
}

/// A plan's owner can change its terms whenever they are valid, and the
/// change touches exactly the four terms of that one plan: its id, merchant,
/// name, token and open or closed state stay as they were (a disabled plan
/// stays disabled), and every other plan is left alone.
pub proof fn lemma_update_plan_changes_terms_only(
    s: EngineState,
    merchant_id: AccountId,
    plan_id: u64,
    amount: i128,
    interval: u64,
    grace_period: u64,
    retry_limit: u32,
)
    ensures
        ({
            let (n, r) = s.update_plan(merchant_id, plan_id, amount, interval, grace_period, retry_limit);
            &&& r is Ok <==> (s.plan(plan_id) matches Some(p) && p.merchant_id == merchant_id && amount
                > 0 && interval > 0)
            &&& r is Ok ==> {
                let old_plan = s.plan(plan_id)->0;
                let new_plan = n.plan(plan_id)->0;
                &&& n.plan(plan_id) is Some
                &&& new_plan.amount == amount
                &&& new_plan.interval == interval
                &&& new_plan.grace_period == grace_period
                &&& new_plan.retry_limit == retry_limit
                &&& new_plan.plan_id == old_plan.plan_id
                &&& new_plan.merchant_id == old_plan.merchant_id
                &&& new_plan.name == old_plan.name
                &&& new_plan.token == old_plan.token
                &&& new_plan.active == old_plan.active
            }
            &&& forall|q: u64| q != plan_id ==> #[trigger] n.plan(q) == s.plan(q)
            &&& n.plans.len() == s.plans.len()
            &&& n.subscribers == s.subscribers
            &&& n.merchants == s.merchants
        }),
{
}

/// Disabling closes exactly the one plan asked for: when its owner asks, that
/// plan becomes inactive with all else about it unchanged, and every other
/// plan, the same merchant's included, keeps its state.
pub proof fn lemma_disable_plan_closes_one_plan(s: EngineState, merchant_id: AccountId, plan_id: u64)
    ensures
        ({
            let (n, r) = s.disable_plan(merchant_id, plan_id);
            &&& r is Ok <==> (s.plan(plan_id) matches Some(p) && p.merchant_id == merchant_id)
            &&& r is Ok ==> {
                let old_plan = s.plan(plan_id)->0;
                let new_plan = n.plan(plan_id)->0;
                &&& n.plan(plan_id) is Some
                &&& !new_plan.active
                &&& new_plan.plan_id == old_plan.plan_id
                &&& new_plan.merchant_id == old_plan.merchant_id
                &&& new_plan.name == old_plan.name
                &&& new_plan.amount == old_plan.amount
                &&& new_plan.token == old_plan.token
                &&& new_plan.interval == old_plan.interval
                &&& new_plan.grace_period == old_plan.grace_period
                &&& new_plan.retry_limit == old_plan.retry_limit
            }
            &&& forall|q: u64| q != plan_id ==> #[trigger] n.plan(q) == s.plan(q)
            &&& n.plans.len() == s.plans.len()
            &&& n.subscribers == s.subscribers
            &&& n.merchants == s.merchants
        }),
{
}

} // verus!
