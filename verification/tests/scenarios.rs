use subscription_engine::{
    ContractError, Event, Merchant, PaymentRecord, Subscriber, SubscriptionEngine, SubscriptionPlan,
    SubscriptionStatus, Transfer,
};

const INTERVAL: u64 = 2_592_000;
const GRACE: u64 = 86_400;
const AMOUNT: i128 = 100_0000000;

const MERCHANT: u64 = 1;
const SUBSCRIBER: u64 = 2;
const TOKEN: u64 = 3;
const OTHER: u64 = 4;

fn engine_with_plan(retry_limit: u32) -> (SubscriptionEngine, u64) {
    let mut e = SubscriptionEngine::new();
    e.register_merchant("Acme".to_string(), MERCHANT, 5).unwrap();
    let p = e
        .create_plan(MERCHANT, "Pro".to_string(), AMOUNT, TOKEN, INTERVAL, GRACE, retry_limit)
        .unwrap();
    (e, p)
}

fn snapshot(e: &SubscriptionEngine) -> (Vec<Merchant>, Vec<SubscriptionPlan>, Vec<Subscriber>, Vec<PaymentRecord>) {
    (
        e.merchant_records().clone(),
        e.plan_records().clone(),
        e.subscriber_records().clone(),
        e.payment_records().clone(),
    )
}

fn same(a: &(Vec<Merchant>, Vec<SubscriptionPlan>, Vec<Subscriber>, Vec<PaymentRecord>),
        b: &(Vec<Merchant>, Vec<SubscriptionPlan>, Vec<Subscriber>, Vec<PaymentRecord>)) -> bool {
    format!("{:?}", a) == format!("{:?}", b)
}

// ── Read after write ──────────────────────────────────────────────────────────

#[test]
fn registered_merchant_reads_back() {
    let mut e = SubscriptionEngine::new();
    e.register_merchant("Acme".to_string(), MERCHANT, 77).unwrap();
    let m = e.get_merchant(MERCHANT).unwrap();
    assert_eq!(m.merchant_id, MERCHANT);
    assert_eq!(m.name, "Acme");
    assert_eq!(m.treasury_wallet, MERCHANT);
    assert!(m.active);
    assert_eq!(m.created_at, 77);
    assert!(e.get_merchant(OTHER).is_none());
    assert_eq!(e.take_events(), vec![Event::MerchantRegistered { merchant: MERCHANT }]);
    assert!(e.take_events().is_empty());
}

#[test]
fn plan_ids_are_sequential_and_listed_per_merchant() {
    let mut e = SubscriptionEngine::new();
    e.register_merchant("A".to_string(), MERCHANT, 0).unwrap();
    e.register_merchant("B".to_string(), OTHER, 0).unwrap();
    let p1 = e.create_plan(MERCHANT, "One".to_string(), 10, TOKEN, 60, 0, 1).unwrap();
    let p2 = e.create_plan(OTHER, "Two".to_string(), 20, TOKEN, 60, 0, 1).unwrap();
    let p3 = e.create_plan(MERCHANT, "Three".to_string(), 30, TOKEN, 60, 0, 1).unwrap();
    assert_eq!((p1, p2, p3), (1, 2, 3));
    assert_eq!(e.get_merchant_plans(MERCHANT), vec![1, 3]);
    assert_eq!(e.get_merchant_plans(OTHER), vec![2]);
    assert!(e.get_merchant_plans(SUBSCRIBER).is_empty());
    let plan = e.get_plan(3).unwrap();
    assert_eq!(plan.plan_id, 3);
    assert_eq!(plan.merchant_id, MERCHANT);
    assert_eq!(plan.name, "Three");
    assert_eq!(plan.amount, 30);
    assert!(plan.active);
    assert!(e.get_plan(0).is_none());
    assert!(e.get_plan(4).is_none());
}

#[test]
fn failed_create_plan_does_not_use_an_id() {
    let mut e = SubscriptionEngine::new();
    e.register_merchant("A".to_string(), MERCHANT, 0).unwrap();
    assert_eq!(
        e.create_plan(MERCHANT, "Zero".to_string(), 10, TOKEN, 0, 0, 1),
        Err(ContractError::InvalidInterval)
    );
    assert_eq!(e.create_plan(MERCHANT, "Ok".to_string(), 10, TOKEN, 60, 0, 1), Ok(1));
}

#[test]
fn subscribe_charges_first_cycle() {
    let (mut e, p) = engine_with_plan(3);
    e.update_treasury(MERCHANT, OTHER).unwrap();
    e.take_events();
    assert_eq!(e.subscribe_charge(SUBSCRIBER, p), Ok(Transfer { token: TOKEN, from: SUBSCRIBER, to: OTHER, amount: AMOUNT }));
    e.subscribe(SUBSCRIBER, p, 1_000, AMOUNT).unwrap();
    assert_eq!(
        e.get_subscriber(SUBSCRIBER, p),
        Some(Subscriber {
            subscriber: SUBSCRIBER,
            plan_id: p,
            next_billing_at: 1_000 + INTERVAL,
            status: SubscriptionStatus::Active,
            retries: 0,
            started_at: 1_000,
        })
    );
    assert_eq!(
        e.get_payment(1),
        Some(PaymentRecord { payment_id: 1, subscriber: SUBSCRIBER, merchant: MERCHANT, amount: AMOUNT, timestamp: 1_000, success: true })
    );
    assert!(e.get_payment(2).is_none());
    assert_eq!(e.take_transfers(), vec![Transfer { token: TOKEN, from: SUBSCRIBER, to: OTHER, amount: AMOUNT }]);
    assert_eq!(
        e.take_events(),
        vec![
            Event::Subscribed { subscriber: SUBSCRIBER, plan_id: p, next_billing: 1_000 + INTERVAL },
            Event::PaymentSuccess { subscriber: SUBSCRIBER, amount: AMOUNT, timestamp: 1_000 },
        ]
    );
    assert_eq!(e.get_subscriber_plans(SUBSCRIBER), vec![p]);
    assert!(e.get_subscriber_plans(OTHER).is_empty());
}

#[test]
fn subscribe_with_short_balance_changes_nothing() {
    let (mut e, p) = engine_with_plan(3);
    let before = snapshot(&e);
    e.take_events();
    assert_eq!(e.subscribe(SUBSCRIBER, p, 0, AMOUNT - 1), Err(ContractError::InsufficientBalance));
    assert!(same(&before, &snapshot(&e)));
    assert!(e.take_transfers().is_empty());
    assert!(e.take_events().is_empty());
}

// ── Billing cycles ────────────────────────────────────────────────────────────

#[test]
fn successful_cycle_moves_billing_one_interval_past_now() {
    let (mut e, p) = engine_with_plan(3);
    e.subscribe(SUBSCRIBER, p, 0, AMOUNT * 10).unwrap();
    e.take_transfers();
    e.take_events();
    let now = INTERVAL + 500;
    assert_eq!(e.billing_charge(SUBSCRIBER, p, now), Ok(Transfer { token: TOKEN, from: SUBSCRIBER, to: MERCHANT, amount: AMOUNT }));
    e.process_payment(SUBSCRIBER, p, now, AMOUNT).unwrap();
    let sub = e.get_subscriber(SUBSCRIBER, p).unwrap();
    assert_eq!(sub.next_billing_at, now + INTERVAL);
    assert_eq!(sub.retries, 0);
    assert_eq!(sub.started_at, 0);
    assert_eq!(e.get_payment(2).unwrap().success, true);
    assert_eq!(e.take_transfers().len(), 1);
    assert_eq!(e.take_events(), vec![Event::PaymentSuccess { subscriber: SUBSCRIBER, amount: AMOUNT, timestamp: now }]);
}

#[test]
fn missed_cycles_go_through_grace_to_failure() {
    let (mut e, p) = engine_with_plan(2);
    e.subscribe(SUBSCRIBER, p, 0, AMOUNT).unwrap();
    e.take_events();
    let now = INTERVAL;
    assert_eq!(e.process_payment(SUBSCRIBER, p, now, 0), Err(ContractError::InsufficientBalance));
    let sub = e.get_subscriber(SUBSCRIBER, p).unwrap();
    assert_eq!((sub.status, sub.retries), (SubscriptionStatus::GracePeriod, 1));
    assert!(e.get_payment(2).is_none());
    assert_eq!(
        e.take_events(),
        vec![
            Event::RetryAttempted { subscriber: SUBSCRIBER, plan_id: p, attempt: 1 },
            Event::PaymentFailed { subscriber: SUBSCRIBER, plan_id: p, retries: 1 },
        ]
    );
    assert_eq!(e.process_payment(SUBSCRIBER, p, now + 1, 0), Err(ContractError::RetryLimitExceeded));
    let sub = e.get_subscriber(SUBSCRIBER, p).unwrap();
    assert_eq!((sub.status, sub.retries), (SubscriptionStatus::Failed, 2));
    assert_eq!(sub.next_billing_at, INTERVAL);
    let rec = e.get_payment(2).unwrap();
    assert_eq!((rec.success, rec.timestamp, rec.amount), (false, now + 1, AMOUNT));
    assert!(e.take_transfers().len() == 1); // only the first payment
}

#[test]
fn a_grace_period_payment_restores_the_subscription() {
    let (mut e, p) = engine_with_plan(3);
    e.subscribe(SUBSCRIBER, p, 0, AMOUNT).unwrap();
    e.process_payment(SUBSCRIBER, p, INTERVAL, 0).unwrap_err();
    e.process_payment(SUBSCRIBER, p, INTERVAL + 10, AMOUNT).unwrap();
    let sub = e.get_subscriber(SUBSCRIBER, p).unwrap();
    assert_eq!((sub.status, sub.retries, sub.next_billing_at), (SubscriptionStatus::Active, 0, INTERVAL + 10 + INTERVAL));
}

#[test]
fn disabled_plan_keeps_billing_existing_subscribers() {
    let (mut e, p) = engine_with_plan(3);
    e.subscribe(SUBSCRIBER, p, 0, AMOUNT).unwrap();
    e.disable_plan(MERCHANT, p).unwrap();
    assert_eq!(e.subscribe(OTHER, p, 0, AMOUNT), Err(ContractError::PlanInactive));
    assert_eq!(e.process_payment(SUBSCRIBER, p, INTERVAL, AMOUNT), Ok(()));
}

#[test]
fn paused_and_early_cycles_are_not_billed() {
    let (mut e, p) = engine_with_plan(3);
    e.subscribe(SUBSCRIBER, p, 0, AMOUNT).unwrap();
    let before = snapshot(&e);
    assert_eq!(e.billing_charge(SUBSCRIBER, p, INTERVAL - 1), Err(ContractError::BillingNotDue));
    assert_eq!(e.process_payment(SUBSCRIBER, p, INTERVAL - 1, AMOUNT), Err(ContractError::BillingNotDue));
    assert!(same(&before, &snapshot(&e)));
    e.pause_subscription(SUBSCRIBER, p).unwrap();
    assert_eq!(e.process_payment(SUBSCRIBER, p, INTERVAL, AMOUNT), Err(ContractError::SubscriptionNotActive));
    assert_eq!(e.get_subscriber(SUBSCRIBER, p).unwrap().status, SubscriptionStatus::Paused);
}

#[test]
fn pause_then_resume_restarts_the_cycle() {
    let (mut e, p) = engine_with_plan(3);
    e.subscribe(SUBSCRIBER, p, 0, AMOUNT).unwrap();
    e.process_payment(SUBSCRIBER, p, INTERVAL, 0).unwrap_err();
    e.pause_subscription(SUBSCRIBER, p).unwrap();
    assert_eq!(e.pause_subscription(SUBSCRIBER, p), Err(ContractError::AlreadyPaused));
    e.resume_subscription(SUBSCRIBER, p, 9_000_000).unwrap();
    let sub = e.get_subscriber(SUBSCRIBER, p).unwrap();
    assert_eq!((sub.status, sub.retries, sub.next_billing_at), (SubscriptionStatus::Active, 1, 9_000_000 + INTERVAL));
    assert_eq!(e.resume_subscription(SUBSCRIBER, p, 0), Err(ContractError::NotPaused));
}

#[test]
fn cancelled_subscription_stays_cancelled() {
    let (mut e, p) = engine_with_plan(3);
    e.subscribe(SUBSCRIBER, p, 0, AMOUNT).unwrap();
    e.cancel_subscription(SUBSCRIBER, p).unwrap();
    let cancelled = e.get_subscriber(SUBSCRIBER, p);
    assert_eq!(e.pause_subscription(SUBSCRIBER, p), Err(ContractError::AlreadyCancelled));
    assert_eq!(e.resume_subscription(SUBSCRIBER, p, 1), Err(ContractError::NotPaused));
    assert_eq!(e.process_payment(SUBSCRIBER, p, INTERVAL, AMOUNT), Err(ContractError::AlreadyCancelled));
    assert_eq!(e.subscribe(SUBSCRIBER, p, 0, AMOUNT), Err(ContractError::SubscriptionAlreadyExists));
    assert_eq!(e.cancel_subscription(SUBSCRIBER, p), Err(ContractError::AlreadyCancelled));
    assert_eq!(e.get_subscriber(SUBSCRIBER, p), cancelled);
}

// ── Refusals ──────────────────────────────────────────────────────────────────

#[test]
fn every_refusal_is_reported() {
    let (mut e, p) = engine_with_plan(3);
    let before = snapshot(&e);
    assert_eq!(e.update_treasury(OTHER, OTHER), Err(ContractError::MerchantNotFound));
    assert_eq!(e.create_plan(OTHER, "X".to_string(), 1, TOKEN, 1, 0, 1), Err(ContractError::MerchantNotFound));
    assert_eq!(e.update_plan(MERCHANT, 9, 1, 1, 0, 1), Err(ContractError::PlanNotFound));
    assert_eq!(e.update_plan(OTHER, p, 1, 1, 0, 1), Err(ContractError::Unauthorized));
    assert_eq!(e.update_plan(MERCHANT, p, -5, 1, 0, 1), Err(ContractError::InvalidAmount));
    assert_eq!(e.update_plan(MERCHANT, p, 1, 0, 0, 1), Err(ContractError::InvalidInterval));
    assert_eq!(e.disable_plan(OTHER, p), Err(ContractError::Unauthorized));
    assert_eq!(e.disable_plan(MERCHANT, 0), Err(ContractError::PlanNotFound));
    assert_eq!(e.subscribe(SUBSCRIBER, 9, 0, AMOUNT), Err(ContractError::PlanNotFound));
    assert_eq!(e.subscribe_charge(SUBSCRIBER, 9), Err(ContractError::PlanNotFound));
    assert_eq!(e.process_payment(SUBSCRIBER, p, 0, AMOUNT), Err(ContractError::SubscriptionNotFound));
    assert_eq!(e.pause_subscription(SUBSCRIBER, p), Err(ContractError::SubscriptionNotFound));
    assert_eq!(e.resume_subscription(SUBSCRIBER, p, 0), Err(ContractError::SubscriptionNotFound));
    assert_eq!(e.cancel_subscription(SUBSCRIBER, p), Err(ContractError::SubscriptionNotFound));
    assert!(same(&before, &snapshot(&e)));
}

#[test]
fn update_plan_changes_terms_only() {
    let (mut e, p) = engine_with_plan(3);
    e.update_plan(MERCHANT, p, 7, 60, 5, 9).unwrap();
    let plan = e.get_plan(p).unwrap();
    assert_eq!((plan.amount, plan.interval, plan.grace_period, plan.retry_limit), (7, 60, 5, 9));
    assert_eq!((plan.plan_id, plan.merchant_id, plan.token, plan.active), (p, MERCHANT, TOKEN, true));
    assert_eq!(plan.name, "Pro");
}

#[test]
fn inactive_merchant_is_refused() {
    let merchants = vec![Merchant { merchant_id: MERCHANT, name: "Acme".to_string(), treasury_wallet: MERCHANT, active: false, created_at: 0 }];
    let plans = vec![SubscriptionPlan {
        plan_id: 1, merchant_id: MERCHANT, name: "Pro".to_string(), amount: AMOUNT, token: TOKEN,
        interval: INTERVAL, grace_period: GRACE, retry_limit: 3, active: true,
    }];
    let mut e = SubscriptionEngine::restore(merchants, plans, vec![], vec![]).unwrap();
    assert_eq!(e.create_plan(MERCHANT, "X".to_string(), 1, TOKEN, 1, 0, 1), Err(ContractError::MerchantInactive));
    assert_eq!(e.subscribe(SUBSCRIBER, 1, 0, AMOUNT), Err(ContractError::MerchantInactive));
}

// ── Restoring stored records ──────────────────────────────────────────────────

#[test]
fn restore_round_trips_and_rejects_inconsistent_records() {
    let (mut e, p) = engine_with_plan(3);
    e.subscribe(SUBSCRIBER, p, 0, AMOUNT).unwrap();
    let (m, pl, s, pay) = snapshot(&e);
    let r = SubscriptionEngine::restore(m.clone(), pl.clone(), s.clone(), pay.clone()).unwrap();
    assert!(same(&snapshot(&e), &snapshot(&r)));

    let mut dup = m.clone();
    dup.push(m[0].clone());
    assert!(SubscriptionEngine::restore(dup, pl.clone(), s.clone(), pay.clone()).is_none());

    let mut bad_plan = pl.clone();
    bad_plan[0].plan_id = 5;
    assert!(SubscriptionEngine::restore(m.clone(), bad_plan, s.clone(), pay.clone()).is_none());

    assert!(SubscriptionEngine::restore(vec![], pl.clone(), vec![], vec![]).is_none());

    let mut dup_sub = s.clone();
    dup_sub.push(s[0]);
    assert!(SubscriptionEngine::restore(m.clone(), pl.clone(), dup_sub, pay.clone()).is_none());

    let mut orphan = s.clone();
    orphan[0].plan_id = 2;
    assert!(SubscriptionEngine::restore(m.clone(), pl.clone(), orphan, pay.clone()).is_none());

    let mut bad_pay = pay.clone();
    bad_pay[0].payment_id = 3;
    assert!(SubscriptionEngine::restore(m, pl, s, bad_pay).is_none());
}

// ── Range checks ──────────────────────────────────────────────────────────────

#[test]
fn range_checks_flag_overflowing_requests() {
    let (mut e, p) = engine_with_plan(3);
    assert!(e.create_plan_fits(MERCHANT, 1, 1));
    assert!(!e.subscribe_fits(SUBSCRIBER, p, u64::MAX - INTERVAL + 1, AMOUNT));
    assert!(e.subscribe_fits(SUBSCRIBER, p, u64::MAX - INTERVAL + 1, AMOUNT - 1));
    assert!(e.subscribe_fits(SUBSCRIBER, p, u64::MAX - INTERVAL, AMOUNT));
    e.subscribe(SUBSCRIBER, p, u64::MAX - INTERVAL, AMOUNT).unwrap();
    // Billing falls due at u64::MAX, where the grace window no longer fits.
    assert!(!e.process_payment_fits(SUBSCRIBER, p, u64::MAX, AMOUNT));
    assert!(e.process_payment_fits(SUBSCRIBER, p, u64::MAX - 1, AMOUNT));
    e.pause_subscription(SUBSCRIBER, p).unwrap();
    assert!(!e.resume_subscription_fits(SUBSCRIBER, p, u64::MAX));
    assert!(e.resume_subscription_fits(SUBSCRIBER, p, 0));
}
