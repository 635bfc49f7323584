use std::collections::HashMap;

use subscription_engine::{ContractError, SubscriptionEngine, SubscriptionStatus};

const INTERVAL: u64 = 2_592_000; // 30 days in seconds
const GRACE: u64 = 86_400; // 1 day
const AMOUNT: i128 = 100_0000000; // 100 tokens (7 decimals)

const MERCHANT: u64 = 1;
const SUBSCRIBER: u64 = 2;
const TOKEN: u64 = 3;

/// The engine together with a ledger time and the token balances that the
/// queued transfers are settled against.
struct Harness {
    engine: SubscriptionEngine,
    now: u64,
    balances: HashMap<u64, i128>,
}

impl Harness {
    fn balance(&self, account: u64) -> i128 {
        *self.balances.get(&account).unwrap_or(&0)
    }

    fn settle(&mut self) {
        for t in self.engine.take_transfers() {
            assert_eq!(t.token, TOKEN);
            *self.balances.entry(t.from).or_insert(0) -= t.amount;
            *self.balances.entry(t.to).or_insert(0) += t.amount;
        }
    }

    fn register_merchant(&mut self, name: &str, merchant: u64) -> Result<(), ContractError> {
        let now = self.now;
        self.engine.register_merchant(name.to_string(), merchant, now)
    }

    fn create_plan(&mut self, merchant: u64, name: &str, amount: i128, retry_limit: u32) -> Result<u64, ContractError> {
        self.engine
            .create_plan(merchant, name.to_string(), amount, TOKEN, INTERVAL, GRACE, retry_limit)
    }

    fn subscribe(&mut self, subscriber: u64, plan_id: u64) -> Result<(), ContractError> {
        let balance = self.balance(subscriber);
        let now = self.now;
        let r = self.engine.subscribe(subscriber, plan_id, now, balance);
        self.settle();
        r
    }

    fn process_payment(&mut self, subscriber: u64, plan_id: u64) -> Result<(), ContractError> {
        let balance = self.balance(subscriber);
        let now = self.now;
        let r = self.engine.process_payment(subscriber, plan_id, now, balance);
        self.settle();
        r
    }
}

fn setup() -> Harness {
    let mut balances = HashMap::new();
    // Mint tokens to subscriber
    balances.insert(SUBSCRIBER, AMOUNT * 10);
    Harness { engine: SubscriptionEngine::new(), now: 0, balances }
}

fn register_and_plan(h: &mut Harness) -> u64 {
    h.register_merchant("AcmeCorp", MERCHANT).unwrap();
    h.create_plan(MERCHANT, "Pro", AMOUNT, 3).unwrap()
}

// ── Merchant Tests ────────────────────────────────────────────────────────────

#[test]
fn test_register_merchant() {
    let mut h = setup();
    h.register_merchant("Acme", MERCHANT).unwrap();
    let m = h.engine.get_merchant(MERCHANT).unwrap();
    assert_eq!(m.active, true);
    assert_eq!(m.treasury_wallet, MERCHANT);
}

#[test]
fn test_register_merchant_duplicate_fails() {
    let mut h = setup();
    h.register_merchant("Acme", MERCHANT).unwrap();
    let result = h.register_merchant("Acme", MERCHANT);
    assert_eq!(result, Err(ContractError::MerchantAlreadyExists));
}

#[test]
fn test_update_treasury() {
    let mut h = setup();
    h.register_merchant("Acme", MERCHANT).unwrap();
    let new_treasury = 40;
    h.engine.update_treasury(MERCHANT, new_treasury).unwrap();
    let m = h.engine.get_merchant(MERCHANT).unwrap();
    assert_eq!(m.treasury_wallet, new_treasury);
}

// ── Plan Tests ────────────────────────────────────────────────────────────────

#[test]
fn test_create_plan() {
    let mut h = setup();
    let plan_id = register_and_plan(&mut h);
    assert_eq!(plan_id, 1);
    let plan = h.engine.get_plan(plan_id).unwrap();
    assert_eq!(plan.amount, AMOUNT);
    assert_eq!(plan.active, true);
}

#[test]
fn test_create_plan_invalid_amount_fails() {
    let mut h = setup();
    h.register_merchant("Acme", MERCHANT).unwrap();
    let result = h.engine.create_plan(MERCHANT, "Bad".to_string(), 0i128, TOKEN, INTERVAL, GRACE, 3u32);
    assert_eq!(result, Err(ContractError::InvalidAmount));
}

#[test]
fn test_disable_plan() {
    let mut h = setup();
    let plan_id = register_and_plan(&mut h);
    h.engine.disable_plan(MERCHANT, plan_id).unwrap();
    let plan = h.engine.get_plan(plan_id).unwrap();
    assert_eq!(plan.active, false);
}

// ── Subscription Tests ────────────────────────────────────────────────────────

#[test]
fn test_subscribe_and_first_payment() {
    let mut h = setup();
    let plan_id = register_and_plan(&mut h);
    h.subscribe(SUBSCRIBER, plan_id).unwrap();
    let sub = h.engine.get_subscriber(SUBSCRIBER, plan_id).unwrap();
    assert_eq!(sub.status, SubscriptionStatus::Active);
    assert_eq!(sub.next_billing_at, INTERVAL); // ledger starts at 0
}

#[test]
fn test_subscribe_to_inactive_plan_fails() {
    let mut h = setup();
    let plan_id = register_and_plan(&mut h);
    h.engine.disable_plan(MERCHANT, plan_id).unwrap();
    let result = h.subscribe(SUBSCRIBER, plan_id);
    assert_eq!(result, Err(ContractError::PlanInactive));
}

#[test]
fn test_subscribe_duplicate_fails() {
    let mut h = setup();
    let plan_id = register_and_plan(&mut h);
    h.subscribe(SUBSCRIBER, plan_id).unwrap();
    let result = h.subscribe(SUBSCRIBER, plan_id);
    assert_eq!(result, Err(ContractError::SubscriptionAlreadyExists));
}

// ── Billing Tests ─────────────────────────────────────────────────────────────

#[test]
fn test_process_payment_success() {
    let mut h = setup();
    let plan_id = register_and_plan(&mut h);
    h.subscribe(SUBSCRIBER, plan_id).unwrap();

    // Advance ledger past billing date
    h.now = INTERVAL + 1;

    h.process_payment(SUBSCRIBER, plan_id).unwrap();
    let sub = h.engine.get_subscriber(SUBSCRIBER, plan_id).unwrap();
    assert_eq!(sub.status, SubscriptionStatus::Active);
    assert_eq!(sub.retries, 0);
}

#[test]
fn test_process_payment_not_due_fails() {
    let mut h = setup();
    let plan_id = register_and_plan(&mut h);
    h.subscribe(SUBSCRIBER, plan_id).unwrap();
    // Don't advance ledger — billing not due
    let result = h.process_payment(SUBSCRIBER, plan_id);
    assert_eq!(result, Err(ContractError::BillingNotDue));
}

#[test]
fn test_process_payment_insufficient_balance() {
    let mut h = setup();
    let plan_id = register_and_plan(&mut h);
    h.subscribe(SUBSCRIBER, plan_id).unwrap();

    // Claw back all subscriber tokens
    h.balances.insert(SUBSCRIBER, 0);

    h.now = INTERVAL + 1;

    let result = h.process_payment(SUBSCRIBER, plan_id);
    assert_eq!(result, Err(ContractError::InsufficientBalance));
    let sub = h.engine.get_subscriber(SUBSCRIBER, plan_id).unwrap();
    assert_eq!(sub.status, SubscriptionStatus::GracePeriod);
    assert_eq!(sub.retries, 1);
}

#[test]
fn test_retry_limit_exhaustion() {
    let mut h = setup();
    // Create plan with retry_limit = 1
    h.register_merchant("Acme", MERCHANT).unwrap();
    let plan_id = h.create_plan(MERCHANT, "Pro", AMOUNT, 1u32).unwrap();
    h.subscribe(SUBSCRIBER, plan_id).unwrap();

    // Drain balance
    h.balances.insert(SUBSCRIBER, 0);

    h.now = INTERVAL + 1;

    // First attempt
    let _ = h.process_payment(SUBSCRIBER, plan_id);
    // Second attempt → RetryLimitExceeded
    let result = h.process_payment(SUBSCRIBER, plan_id);
    assert_eq!(result, Err(ContractError::RetryLimitExceeded));
    let sub = h.engine.get_subscriber(SUBSCRIBER, plan_id).unwrap();
    assert_eq!(sub.status, SubscriptionStatus::Failed);
}

// ── Pause / Resume / Cancel Tests ────────────────────────────────────────────

#[test]
fn test_pause_and_resume() {
    let mut h = setup();
    let plan_id = register_and_plan(&mut h);
    h.subscribe(SUBSCRIBER, plan_id).unwrap();

    h.engine.pause_subscription(SUBSCRIBER, plan_id).unwrap();
    let sub = h.engine.get_subscriber(SUBSCRIBER, plan_id).unwrap();
    assert_eq!(sub.status, SubscriptionStatus::Paused);

    // Billing should fail while paused
    h.now = INTERVAL + 1;
    let result = h.process_payment(SUBSCRIBER, plan_id);
    assert_eq!(result, Err(ContractError::SubscriptionNotActive));

    let now = h.now;
    h.engine.resume_subscription(SUBSCRIBER, plan_id, now).unwrap();
    let sub = h.engine.get_subscriber(SUBSCRIBER, plan_id).unwrap();
    assert_eq!(sub.status, SubscriptionStatus::Active);
}

#[test]
fn test_cancel_subscription() {
    let mut h = setup();
    let plan_id = register_and_plan(&mut h);
    h.subscribe(SUBSCRIBER, plan_id).unwrap();
    h.engine.cancel_subscription(SUBSCRIBER, plan_id).unwrap();
    let sub = h.engine.get_subscriber(SUBSCRIBER, plan_id).unwrap();
    assert_eq!(sub.status, SubscriptionStatus::Cancelled);

    // Cannot cancel again
    let result = h.engine.cancel_subscription(SUBSCRIBER, plan_id);
    assert_eq!(result, Err(ContractError::AlreadyCancelled));
}

#[test]
fn test_cancelled_subscription_cannot_be_billed() {
    let mut h = setup();
    let plan_id = register_and_plan(&mut h);
    h.subscribe(SUBSCRIBER, plan_id).unwrap();
    h.engine.cancel_subscription(SUBSCRIBER, plan_id).unwrap();

    h.now = INTERVAL + 1;
    let result = h.process_payment(SUBSCRIBER, plan_id);
    assert_eq!(result, Err(ContractError::AlreadyCancelled));
}

// ── Query Tests ───────────────────────────────────────────────────────────────

#[test]
fn test_get_merchant_plans() {
    let mut h = setup();
    h.register_merchant("Acme", MERCHANT).unwrap();
    h.create_plan(MERCHANT, "Basic", AMOUNT, 3u32).unwrap();
    h.create_plan(MERCHANT, "Pro", AMOUNT * 2, 3u32).unwrap();
    let plans = h.engine.get_merchant_plans(MERCHANT);
    assert_eq!(plans.len(), 2);
}

#[test]
fn test_get_subscriber_plans() {
    let mut h = setup();
    h.register_merchant("Acme", MERCHANT).unwrap();
    let p1 = h.create_plan(MERCHANT, "Basic", AMOUNT, 3u32).unwrap();
    let p2 = h.create_plan(MERCHANT, "Pro", AMOUNT * 2, 3u32).unwrap();
    h.subscribe(SUBSCRIBER, p1).unwrap();
    h.subscribe(SUBSCRIBER, p2).unwrap();
    let plans = h.engine.get_subscriber_plans(SUBSCRIBER);
    assert_eq!(plans.len(), 2);
}
