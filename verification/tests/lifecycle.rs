use subwave::engine::{cancel_subscription, check_entitlement, create_subscription,
    register_merchant, renew_subscription};
use subwave::errors::ErrorCode;
use subwave::gateway::Balances;
use subwave::keys::{copy_config_key, copy_subscription_key, subscription_key_eq, ConfigKey,
    SubscriptionKey};
use subwave::store::Store;

const AUTHORITY: u64 = 1;
const MINT: u64 = 2;
const SUBSCRIBER: u64 = 7;
const OTHER: u64 = 8;

const DAY: i64 = 86_400;

fn setup() -> (Store, Balances, ConfigKey) {
    let mut store = Store::new();
    let mut balances = Balances::new();
    let (_mk, ck) = register_merchant(
        &mut store,
        AUTHORITY,
        MINT,
        1000,
        30,
        String::from("gold"),
    )
    .unwrap();
    balances.deposit(SUBSCRIBER, 10_000).unwrap();
    (store, balances, ck)
}

#[test]
fn subscribe_grants_entitlement_and_pays() {
    let (mut store, mut balances, ck) = setup();
    let (sub_key, expiry) = create_subscription(&mut store, &mut balances, SUBSCRIBER, &ck, 0)
        .unwrap();
    assert_eq!(expiry, 30 * DAY);
    assert_eq!(balances.balance_of(SUBSCRIBER), 9_000);
    assert_eq!(balances.balance_of(AUTHORITY), 1_000);
    let (entitled, stored_expiry) = check_entitlement(&store, &sub_key, 0).unwrap();
    assert!(entitled);
    assert_eq!(stored_expiry, 2_592_000);
    let sub = store.get_subscription(&sub_key).unwrap();
    assert_eq!(sub.total_paid, 1000);
    assert_eq!(sub.start_timestamp, 0);
    assert!(sub.active);
    // The returned address is exactly the one derived from the identity
    // tuple, and copying a key preserves its value.
    let derived = SubscriptionKey { subscriber: SUBSCRIBER, config: copy_config_key(&ck) };
    assert!(subscription_key_eq(&sub_key, &derived));
    assert!(subscription_key_eq(&copy_subscription_key(&sub_key), &sub_key));
}

#[test]
fn subscribe_rejects_unknown_config() {
    let (mut store, mut balances, ck) = setup();
    let missing = ConfigKey { merchant: ck.merchant, product_name: String::from("missing") };
    let r = create_subscription(&mut store, &mut balances, SUBSCRIBER, &missing, 0);
    assert_eq!(r.unwrap_err(), ErrorCode::NotFound);
}

#[test]
fn subscribe_twice_fails_already_exists() {
    let (mut store, mut balances, ck) = setup();
    create_subscription(&mut store, &mut balances, SUBSCRIBER, &ck, 0).unwrap();
    let r = create_subscription(&mut store, &mut balances, SUBSCRIBER, &ck, 5);
    assert_eq!(r.unwrap_err(), ErrorCode::AlreadyExists);
    // The failed attempt paid nothing.
    assert_eq!(balances.balance_of(SUBSCRIBER), 9_000);
}

#[test]
fn subscribe_without_funds_creates_nothing() {
    let (mut store, mut balances, ck) = setup();
    let r = create_subscription(&mut store, &mut balances, OTHER, &ck, 0);
    assert_eq!(r.unwrap_err(), ErrorCode::InsufficientFunds);
    let probe = SubscriptionKey { subscriber: OTHER, config: ck };
    assert!(!store.has_subscription(&probe));
    assert_eq!(balances.balance_of(AUTHORITY), 0);
}

#[test]
fn subscribe_overflow_creates_no_record() {
    let (mut store, mut balances, ck) = setup();
    // One interval of 30 days past this moment exceeds the i64 range.
    let late: i64 = i64::MAX - 29 * DAY;
    let r = create_subscription(&mut store, &mut balances, SUBSCRIBER, &ck, late);
    assert_eq!(r.unwrap_err(), ErrorCode::MathOverflow);
    let probe = SubscriptionKey { subscriber: SUBSCRIBER, config: ck };
    assert_eq!(
        check_entitlement(&store, &probe, late).unwrap_err(),
        ErrorCode::NotFound
    );
    // Nothing was paid either.
    assert_eq!(balances.balance_of(SUBSCRIBER), 10_000);
}

#[test]
fn renewal_before_expiry_extends_from_expiry() {
    let (mut store, mut balances, ck) = setup();
    let (sub_key, expiry) = create_subscription(&mut store, &mut balances, SUBSCRIBER, &ck, 1000)
        .unwrap();
    assert_eq!(expiry, 1000 + 30 * DAY);
    // Renewing with no time elapsed yields exactly two intervals past the start.
    let (expiry2, total) = renew_subscription(&mut store, &mut balances, SUBSCRIBER, &sub_key,
        1000).unwrap();
    assert_eq!(expiry2, 1000 + 60 * DAY);
    assert_eq!(total, 2000);
}

#[test]
fn renewal_after_expiry_extends_from_now() {
    let (mut store, mut balances, ck) = setup();
    let (sub_key, expiry) = create_subscription(&mut store, &mut balances, SUBSCRIBER, &ck, 0)
        .unwrap();
    let late = expiry + 12 * DAY;
    let (expiry2, _total) = renew_subscription(&mut store, &mut balances, SUBSCRIBER, &sub_key,
        late).unwrap();
    assert_eq!(expiry2, late + 30 * DAY);
    // Strictly later than basing the renewal on the stale expiry would give.
    assert!(expiry2 > expiry + 30 * DAY);
}

#[test]
fn total_paid_counts_every_payment() {
    let (mut store, mut balances, ck) = setup();
    let (sub_key, _) = create_subscription(&mut store, &mut balances, SUBSCRIBER, &ck, 0)
        .unwrap();
    let mut t: i64 = 1;
    let mut last_total: u64 = 1000;
    for n in 2..=4u64 {
        let (_e, total) = renew_subscription(&mut store, &mut balances, SUBSCRIBER, &sub_key, t)
            .unwrap();
        assert_eq!(total, 1000 * n);
        last_total = total;
        t += 1;
    }
    assert_eq!(last_total, 4000);
    assert_eq!(balances.balance_of(SUBSCRIBER), 6_000);
    assert_eq!(balances.balance_of(AUTHORITY), 4_000);
}

#[test]
fn full_scenario_timeline() {
    // price 1000, interval 30 days: subscribe at 0, renew before expiry,
    // check entitlement mid-period, renew after expiry.
    let (mut store, mut balances, ck) = setup();
    let (sub_key, expiry) = create_subscription(&mut store, &mut balances, SUBSCRIBER, &ck, 0)
        .unwrap();
    assert_eq!(expiry, 2_592_000);
    let (expiry2, total2) = renew_subscription(&mut store, &mut balances, SUBSCRIBER, &sub_key,
        100).unwrap();
    assert_eq!(expiry2, 5_184_000);
    assert_eq!(total2, 2000);
    let (entitled, _) = check_entitlement(&store, &sub_key, 5_000_000).unwrap();
    assert!(entitled);
    let (expiry3, total3) = renew_subscription(&mut store, &mut balances, SUBSCRIBER, &sub_key,
        6_000_000).unwrap();
    assert_eq!(expiry3, 8_592_000);
    assert_eq!(total3, 3000);
    // Past the old expiry and before the new one, entitlement holds again.
    let (entitled2, _) = check_entitlement(&store, &sub_key, 6_000_000).unwrap();
    assert!(entitled2);
}

#[test]
fn entitlement_lapses_at_expiry() {
    let (mut store, mut balances, ck) = setup();
    let (sub_key, expiry) = create_subscription(&mut store, &mut balances, SUBSCRIBER, &ck, 0)
        .unwrap();
    assert!(check_entitlement(&store, &sub_key, expiry - 1).unwrap().0);
    // Entitlement requires the expiry to lie strictly in the future.
    assert!(!check_entitlement(&store, &sub_key, expiry).unwrap().0);
    assert!(!check_entitlement(&store, &sub_key, expiry + 1).unwrap().0);
}

#[test]
fn renewal_overflow_changes_nothing() {
    let mut store = Store::new();
    let mut balances = Balances::new();
    let (_mk, ck) = register_merchant(&mut store, AUTHORITY, MINT, u64::MAX, 30,
        String::from("gold")).unwrap();
    balances.deposit(SUBSCRIBER, u64::MAX).unwrap();
    let (sub_key, _) = create_subscription(&mut store, &mut balances, SUBSCRIBER, &ck, 0)
        .unwrap();
    // The accumulated total cannot take a second full payment.
    let r = renew_subscription(&mut store, &mut balances, SUBSCRIBER, &sub_key, 1);
    assert_eq!(r.unwrap_err(), ErrorCode::MathOverflow);
    assert_eq!(store.get_subscription(&sub_key).unwrap().total_paid, u64::MAX);
}

#[test]
fn renewal_by_stranger_is_unauthorized() {
    let (mut store, mut balances, ck) = setup();
    let (sub_key, _) = create_subscription(&mut store, &mut balances, SUBSCRIBER, &ck, 0)
        .unwrap();
    let r = renew_subscription(&mut store, &mut balances, OTHER, &sub_key, 1);
    assert_eq!(r.unwrap_err(), ErrorCode::Unauthorized);
}

#[test]
fn renewal_of_missing_subscription_fails() {
    let (mut store, mut balances, ck) = setup();
    let probe = SubscriptionKey { subscriber: SUBSCRIBER, config: ck };
    let r = renew_subscription(&mut store, &mut balances, SUBSCRIBER, &probe, 0);
    assert_eq!(r.unwrap_err(), ErrorCode::NotFound);
}

#[test]
fn cancel_by_stranger_leaves_subscription_active() {
    let (mut store, mut balances, ck) = setup();
    let (sub_key, _) = create_subscription(&mut store, &mut balances, SUBSCRIBER, &ck, 0)
        .unwrap();
    let r = cancel_subscription(&mut store, OTHER, &sub_key);
    assert_eq!(r.unwrap_err(), ErrorCode::Unauthorized);
    assert!(check_entitlement(&store, &sub_key, 1).unwrap().0);
}

#[test]
fn cancel_twice_reports_already_canceled() {
    let (mut store, mut balances, ck) = setup();
    let (sub_key, _) = create_subscription(&mut store, &mut balances, SUBSCRIBER, &ck, 0)
        .unwrap();
    cancel_subscription(&mut store, SUBSCRIBER, &sub_key).unwrap();
    assert!(!check_entitlement(&store, &sub_key, 1).unwrap().0);
    let r = cancel_subscription(&mut store, SUBSCRIBER, &sub_key);
    assert_eq!(r.unwrap_err(), ErrorCode::SubscriptionAlreadyCanceled);
}

#[test]
fn canceled_subscription_cannot_renew() {
    let (mut store, mut balances, ck) = setup();
    let (sub_key, _) = create_subscription(&mut store, &mut balances, SUBSCRIBER, &ck, 0)
        .unwrap();
    cancel_subscription(&mut store, SUBSCRIBER, &sub_key).unwrap();
    let r = renew_subscription(&mut store, &mut balances, SUBSCRIBER, &sub_key, 1);
    assert_eq!(r.unwrap_err(), ErrorCode::SubscriptionInactive);
    // Cancellation never refunds.
    assert_eq!(balances.balance_of(SUBSCRIBER), 9_000);
}

#[test]
fn merchant_subscribing_to_own_product_keeps_balance() {
    let (mut store, mut balances, ck) = setup();
    balances.deposit(AUTHORITY, 1_000).unwrap();
    let (sub_key, _) = create_subscription(&mut store, &mut balances, AUTHORITY, &ck, 0)
        .unwrap();
    // Paying oneself moves nothing, but the record is created.
    assert_eq!(balances.balance_of(AUTHORITY), 1_000);
    assert!(check_entitlement(&store, &sub_key, 0).unwrap().0);
}

#[test]
fn subscriptions_to_different_configs_are_independent() {
    let (mut store, mut balances, ck) = setup();
    let (_mk2, ck2) = register_merchant(&mut store, AUTHORITY, 3, 200, 7, String::from("silver"))
        .unwrap();
    let (key_a, _) = create_subscription(&mut store, &mut balances, SUBSCRIBER, &ck, 0).unwrap();
    let (key_b, _) = create_subscription(&mut store, &mut balances, SUBSCRIBER, &ck2, 0).unwrap();
    cancel_subscription(&mut store, SUBSCRIBER, &key_a).unwrap();
    assert!(!check_entitlement(&store, &key_a, 1).unwrap().0);
    assert!(check_entitlement(&store, &key_b, 1).unwrap().0);
}
