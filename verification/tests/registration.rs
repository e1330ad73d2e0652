use subwave::engine::{create_subscription, register_merchant, renew_subscription,
    update_subscription_config};
use subwave::errors::ErrorCode;
use subwave::gateway::Balances;
use subwave::keys::{ConfigKey, MerchantKey};
use subwave::store::Store;

const AUTHORITY: u64 = 1;
const MINT: u64 = 2;
const SUBSCRIBER: u64 = 7;

fn setup() -> (Store, Balances, MerchantKey, ConfigKey) {
    let mut store = Store::new();
    let mut balances = Balances::new();
    let (mk, ck) = register_merchant(
        &mut store,
        AUTHORITY,
        MINT,
        1000,
        30,
        String::from("gold"),
    )
    .unwrap();
    balances.deposit(SUBSCRIBER, 10_000).unwrap();
    (store, balances, mk, ck)
}

#[test]
fn register_rejects_zero_price() {
    let mut store = Store::new();
    let r = register_merchant(&mut store, AUTHORITY, MINT, 0, 30, String::from("gold"));
    assert_eq!(r.unwrap_err(), ErrorCode::InvalidPrice);
    assert!(!store.has_merchant(&MerchantKey { authority: AUTHORITY, token_mint: MINT }));
}

#[test]
fn register_rejects_zero_interval() {
    let mut store = Store::new();
    let r = register_merchant(&mut store, AUTHORITY, MINT, 1000, 0, String::from("gold"));
    assert_eq!(r.unwrap_err(), ErrorCode::InvalidInterval);
}

#[test]
fn register_rejects_long_product_name() {
    let mut store = Store::new();
    let name = "a".repeat(51);
    let r = register_merchant(&mut store, AUTHORITY, MINT, 1000, 30, name);
    assert_eq!(r.unwrap_err(), ErrorCode::ProductNameTooLong);
    assert!(!store.has_merchant(&MerchantKey { authority: AUTHORITY, token_mint: MINT }));
}

#[test]
fn register_measures_name_in_characters() {
    // 50 two-byte characters are exactly at the limit.
    let mut store = Store::new();
    let name = "\u{e9}".repeat(50);
    let r = register_merchant(&mut store, AUTHORITY, MINT, 1000, 30, name);
    assert!(r.is_ok());
}

#[test]
fn register_creates_merchant_and_config_together() {
    let (store, _balances, mk, ck) = setup();
    assert!(store.has_merchant(&mk));
    let cfg = store.get_config(&ck).unwrap();
    assert_eq!(cfg.price, 1000);
    assert_eq!(cfg.interval_days, 30);
    assert_eq!(cfg.product_name, "gold");
    assert!(cfg.active);
}

#[test]
fn register_same_pair_twice_fails() {
    let (mut store, _balances, _mk, _ck) = setup();
    // The same (authority, mint) pair fails even for another product name.
    let r = register_merchant(&mut store, AUTHORITY, MINT, 500, 7, String::from("silver"));
    assert_eq!(r.unwrap_err(), ErrorCode::AlreadyExists);
    // Another mint is a different merchant identity and succeeds.
    let r2 = register_merchant(&mut store, AUTHORITY, 3, 500, 7, String::from("silver"));
    assert!(r2.is_ok());
}

#[test]
fn update_config_applies_only_given_fields() {
    let (mut store, _balances, _mk, ck) = setup();
    let updated = update_subscription_config(&mut store, AUTHORITY, &ck, Some(2500), None, None)
        .unwrap();
    assert_eq!(updated.price, 2500);
    assert_eq!(updated.interval_days, 30);
    assert!(updated.active);
    assert_eq!(updated.product_name, "gold");
    let stored = store.get_config(&ck).unwrap();
    assert_eq!(stored.price, 2500);
    assert_eq!(stored.interval_days, 30);
}

#[test]
fn update_config_same_patch_twice_gives_same_config() {
    let (mut store, _balances, _mk, ck) = setup();
    let first = update_subscription_config(&mut store, AUTHORITY, &ck, Some(2500), Some(14),
        Some(false)).unwrap();
    let second = update_subscription_config(&mut store, AUTHORITY, &ck, Some(2500), Some(14),
        Some(false)).unwrap();
    assert_eq!(first.price, second.price);
    assert_eq!(first.interval_days, second.interval_days);
    assert_eq!(first.active, second.active);
    assert_eq!(first.product_name, second.product_name);
}

#[test]
fn update_config_rejects_wrong_authority() {
    let (mut store, _balances, _mk, ck) = setup();
    let r = update_subscription_config(&mut store, SUBSCRIBER, &ck, Some(2500), None, None);
    assert_eq!(r.unwrap_err(), ErrorCode::Unauthorized);
    assert_eq!(store.get_config(&ck).unwrap().price, 1000);
}

#[test]
fn update_config_rejects_zero_values() {
    let (mut store, _balances, _mk, ck) = setup();
    let r = update_subscription_config(&mut store, AUTHORITY, &ck, Some(0), None, None);
    assert_eq!(r.unwrap_err(), ErrorCode::InvalidPrice);
    let r2 = update_subscription_config(&mut store, AUTHORITY, &ck, None, Some(0), None);
    assert_eq!(r2.unwrap_err(), ErrorCode::InvalidInterval);
    // Neither rejected patch changed anything.
    let stored = store.get_config(&ck).unwrap();
    assert_eq!(stored.price, 1000);
    assert_eq!(stored.interval_days, 30);
}

#[test]
fn update_config_missing_fails_not_found() {
    let (mut store, _balances, mk, _ck) = setup();
    let other = ConfigKey { merchant: mk, product_name: String::from("missing") };
    let r = update_subscription_config(&mut store, AUTHORITY, &other, Some(1), None, None);
    assert_eq!(r.unwrap_err(), ErrorCode::NotFound);
}

#[test]
fn deactivating_config_stops_new_subscriptions_only() {
    let (mut store, mut balances, _mk, ck) = setup();
    let (sub_key, _expiry) = create_subscription(&mut store, &mut balances, SUBSCRIBER, &ck, 0)
        .unwrap();
    update_subscription_config(&mut store, AUTHORITY, &ck, None, None, Some(false)).unwrap();
    // No new subscription can be opened.
    balances.deposit(8, 5000).unwrap();
    let r = create_subscription(&mut store, &mut balances, 8, &ck, 10);
    assert_eq!(r.unwrap_err(), ErrorCode::SubscriptionInactive);
    // The open subscription keeps its entitlement but cannot renew.
    let (entitled, _) = subwave::engine::check_entitlement(&store, &sub_key, 10).unwrap();
    assert!(entitled);
    let r2 = renew_subscription(&mut store, &mut balances, SUBSCRIBER, &sub_key, 10);
    assert_eq!(r2.unwrap_err(), ErrorCode::SubscriptionInactive);
}

#[test]
fn deposit_and_balance_track_funds() {
    let mut balances = Balances::new();
    assert_eq!(balances.balance_of(5), 0);
    balances.deposit(5, 300).unwrap();
    balances.deposit(5, 20).unwrap();
    assert_eq!(balances.balance_of(5), 320);
    let r = balances.deposit(5, u64::MAX);
    assert_eq!(r.unwrap_err(), ErrorCode::MathOverflow);
    assert_eq!(balances.balance_of(5), 320);
}

#[test]
fn transfer_moves_funds_atomically() {
    let mut balances = Balances::new();
    balances.deposit(5, 300).unwrap();
    balances.transfer(5, 6, 100).unwrap();
    assert_eq!(balances.balance_of(5), 200);
    assert_eq!(balances.balance_of(6), 100);
    let r = balances.transfer(5, 6, 201);
    assert_eq!(r.unwrap_err(), ErrorCode::InsufficientFunds);
    assert_eq!(balances.balance_of(5), 200);
    assert_eq!(balances.balance_of(6), 100);
}
