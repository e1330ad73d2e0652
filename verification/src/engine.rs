use vstd::prelude::*;
use vstd::string::StrSliceExecFns;

use crate::errors::ErrorCode;
use crate::gateway::{spec_transfer, Balances};
use crate::keys::{copy_config_key, AccountId, ConfigKey, ConfigKeyView, MerchantKey,
    SubscriptionKey, SubscriptionKeyView};
use crate::records::{spec_canceled, spec_entitled, spec_interval_seconds, spec_patched,
    spec_renew_base, spec_renewed, spec_subscribed, ConfigView, Merchant, Subscription,
    SubscriptionConfig, SECONDS_PER_DAY};
use crate::store::{Store, StoreView};

verus! {

// Each operation of the ledger is stated twice: as a mathematical transition
// on the store's and the balances' values, and as executable code proved to
// return exactly what the transition says — the same new state on success,
// the same error and an unchanged state on failure.

/// What registering a merchant does: after validating the founding
/// configuration, it creates the merchant record and that configuration in
/// one step — neither exists without the other — or it fails with
/// `AlreadyExists` if the merchant's address is occupied.
pub open spec fn spec_register(
    st: StoreView,
    authority: AccountId,
    token_mint: AccountId,
    price: u64,
    interval_days: u32,
    product_name: Seq<char>,
) -> Result<StoreView, ErrorCode> {
    let mk = MerchantKey { authority, token_mint };
    let ck = ConfigKeyView { merchant: mk, product_name };
    if price == 0 {
        Err(ErrorCode::InvalidPrice)
    } else if interval_days == 0 {
        Err(ErrorCode::InvalidInterval)
    } else if product_name.len() > 50 {
        Err(ErrorCode::ProductNameTooLong)
    } else if st.merchants.contains_key(mk) {
        Err(ErrorCode::AlreadyExists)
    } else {
        Ok(
            StoreView {
                merchants: st.merchants.insert(mk, Merchant { authority, token_mint }),
                configs: st.configs.insert(
                    ck,
                    ConfigView { merchant: mk, price, interval_days, product_name, active: true },
                ),
                subscriptions: st.subscriptions,
            },
        )
    }
}

/// What opening a subscription does: against an existing, active
/// configuration it computes the expiry one interval past `now`, moves the
/// price from the subscriber to the merchant's authority, and creates the
/// subscription record — payment and record together, or neither.
pub open spec fn spec_create_subscription(
    st: StoreView,
    b: Map<AccountId, u64>,
    subscriber: AccountId,
    ck: ConfigKeyView,
    now: i64,
) -> Result<(StoreView, Map<AccountId, u64>), ErrorCode> {
    let sk = SubscriptionKeyView { subscriber, config: ck };
    if !st.configs.contains_key(ck) {
        Err(ErrorCode::NotFound)
    } else {
        let c = st.configs[ck];
        if !c.active {
            Err(ErrorCode::SubscriptionInactive)
        } else if now + spec_interval_seconds(c.interval_days) > i64::MAX {
            Err(ErrorCode::MathOverflow)
        } else if st.subscriptions.contains_key(sk) {
            Err(ErrorCode::AlreadyExists)
        } else {
            match spec_transfer(b, subscriber, ck.merchant.authority, c.price) {
                Err(e) => Err(e),
                Ok(b2) => Ok(
                    (
                        StoreView {
                            subscriptions: st.subscriptions.insert(
                                sk,
                                spec_subscribed(subscriber, ck, c, now),
                            ),
                            ..st
                        },
                        b2,
                    ),
                ),
            }
        }
    }
}

/// What renewing does: for the subscription's own subscriber, while both the
/// subscription and its configuration are active, the expiry moves one
/// interval past the time base — the stored expiry if still in the future,
/// otherwise `now` — the price is paid again and added to the total.
pub open spec fn spec_renew(
    st: StoreView,
    b: Map<AccountId, u64>,
    caller: AccountId,
    sk: SubscriptionKeyView,
    now: i64,
) -> Result<(StoreView, Map<AccountId, u64>), ErrorCode> {
    if !st.subscriptions.contains_key(sk) {
        Err(ErrorCode::NotFound)
    } else {
        let s = st.subscriptions[sk];
        let c = st.configs[sk.config];
        if caller != s.subscriber {
            Err(ErrorCode::Unauthorized)
        } else if !s.active {
            Err(ErrorCode::SubscriptionInactive)
        } else if !c.active {
            Err(ErrorCode::SubscriptionInactive)
        } else if spec_renew_base(s.expiry_timestamp, now) + spec_interval_seconds(c.interval_days)
            > i64::MAX {
            Err(ErrorCode::MathOverflow)
        } else if s.total_paid + c.price > u64::MAX {
            Err(ErrorCode::MathOverflow)
        } else {
            match spec_transfer(b, caller, c.merchant.authority, c.price) {
                Err(e) => Err(e),
                Ok(b2) => Ok(
                    (
                        StoreView {
                            subscriptions: st.subscriptions.insert(sk, spec_renewed(s, c, now)),
                            ..st
                        },
                        b2,
                    ),
                ),
            }
        }
    }
}

/// What canceling does: for the subscription's own subscriber it clears the
/// active flag, once; a second cancellation is rejected, and nothing ever
/// sets the flag again.
pub open spec fn spec_cancel(st: StoreView, caller: AccountId, sk: SubscriptionKeyView) -> Result<
    StoreView,
    ErrorCode,
> {
    if !st.subscriptions.contains_key(sk) {
        Err(ErrorCode::NotFound)
    } else {
        let s = st.subscriptions[sk];
        if caller != s.subscriber {
            Err(ErrorCode::Unauthorized)
        } else if !s.active {
            Err(ErrorCode::SubscriptionAlreadyCanceled)
        } else {
            Ok(StoreView { subscriptions: st.subscriptions.insert(sk, spec_canceled(s)), ..st })
        }
    }
}

/// What a partial configuration update does: for the owning merchant's
/// authority, each provided field is validated and applied, each omitted
/// field stays; the identity of the configuration never changes.
pub open spec fn spec_update_config(
    st: StoreView,
    caller: AccountId,
    ck: ConfigKeyView,
    new_price: Option<u64>,
    new_interval_days: Option<u32>,
    new_active: Option<bool>,
) -> Result<StoreView, ErrorCode> {
    if !st.configs.contains_key(ck) {
        Err(ErrorCode::NotFound)
    } else {
        let c = st.configs[ck];
        if caller != c.merchant.authority {
            Err(ErrorCode::Unauthorized)
        } else if match new_price {
            Some(p) => p == 0,
            None => false,
        } {
            Err(ErrorCode::InvalidPrice)
        } else if match new_interval_days {
            Some(d) => d == 0,
            None => false,
        } {
            Err(ErrorCode::InvalidInterval)
        } else {
            Ok(
                StoreView {
                    configs: st.configs.insert(
                        ck,
                        spec_patched(c, new_price, new_interval_days, new_active),
                    ),
                    ..st
                },
            )
        }
    }
}

/// Registers a merchant and its founding subscription configuration in one
/// atomic step, returning both derived addresses.
pub fn register_merchant(
    store: &mut Store,
    authority: AccountId,
    token_mint: AccountId,
    price: u64,
    interval_days: u32,
    product_name: String,
) -> (r: Result<(MerchantKey, ConfigKey), ErrorCode>)
    requires
        old(store).wf(),
    ensures
        final(store).wf(),
        match r {
            Ok(keys) => {
                &&& spec_register(old(store)@, authority, token_mint, price, interval_days,
                product_name@) == Ok::<StoreView, ErrorCode>(final(store)@)
                &&& keys.0 == (MerchantKey { authority, token_mint })
                &&& keys.1@ == (ConfigKeyView { merchant: keys.0, product_name: product_name@ })
            },
            Err(e) => {
                &&& spec_register(old(store)@, authority, token_mint, price, interval_days,
                product_name@) == Err::<StoreView, ErrorCode>(e)
                &&& final(store)@ == old(store)@
            },
        },
{
    if price == 0 {
        return Err(ErrorCode::InvalidPrice);
    }
    if interval_days == 0 {
        return Err(ErrorCode::InvalidInterval);
    }
    if product_name.as_str().unicode_len() > 50 {
        return Err(ErrorCode::ProductNameTooLong);
    }
    let mk = MerchantKey { authority, token_mint };
    if store.has_merchant(&mk) {
        return Err(ErrorCode::AlreadyExists);
    }
    proof {
        let ckv = ConfigKeyView { merchant: mk, product_name: product_name@ };
        if store@.configs.contains_key(ckv) {
            store.lemma_config_requires_merchant(ckv);
        }
    }
    store.insert_merchant(Merchant { authority, token_mint });
    let name_for_key = product_name.clone();
    store.insert_config(
        SubscriptionConfig { merchant: mk, price, interval_days, product_name, active: true },
    );
    proof {
        let expected = spec_register(old(store)@, authority, token_mint, price, interval_days,
            name_for_key@);
        assert(expected matches Ok(st2) && store@ =~= st2);
    }
    Ok((mk, ConfigKey { merchant: mk, product_name: name_for_key }))
}

/// Opens a subscription for `subscriber` against the given configuration at
/// time `now`, paying the configured price, and returns the new record's
/// address together with its expiry.
pub fn create_subscription(
    store: &mut Store,
    balances: &mut Balances,
    subscriber: AccountId,
    config_key: &ConfigKey,
    now: i64,
) -> (r: Result<(SubscriptionKey, i64), ErrorCode>)
    requires
        old(store).wf(),
    ensures
        final(store).wf(),
        match r {
            Ok(res) => {
                &&& spec_create_subscription(old(store)@, old(balances)@, subscriber, config_key@,
                now) == Ok::<(StoreView, Map<AccountId, u64>), ErrorCode>(
                    (final(store)@, final(balances)@),
                )
                &&& res.0@ == (SubscriptionKeyView { subscriber, config: config_key@ })
                &&& final(store)@.subscriptions.contains_key(res.0@)
                &&& res.1 == final(store)@.subscriptions[res.0@].expiry_timestamp
            },
            Err(e) => {
                &&& spec_create_subscription(old(store)@, old(balances)@, subscriber, config_key@,
                now) == Err::<(StoreView, Map<AccountId, u64>), ErrorCode>(e)
                &&& final(store)@ == old(store)@
                &&& final(balances)@ == old(balances)@
            },
        },
{
    let (cfg_active, price, interval_days) = match store.get_config(config_key) {
        None => {
            return Err(ErrorCode::NotFound);
        },
        Some(c) => (c.active, c.price, c.interval_days),
    };
    if !cfg_active {
        return Err(ErrorCode::SubscriptionInactive);
    }
    let interval_secs: i64 = interval_days as i64 * SECONDS_PER_DAY;
    if now > i64::MAX - interval_secs {
        return Err(ErrorCode::MathOverflow);
    }
    let expiry: i64 = now + interval_secs;
    let sub_key = SubscriptionKey { subscriber, config: copy_config_key(config_key) };
    if store.has_subscription(&sub_key) {
        return Err(ErrorCode::AlreadyExists);
    }
    match balances.transfer(subscriber, config_key.merchant.authority, price) {
        Err(e) => {
            return Err(e);
        },
        Ok(()) => {},
    }
    proof {
        store.lemma_config_wf(config_key@);
    }
    let record = Subscription {
        subscriber,
        merchant: config_key.merchant,
        subscription_config: copy_config_key(config_key),
        start_timestamp: now,
        expiry_timestamp: expiry,
        active: true,
        total_paid: price,
    };
    proof {
        assert(record@ =~= spec_subscribed(subscriber, config_key@, store@.configs[config_key@],
            now));
    }
    store.insert_subscription(record);
    proof {
        let expected = spec_create_subscription(old(store)@, old(balances)@, subscriber,
            config_key@, now);
        assert(expected matches Ok(next) && store@ =~= next.0 && balances@ == next.1);
    }
    Ok((sub_key, expiry))
}

/// Renews an existing subscription at time `now` on behalf of `caller`,
/// paying the configured price again, and returns the new expiry and the
/// accumulated total paid.
pub fn renew_subscription(
    store: &mut Store,
    balances: &mut Balances,
    caller: AccountId,
    key: &SubscriptionKey,
    now: i64,
) -> (r: Result<(i64, u64), ErrorCode>)
    requires
        old(store).wf(),
    ensures
        final(store).wf(),
        match r {
            Ok(res) => {
                &&& spec_renew(old(store)@, old(balances)@, caller, key@, now) == Ok::<
                    (StoreView, Map<AccountId, u64>),
                    ErrorCode,
                >((final(store)@, final(balances)@))
                &&& final(store)@.subscriptions.contains_key(key@)
                &&& res.0 == final(store)@.subscriptions[key@].expiry_timestamp
                &&& res.1 == final(store)@.subscriptions[key@].total_paid
            },
            Err(e) => {
                &&& spec_renew(old(store)@, old(balances)@, caller, key@, now) == Err::<
                    (StoreView, Map<AccountId, u64>),
                    ErrorCode,
                >(e)
                &&& final(store)@ == old(store)@
                &&& final(balances)@ == old(balances)@
            },
        },
{
    let (s_subscriber, s_merchant, s_start, s_expiry, s_total, s_active) = match store
        .get_subscription(key) {
        None => {
            return Err(ErrorCode::NotFound);
        },
        Some(s) => (
            s.subscriber,
            s.merchant,
            s.start_timestamp,
            s.expiry_timestamp,
            s.total_paid,
            s.active,
        ),
    };
    proof {
        store.lemma_subscription_requires_config(key@);
        store.lemma_subscription_wf(key@);
        store.lemma_config_wf(key@.config);
    }
    if caller != s_subscriber {
        return Err(ErrorCode::Unauthorized);
    }
    let (cfg_active, price, interval_days) = match store.get_config(&key.config) {
        None => {
            proof {
                assert(false);
            }
            return Err(ErrorCode::NotFound);
        },
        Some(c) => (c.active, c.price, c.interval_days),
    };
    if !s_active {
        return Err(ErrorCode::SubscriptionInactive);
    }
    if !cfg_active {
        return Err(ErrorCode::SubscriptionInactive);
    }
    let interval_secs: i64 = interval_days as i64 * SECONDS_PER_DAY;
    let base: i64 = if s_expiry > now {
        s_expiry
    } else {
        now
    };
    if base > i64::MAX - interval_secs {
        return Err(ErrorCode::MathOverflow);
    }
    let new_expiry: i64 = base + interval_secs;
    if s_total > u64::MAX - price {
        return Err(ErrorCode::MathOverflow);
    }
    let new_total: u64 = s_total + price;
    match balances.transfer(caller, key.config.merchant.authority, price) {
        Err(e) => {
            return Err(e);
        },
        Ok(()) => {},
    }
    let record = Subscription {
        subscriber: s_subscriber,
        merchant: s_merchant,
        subscription_config: copy_config_key(&key.config),
        start_timestamp: s_start,
        expiry_timestamp: new_expiry,
        active: true,
        total_paid: new_total,
    };
    proof {
        assert(record@ =~= spec_renewed(old(store)@.subscriptions[key@],
            old(store)@.configs[key@.config], now));
    }
    store.put_subscription(key, record);
    proof {
        let expected = spec_renew(old(store)@, old(balances)@, caller, key@, now);
        assert(expected matches Ok(next) && store@ =~= next.0 && balances@ == next.1);
    }
    Ok((new_expiry, new_total))
}

/// Cancels the caller's subscription: terminal, never refunded, rejected if
/// it was already canceled.
pub fn cancel_subscription(store: &mut Store, caller: AccountId, key: &SubscriptionKey) -> (r:
    Result<(), ErrorCode>)
    requires
        old(store).wf(),
    ensures
        final(store).wf(),
        match r {
            Ok(()) => spec_cancel(old(store)@, caller, key@) == Ok::<StoreView, ErrorCode>(
                final(store)@,
            ),
            Err(e) => spec_cancel(old(store)@, caller, key@) == Err::<StoreView, ErrorCode>(e)
                && final(store)@ == old(store)@,
        },
{
    let (s_subscriber, s_merchant, s_start, s_expiry, s_total, s_active) = match store
        .get_subscription(key) {
        None => {
            return Err(ErrorCode::NotFound);
        },
        Some(s) => (
            s.subscriber,
            s.merchant,
            s.start_timestamp,
            s.expiry_timestamp,
            s.total_paid,
            s.active,
        ),
    };
    proof {
        store.lemma_subscription_wf(key@);
    }
    if caller != s_subscriber {
        return Err(ErrorCode::Unauthorized);
    }
    if !s_active {
        return Err(ErrorCode::SubscriptionAlreadyCanceled);
    }
    let record = Subscription {
        subscriber: s_subscriber,
        merchant: s_merchant,
        subscription_config: copy_config_key(&key.config),
        start_timestamp: s_start,
        expiry_timestamp: s_expiry,
        active: false,
        total_paid: s_total,
    };
    proof {
        assert(record@ =~= spec_canceled(old(store)@.subscriptions[key@]));
    }
    store.put_subscription(key, record);
    proof {
        let expected = spec_cancel(old(store)@, caller, key@);
        assert(expected matches Ok(next) && store@ =~= next);
    }
    Ok(())
}

/// Reads whether the subscription at the given address currently grants
/// entitlement, and its expiry. A pure read: anyone may ask, nothing
/// changes.
pub fn check_entitlement(store: &Store, key: &SubscriptionKey, now: i64) -> (r: Result<
    (bool, i64),
    ErrorCode,
>)
    requires
        store.wf(),
    ensures
        match r {
            Ok(res) => {
                &&& store@.subscriptions.contains_key(key@)
                &&& res.0 == spec_entitled(store@.subscriptions[key@], now)
                &&& res.1 == store@.subscriptions[key@].expiry_timestamp
            },
            Err(e) => e == ErrorCode::NotFound && !store@.subscriptions.contains_key(key@),
        },
{
    match store.get_subscription(key) {
        None => Err(ErrorCode::NotFound),
        Some(s) => Ok((s.active && s.expiry_timestamp > now, s.expiry_timestamp)),
    }
}

/// Applies a partial update to a configuration on behalf of `caller` and
/// returns the updated record.
pub fn update_subscription_config(
    store: &mut Store,
    caller: AccountId,
    key: &ConfigKey,
    new_price: Option<u64>,
    new_interval_days: Option<u32>,
    new_active: Option<bool>,
) -> (r: Result<SubscriptionConfig, ErrorCode>)
    requires
        old(store).wf(),
    ensures
        final(store).wf(),
        match r {
            Ok(c) => {
                &&& spec_update_config(old(store)@, caller, key@, new_price, new_interval_days,
                new_active) == Ok::<StoreView, ErrorCode>(final(store)@)
                &&& final(store)@.configs.contains_key(key@)
                &&& c@ == final(store)@.configs[key@]
            },
            Err(e) => {
                &&& spec_update_config(old(store)@, caller, key@, new_price, new_interval_days,
                new_active) == Err::<StoreView, ErrorCode>(e)
                &&& final(store)@ == old(store)@
            },
        },
{
    let (cfg_price, cfg_interval, cfg_active) = match store.get_config(key) {
        None => {
            return Err(ErrorCode::NotFound);
        },
        Some(c) => (c.price, c.interval_days, c.active),
    };
    proof {
        store.lemma_config_wf(key@);
    }
    if caller != key.merchant.authority {
        return Err(ErrorCode::Unauthorized);
    }
    let price: u64 = match new_price {
        Some(p) => {
            if p == 0 {
                return Err(ErrorCode::InvalidPrice);
            }
            p
        },
        None => cfg_price,
    };
    let interval_days: u32 = match new_interval_days {
        Some(d) => {
            if d == 0 {
                return Err(ErrorCode::InvalidInterval);
            }
            d
        },
        None => cfg_interval,
    };
    let active: bool = match new_active {
        Some(a) => a,
        None => cfg_active,
    };
    let record = SubscriptionConfig {
        merchant: key.merchant,
        price,
        interval_days,
        product_name: key.product_name.clone(),
        active,
    };
    // One copy goes into the store, the identical one is handed back.
    let updated = SubscriptionConfig {
        merchant: record.merchant,
        price: record.price,
        interval_days: record.interval_days,
        product_name: record.product_name.clone(),
        active: record.active,
    };
    proof {
        assert(record@ =~= spec_patched(old(store)@.configs[key@], new_price, new_interval_days,
            new_active));
    }
    store.put_config(key, record);
    proof {
        let expected = spec_update_config(old(store)@, caller, key@, new_price, new_interval_days,
            new_active);
        assert(expected matches Ok(next) && store@ =~= next);
    }
    Ok(updated)
}

} // verus!
