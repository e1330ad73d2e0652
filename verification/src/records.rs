use vstd::prelude::*;

use crate::keys::{AccountId, ConfigKeyView, MerchantKey, SubscriptionKeyView};

verus! {

/// Seconds in one whole day; billing intervals are quoted in days and
/// converted to seconds for expiry arithmetic.
pub const SECONDS_PER_DAY: i64 = 86400;

/// A merchant: the principal that may administer it and the payment asset it
/// accepts. Created once at registration and never mutated afterward.
#[derive(Clone, Copy, Debug, PartialEq, Eq, Structural)]
pub struct Merchant {
    pub authority: AccountId,
    pub token_mint: AccountId,
}

impl Merchant {
    /// The deterministic address of this merchant.
    pub open spec fn key(self) -> MerchantKey {
        MerchantKey { authority: self.authority, token_mint: self.token_mint }
    }
}

/// A subscription product published by a merchant: what it costs, how long
/// one billing interval lasts, and whether new subscriptions may be opened.
#[derive(Clone, Debug)]
pub struct SubscriptionConfig {
    pub merchant: MerchantKey,
    pub price: u64,
    pub interval_days: u32,
    pub product_name: String,
    pub active: bool,
}

/// The mathematical value of a [`SubscriptionConfig`].
#[verifier::ext_equal]
pub struct ConfigView {
    pub merchant: MerchantKey,
    pub price: u64,
    pub interval_days: u32,
    pub product_name: Seq<char>,
    pub active: bool,
}

impl View for SubscriptionConfig {
    type V = ConfigView;

    open spec fn view(&self) -> ConfigView {
        ConfigView {
            merchant: self.merchant,
            price: self.price,
            interval_days: self.interval_days,
            product_name: self.product_name@,
            active: self.active,
        }
    }
}

impl ConfigView {
    /// The deterministic address of this configuration.
    pub open spec fn key(self) -> ConfigKeyView {
        ConfigKeyView { merchant: self.merchant, product_name: self.product_name }
    }

    /// Validity of a configuration: the price and the interval are positive
    /// and the product name is at most 50 characters. This holds at creation
    /// and after every update.
    pub open spec fn wf(self) -> bool {
        &&& self.price > 0
        &&& self.interval_days > 0
        &&& self.product_name.len() <= 50
    }
}

/// One subscriber's time-boxed entitlement to one configuration's product.
#[derive(Clone, Debug)]
pub struct Subscription {
    pub subscriber: AccountId,
    pub merchant: MerchantKey,
    pub subscription_config: crate::keys::ConfigKey,
    pub start_timestamp: i64,
    pub expiry_timestamp: i64,
    pub active: bool,
    pub total_paid: u64,
}

/// The mathematical value of a [`Subscription`].
#[verifier::ext_equal]
pub struct SubscriptionView {
    pub subscriber: AccountId,
    pub merchant: MerchantKey,
    pub subscription_config: ConfigKeyView,
    pub start_timestamp: i64,
    pub expiry_timestamp: i64,
    pub active: bool,
    pub total_paid: u64,
}

impl View for Subscription {
    type V = SubscriptionView;

    open spec fn view(&self) -> SubscriptionView {
        SubscriptionView {
            subscriber: self.subscriber,
            merchant: self.merchant,
            subscription_config: self.subscription_config@,
            start_timestamp: self.start_timestamp,
            expiry_timestamp: self.expiry_timestamp,
            active: self.active,
            total_paid: self.total_paid,
        }
    }
}

impl SubscriptionView {
    /// The deterministic address of this subscription.
    pub open spec fn key(self) -> SubscriptionKeyView {
        SubscriptionKeyView { subscriber: self.subscriber, config: self.subscription_config }
    }

    /// Validity of a subscription record: it never expires before it starts,
    /// and its merchant reference agrees with its configuration's merchant.
    pub open spec fn wf(self) -> bool {
        &&& self.expiry_timestamp >= self.start_timestamp
        &&& self.merchant == self.subscription_config.merchant
    }
}

/// One billing interval, in seconds.
pub open spec fn spec_interval_seconds(interval_days: u32) -> int {
    interval_days as int * SECONDS_PER_DAY as int
}

/// The time base of a renewal: an unexpired subscription extends from its
/// current expiry (no paid time is lost), an already-expired one extends
/// from the present moment (the lapsed gap is not granted retroactively).
pub open spec fn spec_renew_base(expiry_timestamp: i64, now: i64) -> i64 {
    if expiry_timestamp > now {
        expiry_timestamp
    } else {
        now
    }
}

/// The subscription record that opening a subscription at time `now`
/// against configuration `config` creates.
pub open spec fn spec_subscribed(
    subscriber: AccountId,
    config_key: ConfigKeyView,
    config: ConfigView,
    now: i64,
) -> SubscriptionView {
    SubscriptionView {
        subscriber,
        merchant: config_key.merchant,
        subscription_config: config_key,
        start_timestamp: now,
        expiry_timestamp: (now + spec_interval_seconds(config.interval_days)) as i64,
        active: true,
        total_paid: config.price,
    }
}

/// The subscription record after one renewal at time `now`: the expiry moves
/// one interval past the renewal's time base, and the configured price is
/// added to the accumulated total.
pub open spec fn spec_renewed(s: SubscriptionView, config: ConfigView, now: i64) -> SubscriptionView {
    SubscriptionView {
        expiry_timestamp: (spec_renew_base(s.expiry_timestamp, now)
            + spec_interval_seconds(config.interval_days)) as i64,
        total_paid: (s.total_paid + config.price) as u64,
        ..s
    }
}

/// The subscription record after cancellation: inactive, everything else
/// untouched. No operation sets `active` back to true.
pub open spec fn spec_canceled(s: SubscriptionView) -> SubscriptionView {
    SubscriptionView { active: false, ..s }
}

/// Entitlement at time `now`: the subscription is active and has not yet
/// expired. "Expired but not canceled" is this predicate turning false with
/// time, not a stored state.
pub open spec fn spec_entitled(s: SubscriptionView, now: i64) -> bool {
    s.active && s.expiry_timestamp > now
}

/// The configuration after a partial update: each provided field replaces
/// the stored one, each omitted field is left untouched. The identity
/// (merchant and product name) never changes.
pub open spec fn spec_patched(
    c: ConfigView,
    new_price: Option<u64>,
    new_interval_days: Option<u32>,
    new_active: Option<bool>,
) -> ConfigView {
    ConfigView {
        price: match new_price {
            Some(p) => p,
            None => c.price,
        },
        interval_days: match new_interval_days {
            Some(d) => d,
            None => c.interval_days,
        },
        active: match new_active {
            Some(a) => a,
            None => c.active,
        },
        ..c
    }
}

} // verus!
