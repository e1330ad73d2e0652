use vstd::prelude::*;

use crate::engine::{spec_cancel, spec_create_subscription, spec_register, spec_renew,
    spec_update_config};
use crate::errors::ErrorCode;
use crate::keys::{AccountId, ConfigKeyView, MerchantKey, SubscriptionKeyView};
use crate::records::{spec_entitled, spec_interval_seconds, spec_patched, spec_renewed,
    spec_subscribed, ConfigView, SubscriptionView};
use crate::store::StoreView;

verus! {

// The properties that relate the ledger's operations to one another, proved
// over the same transitions that the executable operations are proved to
// implement.

/// Registration succeeds exactly once per `(authority, token_mint)` pair:
/// with valid inputs it succeeds precisely when the merchant's address is
/// still free, and after one success every further registration of the same
/// pair fails with `AlreadyExists`, whatever product it would found.
pub proof fn lemma_register_exactly_once(
    st: StoreView,
    authority: AccountId,
    token_mint: AccountId,
    price: u64,
    interval_days: u32,
    product_name: Seq<char>,
    price2: u64,
    interval_days2: u32,
    product_name2: Seq<char>,
)
    requires
        price > 0,
        interval_days > 0,
        product_name.len() <= 50,
        price2 > 0,
        interval_days2 > 0,
        product_name2.len() <= 50,
    ensures
        spec_register(st, authority, token_mint, price, interval_days, product_name) is Ok
            <==> !st.merchants.contains_key(MerchantKey { authority, token_mint }),
        spec_register(st, authority, token_mint, price, interval_days, product_name) matches Ok(
            st2,
        ) ==> spec_register(st2, authority, token_mint, price2, interval_days2, product_name2)
            == Err::<StoreView, ErrorCode>(ErrorCode::AlreadyExists),
{
}

/// A successful registration creates the merchant and its founding
/// configuration together, at their derived addresses, where neither stood
/// before: one never exists without the other.
pub proof fn lemma_register_creates_both(
    st: StoreView,
    authority: AccountId,
    token_mint: AccountId,
    price: u64,
    interval_days: u32,
    product_name: Seq<char>,
)
    ensures
        spec_register(st, authority, token_mint, price, interval_days, product_name) matches Ok(
            st2,
        ) ==> {
            let mk = MerchantKey { authority, token_mint };
            let ck = ConfigKeyView { merchant: mk, product_name };
            &&& !st.merchants.contains_key(mk)
            &&& st2.merchants.contains_key(mk)
            &&& st2.configs.contains_key(ck)
            &&& st2.configs[ck].price == price
            &&& st2.configs[ck].interval_days == interval_days
            &&& st2.configs[ck].active
        },
{
}

/// Entitlement holds exactly when the subscription is active and its expiry
/// lies strictly in the future; it lapses as soon as time reaches the
/// expiry, with no stored state changing.
pub proof fn lemma_entitled_iff(s: SubscriptionView, now: i64)
    ensures
        spec_entitled(s, now) <==> (s.active && s.expiry_timestamp > now),
{
}

/// Immediately after opening a subscription, the subscriber is entitled.
pub proof fn lemma_entitled_after_subscribe(
    st: StoreView,
    b: Map<AccountId, u64>,
    subscriber: AccountId,
    ck: ConfigKeyView,
    now: i64,
)
    requires
        st.configs.contains_key(ck),
        st.configs[ck].interval_days > 0,
        spec_create_subscription(st, b, subscriber, ck, now) is Ok,
    ensures
        spec_create_subscription(st, b, subscriber, ck, now) matches Ok(next) ==> spec_entitled(
            next.0.subscriptions[SubscriptionKeyView { subscriber, config: ck }],
            now,
        ),
{
}

/// Immediately after a successful renewal, the subscriber is entitled.
pub proof fn lemma_entitled_after_renew(
    st: StoreView,
    b: Map<AccountId, u64>,
    caller: AccountId,
    sk: SubscriptionKeyView,
    now: i64,
)
    requires
        st.configs[sk.config].interval_days > 0,
        spec_renew(st, b, caller, sk, now) is Ok,
    ensures
        spec_renew(st, b, caller, sk, now) matches Ok(next) ==> spec_entitled(
            next.0.subscriptions[sk],
            now,
        ),
{
}

/// After cancellation, entitlement is gone at every time whatsoever.
pub proof fn lemma_not_entitled_after_cancel(
    st: StoreView,
    caller: AccountId,
    sk: SubscriptionKeyView,
    t: i64,
)
    ensures
        spec_cancel(st, caller, sk) matches Ok(st2) ==> !spec_entitled(st2.subscriptions[sk], t),
{
}

/// Renewing while the stored expiry is still in the future extends from
/// that expiry, so no paid time is lost: the new expiry is exactly one
/// interval past the old one, independent of when in the paid period the
/// renewal happens.
pub proof fn lemma_renew_before_expiry(s: SubscriptionView, c: ConfigView, now: i64)
    requires
        now < s.expiry_timestamp,
        s.expiry_timestamp + spec_interval_seconds(c.interval_days) <= i64::MAX,
    ensures
        spec_renewed(s, c, now).expiry_timestamp == s.expiry_timestamp + spec_interval_seconds(
            c.interval_days,
        ),
{
}

/// Renewing immediately after subscribing — with no time elapsed — yields
/// an expiry exactly two intervals past the start, not one interval past
/// the unchanged present moment.
pub proof fn lemma_renew_immediately_after_subscribe(
    subscriber: AccountId,
    ck: ConfigKeyView,
    c: ConfigView,
    t0: i64,
)
    requires
        c.interval_days > 0,
        t0 + 2 * spec_interval_seconds(c.interval_days) <= i64::MAX,
    ensures
        spec_renewed(spec_subscribed(subscriber, ck, c, t0), c, t0).expiry_timestamp == t0 + 2
            * spec_interval_seconds(c.interval_days),
{
}

/// Renewing after the expiry has passed extends from the present moment:
/// the lapsed gap is not granted retroactively, and when time has strictly
/// passed the expiry the result lies strictly beyond what basing the
/// renewal on the stale expiry would have given.
pub proof fn lemma_renew_after_expiry(s: SubscriptionView, c: ConfigView, now: i64)
    requires
        s.expiry_timestamp <= now,
        now + spec_interval_seconds(c.interval_days) <= i64::MAX,
    ensures
        spec_renewed(s, c, now).expiry_timestamp == now + spec_interval_seconds(c.interval_days),
        s.expiry_timestamp < now ==> spec_renewed(s, c, now).expiry_timestamp
            > s.expiry_timestamp + spec_interval_seconds(c.interval_days),
{
}

/// The subscription as it stands after the initial subscribe at `t0` and
/// then one renewal at each time in `times`, in order.
pub open spec fn spec_renew_times(s: SubscriptionView, c: ConfigView, times: Seq<i64>)
    -> SubscriptionView
    decreases times.len(),
{
    if times.len() == 0 {
        s
    } else {
        spec_renew_times(spec_renewed(s, c, times[0]), c, times.drop_first())
    }
}

proof fn lemma_renew_times_total(s: SubscriptionView, c: ConfigView, times: Seq<i64>)
    requires
        s.total_paid + c.price * times.len() <= u64::MAX,
    ensures
        spec_renew_times(s, c, times).total_paid == s.total_paid + c.price * times.len(),
    decreases times.len(),
{
    if times.len() > 0 {
        assert(c.price * times.len() == c.price + c.price * (times.len() - 1))
            by (nonlinear_arith)
            requires times.len() >= 1,
        ;
        assert(c.price * (times.len() - 1) >= 0) by (nonlinear_arith)
            requires times.len() >= 1,
        ;
        let s1 = spec_renewed(s, c, times[0]);
        assert(s1.total_paid == s.total_paid + c.price);
        lemma_renew_times_total(s1, c, times.drop_first());
    }
}

/// After the initial subscribe and then N further renewals at a constant
/// price, the accumulated total paid is exactly the price times N + 1 —
/// every payment is counted once and nothing else accrues.
pub proof fn lemma_total_paid_after_renewals(
    subscriber: AccountId,
    ck: ConfigKeyView,
    c: ConfigView,
    t0: i64,
    times: Seq<i64>,
)
    requires
        c.price * (times.len() + 1) <= u64::MAX,
    ensures
        spec_renew_times(spec_subscribed(subscriber, ck, c, t0), c, times).total_paid == c.price
            * (times.len() + 1),
{
    let s0 = spec_subscribed(subscriber, ck, c, t0);
    assert(c.price * (times.len() + 1) == c.price + c.price * times.len()) by (nonlinear_arith);
    assert(c.price * times.len() >= 0) by (nonlinear_arith);
    lemma_renew_times_total(s0, c, times);
}

/// The accumulated total never decreases: a renewal adds the price to it,
/// and a cancellation leaves it untouched.
pub proof fn lemma_total_paid_monotone(
    st: StoreView,
    b: Map<AccountId, u64>,
    caller: AccountId,
    sk: SubscriptionKeyView,
    now: i64,
)
    ensures
        spec_renew(st, b, caller, sk, now) matches Ok(next) ==> next.0.subscriptions[
            sk
        ].total_paid == st.subscriptions[sk].total_paid + st.configs[sk.config].price,
        spec_cancel(st, caller, sk) matches Ok(st2) ==> st2.subscriptions[sk].total_paid
            == st.subscriptions[sk].total_paid,
{
}

/// Cancellation is deliberately not idempotent: the first call succeeds,
/// a second call by the same caller is rejected as already canceled.
pub proof fn lemma_cancel_not_idempotent(st: StoreView, caller: AccountId, sk: SubscriptionKeyView)
    ensures
        spec_cancel(st, caller, sk) matches Ok(st2) ==> spec_cancel(st2, caller, sk) == Err::<
            StoreView,
            ErrorCode,
        >(ErrorCode::SubscriptionAlreadyCanceled),
{
}

/// Cancellation is terminal: once canceled, a renewal by the same caller is
/// rejected as inactive, whatever the time and whatever the balances.
pub proof fn lemma_canceled_is_terminal(
    st: StoreView,
    b: Map<AccountId, u64>,
    caller: AccountId,
    sk: SubscriptionKeyView,
    now: i64,
)
    ensures
        spec_cancel(st, caller, sk) matches Ok(st2) ==> spec_renew(st2, b, caller, sk, now)
            == Err::<(StoreView, Map<AccountId, u64>), ErrorCode>(ErrorCode::SubscriptionInactive),
{
}

/// A partial configuration update is idempotent: applying the same patch
/// a second time succeeds and changes nothing further.
pub proof fn lemma_update_config_idempotent(
    st: StoreView,
    caller: AccountId,
    ck: ConfigKeyView,
    new_price: Option<u64>,
    new_interval_days: Option<u32>,
    new_active: Option<bool>,
)
    ensures
        spec_update_config(st, caller, ck, new_price, new_interval_days, new_active) matches Ok(
            st2,
        ) ==> spec_update_config(st2, caller, ck, new_price, new_interval_days, new_active)
            == Ok::<StoreView, ErrorCode>(st2),
{
    match spec_update_config(st, caller, ck, new_price, new_interval_days, new_active) {
        Ok(st2) => {
            let c = st.configs[ck];
            let p = spec_patched(c, new_price, new_interval_days, new_active);
            assert(st2.configs[ck] == p);
            assert(spec_patched(p, new_price, new_interval_days, new_active) =~= p);
            assert(st2.configs.insert(ck, p) =~= st2.configs);
            assert(spec_update_config(st2, caller, ck, new_price, new_interval_days, new_active)
                matches Ok(st3) && st3 =~= st2);
        },
        Err(_) => {
        },
    }
}

} // verus!
