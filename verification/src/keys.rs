use vstd::prelude::*;

verus! {

/// A principal or asset identifier: a merchant authority, a subscriber, or a
/// token mint. Only equality of identifiers matters to the ledger.
pub type AccountId = u64;

/// The identity tuple of a merchant record: one merchant exists per
/// `(authority, token_mint)` pair, and this pair is its storage key.
#[derive(Clone, Copy, Debug, PartialEq, Eq, Structural)]
pub struct MerchantKey {
    pub authority: AccountId,
    pub token_mint: AccountId,
}

/// The identity tuple of a subscription configuration: one configuration
/// exists per `(merchant, product_name)` pair.
#[derive(Clone, Debug)]
pub struct ConfigKey {
    pub merchant: MerchantKey,
    pub product_name: String,
}

/// The mathematical value of a [`ConfigKey`]: the product name as a
/// sequence of characters.
#[verifier::ext_equal]
pub struct ConfigKeyView {
    pub merchant: MerchantKey,
    pub product_name: Seq<char>,
}

impl View for ConfigKey {
    type V = ConfigKeyView;

    open spec fn view(&self) -> ConfigKeyView {
        ConfigKeyView { merchant: self.merchant, product_name: self.product_name@ }
    }
}

/// The identity tuple of a subscription: one subscription exists per
/// `(subscriber, configuration)` pair, so a subscriber cannot hold two
/// concurrent subscriptions to the same configuration.
#[derive(Clone, Debug)]
pub struct SubscriptionKey {
    pub subscriber: AccountId,
    pub config: ConfigKey,
}

/// The mathematical value of a [`SubscriptionKey`].
#[verifier::ext_equal]
pub struct SubscriptionKeyView {
    pub subscriber: AccountId,
    pub config: ConfigKeyView,
}

impl View for SubscriptionKey {
    type V = SubscriptionKeyView;

    open spec fn view(&self) -> SubscriptionKeyView {
        SubscriptionKeyView { subscriber: self.subscriber, config: self.config@ }
    }
}

/// The single key space of the record store: a record kind together with the
/// kind's identity tuple. Deriving a key is a pure function of the tuple, so
/// the same tuple always maps to the same key.
pub enum RecordKeyView {
    Merchant(MerchantKey),
    Config(ConfigKeyView),
    Subscription(SubscriptionKeyView),
}

/// Deterministic addressing is collision-free: two keys are equal exactly
/// when they are derived from the same record kind and the same identity
/// tuple. Distinct tuples never collide, within a kind or across kinds.
pub proof fn lemma_addressing_injective(a: RecordKeyView, b: RecordKeyView)
    ensures
        a == b <==> match (a, b) {
            (RecordKeyView::Merchant(x), RecordKeyView::Merchant(y)) => x == y,
            (RecordKeyView::Config(x), RecordKeyView::Config(y)) => x == y,
            (RecordKeyView::Subscription(x), RecordKeyView::Subscription(y)) => x == y,
            _ => false,
        },
{
}

/// Compares two configuration keys as values.
pub fn config_key_eq(a: &ConfigKey, b: &ConfigKey) -> (r: bool)
    ensures
        r == (a@ == b@),
{
    let same = a.merchant == b.merchant && a.product_name == b.product_name;
    proof {
        if same {
            assert(a@ =~= b@);
        }
    }
    same
}

/// Compares two subscription keys as values.
pub fn subscription_key_eq(a: &SubscriptionKey, b: &SubscriptionKey) -> (r: bool)
    ensures
        r == (a@ == b@),
{
    let same = a.subscriber == b.subscriber && config_key_eq(&a.config, &b.config);
    proof {
        if same {
            assert(a@ =~= b@);
        }
    }
    same
}

/// Copies a configuration key; the copy has the same value.
pub fn copy_config_key(k: &ConfigKey) -> (r: ConfigKey)
    ensures
        r@ == k@,
{
    ConfigKey { merchant: k.merchant, product_name: k.product_name.clone() }
}

/// Copies a subscription key; the copy has the same value.
pub fn copy_subscription_key(k: &SubscriptionKey) -> (r: SubscriptionKey)
    ensures
        r@ == k@,
{
    SubscriptionKey { subscriber: k.subscriber, config: copy_config_key(&k.config) }
}

} // verus!
