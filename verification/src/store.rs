use vstd::prelude::*;

use crate::keys::{config_key_eq, ConfigKey, ConfigKeyView, MerchantKey, SubscriptionKey,
    SubscriptionKeyView};
use crate::records::{ConfigView, Merchant, Subscription, SubscriptionConfig, SubscriptionView};

verus! {

// The record store holds each collection as a vector whose keys are pairwise
// distinct; its view presents each collection as a map from derived key to
// record value, so callers reason about addresses and never about positions.

pub open spec fn merchant_has(s: Seq<Merchant>, k: MerchantKey) -> bool {
    exists|i: int| 0 <= i < s.len() && s[i].key() == k
}

pub open spec fn merchant_at(s: Seq<Merchant>, k: MerchantKey) -> Merchant {
    s[choose|i: int| 0 <= i < s.len() && s[i].key() == k]
}

pub open spec fn merchant_map(s: Seq<Merchant>) -> Map<MerchantKey, Merchant> {
    Map::new(|k: MerchantKey| merchant_has(s, k), |k: MerchantKey| merchant_at(s, k))
}

pub open spec fn merchant_keys_distinct(s: Seq<Merchant>) -> bool {
    forall|i: int, j: int| 0 <= i < j < s.len() ==> #[trigger] s[i].key() != #[trigger] s[j].key()
}

pub open spec fn config_has(s: Seq<SubscriptionConfig>, k: ConfigKeyView) -> bool {
    exists|i: int| 0 <= i < s.len() && s[i]@.key() == k
}

pub open spec fn config_at(s: Seq<SubscriptionConfig>, k: ConfigKeyView) -> ConfigView {
    s[choose|i: int| 0 <= i < s.len() && s[i]@.key() == k]@
}

pub open spec fn config_map(s: Seq<SubscriptionConfig>) -> Map<ConfigKeyView, ConfigView> {
    Map::new(|k: ConfigKeyView| config_has(s, k), |k: ConfigKeyView| config_at(s, k))
}

pub open spec fn config_keys_distinct(s: Seq<SubscriptionConfig>) -> bool {
    forall|i: int, j: int| 0 <= i < j < s.len() ==> #[trigger] s[i]@.key() != #[trigger] s[j]@.key()
}

pub open spec fn subscription_has(s: Seq<Subscription>, k: SubscriptionKeyView) -> bool {
    exists|i: int| 0 <= i < s.len() && s[i]@.key() == k
}

pub open spec fn subscription_at(s: Seq<Subscription>, k: SubscriptionKeyView) -> SubscriptionView {
    s[choose|i: int| 0 <= i < s.len() && s[i]@.key() == k]@
}

pub open spec fn subscription_map(s: Seq<Subscription>) -> Map<SubscriptionKeyView, SubscriptionView> {
    Map::new(|k: SubscriptionKeyView| subscription_has(s, k), |k: SubscriptionKeyView| subscription_at(s, k))
}

pub open spec fn subscription_keys_distinct(s: Seq<Subscription>) -> bool {
    forall|i: int, j: int| 0 <= i < j < s.len() ==> #[trigger] s[i]@.key() != #[trigger] s[j]@.key()
}

proof fn lemma_merchant_at_index(s: Seq<Merchant>, i: int)
    requires
        merchant_keys_distinct(s),
        0 <= i < s.len(),
    ensures
        merchant_has(s, s[i].key()),
        merchant_at(s, s[i].key()) == s[i],
{
    let k = s[i].key();
    assert(merchant_has(s, k));
    let j = choose|j: int| 0 <= j < s.len() && s[j].key() == k;
    assert(j == i);
}

proof fn lemma_config_at_index(s: Seq<SubscriptionConfig>, i: int)
    requires
        config_keys_distinct(s),
        0 <= i < s.len(),
    ensures
        config_has(s, s[i]@.key()),
        config_at(s, s[i]@.key()) == s[i]@,
{
    let k = s[i]@.key();
    assert(config_has(s, k));
    let j = choose|j: int| 0 <= j < s.len() && s[j]@.key() == k;
    assert(j == i);
}

proof fn lemma_subscription_at_index(s: Seq<Subscription>, i: int)
    requires
        subscription_keys_distinct(s),
        0 <= i < s.len(),
    ensures
        subscription_has(s, s[i]@.key()),
        subscription_at(s, s[i]@.key()) == s[i]@,
{
    let k = s[i]@.key();
    assert(subscription_has(s, k));
    let j = choose|j: int| 0 <= j < s.len() && s[j]@.key() == k;
    assert(j == i);
}

proof fn lemma_merchant_push(s: Seq<Merchant>, m: Merchant)
    requires
        merchant_keys_distinct(s),
        !merchant_has(s, m.key()),
    ensures
        merchant_keys_distinct(s.push(m)),
        merchant_map(s.push(m)) == merchant_map(s).insert(m.key(), m),
{
    let t = s.push(m);
    assert forall|i: int, j: int| 0 <= i < j < t.len() implies #[trigger] t[i].key()
        != #[trigger] t[j].key() by {
        if j == s.len() {
            assert(t[i] == s[i]);
            if t[i].key() == m.key() {
                assert(merchant_has(s, m.key()));
            }
        } else {
            assert(t[i] == s[i]);
            assert(t[j] == s[j]);
        }
    }
    assert(t[s.len() as int] == m);
    lemma_merchant_at_index(t, s.len() as int);
    assert forall|k: MerchantKey| #[trigger] merchant_has(s, k) implies merchant_has(t, k) by {
        let i = choose|i: int| 0 <= i < s.len() && s[i].key() == k;
        assert(t[i] == s[i]);
    }
    assert forall|k: MerchantKey| #[trigger] merchant_has(t, k) && k != m.key() implies
        merchant_has(s, k) && merchant_at(t, k) == merchant_at(s, k) by {
        let i = choose|i: int| 0 <= i < t.len() && t[i].key() == k;
        assert(i < s.len());
        assert(t[i] == s[i]);
        lemma_merchant_at_index(s, i);
        lemma_merchant_at_index(t, i);
    }
    assert(merchant_map(t) =~= merchant_map(s).insert(m.key(), m));
}

proof fn lemma_config_push(s: Seq<SubscriptionConfig>, c: SubscriptionConfig)
    requires
        config_keys_distinct(s),
        !config_has(s, c@.key()),
    ensures
        config_keys_distinct(s.push(c)),
        config_map(s.push(c)) == config_map(s).insert(c@.key(), c@),
{
    let t = s.push(c);
    assert forall|i: int, j: int| 0 <= i < j < t.len() implies #[trigger] t[i]@.key()
        != #[trigger] t[j]@.key() by {
        if j == s.len() {
            assert(t[i] == s[i]);
            if t[i]@.key() == c@.key() {
                assert(config_has(s, c@.key()));
            }
        } else {
            assert(t[i] == s[i]);
            assert(t[j] == s[j]);
        }
    }
    assert(t[s.len() as int] == c);
    lemma_config_at_index(t, s.len() as int);
    assert forall|k: ConfigKeyView| #[trigger] config_has(s, k) implies config_has(t, k) by {
        let i = choose|i: int| 0 <= i < s.len() && s[i]@.key() == k;
        assert(t[i] == s[i]);
    }
    assert forall|k: ConfigKeyView| #[trigger] config_has(t, k) && k != c@.key() implies
        config_has(s, k) && config_at(t, k) == config_at(s, k) by {
        let i = choose|i: int| 0 <= i < t.len() && t[i]@.key() == k;
        assert(i < s.len());
        assert(t[i] == s[i]);
        lemma_config_at_index(s, i);
        lemma_config_at_index(t, i);
    }
    assert(config_map(t) =~= config_map(s).insert(c@.key(), c@));
}

proof fn lemma_subscription_push(s: Seq<Subscription>, x: Subscription)
    requires
        subscription_keys_distinct(s),
        !subscription_has(s, x@.key()),
    ensures
        subscription_keys_distinct(s.push(x)),
        subscription_map(s.push(x)) == subscription_map(s).insert(x@.key(), x@),
{
    let t = s.push(x);
    assert forall|i: int, j: int| 0 <= i < j < t.len() implies #[trigger] t[i]@.key()
        != #[trigger] t[j]@.key() by {
        if j == s.len() {
            assert(t[i] == s[i]);
            if t[i]@.key() == x@.key() {
                assert(subscription_has(s, x@.key()));
            }
        } else {
            assert(t[i] == s[i]);
            assert(t[j] == s[j]);
        }
    }
    assert(t[s.len() as int] == x);
    lemma_subscription_at_index(t, s.len() as int);
    assert forall|k: SubscriptionKeyView| #[trigger] subscription_has(s, k) implies
        subscription_has(t, k) by {
        let i = choose|i: int| 0 <= i < s.len() && s[i]@.key() == k;
        assert(t[i] == s[i]);
    }
    assert forall|k: SubscriptionKeyView| #[trigger] subscription_has(t, k) && k != x@.key() implies
        subscription_has(s, k) && subscription_at(t, k) == subscription_at(s, k) by {
        let i = choose|i: int| 0 <= i < t.len() && t[i]@.key() == k;
        assert(i < s.len());
        assert(t[i] == s[i]);
        lemma_subscription_at_index(s, i);
        lemma_subscription_at_index(t, i);
    }
    assert(subscription_map(t) =~= subscription_map(s).insert(x@.key(), x@));
}

proof fn lemma_config_update(s: Seq<SubscriptionConfig>, i: int, c: SubscriptionConfig)
    requires
        config_keys_distinct(s),
        0 <= i < s.len(),
        s[i]@.key() == c@.key(),
    ensures
        config_keys_distinct(s.update(i, c)),
        config_map(s.update(i, c)) == config_map(s).insert(c@.key(), c@),
{
    let t = s.update(i, c);
    assert forall|a: int, b: int| 0 <= a < b < t.len() implies #[trigger] t[a]@.key()
        != #[trigger] t[b]@.key() by {
        assert(s[a]@.key() != s[b]@.key());
        if a != i {
            assert(t[a] == s[a]);
        }
        if b != i {
            assert(t[b] == s[b]);
        }
    }
    assert(t[i] == c);
    lemma_config_at_index(t, i);
    assert forall|k: ConfigKeyView| #[trigger] config_has(s, k) implies config_has(t, k) by {
        let a = choose|a: int| 0 <= a < s.len() && s[a]@.key() == k;
        if a == i {
            assert(t[i]@.key() == k);
        } else {
            assert(t[a] == s[a]);
        }
    }
    assert forall|k: ConfigKeyView| #[trigger] config_has(t, k) && k != c@.key() implies
        config_has(s, k) && config_at(t, k) == config_at(s, k) by {
        let a = choose|a: int| 0 <= a < t.len() && t[a]@.key() == k;
        assert(a != i);
        assert(t[a] == s[a]);
        lemma_config_at_index(s, a);
        lemma_config_at_index(t, a);
    }
    assert(config_map(t) =~= config_map(s).insert(c@.key(), c@));
}

proof fn lemma_subscription_update(s: Seq<Subscription>, i: int, x: Subscription)
    requires
        subscription_keys_distinct(s),
        0 <= i < s.len(),
        s[i]@.key() == x@.key(),
    ensures
        subscription_keys_distinct(s.update(i, x)),
        subscription_map(s.update(i, x)) == subscription_map(s).insert(x@.key(), x@),
{
    let t = s.update(i, x);
    assert forall|a: int, b: int| 0 <= a < b < t.len() implies #[trigger] t[a]@.key()
        != #[trigger] t[b]@.key() by {
        assert(s[a]@.key() != s[b]@.key());
        if a != i {
            assert(t[a] == s[a]);
        }
        if b != i {
            assert(t[b] == s[b]);
        }
    }
    assert(t[i] == x);
    lemma_subscription_at_index(t, i);
    assert forall|k: SubscriptionKeyView| #[trigger] subscription_has(s, k) implies
        subscription_has(t, k) by {
        let a = choose|a: int| 0 <= a < s.len() && s[a]@.key() == k;
        if a == i {
            assert(t[i]@.key() == k);
        } else {
            assert(t[a] == s[a]);
        }
    }
    assert forall|k: SubscriptionKeyView| #[trigger] subscription_has(t, k) && k != x@.key() implies
        subscription_has(s, k) && subscription_at(t, k) == subscription_at(s, k) by {
        let a = choose|a: int| 0 <= a < t.len() && t[a]@.key() == k;
        assert(a != i);
        assert(t[a] == s[a]);
        lemma_subscription_at_index(s, a);
        lemma_subscription_at_index(t, a);
    }
    assert(subscription_map(t) =~= subscription_map(s).insert(x@.key(), x@));
}

/// The record store as a mathematical value: each record kind is a map from
/// its deterministic key to the record's value.
#[verifier::ext_equal]
pub struct StoreView {
    pub merchants: Map<MerchantKey, Merchant>,
    pub configs: Map<ConfigKeyView, ConfigView>,
    pub subscriptions: Map<SubscriptionKeyView, SubscriptionView>,
}

/// The shared record store: the only mutable state of the ledger besides the
/// token balances. Every record is reachable exactly at its derived key.
pub struct Store {
    merchants: Vec<Merchant>,
    configs: Vec<SubscriptionConfig>,
    subscriptions: Vec<Subscription>,
}

impl View for Store {
    type V = StoreView;

    closed spec fn view(&self) -> StoreView {
        StoreView {
            merchants: merchant_map(self.merchants@),
            configs: config_map(self.configs@),
            subscriptions: subscription_map(self.subscriptions@),
        }
    }
}

impl Store {
    /// Internal consistency of the store: keys are pairwise distinct within
    /// each collection, every configuration is valid and owned by a merchant
    /// that exists, and every subscription is valid and refers to a
    /// configuration that exists.
    pub closed spec fn wf(self) -> bool {
        &&& merchant_keys_distinct(self.merchants@)
        &&& config_keys_distinct(self.configs@)
        &&& subscription_keys_distinct(self.subscriptions@)
        &&& forall|i: int| 0 <= i < self.configs@.len() ==> {
            &&& (#[trigger] self.configs@[i])@.wf()
            &&& merchant_has(self.merchants@, self.configs@[i]@.merchant)
        }
        &&& forall|i: int| 0 <= i < self.subscriptions@.len() ==> {
            &&& (#[trigger] self.subscriptions@[i])@.wf()
            &&& config_has(self.configs@, self.subscriptions@[i]@.subscription_config)
        }
    }

    /// An empty store.
    pub fn new() -> (r: Store)
        ensures
            r.wf(),
            r@.merchants == Map::<MerchantKey, Merchant>::empty(),
            r@.configs == Map::<ConfigKeyView, ConfigView>::empty(),
            r@.subscriptions == Map::<SubscriptionKeyView, SubscriptionView>::empty(),
    {
        let r = Store { merchants: Vec::new(), configs: Vec::new(), subscriptions: Vec::new() };
        proof {
            assert(r@.merchants =~= Map::<MerchantKey, Merchant>::empty());
            assert(r@.configs =~= Map::<ConfigKeyView, ConfigView>::empty());
            assert(r@.subscriptions =~= Map::<SubscriptionKeyView, SubscriptionView>::empty());
        }
        r
    }

    /// In a consistent store, a configuration's merchant always exists: a
    /// configuration cannot outlive or precede the merchant that owns it.
    pub proof fn lemma_config_requires_merchant(self, ck: ConfigKeyView)
        requires
            self.wf(),
            self@.configs.contains_key(ck),
        ensures
            self@.merchants.contains_key(ck.merchant),
    {
        let i = choose|i: int| 0 <= i < self.configs@.len() && self.configs@[i]@.key() == ck;
        assert(merchant_has(self.merchants@, self.configs@[i]@.merchant));
    }

    /// In a consistent store, a subscription's configuration always exists.
    pub proof fn lemma_subscription_requires_config(self, sk: SubscriptionKeyView)
        requires
            self.wf(),
            self@.subscriptions.contains_key(sk),
        ensures
            self@.configs.contains_key(sk.config),
    {
        let i = choose|i: int| 0 <= i < self.subscriptions@.len()
            && self.subscriptions@[i]@.key() == sk;
        assert(config_has(self.configs@, self.subscriptions@[i]@.subscription_config));
    }

    /// The record stored at a configuration key is valid and carries exactly
    /// that key's identity.
    pub proof fn lemma_config_wf(self, ck: ConfigKeyView)
        requires
            self.wf(),
            self@.configs.contains_key(ck),
        ensures
            self@.configs[ck].wf(),
            self@.configs[ck].key() == ck,
    {
        let i = choose|i: int| 0 <= i < self.configs@.len() && self.configs@[i]@.key() == ck;
        lemma_config_at_index(self.configs@, i);
    }

    /// The record stored at a subscription key is valid and carries exactly
    /// that key's identity.
    pub proof fn lemma_subscription_wf(self, sk: SubscriptionKeyView)
        requires
            self.wf(),
            self@.subscriptions.contains_key(sk),
        ensures
            self@.subscriptions[sk].wf(),
            self@.subscriptions[sk].key() == sk,
    {
        let i = choose|i: int| 0 <= i < self.subscriptions@.len()
            && self.subscriptions@[i]@.key() == sk;
        lemma_subscription_at_index(self.subscriptions@, i);
    }
}

fn config_matches(c: &SubscriptionConfig, k: &ConfigKey) -> (r: bool)
    ensures
        r == (c@.key() == k@),
{
    let same = c.merchant == k.merchant && c.product_name == k.product_name;
    proof {
        if same {
            assert(c@.key() =~= k@);
        }
    }
    same
}

fn subscription_matches(s: &Subscription, k: &SubscriptionKey) -> (r: bool)
    ensures
        r == (s@.key() == k@),
{
    let same = s.subscriber == k.subscriber && config_key_eq(&s.subscription_config, &k.config);
    proof {
        if same {
            assert(s@.key() =~= k@);
        }
    }
    same
}

impl Store {
    fn find_merchant_index(&self, k: &MerchantKey) -> (r: Option<usize>)
        ensures
            match r {
                Some(i) => i < self.merchants@.len() && self.merchants@[i as int].key() == *k,
                None => !merchant_has(self.merchants@, *k),
            },
    {
        let mut i: usize = 0;
        while i < self.merchants.len()
            invariant
                i <= self.merchants@.len(),
                forall|j: int| 0 <= j < i ==> #[trigger] self.merchants@[j].key() != *k,
            decreases self.merchants@.len() - i,
        {
            let m = &self.merchants[i];
            if m.authority == k.authority && m.token_mint == k.token_mint {
                return Some(i);
            }
            i = i + 1;
        }
        proof {
            if merchant_has(self.merchants@, *k) {
                let j = choose|j: int| 0 <= j < self.merchants@.len()
                    && self.merchants@[j].key() == *k;
                assert(false);
            }
        }
        None
    }

    fn find_config_index(&self, k: &ConfigKey) -> (r: Option<usize>)
        ensures
            match r {
                Some(i) => i < self.configs@.len() && self.configs@[i as int]@.key() == k@,
                None => !config_has(self.configs@, k@),
            },
    {
        let mut i: usize = 0;
        while i < self.configs.len()
            invariant
                i <= self.configs@.len(),
                forall|j: int| 0 <= j < i ==> #[trigger] self.configs@[j]@.key() != k@,
            decreases self.configs@.len() - i,
        {
            if config_matches(&self.configs[i], k) {
                return Some(i);
            }
            i = i + 1;
        }
        proof {
            if config_has(self.configs@, k@) {
                let j = choose|j: int| 0 <= j < self.configs@.len()
                    && self.configs@[j]@.key() == k@;
                assert(false);
            }
        }
        None
    }

    fn find_subscription_index(&self, k: &SubscriptionKey) -> (r: Option<usize>)
        ensures
            match r {
                Some(i) => i < self.subscriptions@.len() && self.subscriptions@[i as int]@.key()
                    == k@,
                None => !subscription_has(self.subscriptions@, k@),
            },
    {
        let mut i: usize = 0;
        while i < self.subscriptions.len()
            invariant
                i <= self.subscriptions@.len(),
                forall|j: int| 0 <= j < i ==> #[trigger] self.subscriptions@[j]@.key() != k@,
            decreases self.subscriptions@.len() - i,
        {
            if subscription_matches(&self.subscriptions[i], k) {
                return Some(i);
            }
            i = i + 1;
        }
        proof {
            if subscription_has(self.subscriptions@, k@) {
                let j = choose|j: int| 0 <= j < self.subscriptions@.len()
                    && self.subscriptions@[j]@.key() == k@;
                assert(false);
            }
        }
        None
    }

    /// Whether a merchant record occupies the given address.
    pub fn has_merchant(&self, k: &MerchantKey) -> (r: bool)
        ensures
            r == self@.merchants.contains_key(*k),
    {
        match self.find_merchant_index(k) {
            Some(i) => {
                proof {
                    assert(merchant_has(self.merchants@, *k));
                }
                true
            },
            None => false,
        }
    }

    /// Whether a subscription record occupies the given address.
    pub fn has_subscription(&self, k: &SubscriptionKey) -> (r: bool)
        ensures
            r == self@.subscriptions.contains_key(k@),
    {
        match self.find_subscription_index(k) {
            Some(i) => {
                proof {
                    assert(subscription_has(self.subscriptions@, k@));
                }
                true
            },
            None => false,
        }
    }

    /// Looks up the configuration at the given address.
    pub fn get_config(&self, k: &ConfigKey) -> (r: Option<&SubscriptionConfig>)
        requires
            self.wf(),
        ensures
            match r {
                Some(c) => self@.configs.contains_key(k@) && c@ == self@.configs[k@],
                None => !self@.configs.contains_key(k@),
            },
    {
        match self.find_config_index(k) {
            Some(i) => {
                proof {
                    lemma_config_at_index(self.configs@, i as int);
                }
                Some(&self.configs[i])
            },
            None => None,
        }
    }

    /// Looks up the subscription at the given address.
    pub fn get_subscription(&self, k: &SubscriptionKey) -> (r: Option<&Subscription>)
        requires
            self.wf(),
        ensures
            match r {
                Some(s) => self@.subscriptions.contains_key(k@) && s@ == self@.subscriptions[k@],
                None => !self@.subscriptions.contains_key(k@),
            },
    {
        match self.find_subscription_index(k) {
            Some(i) => {
                proof {
                    lemma_subscription_at_index(self.subscriptions@, i as int);
                }
                Some(&self.subscriptions[i])
            },
            None => None,
        }
    }

    /// Creates a merchant record at its derived address, which must be free.
    pub fn insert_merchant(&mut self, m: Merchant)
        requires
            old(self).wf(),
            !old(self)@.merchants.contains_key(m.key()),
        ensures
            final(self).wf(),
            final(self)@.merchants == old(self)@.merchants.insert(m.key(), m),
            final(self)@.configs == old(self)@.configs,
            final(self)@.subscriptions == old(self)@.subscriptions,
    {
        proof {
            lemma_merchant_push(self.merchants@, m);
        }
        self.merchants.push(m);
        proof {
            assert forall|i: int| 0 <= i < self.configs@.len() implies {
                &&& (#[trigger] self.configs@[i])@.wf()
                &&& merchant_has(self.merchants@, self.configs@[i]@.merchant)
            } by {
                let mk = self.configs@[i]@.merchant;
                assert(merchant_has(old(self).merchants@, mk));
                let j = choose|j: int| 0 <= j < old(self).merchants@.len()
                    && old(self).merchants@[j].key() == mk;
                assert(self.merchants@[j] == old(self).merchants@[j]);
            }
        }
    }

    /// Creates a configuration record at its derived address, which must be
    /// free; its owning merchant must already exist.
    pub fn insert_config(&mut self, c: SubscriptionConfig)
        requires
            old(self).wf(),
            c@.wf(),
            old(self)@.merchants.contains_key(c@.merchant),
            !old(self)@.configs.contains_key(c@.key()),
        ensures
            final(self).wf(),
            final(self)@.configs == old(self)@.configs.insert(c@.key(), c@),
            final(self)@.merchants == old(self)@.merchants,
            final(self)@.subscriptions == old(self)@.subscriptions,
    {
        proof {
            lemma_config_push(self.configs@, c);
        }
        self.configs.push(c);
        proof {
            assert forall|i: int| 0 <= i < self.configs@.len() implies {
                &&& (#[trigger] self.configs@[i])@.wf()
                &&& merchant_has(self.merchants@, self.configs@[i]@.merchant)
            } by {
                if i < old(self).configs@.len() {
                    assert(self.configs@[i] == old(self).configs@[i]);
                } else {
                    assert(self.configs@[i] == c);
                }
            }
            assert forall|i: int| 0 <= i < self.subscriptions@.len() implies {
                &&& (#[trigger] self.subscriptions@[i])@.wf()
                &&& config_has(self.configs@, self.subscriptions@[i]@.subscription_config)
            } by {
                let ck = self.subscriptions@[i]@.subscription_config;
                assert(config_has(old(self).configs@, ck));
                let j = choose|j: int| 0 <= j < old(self).configs@.len()
                    && old(self).configs@[j]@.key() == ck;
                assert(self.configs@[j] == old(self).configs@[j]);
            }
        }
    }

    /// Creates a subscription record at its derived address, which must be
    /// free; its configuration must already exist.
    pub fn insert_subscription(&mut self, x: Subscription)
        requires
            old(self).wf(),
            x@.wf(),
            old(self)@.configs.contains_key(x@.subscription_config),
            !old(self)@.subscriptions.contains_key(x@.key()),
        ensures
            final(self).wf(),
            final(self)@.subscriptions == old(self)@.subscriptions.insert(x@.key(), x@),
            final(self)@.merchants == old(self)@.merchants,
            final(self)@.configs == old(self)@.configs,
    {
        proof {
            lemma_subscription_push(self.subscriptions@, x);
        }
        let ghost xv = x@;
        self.subscriptions.push(x);
        proof {
            assert forall|i: int| 0 <= i < self.subscriptions@.len() implies {
                &&& (#[trigger] self.subscriptions@[i])@.wf()
                &&& config_has(self.configs@, self.subscriptions@[i]@.subscription_config)
            } by {
                if i < old(self).subscriptions@.len() {
                    assert(self.subscriptions@[i] == old(self).subscriptions@[i]);
                } else {
                    assert(self.subscriptions@[i]@ == xv);
                }
            }
        }
    }

    /// Replaces the configuration at an occupied address with an updated
    /// record carrying the same identity.
    pub fn put_config(&mut self, k: &ConfigKey, c: SubscriptionConfig)
        requires
            old(self).wf(),
            old(self)@.configs.contains_key(k@),
            c@.key() == k@,
            c@.wf(),
        ensures
            final(self).wf(),
            final(self)@.configs == old(self)@.configs.insert(k@, c@),
            final(self)@.merchants == old(self)@.merchants,
            final(self)@.subscriptions == old(self)@.subscriptions,
    {
        let found = self.find_config_index(k);
        match found {
            Some(i) => {
                proof {
                    lemma_config_update(self.configs@, i as int, c);
                    lemma_config_at_index(self.configs@, i as int);
                }
                let ghost cv = c@;
                self.configs[i] = c;
                proof {
                    assert forall|a: int| 0 <= a < self.configs@.len() implies {
                        &&& (#[trigger] self.configs@[a])@.wf()
                        &&& merchant_has(self.merchants@, self.configs@[a]@.merchant)
                    } by {
                        if a != i {
                            assert(self.configs@[a] == old(self).configs@[a]);
                        } else {
                            assert(self.configs@[a]@ == cv);
                            assert(merchant_has(
                                self.merchants@,
                                old(self).configs@[i as int]@.merchant,
                            ));
                        }
                    }
                    assert forall|a: int| 0 <= a < self.subscriptions@.len() implies {
                        &&& (#[trigger] self.subscriptions@[a])@.wf()
                        &&& config_has(self.configs@, self.subscriptions@[a]@.subscription_config)
                    } by {
                        let ck = self.subscriptions@[a]@.subscription_config;
                        assert(config_has(old(self).configs@, ck));
                        let j = choose|j: int| 0 <= j < old(self).configs@.len()
                            && old(self).configs@[j]@.key() == ck;
                        if j == i {
                            assert(self.configs@[j]@.key() == ck);
                        } else {
                            assert(self.configs@[j] == old(self).configs@[j]);
                        }
                    }
                }
            },
            None => {
                proof {
                    assert(false);
                }
            },
        }
    }

    /// Replaces the subscription at an occupied address with an updated
    /// record carrying the same identity.
    pub fn put_subscription(&mut self, k: &SubscriptionKey, x: Subscription)
        requires
            old(self).wf(),
            old(self)@.subscriptions.contains_key(k@),
            x@.key() == k@,
            x@.wf(),
        ensures
            final(self).wf(),
            final(self)@.subscriptions == old(self)@.subscriptions.insert(k@, x@),
            final(self)@.merchants == old(self)@.merchants,
            final(self)@.configs == old(self)@.configs,
    {
        let found = self.find_subscription_index(k);
        match found {
            Some(i) => {
                proof {
                    lemma_subscription_update(self.subscriptions@, i as int, x);
                    lemma_subscription_at_index(self.subscriptions@, i as int);
                }
                let ghost xv = x@;
                self.subscriptions[i] = x;
                proof {
                    assert forall|a: int| 0 <= a < self.subscriptions@.len() implies {
                        &&& (#[trigger] self.subscriptions@[a])@.wf()
                        &&& config_has(self.configs@, self.subscriptions@[a]@.subscription_config)
                    } by {
                        if a != i {
                            assert(self.subscriptions@[a] == old(self).subscriptions@[a]);
                        } else {
                            assert(self.subscriptions@[a]@ == xv);
                            assert(config_has(
                                self.configs@,
                                old(self).subscriptions@[i as int]@.subscription_config,
                            ));
                            assert(old(self).subscriptions@[i as int]@.subscription_config
                                == k@.config);
                        }
                    }
                }
            },
            None => {
                proof {
                    assert(false);
                }
            },
        }
    }
}

} // verus!
