use vstd::prelude::*;

use std::collections::HashMap;

use crate::errors::ErrorCode;
use crate::keys::AccountId;

verus! {

broadcast use vstd::std_specs::hash::group_hash_axioms;

/// The balance an account holds; an account with no entry holds nothing.
pub open spec fn spec_balance_of(b: Map<AccountId, u64>, account: AccountId) -> u64 {
    if b.contains_key(account) {
        b[account]
    } else {
        0
    }
}

/// What a transfer does: it debits `amount` from `from` and credits it to
/// `to` atomically, or it fails and leaves every balance untouched. It fails
/// with `InsufficientFunds` when `from` does not hold `amount`, and with
/// `MathOverflow` when crediting `to` would exceed the representable range.
pub open spec fn spec_transfer(
    b: Map<AccountId, u64>,
    from: AccountId,
    to: AccountId,
    amount: u64,
) -> Result<Map<AccountId, u64>, ErrorCode> {
    if spec_balance_of(b, from) < amount {
        Err(ErrorCode::InsufficientFunds)
    } else if from == to {
        Ok(b)
    } else if spec_balance_of(b, to) + amount > u64::MAX {
        Err(ErrorCode::MathOverflow)
    } else {
        Ok(
            b.insert(from, (spec_balance_of(b, from) - amount) as u64).insert(
                to,
                (spec_balance_of(b, to) + amount) as u64,
            ),
        )
    }
}

/// The payment ledger: what each account holds of the payment asset. Moving
/// value between accounts is the one operation the entitlement ledger asks
/// of it, and that operation either completes atomically or changes nothing.
pub struct Balances {
    accounts: HashMap<AccountId, u64>,
}

impl View for Balances {
    type V = Map<AccountId, u64>;

    closed spec fn view(&self) -> Map<AccountId, u64> {
        self.accounts@
    }
}

impl Balances {
    /// A ledger in which every account holds nothing.
    pub fn new() -> (r: Balances)
        ensures
            r@ == Map::<AccountId, u64>::empty(),
    {
        Balances { accounts: HashMap::new() }
    }

    /// How much the given account holds.
    pub fn balance_of(&self, account: AccountId) -> (r: u64)
        ensures
            r == spec_balance_of(self@, account),
    {
        match self.accounts.get(&account) {
            Some(v) => *v,
            None => 0,
        }
    }

    /// Credits an account with freshly issued units, so that a payer can be
    /// funded at all; fails with `MathOverflow` if the account cannot hold
    /// the sum, leaving it untouched.
    pub fn deposit(&mut self, account: AccountId, amount: u64) -> (r: Result<(), ErrorCode>)
        ensures
            match r {
                Ok(()) => spec_balance_of(old(self)@, account) + amount <= u64::MAX
                    && final(self)@ == old(self)@.insert(
                    account,
                    (spec_balance_of(old(self)@, account) + amount) as u64,
                ),
                Err(e) => e == ErrorCode::MathOverflow && spec_balance_of(old(self)@, account)
                    + amount > u64::MAX && final(self)@ == old(self)@,
            },
    {
        let held = self.balance_of(account);
        if amount > u64::MAX - held {
            return Err(ErrorCode::MathOverflow);
        }
        self.accounts.insert(account, held + amount);
        Ok(())
    }

    /// Moves `amount` from `from` to `to`: both balances change together or
    /// neither does, exactly as [`spec_transfer`] says.
    pub fn transfer(&mut self, from: AccountId, to: AccountId, amount: u64) -> (r: Result<
        (),
        ErrorCode,
    >)
        ensures
            match r {
                Ok(()) => spec_transfer(old(self)@, from, to, amount) == Ok::<
                    Map<AccountId, u64>,
                    ErrorCode,
                >(final(self)@),
                Err(e) => spec_transfer(old(self)@, from, to, amount) == Err::<
                    Map<AccountId, u64>,
                    ErrorCode,
                >(e) && final(self)@ == old(self)@,
            },
    {
        let held_from = self.balance_of(from);
        if held_from < amount {
            return Err(ErrorCode::InsufficientFunds);
        }
        if from == to {
            return Ok(());
        }
        let held_to = self.balance_of(to);
        if held_to > u64::MAX - amount {
            return Err(ErrorCode::MathOverflow);
        }
        self.accounts.insert(from, held_from - amount);
        self.accounts.insert(to, held_to + amount);
        Ok(())
    }
}

} // verus!
