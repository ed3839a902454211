//! Per-client account state.

use vstd::prelude::*;

verus! {

/// Client account state: available funds, funds held pending disputes,
/// their sum, and whether the account has been locked by a chargeback.
///
/// All balances are fixed-point decimals stored as counts of
/// ten-thousandths (four fractional digits).
#[derive(Debug, Clone, Copy, PartialEq, Eq, Structural)]
pub struct Account {
    /// The client that owns this account.
    pub client: u16,
    /// Funds available for withdrawal or trading.
    pub available: u64,
    /// Funds frozen pending dispute resolution.
    pub held: u64,
    /// Total funds: always `available + held`.
    pub total: u64,
    /// Permanent freeze, set by a chargeback; never cleared.
    pub locked: bool,
}

impl Account {
    /// True when the balances are coherent: `total` is exactly
    /// `available + held` and the account is owned by `client`.
    pub open spec fn wf(self, client: u16) -> bool {
        &&& self.client == client
        &&& self.total == self.available + self.held
    }

    /// The state of a freshly created account: zero balances, unlocked.
    pub open spec fn spec_new(client: u16) -> Account {
        Account { client, available: 0, held: 0, total: 0, locked: false }
    }

    /// Create a new account with zero balances and unlocked status.
    pub fn new(client: u16) -> (account: Account)
        ensures
            account == Account::spec_new(client),
            account.wf(client),
    {
        Account { client, available: 0, held: 0, total: 0, locked: false }
    }
}

} // verus!
