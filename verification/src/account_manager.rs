//! The account ledger: per-client balance state and its checked
//! mutations.
//!
//! The manager owns a map from client id to [`Account`] and exposes the
//! five balance operations (deposit, withdraw, hold, release,
//! chargeback). Each operation either performs its whole effect or
//! rejects the request and leaves the map unchanged, and each preserves
//! the ledger invariant `total == available + held` on every account.

use vstd::prelude::*;
use vstd::hash_map::HashMapWithView;

use crate::account::Account;
use crate::error::PaymentError;
use crate::transaction::ClientId;

verus! {

broadcast use vstd::std_specs::hash::group_hash_axioms;

/// The account a map holds for `client`, or a fresh zero account where
/// the map has none. Balance operations work on this value, so an
/// account springs into existence on the first operation that touches
/// it.
pub open spec fn map_account(m: Map<ClientId, Account>, client: ClientId) -> Account {
    if m.contains_key(client) {
        m[client]
    } else {
        Account::spec_new(client)
    }
}

/// The accounts of `m` with client id below `n`, in ascending order of
/// client id.
pub open spec fn snapshot_upto(m: Map<ClientId, Account>, n: int) -> Seq<Account>
    decreases n,
{
    if n <= 0 {
        Seq::empty()
    } else if m.contains_key((n - 1) as u16) {
        snapshot_upto(m, n - 1).push(m[(n - 1) as u16])
    } else {
        snapshot_upto(m, n - 1)
    }
}

/// The full snapshot of an account map: every account it holds, in
/// ascending order of client id.
pub open spec fn snapshot_of(m: Map<ClientId, Account>) -> Seq<Account> {
    snapshot_upto(m, 0x10000)
}

/// A prefix snapshot holds exactly the accounts of the clients below
/// `n`, each under its own id, strictly ascending.
proof fn lemma_snapshot_upto_exact(m: Map<ClientId, Account>, n: int)
    requires
        0 <= n <= 0x10000,
        forall|c: ClientId| m.contains_key(c) ==> (#[trigger] m[c]).wf(c),
    ensures
        forall|i: int|
            0 <= i < snapshot_upto(m, n).len() ==> {
                let a = #[trigger] snapshot_upto(m, n)[i];
                a.client < n && m.contains_key(a.client) && a == m[a.client]
            },
        forall|i: int, j: int|
            0 <= i < j < snapshot_upto(m, n).len() ==> (#[trigger] snapshot_upto(m, n)[i]).client
                < (#[trigger] snapshot_upto(m, n)[j]).client,
        forall|c: ClientId| c < n && m.contains_key(c) ==> snapshot_upto(m, n).contains(m[c]),
    decreases n,
{
    if n > 0 {
        lemma_snapshot_upto_exact(m, n - 1);
        let prev = snapshot_upto(m, n - 1);
        let cur = snapshot_upto(m, n);
        if m.contains_key((n - 1) as u16) {
            assert(cur == prev.push(m[(n - 1) as u16]));
            assert(cur[cur.len() - 1] == m[(n - 1) as u16]);
        }
        assert forall|c: ClientId| c < n && m.contains_key(c) implies cur.contains(m[c]) by {
            if c < n - 1 {
                let i = choose|i: int| 0 <= i < prev.len() && prev[i] == m[c];
                assert(cur[i] == m[c]);
            } else {
                assert(cur[cur.len() - 1] == m[c]);
            }
        }
    }
}

/// The snapshot is exactly the account map: each entry is the account
/// stored under its own client id, the entries are strictly ascending
/// by client id, and every stored account appears.
pub proof fn lemma_snapshot_exact(m: Map<ClientId, Account>)
    requires
        forall|c: ClientId| m.contains_key(c) ==> (#[trigger] m[c]).wf(c),
    ensures
        forall|i: int|
            0 <= i < snapshot_of(m).len() ==> {
                let a = #[trigger] snapshot_of(m)[i];
                m.contains_key(a.client) && a == m[a.client]
            },
        forall|i: int, j: int|
            0 <= i < j < snapshot_of(m).len() ==> (#[trigger] snapshot_of(m)[i]).client < (
            #[trigger] snapshot_of(m)[j]).client,
        forall|c: ClientId| m.contains_key(c) ==> snapshot_of(m).contains(m[c]),
{
    lemma_snapshot_upto_exact(m, 0x10000);
}

/// Manages all client accounts and their states.
pub struct AccountManager {
    accounts: HashMapWithView<ClientId, Account>,
}

impl View for AccountManager {
    type V = Map<ClientId, Account>;

    closed spec fn view(&self) -> Map<ClientId, Account> {
        self.accounts@
    }
}

impl AccountManager {
    /// The ledger invariant: every account belongs to the client it is
    /// keyed under and satisfies `total == available + held`.
    pub open spec fn wf(self) -> bool {
        forall|c: ClientId| self@.contains_key(c) ==> (#[trigger] self@[c]).wf(c)
    }

    /// Create a new manager with no accounts.
    pub fn new() -> (m: Self)
        ensures
            m@ == Map::<ClientId, Account>::empty(),
            m.wf(),
    {
        AccountManager { accounts: HashMapWithView::new() }
    }

    /// Get the account for `client`, creating a zero account for it
    /// first if none exists.
    pub fn get_or_create_account(&mut self, client: ClientId) -> (account: Account)
        ensures
            account == map_account(old(self)@, client),
            final(self)@ == old(self)@.insert(client, account),
            old(self).wf() ==> final(self).wf(),
    {
        match self.accounts.get(&client) {
            Some(account) => {
                let account = *account;
                proof {
                    assert(self@.insert(client, account) =~= self@);
                }
                account
            },
            None => {
                let account = Account::new(client);
                self.accounts.insert(client, account);
                account
            },
        }
    }

    /// True when an account exists for `client` and is locked; unknown
    /// clients count as unlocked.
    pub fn is_locked(&self, client: ClientId) -> (locked: bool)
        ensures
            locked == (self@.contains_key(client) && self@[client].locked),
    {
        match self.accounts.get(&client) {
            Some(account) => account.locked,
            None => false,
        }
    }

    /// All accounts, in ascending order of client id; used to produce
    /// the final output snapshot.
    pub fn get_all_accounts(&self) -> (accounts: Vec<Account>)
        ensures
            accounts@ == snapshot_of(self@),
    {
        let mut accounts: Vec<Account> = Vec::new();
        let mut i: u32 = 0;
        while i < 0x10000
            invariant
                i <= 0x10000,
                accounts@ == snapshot_upto(self@, i as int),
            decreases 0x10000 - i,
        {
            let client = i as u16;
            match self.accounts.get(&client) {
                Some(account) => accounts.push(*account),
                None => (),
            }
            i = i + 1;
        }
        accounts
    }

    /// Deposit `amount` into the account of `client`: `available` and
    /// `total` both grow by `amount`. Fails with `ArithmeticOverflow`,
    /// leaving the account as created, when either checked addition
    /// would exceed the balance range.
    pub fn deposit(&mut self, client: ClientId, amount: u64) -> (result: Result<(), PaymentError>)
        ensures
            ({
                let a = map_account(old(self)@, client);
                if a.available + amount > u64::MAX || a.total + amount > u64::MAX {
                    &&& result matches Err(e) && e matches PaymentError::ArithmeticOverflow {
                        operation, client: c } && operation@ == "deposit"@ && c == client
                    &&& final(self)@ == old(self)@.insert(client, a)
                } else {
                    &&& result is Ok
                    &&& final(self)@ == old(self)@.insert(client, Account {
                        available: (a.available + amount) as u64,
                        total: (a.total + amount) as u64,
                        ..a
                    })
                }
            }),
            old(self).wf() ==> final(self).wf(),
    {
        let account = self.get_or_create_account(client);

        let new_available = match account.available.checked_add(amount) {
            Some(v) => v,
            None => {
                return Err(PaymentError::arithmetic_overflow("deposit", client));
            },
        };
        let new_total = match account.total.checked_add(amount) {
            Some(v) => v,
            None => {
                return Err(PaymentError::arithmetic_overflow("deposit", client));
            },
        };

        let updated = Account { available: new_available, total: new_total, ..account };
        self.accounts.insert(client, updated);
        proof {
            assert(self@ =~= old(self)@.insert(client, updated));
        }
        Ok(())
    }

    /// Withdraw `amount` from the account of `client`: `available` and
    /// `total` both shrink by `amount`. Fails with `InsufficientFunds`,
    /// leaving the account as created, when `available < amount`.
    pub fn withdraw(&mut self, client: ClientId, amount: u64) -> (result: Result<(), PaymentError>)
        requires
            old(self).wf(),
        ensures
            final(self).wf(),
            ({
                let a = map_account(old(self)@, client);
                if a.available < amount {
                    &&& result matches Err(e) && e == (PaymentError::InsufficientFunds {
                        client, available: a.available, requested: amount })
                    &&& final(self)@ == old(self)@.insert(client, a)
                } else {
                    &&& result is Ok
                    &&& final(self)@ == old(self)@.insert(client, Account {
                        available: (a.available - amount) as u64,
                        total: (a.total - amount) as u64,
                        ..a
                    })
                }
            }),
    {
        let account = self.get_or_create_account(client);

        if account.available < amount {
            return Err(PaymentError::insufficient_funds(client, account.available, amount));
        }

        let updated = Account {
            available: account.available - amount,
            total: account.total - amount,
            ..account
        };
        self.accounts.insert(client, updated);
        proof {
            assert(self@ =~= old(self)@.insert(client, updated));
        }
        Ok(())
    }

    /// Move `amount` from `available` to `held` (a dispute starting);
    /// `total` is unchanged. Fails with `InsufficientAvailableFunds`,
    /// leaving the account as created, when `available < amount`.
    pub fn hold_funds(&mut self, client: ClientId, amount: u64) -> (result: Result<(), PaymentError>)
        requires
            old(self).wf(),
        ensures
            final(self).wf(),
            ({
                let a = map_account(old(self)@, client);
                if a.available < amount {
                    &&& result matches Err(e) && e matches PaymentError::InsufficientAvailableFunds {
                        client: c, available, requested, operation }
                        && c == client && available == a.available && requested == amount
                        && operation@ == "hold_funds"@
                    &&& final(self)@ == old(self)@.insert(client, a)
                } else {
                    &&& result is Ok
                    &&& final(self)@ == old(self)@.insert(client, Account {
                        available: (a.available - amount) as u64,
                        held: (a.held + amount) as u64,
                        ..a
                    })
                }
            }),
    {
        let account = self.get_or_create_account(client);

        if account.available < amount {
            return Err(PaymentError::insufficient_available_funds(
                client,
                account.available,
                amount,
                "hold_funds",
            ));
        }

        // total == available + held, so held + amount <= total and the
        // addition cannot overflow
        let updated = Account {
            available: account.available - amount,
            held: account.held + amount,
            ..account
        };
        self.accounts.insert(client, updated);
        proof {
            assert(self@ =~= old(self)@.insert(client, updated));
        }
        Ok(())
    }

    /// Move `amount` from `held` back to `available` (a dispute
    /// resolved); `total` is unchanged. Fails with
    /// `InsufficientHeldFunds`, leaving the account as created, when
    /// `held < amount`.
    pub fn release_funds(&mut self, client: ClientId, amount: u64) -> (result: Result<(), PaymentError>)
        requires
            old(self).wf(),
        ensures
            final(self).wf(),
            ({
                let a = map_account(old(self)@, client);
                if a.held < amount {
                    &&& result matches Err(e) && e matches PaymentError::InsufficientHeldFunds {
                        client: c, held, requested, operation }
                        && c == client && held == a.held && requested == amount
                        && operation@ == "release_funds"@
                    &&& final(self)@ == old(self)@.insert(client, a)
                } else {
                    &&& result is Ok
                    &&& final(self)@ == old(self)@.insert(client, Account {
                        available: (a.available + amount) as u64,
                        held: (a.held - amount) as u64,
                        ..a
                    })
                }
            }),
    {
        let account = self.get_or_create_account(client);

        if account.held < amount {
            return Err(PaymentError::insufficient_held_funds(
                client,
                account.held,
                amount,
                "release_funds",
            ));
        }

        // total == available + held, so available + amount <= total and
        // the addition cannot overflow
        let updated = Account {
            available: account.available + amount,
            held: account.held - amount,
            ..account
        };
        self.accounts.insert(client, updated);
        proof {
            assert(self@ =~= old(self)@.insert(client, updated));
        }
        Ok(())
    }

    /// Remove `amount` from `held` and `total` and lock the account (a
    /// dispute charged back); the lock is irreversible. Fails with
    /// `InsufficientHeldFunds`, leaving the account as created, when
    /// `held < amount`.
    pub fn chargeback(&mut self, client: ClientId, amount: u64) -> (result: Result<(), PaymentError>)
        requires
            old(self).wf(),
        ensures
            final(self).wf(),
            ({
                let a = map_account(old(self)@, client);
                if a.held < amount {
                    &&& result matches Err(e) && e matches PaymentError::InsufficientHeldFunds {
                        client: c, held, requested, operation }
                        && c == client && held == a.held && requested == amount
                        && operation@ == "chargeback"@
                    &&& final(self)@ == old(self)@.insert(client, a)
                } else {
                    &&& result is Ok
                    &&& final(self)@ == old(self)@.insert(client, Account {
                        held: (a.held - amount) as u64,
                        total: (a.total - amount) as u64,
                        locked: true,
                        ..a
                    })
                }
            }),
    {
        let account = self.get_or_create_account(client);

        if account.held < amount {
            return Err(PaymentError::insufficient_held_funds(
                client,
                account.held,
                amount,
                "chargeback",
            ));
        }

        // total == available + held >= held >= amount, so the
        // subtraction from total cannot underflow
        let updated = Account {
            held: account.held - amount,
            total: account.total - amount,
            locked: true,
            ..account
        };
        self.accounts.insert(client, updated);
        proof {
            assert(self@ =~= old(self)@.insert(client, updated));
        }
        Ok(())
    }
}

impl Default for AccountManager {
    /// Same as [`AccountManager::new`].
    fn default() -> (m: Self)
        ensures
            m@ == Map::<ClientId, Account>::empty(),
            m.wf(),
    {
        AccountManager::new()
    }
}

} // verus!
