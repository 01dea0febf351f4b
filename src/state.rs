//! Account balances and nonces, and the rule that applies a transfer to them.
use vstd::prelude::*;

use crate::crypto::{bytes32_eq, Address};
use crate::transaction::Transaction;
use crate::BlockchainError;

verus! {

/// The value stored for `key`; the entry nearest the end wins, and a missing key reads 0.
pub open spec fn lookup(s: Seq<([u8; 32], u64)>, key: Seq<u8>) -> u64
    decreases s.len(),
{
    if s.len() == 0 {
        0
    } else if s.last().0@ == key {
        s.last().1
    } else {
        lookup(s.drop_last(), key)
    }
}

/// No key appears twice.
pub open spec fn keys_unique(s: Seq<([u8; 32], u64)>) -> bool {
    forall|i: int, j: int| 0 <= i < j < s.len() ==> s[i].0@ != s[j].0@
}

/// The sum of the stored values.
pub open spec fn total(s: Seq<([u8; 32], u64)>) -> int
    decreases s.len(),
{
    if s.len() == 0 {
        0
    } else {
        total(s.drop_last()) + s.last().1
    }
}

proof fn lemma_lookup_found(s: Seq<([u8; 32], u64)>, i: int)
    requires
        keys_unique(s),
        0 <= i < s.len(),
    ensures
        lookup(s, s[i].0@) == s[i].1,
    decreases s.len(),
{
    if i < s.len() - 1 {
        assert(s.drop_last()[i] == s[i]);
        lemma_lookup_found(s.drop_last(), i);
    }
}

proof fn lemma_lookup_absent(s: Seq<([u8; 32], u64)>, key: Seq<u8>)
    requires
        forall|i: int| 0 <= i < s.len() ==> s[i].0@ != key,
    ensures
        lookup(s, key) == 0,
    decreases s.len(),
{
    if s.len() > 0 {
        lemma_lookup_absent(s.drop_last(), key);
    }
}

proof fn lemma_lookup_update(s: Seq<([u8; 32], u64)>, i: int, v: u64, key: Seq<u8>)
    requires
        keys_unique(s),
        0 <= i < s.len(),
    ensures
        lookup(s.update(i, (s[i].0, v)), key) == if key == s[i].0@ { v } else { lookup(s, key) },
        total(s.update(i, (s[i].0, v))) == total(s) - s[i].1 + v,
    decreases s.len(),
{
    let t = s.update(i, (s[i].0, v));
    if i < s.len() - 1 {
        assert(t.drop_last() =~= s.drop_last().update(i, (s[i].0, v)));
        assert(s.drop_last()[i] == s[i]);
        lemma_lookup_update(s.drop_last(), i, v, key);
    } else {
        assert(t.drop_last() =~= s.drop_last());
    }
}

proof fn lemma_push(s: Seq<([u8; 32], u64)>, e: ([u8; 32], u64), key: Seq<u8>)
    ensures
        lookup(s.push(e), key) == if key == e.0@ { e.1 } else { lookup(s, key) },
        total(s.push(e)) == total(s) + e.1,
{
    assert(s.push(e).drop_last() =~= s);
}

/// Index of the entry for `key`, if there is one.
fn find(entries: &Vec<([u8; 32], u64)>, key: &Address) -> (r: Option<usize>)
    ensures
        r matches Some(i) ==> i < entries@.len() && entries@[i as int].0@ == key@,
        r is None ==> forall|j: int| 0 <= j < entries@.len() ==> entries@[j].0@ != key@,
{
    let mut i: usize = 0;
    while i < entries.len()
        invariant
            i <= entries@.len(),
            forall|j: int| 0 <= j < i ==> entries@[j].0@ != key@,
        decreases entries@.len() - i,
    {
        if bytes32_eq(&entries[i].0, key) {
            return Some(i);
        }
        i = i + 1;
    }
    None
}

fn read(entries: &Vec<([u8; 32], u64)>, key: &Address) -> (r: u64)
    requires
        keys_unique(entries@),
    ensures
        r == lookup(entries@, key@),
{
    match find(entries, key) {
        Some(i) => {
            proof {
                lemma_lookup_found(entries@, i as int);
            }
            entries[i].1
        },
        None => {
            proof {
                lemma_lookup_absent(entries@, key@);
            }
            0
        },
    }
}

fn write(entries: &mut Vec<([u8; 32], u64)>, key: &Address, value: u64)
    requires
        keys_unique(old(entries)@),
    ensures
        keys_unique(final(entries)@),
        forall|k: Seq<u8>|
            lookup(final(entries)@, k) == if k == key@ { value } else { lookup(old(entries)@, k) },
        total(final(entries)@) == total(old(entries)@) - lookup(old(entries)@, key@) + value,
{
    match find(entries, key) {
        Some(i) => {
            proof {
                lemma_lookup_found(entries@, i as int);
            }
            let ghost before = entries@;
            let k = entries[i].0;
            entries.set(i, (k, value));
            proof {
                assert(entries@ == before.update(i as int, (before[i as int].0, value)));
                assert forall|k: Seq<u8>|
                    lookup(entries@, k) == if k == key@ { value } else { lookup(before, k) } by {
                    lemma_lookup_update(before, i as int, value, k);
                }
                lemma_lookup_update(before, i as int, value, key@);
            }
        },
        None => {
            proof {
                lemma_lookup_absent(entries@, key@);
            }
            let ghost before = entries@;
            entries.push((*key, value));
            proof {
                assert(entries@ == before.push((*key, value)));
                assert forall|k: Seq<u8>|
                    lookup(entries@, k) == if k == key@ { value } else { lookup(before, k) } by {
                    lemma_push(before, (*key, value), k);
                }
                lemma_push(before, (*key, value), key@);
            }
        },
    }
}


/// Balances and nonces as total maps from address to value.
pub struct Accounts {
    pub balances: Map<Seq<u8>, u64>,
    pub nonces: Map<Seq<u8>, u64>,
}

/// No balances and no nonces.
pub open spec fn empty_accounts() -> Accounts {
    Accounts { balances: Map::new(|a: Seq<u8>| true, |a: Seq<u8>| 0u64), nonces: Map::new(|a: Seq<u8>| true, |a: Seq<u8>| 0u64) }
}

/// One transfer applied to the accounts: the nonce must be the next one, the sender
/// must hold the amount, and the receiver must have room.
pub open spec fn model_apply(m: Accounts, tx: Transaction) -> Result<Accounts, BlockchainError> {
    let s = tx.sender@;
    let r = tx.receiver@;
    if !(m.nonces[s] < u64::MAX && tx.nonce == m.nonces[s] + 1) {
        Err(BlockchainError::InvalidNonce)
    } else if m.balances[s] < tx.amount {
        Err(BlockchainError::InsufficientBalance)
    } else if s != r && m.balances[r] + tx.amount > u64::MAX {
        Err(BlockchainError::BalanceOverflow)
    } else {
        Ok(Accounts {
            balances: if s == r {
                m.balances
            } else {
                m.balances.insert(s, (m.balances[s] - tx.amount) as u64).insert(r, (m.balances[r] + tx.amount) as u64)
            },
            nonces: m.nonces.insert(s, tx.nonce),
        })
    }
}

/// The transfers applied in order; the first that does not apply gives the error.
pub open spec fn model_replay(m: Accounts, txs: Seq<Transaction>) -> Result<Accounts, BlockchainError>
    decreases txs.len(),
{
    if txs.len() == 0 {
        Ok(m)
    } else {
        match model_replay(m, txs.drop_last()) {
            Ok(m2) => model_apply(m2, txs.last()),
            Err(e) => Err(e),
        }
    }
}

/// Replaying `a` then `b` is replaying `a + b`.
pub proof fn lemma_replay_append(m: Accounts, a: Seq<Transaction>, b: Seq<Transaction>)
    ensures
        model_replay(m, a + b) == match model_replay(m, a) {
            Ok(x) => model_replay(x, b),
            Err(e) => Err(e),
        },
    decreases b.len(),
{
    if b.len() == 0 {
        assert(a + b =~= a);
    } else {
        assert((a + b).drop_last() =~= a + b.drop_last());
        lemma_replay_append(m, a, b.drop_last());
    }
}

/// Balances and nonces by address. A missing address has balance 0 and nonce 0; the
/// next nonce that an address may use is its stored nonce plus one.
///
/// The tables are vectors of (address, value) pairs with unique addresses rather than
/// `HashMap`s: vstd specifies `HashMap` only for key types that it knows to obey its key
/// model (integers and a few others), and a `[u8; 32]` address is not among them, so
/// nothing could be proved about lookups in such a map.
#[derive(Debug)]
pub struct State {
    balances: Vec<([u8; 32], u64)>,
    nonces: Vec<([u8; 32], u64)>,
}

impl State {
    pub closed spec fn wf(&self) -> bool {
        keys_unique(self.balances@) && keys_unique(self.nonces@)
    }

    /// The balance of an address.
    pub closed spec fn balance(&self, a: Seq<u8>) -> u64 {
        lookup(self.balances@, a)
    }

    /// The last nonce that an address used (0 if none).
    pub closed spec fn nonce(&self, a: Seq<u8>) -> u64 {
        lookup(self.nonces@, a)
    }

    /// The sum of all balances.
    pub closed spec fn total_balance(&self) -> int {
        total(self.balances@)
    }

    /// The balances and nonces as total maps.
    pub open spec fn model(&self) -> Accounts {
        Accounts {
            balances: Map::new(|a: Seq<u8>| true, |a: Seq<u8>| self.balance(a)),
            nonces: Map::new(|a: Seq<u8>| true, |a: Seq<u8>| self.nonce(a)),
        }
    }

    /// What an accepted transfer does: it moves `amount` from sender to receiver and
    /// records the nonce.
    pub open spec fn applied(&self, next: &State, tx: Transaction) -> bool {
        &&& forall|a: Seq<u8>|
            next.balance(a) == if tx.sender@ == tx.receiver@ {
                self.balance(a)
            } else if a == tx.sender@ {
                (self.balance(a) - tx.amount) as u64
            } else if a == tx.receiver@ {
                (self.balance(a) + tx.amount) as u64
            } else {
                self.balance(a)
            }
        &&& forall|a: Seq<u8>| next.nonce(a) == if a == tx.sender@ { tx.nonce } else { self.nonce(a) }
    }

    /// Same balances and nonces.
    pub open spec fn same(&self, other: &State) -> bool {
        &&& forall|a: Seq<u8>| self.balance(a) == other.balance(a)
        &&& forall|a: Seq<u8>| self.nonce(a) == other.nonce(a)
        &&& self.total_balance() == other.total_balance()
    }

    /// Whether `tx` carries the next nonce of its sender.
    pub open spec fn nonce_ok(&self, tx: Transaction) -> bool {
        self.nonce(tx.sender@) < u64::MAX && tx.nonce == self.nonce(tx.sender@) + 1
    }

    /// The outcome of applying `tx`: nonce first, then balance, then room at the receiver.
    pub open spec fn apply_result(&self, tx: Transaction) -> Result<(), BlockchainError> {
        if !self.nonce_ok(tx) {
            Err(BlockchainError::InvalidNonce)
        } else if self.balance(tx.sender@) < tx.amount {
            Err(BlockchainError::InsufficientBalance)
        } else if tx.sender@ != tx.receiver@ && self.balance(tx.receiver@) + tx.amount > u64::MAX {
            Err(BlockchainError::BalanceOverflow)
        } else {
            Ok(())
        }
    }

    /// An empty state.
    pub fn new() -> (r: State)
        ensures
            r.wf(),
            forall|a: Seq<u8>| r.balance(a) == 0 && r.nonce(a) == 0,
            r.total_balance() == 0,
            r.model() == empty_accounts(),
    {
        let r = State { balances: Vec::new(), nonces: Vec::new() };
        proof {
            assert(r.model().balances =~= empty_accounts().balances);
            assert(r.model().nonces =~= empty_accounts().nonces);
        }
        r
    }

    /// The balance of an address (0 if unknown).
    pub fn get_balance(&self, address: &Address) -> (r: u64)
        requires
            self.wf(),
        ensures
            r == self.balance(address@),
    {
        read(&self.balances, address)
    }

    /// The last nonce used by an address (0 if unknown).
    pub fn get_nonce(&self, address: &Address) -> (r: u64)
        requires
            self.wf(),
        ensures
            r == self.nonce(address@),
    {
        read(&self.nonces, address)
    }

    /// Applies a transfer: checks the nonce and the sender's balance, then moves the
    /// amount and records the nonce. On error nothing changes.
    pub fn apply_transaction(&mut self, tx: &Transaction) -> (r: Result<(), BlockchainError>)
        requires
            old(self).wf(),
        ensures
            final(self).wf(),
            r == old(self).apply_result(*tx),
            r is Ok ==> old(self).applied(&*final(self), *tx),
            r is Err ==> final(self).same(&*old(self)),
            r is Ok ==> final(self).total_balance() == old(self).total_balance(),
            r is Ok <==> model_apply(old(self).model(), *tx) is Ok,
            r matches Err(e) ==> model_apply(old(self).model(), *tx) == Err::<Accounts, BlockchainError>(e),
            r is Ok ==> final(self).model() == model_apply(old(self).model(), *tx)->Ok_0,
    {
        let ghost before = *self;
        let last_nonce = self.get_nonce(&tx.sender);
        if last_nonce == u64::MAX || tx.nonce != last_nonce + 1 {
            return Err(BlockchainError::InvalidNonce);
        }
        let sender_balance = self.get_balance(&tx.sender);
        if sender_balance < tx.amount {
            return Err(BlockchainError::InsufficientBalance);
        }
        if !bytes32_eq(&tx.sender, &tx.receiver) {
            let receiver_balance = self.get_balance(&tx.receiver);
            if receiver_balance > u64::MAX - tx.amount {
                return Err(BlockchainError::BalanceOverflow);
            }
            write(&mut self.balances, &tx.sender, sender_balance - tx.amount);
            write(&mut self.balances, &tx.receiver, receiver_balance + tx.amount);
        }
        write(&mut self.nonces, &tx.sender, tx.nonce);
        proof {
            let m = model_apply(before.model(), *tx)->Ok_0;
            assert(self.model().balances =~= m.balances);
            assert(self.model().nonces =~= m.nonces);
        }
        Ok(())
    }

    /// Sets the last nonce used by an address.
    pub fn set_nonce(&mut self, sender_address: &Address, nonce: u64)
        requires
            old(self).wf(),
        ensures
            final(self).wf(),
            forall|a: Seq<u8>| final(self).nonce(a) == if a == sender_address@ { nonce } else { old(self).nonce(a) },
            forall|a: Seq<u8>| final(self).balance(a) == old(self).balance(a),
            final(self).total_balance() == old(self).total_balance(),
    {
        write(&mut self.nonces, sender_address, nonce);
    }

    /// Sets the balance of an address.
    pub fn set_balance(&mut self, sender_address: &Address, balance: u64)
        requires
            old(self).wf(),
        ensures
            final(self).wf(),
            forall|a: Seq<u8>| final(self).balance(a) == if a == sender_address@ { balance } else { old(self).balance(a) },
            forall|a: Seq<u8>| final(self).nonce(a) == old(self).nonce(a),
            final(self).total_balance() == old(self).total_balance() - old(self).balance(sender_address@) + balance,
    {
        write(&mut self.balances, sender_address, balance);
    }
}

} // verus!
