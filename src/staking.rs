//! Proof-of-stake accounts: staking, rewards and slashing, stake-weighted choice of
//! the block proposer, and block production.
use vstd::prelude::*;

use crate::block::{pow_ok, Block};
use crate::blockchain::copy_block;
use crate::crypto::{bytes32_eq, generate_keypair, key_decodes, public_key_of, public_key_to_address, sha256, Address};
use crate::transaction::Transaction;
use crate::BlockchainError;
use rand::distributions::Distribution;

verus! {

/// A registered account with its spendable balance and its stake.
#[derive(Clone, Copy, Debug)]
pub struct User {
    pub address: Address,
    pub public_key: [u8; 32],
    pub balance: u64,
    pub stake: u64,
}

/// Why a staking operation was refused.
#[derive(Debug, Clone, PartialEq, Eq)]
pub enum StakingError {
    UserNotFound,
    UserExists,
    InsufficientBalance,
    InsufficientStake,
    /// No account has a stake.
    NoStake,
    /// A sum would pass `u64::MAX`.
    Overflow,
    /// A block did not verify.
    InvalidBlock(BlockchainError),
    /// A submitted transaction did not verify.
    InvalidTransaction(BlockchainError),
    /// Sender and receiver are the same account.
    SameParty,
    /// A transfer of a block could not be applied to the accounts.
    TransferRejected,
}

impl User {
    /// A fresh account with a new key pair; returns the account and its secret key.
    pub fn generate(initial_balance: u64) -> (r: (User, [u8; 32]))
        ensures
            r.0.public_key@ == public_key_of(r.1@),
            key_decodes(r.0.public_key@),
            r.0.address@ == sha256(r.0.public_key@),
            r.0.balance == initial_balance,
            r.0.stake == 0,
    {
        let keypair = generate_keypair();
        let address = public_key_to_address(&keypair.verifying_key);
        (User { address, public_key: keypair.verifying_key, balance: initial_balance, stake: 0 }, keypair.signing_key)
    }
}

/// Index of the last user with address `a`, or -1.
pub open spec fn position(users: Seq<User>, a: Seq<u8>) -> int
    decreases users.len(),
{
    if users.len() == 0 {
        -1
    } else if users.last().address@ == a {
        users.len() - 1
    } else {
        position(users.drop_last(), a)
    }
}

/// No address appears twice.
pub open spec fn addresses_unique(users: Seq<User>) -> bool {
    forall|i: int, j: int| 0 <= i < j < users.len() ==> users[i].address@ != users[j].address@
}

/// The sum of the balances.
pub open spec fn total_balance(users: Seq<User>) -> int
    decreases users.len(),
{
    if users.len() == 0 {
        0
    } else {
        total_balance(users.drop_last()) + users.last().balance
    }
}

/// The sum of the stakes.
pub open spec fn total_stake(users: Seq<User>) -> int
    decreases users.len(),
{
    if users.len() == 0 {
        0
    } else {
        total_stake(users.drop_last()) + users.last().stake
    }
}

/// `users` with the balance of entry `i` set to `b`.
pub open spec fn with_balance(users: Seq<User>, i: int, b: u64) -> Seq<User> {
    users.update(i, User { balance: b, ..users[i] })
}

/// What one transfer does to the accounts, or `None` if it cannot apply: both parties
/// must be registered, the sender must hold the amount, and the receiver must have room.
pub open spec fn transfer(users: Seq<User>, tx: Transaction) -> Option<Seq<User>> {
    let s = position(users, tx.sender@);
    let r = position(users, tx.receiver@);
    if s < 0 || r < 0 || users[s].balance < tx.amount {
        None
    } else if s == r {
        Some(users)
    } else if users[r].balance + tx.amount > u64::MAX {
        None
    } else {
        Some(
            with_balance(
                with_balance(users, s, (users[s].balance - tx.amount) as u64),
                r,
                (users[r].balance + tx.amount) as u64,
            ),
        )
    }
}

/// The transfers applied in order, or `None` if one of them cannot apply.
pub open spec fn apply_all(users: Seq<User>, txs: Seq<Transaction>) -> Option<Seq<User>>
    decreases txs.len(),
{
    if txs.len() == 0 {
        Some(users)
    } else {
        match apply_all(users, txs.drop_last()) {
            Some(u) => transfer(u, txs.last()),
            None => None,
        }
    }
}

proof fn lemma_position(users: Seq<User>, a: Seq<u8>)
    ensures
        -1 <= position(users, a) < users.len(),
        position(users, a) >= 0 ==> users[position(users, a)].address@ == a,
        position(users, a) < 0 ==> forall|i: int| 0 <= i < users.len() ==> users[i].address@ != a,
    decreases users.len(),
{
    if users.len() > 0 {
        let d = users.drop_last();
        lemma_position(d, a);
        assert forall|i: int| 0 <= i < d.len() implies d[i] == users[i] by {}
    }
}

proof fn lemma_position_at(users: Seq<User>, i: int)
    requires
        addresses_unique(users),
        0 <= i < users.len(),
    ensures
        position(users, users[i].address@) == i,
    decreases users.len(),
{
    if i < users.len() - 1 {
        assert(users.drop_last()[i] == users[i]);
        lemma_position_at(users.drop_last(), i);
    }
}

proof fn lemma_update_keeps(users: Seq<User>, i: int, u: User)
    requires
        addresses_unique(users),
        0 <= i < users.len(),
        u.address == users[i].address,
    ensures
        addresses_unique(users.update(i, u)),
        forall|a: Seq<u8>| position(users.update(i, u), a) == position(users, a),
        total_balance(users.update(i, u)) == total_balance(users) - users[i].balance + u.balance,
        total_stake(users.update(i, u)) == total_stake(users) - users[i].stake + u.stake,
    decreases users.len(),
{
    let t = users.update(i, u);
    assert forall|a: Seq<u8>| position(t, a) == position(users, a) by {
        lemma_position(users, a);
        lemma_position(t, a);
        if position(users, a) >= 0 {
            lemma_position_at(t, position(users, a));
        }
        if position(t, a) >= 0 {
            lemma_position_at(users, position(t, a));
        }
    }
    if i < users.len() - 1 {
        assert(t.drop_last() =~= users.drop_last().update(i, u));
        lemma_update_keeps(users.drop_last(), i, u);
    } else {
        assert(t.drop_last() =~= users.drop_last());
    }
}

proof fn lemma_transfer_conserves(users: Seq<User>, tx: Transaction)
    requires
        addresses_unique(users),
        transfer(users, tx) is Some,
    ensures
        addresses_unique(transfer(users, tx)->0),
        total_balance(transfer(users, tx)->0) == total_balance(users),
        total_stake(transfer(users, tx)->0) == total_stake(users),
        transfer(users, tx)->0.len() == users.len(),
{
    let s = position(users, tx.sender@);
    let r = position(users, tx.receiver@);
    lemma_position(users, tx.sender@);
    lemma_position(users, tx.receiver@);
    if s != r {
        let u1 = with_balance(users, s, (users[s].balance - tx.amount) as u64);
        lemma_update_keeps(users, s, User { balance: (users[s].balance - tx.amount) as u64, ..users[s] });
        lemma_update_keeps(u1, r, User { balance: (users[r].balance + tx.amount) as u64, ..u1[r] });
    }
}

/// Applying a block's transfers keeps the sum of balances and the sum of stakes (a
/// transfer to oneself moves nothing); only the proposer's reward then adds to it.
pub proof fn lemma_apply_all_conserves(users: Seq<User>, txs: Seq<Transaction>)
    requires
        addresses_unique(users),
        apply_all(users, txs) is Some,
    ensures
        addresses_unique(apply_all(users, txs)->0),
        total_balance(apply_all(users, txs)->0) == total_balance(users),
        total_stake(apply_all(users, txs)->0) == total_stake(users),
        apply_all(users, txs)->0.len() == users.len(),
    decreases txs.len(),
{
    if txs.len() > 0 {
        lemma_apply_all_conserves(users, txs.drop_last());
        lemma_transfer_conserves(apply_all(users, txs.drop_last())->0, txs.last());
    }
}

/// Relies on rand's WeightedIndex sampled with thread_rng: an index whose weight is
/// positive, drawn with probability proportional to the weights; there is one exactly
/// when some weight is positive.
#[verifier::external_body]
fn draw_weighted(weights: &Vec<u64>) -> (r: Option<usize>)
    requires
        weights@.len() > 0,
        total_weights(weights@) <= u64::MAX,
    ensures
        r is Some ==> r->0 < weights@.len() && weights@[r->0 as int] > 0,
        r is None ==> forall|i: int| 0 <= i < weights@.len() ==> weights@[i] == 0,
{
    rand::distributions::WeightedIndex::new(weights).ok().map(|d| d.sample(&mut rand::thread_rng()))
}

fn find_user(users: &Vec<User>, address: &Address) -> (r: Option<usize>)
    requires
        addresses_unique(users@),
    ensures
        r matches Some(i) ==> i as int == position(users@, address@) && i < users@.len(),
        r is None ==> position(users@, address@) == -1,
{
    proof {
        lemma_position(users@, address@);
    }
    let mut i: usize = 0;
    while i < users.len()
        invariant
            addresses_unique(users@),
            i <= users@.len(),
            forall|j: int| 0 <= j < i ==> users@[j].address@ != address@,
        decreases users@.len() - i,
    {
        if bytes32_eq(&users[i].address, address) {
            proof {
                lemma_position_at(users@, i as int);
            }
            return Some(i);
        }
        i = i + 1;
    }
    None
}

fn apply_transfer(users: &mut Vec<User>, tx: &Transaction) -> (ok: bool)
    requires
        addresses_unique(old(users)@),
    ensures
        addresses_unique(final(users)@),
        ok == transfer(old(users)@, *tx) is Some,
        ok ==> final(users)@ == transfer(old(users)@, *tx)->0,
        !ok ==> final(users)@ == old(users)@,
{
    let s = match find_user(users, &tx.sender) {
        Some(s) => s,
        None => return false,
    };
    let r = match find_user(users, &tx.receiver) {
        Some(r) => r,
        None => return false,
    };
    let sender = users[s];
    if sender.balance < tx.amount {
        return false;
    }
    if s == r {
        return true;
    }
    let receiver = users[r];
    if receiver.balance > u64::MAX - tx.amount {
        return false;
    }
    proof {
        lemma_update_keeps(users@, s as int, User { balance: (sender.balance - tx.amount) as u64, ..sender });
    }
    users.set(s, User { balance: sender.balance - tx.amount, ..sender });
    proof {
        lemma_update_keeps(users@, r as int, User { balance: (receiver.balance + tx.amount) as u64, ..receiver });
    }
    users.set(r, User { balance: receiver.balance + tx.amount, ..receiver });
    true
}

/// The block reward of entry `p`: its stake divided by the total stake, rounded down
/// (0 when nothing is staked).
pub open spec fn stake_reward(users: Seq<User>, p: int) -> int {
    if total_stake(users) == 0 {
        0
    } else {
        users[p].stake as int / total_stake(users)
    }
}

proof fn lemma_total_stake_nonneg(users: Seq<User>)
    ensures
        total_stake(users) >= 0,
    decreases users.len(),
{
    if users.len() > 0 {
        lemma_total_stake_nonneg(users.drop_last());
    }
}

proof fn lemma_stake_reward_range(users: Seq<User>, p: int)
    requires
        0 <= p < users.len(),
    ensures
        0 <= stake_reward(users, p) <= users[p].stake,
{
    lemma_total_stake_nonneg(users);
    if total_stake(users) != 0 {
        let s = users[p].stake as int;
        let t = total_stake(users);
        assert(0 <= s / t <= s) by (nonlinear_arith)
            requires
                s >= 0,
                t > 0,
        ;
    }
}

/// The sum of the weights.
pub open spec fn total_weights(w: Seq<u64>) -> int
    decreases w.len(),
{
    if w.len() == 0 {
        0
    } else {
        total_weights(w.drop_last()) + w.last()
    }
}

/// The registered accounts and the blocks they produced, with the transfers that wait
/// for the next block.
pub struct StakeLedger {
    pub users: Vec<User>,
    pub blocks: Vec<Block>,
    pub pending: Vec<Transaction>,
}

impl StakeLedger {
    pub open spec fn users_view(&self) -> Seq<User> {
        self.users@
    }

    pub open spec fn wf(&self) -> bool {
        addresses_unique(self.users_view())
    }

    /// An empty registry with no blocks.
    pub fn new() -> (r: Self)
        ensures
            r.wf(),
            r.users_view().len() == 0,
            r.blocks@.len() == 0,
            r.pending@.len() == 0,
    {
        StakeLedger { users: Vec::new(), blocks: Vec::new(), pending: Vec::new() }
    }

    fn find(&self, address: &Address) -> (r: Option<usize>)
        requires
            self.wf(),
        ensures
            r matches Some(i) ==> i as int == position(self.users_view(), address@) && i < self.users_view().len(),
            r is None ==> position(self.users_view(), address@) == -1,
    {
        find_user(&self.users, address)
    }

    /// Registers an account; an address can be registered once.
    pub fn add_user(&mut self, user: User) -> (r: Result<(), StakingError>)
        requires
            old(self).wf(),
        ensures
            final(self).wf(),
            r is Err <==> position(old(self).users_view(), user.address@) >= 0,
            r is Err ==> r == Err::<(), StakingError>(StakingError::UserExists),
            r is Ok ==> final(self).users_view() == old(self).users_view().push(user),
            r is Err ==> final(self).users_view() == old(self).users_view(),
            final(self).blocks@ == old(self).blocks@,
            final(self).pending@ == old(self).pending@,
    {
        match self.find(&user.address) {
            Some(_) => Err(StakingError::UserExists),
            None => {
                proof {
                    lemma_position(self.users@, user.address@);
                }
                self.users.push(user);
                Ok(())
            },
        }
    }

    /// The account with this address, if registered.
    pub fn get_user(&self, address: &Address) -> (r: Option<User>)
        requires
            self.wf(),
        ensures
            r is None <==> position(self.users_view(), address@) < 0,
            r matches Some(u) ==> u == self.users_view()[position(self.users_view(), address@)],
    {
        match self.find(address) {
            Some(i) => Some(self.users[i]),
            None => None,
        }
    }

    /// All accounts, in registration order.
    pub fn get_users(&self) -> (r: Vec<User>)
        ensures
            r@ == self.users_view(),
    {
        let mut r: Vec<User> = Vec::new();
        let mut i: usize = 0;
        while i < self.users.len()
            invariant
                i <= self.users@.len(),
                r@ == self.users@.take(i as int),
            decreases self.users@.len() - i,
        {
            r.push(self.users[i]);
            i = i + 1;
            proof {
                assert(r@ =~= self.users@.take(i as int));
            }
        }
        assert(self.users@.take(i as int) =~= self.users@);
        r
    }

    /// The sum of all stakes, or `None` if it passes `u64::MAX`.
    pub fn get_total_stake(&self) -> (r: Option<u64>)
        ensures
            r matches Some(t) ==> t == total_stake(self.users_view()),
            r is None <==> total_stake(self.users_view()) > u64::MAX,
    {
        let mut sum: u64 = 0;
        let mut i: usize = 0;
        while i < self.users.len()
            invariant
                i <= self.users@.len(),
                sum == total_stake(self.users@.take(i as int)),
            decreases self.users@.len() - i,
        {
            proof {
                assert(self.users@.take(i + 1).drop_last() =~= self.users@.take(i as int));
                lemma_total_stake_prefix(self.users@, i as int + 1, self.users@.len() as int);
            }
            if sum > u64::MAX - self.users[i].stake {
                return None;
            }
            sum = sum + self.users[i].stake;
            i = i + 1;
        }
        assert(self.users@.take(i as int) =~= self.users@);
        Some(sum)
    }

    fn replace(&mut self, i: usize, u: User)
        requires
            old(self).wf(),
            i < old(self).users_view().len(),
            u.address == old(self).users_view()[i as int].address,
        ensures
            final(self).wf(),
            final(self).users_view() == old(self).users_view().update(i as int, u),
            final(self).blocks@ == old(self).blocks@,
            final(self).pending@ == old(self).pending@,
    {
        proof {
            lemma_update_keeps(self.users@, i as int, u);
        }
        self.users.set(i, u);
    }

    /// Moves `amount` from an account's balance to its stake.
    pub fn stake(&mut self, user_address: Address, amount: u64) -> (r: Result<(), StakingError>)
        requires
            old(self).wf(),
        ensures
            final(self).wf(),
            ({
                let us = old(self).users_view();
                let p = position(us, user_address@);
                &&& p < 0 ==> r == Err::<(), StakingError>(StakingError::UserNotFound)
                &&& p >= 0 && us[p].balance < amount ==> r == Err::<(), StakingError>(StakingError::InsufficientBalance)
                &&& p >= 0 && us[p].balance >= amount && us[p].stake + amount > u64::MAX ==> r == Err::<(), StakingError>(StakingError::Overflow)
                &&& p >= 0 && us[p].balance >= amount && us[p].stake + amount <= u64::MAX ==> r is Ok
                    && final(self).users_view() == us.update(p, User {
                        balance: (us[p].balance - amount) as u64,
                        stake: (us[p].stake + amount) as u64,
                        ..us[p]
                    })
            }),
            r is Err ==> final(self).users_view() == old(self).users_view(),
            final(self).blocks@ == old(self).blocks@,
    {
        match self.find(&user_address) {
            None => Err(StakingError::UserNotFound),
            Some(i) => {
                let u = self.users[i];
                if u.balance < amount {
                    return Err(StakingError::InsufficientBalance);
                }
                if u.stake > u64::MAX - amount {
                    return Err(StakingError::Overflow);
                }
                self.replace(i, User { balance: u.balance - amount, stake: u.stake + amount, ..u });
                Ok(())
            },
        }
    }

    /// Moves `amount` from an account's stake back to its balance.
    pub fn unstake(&mut self, user_address: Address, amount: u64) -> (r: Result<(), StakingError>)
        requires
            old(self).wf(),
        ensures
            final(self).wf(),
            ({
                let us = old(self).users_view();
                let p = position(us, user_address@);
                &&& p < 0 ==> r == Err::<(), StakingError>(StakingError::UserNotFound)
                &&& p >= 0 && us[p].stake < amount ==> r == Err::<(), StakingError>(StakingError::InsufficientStake)
                &&& p >= 0 && us[p].stake >= amount && us[p].balance + amount > u64::MAX ==> r == Err::<(), StakingError>(StakingError::Overflow)
                &&& p >= 0 && us[p].stake >= amount && us[p].balance + amount <= u64::MAX ==> r is Ok
                    && final(self).users_view() == us.update(p, User {
                        balance: (us[p].balance + amount) as u64,
                        stake: (us[p].stake - amount) as u64,
                        ..us[p]
                    })
            }),
            r is Err ==> final(self).users_view() == old(self).users_view(),
            final(self).blocks@ == old(self).blocks@,
    {
        match self.find(&user_address) {
            None => Err(StakingError::UserNotFound),
            Some(i) => {
                let u = self.users[i];
                if u.stake < amount {
                    return Err(StakingError::InsufficientStake);
                }
                if u.balance > u64::MAX - amount {
                    return Err(StakingError::Overflow);
                }
                self.replace(i, User { balance: u.balance + amount, stake: u.stake - amount, ..u });
                Ok(())
            },
        }
    }

    /// Adds `reward` to an account's balance.
    pub fn credit(&mut self, validator_address: Address, reward: u64) -> (r: Result<(), StakingError>)
        requires
            old(self).wf(),
        ensures
            final(self).wf(),
            ({
                let us = old(self).users_view();
                let p = position(us, validator_address@);
                &&& p < 0 ==> r == Err::<(), StakingError>(StakingError::UserNotFound)
                &&& p >= 0 && us[p].balance + reward > u64::MAX ==> r == Err::<(), StakingError>(StakingError::Overflow)
                &&& p >= 0 && us[p].balance + reward <= u64::MAX ==> r is Ok
                    && final(self).users_view() == us.update(p, User { balance: (us[p].balance + reward) as u64, ..us[p] })
            }),
            r is Ok ==> total_balance(final(self).users_view()) == total_balance(old(self).users_view()) + reward,
            r is Ok ==> total_stake(final(self).users_view()) == total_stake(old(self).users_view()),
            r is Err ==> final(self).users_view() == old(self).users_view(),
            final(self).blocks@ == old(self).blocks@,
            final(self).pending@ == old(self).pending@,
    {
        match self.find(&validator_address) {
            None => Err(StakingError::UserNotFound),
            Some(i) => {
                let u = self.users[i];
                if u.balance > u64::MAX - reward {
                    return Err(StakingError::Overflow);
                }
                proof {
                    lemma_update_keeps(self.users@, i as int, User { balance: (u.balance + reward) as u64, ..u });
                }
                self.replace(i, User { balance: u.balance + reward, ..u });
                Ok(())
            },
        }
    }

    /// The block reward of a proposer: its stake divided by the total stake, rounded down.
    pub open spec fn reward_of(&self, p: int) -> int {
        stake_reward(self.users_view(), p)
    }

    /// Pays the proposer `floor(stake / total_stake)` and returns the amount paid.
    pub fn reward_validator(&mut self, validator_address: Address) -> (r: Result<u64, StakingError>)
        requires
            old(self).wf(),
        ensures
            final(self).wf(),
            ({
                let us = old(self).users_view();
                let p = position(us, validator_address@);
                &&& p < 0 ==> r == Err::<u64, StakingError>(StakingError::UserNotFound)
                &&& p >= 0 && total_stake(us) > u64::MAX ==> r == Err::<u64, StakingError>(StakingError::Overflow)
                &&& p >= 0 && total_stake(us) <= u64::MAX && us[p].balance + stake_reward(us, p) > u64::MAX
                    ==> r == Err::<u64, StakingError>(StakingError::Overflow)
                &&& p >= 0 && total_stake(us) <= u64::MAX && us[p].balance + stake_reward(us, p) <= u64::MAX ==> {
                    &&& r == Ok::<u64, StakingError>(stake_reward(us, p) as u64)
                    &&& final(self).users_view() == us.update(p, User { balance: (us[p].balance + stake_reward(us, p)) as u64, ..us[p] })
                }
            }),
            r matches Ok(paid) ==> total_balance(final(self).users_view()) == total_balance(old(self).users_view()) + paid
                && total_stake(final(self).users_view()) == total_stake(old(self).users_view()),
            r is Err ==> final(self).users_view() == old(self).users_view(),
            final(self).blocks@ == old(self).blocks@,
            final(self).pending@ == old(self).pending@,
    {
        let i = match self.find(&validator_address) {
            None => return Err(StakingError::UserNotFound),
            Some(i) => i,
        };
        let total = match self.get_total_stake() {
            None => return Err(StakingError::Overflow),
            Some(t) => t,
        };
        let reward = if total == 0 { 0 } else { self.users[i].stake / total };
        self.credit(validator_address, reward)?;
        Ok(reward)
    }

    /// Takes `penalty` from an account's stake, stopping at zero.
    pub fn slash_validator(&mut self, validator_address: Address, penalty: u64) -> (r: Result<(), StakingError>)
        requires
            old(self).wf(),
        ensures
            final(self).wf(),
            ({
                let us = old(self).users_view();
                let p = position(us, validator_address@);
                &&& p < 0 ==> r == Err::<(), StakingError>(StakingError::UserNotFound)
                &&& p >= 0 ==> r is Ok && final(self).users_view() == us.update(p, User {
                    stake: if us[p].stake < penalty { 0 } else { (us[p].stake - penalty) as u64 },
                    ..us[p]
                })
            }),
            r is Err ==> final(self).users_view() == old(self).users_view(),
            final(self).blocks@ == old(self).blocks@,
    {
        match self.find(&validator_address) {
            None => Err(StakingError::UserNotFound),
            Some(i) => {
                let u = self.users[i];
                let stake = if u.stake < penalty { 0 } else { u.stake - penalty };
                self.replace(i, User { stake, ..u });
                Ok(())
            },
        }
    }

    /// Picks a proposer among the accounts with a positive stake, with probability
    /// proportional to the stake.
    pub fn select_validator(&self) -> (r: Result<Address, StakingError>)
        requires
            self.wf(),
        ensures
            r matches Ok(a) ==> exists|i: int|
                0 <= i < self.users_view().len() && self.users_view()[i].address == a && self.users_view()[i].stake > 0,
            r == Err::<Address, StakingError>(StakingError::NoStake) <==> total_stake(self.users_view()) <= u64::MAX
                && forall|i: int| 0 <= i < self.users_view().len() ==> self.users_view()[i].stake == 0,
            r == Err::<Address, StakingError>(StakingError::Overflow) <==> total_stake(self.users_view()) > u64::MAX,
            r is Err ==> r == Err::<Address, StakingError>(StakingError::NoStake) || r == Err::<Address, StakingError>(StakingError::Overflow),
    {
        if self.get_total_stake().is_none() {
            return Err(StakingError::Overflow);
        }
        let mut stakes: Vec<u64> = Vec::new();
        let mut i: usize = 0;
        while i < self.users.len()
            invariant
                i <= self.users@.len(),
                stakes@.len() == i,
                forall|j: int| 0 <= j < i ==> stakes@[j] == #[trigger] self.users@[j].stake,
                total_weights(stakes@) == total_stake(self.users@.take(i as int)),
            decreases self.users@.len() - i,
        {
            proof {
                assert(self.users@.take(i + 1).drop_last() =~= self.users@.take(i as int));
            }
            let ghost before = stakes@;
            stakes.push(self.users[i].stake);
            proof {
                assert(stakes@.drop_last() =~= before);
            }
            i = i + 1;
        }
        proof {
            assert(self.users@.take(i as int) =~= self.users@);
        }
        if stakes.len() == 0 {
            return Err(StakingError::NoStake);
        }
        match draw_weighted(&stakes) {
            Some(k) => Ok(self.users[k].address),
            None => Err(StakingError::NoStake),
        }
    }

    /// Applies every transfer of the block to the accounts, in order. Either all of
    /// them apply or nothing changes.
    pub fn apply_block(&mut self, block: &Block) -> (r: Result<(), StakingError>)
        requires
            old(self).wf(),
        ensures
            final(self).wf(),
            r is Ok <==> apply_all(old(self).users_view(), block.transactions@) is Some,
            r is Ok ==> final(self).users_view() == apply_all(old(self).users_view(), block.transactions@)->0,
            r is Err ==> r == Err::<(), StakingError>(StakingError::TransferRejected)
                && final(self).users_view() == old(self).users_view(),
            final(self).blocks@ == old(self).blocks@,
            final(self).pending@ == old(self).pending@,
    {
        let mut current = self.get_users();
        let txs = &block.transactions;
        let mut i: usize = 0;
        while i < txs.len()
            invariant
                i <= txs@.len(),
                self.users@ == old(self).users@,
                txs@ == block.transactions@,
                self.blocks@ == old(self).blocks@,
                self.pending@ == old(self).pending@,
                addresses_unique(self.users@),
                addresses_unique(current@),
                apply_all(self.users@, txs@.take(i as int)) == Some(current@),
            decreases txs@.len() - i,
        {
            proof {
                assert(txs@.take(i + 1).drop_last() =~= txs@.take(i as int));
                assert(txs@.take(i + 1).last() == txs@[i as int]);
            }
            if !apply_transfer(&mut current, &txs[i]) {
                proof {
                    lemma_apply_all_none(self.users@, txs@, i as int + 1);
                }
                return Err(StakingError::TransferRejected);
            }
            i = i + 1;
        }
        proof {
            assert(txs@.take(i as int) =~= txs@);
        }
        self.users = current;
        Ok(())
    }

    /// Queues a signed transfer for the next block: it must verify, move funds between
    /// two different registered accounts, and the sender must hold the amount.
    pub fn submit_transaction(&mut self, tx: Transaction) -> (r: Result<(), StakingError>)
        requires
            old(self).wf(),
        ensures
            final(self).wf(),
            final(self).users_view() == old(self).users_view(),
            final(self).blocks@ == old(self).blocks@,
            r is Ok <==> tx.verify_spec() is Ok && tx.sender@ != tx.receiver@
                && position(old(self).users_view(), tx.sender@) >= 0
                && old(self).users_view()[position(old(self).users_view(), tx.sender@)].balance >= tx.amount,
            r is Ok ==> final(self).pending@ == old(self).pending@.push(tx),
            r is Err ==> final(self).pending@ == old(self).pending@,
    {
        match tx.verify() {
            Err(e) => return Err(StakingError::InvalidTransaction(e)),
            Ok(()) => {},
        }
        if bytes32_eq(&tx.sender, &tx.receiver) {
            return Err(StakingError::SameParty);
        }
        let sender = match self.find(&tx.sender) {
            None => return Err(StakingError::UserNotFound),
            Some(i) => self.users[i],
        };
        if sender.balance < tx.amount {
            return Err(StakingError::InsufficientBalance);
        }
        self.pending.push(tx);
        Ok(())
    }

    /// The accounts after `add_block(block, proposer)`, or its error: the block must
    /// verify, the proposer must be registered, all transfers must apply, and the
    /// proposer's reward must fit.
    pub open spec fn add_block_outcome(&self, block: Block, proposer: Seq<u8>) -> Result<Seq<User>, StakingError> {
        let us = self.users_view();
        let p = position(us, proposer);
        if block.verify_spec() is Err {
            Err(StakingError::InvalidBlock(block.verify_spec()->Err_0))
        } else if p < 0 {
            Err(StakingError::UserNotFound)
        } else {
            match apply_all(us, block.transactions@) {
                None => Err(StakingError::TransferRejected),
                Some(u2) => if total_stake(u2) > u64::MAX || u2[p].balance + stake_reward(u2, p) > u64::MAX {
                    Err(StakingError::Overflow)
                } else {
                    Ok(u2.update(p, User { balance: (u2[p].balance + stake_reward(u2, p)) as u64, ..u2[p] }))
                },
            }
        }
    }

    /// Accepts a mined block proposed by `proposer`: checks it, applies its transfers,
    /// appends it and pays the proposer. On error nothing changes. Returns the block hash.
    pub fn add_block(&mut self, block: Block, proposer: Address) -> (r: Result<[u8; 32], StakingError>)
        requires
            old(self).wf(),
        ensures
            final(self).wf(),
            final(self).pending@ == old(self).pending@,
            r is Ok <==> old(self).add_block_outcome(block, proposer@) is Ok,
            r matches Ok(h) ==> {
                &&& h == block.hash
                &&& final(self).users_view() == old(self).add_block_outcome(block, proposer@)->Ok_0
                &&& final(self).blocks@ == old(self).blocks@.push(block)
                &&& total_stake(final(self).users_view()) == total_stake(old(self).users_view())
                &&& total_balance(final(self).users_view()) == total_balance(old(self).users_view())
                    + old(self).reward_of(position(old(self).users_view(), proposer@))
            },
            r matches Err(e) ==> old(self).add_block_outcome(block, proposer@) == Err::<Seq<User>, StakingError>(e)
                && final(self).users_view() == old(self).users_view() && final(self).blocks@ == old(self).blocks@,
    {
        let ghost before = *self;
        match block.verify() {
            Err(e) => return Err(StakingError::InvalidBlock(e)),
            Ok(()) => {},
        }
        let p = match self.find(&proposer) {
            None => return Err(StakingError::UserNotFound),
            Some(p) => p,
        };
        let saved = self.get_users();
        self.apply_block(&block)?;
        proof {
            lemma_position(before.users@, proposer@);
            lemma_apply_all_conserves(before.users@, block.transactions@);
            lemma_apply_all_keeps_stakes(before.users@, block.transactions@, p as int);
            lemma_position_at(self.users@, p as int);
            assert(position(self.users@, proposer@) == p);
            assert(stake_reward(self.users@, p as int) == stake_reward(before.users@, p as int));
            lemma_stake_reward_range(self.users@, p as int);
        }
        match self.reward_validator(proposer) {
            Err(e) => {
                self.users = saved;
                return Err(e);
            },
            Ok(_) => {},
        }
        let h = block.hash;
        self.blocks.push(block);
        proof {
            assert(self.blocks@ == before.blocks@.push(block));
            assert(total_stake(self.users@) == total_stake(before.users@));
        }
        Ok(h)
    }

    /// Produces the next block: picks a proposer by stake, mines the queued transfers
    /// into a block after the last one with the current time, and adds it through
    /// `add_block`; the queue is then empty. On error nothing changes. Returns the new
    /// block's hash.
    pub fn produce_block(&mut self) -> (r: Result<[u8; 32], StakingError>)
        requires
            old(self).wf(),
        ensures
            final(self).wf(),
            total_stake(old(self).users_view()) > u64::MAX ==> r == Err::<[u8; 32], StakingError>(StakingError::Overflow),
            total_stake(old(self).users_view()) <= u64::MAX
                && (forall|i: int| 0 <= i < old(self).users_view().len() ==> old(self).users_view()[i].stake == 0)
                ==> r == Err::<[u8; 32], StakingError>(StakingError::NoStake),
            r is Err ==> final(self).users_view() == old(self).users_view() && final(self).blocks@ == old(self).blocks@
                && final(self).pending@ == old(self).pending@,
            r matches Ok(h) ==> {
                &&& final(self).blocks@.len() == old(self).blocks@.len() + 1
                &&& final(self).blocks@.drop_last() == old(self).blocks@
                &&& final(self).blocks@.last().hash == h
                &&& final(self).blocks@.last().transactions@ == old(self).pending@
                &&& old(self).blocks@.len() > 0 ==> final(self).blocks@.last().previous_hash == old(self).blocks@.last().hash
                &&& pow_ok(h@)
                &&& final(self).blocks@.last().verify_spec() is Ok
                &&& final(self).pending@.len() == 0
                &&& apply_all(old(self).users_view(), old(self).pending@) is Some
                &&& total_stake(final(self).users_view()) == total_stake(old(self).users_view())
                &&& exists|p: int|
                    0 <= p < old(self).users_view().len() && old(self).users_view()[p].stake > 0
                        && final(self).users_view()
                            == old(self).add_block_outcome(final(self).blocks@.last(), old(self).users_view()[p].address@)->Ok_0
                        && total_balance(final(self).users_view()) == total_balance(old(self).users_view())
                            + old(self).reward_of(p)
            },
    {
        let n = self.blocks.len();
        let previous_hash = if n > 0 { self.blocks[n - 1].hash } else { [0u8; 32] };
        let proposer = self.select_validator()?;
        let ghost p = choose|p: int|
            0 <= p < self.users@.len() && self.users@[p].address == proposer && self.users@[p].stake > 0;
        proof {
            lemma_position_at(self.users@, p);
        }
        let mut transactions: Vec<Transaction> = Vec::new();
        let mut i: usize = 0;
        while i < self.pending.len()
            invariant
                i <= self.pending@.len(),
                transactions@ == self.pending@.take(i as int),
            decreases self.pending@.len() - i,
        {
            transactions.push(self.pending[i]);
            i = i + 1;
            proof {
                assert(transactions@ =~= self.pending@.take(i as int));
            }
        }
        proof {
            assert(self.pending@.take(i as int) =~= self.pending@);
        }
        let block = Block::new(transactions, previous_hash);
        let ghost mined = block;
        let h = self.add_block(block, proposer)?;
        self.pending = Vec::new();
        proof {
            assert(self.blocks@.drop_last() =~= old(self).blocks@);
            assert(self.blocks@.last() == mined);
        }
        Ok(h)
    }
}

proof fn lemma_apply_all_none(users: Seq<User>, txs: Seq<Transaction>, k: int)
    requires
        0 <= k <= txs.len(),
        apply_all(users, txs.take(k)) is None,
    ensures
        apply_all(users, txs) is None,
    decreases txs.len() - k,
{
    if k < txs.len() {
        assert(txs.take(k + 1).drop_last() =~= txs.take(k));
        lemma_apply_all_none(users, txs, k + 1);
    } else {
        assert(txs.take(k) =~= txs);
    }
}

proof fn lemma_apply_all_keeps_stakes(users: Seq<User>, txs: Seq<Transaction>, p: int)
    requires
        addresses_unique(users),
        0 <= p < users.len(),
        apply_all(users, txs) is Some,
    ensures
        apply_all(users, txs)->0.len() == users.len(),
        apply_all(users, txs)->0[p].address == users[p].address,
        apply_all(users, txs)->0[p].stake == users[p].stake,
    decreases txs.len(),
{
    if txs.len() > 0 {
        lemma_apply_all_keeps_stakes(users, txs.drop_last(), p);
        lemma_apply_all_conserves(users, txs.drop_last());
        let u = apply_all(users, txs.drop_last())->0;
        let tx = txs.last();
        lemma_position(u, tx.sender@);
        lemma_position(u, tx.receiver@);
    }
}

proof fn lemma_total_stake_prefix(users: Seq<User>, k: int, n: int)
    requires
        0 <= k <= n == users.len(),
    ensures
        total_stake(users.take(k)) <= total_stake(users),
    decreases n - k,
{
    if k < n {
        lemma_total_stake_prefix(users, k + 1, n);
        assert(users.take(k + 1).drop_last() =~= users.take(k));
    } else {
        assert(users.take(k) =~= users);
    }
}

} // verus!
