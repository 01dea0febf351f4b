//! The ledger: the block sequence, the pool of accepted transactions, and the state.
use vstd::prelude::*;

use crate::block::{first_tx_error, header_bytes, merkle_root_of, now_timestamp, pow_ok, Block};
use crate::crypto::sha256;
use crate::crypto::bytes32_eq;
use crate::state::{empty_accounts, lemma_replay_append, model_replay, Accounts, State};
use crate::transaction::{Transaction, ValidationLevel};
use crate::BlockchainError;

verus! {

/// The transactions of all blocks, block by block, in order.
pub open spec fn all_transactions(blocks: Seq<Block>) -> Seq<Transaction>
    decreases blocks.len(),
{
    if blocks.len() == 0 {
        Seq::empty()
    } else {
        all_transactions(blocks.drop_last()) + blocks.last().transactions@
    }
}

/// Each block after the first names the hash of the one before it.
pub open spec fn chain_linked(blocks: Seq<Block>) -> bool {
    forall|i: int| 1 <= i < blocks.len() ==> #[trigger] blocks[i].previous_hash@ == blocks[i - 1].hash@
}

/// The outcome of checking blocks `i..` of a chain: each block's own checks, then its
/// link to the one before it.
pub open spec fn chain_check(blocks: Seq<Block>, i: int) -> Result<(), BlockchainError>
    decreases blocks.len() - i,
{
    if i < 0 || i >= blocks.len() {
        Ok(())
    } else if blocks[i].verify_spec() is Err {
        blocks[i].verify_spec()
    } else if i > 0 && blocks[i].previous_hash@ != blocks[i - 1].hash@ {
        Err(BlockchainError::InvalidHash)
    } else {
        chain_check(blocks, i + 1)
    }
}

proof fn lemma_all_transactions_split(blocks: Seq<Block>, i: int)
    requires
        0 <= i < blocks.len(),
    ensures
        all_transactions(blocks) == all_transactions(blocks.take(i)) + blocks[i].transactions@
            + all_transactions(blocks).skip((all_transactions(blocks.take(i)).len() + blocks[i].transactions@.len()) as int),
        all_transactions(blocks.take(i + 1)) == all_transactions(blocks.take(i)) + blocks[i].transactions@,
    decreases blocks.len(),
{
    assert(blocks.take(i + 1).drop_last() =~= blocks.take(i));
    lemma_all_transactions_prefix(blocks, i + 1);
    let p = all_transactions(blocks.take(i + 1));
    assert(all_transactions(blocks) =~= p + all_transactions(blocks).skip(p.len() as int));
}

proof fn lemma_all_transactions_prefix(blocks: Seq<Block>, k: int)
    requires
        0 <= k <= blocks.len(),
    ensures
        all_transactions(blocks.take(k)).len() <= all_transactions(blocks).len(),
        all_transactions(blocks).take(all_transactions(blocks.take(k)).len() as int) == all_transactions(blocks.take(k)),
    decreases blocks.len() - k,
{
    if k == blocks.len() {
        assert(blocks.take(k) =~= blocks);
        assert(all_transactions(blocks).take(all_transactions(blocks).len() as int) =~= all_transactions(blocks));
    } else {
        lemma_all_transactions_prefix(blocks, k + 1);
        assert(blocks.take(k + 1).drop_last() =~= blocks.take(k));
        let a = all_transactions(blocks.take(k));
        let b = all_transactions(blocks.take(k + 1));
        assert(b =~= a + blocks[k].transactions@);
        assert(all_transactions(blocks).take(a.len() as int) =~= b.take(a.len() as int));
        assert(b.take(a.len() as int) =~= a);
    }
}

proof fn lemma_chain_check_ok(blocks: Seq<Block>, i: int)
    requires
        0 <= i,
        chain_check(blocks, i) is Ok,
    ensures
        forall|j: int| i <= j < blocks.len() ==> (#[trigger] blocks[j]).verify_spec() is Ok,
        forall|j: int| i <= j < blocks.len() && j > 0 ==> (#[trigger] blocks[j]).previous_hash@ == blocks[j - 1].hash@,
    decreases blocks.len() - i,
{
    if i < blocks.len() {
        lemma_chain_check_ok(blocks, i + 1);
    }
}

fn copy_transactions(v: &Vec<Transaction>) -> (r: Vec<Transaction>)
    ensures
        r@ == v@,
{
    let mut r: Vec<Transaction> = Vec::new();
    let mut i: usize = 0;
    while i < v.len()
        invariant
            i <= v@.len(),
            r@ == v@.take(i as int),
        decreases v@.len() - i,
    {
        r.push(v[i]);
        i = i + 1;
        proof {
            assert(r@ =~= v@.take(i as int));
        }
    }
    assert(v@.take(i as int) =~= v@);
    r
}

/// A copy of a block, field for field.
pub fn copy_block(b: &Block) -> (r: Block)
    ensures
        r.previous_hash == b.previous_hash,
        r.merkle_root == b.merkle_root,
        r.nonce == b.nonce,
        r.timestamp == b.timestamp,
        r.transactions@ == b.transactions@,
        r.hash == b.hash,
{
    Block {
        previous_hash: b.previous_hash,
        merkle_root: b.merkle_root,
        nonce: b.nonce,
        timestamp: b.timestamp,
        transactions: copy_transactions(&b.transactions),
        hash: b.hash,
    }
}

/// The ledger: blocks from genesis on, transactions accepted since the last block,
/// and the account state that reflects both.
pub struct Blockchain {
    pub blocks: Vec<Block>,
    pub state: State,
    pub pending_transactions: Vec<Transaction>,
}

/// A sender's accepted nonces run 1, 2, 3, ...: a transaction is accepted only with
/// the nonce after the last one accepted, which it then becomes; a repeat or a gap is
/// refused.
pub proof fn lemma_nonce_succession(before: &Blockchain, tx: Transaction, after: &Blockchain)
    requires
        before.add_result(tx) is Ok,
        before.state.applied(&after.state, tx),
    ensures
        tx.nonce == before.state.nonce(tx.sender@) + 1,
        after.state.nonce(tx.sender@) == tx.nonce,
{
}

/// A transaction whose nonce is not the one after its sender's last is refused.
pub proof fn lemma_nonce_gap_refused(ledger: &Blockchain, tx: Transaction)
    requires
        tx.nonce != ledger.state.nonce(tx.sender@) + 1,
    ensures
        ledger.add_result(tx) is Err,
{
}

impl Blockchain {
    /// The outcome of `add_transaction`: full validation, then the state transition.
    pub open spec fn add_result(&self, tx: Transaction) -> Result<(), BlockchainError> {
        if tx.sender@ == tx.receiver@ {
            Err(BlockchainError::SenderIsReceiver)
        } else if tx.full_spec(&self.state) is Err {
            tx.full_spec(&self.state)
        } else {
            self.state.apply_result(tx)
        }
    }

    /// A ledger holding only a mined genesis block with no transactions and a zero
    /// previous hash.
    pub fn new() -> (r: Self)
        ensures
            r.blocks@.len() == 1,
            r.blocks@[0].previous_hash@ == seq![0u8; 32],
            r.blocks@[0].transactions@.len() == 0,
            r.blocks@[0].hash@ == r.blocks@[0].hash_of(),
            pow_ok(r.blocks@[0].hash@) || r.blocks@[0].nonce == u64::MAX,
            forall|n: u64| n < r.blocks@[0].nonce ==> !pow_ok(#[trigger] r.blocks@[0].hash_with_nonce(n)),
            r.blocks@[0].verify_spec() is Ok <==> exists|n: u64| pow_ok(#[trigger] r.blocks@[0].hash_with_nonce(n)),
            chain_linked(r.blocks@),
            r.pending_transactions@.len() == 0,
            r.state.wf(),
            forall|a: Seq<u8>| r.state.balance(a) == 0 && r.state.nonce(a) == 0,
    {
        let genesis = Block::new(Vec::new(), [0u8; 32]);
        proof {
            assert(genesis.previous_hash@ =~= seq![0u8; 32]);
            assert(first_tx_error(Seq::<Transaction>::empty()) is Ok);
        }
        let mut blocks: Vec<Block> = Vec::new();
        blocks.push(genesis);
        Blockchain { blocks, state: State::new(), pending_transactions: Vec::new() }
    }

    /// Adopts a block sequence and rebuilds the state by applying every transaction in
    /// order to an empty state. A transaction that does not apply means the chain is
    /// corrupt: its error is returned.
    pub fn from_blocks(blocks: Vec<Block>) -> (r: Result<Self, BlockchainError>)
        ensures
            r is Ok <==> model_replay(empty_accounts(), all_transactions(blocks@)) is Ok,
            r matches Err(e) ==> model_replay(empty_accounts(), all_transactions(blocks@)) == Err::<Accounts, BlockchainError>(e),
            r matches Ok(c) ==> {
                &&& c.blocks@ == blocks@
                &&& c.pending_transactions@.len() == 0
                &&& c.state.wf()
                &&& c.state.model() == model_replay(empty_accounts(), all_transactions(blocks@))->Ok_0
            },
    {
        let mut state = State::new();
        let mut i: usize = 0;
        while i < blocks.len()
            invariant
                i <= blocks@.len(),
                state.wf(),
                model_replay(empty_accounts(), all_transactions(blocks@.take(i as int))) == Ok::<Accounts, BlockchainError>(state.model()),
            decreases blocks@.len() - i,
        {
            let txs = &blocks[i].transactions;
            let ghost done = all_transactions(blocks@.take(i as int));
            let mut j: usize = 0;
            while j < txs.len()
                invariant
                    i < blocks@.len(),
                    txs@ == blocks@[i as int].transactions@,
                    j <= txs@.len(),
                    state.wf(),
                    done == all_transactions(blocks@.take(i as int)),
                    model_replay(empty_accounts(), done + txs@.take(j as int)) == Ok::<Accounts, BlockchainError>(state.model()),
                decreases txs@.len() - j,
            {
                proof {
                    assert((done + txs@.take(j + 1)).drop_last() =~= done + txs@.take(j as int));
                    assert((done + txs@.take(j + 1)).last() == txs@[j as int]);
                }
                let result = state.apply_transaction(&txs[j]);
                match result {
                    Err(e) => {
                        proof {
                            let rest = txs@.skip(j + 1) + all_transactions(blocks@).skip((done.len() + txs@.len()) as int);
                            lemma_all_transactions_split(blocks@, i as int);
                            assert(all_transactions(blocks@) =~= (done + txs@.take(j + 1)) + rest);
                            lemma_replay_append(empty_accounts(), done + txs@.take(j + 1), rest);
                        }
                        return Err(e);
                    },
                    Ok(()) => {},
                }
                j = j + 1;
            }
            proof {
                assert(txs@.take(j as int) =~= txs@);
                assert(blocks@.take(i + 1).drop_last() =~= blocks@.take(i as int));
            }
            i = i + 1;
        }
        proof {
            assert(blocks@.take(i as int) =~= blocks@);
        }
        Ok(Blockchain { blocks, state, pending_transactions: Vec::new() })
    }

    /// Refuses a transfer to oneself; otherwise fully validates a transaction against
    /// the current state, and on success applies it
    /// to the state and queues it for the next block. On error nothing changes.
    pub fn add_transaction(&mut self, transaction: Transaction) -> (r: Result<(), BlockchainError>)
        requires
            old(self).state.wf(),
        ensures
            final(self).state.wf(),
            r == old(self).add_result(transaction),
            final(self).blocks@ == old(self).blocks@,
            r is Ok ==> old(self).state.applied(&final(self).state, transaction),
            r is Ok ==> final(self).pending_transactions@ == old(self).pending_transactions@.push(transaction),
            r is Err ==> final(self).state.same(&old(self).state),
            r is Err ==> final(self).pending_transactions@ == old(self).pending_transactions@,
    {
        if bytes32_eq(&transaction.sender, &transaction.receiver) {
            return Err(BlockchainError::SenderIsReceiver);
        }
        transaction.validate(ValidationLevel::Full, Some(&self.state))?;
        self.state.apply_transaction(&transaction)?;
        self.pending_transactions.push(transaction);
        Ok(())
    }

    /// The hash that the last block carries, or 32 zero bytes for an empty chain.
    pub open spec fn head_hash(&self) -> Seq<u8> {
        if self.blocks@.len() > 0 {
            self.blocks@.last().hash@
        } else {
            seq![0u8; 32]
        }
    }

    /// Mines the queued transactions into a block after the last one, with the current
    /// time; see `mine_block_at` for what happens with a given time.
    pub fn mine_block(&mut self) -> (r: Result<Block, BlockchainError>)
        requires
            chain_linked(old(self).blocks@),
        ensures
            chain_linked(final(self).blocks@),
            final(self).state == old(self).state,
            r matches Ok(b) ==> old(self).mined(&*final(self), b),
            r matches Err(e) ==> e == BlockchainError::InvalidProofOfWork
                || first_tx_error(old(self).pending_transactions@) == Err::<(), BlockchainError>(e),
            r is Err ==> final(self).blocks@ == old(self).blocks@
                && final(self).pending_transactions@ == old(self).pending_transactions@,
    {
        self.mine_block_at(now_timestamp())
    }

    /// What a successful mining step did: `b` is the block after the last one over the
    /// queued transactions, with the least nonce that gives its hash the proof of work;
    /// it is appended as it is and the queue is emptied.
    pub open spec fn mined(&self, next: &Blockchain, b: Block) -> bool {
        &&& next.blocks@.len() == self.blocks@.len() + 1
        &&& next.blocks@.drop_last() == self.blocks@
        &&& next.blocks@.last().previous_hash == b.previous_hash
        &&& next.blocks@.last().merkle_root == b.merkle_root
        &&& next.blocks@.last().nonce == b.nonce
        &&& next.blocks@.last().timestamp == b.timestamp
        &&& next.blocks@.last().transactions@ == b.transactions@
        &&& next.blocks@.last().hash == b.hash
        &&& b.previous_hash@ == self.head_hash()
        &&& b.transactions@ == self.pending_transactions@
        &&& b.merkle_root@ == merkle_root_of(self.pending_transactions@)
        &&& b.hash@ == b.hash_of()
        &&& pow_ok(b.hash@)
        &&& forall|n: u64| n < b.nonce ==> !pow_ok(#[trigger] b.hash_with_nonce(n))
        &&& b.verify_spec() is Ok
        &&& next.pending_transactions@.len() == 0
        &&& next.state == self.state
    }

    /// Mines the queued transactions into a block after the last one, stamped with
    /// `timestamp`, checks it and appends it. It succeeds exactly when the queued
    /// transactions verify and some nonce gives the block hash the proof of work. On
    /// error blocks and queue stay as they were.
    pub fn mine_block_at(&mut self, timestamp: i64) -> (r: Result<Block, BlockchainError>)
        requires
            chain_linked(old(self).blocks@),
        ensures
            chain_linked(final(self).blocks@),
            final(self).state == old(self).state,
            r is Ok <==> first_tx_error(old(self).pending_transactions@) is Ok && exists|n: u64|
                pow_ok(#[trigger] sha256(header_bytes(
                    old(self).head_hash(),
                    merkle_root_of(old(self).pending_transactions@),
                    n,
                    timestamp,
                    old(self).pending_transactions@,
                ))),
            r matches Ok(b) ==> old(self).mined(&*final(self), b) && b.timestamp == timestamp,
            r matches Err(e) ==> e == BlockchainError::InvalidProofOfWork
                || first_tx_error(old(self).pending_transactions@) == Err::<(), BlockchainError>(e),
            r is Err ==> final(self).blocks@ == old(self).blocks@
                && final(self).pending_transactions@ == old(self).pending_transactions@,
    {
        let n = self.blocks.len();
        let previous_hash = if n > 0 { self.blocks[n - 1].hash } else { [0u8; 32] };
        proof {
            if n == 0 {
                assert(previous_hash@ =~= seq![0u8; 32]);
            }
        }
        let transactions = copy_transactions(&self.pending_transactions);
        let block = Block::with_timestamp(transactions, previous_hash, timestamp);
        proof {
            assert forall|k: u64|
                #[trigger] block.hash_with_nonce(k) == sha256(header_bytes(
                    old(self).head_hash(),
                    merkle_root_of(old(self).pending_transactions@),
                    k,
                    timestamp,
                    old(self).pending_transactions@,
                )) by {}
        }
        let ghost txs = old(self).pending_transactions@;
        let ghost head = old(self).head_hash();
        match block.verify() {
            Err(e) => {
                proof {
                    if first_tx_error(txs) is Ok && exists|k: u64|
                        pow_ok(#[trigger] sha256(header_bytes(head, merkle_root_of(txs), k, timestamp, txs))) {
                        let k = choose|k: u64|
                            pow_ok(#[trigger] sha256(header_bytes(head, merkle_root_of(txs), k, timestamp, txs)));
                        assert(pow_ok(block.hash_with_nonce(k)));
                    }
                }
                return Err(e);
            },
            Ok(()) => {},
        }
        let stored = copy_block(&block);
        self.blocks.push(stored);
        self.pending_transactions = Vec::new();
        proof {
            assert(self.blocks@.drop_last() =~= old(self).blocks@);
            let k = choose|k: u64| pow_ok(#[trigger] block.hash_with_nonce(k));
            assert(pow_ok(sha256(header_bytes(head, merkle_root_of(txs), k, timestamp, txs))));
        }
        Ok(block)
    }

    /// Checks every block in order, and that each names its predecessor's hash.
    pub fn verify_chain(&self) -> (r: Result<(), BlockchainError>)
        ensures
            r == chain_check(self.blocks@, 0),
            r is Ok ==> chain_linked(self.blocks@),
            r is Ok ==> forall|i: int| 0 <= i < self.blocks@.len() ==> (#[trigger] self.blocks@[i]).verify_spec() is Ok,
    {
        let n = self.blocks.len();
        let mut i: usize = 0;
        while i < n
            invariant
                n == self.blocks@.len(),
                i <= n,
                chain_check(self.blocks@, 0) == chain_check(self.blocks@, i as int),
            decreases n - i,
        {
            self.blocks[i].verify()?;
            if i > 0 {
                if !bytes32_eq(&self.blocks[i].previous_hash, &self.blocks[i - 1].hash) {
                    return Err(BlockchainError::InvalidHash);
                }
            }
            i = i + 1;
        }
        proof {
            lemma_chain_check_ok(self.blocks@, 0);
        }
        Ok(())
    }
}

} // verus!
