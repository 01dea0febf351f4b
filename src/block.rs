//! Blocks: the canonical header encoding, the Merkle root, proof-of-work mining and
//! verification.
use vstd::prelude::*;

use crate::crypto::{bytes32_eq, hash, sha256};
use crate::encoding::{push_bytes, push_u64_le, u64_le};
use crate::transaction::Transaction;
use crate::BlockchainError;

verus! {

/// Number of leading zero bytes that a mined block hash must have.
pub const DIFFICULTY: usize = 2;

/// A batch of transactions linked to its predecessor by hash.
#[derive(Clone, Debug)]
pub struct Block {
    pub previous_hash: [u8; 32],
    pub merkle_root: [u8; 32],
    pub nonce: u64,
    pub timestamp: i64,
    pub transactions: Vec<Transaction>,
    pub hash: [u8; 32],
}

/// All fields of a transaction, in order, integers little-endian.
pub open spec fn tx_bytes(t: Transaction) -> Seq<u8> {
    t.message() + t.signature@ + t.sender_public_key@
}

/// The transactions' encodings, one after another.
pub open spec fn txs_bytes(txs: Seq<Transaction>) -> Seq<u8>
    decreases txs.len(),
{
    if txs.len() == 0 {
        Seq::empty()
    } else {
        txs_bytes(txs.drop_last()) + tx_bytes(txs.last())
    }
}

/// The canonical encoding that a block hash covers: previous hash, Merkle root, nonce,
/// timestamp, transaction count, then the transactions.
pub open spec fn header_bytes(
    previous_hash: Seq<u8>,
    merkle_root: Seq<u8>,
    nonce: u64,
    timestamp: i64,
    txs: Seq<Transaction>,
) -> Seq<u8> {
    previous_hash + merkle_root + u64_le(nonce) + u64_le(timestamp as u64) + u64_le(txs.len() as u64)
        + txs_bytes(txs)
}

/// Whether a hash starts with `DIFFICULTY` zero bytes.
pub open spec fn pow_ok(h: Seq<u8>) -> bool {
    h.len() >= DIFFICULTY && forall|i: int| 0 <= i < DIFFICULTY ==> h[i] == 0
}

pub open spec fn hash_views(s: Seq<[u8; 32]>) -> Seq<Seq<u8>> {
    s.map_values(|h: [u8; 32]| h@)
}

/// One level up the Merkle tree: adjacent pairs hashed together, an odd last hash
/// paired with itself.
pub open spec fn merkle_next(hs: Seq<Seq<u8>>) -> Seq<Seq<u8>> {
    Seq::new(
        ((hs.len() + 1) / 2) as nat,
        |j: int| sha256(hs[2 * j] + if 2 * j + 1 < hs.len() { hs[2 * j + 1] } else { hs[2 * j] }),
    )
}

/// The hash that remains when levels are paired until one is left.
pub open spec fn merkle_reduce(hs: Seq<Seq<u8>>) -> Seq<u8>
    decreases hs.len(),
{
    if hs.len() <= 1 {
        hs[0]
    } else {
        merkle_reduce(merkle_next(hs))
    }
}

/// The Merkle root over the transaction hashes; SHA-256 of nothing for no transactions.
pub open spec fn merkle_root_of(txs: Seq<Transaction>) -> Seq<u8> {
    if txs.len() == 0 {
        sha256(Seq::empty())
    } else {
        merkle_reduce(txs.map_values(|t: Transaction| t.hash_spec()))
    }
}

/// The first error among the transactions' own checks, if any.
pub open spec fn first_tx_error(txs: Seq<Transaction>) -> Result<(), BlockchainError>
    decreases txs.len(),
{
    if txs.len() == 0 {
        Ok(())
    } else if txs[0].verify_spec() is Err {
        txs[0].verify_spec()
    } else {
        first_tx_error(txs.drop_first())
    }
}

proof fn lemma_first_tx_error_step(txs: Seq<Transaction>, i: int)
    requires
        0 <= i < txs.len(),
    ensures
        first_tx_error(txs.subrange(i, txs.len() as int)) == if txs[i].verify_spec() is Err {
            txs[i].verify_spec()
        } else {
            first_tx_error(txs.subrange(i + 1, txs.len() as int))
        },
{
    assert(txs.subrange(i, txs.len() as int).drop_first() =~= txs.subrange(i + 1, txs.len() as int));
}

fn push_transaction(out: &mut Vec<u8>, t: &Transaction)
    ensures
        final(out)@ == old(out)@ + tx_bytes(*t),
{
    push_bytes(out, t.sender.as_slice());
    push_bytes(out, t.receiver.as_slice());
    push_u64_le(out, t.amount);
    push_u64_le(out, t.nonce);
    push_bytes(out, t.signature.as_slice());
    push_bytes(out, t.sender_public_key.as_slice());
    proof {
        assert(final(out)@ =~= old(out)@ + tx_bytes(*t));
    }
}

/// The hashes one Merkle level up.
fn merkle_pair_level(level: &Vec<[u8; 32]>) -> (r: Vec<[u8; 32]>)
    requires
        level@.len() >= 1,
    ensures
        hash_views(r@) == merkle_next(hash_views(level@)),
{
    let n = level.len();
    let half = n / 2 + n % 2;
    let ghost hs = hash_views(level@);
    let mut next: Vec<[u8; 32]> = Vec::new();
    let mut j: usize = 0;
    while j < half
        invariant
            half == (n + 1) / 2,
            n == level@.len(),
            hs == hash_views(level@),
            j <= half,
            next@.len() == j,
            forall|k: int| 0 <= k < j ==> #[trigger] next@[k]@ == merkle_next(hs)[k],
        decreases half - j,
    {
        let left = level[2 * j];
        let right = if 2 * j + 1 < n { level[2 * j + 1] } else { level[2 * j] };
        let mut buffer: Vec<u8> = Vec::new();
        push_bytes(&mut buffer, left.as_slice());
        push_bytes(&mut buffer, right.as_slice());
        let h = hash(buffer.as_slice());
        proof {
            assert(hs[2 * j as int] == left@);
            assert(2 * j + 1 < n ==> hs[2 * j + 1] == right@);
        }
        next.push(h);
        j = j + 1;
    }
    assert(hash_views(next@) =~= merkle_next(hs));
    next
}

/// The Merkle root of the transactions: their hashes paired level by level, an odd
/// last hash duplicated; SHA-256 of nothing when there are none.
pub fn compute_merkle_root(transactions: &Vec<Transaction>) -> (r: [u8; 32])
    ensures
        r@ == merkle_root_of(transactions@),
{
    if transactions.len() == 0 {
        let empty: Vec<u8> = Vec::new();
        proof {
            assert(empty@ =~= Seq::<u8>::empty());
        }
        return hash(empty.as_slice());
    }
    let ghost leaves = transactions@.map_values(|t: Transaction| t.hash_spec());
    let mut level: Vec<[u8; 32]> = Vec::new();
    let mut i: usize = 0;
    while i < transactions.len()
        invariant
            i <= transactions@.len(),
            leaves == transactions@.map_values(|t: Transaction| t.hash_spec()),
            hash_views(level@) == leaves.take(i as int),
        decreases transactions@.len() - i,
    {
        let h = transactions[i].hash();
        let ghost prev = level@;
        level.push(h);
        proof {
            assert(leaves[i as int] == h@);
            assert(hash_views(level@) =~= hash_views(prev).push(h@));
            assert(leaves.take(i + 1) =~= leaves.take(i as int).push(leaves[i as int]));
        }
        i = i + 1;
    }
    assert(leaves.take(i as int) =~= leaves);
    while level.len() > 1
        invariant
            level@.len() >= 1,
            merkle_reduce(hash_views(level@)) == merkle_reduce(leaves),
        decreases level@.len(),
    {
        let ghost prev = level@;
        level = merkle_pair_level(&level);
        proof {
            assert(hash_views(prev).len() == prev.len());
            assert(hash_views(level@).len() == level@.len());
        }
    }
    level[0]
}

/// Relies on chrono::Utc::now: the current Unix time in seconds (any value).
#[verifier::external_body]
pub(crate) fn now_timestamp() -> (r: i64) {
    chrono::Utc::now().timestamp()
}

/// The hash of a block is a function of its encoded fields: two blocks that agree on
/// them have the same hash; and with no transactions the Merkle root is the SHA-256 of
/// nothing.
pub proof fn lemma_hash_determinism(a: Block, b: Block)
    requires
        a.previous_hash == b.previous_hash,
        a.merkle_root == b.merkle_root,
        a.nonce == b.nonce,
        a.timestamp == b.timestamp,
        a.transactions@ == b.transactions@,
    ensures
        a.hash_of() == b.hash_of(),
        merkle_root_of(Seq::empty()) == sha256(Seq::empty()),
{
}

impl Block {
    /// The canonical encoding of this block's fields but its hash.
    pub open spec fn header(&self) -> Seq<u8> {
        header_bytes(self.previous_hash@, self.merkle_root@, self.nonce, self.timestamp, self.transactions@)
    }

    /// The hash the block would have with nonce `n`.
    pub open spec fn hash_with_nonce(&self, n: u64) -> Seq<u8> {
        sha256(header_bytes(self.previous_hash@, self.merkle_root@, n, self.timestamp, self.transactions@))
    }

    /// The hash that the block's fields determine.
    pub open spec fn hash_of(&self) -> Seq<u8> {
        sha256(self.header())
    }

    /// The outcome of `verify`.
    pub open spec fn verify_spec(&self) -> Result<(), BlockchainError> {
        if !pow_ok(self.hash_of()) {
            Err(BlockchainError::InvalidProofOfWork)
        } else if self.hash@ != self.hash_of() {
            Err(BlockchainError::InvalidHash)
        } else {
            first_tx_error(self.transactions@)
        }
    }

    /// A block over `transactions` stamped with the current time and mined.
    pub fn new(transactions: Vec<Transaction>, previous_hash: [u8; 32]) -> (r: Self)
        ensures
            r.transactions@ == transactions@,
            r.previous_hash == previous_hash,
            r.merkle_root@ == merkle_root_of(transactions@),
            r.hash@ == r.hash_of(),
            pow_ok(r.hash@) || r.nonce == u64::MAX,
            forall|n: u64| n < r.nonce ==> !pow_ok(#[trigger] r.hash_with_nonce(n)),
            pow_ok(r.hash@) <==> exists|n: u64| pow_ok(#[trigger] r.hash_with_nonce(n)),
            r.verify_spec() is Ok <==> (exists|n: u64| pow_ok(#[trigger] r.hash_with_nonce(n)))
                && first_tx_error(transactions@) is Ok,
            r.verify_spec() is Err ==> r.verify_spec() == Err::<(), BlockchainError>(BlockchainError::InvalidProofOfWork)
                || r.verify_spec() == first_tx_error(transactions@),
    {
        Self::with_timestamp(transactions, previous_hash, now_timestamp())
    }

    /// A block over `transactions` with the given timestamp, mined from nonce 0.
    pub fn with_timestamp(transactions: Vec<Transaction>, previous_hash: [u8; 32], timestamp: i64) -> (r: Self)
        ensures
            r.transactions@ == transactions@,
            r.previous_hash == previous_hash,
            r.timestamp == timestamp,
            r.merkle_root@ == merkle_root_of(transactions@),
            r.hash@ == r.hash_of(),
            pow_ok(r.hash@) || r.nonce == u64::MAX,
            forall|n: u64| n < r.nonce ==> !pow_ok(#[trigger] r.hash_with_nonce(n)),
            pow_ok(r.hash@) <==> exists|n: u64| pow_ok(#[trigger] r.hash_with_nonce(n)),
            r.verify_spec() is Ok <==> (exists|n: u64| pow_ok(#[trigger] r.hash_with_nonce(n)))
                && first_tx_error(transactions@) is Ok,
            r.verify_spec() is Err ==> r.verify_spec() == Err::<(), BlockchainError>(BlockchainError::InvalidProofOfWork)
                || r.verify_spec() == first_tx_error(transactions@),
    {
        let merkle_root = compute_merkle_root(&transactions);
        let mut block = Block { previous_hash, merkle_root, nonce: 0, timestamp, transactions, hash: [0u8; 32] };
        let ghost start = block;
        block.mine();
        proof {
            assert forall|n: u64| n < block.nonce implies !pow_ok(#[trigger] block.hash_with_nonce(n)) by {
                assert(block.hash_with_nonce(n) == start.hash_with_nonce(n));
            }
            assert(block.hash@ == block.hash_with_nonce(block.nonce));
            if !pow_ok(block.hash@) {
                assert forall|n: u64| !pow_ok(#[trigger] block.hash_with_nonce(n)) by {
                    if n == block.nonce {
                    } else {
                        assert(n < block.nonce);
                    }
                }
            }
        }
        block
    }

    /// Searches nonces upward from the current one until the hash has `DIFFICULTY`
    /// leading zero bytes; the hash field then holds that hash. Returns false only if
    /// the nonces ran out.
    pub fn mine(&mut self) -> (found: bool)
        ensures
            final(self).previous_hash == old(self).previous_hash,
            final(self).merkle_root == old(self).merkle_root,
            final(self).timestamp == old(self).timestamp,
            final(self).transactions@ == old(self).transactions@,
            final(self).nonce >= old(self).nonce,
            final(self).hash@ == final(self).hash_of(),
            found == pow_ok(final(self).hash@),
            !found ==> final(self).nonce == u64::MAX,
            forall|n: u64| old(self).nonce <= n < final(self).nonce ==> !pow_ok(#[trigger] old(self).hash_with_nonce(n)),
    {
        loop
            invariant
                self.previous_hash == old(self).previous_hash,
                self.merkle_root == old(self).merkle_root,
                self.timestamp == old(self).timestamp,
                self.transactions@ == old(self).transactions@,
                self.nonce >= old(self).nonce,
                forall|n: u64| old(self).nonce <= n < self.nonce ==> !pow_ok(#[trigger] old(self).hash_with_nonce(n)),
            decreases u64::MAX - self.nonce,
        {
            self.hash = self.calculate_hash();
            proof {
                assert(self.hash@ == old(self).hash_with_nonce(self.nonce));
            }
            if hash_has_proof(&self.hash) {
                return true;
            }
            if self.nonce == u64::MAX {
                return false;
            }
            self.nonce = self.nonce + 1;
        }
    }

    fn encode_header(&self) -> (r: Vec<u8>)
        ensures
            r@ == self.header(),
    {
        let mut bytes: Vec<u8> = Vec::new();
        push_bytes(&mut bytes, self.previous_hash.as_slice());
        push_bytes(&mut bytes, self.merkle_root.as_slice());
        push_u64_le(&mut bytes, self.nonce);
        push_u64_le(&mut bytes, self.timestamp as u64);
        push_u64_le(&mut bytes, self.transactions.len() as u64);
        let ghost head = bytes@;
        let mut i: usize = 0;
        while i < self.transactions.len()
            invariant
                i <= self.transactions@.len(),
                bytes@ == head + txs_bytes(self.transactions@.take(i as int)),
            decreases self.transactions@.len() - i,
        {
            push_transaction(&mut bytes, &self.transactions[i]);
            proof {
                assert(self.transactions@.take(i + 1).drop_last() =~= self.transactions@.take(i as int));
            }
            i = i + 1;
            proof {
                assert(bytes@ =~= head + txs_bytes(self.transactions@.take(i as int)));
            }
        }
        assert(self.transactions@.take(i as int) =~= self.transactions@);
        assert(bytes@ =~= self.header());
        bytes
    }

    /// SHA-256 of the canonical encoding.
    pub fn calculate_hash(&self) -> (r: [u8; 32])
        ensures
            r@ == self.hash_of(),
    {
        let bytes = self.encode_header();
        hash(bytes.as_slice())
    }

    fn is_valid_proof(&self) -> (r: bool)
        ensures
            r == pow_ok(self.hash_of()),
    {
        let h = self.calculate_hash();
        hash_has_proof(&h)
    }

    /// Checks the proof of work, the stored hash, then each transaction in order.
    pub fn verify(&self) -> (r: Result<(), BlockchainError>)
        ensures
            r == self.verify_spec(),
    {
        if !self.is_valid_proof() {
            return Err(BlockchainError::InvalidProofOfWork);
        }
        let h = self.calculate_hash();
        if !bytes32_eq(&self.hash, &h) {
            return Err(BlockchainError::InvalidHash);
        }
        let n = self.transactions.len();
        let mut i: usize = 0;
        assert(self.transactions@.subrange(0, n as int) =~= self.transactions@);
        while i < n
            invariant
                n == self.transactions@.len(),
                i <= n,
                pow_ok(self.hash_of()),
                self.hash@ == self.hash_of(),
                first_tx_error(self.transactions@) == first_tx_error(self.transactions@.subrange(i as int, n as int)),
            decreases n - i,
        {
            proof {
                lemma_first_tx_error_step(self.transactions@, i as int);
            }
            let result = self.transactions[i].verify();
            if result.is_err() {
                return result;
            }
            i = i + 1;
        }
        proof {
            assert(self.transactions@.subrange(n as int, n as int) =~= Seq::<Transaction>::empty());
        }
        Ok(())
    }
}

/// Whether a hash starts with `DIFFICULTY` zero bytes.
pub fn hash_has_proof(h: &[u8; 32]) -> (r: bool)
    ensures
        r == pow_ok(h@),
{
    let mut i: usize = 0;
    while i < DIFFICULTY
        invariant
            i <= DIFFICULTY,
            h@.len() == 32,
            forall|k: int| 0 <= k < i ==> h@[k] == 0,
        decreases DIFFICULTY - i,
    {
        if h[i] != 0 {
            return false;
        }
        i = i + 1;
    }
    true
}

} // verus!
