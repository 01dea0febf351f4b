use serde_json::Value;
use smvblock::block::{compute_merkle_root, hash_has_proof, Block};
use smvblock::crypto::{generate_keypair, hash, public_key_to_address};
use smvblock::transaction::Transaction;
use smvblock::BlockchainError;

fn bytes_value(b: &[u8]) -> Value {
    Value::Array(b.iter().map(|x| Value::from(*x)).collect())
}

fn value_bytes<const N: usize>(v: &Value) -> [u8; N] {
    let items: Vec<u8> = v.as_array().unwrap().iter().map(|x| x.as_u64().unwrap() as u8).collect();
    items.try_into().unwrap()
}

fn tx_to_value(t: &Transaction) -> Value {
    let mut m = serde_json::Map::new();
    m.insert("sender".to_string(), bytes_value(&t.sender));
    m.insert("receiver".to_string(), bytes_value(&t.receiver));
    m.insert("amount".to_string(), Value::from(t.amount));
    m.insert("nonce".to_string(), Value::from(t.nonce));
    m.insert("signature".to_string(), bytes_value(&t.signature));
    m.insert("sender_public_key".to_string(), bytes_value(&t.sender_public_key));
    Value::Object(m)
}

fn tx_from_value(v: &Value) -> Transaction {
    Transaction {
        sender: value_bytes(&v["sender"]),
        receiver: value_bytes(&v["receiver"]),
        amount: v["amount"].as_u64().unwrap(),
        nonce: v["nonce"].as_u64().unwrap(),
        signature: value_bytes(&v["signature"]),
        sender_public_key: value_bytes(&v["sender_public_key"]),
    }
}

fn block_to_json(b: &Block) -> String {
    let mut m = serde_json::Map::new();
    m.insert("previous_hash".to_string(), bytes_value(&b.previous_hash));
    m.insert("merkle_root".to_string(), bytes_value(&b.merkle_root));
    m.insert("nonce".to_string(), Value::from(b.nonce));
    m.insert("timestamp".to_string(), Value::from(b.timestamp));
    m.insert("transactions".to_string(), Value::Array(b.transactions.iter().map(tx_to_value).collect()));
    m.insert("hash".to_string(), bytes_value(&b.hash));
    serde_json::to_string(&Value::Object(m)).unwrap()
}

fn block_from_json(s: &str) -> Block {
    let v: Value = serde_json::from_str(s).unwrap();
    Block {
        previous_hash: value_bytes(&v["previous_hash"]),
        merkle_root: value_bytes(&v["merkle_root"]),
        nonce: v["nonce"].as_u64().unwrap(),
        timestamp: v["timestamp"].as_i64().unwrap(),
        transactions: v["transactions"].as_array().unwrap().iter().map(tx_from_value).collect(),
        hash: value_bytes(&v["hash"]),
    }
}

#[test]
fn serialize_and_deserialize_block() {
    let pikachu_keypair = generate_keypair();
    let geodude_keypair = generate_keypair();
    let geodude_address = public_key_to_address(&geodude_keypair.verifying_key);

    let tx = Transaction::new(&pikachu_keypair, geodude_address, 100, 1);
    let block = Block::new(vec![tx], [0; 32]);

    let serialized = block_to_json(&block);
    let deserialized: Block = block_from_json(&serialized);

    assert_eq!(block.hash, deserialized.hash);
    assert_eq!(block.previous_hash, deserialized.previous_hash);
    assert_eq!(block.transactions.len(), deserialized.transactions.len());
    assert_eq!(deserialized.verify(), Ok(()));
}

#[test]
fn empty_merkle_root_is_hash_of_nothing() {
    assert_eq!(compute_merkle_root(&vec![]), hash(&[]));
}

#[test]
fn merkle_root_pairs_and_duplicates() {
    let k = generate_keypair();
    let txs: Vec<Transaction> = (1..=3).map(|n| Transaction::new(&k, [2u8; 32], 10, n)).collect();
    let h: Vec<[u8; 32]> = txs.iter().map(|t| t.hash()).collect();
    assert_eq!(compute_merkle_root(&txs[..1].to_vec()), h[0]);
    let pair = |a: &[u8; 32], b: &[u8; 32]| {
        let mut v = a.to_vec();
        v.extend_from_slice(b);
        hash(&v)
    };
    assert_eq!(compute_merkle_root(&txs[..2].to_vec()), pair(&h[0], &h[1]));
    let left = pair(&h[0], &h[1]);
    let right = pair(&h[2], &h[2]);
    assert_eq!(compute_merkle_root(&txs), pair(&left, &right));
}

#[test]
fn mined_block_has_proof_and_matching_hash() {
    let block = Block::with_timestamp(vec![], [5u8; 32], 1_700_000_000);
    assert!(hash_has_proof(&block.hash));
    assert_eq!(block.hash[0], 0);
    assert_eq!(block.hash[1], 0);
    assert_eq!(block.calculate_hash(), block.hash);
    assert_eq!(block.merkle_root, hash(&[]));
    assert_eq!(block.verify(), Ok(()));
}

#[test]
fn identical_fields_give_identical_hashes() {
    let a = Block::with_timestamp(vec![], [1u8; 32], 42);
    let b = Block::with_timestamp(vec![], [1u8; 32], 42);
    assert_eq!(a.hash, b.hash);
    assert_eq!(a.nonce, b.nonce);
    let c = Block::with_timestamp(vec![], [1u8; 32], 43);
    assert_eq!(Block { timestamp: 43, nonce: c.nonce, ..a.clone() }.calculate_hash(), c.hash);
}

#[test]
fn block_hash_covers_the_canonical_encoding() {
    let block = Block::with_timestamp(vec![], [3u8; 32], -2);
    let mut bytes = Vec::new();
    bytes.extend_from_slice(&block.previous_hash);
    bytes.extend_from_slice(&block.merkle_root);
    bytes.extend_from_slice(&block.nonce.to_le_bytes());
    bytes.extend_from_slice(&(-2i64).to_le_bytes());
    bytes.extend_from_slice(&0u64.to_le_bytes());
    assert_eq!(block.hash, hash(&bytes));
}

#[test]
fn tampered_block_is_rejected() {
    let mut block = Block::with_timestamp(vec![], [0u8; 32], 7);
    let good = block.hash;
    block.hash[31] ^= 1;
    assert_eq!(block.verify(), Err(BlockchainError::InvalidHash));
    block.hash = good;
    block.nonce = block.nonce.wrapping_add(1);
    while hash_has_proof(&block.calculate_hash()) {
        block.nonce += 1;
    }
    assert_eq!(block.verify(), Err(BlockchainError::InvalidProofOfWork));
}

#[test]
fn block_with_bad_transaction_is_rejected() {
    let k = generate_keypair();
    let mut tx = Transaction::new(&k, [4u8; 32], 1, 1);
    tx.signature[5] ^= 2;
    let block = Block::with_timestamp(vec![tx], [0u8; 32], 9);
    assert_eq!(block.verify(), Err(BlockchainError::InvalidSignature));
}
