use smvblock::blockchain::Blockchain;
use smvblock::crypto::{generate_keypair, public_key_to_address};
use smvblock::state::State;
use smvblock::transaction::{Transaction, ValidationLevel};
use smvblock::BlockchainError;

#[test]
fn block_with_insufficient_balance_transaction() {
    let pikachu_keypair = generate_keypair();
    let geodude_keypair = generate_keypair();
    let geodude_address = public_key_to_address(&geodude_keypair.verifying_key);

    let mut blockchain = Blockchain::new();
    println!("geodudea");

    let tx = Transaction::new(&pikachu_keypair, geodude_address, 50, 1);

    assert!(blockchain.add_transaction(tx).is_err());
}

#[test]
fn insufficient_balance_is_reported_and_blocks_unchanged() {
    let k = generate_keypair();
    let r = public_key_to_address(&generate_keypair().verifying_key);
    let mut blockchain = Blockchain::new();
    let tx = Transaction::new(&k, r, 50, 1);
    assert_eq!(blockchain.add_transaction(tx), Err(BlockchainError::InsufficientBalance));
    assert_eq!(blockchain.blocks.len(), 1);
    assert!(blockchain.pending_transactions.is_empty());
}

#[test]
fn chain_growth_with_valid_blocks() {
    let mut blockchain = Blockchain::new();
    let pikachu_keypair = generate_keypair();
    let geodude_keypair = generate_keypair();
    let geodude_address = public_key_to_address(&geodude_keypair.verifying_key);

    blockchain
        .state
        .set_balance(&public_key_to_address(&pikachu_keypair.verifying_key), 1000);

    let tx = Transaction::new(&pikachu_keypair, geodude_address, 10, 1);
    blockchain.add_transaction(tx).unwrap();

    blockchain.mine_block().unwrap();
    assert!(blockchain.verify_chain().is_ok());
    assert_eq!(blockchain.blocks.len(), 2); // genesis + 1
}

#[test]
fn happy_path_mint_moves_balances() {
    let mut blockchain = Blockchain::new();
    let k = generate_keypair();
    let sender = public_key_to_address(&k.verifying_key);
    let r = public_key_to_address(&generate_keypair().verifying_key);
    blockchain.state.set_balance(&sender, 1000);
    let tx = Transaction::new(&k, r, 10, 1);
    assert_eq!(blockchain.add_transaction(tx), Ok(()));
    let block = blockchain.mine_block().unwrap();
    assert_eq!(blockchain.blocks.len(), 2);
    assert_eq!(block.previous_hash, blockchain.blocks[0].hash);
    assert_eq!(block.transactions.len(), 1);
    assert_eq!(&block.hash[..2], &[0u8, 0u8]);
    assert_eq!(blockchain.state.get_balance(&sender), 990);
    assert_eq!(blockchain.state.get_balance(&r), 10);
    assert_eq!(blockchain.state.get_nonce(&sender), 1);
    assert!(blockchain.pending_transactions.is_empty());
}

#[test]
fn reject_duplicate_transaction() {
    let mut blockchain = Blockchain::new();
    let pikachu_keypair = generate_keypair();
    let geodude_keypair = generate_keypair();
    let geodude_address = public_key_to_address(&geodude_keypair.verifying_key);

    blockchain
        .state
        .set_balance(&public_key_to_address(&pikachu_keypair.verifying_key), 1000);

    let tx = Transaction::new(&pikachu_keypair, geodude_address, 10, 1);

    blockchain.add_transaction(tx.clone()).unwrap();
    blockchain.mine_block().unwrap();

    assert!(blockchain.add_transaction(tx).is_err());
}

#[test]
fn replay_is_an_invalid_nonce() {
    let mut blockchain = Blockchain::new();
    let k = generate_keypair();
    let r = public_key_to_address(&generate_keypair().verifying_key);
    blockchain.state.set_balance(&public_key_to_address(&k.verifying_key), 1000);
    let tx = Transaction::new(&k, r, 10, 1);
    blockchain.add_transaction(tx).unwrap();
    blockchain.mine_block().unwrap();
    assert_eq!(blockchain.add_transaction(tx), Err(BlockchainError::InvalidNonce));
}

#[test]
fn nonces_must_follow_one_another() {
    let mut blockchain = Blockchain::new();
    let k = generate_keypair();
    let r = public_key_to_address(&generate_keypair().verifying_key);
    blockchain.state.set_balance(&public_key_to_address(&k.verifying_key), 1000);
    assert_eq!(blockchain.add_transaction(Transaction::new(&k, r, 1, 2)), Err(BlockchainError::InvalidNonce));
    assert_eq!(blockchain.add_transaction(Transaction::new(&k, r, 1, 1)), Ok(()));
    assert_eq!(blockchain.add_transaction(Transaction::new(&k, r, 1, 1)), Err(BlockchainError::InvalidNonce));
    assert_eq!(blockchain.add_transaction(Transaction::new(&k, r, 1, 3)), Err(BlockchainError::InvalidNonce));
    assert_eq!(blockchain.add_transaction(Transaction::new(&k, r, 1, 2)), Ok(()));
    assert_eq!(blockchain.pending_transactions.len(), 2);
}

#[test]
fn reject_transaction_with_invalid_signature() {
    let pikachu_keypair = generate_keypair();
    let geodude_keypair = generate_keypair();
    let geodude_address = public_key_to_address(&geodude_keypair.verifying_key);

    let mut tx = Transaction::new(&pikachu_keypair, geodude_address, 100, 1);

    tx.signature[0] ^= 0xFF;

    assert!(tx.verify().is_err());
}

#[test]
fn tampered_signature_is_invalid_signature() {
    let k = generate_keypair();
    let r = public_key_to_address(&generate_keypair().verifying_key);
    let mut tx = Transaction::new(&k, r, 100, 1);
    tx.signature[0] ^= 0xFF;
    assert_eq!(tx.verify(), Err(BlockchainError::InvalidSignature));
}

#[test]
fn tampered_fields_fail_verification() {
    let k = generate_keypair();
    let r = public_key_to_address(&generate_keypair().verifying_key);
    let tx = Transaction::new(&k, r, 100, 7);
    let mut t = tx;
    t.sender[3] ^= 0x01;
    assert_eq!(t.verify(), Err(BlockchainError::InvalidSenderAddress));
    let mut t = tx;
    t.receiver[0] ^= 0x80;
    assert_eq!(t.verify(), Err(BlockchainError::InvalidSignature));
    let mut t = tx;
    t.amount ^= 1;
    assert_eq!(t.verify(), Err(BlockchainError::InvalidSignature));
    let mut t = tx;
    t.nonce ^= 4;
    assert_eq!(t.verify(), Err(BlockchainError::InvalidSignature));
}

#[test]
fn sender_is_hash_of_public_key() {
    let k = generate_keypair();
    let r = public_key_to_address(&generate_keypair().verifying_key);
    let tx = Transaction::new(&k, r, 5, 1);
    assert_eq!(tx.sender, smvblock::crypto::hash(&tx.sender_public_key));
    assert_eq!(tx.sender_public_key, k.verifying_key);
    assert_ne!(tx.sender, tx.sender_public_key);
}

#[test]
fn transaction_hash_covers_the_canonical_message() {
    let k = generate_keypair();
    let r = [9u8; 32];
    let tx = Transaction::new(&k, r, 0x0102, 3);
    let mut message = Vec::new();
    message.extend_from_slice(&tx.sender);
    message.extend_from_slice(&r);
    message.extend_from_slice(&0x0102u64.to_le_bytes());
    message.extend_from_slice(&3u64.to_le_bytes());
    assert_eq!(tx.hash(), smvblock::crypto::hash(&message));
}

#[test]
fn create_and_verify_transaction() {
    let pikachu_keypair = generate_keypair();
    let geodude_keypair = generate_keypair();
    let geodude_address = public_key_to_address(&geodude_keypair.verifying_key);

    let tx = Transaction::new(&pikachu_keypair, geodude_address, 100, 1);

    assert!(tx.verify().is_ok());
    assert_eq!(tx.amount, 100);
    assert_eq!(tx.receiver, geodude_address);
    assert_eq!(tx.nonce, 1);
}

fn setup_transaction() -> (Transaction, State) {
    let sender_keypair = generate_keypair();
    let receiver_keypair = generate_keypair();
    let sender_address = public_key_to_address(&sender_keypair.verifying_key);
    let receiver_address = public_key_to_address(&receiver_keypair.verifying_key);

    let mut state = State::new();
    state.set_balance(&sender_address, 1000);
    state.set_nonce(&sender_address, 0);

    let transaction = Transaction::new(&sender_keypair, receiver_address, 500, 1);

    (transaction, state)
}

#[test]
fn test_light_validation_success() {
    let (transaction, _) = setup_transaction();
    assert!(transaction.validate(ValidationLevel::Light, None).is_ok());
}

#[test]
fn test_light_validation_invalid_signature() {
    let (mut transaction, _) = setup_transaction();
    // corrupt signature
    transaction.signature[0] = !transaction.signature[0];
    assert!(transaction.validate(ValidationLevel::Light, None).is_err());
}

#[test]
fn test_full_validation_success() {
    let (transaction, state) = setup_transaction();
    assert!(
        transaction
            .validate(ValidationLevel::Full, Some(&state))
            .is_ok()
    );
}

#[test]
fn test_full_validation_insufficient_balance() {
    let (transaction, mut state) = setup_transaction();
    let sender_address = transaction.sender;
    state.set_balance(&sender_address, 100);
    assert!(
        transaction
            .validate(ValidationLevel::Full, Some(&state))
            .is_err()
    );
}

#[test]
fn test_full_validation_invalid_nonce() {
    let (transaction, mut state) = setup_transaction();
    let sender_address = transaction.sender;
    state.set_nonce(&sender_address, 5);
    assert!(
        transaction
            .validate(ValidationLevel::Full, Some(&state))
            .is_err()
    );
}

#[test]
fn test_full_validation_without_state() {
    let (transaction, _) = setup_transaction();
    assert!(transaction.validate(ValidationLevel::Full, None).is_err());
}

#[test]
fn full_validation_errors_are_specific() {
    let (transaction, mut state) = setup_transaction();
    let sender = transaction.sender;
    state.set_nonce(&sender, 5);
    assert_eq!(transaction.validate(ValidationLevel::Full, Some(&state)), Err(BlockchainError::InvalidNonce));
    state.set_balance(&sender, 100);
    assert_eq!(transaction.validate(ValidationLevel::Full, Some(&state)), Err(BlockchainError::InsufficientBalance));
    assert!(matches!(
        transaction.validate(ValidationLevel::Full, None),
        Err(BlockchainError::StateError(_))
    ));
}

#[test]
fn state_apply_and_overflow() {
    let k = generate_keypair();
    let sender = public_key_to_address(&k.verifying_key);
    let r = [7u8; 32];
    let mut state = State::new();
    state.set_balance(&sender, 100);
    state.set_balance(&r, u64::MAX - 5);
    let tx = Transaction::new(&k, r, 10, 1);
    assert_eq!(state.apply_transaction(&tx), Err(BlockchainError::BalanceOverflow));
    assert_eq!(state.get_balance(&sender), 100);
    assert_eq!(state.get_nonce(&sender), 0);
    state.set_balance(&r, 5);
    assert_eq!(state.apply_transaction(&tx), Ok(()));
    assert_eq!(state.get_balance(&sender), 90);
    assert_eq!(state.get_balance(&r), 15);
    assert_eq!(state.get_nonce(&sender), 1);
    assert_eq!(state.get_balance(&[1u8; 32]), 0);
}

#[test]
fn self_transfer_keeps_balance() {
    let k = generate_keypair();
    let me = public_key_to_address(&k.verifying_key);
    let mut state = State::new();
    state.set_balance(&me, 50);
    let tx = Transaction::new(&k, me, 20, 1);
    assert_eq!(state.apply_transaction(&tx), Ok(()));
    assert_eq!(state.get_balance(&me), 50);
    assert_eq!(state.get_nonce(&me), 1);
}

#[test]
fn replaying_blocks_rebuilds_the_state() {
    let mut blockchain = Blockchain::new();
    let k = generate_keypair();
    let sender = public_key_to_address(&k.verifying_key);
    let r = public_key_to_address(&generate_keypair().verifying_key);
    blockchain.state.set_balance(&sender, 1000);
    blockchain.add_transaction(Transaction::new(&k, r, 10, 1)).unwrap();
    blockchain.mine_block().unwrap();
    // the replayed state starts empty, so the sender cannot pay
    let blocks: Vec<_> = blockchain.blocks.iter().cloned().collect();
    assert_eq!(Blockchain::from_blocks(blocks).err(), Some(BlockchainError::InsufficientBalance));
    // a chain of empty blocks replays to an empty state
    let genesis = Blockchain::new();
    let rebuilt = Blockchain::from_blocks(genesis.blocks.iter().cloned().collect()).unwrap();
    assert_eq!(rebuilt.blocks.len(), 1);
    assert!(rebuilt.pending_transactions.is_empty());
    assert_eq!(rebuilt.state.get_balance(&sender), 0);
    assert!(rebuilt.verify_chain().is_ok());
}

#[test]
fn transfer_signs_into_a_valid_transaction() {
    let k = generate_keypair();
    let t = smvblock::transaction::Transfer { receiver: [8u8; 32], amount: 3, nonce: 1 }.into_transaction(&k);
    assert_eq!(t.verify(), Ok(()));
    assert_eq!(t.receiver, [8u8; 32]);
    assert_eq!(t.amount, 3);
}

#[test]
fn broken_link_fails_chain_verification() {
    let mut blockchain = Blockchain::new();
    blockchain.mine_block().unwrap();
    blockchain.blocks[1].previous_hash[0] ^= 1;
    assert!(blockchain.verify_chain().is_err());
}

#[test]
fn transfer_to_oneself_is_refused_by_the_ledger() {
    let mut blockchain = Blockchain::new();
    let k = generate_keypair();
    let me = public_key_to_address(&k.verifying_key);
    blockchain.state.set_balance(&me, 100);
    let tx = Transaction::new(&k, me, 10, 1);
    assert_eq!(blockchain.add_transaction(tx), Err(BlockchainError::SenderIsReceiver));
    assert!(blockchain.pending_transactions.is_empty());
    assert_eq!(blockchain.state.get_nonce(&me), 0);
    assert_eq!(blockchain.state.get_balance(&me), 100);
}

#[test]
fn mining_at_a_given_time_is_deterministic() {
    let k = generate_keypair();
    let r = public_key_to_address(&generate_keypair().verifying_key);
    let sender = public_key_to_address(&k.verifying_key);
    let tx = Transaction::new(&k, r, 10, 1);
    let mut a = Blockchain::new();
    let mut b = Blockchain { blocks: a.blocks.clone(), state: smvblock::state::State::new(), pending_transactions: Vec::new() };
    a.state.set_balance(&sender, 50);
    b.state.set_balance(&sender, 50);
    a.add_transaction(tx).unwrap();
    b.add_transaction(tx).unwrap();
    let x = a.mine_block_at(1_700_000_000).unwrap();
    let y = b.mine_block_at(1_700_000_000).unwrap();
    assert_eq!(x.hash, y.hash);
    assert_eq!(x.nonce, y.nonce);
    assert_eq!(x.timestamp, 1_700_000_000);
    assert_eq!(x.previous_hash, a.blocks[0].hash);
    assert_eq!(a.blocks.len(), 2);
    assert!(a.verify_chain().is_ok());
}

#[test]
fn mining_a_bad_queue_fails_and_keeps_it() {
    let mut blockchain = Blockchain::new();
    let k = generate_keypair();
    let mut tx = Transaction::new(&k, [1u8; 32], 0, 1);
    tx.signature[0] ^= 1;
    blockchain.pending_transactions.push(tx);
    assert_eq!(blockchain.mine_block_at(5).err(), Some(BlockchainError::InvalidSignature));
    assert_eq!(blockchain.blocks.len(), 1);
    assert_eq!(blockchain.pending_transactions.len(), 1);
}
