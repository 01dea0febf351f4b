use smvblock::crypto::generate_keypair;
use smvblock::staking::{StakeLedger, StakingError, User};
use smvblock::transaction::Transaction;

fn ledger_with(balances: &[u64]) -> (StakeLedger, Vec<(User, [u8; 32])>) {
    let mut ledger = StakeLedger::new();
    let mut users = Vec::new();
    for b in balances {
        let (u, k) = User::generate(*b);
        ledger.add_user(u).unwrap();
        users.push((u, k));
    }
    (ledger, users)
}

fn keypair_of(secret: [u8; 32]) -> smvblock::crypto::Keypair {
    smvblock::crypto::Keypair { signing_key: secret, verifying_key: smvblock::crypto::derive_public_key(&secret) }
}

#[test]
fn generated_user_address_is_hash_of_key() {
    let (u, k) = User::generate(100);
    assert_eq!(u.address, smvblock::crypto::hash(&u.public_key));
    assert_eq!(u.public_key, smvblock::crypto::derive_public_key(&k));
    assert_eq!(u.balance, 100);
    assert_eq!(u.stake, 0);
}

#[test]
fn stake_and_unstake_move_funds() {
    let (mut ledger, users) = ledger_with(&[100, 100]);
    let a = users[0].0.address;
    ledger.stake(a, 30).unwrap();
    let u = ledger.get_user(&a).unwrap();
    assert_eq!((u.balance, u.stake), (70, 30));
    assert_eq!(ledger.stake(a, 71), Err(StakingError::InsufficientBalance));
    assert_eq!(ledger.unstake(a, 31), Err(StakingError::InsufficientStake));
    ledger.unstake(a, 10).unwrap();
    let u = ledger.get_user(&a).unwrap();
    assert_eq!((u.balance, u.stake), (80, 20));
    assert_eq!(ledger.stake([9u8; 32], 1), Err(StakingError::UserNotFound));
    assert_eq!(ledger.get_users().len(), 2);
    assert_eq!(ledger.get_total_stake(), Some(20));
}

#[test]
fn duplicate_user_is_refused() {
    let (mut ledger, users) = ledger_with(&[5]);
    assert_eq!(ledger.add_user(users[0].0), Err(StakingError::UserExists));
}

#[test]
fn slash_saturates_at_zero() {
    let (mut ledger, users) = ledger_with(&[100]);
    let a = users[0].0.address;
    ledger.stake(a, 40).unwrap();
    ledger.slash_validator(a, 15).unwrap();
    assert_eq!(ledger.get_user(&a).unwrap().stake, 25);
    ledger.slash_validator(a, 1000).unwrap();
    assert_eq!(ledger.get_user(&a).unwrap().stake, 0);
    assert_eq!(ledger.slash_validator([1u8; 32], 1), Err(StakingError::UserNotFound));
}

#[test]
fn reward_is_stake_share_rounded_down() {
    let (mut ledger, users) = ledger_with(&[100, 100]);
    let a = users[0].0.address;
    let b = users[1].0.address;
    ledger.stake(a, 30).unwrap();
    assert_eq!(ledger.reward_validator(a), Ok(1));
    assert_eq!(ledger.get_user(&a).unwrap().balance, 71);
    ledger.stake(b, 20).unwrap();
    assert_eq!(ledger.reward_validator(a), Ok(0));
    assert_eq!(ledger.reward_validator([3u8; 32]), Err(StakingError::UserNotFound));
}

#[test]
fn no_stake_means_no_validator() {
    let (ledger, _) = ledger_with(&[100, 100]);
    assert_eq!(ledger.select_validator(), Err(StakingError::NoStake));
    let empty = StakeLedger::new();
    assert_eq!(empty.select_validator(), Err(StakingError::NoStake));
}

#[test]
fn validator_selection_follows_stake() {
    let (mut ledger, users) = ledger_with(&[100, 100, 100]);
    let a = users[0].0.address;
    let b = users[1].0.address;
    ledger.stake(a, 30).unwrap();
    ledger.stake(b, 10).unwrap();
    let n = 4000;
    let mut hits_a = 0;
    for _ in 0..n {
        let v = ledger.select_validator().unwrap();
        assert!(v == a || v == b);
        if v == a {
            hits_a += 1;
        }
    }
    let freq = hits_a as f64 / n as f64;
    assert!((freq - 0.75).abs() < 0.05, "frequency {}", freq);
}

#[test]
fn apply_block_is_all_or_nothing() {
    let (mut ledger, users) = ledger_with(&[100, 50]);
    let (a, ka) = users[0];
    let (b, _) = users[1];
    let t1 = Transaction::new(&keypair_of(ka), b.address, 60, 1);
    let t2 = Transaction::new(&keypair_of(ka), b.address, 60, 2);
    let block = smvblock::block::Block::with_timestamp(vec![t1, t2], [0u8; 32], 1);
    assert_eq!(ledger.apply_block(&block), Err(StakingError::TransferRejected));
    assert_eq!(ledger.get_user(&a.address).unwrap().balance, 100);
    let block = smvblock::block::Block::with_timestamp(vec![t1], [0u8; 32], 1);
    assert_eq!(ledger.apply_block(&block), Ok(()));
    assert_eq!(ledger.get_user(&a.address).unwrap().balance, 40);
    assert_eq!(ledger.get_user(&b.address).unwrap().balance, 110);
}

#[test]
fn produce_block_conserves_then_rewards() {
    let (mut ledger, users) = ledger_with(&[100, 100]);
    let (u1, k1) = users[0];
    let (u2, _) = users[1];
    ledger.stake(u1.address, 50).unwrap();
    let tx = Transaction::new(&keypair_of(k1), u2.address, 20, 1);
    ledger.submit_transaction(tx).unwrap();
    let hash = ledger.produce_block().unwrap();
    assert_ne!(hash, [0u8; 32]);
    assert_eq!(&hash[..2], &[0, 0]);
    assert_eq!(ledger.blocks.len(), 1);
    assert!(ledger.pending.is_empty());
    let all = ledger.get_users();
    let total: u64 = all.iter().map(|u| u.balance + u.stake).sum();
    assert_eq!(total, 200 + 1);
    assert_eq!(ledger.get_user(&u2.address).unwrap().balance, 120);
}

#[test]
fn test_produce_block_with_no_transactions() {
    let (mut ledger, users) = ledger_with(&[100]);
    ledger.stake(users[0].0.address, 50).unwrap();
    let first = ledger.produce_block().unwrap();
    let second = ledger.produce_block().unwrap();
    assert_ne!(first, [0u8; 32]);
    assert_eq!(ledger.blocks.len(), 2);
    assert_eq!(ledger.blocks[1].previous_hash, first);
    assert_eq!(ledger.blocks[1].hash, second);
}

#[test]
fn test_transaction_exceeding_balance_fails() {
    let (mut ledger, users) = ledger_with(&[100, 100]);
    let (u1, k1) = users[0];
    let (u2, _) = users[1];
    ledger.stake(u1.address, 80).unwrap();
    let too_much = Transaction::new(&keypair_of(k1), u2.address, 30, 1);
    assert_eq!(ledger.submit_transaction(too_much), Err(StakingError::InsufficientBalance));
    let ok = Transaction::new(&keypair_of(k1), u2.address, 15, 1);
    assert_eq!(ledger.submit_transaction(ok), Ok(()));
    let to_self = Transaction::new(&keypair_of(k1), u1.address, 1, 2);
    assert_eq!(ledger.submit_transaction(to_self), Err(StakingError::SameParty));
    let stranger = generate_keypair();
    let unknown = Transaction::new(&stranger, u2.address, 1, 1);
    assert_eq!(ledger.submit_transaction(unknown), Err(StakingError::UserNotFound));
    assert_eq!(ledger.pending.len(), 1);
}

#[test]
fn add_block_checks_block_and_proposer() {
    let (mut ledger, users) = ledger_with(&[100, 100]);
    let (u1, k1) = users[0];
    let (u2, _) = users[1];
    ledger.stake(u1.address, 50).unwrap();
    let mut bad = smvblock::block::Block::with_timestamp(vec![], [0u8; 32], 3);
    bad.hash[31] ^= 1;
    assert!(matches!(ledger.add_block(bad, u1.address), Err(StakingError::InvalidBlock(_))));
    let empty = smvblock::block::Block::with_timestamp(vec![], [0u8; 32], 3);
    assert_eq!(ledger.add_block(empty.clone(), [7u8; 32]), Err(StakingError::UserNotFound));
    let tx = Transaction::new(&keypair_of(k1), u2.address, 60, 1);
    let overdrawn = smvblock::block::Block::with_timestamp(vec![tx], [0u8; 32], 3);
    assert_eq!(ledger.add_block(overdrawn, u1.address), Err(StakingError::TransferRejected));
    assert!(ledger.blocks.is_empty());
    assert_eq!(ledger.add_block(empty.clone(), u1.address), Ok(empty.hash));
    assert_eq!(ledger.blocks.len(), 1);
    let u = ledger.get_user(&u1.address).unwrap();
    assert_eq!((u.balance, u.stake), (51, 50));
}

#[test]
fn produce_block_errors_before_mining() {
    let (mut ledger, _) = ledger_with(&[100]);
    assert_eq!(ledger.produce_block(), Err(StakingError::NoStake));
    assert!(ledger.blocks.is_empty());
}

#[test]
fn reward_with_overflowing_balance_is_refused() {
    let (mut ledger, users) = ledger_with(&[u64::MAX]);
    let a = users[0].0.address;
    ledger.stake(a, 10).unwrap();
    ledger.credit(a, 10).unwrap();
    assert_eq!(ledger.reward_validator(a), Err(StakingError::Overflow));
    assert_eq!(ledger.get_user(&a).unwrap().balance, u64::MAX);
}
