//! Signed transfers: construction, signature checks, hashing and validation.
use vstd::prelude::*;

use crate::crypto::{
    bytes32_eq, derive_public_key, hash, key_decodes, public_key_decodes, public_key_of,
    public_key_to_address, sha256, sign, signature_accepts, signature_of, verify, Address,
    Keypair,
};
use crate::encoding::{push_bytes, push_u64_le, u64_le};
use crate::state::State;
use crate::BlockchainError;

verus! {

/// A transfer of `amount` from `sender` to `receiver`, signed by the sender's key.
#[derive(Clone, Copy, Debug)]
pub struct Transaction {
    pub sender: Address,
    pub receiver: Address,
    pub amount: u64,
    pub nonce: u64,
    pub signature: [u8; 64],
    pub sender_public_key: [u8; 32],
}

/// An unsigned transfer: what a sender asks for before signing.
#[derive(Clone, Copy, Debug)]
pub struct Transfer {
    pub receiver: Address,
    pub amount: u64,
    pub nonce: u64,
}

impl Transfer {
    /// Signs the transfer with the sender's key.
    pub fn into_transaction(self, key: &Keypair) -> (r: Transaction)
        ensures
            r.sender_public_key@ == public_key_of(key.signing_key@),
            r.sender@ == sha256(r.sender_public_key@),
            r.receiver == self.receiver,
            r.amount == self.amount,
            r.nonce == self.nonce,
            r.verify_spec() == Ok::<(), BlockchainError>(()),
    {
        Transaction::new(key, self.receiver, self.amount, self.nonce)
    }
}

/// How much a validation checks: the signature alone, or also the sender's account.
#[derive(Clone, Copy, Debug, PartialEq, Eq, Structural)]
pub enum ValidationLevel {
    Light,
    Full,
}

/// The canonical message: sender, receiver, amount and nonce, integers little-endian.
pub open spec fn message_bytes(sender: Seq<u8>, receiver: Seq<u8>, amount: u64, nonce: u64) -> Seq<u8> {
    sender + receiver + u64_le(amount) + u64_le(nonce)
}

/// A transaction whose sender field no longer matches its public key fails
/// verification, whatever else it carries.
pub proof fn lemma_sender_tamper_detected(t: Transaction, u: Transaction)
    requires
        t.verify_spec() is Ok,
        u.sender_public_key == t.sender_public_key,
        u.sender@ != t.sender@,
    ensures
        u.verify_spec() is Err,
{
}

/// Changing the receiver, amount or nonce changes the signed message, so the stored
/// signature is then checked against a different message.
pub proof fn lemma_tamper_changes_message(t: Transaction, u: Transaction)
    requires
        u.sender == t.sender,
        u.receiver@ != t.receiver@ || u.amount != t.amount || u.nonce != t.nonce,
    ensures
        u.message() != t.message(),
{
    if u.message() == t.message() {
        assert(u.message().subrange(32, 64) =~= u.receiver@);
        assert(t.message().subrange(32, 64) =~= t.receiver@);
        assert(u.message().subrange(64, 72) =~= u64_le(u.amount));
        assert(t.message().subrange(64, 72) =~= u64_le(t.amount));
        assert(u.message().subrange(72, 80) =~= u64_le(u.nonce));
        assert(t.message().subrange(72, 80) =~= u64_le(t.nonce));
        lemma_u64_le_injective(u.amount, t.amount);
        lemma_u64_le_injective(u.nonce, t.nonce);
    }
}

proof fn lemma_u64_le_injective(a: u64, b: u64)
    requires
        u64_le(a) == u64_le(b),
    ensures
        a == b,
{
    assert(u64_le(a)[0] == u64_le(b)[0]);
    assert(u64_le(a)[1] == u64_le(b)[1]);
    assert(u64_le(a)[2] == u64_le(b)[2]);
    assert(u64_le(a)[3] == u64_le(b)[3]);
    assert(u64_le(a)[4] == u64_le(b)[4]);
    assert(u64_le(a)[5] == u64_le(b)[5]);
    assert(u64_le(a)[6] == u64_le(b)[6]);
    assert(u64_le(a)[7] == u64_le(b)[7]);
    assert(a == b) by (bit_vector)
        requires
            a as u8 == b as u8,
            (a >> 8u64) as u8 == (b >> 8u64) as u8,
            (a >> 16u64) as u8 == (b >> 16u64) as u8,
            (a >> 24u64) as u8 == (b >> 24u64) as u8,
            (a >> 32u64) as u8 == (b >> 32u64) as u8,
            (a >> 40u64) as u8 == (b >> 40u64) as u8,
            (a >> 48u64) as u8 == (b >> 48u64) as u8,
            (a >> 56u64) as u8 == (b >> 56u64) as u8,
    ;
}

impl Transaction {
    pub open spec fn message(&self) -> Seq<u8> {
        message_bytes(self.sender@, self.receiver@, self.amount, self.nonce)
    }

    /// The transaction hash: SHA-256 of the canonical message (no signature, no key).
    pub open spec fn hash_spec(&self) -> Seq<u8> {
        sha256(self.message())
    }

    /// The outcome of `verify`: the key must decode, hash to the sender, and accept
    /// the signature over the hash of the message.
    pub open spec fn verify_spec(&self) -> Result<(), BlockchainError> {
        if !key_decodes(self.sender_public_key@) {
            Err(BlockchainError::InvalidSignature)
        } else if sha256(self.sender_public_key@) != self.sender@ {
            Err(BlockchainError::InvalidSenderAddress)
        } else if signature_accepts(self.sender_public_key@, self.hash_spec(), self.signature@) {
            Ok(())
        } else {
            Err(BlockchainError::InvalidSignature)
        }
    }

    /// The outcome of a full validation against a state.
    pub open spec fn full_spec(&self, state: &State) -> Result<(), BlockchainError> {
        if self.verify_spec() is Err {
            self.verify_spec()
        } else if state.balance(self.sender@) < self.amount {
            Err(BlockchainError::InsufficientBalance)
        } else if !(state.nonce(self.sender@) < u64::MAX && self.nonce == state.nonce(self.sender@) + 1) {
            Err(BlockchainError::InvalidNonce)
        } else {
            Ok(())
        }
    }

    /// Builds and signs a transfer from the key pair's account.
    pub fn new(sender_keypair: &Keypair, receiver: Address, amount: u64, nonce: u64) -> (r: Self)
        ensures
            r.sender_public_key@ == public_key_of(sender_keypair.signing_key@),
            r.sender@ == sha256(r.sender_public_key@),
            r.receiver == receiver,
            r.amount == amount,
            r.nonce == nonce,
            r.signature@ == signature_of(sender_keypair.signing_key@, r.hash_spec()),
            r.verify_spec() == Ok::<(), BlockchainError>(()),
    {
        let public_key = derive_public_key(&sender_keypair.signing_key);
        let sender = public_key_to_address(&public_key);
        let message = Self::create_message(&sender, &receiver, amount, nonce);
        let message_hash = hash(message.as_slice());
        let signature = sign(sender_keypair, message_hash.as_slice());
        Transaction { sender, receiver, amount, nonce, signature, sender_public_key: public_key }
    }

    fn create_message(sender: &Address, receiver: &Address, amount: u64, nonce: u64) -> (r: Vec<u8>)
        ensures
            r@ == message_bytes(sender@, receiver@, amount, nonce),
    {
        let mut message: Vec<u8> = Vec::new();
        push_bytes(&mut message, sender.as_slice());
        push_bytes(&mut message, receiver.as_slice());
        push_u64_le(&mut message, amount);
        push_u64_le(&mut message, nonce);
        proof {
            assert(message@ =~= message_bytes(sender@, receiver@, amount, nonce));
        }
        message
    }

    /// Checks that the public key decodes, that it hashes to the sender, and that the
    /// signature covers the hash of the canonical message.
    pub fn verify(&self) -> (r: Result<(), BlockchainError>)
        ensures
            r == self.verify_spec(),
    {
        if !public_key_decodes(&self.sender_public_key) {
            return Err(BlockchainError::InvalidSignature);
        }
        let expected_sender = public_key_to_address(&self.sender_public_key);
        if !bytes32_eq(&expected_sender, &self.sender) {
            return Err(BlockchainError::InvalidSenderAddress);
        }
        let message = Self::create_message(&self.sender, &self.receiver, self.amount, self.nonce);
        let message_hash = hash(message.as_slice());
        verify(&self.sender_public_key, message_hash.as_slice(), &self.signature)
    }

    /// SHA-256 of the canonical message.
    pub fn hash(&self) -> (r: crate::crypto::Hash)
        ensures
            r@ == self.hash_spec(),
    {
        let bytes = Self::create_message(&self.sender, &self.receiver, self.amount, self.nonce);
        hash(bytes.as_slice())
    }

    /// Light validation checks the signature; full validation also checks the sender's
    /// balance and nonce in `state`, which it then needs.
    pub fn validate(&self, level: ValidationLevel, state: Option<&State>) -> (r: Result<(), BlockchainError>)
        requires
            state matches Some(s) ==> s.wf(),
        ensures
            level == ValidationLevel::Light ==> r == self.verify_spec(),
            level == ValidationLevel::Full ==> match state {
                Some(s) => r == self.full_spec(s),
                None => r matches Err(BlockchainError::StateError(_)),
            },
    {
        match level {
            ValidationLevel::Light => self.validate_light(),
            ValidationLevel::Full => match state {
                Some(s) => self.validate_full(s),
                None => Err(BlockchainError::StateError("State required for full validation".to_string())),
            },
        }
    }

    fn validate_light(&self) -> (r: Result<(), BlockchainError>)
        ensures
            r == self.verify_spec(),
    {
        self.verify()
    }

    fn validate_full(&self, state: &State) -> (r: Result<(), BlockchainError>)
        requires
            state.wf(),
        ensures
            r == self.full_spec(state),
    {
        self.validate_light()?;
        let sender_balance = state.get_balance(&self.sender);
        if sender_balance < self.amount {
            return Err(BlockchainError::InsufficientBalance);
        }
        let current_nonce = state.get_nonce(&self.sender);
        if current_nonce == u64::MAX || self.nonce != current_nonce + 1 {
            return Err(BlockchainError::InvalidNonce);
        }
        Ok(())
    }
}

} // verus!
