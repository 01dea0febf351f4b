//! A small proof-of-stake ledger: signed transfers, mined blocks with Merkle roots,
//! an account state machine, validator selection, a peer table and the wire protocol.
use vstd::prelude::*;

pub mod block;
pub mod blockchain;
pub mod crypto;
pub mod encoding;
pub mod node;
pub mod peers;
pub mod protocol;
pub mod staking;
pub mod state;
pub mod transaction;

verus! {

/// The errors that the ledger reports.
#[derive(Debug, Clone, PartialEq, Eq)]
pub enum BlockchainError {
    InvalidSignature,
    InvalidHash,
    InsufficientBalance,
    InvalidNonce,
    InvalidProofOfWork,
    InvalidSenderAddress,
    /// A credit would take a balance past `u64::MAX`.
    BalanceOverflow,
    /// A transaction names the same account as sender and receiver.
    SenderIsReceiver,
    CryptoError(String),
    StateError(String),
}

/// The network a node belongs to.
#[derive(Debug, Clone, Copy, PartialEq, Eq, Structural)]
pub enum Network {
    Devnet,
    Mainnet,
}

impl Network {
    pub open spec fn name(&self) -> Seq<char> {
        match self {
            Network::Devnet => "devnet"@,
            Network::Mainnet => "mainnet"@,
        }
    }

    /// The lowercase name that peers announce in their handshake.
    pub fn as_str(&self) -> (r: &'static str)
        ensures
            r@ == self.name(),
    {
        match self {
            Network::Devnet => "devnet",
            Network::Mainnet => "mainnet",
        }
    }

    pub open spec fn genesis_text(&self) -> Seq<char> {
        match self {
            Network::Devnet => "000000devn000000000000000000000000000000000000000000000000000000"@,
            Network::Mainnet => "000000main000000000000000000000000000000000000000000000000000000"@,
        }
    }

    /// The fixed genesis marker of the network, as 64 hexadecimal-looking characters.
    pub fn genesis_hash(&self) -> (r: String)
        ensures
            r@ == self.genesis_text(),
    {
        match self {
            Network::Devnet => "000000devn000000000000000000000000000000000000000000000000000000".to_string(),
            Network::Mainnet => "000000main000000000000000000000000000000000000000000000000000000".to_string(),
        }
    }
}

/// Adds two amounts.
pub fn add(left: u64, right: u64) -> (r: u64)
    requires
        left + right <= u64::MAX,
    ensures
        r == left + right,
{
    left + right
}

} // verus!
