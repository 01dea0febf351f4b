//! The request/response messages that nodes and clients exchange, and what a node
//! does with each request it receives.
use vstd::prelude::*;

use crate::blockchain::Blockchain;
use crate::node::NodeType;
use crate::peers::{peer_position, PeerEntry, PeerTable};
use crate::transaction::Transaction;
use crate::{BlockchainError, Network};

verus! {

/// A message of the wire protocol; on the wire each is one JSON object on one line,
/// tagged by its variant name.
#[derive(Debug)]
pub enum Message {
    Hello { address: String, node_type: NodeType, network: String },
    HelloResponse { node_type: String },
    GetStatus,
    Status { head_hash: String, height: u64 },
    GetPeers,
    Peers { peers: Vec<String> },
    SendTransaction { transaction: Transaction },
    TransactionResponse { result: Result<String, String> },
}

/// The replies that a client expects.
#[derive(Debug)]
pub enum ResponseMessage {
    Status { head_hash: String, height: u64 },
    TransactionResponse { hash: String },
    Peers { peers: Vec<String> },
    HelloResponse { node_type: String },
}

/// The status of a node as a client sees it.
#[derive(Debug)]
pub struct NodeStatus {
    pub head_hash: String,
    pub height: u64,
}

impl ResponseMessage {
    /// The node status that a `Status` reply carries.
    pub fn into_status(self) -> (r: Option<NodeStatus>)
        ensures
            match self {
                ResponseMessage::Status { head_hash, height } => (r matches Some(s) && s.head_hash == head_hash && s.height == height),
                _ => r is None,
            },
    {
        match self {
            ResponseMessage::Status { head_hash, height } => Some(NodeStatus { head_hash, height }),
            _ => None,
        }
    }
}

/// A lowercase hexadecimal digit.
pub open spec fn hex_digit(n: u8) -> char {
    "0123456789abcdef"@[n as int]
}

/// Two lowercase hexadecimal digits per byte, high nibble first.
pub open spec fn hex_text(b: Seq<u8>) -> Seq<char>
    decreases b.len(),
{
    if b.len() == 0 {
        Seq::empty()
    } else {
        hex_text(b.drop_last()) + seq![hex_digit(b.last() / 16), hex_digit(b.last() % 16)]
    }
}

/// Relies on hex::encode: two lowercase digits per byte, high nibble first.
#[verifier::external_body]
fn hex_encode(b: &[u8]) -> (r: String)
    ensures
        r@ == hex_text(b@),
{
    hex::encode(b)
}

/// Lowercase hexadecimal text of 32 bytes.
pub fn to_hex(b: &[u8; 32]) -> (r: String)
    ensures
        r@ == hex_text(b@),
{
    hex_encode(b.as_slice())
}

/// The text that tells a client why its transaction was refused.
pub open spec fn reason_text(e: BlockchainError) -> Seq<char> {
    match e {
        BlockchainError::InvalidSignature => "Invalid signature"@,
        BlockchainError::InvalidHash => "Invalid hash"@,
        BlockchainError::InsufficientBalance => "Insufficient balance"@,
        BlockchainError::InvalidNonce => "Invalid nonce"@,
        BlockchainError::InvalidProofOfWork => "Invalid proof of work"@,
        BlockchainError::InvalidSenderAddress => "Invalid sender address"@,
        BlockchainError::BalanceOverflow => "Balance overflow"@,
        BlockchainError::SenderIsReceiver => "Sender and receiver are the same"@,
        BlockchainError::CryptoError(s) => s@,
        BlockchainError::StateError(s) => s@,
    }
}

impl BlockchainError {
    /// A short description of the error.
    pub fn reason(&self) -> (r: String)
        ensures
            r@ == reason_text(*self),
    {
        match self {
            BlockchainError::InvalidSignature => "Invalid signature".to_string(),
            BlockchainError::InvalidHash => "Invalid hash".to_string(),
            BlockchainError::InsufficientBalance => "Insufficient balance".to_string(),
            BlockchainError::InvalidNonce => "Invalid nonce".to_string(),
            BlockchainError::InvalidProofOfWork => "Invalid proof of work".to_string(),
            BlockchainError::InvalidSenderAddress => "Invalid sender address".to_string(),
            BlockchainError::BalanceOverflow => "Balance overflow".to_string(),
            BlockchainError::SenderIsReceiver => "Sender and receiver are the same".to_string(),
            BlockchainError::CryptoError(s) => s.clone(),
            BlockchainError::StateError(s) => s.clone(),
        }
    }
}

/// What the connection should do after a request.
#[derive(Debug)]
pub enum Action {
    /// Write this reply and read the next request.
    Reply(Message),
    /// Close the connection.
    Close,
    /// Read the next request.
    Continue,
}

/// The state that a node's connections share: its network and role, its ledger and
/// its peer table.
pub struct Server {
    pub network: Network,
    pub node_type: NodeType,
    pub ledger: Blockchain,
    pub peers: PeerTable,
}

impl Server {
    pub open spec fn wf(&self) -> bool {
        self.ledger.state.wf() && self.ledger.blocks@.len() > 0
    }

    /// A node on `network` in role `node_type` with a fresh ledger and no peers.
    pub fn new(network: Network, node_type: NodeType) -> (r: Self)
        ensures
            r.wf(),
            r.network == network,
            r.node_type == node_type,
            r.ledger.blocks@.len() == 1,
            r.peers.entries@.len() == 0,
    {
        Server { network, node_type, ledger: Blockchain::new(), peers: PeerTable::new() }
    }

    /// Answers a handshake from `remote` at time `now`. A peer on another network is
    /// refused and the connection closed; otherwise the peer is recorded as seen.
    pub fn hello(&mut self, node_type: NodeType, network: &String, remote: String, now: u64) -> (r: Action)
        ensures
            network@ != old(self).network.name() ==> (r is Close && final(self).peers.entries@ == old(self).peers.entries@),
            network@ == old(self).network.name() ==> {
                &&& (r matches Action::Reply(Message::HelloResponse { node_type: t }) && t@ == old(self).node_type.name_spec())
                &&& final(self).peers.entries@ == ({
                    let p = peer_position(old(self).peers.entries@, remote@);
                    let e = PeerEntry { addr: remote, role: node_type, last_seen: now };
                    if p >= 0 { old(self).peers.entries@.update(p, e) } else { old(self).peers.entries@.push(e) }
                })
            },
            final(self).ledger.blocks@ == old(self).ledger.blocks@,
            final(self).ledger.state == old(self).ledger.state,
            final(self).network == old(self).network,
            final(self).node_type == old(self).node_type,
    {
        let ours = self.network.as_str().to_string();
        if *network != ours {
            return Action::Close;
        }
        self.peers.insert(remote, node_type, now);
        Action::Reply(Message::HelloResponse { node_type: self.node_type.name().to_string() })
    }

    /// The head hash (lowercase hex of the last block's hash) and height (blocks after
    /// genesis).
    pub fn status(&self) -> (r: Message)
        requires
            self.wf(),
        ensures
            (r matches Message::Status { head_hash, height } && head_hash@ == hex_text(self.ledger.blocks@.last().hash@)
                && height == self.ledger.blocks@.len() - 1),
    {
        let n = self.ledger.blocks.len();
        Message::Status { head_hash: to_hex(&self.ledger.blocks[n - 1].hash), height: (n - 1) as u64 }
    }

    /// The addresses in the peer table.
    pub fn peer_list(&self) -> (r: Message)
        ensures
            (r matches Message::Peers { peers } && peers@.len() == self.peers.entries@.len()
                && forall|i: int| 0 <= i < peers@.len() ==> #[trigger] peers@[i]@ == self.peers.entries@[i].addr@),
    {
        Message::Peers { peers: self.peers.addresses() }
    }

    /// What `submit` does with `transaction`, replying `r`: the ledger's own rules
    /// decide (sender and receiver must differ, full validation, the state transition);
    /// an accepted transaction is queued and applied and its hash in hex is returned,
    /// a refused one leaves the ledger as it was and the reason is returned.
    pub open spec fn submit_effect(&self, next: &Server, transaction: Transaction, r: Message) -> bool {
        &&& next.network == self.network
        &&& next.node_type == self.node_type
        &&& next.ledger.blocks@ == self.ledger.blocks@
        &&& next.peers.entries@ == self.peers.entries@
        &&& match self.ledger.add_result(transaction) {
            Ok(_) => (r matches Message::TransactionResponse { result: Ok(h) } && h@ == hex_text(transaction.hash_spec())
                && next.ledger.pending_transactions@ == self.ledger.pending_transactions@.push(transaction)
                && self.ledger.state.applied(&next.ledger.state, transaction)),
            Err(e) => (r matches Message::TransactionResponse { result: Err(m) } && m@ == reason_text(e)
                && next.ledger.pending_transactions@ == self.ledger.pending_transactions@
                && next.ledger.state.same(&self.ledger.state)),
        }
    }

    /// Takes a signed transaction from a client and hands it to the ledger; the reply
    /// carries the transaction hash in hex, or the reason for refusal.
    pub fn submit(&mut self, transaction: Transaction) -> (r: Message)
        requires
            old(self).wf(),
        ensures
            final(self).wf(),
            old(self).submit_effect(&*final(self), transaction, r),
    {
        match self.ledger.add_transaction(transaction) {
            Ok(()) => {
                let h = transaction.hash();
                Message::TransactionResponse { result: Ok(to_hex(&h)) }
            },
            Err(e) => Message::TransactionResponse { result: Err(e.reason()) },
        }
    }

    /// Decides what to do with one request from `remote` at time `now`.
    pub fn handle(&mut self, message: Message, remote: String, now: u64) -> (r: Action)
        requires
            old(self).wf(),
        ensures
            final(self).wf(),
            final(self).network == old(self).network,
            match message {
                Message::Hello { network, node_type, .. } => (network@ != old(self).network.name() ==> (r is Close
                    && final(self).peers.entries@ == old(self).peers.entries@))
                    && (network@ == old(self).network.name() ==> ({
                    let p = peer_position(old(self).peers.entries@, remote@);
                    let e = PeerEntry { addr: remote, role: node_type, last_seen: now };
                    &&& (r matches Action::Reply(Message::HelloResponse { node_type: t }) && t@ == old(self).node_type.name_spec())
                    &&& final(self).peers.entries@ == if p >= 0 { old(self).peers.entries@.update(p, e) } else { old(self).peers.entries@.push(e) }
                })),
                Message::GetStatus => (r matches Action::Reply(Message::Status { head_hash, height })
                    && head_hash@ == hex_text(old(self).ledger.blocks@.last().hash@)
                    && height == old(self).ledger.blocks@.len() - 1) && *final(self) == *old(self),
                Message::GetPeers => (r matches Action::Reply(Message::Peers { peers })
                    && peers@.len() == old(self).peers.entries@.len()
                    && forall|i: int| 0 <= i < peers@.len() ==> #[trigger] peers@[i]@ == old(self).peers.entries@[i].addr@)
                    && *final(self) == *old(self),
                Message::SendTransaction { transaction } => (r matches Action::Reply(m)
                    && old(self).submit_effect(&*final(self), transaction, m)),
                _ => r is Continue && *final(self) == *old(self),
            },
    {
        match message {
            Message::Hello { address: _, node_type, network } => self.hello(node_type, &network, remote, now),
            Message::GetStatus => Action::Reply(self.status()),
            Message::GetPeers => Action::Reply(self.peer_list()),
            Message::SendTransaction { transaction } => Action::Reply(self.submit(transaction)),
            _ => Action::Continue,
        }
    }
}

} // verus!
