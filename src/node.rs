//! Node roles, lifecycle states and configuration rules.
use vstd::prelude::*;

use crate::Network;

verus! {

/// What part a node plays in the network.
#[derive(Debug, Clone, Copy, PartialEq, Eq, Structural)]
pub enum NodeType {
    Seed,
    Normal,
    Shallow,
}

/// The lowercase form of a string, as `str::to_lowercase` gives it.
pub uninterp spec fn lower_of(s: Seq<char>) -> Seq<char>;

/// Relies on str::to_lowercase: the result depends on the characters alone.
#[verifier::external_body]
fn lowercase(s: &str) -> (r: String)
    ensures
        r@ == lower_of(s@),
{
    s.to_lowercase()
}

/// The role that a lowercase name stands for.
pub open spec fn role_named(name: Seq<char>) -> Option<NodeType> {
    if name == "seed"@ {
        Some(NodeType::Seed)
    } else if name == "normal"@ {
        Some(NodeType::Normal)
    } else if name == "shallow"@ {
        Some(NodeType::Shallow)
    } else {
        None
    }
}

impl NodeType {
    pub open spec fn name_spec(&self) -> Seq<char> {
        match self {
            NodeType::Seed => "seed"@,
            NodeType::Normal => "normal"@,
            NodeType::Shallow => "shallow"@,
        }
    }

    /// The lowercase name of the role.
    pub fn name(&self) -> (r: &'static str)
        ensures
            r@ == self.name_spec(),
    {
        match self {
            NodeType::Seed => "seed",
            NodeType::Normal => "normal",
            NodeType::Shallow => "shallow",
        }
    }

    /// The role whose name matches an already lowercased string.
    pub fn from_lowercase(name: &String) -> (r: Option<NodeType>)
        ensures
            r == role_named(name@),
    {
        proof {
            reveal_strlit("seed");
            reveal_strlit("normal");
            reveal_strlit("shallow");
        }
        if *name == "seed".to_string() {
            Some(NodeType::Seed)
        } else if *name == "normal".to_string() {
            Some(NodeType::Normal)
        } else if *name == "shallow".to_string() {
            Some(NodeType::Shallow)
        } else {
            None
        }
    }

    /// The role named by a string, in any letter case.
    pub fn parse(string: &str) -> (r: Option<NodeType>)
        ensures
            r == role_named(lower_of(string@)),
    {
        let lowered = lowercase(string);
        match Self::from_lowercase(&lowered) {
            Some(_) => Some(Self::evaluate(string.to_string())),
            None => None,
        }
    }

    /// The role named by a string, in any letter case; the name must be one of the
    /// three roles.
    pub fn evaluate(string: String) -> (r: NodeType)
        requires
            role_named(lower_of(string@)) is Some,
        ensures
            role_named(lower_of(string@)) == Some(r),
    {
        let lowered = lowercase(string.as_str());
        match Self::from_lowercase(&lowered) {
            Some(t) => t,
            None => NodeType::Shallow,
        }
    }
}

/// The lifecycle of a node: `Starting`, `Ready`, `Running`, or `Failed` with a reason.
#[derive(Debug, Clone, PartialEq, Eq)]
pub enum ReadyState {
    Starting,
    Ready,
    Running,
    Failed(String),
}

/// The states a node may move to from `s`: the next one in line, or `Failed` from any
/// state that has not failed yet.
pub open spec fn may_follow(s: ReadyState, t: ReadyState) -> bool {
    match (s, t) {
        (ReadyState::Failed(_), _) => false,
        (_, ReadyState::Failed(_)) => true,
        (ReadyState::Starting, ReadyState::Ready) => true,
        (ReadyState::Ready, ReadyState::Running) => true,
        _ => false,
    }
}

impl ReadyState {
    /// Whether `next` may follow this state.
    pub fn can_move_to(&self, next: &ReadyState) -> (r: bool)
        ensures
            r == may_follow(*self, *next),
    {
        match (self, next) {
            (ReadyState::Failed(_), _) => false,
            (_, ReadyState::Failed(_)) => true,
            (ReadyState::Starting, ReadyState::Ready) => true,
            (ReadyState::Ready, ReadyState::Running) => true,
            _ => false,
        }
    }
}

/// Why a node configuration is refused.
#[derive(Debug, Clone, Copy, PartialEq, Eq, Structural)]
pub enum ConfigError {
    /// A seed node was given a node to connect to.
    SeedWithConnect,
    /// A normal or shallow node was given no node to connect to.
    MissingConnect,
}

/// How a node is set up: its role, its listen address and seed (as `host:port`), and
/// its network.
#[derive(Debug, Clone)]
pub struct NodeConfig {
    pub node_type: NodeType,
    pub listen_addr: String,
    pub seed_addr: Option<String>,
    pub network: Network,
}

pub open spec fn default_seeds(network: Network) -> Seq<Seq<char>> {
    match network {
        Network::Devnet => seq!["127.0.0.1:8001"@, "127.0.0.1:8002"@, "127.0.0.1:8003"@],
        Network::Mainnet => seq!["127.0.0.1:4001"@, "127.0.0.1:4002"@, "127.0.0.1:4003"@],
    }
}

/// The well-known seed addresses of a network.
pub fn default_seed_nodes(network: &Network) -> (r: Vec<String>)
    ensures
        r@.len() == 3,
        forall|i: int| 0 <= i < 3 ==> #[trigger] r@[i]@ == default_seeds(*network)[i],
{
    let mut r: Vec<String> = Vec::new();
    match network {
        Network::Devnet => {
            r.push("127.0.0.1:8001".to_string());
            r.push("127.0.0.1:8002".to_string());
            r.push("127.0.0.1:8003".to_string());
        },
        Network::Mainnet => {
            r.push("127.0.0.1:4001".to_string());
            r.push("127.0.0.1:4002".to_string());
            r.push("127.0.0.1:4003".to_string());
        },
    }
    r
}

/// Seed nodes must not name a node to connect to; normal and shallow nodes must.
pub fn check_roles(node_type: NodeType, connect_to: &Option<String>) -> (r: Result<(), ConfigError>)
    ensures
        r == (match node_type {
            NodeType::Seed => if connect_to is Some { Err(ConfigError::SeedWithConnect) } else { Ok(()) },
            _ => if connect_to is None { Err(ConfigError::MissingConnect) } else { Ok(()) },
        }),
{
    match node_type {
        NodeType::Seed => if connect_to.is_some() { Err(ConfigError::SeedWithConnect) } else { Ok(()) },
        _ => if connect_to.is_none() { Err(ConfigError::MissingConnect) } else { Ok(()) },
    }
}

impl NodeConfig {
    /// A configuration; a seed without a listen address takes its network's first
    /// well-known seed address, any other node an ephemeral local port.
    pub fn new(node_type: NodeType, network: Network, listen_addr: Option<String>, connect_to: Option<String>) -> (r: Self)
        ensures
            r.node_type == node_type,
            r.network == network,
            r.seed_addr == connect_to,
            listen_addr matches Some(a) ==> r.listen_addr == a,
            listen_addr is None && node_type == NodeType::Seed ==> r.listen_addr@ == default_seeds(network)[0],
            listen_addr is None && node_type != NodeType::Seed ==> r.listen_addr@ == "127.0.0.1:0"@,
    {
        let listen = match listen_addr {
            Some(a) => a,
            None => match node_type {
                NodeType::Seed => {
                    let seeds = default_seed_nodes(&network);
                    seeds[0].clone()
                },
                _ => "127.0.0.1:0".to_string(),
            },
        };
        NodeConfig { node_type, listen_addr: listen, seed_addr: connect_to, network }
    }
}

} // verus!
