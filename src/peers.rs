//! The peer table: known peers by address, with role and last-seen time, and the
//! sweep that forgets peers not heard from for `PEER_TIMEOUT` seconds.
use vstd::prelude::*;

use crate::node::NodeType;

verus! {

/// Seconds after its last sighting at which a peer is forgotten.
pub const PEER_TIMEOUT: u64 = 300;

/// Seconds between two sweeps.
pub const SWEEP_INTERVAL: u64 = 60;

/// A known peer: its address as `host:port`, its role, and when it was last seen
/// (seconds on a monotonic clock).
#[derive(Debug)]
pub struct PeerEntry {
    pub addr: String,
    pub role: NodeType,
    pub last_seen: u64,
}

/// Whether a peer seen at `e.last_seen` is still kept at time `now`.
pub open spec fn fresh(e: PeerEntry, now: u64) -> bool {
    now < e.last_seen + PEER_TIMEOUT
}

/// The entries that are still fresh at `now`, in order.
pub open spec fn fresh_only(s: Seq<PeerEntry>, now: u64) -> Seq<PeerEntry>
    decreases s.len(),
{
    if s.len() == 0 {
        Seq::empty()
    } else if fresh(s.last(), now) {
        fresh_only(s.drop_last(), now).push(s.last())
    } else {
        fresh_only(s.drop_last(), now)
    }
}

/// Index of the last entry for `addr`, or -1.
pub open spec fn peer_position(s: Seq<PeerEntry>, addr: Seq<char>) -> int
    decreases s.len(),
{
    if s.len() == 0 {
        -1
    } else if s.last().addr@ == addr {
        s.len() - 1
    } else {
        peer_position(s.drop_last(), addr)
    }
}

/// A sweep at `now` keeps exactly the entries seen less than `PEER_TIMEOUT` seconds
/// before `now`: an entry last seen at `t0` is gone at the first sweep at or after
/// `t0 + PEER_TIMEOUT`, and kept by every sweep before.
pub proof fn lemma_sweep_keeps_fresh(s: Seq<PeerEntry>, now: u64, e: PeerEntry)
    ensures
        fresh_only(s, now).contains(e) <==> s.contains(e) && fresh(e, now),
    decreases s.len(),
{
    if s.len() > 0 {
        let d = s.drop_last();
        lemma_sweep_keeps_fresh(d, now, e);
        assert(s =~= d.push(s.last()));
        if s.contains(e) && e != s.last() {
            let i = choose|i: int| 0 <= i < s.len() && s[i] == e;
            assert(d[i] == e);
        }
        if fresh(s.last(), now) {
            let f = fresh_only(d, now);
            assert(f.push(s.last()).last() == s.last());
            if f.push(s.last()).contains(e) && e != s.last() {
                let i = choose|i: int| 0 <= i < f.push(s.last()).len() && f.push(s.last())[i] == e;
                assert(f[i] == e);
            }
            if f.contains(e) {
                let i = choose|i: int| 0 <= i < f.len() && f[i] == e;
                assert(f.push(s.last())[i] == e);
            }
        }
        if d.contains(e) {
            let i = choose|i: int| 0 <= i < d.len() && d[i] == e;
            assert(s[i] == e);
        }
    }
}

proof fn lemma_peer_position_at(s: Seq<PeerEntry>, k: int, addr: Seq<char>)
    requires
        0 <= k < s.len(),
        s[k].addr@ == addr,
        forall|j: int| k < j < s.len() ==> s[j].addr@ != addr,
    ensures
        peer_position(s, addr) == k,
    decreases s.len(),
{
    if k < s.len() - 1 {
        lemma_peer_position_at(s.drop_last(), k, addr);
    }
}

proof fn lemma_peer_position_absent(s: Seq<PeerEntry>, addr: Seq<char>)
    requires
        forall|j: int| 0 <= j < s.len() ==> s[j].addr@ != addr,
    ensures
        peer_position(s, addr) == -1,
    decreases s.len(),
{
    if s.len() > 0 {
        lemma_peer_position_absent(s.drop_last(), addr);
    }
}

fn copy_entry(e: &PeerEntry) -> (r: PeerEntry)
    ensures
        r == *e,
{
    PeerEntry { addr: e.addr.clone(), role: e.role, last_seen: e.last_seen }
}

/// The peers this node knows of.
#[derive(Debug)]
pub struct PeerTable {
    pub entries: Vec<PeerEntry>,
}

impl PeerTable {
    /// An empty table.
    pub fn new() -> (r: Self)
        ensures
            r.entries@.len() == 0,
    {
        PeerTable { entries: Vec::new() }
    }

    /// Records a sighting of `addr` at `now`: its entry is refreshed with the role, or
    /// a new entry is added at the end.
    pub fn insert(&mut self, addr: String, role: NodeType, now: u64)
        ensures
            ({
                let p = peer_position(old(self).entries@, addr@);
                let e = PeerEntry { addr: addr, role: role, last_seen: now };
                final(self).entries@ == if p >= 0 { old(self).entries@.update(p, e) } else { old(self).entries@.push(e) }
            }),
    {
        let mut i: usize = self.entries.len();
        while i > 0
            invariant
                i <= self.entries@.len(),
                self.entries@ == old(self).entries@,
                forall|j: int| i <= j < self.entries@.len() ==> self.entries@[j].addr@ != addr@,
            decreases i,
        {
            if self.entries[i - 1].addr == addr {
                proof {
                    lemma_peer_position_at(self.entries@, i - 1, addr@);
                }
                self.entries.set(i - 1, PeerEntry { addr, role, last_seen: now });
                return;
            }
            i = i - 1;
        }
        proof {
            lemma_peer_position_absent(self.entries@, addr@);
        }
        self.entries.push(PeerEntry { addr, role, last_seen: now });
    }

    /// Forgets the peers whose last sighting is `PEER_TIMEOUT` seconds or more before
    /// `now`; the others keep their order.
    pub fn sweep(&mut self, now: u64)
        ensures
            final(self).entries@ == fresh_only(old(self).entries@, now),
    {
        let mut kept: Vec<PeerEntry> = Vec::new();
        let mut i: usize = 0;
        while i < self.entries.len()
            invariant
                i <= self.entries@.len(),
                self.entries@ == old(self).entries@,
                kept@ == fresh_only(self.entries@.take(i as int), now),
            decreases self.entries@.len() - i,
        {
            proof {
                assert(self.entries@.take(i + 1).drop_last() =~= self.entries@.take(i as int));
            }
            let e = &self.entries[i];
            if (now as u128) < (e.last_seen as u128) + (PEER_TIMEOUT as u128) {
                kept.push(copy_entry(e));
            }
            i = i + 1;
        }
        proof {
            assert(self.entries@.take(i as int) =~= self.entries@);
        }
        self.entries = kept;
    }

    /// The addresses of the known peers, in table order.
    pub fn addresses(&self) -> (r: Vec<String>)
        ensures
            r@.len() == self.entries@.len(),
            forall|i: int| 0 <= i < r@.len() ==> #[trigger] r@[i]@ == self.entries@[i].addr@,
    {
        let mut r: Vec<String> = Vec::new();
        let mut i: usize = 0;
        while i < self.entries.len()
            invariant
                i <= self.entries@.len(),
                r@.len() == i,
                forall|j: int| 0 <= j < i ==> #[trigger] r@[j]@ == self.entries@[j].addr@,
            decreases self.entries@.len() - i,
        {
            r.push(self.entries[i].addr.clone());
            i = i + 1;
        }
        r
    }
}

} // verus!
