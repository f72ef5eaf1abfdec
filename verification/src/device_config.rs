use vstd::prelude::*;

use crate::protocol::{is_uuid_v4_text, new_message_id};

verus! {

/// A paired peer — someone we have established a MeshGuard session with.
#[derive(Debug, Clone)]
pub struct PeerConfig {
    pub id: String,
    pub device_name: String,
    pub node_num: u32,
}

impl PeerConfig {
    /// A newly paired peer under a fresh random id.
    pub fn new_paired(device_name: String, node_num: u32) -> (r: PeerConfig)
        ensures
            r.device_name == device_name,
            r.node_num == node_num,
            is_uuid_v4_text(r.id@),
    {
        PeerConfig { id: new_message_id(), device_name, node_num }
    }
}

/// Persisted app configuration.
#[derive(Debug, Clone)]
pub struct AppConfig {
    /// BLE name or address of the device we last connected to (for auto-reconnect).
    pub last_ble_address: Option<String>,
    /// Name of our last connected device (for display and key derivation).
    pub last_device_name: Option<String>,
    /// Paired peers — each is a separate P2P conversation.
    pub peers: Vec<PeerConfig>,
}

impl Default for AppConfig {
    fn default() -> (r: Self)
        ensures
            r.last_ble_address is None,
            r.last_device_name is None,
            r.peers@.len() == 0,
    {
        AppConfig { last_ble_address: None, last_device_name: None, peers: Vec::new() }
    }
}

/// Keeps the peers with another node number than `node_num`.
pub open spec fn other_than(node_num: u32) -> spec_fn(PeerConfig) -> bool {
    |p: PeerConfig| p.node_num != node_num
}

/// No two saved peers share a node number.
pub open spec fn unique_node_nums(peers: Seq<PeerConfig>) -> bool {
    forall|i: int, j: int|
        0 <= i < j < peers.len() ==> #[trigger] peers[i].node_num != #[trigger] peers[j].node_num
}

proof fn lemma_filter_push(s: Seq<PeerConfig>, x: PeerConfig, node_num: u32)
    ensures
        s.push(x).filter(other_than(node_num)) == (if x.node_num != node_num {
            s.filter(other_than(node_num)).push(x)
        } else {
            s.filter(other_than(node_num))
        }),
{
    reveal_with_fuel(Seq::filter, 1);
    assert(s.push(x).drop_last() =~= s);
}

proof fn lemma_filter_keeps_unique(s: Seq<PeerConfig>, node_num: u32)
    requires
        unique_node_nums(s),
    ensures
        unique_node_nums(s.filter(other_than(node_num))),
        forall|i: int|
            0 <= i < s.filter(other_than(node_num)).len() ==> #[trigger] s.filter(
                other_than(node_num),
            )[i].node_num != node_num,
    decreases s.len(),
{
    reveal(Seq::filter);
    broadcast use Seq::lemma_filter_contains_rev;

    if s.len() > 0 {
        let rest = s.drop_last();
        assert(unique_node_nums(rest)) by {
            assert forall|i: int, j: int| 0 <= i < j < rest.len() implies #[trigger] rest[i].node_num
                != #[trigger] rest[j].node_num by {
                assert(rest[i] == s[i]);
                assert(rest[j] == s[j]);
            }
        }
        lemma_filter_keeps_unique(rest, node_num);
        let f = rest.filter(other_than(node_num));
        if s.last().node_num != node_num {
            assert forall|i: int| 0 <= i < f.len() implies #[trigger] f[i].node_num
                != s.last().node_num by {
                assert(rest.contains(f[i])) by {
                    rest.lemma_filter_contains_rev(other_than(node_num), f[i]);
                }
                let k = choose|k: int| 0 <= k < rest.len() && rest[k] == f[i];
                assert(s[k] == rest[k]);
            }
            let g = f.push(s.last());
            assert(s.filter(other_than(node_num)) == g);
            assert forall|i: int, j: int| 0 <= i < j < g.len() implies #[trigger] g[i].node_num
                != #[trigger] g[j].node_num by {
                if j == g.len() - 1 {
                    assert(g[i] == f[i]);
                } else {
                    assert(g[i] == f[i]);
                    assert(g[j] == f[j]);
                }
            }
        }
    }
}

impl AppConfig {
    /// Saves `peer`, replacing any saved peer with the same node number.
    pub fn upsert_peer(&mut self, peer: PeerConfig)
        ensures
            final(self).peers@ == old(self).peers@.filter(other_than(peer.node_num)).push(peer),
            final(self).last_ble_address == old(self).last_ble_address,
            final(self).last_device_name == old(self).last_device_name,
            unique_node_nums(old(self).peers@) ==> unique_node_nums(final(self).peers@),
    {
        let node_num = peer.node_num;
        self.remove_peer(node_num);
        proof {
            let f = old(self).peers@.filter(other_than(node_num));
            if unique_node_nums(old(self).peers@) {
                lemma_filter_keeps_unique(old(self).peers@, node_num);
                let g = f.push(peer);
                assert forall|i: int, j: int| 0 <= i < j < g.len() implies #[trigger] g[i].node_num
                    != #[trigger] g[j].node_num by {
                    assert(g[i] == f[i]);
                    if j < f.len() {
                        assert(g[j] == f[j]);
                    }
                }
            }
        }
        self.peers.push(peer);
    }

    /// Forgets the saved peer with node number `node_num`.
    pub fn remove_peer(&mut self, node_num: u32)
        ensures
            final(self).peers@ == old(self).peers@.filter(other_than(node_num)),
            final(self).last_ble_address == old(self).last_ble_address,
            final(self).last_device_name == old(self).last_device_name,
            unique_node_nums(old(self).peers@) ==> unique_node_nums(final(self).peers@),
            forall|i: int|
                0 <= i < final(self).peers@.len() ==> #[trigger] final(self).peers@[i].node_num
                    != node_num,
    {
        let ghost orig = self.peers@;
        let mut rest: Vec<PeerConfig> = Vec::new();
        std::mem::swap(&mut rest, &mut self.peers);
        let mut kept: Vec<PeerConfig> = Vec::new();
        let ghost mut done: int = 0;
        assert(orig.take(0).filter(other_than(node_num)) =~= Seq::<PeerConfig>::empty()) by {
            reveal(Seq::filter);
        }
        while rest.len() > 0
            invariant
                0 <= done <= orig.len(),
                rest@ == orig.skip(done),
                kept@ == orig.take(done).filter(other_than(node_num)),
            decreases rest@.len(),
        {
            assert(orig.skip(done)[0] == orig[done]);
            let p = rest.remove(0);
            proof {
                assert(orig.take(done + 1) =~= orig.take(done).push(p));
                lemma_filter_push(orig.take(done), p, node_num);
            }
            if p.node_num != node_num {
                kept.push(p);
            }
            proof {
                assert(rest@ =~= orig.skip(done + 1));
                done = done + 1;
            }
        }
        assert(orig.take(done) =~= orig);
        self.peers = kept;
        proof {
            broadcast use Seq::lemma_filter_pred;
            if unique_node_nums(orig) {
                lemma_filter_keeps_unique(orig, node_num);
            }
        }
    }

    /// Remembers the device we connected to and, when known, its name.
    pub fn record_connection(&mut self, ble_name: String, device_name: Option<String>)
        ensures
            final(self).last_ble_address == Some(ble_name),
            final(self).last_device_name == (if device_name is Some {
                device_name
            } else {
                old(self).last_device_name
            }),
            final(self).peers == old(self).peers,
    {
        self.last_ble_address = Some(ble_name);
        if device_name.is_some() {
            self.last_device_name = device_name;
        }
    }

    /// The device we last connected to (for auto-reconnect).
    pub fn last_connection(&self) -> (r: Option<String>)
        ensures
            match self.last_ble_address {
                Some(a) => r matches Some(b) && b@ == a@,
                None => r is None,
            },
    {
        match &self.last_ble_address {
            Some(a) => Some(a.clone()),
            None => None,
        }
    }
}

} // verus!
