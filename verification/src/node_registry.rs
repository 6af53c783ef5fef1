//! Where each replica of the group can be reached.
use crate::keys::{lists_in_order, lookup, sorted_keys, store, take_out};
use std::collections::BTreeMap;
use vstd::prelude::*;

verus! {

/// The port on which replicas talk to each other.
pub const RAFT_PORT: u16 = 5000;

/// The addresses of the replicas, as `ip:port`, by replica id.
#[derive(Debug)]
pub struct NodeRegistry {
    pub nodes: BTreeMap<u64, String>,
}

impl View for NodeRegistry {
    type V = Map<u64, String>;

    open spec fn view(&self) -> Map<u64, String> {
        self.nodes@
    }
}

impl NodeRegistry {
    /// A registry that knows no replica.
    pub fn new() -> (r: Self)
        ensures
            r@ == Map::<u64, String>::empty(),
    {
        NodeRegistry { nodes: BTreeMap::new() }
    }

    /// Records the address of `node_id`, in place of an earlier one.
    pub fn register(&mut self, node_id: u64, addr: String)
        ensures
            final(self)@ == old(self)@.insert(node_id, addr),
    {
        store(&mut self.nodes, node_id, addr);
    }

    /// The address of `node_id`, if it is registered.
    pub fn get_address(&self, node_id: u64) -> (addr: Option<String>)
        ensures
            addr == (if self@.contains_key(node_id) {
                Some(self@[node_id])
            } else {
                None
            }),
    {
        match lookup(&self.nodes, node_id) {
            Some(addr) => Some(addr.clone()),
            None => None,
        }
    }

    /// Forgets `node_id` and hands out the address it had.
    pub fn unregister(&mut self, node_id: u64) -> (addr: Option<String>)
        ensures
            final(self)@ == old(self)@.remove(node_id),
            addr == (if old(self)@.contains_key(node_id) {
                Some(old(self)@[node_id])
            } else {
                None
            }),
    {
        take_out(&mut self.nodes, node_id)
    }

    /// Every registered replica with its address, in the order of the ids.
    pub fn get_all_nodes(&self) -> (all: Vec<(u64, String)>)
        ensures
            lists_in_order(all@.map_values(|pair: (u64, String)| pair.0), self@.dom()),
            forall|i: int| 0 <= i < all@.len() ==> (#[trigger] all@[i]).1 == self@[all@[i].0],
    {
        let ks = sorted_keys(&self.nodes);
        let ghost first = |pair: (u64, String)| pair.0;
        let mut all: Vec<(u64, String)> = Vec::new();
        let mut i: usize = 0;
        while i < ks.len()
            invariant
                i <= ks.len(),
                lists_in_order(ks@, self.nodes@.dom()),
                first == |pair: (u64, String)| pair.0,
                all@.map_values(first) == ks@.take(i as int),
                forall|j: int| 0 <= j < all@.len() ==> (#[trigger] all@[j]).1 == self@[all@[j].0],
            decreases ks.len() - i,
        {
            proof {
                assert(ks@.contains(ks@[i as int]));
            }
            if let Some(addr) = lookup(&self.nodes, ks[i]) {
                let ghost prev = all@;
                all.push((ks[i], addr.clone()));
                proof {
                    assert(all@.map_values(first) =~= prev.map_values(first).push(ks@[i as int]));
                    assert(ks@.take(i + 1) =~= ks@.take(i as int).push(ks@[i as int]));
                }
            }
            i += 1;
        }
        proof {
            assert(ks@.take(ks.len() as int) =~= ks@);
        }
        all
    }

    /// How many replicas are registered.
    pub fn len(&self) -> (n: usize)
        ensures
            n == self@.dom().len(),
    {
        proof {
            broadcast use vstd::std_specs::btree::group_btree_axioms;

        }
        self.nodes.len()
    }
}

impl Default for NodeRegistry {
    fn default() -> (r: Self)
        ensures
            r@ == Map::<u64, String>::empty(),
    {
        NodeRegistry::new()
    }
}

} // verus!
