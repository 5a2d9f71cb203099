//! A ring of node identifiers, each kept with the hash it was given.

use std::collections::hash_map::DefaultHasher;
use std::collections::{HashMap, HashSet};
use std::hash::{Hash, Hasher};
use vstd::prelude::*;

use crate::text::{parse_u64, parse_u64_text, texts};

verus! {

/// `Hash::hash` for a `u64`: feeds the number to the hasher. What the
/// hasher then holds is left open.
#[verifier::external_body]
fn feed(state: &mut DefaultHasher, value: u64) {
    value.hash(state);
}

/// The node identifiers of a ring and the hash recorded for each.
pub struct HashRing {
    nodes: HashSet<u64>,
    hash_map: HashMap<u64, u64>,
}

impl HashRing {
    /// The identifiers on the ring.
    pub closed spec fn nodes(self) -> Set<u64> {
        self.nodes@
    }

    /// The hash recorded for each identifier.
    pub closed spec fn hashes(self) -> Map<u64, u64> {
        self.hash_map@
    }

    /// Whether a hash is recorded for exactly the identifiers on the ring.
    pub open spec fn wf(self) -> bool {
        self.hashes().dom() == self.nodes()
    }

    /// An empty ring.
    pub fn new() -> (ring: Self)
        ensures
            ring.nodes() == Set::<u64>::empty(),
            ring.hashes() == Map::<u64, u64>::empty(),
            ring.wf(),
    {
        let ring = HashRing { nodes: HashSet::new(), hash_map: HashMap::new() };
        assert(ring.hashes().dom() =~= ring.nodes());
        ring
    }

    /// The hash of a node identifier under the standard library's default hasher.
    fn calculate_hash(&self, node_id: u64) -> u64 {
        let mut hasher = DefaultHasher::new();
        feed(&mut hasher, node_id);
        hasher.finish()
    }

    /// Puts `node_id` on the ring and records `hash_value` for it, in place
    /// of any hash recorded for it before.
    pub fn add_node_with_hash(&mut self, node_id: u64, hash_value: u64)
        ensures
            final(self).nodes() == old(self).nodes().insert(node_id),
            final(self).hashes() == old(self).hashes().insert(node_id, hash_value),
            old(self).wf() ==> final(self).wf(),
    {
        broadcast use vstd::std_specs::hash::group_hash_axioms;

        self.nodes.insert(node_id);
        self.hash_map.insert(node_id, hash_value);
        assert(old(self).wf() ==> self.hashes().dom() =~= self.nodes());
    }

    /// Puts `node_id` on the ring with its hash, and gives that hash back.
    pub fn add_node(&mut self, node_id: u64) -> (hash_value: u64)
        ensures
            final(self).nodes() == old(self).nodes().insert(node_id),
            final(self).hashes() == old(self).hashes().insert(node_id, hash_value),
            old(self).wf() ==> final(self).wf(),
    {
        let hash_value = self.calculate_hash(node_id);
        self.add_node_with_hash(node_id, hash_value);
        hash_value
    }

    /// Takes `node_id` off the ring, with its hash. The result says whether
    /// it was on the ring.
    pub fn remove_node(&mut self, node_id: u64) -> (removed: bool)
        ensures
            removed == old(self).nodes().contains(node_id),
            final(self).nodes() == old(self).nodes().remove(node_id),
            removed ==> final(self).hashes() == old(self).hashes().remove(node_id),
            !removed ==> final(self).hashes() == old(self).hashes(),
            old(self).wf() ==> final(self).wf(),
    {
        broadcast use vstd::std_specs::hash::group_hash_axioms;

        let removed = self.nodes.remove(&node_id);
        if removed {
            self.hash_map.remove(&node_id);
        }
        assert(self.nodes() =~= old(self).nodes().remove(node_id));
        assert(old(self).wf() ==> self.hashes().dom() =~= self.nodes());
        removed
    }

    /// Adds the node identifier written on each line, in order. A line that
    /// is not a 64-bit decimal number adds nothing; the result holds those
    /// lines, in order.
    pub fn load_nodes(&mut self, lines: &Vec<String>) -> (rejected: Vec<String>)
        ensures
            final(self).nodes() == old(self).nodes().union(listed_nodes(lines@, lines@.len() as int)),
            texts(rejected@) == unlisted_lines(lines@, lines@.len() as int),
            old(self).wf() ==> final(self).wf(),
    {
        let mut rejected: Vec<String> = Vec::new();
        let mut i: usize = 0;
        assert(self.nodes() =~= old(self).nodes().union(listed_nodes(lines@, 0)));
        assert(texts(rejected@) =~= unlisted_lines(lines@, 0));
        while i < lines.len()
            invariant
                i <= lines@.len(),
                self.nodes() == old(self).nodes().union(listed_nodes(lines@, i as int)),
                texts(rejected@) == unlisted_lines(lines@, i as int),
                old(self).wf() ==> self.wf(),
            decreases lines@.len() - i,
        {
            match parse_u64(lines[i].as_str()) {
                Some(node_id) => {
                    self.add_node(node_id);
                },
                None => {
                    let line = lines[i].clone();
                    assert(texts(rejected@.push(line)) =~= texts(rejected@).push(line@));
                    rejected.push(line);
                },
            }
            assert(self.nodes() =~= old(self).nodes().union(listed_nodes(lines@, i + 1)));
            i = i + 1;
        }
        rejected
    }
}

/// The node identifiers written on the first `n` lines.
pub open spec fn listed_nodes(lines: Seq<String>, n: int) -> Set<u64>
    decreases n,
{
    if n <= 0 {
        Set::empty()
    } else {
        match parse_u64_text(lines[n - 1]@) {
            Some(node_id) => listed_nodes(lines, n - 1).insert(node_id),
            None => listed_nodes(lines, n - 1),
        }
    }
}

/// Those of the first `n` lines that are no 64-bit decimal number, in order.
pub open spec fn unlisted_lines(lines: Seq<String>, n: int) -> Seq<Seq<char>>
    decreases n,
{
    if n <= 0 {
        Seq::empty()
    } else {
        match parse_u64_text(lines[n - 1]@) {
            Some(_) => unlisted_lines(lines, n - 1),
            None => unlisted_lines(lines, n - 1).push(lines[n - 1]@),
        }
    }
}

} // verus!
