//! The node graph of one animation, and the driver that walks it from a
//! starting node until some node yields a frame.

use vstd::prelude::*;
use crate::assoc::{keys_unique, has_key, assoc_map, lemma_assoc_get, lemma_assoc_push, lemma_assoc_update};
use crate::error::{LoadError, RunError};
use crate::loader::{load, load_spec, is_loaded, loaded_frames};
use crate::node_id::{NodeId, NameRegistry};
use crate::nodes::{AnimationNode, NodeResult, Step, apply_writes};
use crate::state::{Attribute, AttrValue, AnimationState};

verus! {

/// The most nodes one tick may run; a longer chain of `Next` hops is taken
/// for a cycle and reported.
pub const MAX_HOPS: u64 = 256;

/// What the driver hands back for a tick.
#[derive(Debug, Clone)]
pub struct Frame {
    /// The node that yielded the frame.
    pub node: NodeId,
    /// The frame's position in that node's sequence.
    pub index: usize,
    /// The frame's asset path.
    pub path: String,
}

/// Running from `id` with at most `hops` nodes: the outcome (the node that
/// yielded a frame and the frame's position), the values after it, and
/// the keys written on the way.
pub open spec fn chain(
    graph: Map<NodeId, AnimationNode>,
    id: NodeId,
    values: Map<Attribute, AttrValue>,
    hops: nat,
) -> (Result<(NodeId, usize), RunError>, Map<Attribute, AttrValue>, Set<Attribute>)
    decreases hops,
{
    if hops == 0 {
        (Err(RunError::HopLimit(id)), values, Set::empty())
    } else if !graph.contains_key(id) {
        (Err(RunError::NodeNotFound(id)), values, Set::empty())
    } else {
        match graph[id].spec_run(values) {
            Err(e) => (Err(e), values, Set::empty()),
            Ok((Step::Done(i), w)) => (Ok((id, i)), apply_writes(values, w), w.dom()),
            Ok((Step::Next(n), w)) => {
                let rest = chain(graph, n, apply_writes(values, w), (hops - 1) as nat);
                (rest.0, rest.1, w.dom().union(rest.2))
            },
        }
    }
}

/// A node that always hands control back to itself ends a tick with the
/// hop limit, whatever the store holds and however many hops are left.
pub proof fn law_self_loop_hits_hop_limit(
    graph: Map<NodeId, AnimationNode>,
    id: NodeId,
    values: Map<Attribute, AttrValue>,
    hops: nat,
)
    requires
        graph.contains_key(id),
        forall|v: Map<Attribute, AttrValue>| (#[trigger] graph[id].spec_run(v) matches Ok((Step::Next(n), _)) && n == id),
    ensures
        chain(graph, id, values, hops).0 == Err::<(NodeId, usize), RunError>(RunError::HopLimit(id)),
    decreases hops,
{
    if hops > 0 {
        let r = graph[id].spec_run(values);
        assert(r matches Ok((Step::Next(n), _)) && n == id);
        law_self_loop_hits_hop_limit(graph, id, apply_writes(values, r.unwrap().1), (hops - 1) as nat);
    }
}

/// The nodes of one animation, by identity.
#[derive(Debug)]
pub struct AnimationNodeTree {
    nodes: Vec<(NodeId, AnimationNode)>,
}

impl AnimationNodeTree {
    pub closed spec fn view(&self) -> Map<NodeId, AnimationNode> {
        assoc_map(self.nodes@)
    }

    pub closed spec fn wf(&self) -> bool {
        &&& keys_unique(self.nodes@)
        &&& forall|i: int| 0 <= i < self.nodes@.len() ==> (#[trigger] self.nodes@[i]).1.runnable()
    }

    /// Every node of a well-formed tree can run.
    pub proof fn lemma_runnable(&self, id: NodeId)
        requires
            self.wf(),
            self@.contains_key(id),
        ensures
            self@[id].runnable(),
    {
        lemma_assoc_get(self.nodes@, id);
        let i = choose|i: int| 0 <= i < self.nodes@.len() && self.nodes@[i].0 == id;
        assert(self.nodes@[i].1.runnable());
    }

    /// An empty tree.
    pub fn new() -> (r: AnimationNodeTree)
        ensures
            r.wf(),
            r@ == Map::<NodeId, AnimationNode>::empty(),
    {
        let r = AnimationNodeTree { nodes: Vec::new() };
        assert(r@ =~= Map::<NodeId, AnimationNode>::empty());
        r
    }

    fn find(&self, id: NodeId) -> (r: Option<usize>)
        requires
            self.wf(),
        ensures
            match r {
                Some(i) => i < self.nodes@.len() && self.nodes@[i as int].0 == id,
                None => !has_key(self.nodes@, id),
            },
    {
        let mut i: usize = 0;
        while i < self.nodes.len()
            invariant
                i <= self.nodes@.len(),
                forall|j: int| 0 <= j < i ==> self.nodes@[j].0 != id,
            decreases self.nodes.len() - i,
        {
            if self.nodes[i].0 == id {
                return Some(i);
            }
            i = i + 1;
        }
        None
    }

    /// The node stored under `id`, if any.
    pub fn get(&self, id: NodeId) -> (r: Option<&AnimationNode>)
        requires
            self.wf(),
        ensures
            match r {
                Some(n) => self@.contains_key(id) && self@[id] == *n,
                None => !self@.contains_key(id),
            },
    {
        proof {
            lemma_assoc_get(self.nodes@, id);
        }
        match self.find(id) {
            Some(i) => Some(&self.nodes[i].1),
            None => None,
        }
    }

    /// Stores `node` under its identity, replacing any node there, and
    /// returns that identity.
    pub fn add_node(&mut self, node: AnimationNode, registry: &mut NameRegistry) -> (r: NodeId)
        requires
            old(self).wf(),
            old(registry).wf(),
            node.runnable(),
        ensures
            final(self).wf(),
            final(registry).wf(),
            r == node.spec_id(),
            final(self)@ == old(self)@.insert(r, node),
    {
        let id = node.id(registry);
        let ghost d = self.nodes@;
        proof {
            lemma_assoc_get(d, id);
        }
        match self.find(id) {
            Some(i) => {
                proof {
                    lemma_assoc_update(d, i as int, node);
                }
                self.nodes.set(i, (id, node));
                assert(self.nodes@ =~= d.update(i as int, (d[i as int].0, node)));
            },
            None => {
                proof {
                    lemma_assoc_push(d, id, node);
                }
                self.nodes.push((id, node));
            },
        }
        id
    }

    /// Runs nodes from `id` on `state`, following each `Next`, until one
    /// yields a frame; fails where an identity is missing, a node fails, or
    /// more than `MAX_HOPS` nodes would run.
    pub fn run_from(&self, id: NodeId, state: &mut AnimationState) -> (r: Result<Frame, RunError>)
        requires
            self.wf(),
            old(state).wf(),
        ensures
            final(state).wf(),
            final(state).temporary_keys() == old(state).temporary_keys(),
            final(state).values() == chain(self@, id, old(state).values(), MAX_HOPS as nat).1,
            final(state).changed_keys() == old(state).changed_keys().union(chain(self@, id, old(state).values(), MAX_HOPS as nat).2),
            match (r, chain(self@, id, old(state).values(), MAX_HOPS as nat).0) {
                (Ok(f), Ok((nid, i))) => {
                    &&& f.node == nid
                    &&& f.index == i
                    &&& self@.contains_key(nid)
                    &&& i < self@[nid].spec_frames().len()
                    &&& f.path@ == self@[nid].spec_frames()[i as int]
                },
                (Err(e), Err(se)) => e == se,
                _ => false,
            },
    {
        let ghost g = self@;
        let ghost total = chain(g, id, old(state).values(), MAX_HOPS as nat);
        let ghost c0 = old(state).changed_keys();
        let ghost t0 = old(state).temporary_keys();
        let mut cur = id;
        let mut hops: u64 = 0;
        assert(c0.union(total.2) =~= state.changed_keys().union(total.2));
        loop
            invariant
                self.wf(),
                g == self@,
                t0 == old(state).temporary_keys(),
                c0 == old(state).changed_keys(),
                total == chain(g, id, old(state).values(), MAX_HOPS as nat),
                state.wf(),
                state.temporary_keys() == t0,
                hops <= MAX_HOPS,
                chain(g, cur, state.values(), (MAX_HOPS - hops) as nat).0 == total.0,
                chain(g, cur, state.values(), (MAX_HOPS - hops) as nat).1 == total.1,
                state.changed_keys().union(chain(g, cur, state.values(), (MAX_HOPS - hops) as nat).2) == c0.union(total.2),
            decreases MAX_HOPS - hops,
        {
            let ghost here = chain(g, cur, state.values(), (MAX_HOPS - hops) as nat);
            if hops >= MAX_HOPS {
                assert(state.changed_keys() =~= c0.union(total.2));
                return Err(RunError::HopLimit(cur));
            }
            let node = match self.get(cur) {
                Some(n) => n,
                None => {
                    assert(state.changed_keys() =~= c0.union(total.2));
                    return Err(RunError::NodeNotFound(cur));
                },
            };
            proof {
                self.lemma_runnable(cur);
            }
            let ghost before = *state;
            match node.run(state) {
                Err(e) => {
                    assert(state.changed_keys() =~= c0.union(total.2));
                    return Err(e);
                },
                Ok(NodeResult::Done(i, path)) => {
                    assert(state.changed_keys() =~= c0.union(total.2));
                    return Ok(Frame { node: cur, index: i, path });
                },
                Ok(NodeResult::Next(n)) => {
                    proof {
                        let w = node.spec_run(before.values()).unwrap().1;
                        let next = chain(g, n, state.values(), (MAX_HOPS - hops - 1) as nat);
                        assert(here.2 == w.dom().union(next.2));
                        assert(state.changed_keys().union(next.2) =~= before.changed_keys().union(here.2));
                    }
                    cur = n;
                    hops = hops + 1;
                },
            }
        }
    }

    /// Loads a node from its definition and stores it under its identity,
    /// which is returned. On failure the tree, the registry and the
    /// dependencies are left as they were.
    pub fn load_node_from_str(&mut self, text: &str, registry: &mut NameRegistry, dependencies: &mut Vec<String>) -> (r: Result<NodeId, LoadError>)
        requires
            old(self).wf(),
            old(registry).wf(),
        ensures
            final(self).wf(),
            final(registry).wf(),
            match (r, load_spec(text@)) {
                (Ok(id), Ok(l)) => {
                    &&& final(self)@.contains_key(id)
                    &&& is_loaded(final(self)@[id], l)
                    &&& id == final(self)@[id].spec_id()
                    &&& final(self)@ == old(self)@.insert(id, final(self)@[id])
                    &&& final(dependencies)@.map_values(|x: String| x@) == old(dependencies)@.map_values(|x: String| x@) + loaded_frames(l)
                },
                (Err(e), Err(f)) => {
                    &&& e@ == f
                    &&& final(self)@ == old(self)@
                    &&& final(registry)@ == old(registry)@
                    &&& final(dependencies)@ == old(dependencies)@
                },
                _ => false,
            },
    {
        match load(text, dependencies) {
            Ok(node) => {
                let id = self.add_node(node, registry);
                Ok(id)
            },
            Err(e) => Err(e),
        }
    }
}

} // verus!
