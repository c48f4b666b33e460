//! Tagging of a scene once its asset has loaded: the nodes it brought are
//! added under its root and given role tags by the rule table.
use vstd::prelude::*;
use crate::geometry::Vec3i;
use crate::lifecycle::{health_not_raised, LoadedNode};
use crate::tagging::{tag_node, tagging_for};
use crate::world::{
    bare,
    has_room,
    lemma_persons_same,
    live_persons,
    EntityId,
    Node,
    PartKind,
    World,
};

verus! {

/// Each node's parent comes before it in the list.
pub open spec fn parents_first(nodes: Seq<LoadedNode>) -> bool {
    forall|k: int| 0 <= k < nodes.len() && (#[trigger] nodes[k].parent) is Some ==> nodes[k].parent.unwrap() < k
}

/// The phase offset a scene root hands to the nodes it loads: its own
/// phase timer, or zero.
pub open spec fn scene_offset(root: Node) -> u64 {
    match root.phase {
        Some(p) => p,
        None => 0,
    }
}

/// The entity for a loaded node, where the list starts at slot `first`.
pub open spec fn scene_node(first: int, root: int, ln: LoadedNode, offset: u64) -> Node {
    let parent = match ln.parent {
        Some(j) => (first + j) as EntityId,
        None => root as EntityId,
    };
    let n = bare(PartKind::SceneNode, Some(parent), Vec3i { x: 0, y: 0, z: 0 });
    match tagging_for(ln.name@, offset) {
        Some(t) => Node { tags: t.tags, phase: t.phase, ..n },
        None => n,
    }
}

/// The scene at `root` has loaded and is still to be tagged.
pub open spec fn awaits_tagging(nodes: Seq<Node>, root: int) -> bool {
    0 <= root < nodes.len() && nodes[root].alive && !nodes[root].loaded
}

/// A notice that the scene at `root` brought `n` nodes is acted on: the
/// scene awaits tagging and the arena has room for the nodes.
pub open spec fn load_taken(nodes: Seq<Node>, root: int, n: int) -> bool {
    awaits_tagging(nodes, root) && has_room(nodes, n)
}

/// The forest after the scene at `root` brought `loaded`.
pub open spec fn after_load(nodes: Seq<Node>, root: int, loaded: Seq<LoadedNode>) -> Seq<Node> {
    let offset = scene_offset(nodes[root]);
    nodes.update(root, Node { loaded: true, ..nodes[root] }) + Seq::new(
        loaded.len(),
        |k: int| scene_node(nodes.len() as int, root, loaded[k], offset),
    )
}

impl World {
    /// Handles the notice that the scene under `root` has loaded with the
    /// nodes `loaded`: they are added below `root` (the k-th at slot
    /// `first + k`, where `first` is returned), each tagged by the first
    /// rule that matches its name, and `root` is marked as tagged. A root
    /// that is gone or was tagged before is left alone: tags are given
    /// once per scene. So is every root while the arena has no room for
    /// the nodes.
    pub fn scene_ready(&mut self, root: EntityId, loaded: &Vec<LoadedNode>) -> (r: Option<EntityId>)
        requires
            old(self).wf(),
            parents_first(loaded@),
        ensures
            final(self).wf(),
            health_not_raised(old(self).nodes@, final(self).nodes@),
            !load_taken(old(self).nodes@, root as int, loaded@.len() as int) ==> r is None && final(self).nodes@ == old(
                self,
            ).nodes@ && final(self).names@ == old(self).names@,
            load_taken(old(self).nodes@, root as int, loaded@.len() as int) ==> {
                &&& r == Some(old(self).nodes@.len() as EntityId)
                &&& final(self).nodes@ == after_load(old(self).nodes@, root as int, loaded@)
                &&& final(self).names@.len() == old(self).names@.len() + loaded@.len()
                &&& final(self).names@.subrange(0, old(self).names@.len() as int) == old(self).names@
                &&& forall|k: int|
                    0 <= k < loaded@.len() ==> #[trigger] final(self).names@[old(self).names@.len() + k]@
                        == loaded@[k].name@
            },
    {
        if !(self.is_alive(root) && !self.nodes[root].loaded) || !self.room_for(loaded.len()) {
            return None;
        }
        let ghost o = self.nodes@;
        let ghost on = self.names@;
        let mut r = self.nodes[root];
        let offset = match r.phase {
            Some(p) => p,
            None => 0,
        };
        r.loaded = true;
        self.nodes.set(root, r);
        proof {
            let s = self.nodes@;
            assert forall|i: int| 0 <= i < s.len() implies match #[trigger] s[i].parent {
                Some(p) => p < i && (s[i].alive ==> s[p as int].alive),
                None => true,
            } by {
                assert(s[i].parent == o[i].parent);
                match o[i].parent {
                    Some(p) => {
                        assert(s[p as int].alive == o[p as int].alive);
                    },
                    None => {},
                }
            }
            assert forall|i: int| 0 <= i < s.len() implies match #[trigger] s[i].knockback {
                Some(k) => k.wf(),
                None => true,
            } by {
                assert(s[i].knockback == o[i].knockback);
            }
            lemma_persons_same(o, s);
        }
        let ghost u = self.nodes@;
        let first = self.nodes.len();
        let mut k: usize = 0;
        while k < loaded.len()
            invariant
                self.wf(),
                first == o.len(),
                u == o.update(root as int, Node { loaded: true, ..o[root as int] }),
                offset == scene_offset(o[root as int]),
                0 <= root < o.len(),
                o[root as int].alive,
                parents_first(loaded@),
                has_room(o, loaded@.len() as int),
                live_persons(self.nodes@) == live_persons(o),
                k <= loaded@.len(),
                self.nodes@ == u + Seq::new(
                    k as nat,
                    |j: int| scene_node(first as int, root as int, loaded@[j], offset),
                ),
                self.names@.len() == on.len() + k,
                self.names@.subrange(0, on.len() as int) == on,
                on.len() == o.len(),
                forall|j: int| 0 <= j < k ==> #[trigger] self.names@[on.len() + j]@ == loaded@[j].name@,
            decreases loaded@.len() - k,
        {
            let ln = &loaded[k];
            let parent = match ln.parent {
                Some(j) => first + j,
                None => root,
            };
            proof {
                if ln.parent is Some {
                    assert(loaded@[k as int].parent.unwrap() < k);
                    assert(self.nodes@[parent as int] == scene_node(
                        first as int,
                        root as int,
                        loaded@[ln.parent.unwrap() as int],
                        offset,
                    ));
                } else {
                    assert(self.nodes@[root as int] == u[root as int]);
                }
            }
            let mut n = Node::bare(PartKind::SceneNode, Some(parent), Vec3i::new(0, 0, 0));
            match tag_node(ln.name.as_str(), offset) {
                Some(t) => {
                    n.tags = t.tags;
                    n.phase = t.phase;
                },
                None => {},
            }
            let ghost before = self.names@;
            self.push(n, ln.name.clone());
            proof {
                assert(n == scene_node(first as int, root as int, loaded@[k as int], offset));
                assert(self.nodes@ =~= u + Seq::new(
                    (k + 1) as nat,
                    |j: int| scene_node(first as int, root as int, loaded@[j], offset),
                ));
                assert(self.names@.subrange(0, on.len() as int) =~= on) by {
                    assert(before.subrange(0, on.len() as int) == on);
                    assert forall|j: int| 0 <= j < on.len() implies self.names@[j] == before[j] by {}
                }
                assert forall|j: int| 0 <= j < k + 1 implies #[trigger] self.names@[on.len() + j]@
                    == loaded@[j].name@ by {
                    if j < k {
                        assert(self.names@[on.len() + j] == before[on.len() + j]);
                    }
                }
            }
            k = k + 1;
        }
        proof {
            assert(self.nodes@ =~= after_load(o, root as int, loaded@));
            assert forall|i: int| 0 <= i < o.len() implies #[trigger] self.nodes@[i].health
                == o[i].health by {
                assert(self.nodes@[i] == u[i]);
            }
        }
        Some(first)
    }
}

} // verus!
