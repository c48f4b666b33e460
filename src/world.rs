//! The ownership forest: an arena of entities linked to their parents.
//!
//! Slots are never reused: once an entity is destroyed its id stays dead,
//! so a stale id is detected rather than aliased to a newer entity.
//! Every parent link points to an entity created earlier, which keeps the
//! forest acyclic by construction and bounds every walk towards a root.
use vstd::prelude::*;
use crate::geometry::{Dir3, Vec3i};

verus! {

/// Index of an entity in the arena.
pub type EntityId = usize;

/// What an entity stands for, which also decides the scene asset it shows.
#[derive(Clone, Copy, Debug, PartialEq, Eq, Structural)]
pub enum PartKind {
    /// The root of an actor.
    Person,
    /// The torso of an actor.
    Body,
    Arm,
    /// The head of a slow actor.
    Head,
    /// The head of a fast actor, also the head that the head tool attaches.
    ServantHead,
    Leg,
    /// A plinth that a tool with no body part of its own attaches.
    Plinth,
    /// What remains of an actor after its death.
    Corpse,
    /// A node that came out of a loaded scene.
    SceneNode,
    /// The root of a scene that is part of the scenery (a building, a tree).
    Scenery,
}

/// Role tags given to loaded scene nodes.
#[derive(Clone, Copy, Debug, PartialEq, Eq, Structural)]
pub struct Tags {
    /// Swings on two axes with its phase timer.
    pub joint: bool,
    /// Swings on one axis on a longer, scaled cycle.
    pub joint_cycle: bool,
    /// A valid ray-cast target.
    pub pickable: bool,
    /// Ground that the player walks on.
    pub terrain: bool,
}

/// The work of an actor.
#[derive(Clone, Copy, Debug, PartialEq, Eq, Structural)]
pub enum TownsfolkTaskType {
    Idle,
    /// Walking towards a point.
    Wandering(Vec3i),
    Fleeing,
}

/// One entity of the forest. Its display name is kept beside it in [`World`].
#[derive(Clone, Copy, Debug, PartialEq, Eq, Structural)]
pub struct Node {
    pub alive: bool,
    pub parent: Option<EntityId>,
    pub kind: PartKind,
    /// Marks the top of a group of body parts.
    pub body_root: bool,
    /// Can be carried by the player.
    pub carryable: bool,
    /// The scene under this entity has been loaded and tagged.
    pub loaded: bool,
    pub tags: Tags,
    pub health: Option<i64>,
    /// Walking speed in millimetres per second.
    pub speed: u32,
    /// Phase of the cosmetic bobbing, in microseconds.
    pub bob: Option<u64>,
    /// Phase timer of the procedural animation, in microseconds.
    pub phase: Option<u64>,
    pub knockback: Option<crate::knockback::Knockback>,
    /// Translation relative to the parent.
    pub translation: Vec3i,
    /// Direction the entity looks along, where one was given.
    pub facing: Option<Dir3>,
    /// Rotation about the local z axis, in milliradians.
    pub roll: i32,
    /// An actor waiting to be given a task.
    pub looking_for_work: bool,
    /// The current task of an actor.
    pub task: Option<TownsfolkTaskType>,
}

/// No role tags at all.
pub open spec fn no_tags() -> Tags {
    Tags { joint: false, joint_cycle: false, pickable: false, terrain: false }
}

/// A live entity with nothing attached but a kind, a parent and a translation.
pub open spec fn bare(kind: PartKind, parent: Option<EntityId>, translation: Vec3i) -> Node {
    Node {
        alive: true,
        parent,
        kind,
        body_root: false,
        carryable: false,
        loaded: false,
        tags: no_tags(),
        health: None,
        speed: 0,
        bob: None,
        phase: None,
        knockback: None,
        translation,
        facing: None,
        roll: 0,
        looking_for_work: false,
        task: None,
    }
}

impl Node {
    /// A live entity with nothing attached but a kind, a parent and a translation.
    pub fn bare(kind: PartKind, parent: Option<EntityId>, translation: Vec3i) -> (r: Node)
        ensures
            r == bare(kind, parent, translation),
    {
        Node {
            alive: true,
            parent,
            kind,
            body_root: false,
            carryable: false,
            loaded: false,
            tags: Tags { joint: false, joint_cycle: false, pickable: false, terrain: false },
            health: None,
            speed: 0,
            bob: None,
            phase: None,
            knockback: None,
            translation,
            facing: None,
            roll: 0,
            looking_for_work: false,
            task: None,
        }
    }
}

/// Every parent link points to an earlier slot, and a live entity has a live parent.
pub open spec fn links_ok(nodes: Seq<Node>) -> bool {
    forall|i: int|
        #![trigger nodes[i].parent]
        0 <= i < nodes.len() ==> match nodes[i].parent {
            Some(p) => p < i && (nodes[i].alive ==> nodes[p as int].alive),
            None => true,
        }
}

/// Every knockback record keeps its timer within its duration.
pub open spec fn knockbacks_ok(nodes: Seq<Node>) -> bool {
    forall|i: int|
        #![trigger nodes[i].knockback]
        0 <= i < nodes.len() ==> match nodes[i].knockback {
            Some(k) => k.wf(),
            None => true,
        }
}

/// `n` is a live actor.
pub open spec fn is_live_person(n: Node) -> bool {
    n.alive && n.kind == PartKind::Person
}

/// Number of live actors.
pub open spec fn live_persons(nodes: Seq<Node>) -> nat
    decreases nodes.len(),
{
    if nodes.len() == 0 {
        0
    } else {
        live_persons(nodes.drop_last()) + if is_live_person(nodes.last()) {
            1nat
        } else {
            0nat
        }
    }
}

/// The slots used, one more slot for the corpse of each live actor, and
/// `k` more slots all fit in a `usize`.
pub open spec fn has_room(nodes: Seq<Node>, k: int) -> bool {
    nodes.len() + live_persons(nodes) + k <= usize::MAX
}

pub proof fn lemma_persons_push(s: Seq<Node>, n: Node)
    ensures
        live_persons(s.push(n)) == live_persons(s) + if is_live_person(n) {
            1nat
        } else {
            0nat
        },
{
    assert(s.push(n).drop_last() =~= s);
}

/// Where no entity becomes a live actor, the number of live actors does
/// not grow; it shrinks where one stops being a live actor.
pub proof fn lemma_persons_le(a: Seq<Node>, b: Seq<Node>)
    requires
        a.len() == b.len(),
        forall|i: int| 0 <= i < a.len() && is_live_person(#[trigger] b[i]) ==> is_live_person(a[i]),
    ensures
        live_persons(b) <= live_persons(a),
        forall|r: int|
            0 <= r < a.len() && is_live_person(#[trigger] a[r]) && !is_live_person(b[r])
                ==> live_persons(b) < live_persons(a),
    decreases a.len(),
{
    if a.len() > 0 {
        let (a2, b2) = (a.drop_last(), b.drop_last());
        assert forall|i: int| 0 <= i < a2.len() && is_live_person(#[trigger] b2[i]) implies is_live_person(a2[i]) by {
            assert(b2[i] == b[i] && a2[i] == a[i]);
        }
        lemma_persons_le(a2, b2);
        assert(is_live_person(b.last()) ==> is_live_person(a.last()));
        assert forall|r: int|
            0 <= r < a.len() && is_live_person(#[trigger] a[r]) && !is_live_person(b[r]) implies live_persons(b)
                < live_persons(a) by {
            if r < a.len() - 1 {
                assert(a2[r] == a[r] && b2[r] == b[r]);
            }
        }
    }
}

/// A live actor counts.
pub proof fn lemma_persons_pos(s: Seq<Node>, r: int)
    requires
        0 <= r < s.len(),
        is_live_person(s[r]),
    ensures
        live_persons(s) >= 1,
    decreases s.len(),
{
    if r < s.len() - 1 {
        assert(s.drop_last()[r] == s[r]);
        lemma_persons_pos(s.drop_last(), r);
    }
}

/// Same liveness and kind everywhere: the same number of live actors.
pub proof fn lemma_persons_same(a: Seq<Node>, b: Seq<Node>)
    requires
        a.len() == b.len(),
        forall|i: int| 0 <= i < a.len() ==> #[trigger] b[i].alive == a[i].alive && b[i].kind == a[i].kind,
    ensures
        live_persons(b) == live_persons(a),
{
    lemma_persons_le(a, b);
    lemma_persons_le(b, a);
}

/// `x` is `r` or lies below `r` in the forest (live or not).
pub open spec fn in_subtree(nodes: Seq<Node>, x: int, r: int) -> bool
    decreases x,
{
    if x < 0 || x >= nodes.len() {
        false
    } else if x == r {
        true
    } else {
        match nodes[x].parent {
            Some(p) => if p < x {
                in_subtree(nodes, p as int, r)
            } else {
                false
            },
            None => false,
        }
    }
}

/// The topmost ancestor of `x`.
pub open spec fn root_index(nodes: Seq<Node>, x: int) -> int
    decreases x,
{
    if x < 0 || x >= nodes.len() {
        x
    } else {
        match nodes[x].parent {
            Some(p) => if p < x {
                root_index(nodes, p as int)
            } else {
                x
            },
            None => x,
        }
    }
}

/// `n` with its `alive` flag cleared.
pub open spec fn killed(n: Node) -> Node {
    Node { alive: false, ..n }
}

/// The forest after every entity of the subtree at `r` is destroyed.
pub open spec fn without_subtree(nodes: Seq<Node>, r: int) -> Seq<Node> {
    Seq::new(
        nodes.len(),
        |i: int|
            if in_subtree(nodes, i, r) {
                killed(nodes[i])
            } else {
                nodes[i]
            },
    )
}

/// The live children of `p`.
pub open spec fn is_child(nodes: Seq<Node>, c: int, p: int) -> bool {
    0 <= c < nodes.len() && nodes[c].alive && nodes[c].parent == Some(p as EntityId)
}

/// An entity below `r` was created after `r`.
pub proof fn lemma_subtree_not_before(nodes: Seq<Node>, x: int, r: int)
    requires
        in_subtree(nodes, x, r),
    ensures
        r <= x,
    decreases x,
{
    if x != r {
        let p = nodes[x].parent.unwrap();
        lemma_subtree_not_before(nodes, p as int, r);
    }
}

/// The top of `x`'s tree is a slot at or before `x`.
pub proof fn lemma_root_in_range(nodes: Seq<Node>, x: int)
    requires
        0 <= x < nodes.len(),
    ensures
        0 <= root_index(nodes, x) <= x,
        nodes[root_index(nodes, x)].parent is None || nodes[root_index(nodes, x)].parent.unwrap()
            >= root_index(nodes, x),
    decreases x,
{
    match nodes[x].parent {
        Some(p) => if p < x {
            lemma_root_in_range(nodes, p as int);
        },
        None => {},
    }
}

/// The top of a live entity's tree is live.
pub proof fn lemma_root_alive(nodes: Seq<Node>, x: int)
    requires
        links_ok(nodes),
        0 <= x < nodes.len(),
        nodes[x].alive,
    ensures
        nodes[root_index(nodes, x)].alive,
    decreases x,
{
    match nodes[x].parent {
        Some(p) => if p < x {
            lemma_root_alive(nodes, p as int);
        },
        None => {},
    }
}

/// The arena of entities, with the display name of each beside it.
pub struct World {
    pub nodes: Vec<Node>,
    pub names: Vec<String>,
}

impl World {
    /// The names match the entities one for one, the links form a forest and
    /// every knockback is well formed.
    pub open spec fn wf(&self) -> bool {
        &&& self.names@.len() == self.nodes@.len()
        &&& links_ok(self.nodes@)
        &&& knockbacks_ok(self.nodes@)
        &&& has_room(self.nodes@, 0)
    }

    /// `id` names a live entity.
    pub open spec fn alive(&self, id: int) -> bool {
        0 <= id < self.nodes@.len() && self.nodes@[id].alive
    }

    /// An empty world.
    pub fn new() -> (r: World)
        ensures
            r.wf(),
            r.nodes@.len() == 0,
    {
        World { nodes: Vec::new(), names: Vec::new() }
    }

    /// Number of slots used so far, live or not.
    pub fn len(&self) -> (r: usize)
        ensures
            r == self.nodes@.len(),
    {
        self.nodes.len()
    }

    /// Whether `id` names a live entity.
    pub fn is_alive(&self, id: EntityId) -> (r: bool)
        ensures
            r == self.alive(id as int),
    {
        id < self.nodes.len() && self.nodes[id].alive
    }

    /// Number of live actors.
    pub fn live_person_count(&self) -> (c: usize)
        requires
            self.wf(),
        ensures
            c == live_persons(self.nodes@),
    {
        let mut c: usize = 0;
        let mut i: usize = 0;
        while i < self.nodes.len()
            invariant
                self.wf(),
                i <= self.nodes@.len(),
                c == live_persons(self.nodes@.subrange(0, i as int)),
                c <= i,
            decreases self.nodes@.len() - i,
        {
            proof {
                let s = self.nodes@.subrange(0, i + 1);
                assert(s.drop_last() =~= self.nodes@.subrange(0, i as int));
            }
            let n = self.nodes[i];
            if n.alive && n.kind == PartKind::Person {
                c = c + 1;
            }
            i = i + 1;
        }
        assert(self.nodes@.subrange(0, i as int) =~= self.nodes@);
        c
    }

    /// Whether `k` more entities fit beside the slots used and the slots
    /// kept for the corpses of the live actors.
    pub fn room_for(&self, k: usize) -> (r: bool)
        requires
            self.wf(),
        ensures
            r == has_room(self.nodes@, k as int),
    {
        let c = self.live_person_count();
        let used = self.nodes.len() + c;
        k <= usize::MAX - used
    }

    /// The record of a live entity.
    pub fn get(&self, id: EntityId) -> (r: Option<Node>)
        ensures
            r == (if self.alive(id as int) {
                Some(self.nodes@[id as int])
            } else {
                None
            }),
    {
        if self.is_alive(id) {
            Some(self.nodes[id])
        } else {
            None
        }
    }

    /// The display name of a live entity.
    pub fn name(&self, id: EntityId) -> (r: Option<String>)
        requires
            self.wf(),
        ensures
            r is Some <==> self.alive(id as int),
            r is Some ==> r.unwrap()@ == self.names@[id as int]@,
    {
        if self.is_alive(id) {
            Some(self.names[id].clone())
        } else {
            None
        }
    }

    /// Adds `node` under the name `name`; its parent, if any, must be live.
    pub(crate) fn push(&mut self, node: Node, name: String) -> (id: EntityId)
        requires
            old(self).wf(),
            node.alive,
            node.parent is Some ==> old(self).alive(node.parent.unwrap() as int),
            node.knockback is Some ==> node.knockback.unwrap().wf(),
            has_room(old(self).nodes@, 1 + if is_live_person(node) {
                1int
            } else {
                0int
            }),
        ensures
            final(self).wf(),
            id == old(self).nodes@.len(),
            final(self).nodes@ == old(self).nodes@.push(node),
            final(self).names@ == old(self).names@.push(name),
            live_persons(final(self).nodes@) == live_persons(old(self).nodes@) + if is_live_person(
                node,
            ) {
                1int
            } else {
                0int
            },
    {
        let id = self.nodes.len();
        self.nodes.push(node);
        self.names.push(name);
        proof {
            lemma_persons_push(old(self).nodes@, node);
            let s = self.nodes@;
            assert forall|i: int| 0 <= i < s.len() implies match #[trigger] s[i].parent {
                Some(p) => p < i && (s[i].alive ==> s[p as int].alive),
                None => true,
            } by {
                if i < s.len() - 1 {
                    assert(s[i] == old(self).nodes@[i]);
                    assert(old(self).nodes@[i].parent == s[i].parent);
                }
            }
        }
        id
    }

    /// Walks parent links from `id` up to the top of its tree.
    pub fn root_of(&self, id: EntityId) -> (r: EntityId)
        requires
            self.wf(),
            id < self.nodes@.len(),
        ensures
            r as int == root_index(self.nodes@, id as int),
            self.nodes@[r as int].parent is None,
            self.alive(id as int) ==> self.alive(r as int),
    {
        let mut cur = id;
        loop
            invariant
                self.wf(),
                cur < self.nodes@.len(),
                root_index(self.nodes@, cur as int) == root_index(self.nodes@, id as int),
                self.alive(id as int) ==> self.alive(cur as int),
            decreases cur,
        {
            match self.nodes[cur].parent {
                Some(p) => {
                    assert(self.nodes@[cur as int].parent == Some(p));
                    cur = p;
                },
                None => {
                    return cur;
                },
            }
        }
    }

    /// Clears the parent link of `id`, which becomes the root of its own tree.
    pub fn detach(&mut self, id: EntityId)
        requires
            old(self).wf(),
        ensures
            final(self).wf(),
            final(self).names@ == old(self).names@,
            id < old(self).nodes@.len() ==> final(self).nodes@ == old(self).nodes@.update(
                id as int,
                Node { parent: None, ..old(self).nodes@[id as int] },
            ),
            id >= old(self).nodes@.len() ==> final(self).nodes@ == old(self).nodes@,
    {
        if id < self.nodes.len() {
            let mut n = self.nodes[id];
            n.parent = None;
            self.nodes.set(id, n);
            proof {
                let s = self.nodes@;
                let o = old(self).nodes@;
                assert forall|i: int| 0 <= i < s.len() implies match #[trigger] s[i].parent {
                    Some(p) => p < i && (s[i].alive ==> s[p as int].alive),
                    None => true,
                } by {
                    if i != id {
                        assert(s[i] == o[i]);
                        assert(o[i].parent == s[i].parent);
                        match o[i].parent {
                            Some(p) => {
                                assert(s[p as int].alive == o[p as int].alive);
                            },
                            None => {},
                        }
                    }
                }
                lemma_persons_same(o, s);
            }
        }
    }

    /// Destroys `r` and every entity below it.
    pub fn destroy_subtree(&mut self, r: EntityId)
        requires
            old(self).wf(),
            r < old(self).nodes@.len(),
        ensures
            final(self).wf(),
            final(self).names@ == old(self).names@,
            final(self).nodes@ == without_subtree(old(self).nodes@, r as int),
    {
        let ghost o = self.nodes@;
        let mut n = self.nodes[r];
        n.alive = false;
        self.nodes.set(r, n);
        let len = self.nodes.len();
        let mut i: usize = r + 1;
        proof {
            assert forall|j: int| 0 <= j < r implies !in_subtree(o, j, r as int) by {
                if in_subtree(o, j, r as int) {
                    lemma_subtree_not_before(o, j, r as int);
                }
            }
        }
        while i < len
            invariant
                o.len() == len,
                self.nodes@.len() == len,
                self.names@ == old(self).names@,
                self.names@.len() == len,
                links_ok(o),
                r < i <= len,
                forall|j: int|
                    0 <= j < i ==> #[trigger] self.nodes@[j] == (if in_subtree(o, j, r as int) {
                        killed(o[j])
                    } else {
                        o[j]
                    }),
                forall|j: int| i <= j < len ==> #[trigger] self.nodes@[j] == o[j],
            decreases len - i,
        {
            let cur = self.nodes[i];
            let ghost oi = o[i as int];
            assert(cur == oi);
            let mut dies = false;
            if cur.alive {
                match cur.parent {
                    Some(p) => {
                        assert(o[i as int].parent == Some(p));
                        dies = !self.nodes[p].alive;
                    },
                    None => {},
                }
            }
            proof {
                if in_subtree(o, i as int, r as int) {
                    if cur.alive {
                        let p = oi.parent.unwrap();
                        assert(in_subtree(o, p as int, r as int));
                    }
                } else {
                    if cur.alive {
                        match oi.parent {
                            Some(p) => {
                                assert(!in_subtree(o, p as int, r as int));
                                assert(o[p as int].alive);
                            },
                            None => {},
                        }
                    }
                }
            }
            if dies {
                let mut k = cur;
                k.alive = false;
                self.nodes.set(i, k);
            }
            proof {
                if in_subtree(o, i as int, r as int) && !cur.alive {
                    assert(killed(o[i as int]) == o[i as int]);
                }
            }
            i = i + 1;
        }
        proof {
            let s = self.nodes@;
            assert(s =~= without_subtree(o, r as int));
            lemma_persons_le(o, s);
            assert forall|j: int| 0 <= j < s.len() implies match #[trigger] s[j].parent {
                Some(p) => p < j && (s[j].alive ==> s[p as int].alive),
                None => true,
            } by {
                assert(o[j].parent == s[j].parent);
                match o[j].parent {
                    Some(p) => {
                        if s[j].alive {
                            assert(!in_subtree(o, j, r as int));
                            assert(!in_subtree(o, p as int, r as int));
                        }
                    },
                    None => {},
                }
            }
        }
    }

    /// The live children of `p`, in slot order.
    pub fn children_of(&self, p: EntityId) -> (r: Vec<EntityId>)
        ensures
            forall|c: EntityId| #[trigger] r@.contains(c) <==> is_child(self.nodes@, c as int, p as int),
    {
        let mut out: Vec<EntityId> = Vec::new();
        let mut i: usize = 0;
        while i < self.nodes.len()
            invariant
                i <= self.nodes@.len(),
                forall|c: EntityId|
                    #[trigger] out@.contains(c) <==> (c < i && is_child(self.nodes@, c as int, p as int)),
            decreases self.nodes@.len() - i,
        {
            let n = self.nodes[i];
            let ghost before = out@;
            if n.alive && n.parent == Some(p) {
                out.push(i);
            }
            proof {
                assert forall|c: EntityId|
                    #[trigger] out@.contains(c) <==> (c < i + 1 && is_child(self.nodes@, c as int, p as int)) by {
                    if c == i {
                        if n.alive && n.parent == Some(p) {
                            assert(out@[out@.len() - 1] == i);
                        } else {
                            assert(out@ == before);
                        }
                    } else {
                        if out@.contains(c) && c != i {
                            if n.alive && n.parent == Some(p) {
                                let k = choose|k: int| 0 <= k < out@.len() && out@[k] == c;
                                assert(k < before.len());
                                assert(before.contains(c));
                            }
                        }
                        if before.contains(c) {
                            let k = choose|k: int| 0 <= k < before.len() && before[k] == c;
                            assert(out@[k] == c);
                        }
                    }
                }
            }
            i = i + 1;
        }
        out
    }
}

} // verus!
