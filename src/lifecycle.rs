//! Spawning, damage, knockback and death of actors, and the other
//! changes that events make to the forest.
use vstd::prelude::*;
use vstd::string::*;
use crate::geometry::{Dir3, Vec3i};
use crate::inventory::ItemId;
use crate::knockback::{Knockback, started};
use crate::world::{
    bare,
    has_room,
    is_live_person,
    lemma_persons_le,
    lemma_persons_same,
    without_subtree,
    root_index,
    EntityId,
    Node,
    PartKind,
    World,
};

verus! {

/// Health of a newly spawned actor.
pub const START_HEALTH: i64 = 100;

/// Health taken by one strike.
pub const STRIKE_DAMAGE: i64 = 25;

/// Speed, in millimetres per second, from which an actor gets the servant's head.
pub const SERVANT_SPEED: u32 = 300;

/// Phase seed of an actor's first leg, in microseconds.
pub const FIRST_LEG_PHASE: u64 = 900_000;

/// Phase seed of an actor's second leg, in microseconds.
pub const SECOND_LEG_PHASE: u64 = 9_500_000;

/// Phase seed of a part attached by a tool, in microseconds.
pub const ATTACHED_PART_PHASE: u64 = 900_000;

/// Roll of an arm, in milliradians (a quarter turn).
pub const ARM_ROLL: i32 = 1571;

/// A request to spawn an actor.
#[derive(Clone, Copy, Debug, PartialEq, Eq, Structural)]
pub struct SpawnPerson {
    /// Where the actor stands, relative to `target` if there is one.
    pub position: Vec3i,
    /// Direction the actor looks along.
    pub facing: Dir3,
    /// Walking speed in millimetres per second.
    pub speed: u32,
    /// Entity that the actor is spawned under, if any.
    pub target: Option<EntityId>,
}

/// What a strike did.
#[derive(Clone, Copy, Debug, PartialEq, Eq, Structural)]
pub enum StrikeOutcome {
    /// The target is gone, or its root is not a living actor.
    Ignored,
    /// The actor at `root` lost health, down to `health`, and is knocked back.
    Damaged { root: EntityId, health: i64 },
    /// The actor at `root` died and `corpse` took its place.
    Killed { root: EntityId, corpse: EntityId },
}

/// A node of a loaded scene, listed in an order where parents come first.
pub struct LoadedNode {
    pub name: String,
    /// Position in the list of the node's parent; `None` for a child of the scene root.
    pub parent: Option<usize>,
}

/// The vector with components `x`, `y` and `z`.
pub open spec fn v3(x: int, y: int, z: int) -> Vec3i {
    Vec3i { x: x as i64, y: y as i64, z: z as i64 }
}

/// The root entity of an actor spawned for `req`.
pub open spec fn person_root(req: SpawnPerson) -> Node {
    Node {
        body_root: true,
        health: Some(START_HEALTH),
        speed: req.speed,
        bob: Some(0),
        facing: Some(req.facing),
        looking_for_work: true,
        ..bare(PartKind::Person, req.target, req.position)
    }
}

/// The head an actor walking at `speed` gets.
pub open spec fn head_kind(speed: u32) -> PartKind {
    if speed < SERVANT_SPEED {
        PartKind::Head
    } else {
        PartKind::ServantHead
    }
}

/// The seven entities of an actor spawned at slot `first`: the root, the
/// body under it, and two arms, a head and two legs under the body.
pub open spec fn person_nodes(first: int, req: SpawnPerson) -> Seq<Node> {
    let root = Some(first as EntityId);
    let body = Some((first + 1) as EntityId);
    seq![
        person_root(req),
        bare(PartKind::Body, root, v3(0, 640_000_000, 0)),
        Node { roll: ARM_ROLL, ..bare(PartKind::Arm, body, v3(-100_000_000, 600_000_000, 0)) },
        Node { roll: (-ARM_ROLL) as i32, ..bare(PartKind::Arm, body, v3(100_000_000, 600_000_000, 0)) },
        bare(head_kind(req.speed), body, v3(0, 710_000_000, -10_000_000)),
        Node {
            phase: Some(FIRST_LEG_PHASE),
            ..bare(PartKind::Leg, body, v3(-100_000_000, 160_000_000, 0))
        },
        Node {
            phase: Some(SECOND_LEG_PHASE),
            ..bare(PartKind::Leg, body, v3(100_000_000, 160_000_000, 0))
        },
    ]
}

/// The names of the seven entities of an actor, in the order of [`person_nodes`].
pub open spec fn person_names() -> Seq<Seq<char>> {
    seq!["Person"@, "BodyOdy"@, "Arm1"@, "Arm2"@, "head"@, "leg1"@, "leg2"@]
}

/// The part that the tool `item` attaches under `target`.
pub open spec fn attached_part(target: EntityId, item: ItemId, position: Vec3i, normal: Dir3) -> Node {
    match item {
        ItemId::Head => Node {
            facing: Some(normal),
            ..bare(PartKind::ServantHead, Some(target), position)
        },
        ItemId::Leg => Node {
            facing: Some(normal),
            phase: Some(ATTACHED_PART_PHASE),
            ..bare(PartKind::Leg, Some(target), position)
        },
        _ => Node {
            facing: Some(normal),
            phase: Some(ATTACHED_PART_PHASE),
            ..bare(PartKind::Plinth, Some(target), position)
        },
    }
}

/// The name of the part that the tool `item` attaches.
pub open spec fn attached_name(item: ItemId) -> Seq<char> {
    match item {
        ItemId::Head => "serhead"@,
        ItemId::Leg => "leg1"@,
        _ => "apple"@,
    }
}

/// A spawn for `req` does nothing: its target is gone, or the arena has
/// no room for the actor's seven entities and the slot kept for its corpse.
pub open spec fn spawn_refused(nodes: Seq<Node>, req: SpawnPerson) -> bool {
    ||| req.target is Some && !(0 <= req.target.unwrap() < nodes.len()
        && nodes[req.target.unwrap() as int].alive)
    ||| !has_room(nodes, 8)
}

/// An attachment under `target` does nothing: `target` is gone, or the
/// arena is full.
pub open spec fn attach_refused(nodes: Seq<Node>, target: EntityId) -> bool {
    !(0 <= target < nodes.len() && nodes[target as int].alive) || !has_room(nodes, 1)
}

/// What is left of an actor that died at `t`.
pub open spec fn corpse_at(t: Vec3i) -> Node {
    Node { carryable: true, body_root: true, health: Some(0), ..bare(PartKind::Corpse, None, t) }
}

/// Health is never raised: every entity that existed keeps its health or
/// has less of it, and entities are only ever added.
pub open spec fn health_not_raised(old: Seq<Node>, new: Seq<Node>) -> bool {
    &&& old.len() <= new.len()
    &&& forall|i: int|
        #![trigger new[i].health]
        0 <= i < old.len() ==> new[i].health == old[i].health || (new[i].health is Some
            && old[i].health is Some && new[i].health.unwrap() < old[i].health.unwrap())
}

/// The actor root that a strike on `target` hurts, if any: the top of
/// `target`'s tree, when `target` is live and that top is an actor with
/// health left.
pub open spec fn struck_root(nodes: Seq<Node>, target: int) -> Option<int> {
    if 0 <= target < nodes.len() && nodes[target].alive {
        let r = root_index(nodes, target);
        if nodes[r].kind == PartKind::Person && nodes[r].health is Some && nodes[r].health.unwrap()
            > 0 {
            Some(r)
        } else {
            None
        }
    } else {
        None
    }
}

/// `root` is a live actor.
pub open spec fn can_die(nodes: Seq<Node>, root: int) -> bool {
    0 <= root < nodes.len() && nodes[root].alive && nodes[root].kind == PartKind::Person
}

/// The forest after the actor at `root` dies where it stands, at the
/// world position `at`: it leaves its parent's children, its whole
/// subtree is destroyed and a corpse is added at `at`.
pub open spec fn after_death(nodes: Seq<Node>, root: int, at: Vec3i) -> Seq<Node> {
    without_subtree(nodes.update(root, Node { parent: None, ..nodes[root] }), root).push(
        corpse_at(at),
    )
}

/// The effect of a strike from direction `dir` with `power` on `target`.
pub open spec fn strike_result(nodes: Seq<Node>, target: int, dir: Dir3, power: u16) -> (
    Seq<Node>,
    StrikeOutcome,
) {
    match struck_root(nodes, target) {
        None => (nodes, StrikeOutcome::Ignored),
        Some(r) => {
            let h = nodes[r].health.unwrap() - STRIKE_DAMAGE;
            if h <= 0 {
                let hurt = nodes.update(r, Node { health: Some(h as i64), ..nodes[r] });
                (
                    after_death(hurt, r, nodes[r].translation),
                    StrikeOutcome::Killed { root: r as EntityId, corpse: nodes.len() as EntityId },
                )
            } else {
                (
                    nodes.update(
                        r,
                        Node { health: Some(h as i64), knockback: Some(started(dir, power)), ..nodes[r] },
                    ),
                    StrikeOutcome::Damaged { root: r as EntityId, health: h as i64 },
                )
            }
        },
    }
}

impl World {
    /// Spawns an actor with full health and its body parts; the parts'
    /// scenes load later. A request aimed at an entity that is gone, or
    /// made while the arena is full, does nothing and gives `None`.
    pub fn spawn_person(&mut self, req: SpawnPerson) -> (r: Option<EntityId>)
        requires
            old(self).wf(),
        ensures
            final(self).wf(),
            health_not_raised(old(self).nodes@, final(self).nodes@),
            spawn_refused(old(self).nodes@, req) ==> r is None && final(self).nodes@ == old(
                self,
            ).nodes@ && final(self).names@ == old(self).names@,
            !spawn_refused(old(self).nodes@, req) ==> {
                &&& r == Some(old(self).nodes@.len() as EntityId)
                &&& final(self).nodes@ == old(self).nodes@ + person_nodes(
                    old(self).nodes@.len() as int,
                    req,
                )
                &&& final(self).names@.len() == old(self).names@.len() + 7
                &&& forall|k: int|
                    0 <= k < 7 ==> #[trigger] final(self).names@[old(self).names@.len() + k]@
                        == person_names()[k]
                &&& final(self).names@.subrange(0, old(self).names@.len() as int)
                    == old(self).names@
            },
    {
        match req.target {
            Some(t) => {
                if !self.is_alive(t) {
                    return None;
                }
            },
            None => {},
        }
        if !self.room_for(8) {
            return None;
        }
        let ghost o = self.nodes@;
        let ghost on = self.names@;
        let mut root = Node::bare(PartKind::Person, req.target, req.position);
        root.body_root = true;
        root.health = Some(START_HEALTH);
        root.speed = req.speed;
        root.bob = Some(0);
        root.facing = Some(req.facing);
        root.looking_for_work = true;
        let id = self.push(root, String::from_str("Person"));
        let body = self.push(
            Node::bare(PartKind::Body, Some(id), Vec3i::new(0, 640_000_000, 0)),
            String::from_str("BodyOdy"),
        );
        let mut arm = Node::bare(PartKind::Arm, Some(body), Vec3i::new(-100_000_000, 600_000_000, 0));
        arm.roll = ARM_ROLL;
        self.push(arm, String::from_str("Arm1"));
        let mut arm = Node::bare(PartKind::Arm, Some(body), Vec3i::new(100_000_000, 600_000_000, 0));
        arm.roll = -ARM_ROLL;
        self.push(arm, String::from_str("Arm2"));
        let head = if req.speed < SERVANT_SPEED {
            PartKind::Head
        } else {
            PartKind::ServantHead
        };
        self.push(
            Node::bare(head, Some(body), Vec3i::new(0, 710_000_000, -10_000_000)),
            String::from_str("head"),
        );
        let mut leg = Node::bare(PartKind::Leg, Some(body), Vec3i::new(-100_000_000, 160_000_000, 0));
        leg.phase = Some(FIRST_LEG_PHASE);
        self.push(leg, String::from_str("leg1"));
        let mut leg = Node::bare(PartKind::Leg, Some(body), Vec3i::new(100_000_000, 160_000_000, 0));
        leg.phase = Some(SECOND_LEG_PHASE);
        self.push(leg, String::from_str("leg2"));
        proof {
            assert(self.nodes@ =~= o + person_nodes(o.len() as int, req));
            assert(self.names@.subrange(0, on.len() as int) =~= on);
            assert forall|i: int| 0 <= i < o.len() implies #[trigger] self.nodes@[i].health
                == o[i].health by {
                assert(self.nodes@[i] == o[i]);
            }
        }
        Some(id)
    }

    /// Adds a free-standing root for a scenery scene named `name` at
    /// `translation`, with no tags, health or timers; the nodes its scene
    /// brings are tagged when it has loaded. Does nothing and gives `None`
    /// when the arena is full.
    pub fn add_scenery(&mut self, name: String, translation: Vec3i) -> (r: Option<EntityId>)
        requires
            old(self).wf(),
        ensures
            final(self).wf(),
            health_not_raised(old(self).nodes@, final(self).nodes@),
            !has_room(old(self).nodes@, 1) ==> r is None && final(self).nodes@ == old(self).nodes@
                && final(self).names@ == old(self).names@,
            has_room(old(self).nodes@, 1) ==> {
                &&& r == Some(old(self).nodes@.len() as EntityId)
                &&& final(self).nodes@ == old(self).nodes@.push(
                    bare(PartKind::Scenery, None, translation),
                )
                &&& final(self).names@ == old(self).names@.push(name)
            },
    {
        if !self.room_for(1) {
            return None;
        }
        let ghost o = self.nodes@;
        let id = self.push(Node::bare(PartKind::Scenery, None, translation), name);
        proof {
            assert forall|i: int| 0 <= i < o.len() implies #[trigger] self.nodes@[i].health
                == o[i].health by {
                assert(self.nodes@[i] == o[i]);
            }
        }
        Some(id)
    }

    /// Attaches under `target` the part that the tool `item` carries: the
    /// servant's head for a head, a leg for a leg, a plinth otherwise.
    /// Does nothing and gives `None` when `target` is gone or the arena is
    /// full.
    pub fn attach_body_part(&mut self, target: EntityId, item: ItemId, position: Vec3i, normal: Dir3) -> (r:
        Option<EntityId>)
        requires
            old(self).wf(),
        ensures
            final(self).wf(),
            health_not_raised(old(self).nodes@, final(self).nodes@),
            attach_refused(old(self).nodes@, target) ==> r is None && final(self).nodes@ == old(
                self,
            ).nodes@ && final(self).names@ == old(self).names@,
            !attach_refused(old(self).nodes@, target) ==> {
                &&& r == Some(old(self).nodes@.len() as EntityId)
                &&& final(self).nodes@ == old(self).nodes@.push(
                    attached_part(target, item, position, normal),
                )
                &&& final(self).names@.len() == old(self).names@.len() + 1
                &&& final(self).names@.last()@ == attached_name(item)
                &&& final(self).names@.drop_last() == old(self).names@
            },
    {
        if !self.is_alive(target) || !self.room_for(1) {
            return None;
        }
        let ghost o = self.nodes@;
        let (kind, name, phase) = match item {
            ItemId::Head => (PartKind::ServantHead, String::from_str("serhead"), None),
            ItemId::Leg => (PartKind::Leg, String::from_str("leg1"), Some(ATTACHED_PART_PHASE)),
            _ => (PartKind::Plinth, String::from_str("apple"), Some(ATTACHED_PART_PHASE)),
        };
        let mut n = Node::bare(kind, Some(target), position);
        n.facing = Some(normal);
        n.phase = phase;
        let ghost on = self.names@;
        let id = self.push(n, name);
        proof {
            assert(self.names@.drop_last() =~= on);
            assert forall|i: int| 0 <= i < o.len() implies #[trigger] self.nodes@[i].health
                == o[i].health by {
                assert(self.nodes@[i] == o[i]);
            }
        }
        Some(id)
    }

    /// The death of the live actor at `root`, whose world position is `at`:
    /// it leaves its parent's children, its whole subtree is destroyed and
    /// a corpse, at the top of its own tree, takes its place at `at`. Does
    /// nothing and gives `None` when `root` is not a live actor.
    pub fn die(&mut self, root: EntityId, at: Vec3i) -> (r: Option<EntityId>)
        requires
            old(self).wf(),
        ensures
            final(self).wf(),
            health_not_raised(old(self).nodes@, final(self).nodes@),
            !can_die(old(self).nodes@, root as int) ==> r is None && final(self).nodes@ == old(
                self,
            ).nodes@ && final(self).names@ == old(self).names@,
            can_die(old(self).nodes@, root as int) ==> {
                &&& r == Some(old(self).nodes@.len() as EntityId)
                &&& final(self).nodes@ == after_death(old(self).nodes@, root as int, at)
                &&& final(self).names@.drop_last() == old(self).names@
                &&& final(self).names@.last()@ == "Corpse"@
            },
    {
        if !(self.is_alive(root) && self.nodes[root].kind == PartKind::Person) {
            return None;
        }
        let ghost o = self.nodes@;
        let ghost on = self.names@;
        self.detach(root);
        let ghost d = self.nodes@;
        self.destroy_subtree(root);
        proof {
            let s = self.nodes@;
            lemma_persons_same(o, d);
            assert(crate::world::in_subtree(d, root as int, root as int));
            lemma_persons_le(d, s);
            assert(is_live_person(d[root as int]) && !is_live_person(s[root as int]));
        }
        let mut corpse = Node::bare(PartKind::Corpse, None, at);
        corpse.carryable = true;
        corpse.body_root = true;
        corpse.health = Some(0);
        let id = self.push(corpse, String::from_str("Corpse"));
        proof {
            assert(self.names@.drop_last() =~= on);
            assert forall|i: int| 0 <= i < o.len() implies #[trigger] self.nodes@[i].health
                == o[i].health by {
                assert(self.nodes@[i].health == without_subtree(d, root as int)[i].health);
                assert(d[i].health == o[i].health);
            }
        }
        Some(id)
    }

    /// A strike from direction `dir` with `power` (metres per second) on
    /// `target`, usually a body part: the actor at the top of its tree
    /// loses `STRIKE_DAMAGE` health and is knocked back, or dies when no
    /// health is left. A strike on an entity that is gone, or whose top is
    /// not an actor with health left, does nothing.
    pub fn strike(&mut self, target: EntityId, dir: Dir3, power: u16) -> (r: StrikeOutcome)
        requires
            old(self).wf(),
            dir.valid(),
        ensures
            final(self).wf(),
            health_not_raised(old(self).nodes@, final(self).nodes@),
            (final(self).nodes@, r) == strike_result(old(self).nodes@, target as int, dir, power),
            r is Killed ==> final(self).names@.drop_last() == old(self).names@
                && final(self).names@.last()@ == "Corpse"@,
            !(r is Killed) ==> final(self).names@ == old(self).names@,
    {
        if !self.is_alive(target) {
            return StrikeOutcome::Ignored;
        }
        let root = self.root_of(target);
        let node = self.nodes[root];
        if node.kind != PartKind::Person {
            return StrikeOutcome::Ignored;
        }
        let h = match node.health {
            Some(h) => h,
            None => {
                return StrikeOutcome::Ignored;
            },
        };
        if h <= 0 {
            return StrikeOutcome::Ignored;
        }
        let ghost o = self.nodes@;
        let left = h - STRIKE_DAMAGE;
        let mut hurt = node;
        hurt.health = Some(left);
        if left <= 0 {
            self.nodes.set(root, hurt);
            proof {
                let s = self.nodes@;
                lemma_persons_same(o, s);
                assert forall|i: int| 0 <= i < s.len() implies match #[trigger] s[i].parent {
                    Some(p) => p < i && (s[i].alive ==> s[p as int].alive),
                    None => true,
                } by {
                    assert(s[i].parent == o[i].parent);
                    match o[i].parent {
                        Some(p) => {
                            assert(s[p as int].alive == o[p as int].alive);
                        },
                        None => {},
                    }
                }
                assert forall|i: int| 0 <= i < s.len() implies match #[trigger] s[i].knockback {
                    Some(k) => k.wf(),
                    None => true,
                } by {
                    assert(s[i].knockback == o[i].knockback);
                }
            }
            let corpse = self.die(root, node.translation);
            proof {
                assert forall|i: int| 0 <= i < o.len() implies #[trigger] self.nodes@[i].health
                    == o[i].health || (self.nodes@[i].health is Some && o[i].health is Some
                    && self.nodes@[i].health.unwrap() < o[i].health.unwrap()) by {
                    if i != root {
                        assert(self.nodes@[i].health == o[i].health);
                    }
                }
            }
            StrikeOutcome::Killed { root, corpse: corpse.unwrap() }
        } else {
            hurt.knockback = Some(Knockback::start(dir, power));
            self.nodes.set(root, hurt);
            proof {
                let s = self.nodes@;
                lemma_persons_same(o, s);
                assert forall|i: int| 0 <= i < s.len() implies match #[trigger] s[i].parent {
                    Some(p) => p < i && (s[i].alive ==> s[p as int].alive),
                    None => true,
                } by {
                    assert(s[i].parent == o[i].parent);
                    match o[i].parent {
                        Some(p) => {
                            assert(s[p as int].alive == o[p as int].alive);
                        },
                        None => {},
                    }
                }
                assert forall|i: int| 0 <= i < s.len() implies match #[trigger] s[i].knockback {
                    Some(k) => k.wf(),
                    None => true,
                } by {
                    if i != root {
                        assert(s[i].knockback == o[i].knockback);
                    }
                }
                assert forall|i: int| 0 <= i < o.len() implies #[trigger] s[i].health == o[i].health
                    || (s[i].health is Some && o[i].health is Some && s[i].health.unwrap()
                    < o[i].health.unwrap()) by {
                    if i != root {
                        assert(s[i].health == o[i].health);
                    }
                }
            }
            StrikeOutcome::Damaged { root, health: left }
        }
    }

    /// Removes `id` from its parent's children, then destroys it and
    /// everything below it. Does nothing when `id` is gone.
    pub fn destroy(&mut self, id: EntityId)
        requires
            old(self).wf(),
        ensures
            final(self).wf(),
            health_not_raised(old(self).nodes@, final(self).nodes@),
            final(self).names@ == old(self).names@,
            !old(self).alive(id as int) ==> final(self).nodes@ == old(self).nodes@,
            old(self).alive(id as int) ==> final(self).nodes@ == without_subtree(
                old(self).nodes@.update(id as int, Node { parent: None, ..old(self).nodes@[id as int] }),
                id as int,
            ),
    {
        if !self.is_alive(id) {
            return ;
        }
        let ghost o = self.nodes@;
        self.detach(id);
        let ghost d = self.nodes@;
        self.destroy_subtree(id);
        proof {
            assert forall|i: int| 0 <= i < o.len() implies #[trigger] self.nodes@[i].health
                == o[i].health by {
                assert(self.nodes@[i].health == without_subtree(d, id as int)[i].health);
                assert(d[i].health == o[i].health);
            }
        }
    }
}

} // verus!
