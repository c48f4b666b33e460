//! From a ray-cast hit and the selected tool to a command, and the
//! command buffer that applies queued commands at the end of a tick.
use vstd::prelude::*;
use crate::geometry::{Dir3, Vec3i};
use crate::inventory::ItemId;
use crate::lifecycle::{
    attach_refused,
    attached_part,
    health_not_raised,
    person_nodes,
    strike_result,
    spawn_refused,
    SpawnPerson,
};
use crate::world::{without_subtree, EntityId, Node, World};

verus! {

/// Power of a strike with the bare fist, in metres per second.
pub const STRIKE_POWER: u16 = 20;

/// Where the player's ray met a pickable entity.
#[derive(Clone, Copy, Debug, PartialEq, Eq, Structural)]
pub struct RayHit {
    pub entity: EntityId,
    /// Surface normal at the hit.
    pub normal: Dir3,
    /// The hit point in the hit entity's own frame, in nanometres.
    pub local_point: Vec3i,
}

/// A change to the forest, queued while the tick reads it.
#[derive(Clone, Copy, Debug, PartialEq, Eq, Structural)]
pub enum Command {
    Spawn(SpawnPerson),
    /// Detach the entity from its parent and destroy its subtree.
    Destroy(EntityId),
    Strike { target: EntityId, dir: Dir3, power: u16 },
    Attach { target: EntityId, item: ItemId, position: Vec3i, normal: Dir3 },
}

/// The command that the trigger starts with `tool` selected, given what
/// the ray hit and the aim direction `aim`.
pub open spec fn command_for(hit: Option<RayHit>, pressed: bool, tool: ItemId, aim: Dir3) -> Option<
    Command,
> {
    match hit {
        None => None,
        Some(h) => if !pressed {
            None
        } else {
            match tool {
                ItemId::Cloner => Some(
                    Command::Spawn(
                        SpawnPerson {
                            position: h.local_point,
                            facing: h.normal,
                            speed: 0,
                            target: Some(h.entity),
                        },
                    ),
                ),
                ItemId::Sword => Some(Command::Destroy(h.entity)),
                ItemId::Fist => Some(
                    Command::Strike { target: h.entity, dir: aim, power: STRIKE_POWER },
                ),
                ItemId::Head => Some(
                    Command::Attach {
                        target: h.entity,
                        item: ItemId::Head,
                        position: h.local_point,
                        normal: h.normal,
                    },
                ),
                ItemId::Leg => Some(
                    Command::Attach {
                        target: h.entity,
                        item: ItemId::Leg,
                        position: h.local_point,
                        normal: h.normal,
                    },
                ),
                _ => None,
            }
        },
    }
}

/// A strike's direction is a valid direction.
pub open spec fn command_ok(c: Command) -> bool {
    match c {
        Command::Strike { dir, .. } => dir.valid(),
        _ => true,
    }
}

/// The forest after `c`.
pub open spec fn apply_result(nodes: Seq<Node>, c: Command) -> Seq<Node> {
    match c {
        Command::Spawn(req) => if spawn_refused(nodes, req) {
            nodes
        } else {
            nodes + person_nodes(nodes.len() as int, req)
        },
        Command::Destroy(id) => if 0 <= id < nodes.len() && nodes[id as int].alive {
            without_subtree(nodes.update(id as int, Node { parent: None, ..nodes[id as int] }), id as int)
        } else {
            nodes
        },
        Command::Strike { target, dir, power } => strike_result(nodes, target as int, dir, power).0,
        Command::Attach { target, item, position, normal } => if attach_refused(nodes, target) {
            nodes
        } else {
            nodes.push(attached_part(target, item, position, normal))
        },
    }
}

/// The forest after the commands of `cmds`, in order.
pub open spec fn commit_result(nodes: Seq<Node>, cmds: Seq<Command>) -> Seq<Node> {
    cmds.fold_left(nodes, |acc: Seq<Node>, c: Command| apply_result(acc, c))
}

/// The command for one press of the trigger: nothing when the ray hit
/// nothing or the trigger was not just pressed. A cloner spawns a still
/// actor at the hit point under the hit entity, a sword destroys the hit
/// entity, a fist strikes it, and a head or a leg is attached to it.
pub fn choose_command(hit: Option<RayHit>, pressed: bool, tool: ItemId, aim: Dir3) -> (r: Option<
    Command,
>)
    ensures
        r == command_for(hit, pressed, tool, aim),
        aim.valid() && r is Some ==> command_ok(r.unwrap()),
{
    let h = match hit {
        None => {
            return None;
        },
        Some(h) => h,
    };
    if !pressed {
        return None;
    }
    match tool {
        ItemId::Cloner => Some(
            Command::Spawn(
                SpawnPerson {
                    position: h.local_point,
                    facing: h.normal,
                    speed: 0,
                    target: Some(h.entity),
                },
            ),
        ),
        ItemId::Sword => Some(Command::Destroy(h.entity)),
        ItemId::Fist => Some(Command::Strike { target: h.entity, dir: aim, power: STRIKE_POWER }),
        ItemId::Head => Some(
            Command::Attach {
                target: h.entity,
                item: ItemId::Head,
                position: h.local_point,
                normal: h.normal,
            },
        ),
        ItemId::Leg => Some(
            Command::Attach {
                target: h.entity,
                item: ItemId::Leg,
                position: h.local_point,
                normal: h.normal,
            },
        ),
        _ => None,
    }
}

impl World {
    /// Applies one command.
    pub fn apply(&mut self, c: Command)
        requires
            old(self).wf(),
            command_ok(c),
        ensures
            final(self).wf(),
            health_not_raised(old(self).nodes@, final(self).nodes@),
            final(self).nodes@ == apply_result(old(self).nodes@, c),
    {
        match c {
            Command::Spawn(req) => {
                self.spawn_person(req);
            },
            Command::Destroy(id) => {
                self.destroy(id);
            },
            Command::Strike { target, dir, power } => {
                let _ = self.strike(target, dir, power);
            },
            Command::Attach { target, item, position, normal } => {
                self.attach_body_part(target, item, position, normal);
            },
        }
    }

    /// Applies the queued commands in order, at the end of a tick.
    pub fn commit(&mut self, queue: &Vec<Command>)
        requires
            old(self).wf(),
            forall|k: int| 0 <= k < queue@.len() ==> command_ok(#[trigger] queue@[k]),
        ensures
            final(self).wf(),
            health_not_raised(old(self).nodes@, final(self).nodes@),
            final(self).nodes@ == commit_result(old(self).nodes@, queue@),
    {
        let mut i: usize = 0;
        while i < queue.len()
            invariant
                self.wf(),
                i <= queue@.len(),
                forall|k: int| 0 <= k < queue@.len() ==> command_ok(#[trigger] queue@[k]),
                health_not_raised(old(self).nodes@, self.nodes@),
                self.nodes@ == commit_result(old(self).nodes@, queue@.subrange(0, i as int)),
            decreases queue@.len() - i,
        {
            let ghost before = self.nodes@;
            self.apply(queue[i]);
            proof {
                let s = queue@.subrange(0, i + 1);
                assert(s.drop_last() =~= queue@.subrange(0, i as int));
                assert(s.last() == queue@[i as int]);
                assert forall|j: int| 0 <= j < old(self).nodes@.len() implies #[trigger] self.nodes@[j].health
                    == old(self).nodes@[j].health || (self.nodes@[j].health is Some
                    && old(self).nodes@[j].health is Some && self.nodes@[j].health.unwrap()
                    < old(self).nodes@[j].health.unwrap()) by {
                    assert(before[j].health == old(self).nodes@[j].health || (before[j].health is Some
                        && old(self).nodes@[j].health is Some && before[j].health.unwrap()
                        < old(self).nodes@[j].health.unwrap()));
                    assert(self.nodes@[j].health == before[j].health || (self.nodes@[j].health is Some
                        && before[j].health is Some && self.nodes@[j].health.unwrap()
                        < before[j].health.unwrap()));
                }
            }
            i = i + 1;
        }
        assert(queue@.subrange(0, i as int) =~= queue@);
    }
}

} // verus!
