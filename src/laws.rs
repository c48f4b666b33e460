//! Properties that hold across calls, proved from the contracts of the
//! operations they speak of.
use vstd::prelude::*;
use crate::dispatch::{apply_result, Command};
use crate::geometry::{Dir3, Vec3i};
use crate::lifecycle::{
    after_death,
    can_die,
    corpse_at,
    health_not_raised,
    strike_result,
    struck_root,
    StrikeOutcome,
    STRIKE_DAMAGE,
};
use crate::scene::{after_load, awaits_tagging, load_taken};
use crate::lifecycle::LoadedNode;
use crate::world::{
    has_room,
    in_subtree,
    is_child,
    lemma_persons_pos,
    lemma_root_alive,
    killed,
    lemma_root_in_range,
    links_ok,
    without_subtree,
    Node,
    PartKind,
};

verus! {

/// Whether `x` is below `r` depends only on the parent links of the
/// entities other than `r`.
proof fn lemma_subtree_by_links(a: Seq<Node>, b: Seq<Node>, x: int, r: int)
    requires
        a.len() == b.len(),
        forall|i: int| 0 <= i < a.len() && i != r ==> #[trigger] a[i].parent == b[i].parent,
    ensures
        in_subtree(a, x, r) == in_subtree(b, x, r),
    decreases x,
{
    if 0 <= x < a.len() && x != r {
        assert(a[x].parent == b[x].parent);
        match a[x].parent {
            Some(p) => if p < x {
                lemma_subtree_by_links(a, b, p as int, r);
            },
            None => {},
        }
    }
}

/// Over any run of operations that each keep or lower every entity's
/// health, every entity keeps or loses health from the first state to the
/// last: health never rises.
pub proof fn health_never_rises(a: Seq<Node>, b: Seq<Node>, c: Seq<Node>)
    requires
        health_not_raised(a, b),
        health_not_raised(b, c),
    ensures
        health_not_raised(a, c),
{
    assert forall|i: int| 0 <= i < a.len() implies #[trigger] c[i].health == a[i].health || (
    c[i].health is Some && a[i].health is Some && c[i].health.unwrap() < a[i].health.unwrap()) by {
        assert(b[i].health == a[i].health || (b[i].health is Some && a[i].health is Some
            && b[i].health.unwrap() < a[i].health.unwrap()));
        assert(c[i].health == b[i].health || (c[i].health is Some && b[i].health is Some
            && c[i].health.unwrap() < b[i].health.unwrap()));
    }
}

/// A strike that reaches an actor with health left takes exactly
/// `STRIKE_DAMAGE` from it, whether or not the actor survives.
pub proof fn strike_takes_exact_damage(nodes: Seq<Node>, target: int, dir: Dir3, power: u16)
    requires
        links_ok(nodes),
        struck_root(nodes, target) is Some,
    ensures
        ({
            let r = struck_root(nodes, target).unwrap();
            let after = strike_result(nodes, target, dir, power).0;
            &&& 0 <= r < nodes.len()
            &&& nodes[r].health.unwrap() > 0
            &&& after[r].health == Some((nodes[r].health.unwrap() - STRIKE_DAMAGE) as i64)
        }),
{
    lemma_root_in_range(nodes, target);
    let r = struck_root(nodes, target).unwrap();
    let h = nodes[r].health.unwrap() - STRIKE_DAMAGE;
    if h <= 0 {
        let hurt = nodes.update(r, Node { health: Some(h as i64), ..nodes[r] });
        let d = hurt.update(r, Node { parent: None, ..hurt[r] });
        assert(in_subtree(d, r, r));
        assert(without_subtree(d, r)[r] == killed(d[r]));
    }
}

/// Death happens once and is final: a fatal strike destroys the actor's
/// whole tree and adds exactly one corpse, at the actor's translation and
/// not an actor itself; no later strike on an entity of that tree, nor on
/// the corpse, changes anything.
pub proof fn death_is_final(
    nodes: Seq<Node>,
    target: int,
    dir: Dir3,
    power: u16,
    later: int,
    dir2: Dir3,
    power2: u16,
)
    requires
        links_ok(nodes),
        has_room(nodes, 0),
        strike_result(nodes, target, dir, power).1 is Killed,
    ensures
        ({
            let (after, out) = strike_result(nodes, target, dir, power);
            let root = out->Killed_root as int;
            let corpse = out->Killed_corpse as int;
            &&& after.len() == nodes.len() + 1
            &&& corpse == nodes.len()
            &&& after[corpse] == corpse_at(nodes[root].translation)
            &&& after[corpse].kind != PartKind::Person
            &&& forall|x: int| #[trigger] in_subtree(nodes, x, root) ==> !after[x].alive
            &&& (in_subtree(nodes, later, root) || later == corpse) ==> strike_result(
                after,
                later,
                dir2,
                power2,
            ) == (after, StrikeOutcome::Ignored)
        }),
{
    lemma_root_in_range(nodes, target);
    let r = struck_root(nodes, target).unwrap();
    lemma_root_alive(nodes, target);
    lemma_persons_pos(nodes, r);
    let h = nodes[r].health.unwrap() - STRIKE_DAMAGE;
    let hurt = nodes.update(r, Node { health: Some(h as i64), ..nodes[r] });
    let d = hurt.update(r, Node { parent: None, ..hurt[r] });
    let after = strike_result(nodes, target, dir, power).0;
    assert forall|x: int| #[trigger] in_subtree(nodes, x, r) implies !after[x].alive by {
        lemma_subtree_by_links(nodes, d, x, r);
        assert(without_subtree(d, r)[x] == killed(d[x]));
    }
    if in_subtree(nodes, later, r) {
        assert(!after[later].alive);
    }
    if later == nodes.len() {
        assert(after[later].kind == PartKind::Corpse);
        crate::world::lemma_root_in_range(after, later);
    }
}

/// A death takes the actor out of its parent's children, leaves none of
/// the entities below it alive, keeps every other entity as it was and
/// adds exactly one entity: a corpse at the top of its own tree, at the
/// given position, that is not an actor.
pub proof fn death_replaces_subtree_with_corpse(nodes: Seq<Node>, root: int, at: Vec3i)
    requires
        can_die(nodes, root),
    ensures
        ({
            let after = after_death(nodes, root, at);
            &&& after.len() == nodes.len() + 1
            &&& after[nodes.len() as int] == corpse_at(at)
            &&& after[nodes.len() as int].parent is None
            &&& after[nodes.len() as int].kind != PartKind::Person
            &&& forall|p: int| !#[trigger] is_child(after, root, p)
            &&& forall|x: int| #[trigger] in_subtree(nodes, x, root) ==> !after[x].alive
            &&& forall|x: int|
                0 <= x < nodes.len() && x != root && !in_subtree(nodes, x, root) ==> #[trigger] after[x]
                    == nodes[x]
        }),
{
    let d = nodes.update(root, Node { parent: None, ..nodes[root] });
    let after = after_death(nodes, root, at);
    assert forall|x: int| 0 <= x < nodes.len() implies #[trigger] in_subtree(nodes, x, root) == in_subtree(d, x, root) by {
        lemma_subtree_by_links(nodes, d, x, root);
    }
    assert(in_subtree(d, root, root));
    assert forall|p: int| !#[trigger] is_child(after, root, p) by {
        assert(!after[root].alive);
    }
    assert forall|x: int| #[trigger] in_subtree(nodes, x, root) implies !after[x].alive by {
        assert(0 <= x < nodes.len());
        assert(in_subtree(d, x, root));
    }
    assert forall|x: int|
        0 <= x < nodes.len() && x != root && !in_subtree(nodes, x, root) implies #[trigger] after[x]
            == nodes[x] by {
        assert(!in_subtree(d, x, root));
        assert(d[x] == nodes[x]);
    }
}

/// Destroying an entity leaves none of the entities below it alive, and
/// every entity outside its subtree as it was.
pub proof fn destroy_removes_subtree(nodes: Seq<Node>, r: int)
    requires
        0 <= r < nodes.len(),
    ensures
        without_subtree(nodes, r).len() == nodes.len(),
        forall|x: int| #[trigger] in_subtree(nodes, x, r) ==> !without_subtree(nodes, r)[x].alive,
        forall|x: int|
            0 <= x < nodes.len() && !in_subtree(nodes, x, r) ==> #[trigger] without_subtree(nodes, r)[x]
                == nodes[x],
{
    assert forall|x: int| #[trigger] in_subtree(nodes, x, r) implies !without_subtree(
        nodes,
        r,
    )[x].alive by {
        assert(0 <= x < nodes.len());
    }
}

/// The sword's command takes a live entity out of every child list and
/// destroys everything below it.
pub proof fn sword_detaches_then_destroys(nodes: Seq<Node>, id: int)
    requires
        links_ok(nodes),
        has_room(nodes, 0),
        0 <= id < nodes.len(),
        nodes[id].alive,
    ensures
        ({
            let after = apply_result(nodes, Command::Destroy(id as usize));
            &&& after.len() == nodes.len()
            &&& forall|p: int| !#[trigger] is_child(after, id, p)
            &&& forall|x: int| #[trigger] in_subtree(nodes, x, id) ==> !after[x].alive
            &&& forall|x: int|
                0 <= x < nodes.len() && x != id && !in_subtree(nodes, x, id) ==> #[trigger] after[x]
                    == nodes[x]
        }),
{
    let d = nodes.update(id, Node { parent: None, ..nodes[id] });
    let after = apply_result(nodes, Command::Destroy(id as usize));
    assert(after == without_subtree(d, id));
    assert forall|x: int| 0 <= x < nodes.len() implies #[trigger] in_subtree(nodes, x, id) == in_subtree(d, x, id) by {
        lemma_subtree_by_links(nodes, d, x, id);
    }
    assert(in_subtree(d, id, id));
    assert forall|p: int| !#[trigger] is_child(after, id, p) by {
        assert(!after[id].alive);
    }
    assert forall|x: int| #[trigger] in_subtree(nodes, x, id) implies !after[x].alive by {
        assert(0 <= x < nodes.len());
        assert(in_subtree(d, x, id));
    }
    assert forall|x: int|
        0 <= x < nodes.len() && x != id && !in_subtree(nodes, x, id) implies #[trigger] after[x]
            == nodes[x] by {
        assert(!in_subtree(d, x, id));
        assert(d[x] == nodes[x]);
    }
}

/// Tags are given once per scene: once a scene's nodes are tagged its
/// root no longer awaits tagging, so a repeated notice for the same scene
/// changes nothing.
pub proof fn tagging_happens_once(nodes: Seq<Node>, root: int, loaded: Seq<LoadedNode>)
    requires
        awaits_tagging(nodes, root),
    ensures
        !awaits_tagging(after_load(nodes, root, loaded), root),
        forall|n: int| !#[trigger] load_taken(after_load(nodes, root, loaded), root, n),
        after_load(nodes, root, loaded).len() == nodes.len() + loaded.len(),
        forall|i: int|
            0 <= i < nodes.len() && i != root ==> #[trigger] after_load(nodes, root, loaded)[i]
                == nodes[i],
{
    let after = after_load(nodes, root, loaded);
    assert(after[root].loaded);
}

} // verus!
