use actor_core::dispatch::{choose_command, Command, RayHit, STRIKE_POWER};
use actor_core::geometry::{Dir3, Vec3i};
use actor_core::inventory::ItemId;
use actor_core::knockback::{Knockback, KNOCKBACK_DURATION};
use actor_core::lifecycle::{SpawnPerson, StrikeOutcome, START_HEALTH, STRIKE_DAMAGE};
use actor_core::world::{EntityId, PartKind, World};

fn forward() -> Dir3 {
    Dir3 { x: 0, y: 0, z: -1000 }
}

fn spawn_at(w: &mut World, position: Vec3i, speed: u32) -> EntityId {
    w.spawn_person(SpawnPerson { position, facing: forward(), speed, target: None })
        .expect("a free-standing actor always spawns")
}

#[test]
fn four_strikes_kill_and_leave_one_corpse() {
    let mut w = World::new();
    let at = Vec3i::new(3_000_000_000, 0, -7_000_000_000);
    let root = spawn_at(&mut w, at, 250);
    let head = root + 4;
    assert_eq!(w.get(head).unwrap().kind, PartKind::Head);

    let expected = [75, 50, 25];
    for h in expected {
        match w.strike(head, forward(), STRIKE_POWER) {
            StrikeOutcome::Damaged { root: r, health } => {
                assert_eq!(r, root);
                assert_eq!(health, h);
                assert_eq!(w.get(root).unwrap().health, Some(h));
            }
            other => panic!("unexpected outcome {:?}", other),
        }
    }
    let before = w.len();
    let corpse = match w.strike(head, forward(), STRIKE_POWER) {
        StrikeOutcome::Killed { root: r, corpse } => {
            assert_eq!(r, root);
            corpse
        }
        other => panic!("unexpected outcome {:?}", other),
    };
    assert_eq!(w.len(), before + 1);
    let c = w.get(corpse).unwrap();
    assert_eq!(c.kind, PartKind::Corpse);
    assert_ne!(c.kind, PartKind::Person);
    assert_eq!(c.health, Some(0));
    assert!(c.carryable);
    assert_eq!(c.translation, at);
    assert_eq!(w.name(corpse).unwrap(), "Corpse");
    for id in root..root + 7 {
        assert!(!w.is_alive(id));
    }
    let corpses = (0..w.len()).filter(|&i| w.get(i).map(|n| n.kind) == Some(PartKind::Corpse)).count();
    assert_eq!(corpses, 1);
}

#[test]
fn strikes_after_death_change_nothing() {
    let mut w = World::new();
    let root = spawn_at(&mut w, Vec3i::zero(), 250);
    for _ in 0..4 {
        w.strike(root + 1, forward(), STRIKE_POWER);
    }
    let len = w.len();
    let corpse = len - 1;
    assert_eq!(w.strike(root + 1, forward(), STRIKE_POWER), StrikeOutcome::Ignored);
    assert_eq!(w.strike(root, forward(), STRIKE_POWER), StrikeOutcome::Ignored);
    assert_eq!(w.strike(corpse, forward(), STRIKE_POWER), StrikeOutcome::Ignored);
    assert_eq!(w.die(root, Vec3i::zero()), None);
    assert_eq!(w.len(), len);
    assert_eq!(w.get(corpse).unwrap().health, Some(0));
}

#[test]
fn each_strike_takes_exactly_the_damage() {
    let mut w = World::new();
    let root = spawn_at(&mut w, Vec3i::zero(), 100);
    assert_eq!(w.get(root).unwrap().health, Some(START_HEALTH));
    w.strike(root + 2, forward(), STRIKE_POWER);
    assert_eq!(w.get(root).unwrap().health, Some(START_HEALTH - STRIKE_DAMAGE));
    w.tick(16_000);
    w.schedule_tasks();
    assert_eq!(w.get(root).unwrap().health, Some(START_HEALTH - STRIKE_DAMAGE));
}

#[test]
fn strike_on_scenery_is_ignored() {
    let mut w = World::new();
    let root = spawn_at(&mut w, Vec3i::zero(), 100);
    let plinth = w
        .attach_body_part(root, ItemId::Apple, Vec3i::zero(), forward())
        .unwrap();
    w.detach(plinth);
    assert_eq!(w.strike(plinth, forward(), STRIKE_POWER), StrikeOutcome::Ignored);
    assert_eq!(w.strike(12345, forward(), STRIKE_POWER), StrikeOutcome::Ignored);
    assert_eq!(w.get(root).unwrap().health, Some(START_HEALTH));
}

#[test]
fn strike_starts_a_flat_knockback() {
    let mut w = World::new();
    let root = spawn_at(&mut w, Vec3i::zero(), 100);
    w.strike(root + 1, Dir3 { x: 600, y: -800, z: 0 }, STRIKE_POWER);
    let k = w.get(root).unwrap().knockback.unwrap();
    assert_eq!(k.velocity, Vec3i::new(12_000, 0, 0));
    assert_eq!(k.elapsed, 0);
    assert_eq!(k.duration, KNOCKBACK_DURATION);
}

#[test]
fn knockback_moves_the_root_until_its_time_is_up() {
    let mut w = World::new();
    let root = spawn_at(&mut w, Vec3i::zero(), 100);
    w.strike(root + 1, Dir3 { x: 1000, y: 0, z: 0 }, STRIKE_POWER);
    w.tick(100_000);
    assert_eq!(w.get(root).unwrap().translation.x, 2_000_000_000);
    w.tick(99_999);
    assert_eq!(w.get(root).unwrap().translation.x, 3_999_980_000);
    w.tick(1);
    assert_eq!(w.get(root).unwrap().translation.x, 3_999_980_000);
    w.tick(50_000);
    assert_eq!(w.get(root).unwrap().translation.x, 3_999_980_000);
    assert!(w.get(root).unwrap().knockback.unwrap().is_finished());
}

#[test]
fn knockback_stops_exactly_at_its_duration() {
    let mut k = Knockback::start(Dir3 { x: 0, y: 0, z: -1000 }, 20);
    assert_eq!(k.advance(150_000), Vec3i::new(0, 0, -3_000_000_000));
    assert!(!k.is_finished());
    assert_eq!(k.advance(50_000), Vec3i::zero());
    assert!(k.is_finished());
    assert_eq!(k.elapsed, KNOCKBACK_DURATION);
    assert_eq!(k.advance(u32::MAX), Vec3i::zero());
    assert_eq!(k.elapsed, KNOCKBACK_DURATION);
}

#[test]
fn no_hit_gives_no_command() {
    for tool in [ItemId::Fist, ItemId::Sword, ItemId::Cloner, ItemId::Head, ItemId::Leg] {
        assert_eq!(choose_command(None, true, tool, forward()), None);
    }
    let mut w = World::new();
    let root = spawn_at(&mut w, Vec3i::zero(), 100);
    let before: Vec<_> = (0..w.len()).map(|i| w.get(i)).collect();
    let queue: Vec<Command> = choose_command(None, true, ItemId::Sword, forward()).into_iter().collect();
    w.commit(&queue);
    let after: Vec<_> = (0..w.len()).map(|i| w.get(i)).collect();
    assert_eq!(before, after);
    assert!(w.is_alive(root));
}

#[test]
fn trigger_not_pressed_gives_no_command() {
    let hit = RayHit { entity: 3, normal: forward(), local_point: Vec3i::zero() };
    assert_eq!(choose_command(Some(hit), false, ItemId::Fist, forward()), None);
    assert_eq!(choose_command(Some(hit), true, ItemId::Apple, forward()), None);
}

#[test]
fn each_tool_gives_its_command() {
    let p = Vec3i::new(1, 2, 3);
    let n = Dir3 { x: 0, y: 1000, z: 0 };
    let hit = RayHit { entity: 9, normal: n, local_point: p };
    assert_eq!(
        choose_command(Some(hit), true, ItemId::Cloner, forward()),
        Some(Command::Spawn(SpawnPerson { position: p, facing: n, speed: 0, target: Some(9) }))
    );
    assert_eq!(choose_command(Some(hit), true, ItemId::Sword, forward()), Some(Command::Destroy(9)));
    assert_eq!(
        choose_command(Some(hit), true, ItemId::Fist, forward()),
        Some(Command::Strike { target: 9, dir: forward(), power: 20 })
    );
    assert_eq!(
        choose_command(Some(hit), true, ItemId::Leg, forward()),
        Some(Command::Attach { target: 9, item: ItemId::Leg, position: p, normal: n })
    );
    assert_eq!(
        choose_command(Some(hit), true, ItemId::Head, forward()),
        Some(Command::Attach { target: 9, item: ItemId::Head, position: p, normal: n })
    );
}

#[test]
fn sword_detaches_and_destroys_the_subtree() {
    let mut w = World::new();
    let root = spawn_at(&mut w, Vec3i::zero(), 100);
    let body = root + 1;
    assert!(w.children_of(root).contains(&body));
    let hit = RayHit { entity: body, normal: forward(), local_point: Vec3i::zero() };
    let cmd = choose_command(Some(hit), true, ItemId::Sword, forward()).unwrap();
    w.commit(&vec![cmd]);
    assert!(w.is_alive(root));
    assert!(!w.children_of(root).contains(&body));
    assert!(w.children_of(root).is_empty());
    for id in body..root + 7 {
        assert!(!w.is_alive(id));
        assert_eq!(w.get(id), None);
    }
    assert_eq!(w.get(root).unwrap().health, Some(START_HEALTH));
}

#[test]
fn cloner_spawns_under_the_hit_entity() {
    let mut w = World::new();
    let root = spawn_at(&mut w, Vec3i::zero(), 100);
    let hit = RayHit { entity: root + 1, normal: forward(), local_point: Vec3i::new(5, 6, 7) };
    let cmd = choose_command(Some(hit), true, ItemId::Cloner, forward()).unwrap();
    let first = w.len();
    w.apply(cmd);
    assert_eq!(w.len(), first + 7);
    let clone = w.get(first).unwrap();
    assert_eq!(clone.kind, PartKind::Person);
    assert_eq!(clone.parent, Some(root + 1));
    assert_eq!(clone.speed, 0);
    assert_eq!(clone.translation, Vec3i::new(5, 6, 7));
    assert_eq!(w.root_of(first + 4), root);
}

#[test]
fn commands_on_destroyed_targets_do_nothing() {
    let mut w = World::new();
    let root = spawn_at(&mut w, Vec3i::zero(), 100);
    w.destroy(root + 1);
    let len = w.len();
    let queue = vec![
        Command::Spawn(SpawnPerson { position: Vec3i::zero(), facing: forward(), speed: 0, target: Some(root + 2) }),
        Command::Attach { target: root + 3, item: ItemId::Head, position: Vec3i::zero(), normal: forward() },
        Command::Strike { target: root + 4, dir: forward(), power: 20 },
        Command::Destroy(root + 5),
    ];
    w.commit(&queue);
    assert_eq!(w.len(), len);
    assert_eq!(w.get(root).unwrap().health, Some(START_HEALTH));
}

#[test]
fn destroying_a_root_removes_its_whole_tree() {
    let mut w = World::new();
    let root = spawn_at(&mut w, Vec3i::zero(), 100);
    let other = spawn_at(&mut w, Vec3i::new(1, 0, 0), 100);
    w.destroy_subtree(root);
    for id in root..root + 7 {
        assert_eq!(w.get(id), None);
        assert!(w.children_of(id).is_empty());
    }
    for id in other..other + 7 {
        assert!(w.is_alive(id));
    }
    assert_eq!(w.children_of(other + 1).len(), 5);
    assert_eq!(w.root_of(other + 6), other);
}

#[test]
fn requests_on_missing_targets_return_none() {
    let mut w = World::new();
    let root = spawn_at(&mut w, Vec3i::zero(), 100);
    w.destroy(root);
    let len = w.len();
    let req = SpawnPerson { position: Vec3i::zero(), facing: forward(), speed: 0, target: Some(root + 1) };
    assert_eq!(w.spawn_person(req), None);
    assert_eq!(w.attach_body_part(root + 2, ItemId::Leg, Vec3i::zero(), forward()), None);
    assert_eq!(w.die(root, Vec3i::zero()), None);
    assert_eq!(w.len(), len);
}

#[test]
fn die_needs_a_live_actor() {
    let mut w = World::new();
    let root = spawn_at(&mut w, Vec3i::new(9, 8, 7), 100);
    assert_eq!(w.die(root + 1, Vec3i::zero()), None);
    let part = w.attach_body_part(root + 1, ItemId::Head, Vec3i::zero(), forward()).unwrap();
    assert_eq!(w.get(part).unwrap().kind, PartKind::ServantHead);
    assert_eq!(w.name(part).unwrap(), "serhead");
    let corpse = w.die(root, Vec3i::new(9, 8, 7)).unwrap();
    assert_eq!(w.get(corpse).unwrap().translation, Vec3i::new(9, 8, 7));
    assert!(!w.is_alive(part));
    assert_eq!(w.die(corpse, Vec3i::zero()), None);
}

#[test]
fn an_actor_under_another_entity_dies_too() {
    let mut w = World::new();
    let root = spawn_at(&mut w, Vec3i::zero(), 100);
    let hit = RayHit { entity: root + 1, normal: forward(), local_point: Vec3i::new(5, 6, 7) };
    let clone = w.len();
    w.apply(choose_command(Some(hit), true, ItemId::Cloner, forward()).unwrap());
    assert_eq!(w.get(clone).unwrap().parent, Some(root + 1));
    let len = w.len();
    let at = Vec3i::new(1_000, 2_000, 3_000);
    let corpse = w.die(clone, at).unwrap();
    assert_eq!(corpse, len);
    assert_eq!(w.len(), len + 1);
    for id in clone..clone + 7 {
        assert!(!w.is_alive(id));
    }
    assert!(!w.children_of(root + 1).contains(&clone));
    let c = w.get(corpse).unwrap();
    assert_eq!(c.kind, PartKind::Corpse);
    assert_eq!(c.parent, None);
    assert_eq!(c.translation, at);
    assert_eq!(c.health, Some(0));
    for id in root..root + 7 {
        assert!(w.is_alive(id));
    }
    assert_eq!(w.get(root).unwrap().health, Some(START_HEALTH));
}

#[test]
fn scenery_roots_take_their_scene_tags() {
    let mut w = World::new();
    let house = w.add_scenery("home".to_string(), Vec3i::new(0, 0, 40_000_000_000)).unwrap();
    assert_eq!(w.get(house).unwrap().kind, PartKind::Scenery);
    assert_eq!(w.get(house).unwrap().parent, None);
    assert_eq!(w.get(house).unwrap().health, None);
    let loaded = vec![
        actor_core::lifecycle::LoadedNode { name: "WallMesh".to_string(), parent: None },
        actor_core::lifecycle::LoadedNode { name: "HallFloor".to_string(), parent: Some(0) },
    ];
    let first = w.scene_ready(house, &loaded).unwrap();
    assert!(w.get(first).unwrap().tags.pickable);
    assert!(w.get(first + 1).unwrap().tags.terrain);
    assert_eq!(w.strike(first, forward(), STRIKE_POWER), StrikeOutcome::Ignored);
}

#[test]
fn a_run_of_steps_moves_only_before_the_duration() {
    let mut k = Knockback::start(Dir3 { x: 1000, y: 0, z: 0 }, 20);
    let d = k.advance_all(&vec![100_000, 50_000, 60_000, 10_000]);
    assert_eq!(d, Vec3i::new(3_000_000_000, 0, 0));
    assert_eq!(k.elapsed, KNOCKBACK_DURATION);
    assert!(k.is_finished());
    assert_eq!(k.advance_all(&vec![1, 2, 3]), Vec3i::zero());
    let mut fresh = Knockback::start(Dir3 { x: 0, y: 0, z: -500 }, 20);
    assert_eq!(fresh.advance_all(&vec![]), Vec3i::zero());
    assert_eq!(fresh.advance_all(&vec![199_999]), Vec3i::new(0, 0, -1_999_990_000));
}
