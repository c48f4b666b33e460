use actor_core::animation::{
    bob_step, BOB_AMPLITUDE,
    cosine_thousandths, cycle_pose, joint_pose, sine_thousandths, CYCLE_AMPLITUDE, CYCLE_PERIOD,
    JOINT_BEND_AMPLITUDE, JOINT_PERIOD, JOINT_TWIST_AMPLITUDE,
};
use actor_core::geometry::{Dir3, Vec3i};
use actor_core::lifecycle::{LoadedNode, SpawnPerson, FIRST_LEG_PHASE, SECOND_LEG_PHASE};
use actor_core::tagging::{tag_node, HAND_PHASE, HEAD_PHASE, SHOULDER_PHASE};
use actor_core::world::{PartKind, Tags, World};

fn node(name: &str, parent: Option<usize>) -> LoadedNode {
    LoadedNode { name: name.to_string(), parent }
}

fn tags(joint: bool, joint_cycle: bool, pickable: bool, terrain: bool) -> Tags {
    Tags { joint, joint_cycle, pickable, terrain }
}

#[test]
fn rule_table_matches_names() {
    let t = tag_node("forearm", 0).unwrap();
    assert_eq!(t.tags, tags(true, false, false, false));
    assert_eq!(t.phase, Some(0));
    assert_eq!(tag_node("shoulder", 0).unwrap().phase, Some(SHOULDER_PHASE));
    assert_eq!(tag_node("hand", 0).unwrap().phase, Some(HAND_PHASE));
    let m = tag_node("BodyMesh", 7).unwrap();
    assert_eq!(m.tags, tags(false, false, true, false));
    assert_eq!(m.phase, None);
    assert_eq!(tag_node("GrassFloor", 0).unwrap().tags, tags(false, false, false, true));
    let h = tag_node("HeadBone", 0).unwrap();
    assert_eq!(h.tags, tags(false, true, true, false));
    assert_eq!(h.phase, Some(HEAD_PHASE));
    let s = tag_node("SerheadBone", 0).unwrap();
    assert_eq!(s.tags, tags(true, false, true, false));
    assert_eq!(tag_node("LegLowerBone", 0), None);
    let l = tag_node("LegLowerBone", 5).unwrap();
    assert_eq!(l.tags, tags(false, true, false, false));
    assert_eq!(l.phase, Some(5));
    assert_eq!(tag_node("handle", 0), None);
    assert_eq!(tag_node("", 0), None);
    assert_eq!(tag_node("Mesh", 0).unwrap().tags, tags(false, false, true, false));
    assert_eq!(tag_node("forearmMesh", 0).unwrap().tags, tags(false, false, true, false));
}

#[test]
fn scene_nodes_are_tagged_once() {
    let mut w = World::new();
    let root = w
        .spawn_person(SpawnPerson { position: Vec3i::zero(), facing: Dir3 { x: 1000, y: 0, z: 0 }, speed: 0, target: None })
        .unwrap();
    let arm = root + 2;
    let loaded = vec![node("shoulder", None), node("forearm", Some(0)), node("hand", Some(1)), node("ArmMesh", Some(2))];
    let first = w.scene_ready(arm, &loaded).unwrap();
    assert_eq!(first, root + 7);
    assert!(w.get(arm).unwrap().loaded);
    assert_eq!(w.get(first).unwrap().parent, Some(arm));
    assert_eq!(w.get(first + 1).unwrap().parent, Some(first));
    assert_eq!(w.get(first + 3).unwrap().parent, Some(first + 2));
    assert_eq!(w.get(first + 1).unwrap().phase, Some(0));
    assert!(w.get(first + 3).unwrap().tags.pickable);
    assert_eq!(w.get(first + 3).unwrap().kind, PartKind::SceneNode);
    assert_eq!(w.name(first + 2).unwrap(), "hand");

    w.tick(500_000);
    let len = w.len();
    assert_eq!(w.scene_ready(arm, &loaded), None);
    assert_eq!(w.len(), len);
    assert_eq!(w.get(first + 1).unwrap().phase, Some(500_000));
}

#[test]
fn scene_of_destroyed_root_is_ignored() {
    let mut w = World::new();
    let root = w
        .spawn_person(SpawnPerson { position: Vec3i::zero(), facing: Dir3 { x: 1000, y: 0, z: 0 }, speed: 0, target: None })
        .unwrap();
    w.destroy(root);
    let len = w.len();
    assert_eq!(w.scene_ready(root + 5, &vec![node("LegLowerBone", None)]), None);
    assert_eq!(w.len(), len);
}

#[test]
fn two_legs_walk_out_of_phase() {
    let mut w = World::new();
    let root = w
        .spawn_person(SpawnPerson { position: Vec3i::zero(), facing: Dir3 { x: 1000, y: 0, z: 0 }, speed: 350, target: None })
        .unwrap();
    let (leg1, leg2) = (root + 5, root + 6);
    assert_eq!(w.get(leg1).unwrap().phase, Some(FIRST_LEG_PHASE));
    assert_eq!(w.get(leg2).unwrap().phase, Some(SECOND_LEG_PHASE));
    assert_eq!(w.get(root + 4).unwrap().kind, PartKind::ServantHead);
    w.tick(100_000);
    let b1 = w.scene_ready(leg1, &vec![node("LegUpperBone", None), node("LegLowerBone", Some(0))]).unwrap() + 1;
    let b2 = w.scene_ready(leg2, &vec![node("LegUpperBone", None), node("LegLowerBone", Some(0))]).unwrap() + 1;
    assert_eq!(w.get(b1).unwrap().phase, Some(1_000_000));
    assert_eq!(w.get(b2).unwrap().phase, Some(9_600_000));
    assert!(w.get(b1).unwrap().tags.joint_cycle);
    for _ in 0..3 {
        w.tick(16_000);
    }
    let p1 = cycle_pose(w.get(b1).unwrap().phase.unwrap());
    let p2 = cycle_pose(w.get(b2).unwrap().phase.unwrap());
    assert_ne!(p1, p2);
}

#[test]
fn slow_actor_gets_the_plain_head() {
    let mut w = World::new();
    let root = w
        .spawn_person(SpawnPerson { position: Vec3i::zero(), facing: Dir3 { x: 1000, y: 0, z: 0 }, speed: 299, target: None })
        .unwrap();
    assert_eq!(w.get(root + 4).unwrap().kind, PartKind::Head);
    assert_eq!(w.name(root + 1).unwrap(), "BodyOdy");
    assert_eq!(w.get(root + 1).unwrap().translation, Vec3i::new(0, 640_000_000, 0));
    assert_eq!(w.get(root + 2).unwrap().roll, 1571);
    assert_eq!(w.get(root + 3).unwrap().roll, -1571);
    let r = w.get(root).unwrap();
    assert_eq!(r.health, Some(100));
    assert!(r.body_root && r.looking_for_work);
    w.schedule_tasks();
    let r = w.get(root).unwrap();
    assert!(!r.looking_for_work);
    assert_eq!(r.task, Some(actor_core::world::TownsfolkTaskType::Idle));
}

#[test]
fn waveform_values() {
    assert_eq!(sine_thousandths(0), 0);
    assert_eq!(sine_thousandths(1571), 1000);
    assert_eq!(sine_thousandths(3142), 0);
    assert_eq!(sine_thousandths(4713), -1000);
    assert_eq!(sine_thousandths(6284 + 1571), 1000);
    assert_eq!(cosine_thousandths(0), 1000);
    assert_eq!(cosine_thousandths(3142), -1000);
    let a = sine_thousandths(500);
    assert!(a > 0 && a < 1000);
}

#[test]
fn joint_pose_is_bounded_and_periodic() {
    let p = joint_pose(1_571_000);
    assert_eq!(p.x, 0);
    assert_eq!(p.y, JOINT_BEND_AMPLITUDE);
    assert_eq!(p.z, 0);
    assert_eq!(joint_pose(0).z, JOINT_TWIST_AMPLITUDE);
    for t in [0u64, 1, 999, 123_456, 7_777_777, 1_000_000_000_000, u64::MAX - JOINT_PERIOD] {
        let a = joint_pose(t);
        assert_eq!(a, joint_pose(t + JOINT_PERIOD));
        assert!(a.y.abs() <= JOINT_BEND_AMPLITUDE && a.z.abs() <= JOINT_TWIST_AMPLITUDE);
        let c = cycle_pose(t);
        if t <= u64::MAX - CYCLE_PERIOD {
            assert_eq!(c, cycle_pose(t + CYCLE_PERIOD));
        }
        assert!(c.x.abs() <= CYCLE_AMPLITUDE && c.y == 0 && c.z == 0);
    }
}

#[test]
fn bob_step_values() {
    assert_eq!(bob_step(0), 0);
    assert_eq!(bob_step(157_100), 3_996_000);
    for t in [1u64, 50_000, 314_200, 999_999_999] {
        assert!(bob_step(t).abs() <= BOB_AMPLITUDE);
    }
}
