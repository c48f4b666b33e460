//! The rule table that turns the names of loaded scene nodes into role
//! tags and seeded phase timers. Rules are tried in table order and the
//! first that matches wins; a name that no rule matches stays untagged.
use vstd::prelude::*;
use crate::names::{ends_with, has_suffix, same_text};
use crate::world::Tags;

verus! {

/// Phase seed of a forearm joint, in microseconds.
pub const FOREARM_PHASE: u64 = 0;

/// Phase seed of a shoulder joint, in microseconds.
pub const SHOULDER_PHASE: u64 = 10_000_000;

/// Phase seed of a hand joint, in microseconds.
pub const HAND_PHASE: u64 = 3_000_000;

/// Phase seed of the bone of a head, in microseconds.
pub const HEAD_PHASE: u64 = 3_000_000;

/// What a rule gives a node: its tags, and a phase timer where it animates.
#[derive(Clone, Copy, Debug, PartialEq, Eq, Structural)]
pub struct NodeTagging {
    pub tags: Tags,
    pub phase: Option<u64>,
}

/// A rule's outcome built from its flags and phase seed.
pub open spec fn tagging(joint: bool, joint_cycle: bool, pickable: bool, terrain: bool, phase: Option<
    u64,
>) -> NodeTagging {
    NodeTagging { tags: Tags { joint, joint_cycle, pickable, terrain }, phase }
}

/// The first rule that matches `name`, for a scene loaded with phase
/// offset `offset` (microseconds).
pub open spec fn tagging_for(name: Seq<char>, offset: u64) -> Option<NodeTagging> {
    if name == "forearm"@ {
        Some(tagging(true, false, false, false, Some(FOREARM_PHASE)))
    } else if name == "shoulder"@ {
        Some(tagging(true, false, false, false, Some(SHOULDER_PHASE)))
    } else if name == "hand"@ {
        Some(tagging(true, false, false, false, Some(HAND_PHASE)))
    } else if has_suffix(name, "Mesh"@) {
        Some(tagging(false, false, true, false, None))
    } else if has_suffix(name, "Floor"@) {
        Some(tagging(false, false, false, true, None))
    } else if name == "HeadBone"@ {
        Some(tagging(false, true, true, false, Some(HEAD_PHASE)))
    } else if name == "SerheadBone"@ {
        Some(tagging(true, false, true, false, Some(HEAD_PHASE)))
    } else if offset > 0 && name == "LegLowerBone"@ {
        Some(tagging(false, true, false, false, Some(offset)))
    } else {
        None
    }
}

/// The tags and phase seed for a node named `name` in a scene loaded with
/// phase offset `offset`, or `None` where no rule matches.
pub fn tag_node(name: &str, offset: u64) -> (r: Option<NodeTagging>)
    ensures
        r == tagging_for(name@, offset),
{
    let no = Tags { joint: false, joint_cycle: false, pickable: false, terrain: false };
    if same_text(name, "forearm") {
        Some(NodeTagging { tags: Tags { joint: true, ..no }, phase: Some(FOREARM_PHASE) })
    } else if same_text(name, "shoulder") {
        Some(NodeTagging { tags: Tags { joint: true, ..no }, phase: Some(SHOULDER_PHASE) })
    } else if same_text(name, "hand") {
        Some(NodeTagging { tags: Tags { joint: true, ..no }, phase: Some(HAND_PHASE) })
    } else if ends_with(name, "Mesh") {
        Some(NodeTagging { tags: Tags { pickable: true, ..no }, phase: None })
    } else if ends_with(name, "Floor") {
        Some(NodeTagging { tags: Tags { terrain: true, ..no }, phase: None })
    } else if same_text(name, "HeadBone") {
        Some(
            NodeTagging {
                tags: Tags { joint_cycle: true, pickable: true, ..no },
                phase: Some(HEAD_PHASE),
            },
        )
    } else if same_text(name, "SerheadBone") {
        Some(NodeTagging { tags: Tags { joint: true, pickable: true, ..no }, phase: Some(HEAD_PHASE) })
    } else if offset > 0 && same_text(name, "LegLowerBone") {
        Some(NodeTagging { tags: Tags { joint_cycle: true, ..no }, phase: Some(offset) })
    } else {
        None
    }
}

} // verus!
