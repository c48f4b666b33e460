//! Runtime core of a small 3D actor simulation: an ownership forest of
//! entities, the tagging of freshly loaded scene nodes, procedural joint
//! animation, combat (damage, knockback, death) and the mapping from a
//! ray-cast hit and the selected tool to a mutation of the forest.
//!
//! All quantities are integers: time in microseconds, lengths in
//! nanometres, velocities in millimetres per second, angles in
//! milliradians and unit vectors in thousandths.
pub mod animation;
pub mod dispatch;
pub mod geometry;
pub mod hotbar;
pub mod inventory;
pub mod knockback;
pub mod laws;
pub mod lifecycle;
pub mod names;
pub mod population;
pub mod scene;
pub mod systems;
pub mod tagging;
pub mod world;
