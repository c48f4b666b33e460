//! Selection on the hotbar and which tool model the player holds.
use vstd::prelude::*;
use crate::names::{has_prefix, starts_with};

verus! {

/// Number of hotbar slots.
pub const HOTBAR_SLOTS: u32 = 5;

/// The selection after a scroll step: forward past the last slot wraps
/// to the first, backward past the first wraps to the last.
pub open spec fn scrolled(cur: u32, step: i32) -> u32 {
    if step > 0 {
        if cur < HOTBAR_SLOTS - 1 {
            (cur + 1) as u32
        } else {
            0
        }
    } else if step < 0 {
        if cur > 0 {
            (cur - 1) as u32
        } else {
            (HOTBAR_SLOTS - 1) as u32
        }
    } else {
        cur
    }
}

/// The scroll step that a run of wheel movements asks for: the last one
/// decides, and scrolling up (a positive movement) steps backward.
pub open spec fn step_of(wheel: Seq<i32>) -> i32 {
    if wheel.len() == 0 {
        0i32
    } else if wheel.last() > 0 {
        -1i32
    } else if wheel.last() < 0 {
        1i32
    } else {
        0i32
    }
}

/// The scroll step that the wheel movements `wheel` of one tick ask for.
pub fn scroll_step(wheel: &Vec<i32>) -> (r: i32)
    ensures
        r == step_of(wheel@),
{
    if wheel.len() == 0 {
        0
    } else {
        let last = wheel[wheel.len() - 1];
        if last > 0 {
            -1
        } else if last < 0 {
            1
        } else {
            0
        }
    }
}

/// The hotbar slot selected after moving `step` from slot `cur`.
pub fn scroll_selection(cur: u32, step: i32) -> (r: u32)
    ensures
        r == scrolled(cur, step),
{
    if step > 0 {
        if cur < HOTBAR_SLOTS - 1 {
            cur + 1
        } else {
            0
        }
    } else if step < 0 {
        if cur > 0 {
            cur - 1
        } else {
            HOTBAR_SLOTS - 1
        }
    } else {
        cur
    }
}

/// The models of tools that the player can hold.
#[derive(Clone, Copy, Debug, PartialEq, Eq, Structural)]
pub enum ToolModel {
    Hand,
    Cleaver,
    Gun,
}

/// The tool model whose name starts `name`, if any.
pub open spec fn model_named(name: Seq<char>) -> Option<ToolModel> {
    if has_prefix(name, "Hand"@) {
        Some(ToolModel::Hand)
    } else if has_prefix(name, "Cleaver"@) {
        Some(ToolModel::Cleaver)
    } else if has_prefix(name, "Gun"@) {
        Some(ToolModel::Gun)
    } else {
        None
    }
}

/// The tool model that an entity named `name` shows, by the start of its name.
pub fn tool_model_for(name: &str) -> (r: Option<ToolModel>)
    ensures
        r == model_named(name@),
{
    if starts_with(name, "Hand") {
        Some(ToolModel::Hand)
    } else if starts_with(name, "Cleaver") {
        Some(ToolModel::Cleaver)
    } else if starts_with(name, "Gun") {
        Some(ToolModel::Gun)
    } else {
        None
    }
}

/// Whether `model` shows while slot `slot` is selected.
pub open spec fn shown(model: ToolModel, slot: u32) -> bool {
    match model {
        ToolModel::Hand => slot != 1 && slot != 2,
        ToolModel::Cleaver => slot == 1,
        ToolModel::Gun => slot == 2,
    }
}

/// Whether `model` is shown while slot `slot` is selected: the cleaver on
/// the second slot, the gun on the third, the hand on any other.
pub fn tool_model_visible(model: ToolModel, slot: u32) -> (r: bool)
    ensures
        r == shown(model, slot),
{
    match model {
        ToolModel::Hand => slot != 1 && slot != 2,
        ToolModel::Cleaver => slot == 1,
        ToolModel::Gun => slot == 2,
    }
}

} // verus!
