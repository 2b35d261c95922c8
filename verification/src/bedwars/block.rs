//! Blocks in bedwars: what a placement is answered, and what a door does
//! when it is toggled.
use crate::command::BlockPos;
use vstd::prelude::*;

verus! {

/// The values of a block-state property that these rules read. Every other
/// value is `Other`.
#[derive(Clone, Copy, PartialEq, Eq, Structural, Debug)]
pub enum PropValue {
    True,
    False,
    Upper,
    Lower,
    Other,
}

/// Where a toggled door's other half is.
#[derive(Clone, Copy, PartialEq, Eq, Structural, Debug)]
pub enum OtherHalf {
    /// A trapdoor: there is only one half.
    Alone,
    /// The half above or below, which is toggled too.
    At(BlockPos),
    /// `half` holds neither upper nor lower: the door has been toggled, and
    /// the fault is reported instead of finishing the move.
    Malformed,
}

/// What toggling a door comes to.
#[derive(Clone, Copy, PartialEq, Eq, Structural, Debug)]
pub enum DoorStep {
    /// No door there, or a block without an `open` property: nothing
    /// happens.
    Untouched,
    /// `open` holds neither true nor false: reported, and nothing changes.
    MalformedOpen,
    /// The door's `open` becomes `open`, and then its other half.
    Toggled { open: PropValue, other: OtherHalf },
}

/// Blocks placed, broken and toggled.
#[derive(Debug)]
pub struct BlockModule;

/// The door step for a door at `at` whose `open` and `half` properties hold
/// the given values, or `None` where the block has no such property.
pub open spec fn door_step(at: BlockPos, open: Option<PropValue>, half: Option<PropValue>) -> DoorStep {
    match open {
        None => DoorStep::Untouched,
        Some(PropValue::True) => DoorStep::Toggled { open: PropValue::False, other: other_half(at, half) },
        Some(PropValue::False) => DoorStep::Toggled { open: PropValue::True, other: other_half(at, half) },
        Some(_) => DoorStep::MalformedOpen,
    }
}

pub open spec fn other_half(at: BlockPos, half: Option<PropValue>) -> OtherHalf {
    match half {
        None => OtherHalf::Alone,
        Some(PropValue::Upper) => OtherHalf::At(BlockPos { x: at.x, y: (at.y - 1) as i32, z: at.z }),
        Some(PropValue::Lower) => OtherHalf::At(BlockPos { x: at.x, y: (at.y + 1) as i32, z: at.z }),
        Some(_) => OtherHalf::Malformed,
    }
}

/// What a block refused for placement is answered with.
pub open spec fn cannot_place() -> Seq<char> {
    "\u{a7}cYou can't place this block"@
}

impl BlockModule {
    /// A player toggles the door at `at`. The upper half of a door moves the
    /// half below it and the lower half the one above.
    pub fn toggle_door(at: BlockPos, open: Option<PropValue>, half: Option<PropValue>) -> (s: DoorStep)
        requires
            half == Some(PropValue::Upper) ==> at.y > i32::MIN,
            half == Some(PropValue::Lower) ==> at.y < i32::MAX,
        ensures
            s == door_step(at, open, half),
    {
        let next = match open {
            None => {
                return DoorStep::Untouched;
            },
            Some(PropValue::True) => PropValue::False,
            Some(PropValue::False) => PropValue::True,
            Some(_) => {
                return DoorStep::MalformedOpen;
            },
        };
        let other = match half {
            None => OtherHalf::Alone,
            Some(PropValue::Upper) => OtherHalf::At(BlockPos { x: at.x, y: at.y - 1, z: at.z }),
            Some(PropValue::Lower) => OtherHalf::At(BlockPos { x: at.x, y: at.y + 1, z: at.z }),
            Some(_) => OtherHalf::Malformed,
        };
        DoorStep::Toggled { open: next, other }
    }

    /// Whether a block may be placed: one with no collision shape at all is
    /// refused, with the line the player is sent.
    pub fn placement(has_collision: bool) -> (r: Result<(), &'static str>)
        ensures
            has_collision ==> r is Ok,
            !has_collision ==> (r matches Err(m) && m@ == cannot_place()),
    {
        if has_collision {
            Ok(())
        } else {
            Err("\u{a7}cYou can't place this block")
        }
    }
}

/// Toggling a door twice gives it back the `open` it started with, and both
/// toggles move the same other half.
pub proof fn law_a_door_toggles_back(at: BlockPos, open: bool, half: Option<PropValue>)
    ensures
        ({
            let start = if open {
                PropValue::True
            } else {
                PropValue::False
            };
            match door_step(at, Some(start), half) {
                DoorStep::Toggled { open: once, other } => match door_step(at, Some(once), half) {
                    DoorStep::Toggled { open: twice, other: other_again } => twice == start
                        && other_again == other,
                    _ => false,
                },
                _ => false,
            }
        }),
{
}

/// The two halves of a door name each other: the half above a lower half
/// is an upper half whose other half is where it started.
pub proof fn law_door_halves_name_each_other(at: BlockPos)
    requires
        at.y < i32::MAX,
    ensures
        other_half(at, Some(PropValue::Lower)) matches OtherHalf::At(up) && other_half(
            up,
            Some(PropValue::Upper),
        ) == OtherHalf::At(at),
{
}

} // verus!
