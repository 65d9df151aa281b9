//! Low-level per-tick actions.
//!
//! A [`Behaviour`] is derived from a unit's active command every tick and
//! never persisted; the executor in [`crate::movement`] turns it into
//! position, facing and animation updates and into combat damage.

use crate::command::AttackEvent;
use crate::geom::Vec2;
use vstd::prelude::*;

verus! {

/// What a unit does this tick.
#[derive(Clone, Debug, PartialEq)]
pub enum Behaviour {
    Idle,
    Move {
        target: Vec2,
    },
    Attack {
        /// The target's live position, for facing.
        target_position: Vec2,
        /// Arena index of the unit under attack.
        target: usize,
        /// The attacker's static frame-to-damage table.
        damage: Vec<(u32, AttackEvent)>,
    },
}

/// The mathematical image of a behaviour: the same cases, with the damage
/// table as a sequence.
pub enum BehaviourModel {
    Idle,
    Move { target: Vec2 },
    Attack { target_position: Vec2, target: usize, damage: Seq<(u32, AttackEvent)> },
}

/// The model a behaviour denotes.
pub open spec fn behaviour_model(b: Behaviour) -> BehaviourModel {
    match b {
        Behaviour::Idle => BehaviourModel::Idle,
        Behaviour::Move { target } => BehaviourModel::Move { target },
        Behaviour::Attack { target_position, target, damage } => BehaviourModel::Attack {
            target_position,
            target,
            damage: damage@,
        },
    }
}

/// The model an optional behaviour denotes.
pub open spec fn behaviour_model_opt(b: Option<Behaviour>) -> Option<BehaviourModel> {
    match b {
        Some(x) => Some(behaviour_model(x)),
        None => None,
    }
}

impl Behaviour {
    /// Whether this behaviour moves the unit.
    pub open spec fn is_moving(self) -> bool {
        self is Move
    }

    /// Targets the resolver hands out are in bounds and name live arena
    /// slots.
    pub open spec fn wf(self, n_entities: int) -> bool {
        match self {
            Behaviour::Idle => true,
            Behaviour::Move { target } => target.in_bounds(),
            Behaviour::Attack { target_position, target, .. } => target_position.in_bounds()
                && (target as int) < n_entities,
        }
    }
}

} // verus!
