//! Discrete actions and the action space an agent samples from.

use vstd::prelude::*;
use crate::rng::random_below;

verus! {

/// A configuration fault found when building an agent.
#[derive(Clone, Copy, Debug, PartialEq, Eq, Structural)]
pub enum AgentError {
    /// The discrete action space holds no action at all.
    EmptyActionSpace,
    /// An integer was converted to an action it does not index.
    InvalidActionIndex,
}

/// One of the four moves the player can take.
#[derive(Clone, Copy, Debug, PartialEq, Eq, Structural)]
pub enum PlayerAction {
    Up,
    Down,
    Left,
    Right,
}

impl PlayerAction {
    /// How many distinct player actions exist.
    pub const COUNT: usize = 4;

    /// The action standing for an index, as `index` gives it back.
    pub open spec fn from_index_spec(value: int) -> PlayerAction
        recommends
            0 <= value < 4,
    {
        if value == 0 {
            PlayerAction::Up
        } else if value == 1 {
            PlayerAction::Down
        } else if value == 2 {
            PlayerAction::Left
        } else {
            PlayerAction::Right
        }
    }

    /// Fallible conversion from an index; an out-of-range index is a
    /// programmer error and is reported, never clamped.
    pub fn from_index(value: usize) -> (r: Result<PlayerAction, AgentError>)
        ensures
            value < 4 <==> r is Ok,
            value < 4 ==> r == Ok::<PlayerAction, AgentError>(
                PlayerAction::from_index_spec(value as int),
            ),
            value >= 4 ==> r == Err::<PlayerAction, AgentError>(AgentError::InvalidActionIndex),
    {
        match value {
            0 => Ok(PlayerAction::Up),
            1 => Ok(PlayerAction::Down),
            2 => Ok(PlayerAction::Left),
            3 => Ok(PlayerAction::Right),
            _ => Err(AgentError::InvalidActionIndex),
        }
    }

    /// The index of this action.
    pub open spec fn index_spec(self) -> int {
        match self {
            PlayerAction::Up => 0,
            PlayerAction::Down => 1,
            PlayerAction::Left => 2,
            PlayerAction::Right => 3,
        }
    }

    /// The index of this action, the inverse of `from_index`.
    pub fn index(self) -> (r: usize)
        ensures
            r == self.index_spec(),
            r < 4,
    {
        match self {
            PlayerAction::Up => 0,
            PlayerAction::Down => 1,
            PlayerAction::Left => 2,
            PlayerAction::Right => 3,
        }
    }
}

/// Converting an action to its index and back yields the action again, and
/// the other way round for indices the space holds.
pub proof fn lemma_action_index_round_trip(a: PlayerAction, i: int)
    ensures
        PlayerAction::from_index_spec(a.index_spec()) == a,
        0 <= i < 4 ==> PlayerAction::from_index_spec(i).index_spec() == i,
{
}

/// The space of actions available to the agent.
#[derive(Clone, Debug)]
pub enum ActionSpace {
    /// A discrete action space with a specific number of actions, indexed
    /// from 0 to n-1.
    Discrete(usize),
}

impl ActionSpace {
    /// The number of discrete actions.
    pub open spec fn n_discrete_spec(&self) -> int {
        match self {
            ActionSpace::Discrete(n) => *n as int,
        }
    }

    /// The number of discrete actions.
    pub fn n_discrete(&self) -> (r: Option<usize>)
        ensures
            r == Some(self.n_discrete_spec() as usize),
    {
        match self {
            ActionSpace::Discrete(n) => Some(*n),
        }
    }

    /// Draw an action index uniformly at random. An empty space has nothing
    /// to draw from and is ruled out.
    pub fn sample_index(&self) -> (r: usize)
        requires
            self.n_discrete_spec() >= 1,
        ensures
            0 <= r < self.n_discrete_spec(),
    {
        match self {
            ActionSpace::Discrete(n) => {
                let d = random_below(*n as u64);
                d as usize
            },
        }
    }
}

} // verus!
