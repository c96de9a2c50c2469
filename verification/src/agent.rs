use vstd::prelude::*;
use crate::motion::{Pos, Vel, Direction, pos_in_arena, vel_bounded};
use crate::opinion::{PersonalOpinion, fresh_opinion};
use crate::store::{Opinions, SELF_OPINION_SEED};

verus! {

/// How often an agent feels like speaking: a fixed trait drawn at creation,
/// compared each slow tick against a draw from a hundred-times-wider range.
pub struct Personality {
    pub chattiness: usize,
}

/// One simulated person: a stable id, where it is and how it moves, the
/// facing direction a renderer shows, its fixed personality, and everything
/// it thinks of the people around it.
pub struct Agent {
    pub id: u64,
    pub position: Pos,
    pub velocity: Vel,
    pub direction: Direction,
    pub personality: Personality,
    pub opinions: Opinions,
}

impl Agent {
    /// A structurally sound agent: within the arena's slack band, moving at
    /// most one unit per tick per axis, with a sound, never-empty opinion
    /// store and a chattiness below one hundred.
    pub open spec fn wf(self) -> bool {
        &&& pos_in_arena(self.position)
        &&& vel_bounded(self.velocity)
        &&& self.personality.chattiness < 100
        &&& self.opinions.wf()
        &&& self.opinions.known_seq().len() >= 1
    }

    /// Creates an agent at rest at a position, facing right, with a fresh
    /// opinion store knowing only itself.
    pub fn new(id: u64, position: Pos, chattiness: usize) -> (a: Agent)
        requires
            pos_in_arena(position),
            chattiness < 100,
        ensures
            a.wf(),
            a.id == id,
            a.position == position,
            a.velocity == (Vel { x: 0, y: 0 }),
            a.direction == Direction::Right,
            a.personality.chattiness == chattiness,
            a.opinions.people_map() == Map::<u64, PersonalOpinion>::empty().insert(
                id,
                fresh_opinion(SELF_OPINION_SEED as int, SELF_OPINION_SEED as int),
            ),
            a.opinions.known_seq() == seq![id],
            a.opinions.favorite() == (
                id,
                fresh_opinion(SELF_OPINION_SEED as int, SELF_OPINION_SEED as int).likeability,
            ),
    {
        Agent {
            id,
            position,
            velocity: Vel { x: 0, y: 0 },
            direction: Direction::Right,
            personality: Personality { chattiness },
            opinions: Opinions::new(id),
        }
    }
}

} // verus!
