use vstd::prelude::*;
use std::collections::HashMap;
use crate::motion::{Pos, pos_in_arena};

verus! {

/// The tick-refreshed directory of last-reported agent positions. An entry is
/// written once and never overwritten, so a lookup observes the position an
/// agent first reported, not its live one.
pub struct TransformState {
    transforms: HashMap<u64, Pos>,
}

impl TransformState {
    /// The recorded positions as a map from agent id to position.
    pub closed spec fn positions(self) -> Map<u64, Pos> {
        self.transforms@
    }

    /// Every recorded position lies within the arena's slack band.
    pub open spec fn wf(self) -> bool {
        forall|k: u64| self.positions().contains_key(k) ==> pos_in_arena(
            #[trigger] self.positions()[k],
        )
    }

    /// An empty directory.
    pub fn new() -> (t: TransformState)
        ensures
            t.positions() == Map::<u64, Pos>::empty(),
            t.wf(),
    {
        TransformState { transforms: HashMap::new() }
    }

    /// Records a position for an agent, unless one is already recorded: the
    /// first report wins and later ones change nothing.
    pub fn report(&mut self, agent_id: u64, position: Pos)
        requires
            old(self).wf(),
            pos_in_arena(position),
        ensures
            final(self).wf(),
            final(self).positions() == if old(self).positions().contains_key(agent_id) {
                old(self).positions()
            } else {
                old(self).positions().insert(agent_id, position)
            },
    {
        if !self.transforms.contains_key(&agent_id) {
            self.transforms.insert(agent_id, position);
            proof {
                assert forall|k: u64| self.positions().contains_key(k) implies pos_in_arena(
                    #[trigger] self.positions()[k],
                ) by {
                    if k != agent_id {
                        assert(old(self).positions().contains_key(k));
                    }
                }
            }
        }
    }

    /// The position an agent first reported, if it ever reported one.
    pub fn get(&self, agent_id: u64) -> (r: Option<Pos>)
        ensures
            match r {
                Some(p) => self.positions().contains_key(agent_id) && p == self.positions()[agent_id],
                None => !self.positions().contains_key(agent_id),
            },
    {
        match self.transforms.get(&agent_id) {
            Some(p) => Some(*p),
            None => None,
        }
    }
}

} // verus!
