use vstd::prelude::*;

verus! {

/// Population size used when the command line names none.
pub const DEFAULT_POPULATION: usize = 80;

/// Configuration handed to the simulation at start: how many agents to create.
pub struct Args {
    pub population: usize,
}

/// Resolves the configured population size: an explicitly supplied value wins,
/// otherwise the default applies.
pub fn parse(population: Option<usize>) -> (a: Args)
    ensures
        a.population == match population {
            Some(n) => n,
            None => DEFAULT_POPULATION as usize,
        },
{
    match population {
        Some(n) => Args { population: n },
        None => Args { population: DEFAULT_POPULATION },
    }
}

} // verus!
