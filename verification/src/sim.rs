use vstd::prelude::*;
use crate::agent::Agent;
use crate::motion::{Pos, boundary_correction, boundary_decision, facing_of, derive_direction, integrate, lemma_integration_stays_in_arena};
use crate::opinion::{PersonalOpinion, fresh_opinion};
use crate::spatial::TransformState;
use crate::store::{Opinions, SELF_OPINION_SEED};
use crate::rng::{rand_i64_range, rand_usize_below, fresh_id};
use crate::gossip::{GossipEvent, GOSSIP_RADIUS, FIRST_IMPRESSION_LIMIT, within_radius, within_earshot, gossip_applied, process_heard_opinion};
use crate::motion::{Vel, Direction, vel_bounded, steer_spec, steer_decision};

verus! {

/// Seed of a manufactured rival opinion: the most negative value bootstrap
/// hands out, one hundred units down on both dimensions.
pub const RIVAL_SEED: i64 = -100_000;

/// Agents spawn with each coordinate drawn from this range, in thousandths.
pub const SPAWN_RANGE: i64 = 200_000;

/// The whole simulation: the agent registry and the shared position
/// directory, advanced by the three fixed-rate passes.
pub struct Simulation {
    pub agents: Vec<Agent>,
    pub transform_state: TransformState,
}

/// A freshly spawned agent: at rest facing right somewhere in the spawn
/// range, with a chattiness below one hundred and an opinion store that
/// knows only the agent itself, maximally liked and cached as favorite.
/// Which id, position and chattiness the draws produced stays open.
pub open spec fn spawned_agent(a: Agent) -> bool {
    let self_opinion = fresh_opinion(SELF_OPINION_SEED as int, SELF_OPINION_SEED as int);
    &&& -SPAWN_RANGE <= a.position.x < SPAWN_RANGE
    &&& -SPAWN_RANGE <= a.position.y < SPAWN_RANGE
    &&& a.velocity == (Vel { x: 0, y: 0 })
    &&& a.direction == Direction::Right
    &&& a.personality.chattiness < 100
    &&& a.opinions.people_map() == Map::<u64, PersonalOpinion>::empty().insert(a.id, self_opinion)
    &&& a.opinions.known_seq() == seq![a.id]
    &&& a.opinions.favorite() == (a.id, self_opinion.likeability)
}

/// What injecting one rival pair into a store leaves behind: two fresh
/// maximally negative opinions recorded under the two drawn ids — possibly
/// the same id twice, possibly the owner's own — with the favorite cache
/// deliberately left alone.
pub open spec fn rival_pair_applied(pre: Opinions, post: Opinions, id1: u64, id2: u64) -> bool {
    let rival = fresh_opinion(RIVAL_SEED as int, RIVAL_SEED as int);
    let m1 = pre.people_map().insert(id1, rival);
    let k1 = if pre.people_map().contains_key(id1) {
        pre.known_seq()
    } else {
        pre.known_seq().push(id1)
    };
    &&& post.people_map() == m1.insert(id2, rival)
    &&& post.known_seq() == if m1.contains_key(id2) {
        k1
    } else {
        k1.push(id2)
    }
    &&& post.favorite() == pre.favorite()
}

/// The rival pass touched exactly one agent's store, seeding rivals under
/// two ids that belong to agents of the registry.
pub open spec fn rivals_injected(all: Seq<Agent>, pre: Agent, post: Agent) -> bool {
    &&& post.id == pre.id
    &&& post.position == pre.position
    &&& post.velocity == pre.velocity
    &&& post.direction == pre.direction
    &&& post.personality == pre.personality
    &&& exists|r1: int, r2: int|
        0 <= r1 < all.len() && 0 <= r2 < all.len() && rival_pair_applied(
            pre.opinions,
            post.opinions,
            all[r1].id,
            all[r2].id,
        )
}

/// The outcome the steering pass leaves on one agent for a given pair of
/// rolls: nothing unless the steering decision fires, and otherwise the
/// decided velocity with its derived facing.
pub open spec fn steer_outcome(
    ts: TransformState,
    pre: Agent,
    post: Agent,
    wander: Vel,
    turn_roll: int,
    rare_roll: int,
) -> bool {
    let fav = pre.opinions.favorite().0;
    let fav_pos = if ts.positions().contains_key(fav) {
        Some(ts.positions()[fav])
    } else {
        None
    };
    match steer_spec(turn_roll, rare_roll, pre.position, fav_pos, wander) {
        None => post.velocity == pre.velocity && post.direction == pre.direction,
        Some(v) => post.velocity == v && post.direction == facing_of(v),
    }
}

/// What the steering pass does to one agent: position, identity and opinions
/// are untouched, and the velocity follows the steering decision for some
/// pair of rolls drawn below one hundred.
pub open spec fn steer_agent_step(ts: TransformState, pre: Agent, post: Agent, wander: Vel) -> bool {
    &&& post.id == pre.id
    &&& post.position == pre.position
    &&& post.personality == pre.personality
    &&& post.opinions == pre.opinions
    &&& exists|turn_roll: int, rare_roll: int|
        0 <= turn_roll < 100 && 0 <= rare_roll < 100 && steer_outcome(
            ts,
            pre,
            post,
            wander,
            turn_roll,
            rare_roll,
        )
}

/// A statement as one agent would speak it: its own id and position, the
/// fixed radius, and one entry of its opinion store as content.
pub open spec fn spoken_by(a: Agent, ev: GossipEvent) -> bool {
    &&& ev.author == a.id
    &&& ev.origin == a.position
    &&& ev.distance == GOSSIP_RADIUS
    &&& match ev.opinion {
        Some(st) => exists|idx: int|
            0 <= idx < a.opinions.known_seq().len() && st.0 == a.opinions.known_seq()[idx]
                && a.opinions.people_map().contains_key(st.0) && st.1
                == a.opinions.people_map()[st.0],
        None => false,
    }
}

/// The speech pass outcome for a given sequence of per-agent draws: walking
/// the registry in order, an agent whose draw lands at or below its
/// chattiness appends exactly one statement of its own, and every other
/// agent appends nothing.
pub open spec fn speech_outcome(
    agents: Seq<Agent>,
    draws: Seq<int>,
    events: Seq<GossipEvent>,
) -> bool
    decreases agents.len(),
{
    if agents.len() == 0 {
        events.len() == 0
    } else {
        let last = agents.len() - 1;
        if draws[last] <= agents[last].personality.chattiness {
            &&& events.len() >= 1
            &&& spoken_by(agents[last], events.last())
            &&& speech_outcome(agents.take(last), draws.take(last), events.take(events.len() - 1))
        } else {
            speech_outcome(agents.take(last), draws.take(last), events)
        }
    }
}

/// Some agent of the registry would speak this statement.
pub open spec fn spoken_by_someone(agents: Seq<Agent>, ev: GossipEvent) -> bool {
    exists|i: int| 0 <= i < agents.len() && spoken_by(agents[i], ev)
}

/// What one spoken statement does to one listener agent: everything but the
/// opinion store is untouched; a listener out of earshot, or the author
/// itself, hears nothing, and any other listener folds the statement in with
/// some pair of first-impression draws.
pub open spec fn heard_step(ev: GossipEvent, pre: Agent, post: Agent) -> bool {
    &&& post.id == pre.id
    &&& post.position == pre.position
    &&& post.velocity == pre.velocity
    &&& post.direction == pre.direction
    &&& post.personality == pre.personality
    &&& match ev.opinion {
        Some(st) => if within_radius(ev.origin, pre.position, ev.distance as int) && pre.id
            != ev.author {
            exists|b1: int, b2: int|
                -FIRST_IMPRESSION_LIMIT <= b1 < FIRST_IMPRESSION_LIMIT && -FIRST_IMPRESSION_LIMIT
                    <= b2 < FIRST_IMPRESSION_LIMIT && gossip_applied(
                    pre.opinions,
                    post.opinions,
                    ev.author,
                    st.0,
                    st.1,
                    b1,
                    b2,
                )
        } else {
            post.opinions == pre.opinions
        },
        None => post.opinions == pre.opinions,
    }
}

/// One statement delivered to the whole registry: every agent relates to
/// its predecessor by `heard_step` for this event.
pub open spec fn delivered_one(ev: GossipEvent, pre: Seq<Agent>, post: Seq<Agent>) -> bool {
    &&& post.len() == pre.len()
    &&& forall|i: int| 0 <= i < pre.len() ==> heard_step(ev, pre[i], #[trigger] post[i])
}

/// A sequence of statements delivered in order: each one takes the registry
/// from the state the previous one left.
pub open spec fn delivered_all(events: Seq<GossipEvent>, pre: Seq<Agent>, post: Seq<Agent>) -> bool
    decreases events.len(),
{
    if events.len() == 0 {
        post == pre
    } else {
        exists|mid: Seq<Agent>|
            delivered_all(events.take(events.len() - 1), pre, mid) && delivered_one(
                events.last(),
                mid,
                post,
            )
    }
}

/// What one fast tick does to one agent: the first violated wall bound — in
/// top, bottom, right, left priority order — replaces the velocity with a
/// unit push back and refreshes the facing; then the position moves by one
/// tick of the resulting velocity. Opinions, id and personality are
/// untouched.
pub open spec fn fast_agent_step(pre: Agent, post: Agent) -> bool {
    let corr = boundary_correction(pre.position);
    let v = match corr {
        Some(c) => c,
        None => pre.velocity,
    };
    &&& post.velocity == v
    &&& post.direction == match corr {
        Some(c) => facing_of(c),
        None => pre.direction,
    }
    &&& post.position == (Pos {
        x: (pre.position.x + v.x) as i64,
        y: (pre.position.y + v.y) as i64,
    })
    &&& post.id == pre.id
    &&& post.personality == pre.personality
    &&& post.opinions == pre.opinions
}

/// The fast pass, as one relation between whole simulation states: every
/// agent wall-corrected and moved one tick, and the position directory
/// extended write-once with the agents' post-move positions.
pub open spec fn fast_pass_applied(pre: Simulation, post: Simulation) -> bool {
    &&& post.agents@.len() == pre.agents@.len()
    &&& forall|i: int|
        0 <= i < pre.agents@.len() ==> fast_agent_step(pre.agents@[i], #[trigger] post.agents@[i])
    &&& forall|k: u64|
        #[trigger] pre.transform_state.positions().contains_key(k)
            ==> post.transform_state.positions().contains_key(k)
            && post.transform_state.positions()[k] == pre.transform_state.positions()[k]
    &&& forall|i: int|
        0 <= i < post.agents@.len() ==> post.transform_state.positions().contains_key(
            (#[trigger] post.agents@[i]).id,
        )
    &&& forall|k: u64|
        post.transform_state.positions().contains_key(k)
            ==> pre.transform_state.positions().contains_key(k) || exists|i: int|
            0 <= i < post.agents@.len() && (#[trigger] post.agents@[i]).id == k
}

/// The steering pass, as one relation between whole simulation states: every
/// agent steered against the shared position directory, which it never
/// touches.
pub open spec fn steer_pass_applied(pre: Simulation, post: Simulation, headings: Seq<Vel>) -> bool {
    &&& post.agents@.len() == pre.agents@.len()
    &&& post.transform_state == pre.transform_state
    &&& forall|i: int|
        0 <= i < pre.agents@.len() ==> steer_agent_step(
            pre.transform_state,
            pre.agents@[i],
            #[trigger] post.agents@[i],
            headings[i],
        )
}

/// The speech-and-propagation pass, as one relation between whole simulation
/// states: for some per-agent draws, this tick's statements are collected in
/// registry order and delivered in order, and nothing else changes.
pub open spec fn slow_pass_applied(pre: Simulation, post: Simulation) -> bool {
    &&& post.agents@.len() == pre.agents@.len()
    &&& post.transform_state == pre.transform_state
    &&& exists|draws: Seq<int>, events: Seq<GossipEvent>|
        draws.len() == pre.agents@.len() && (forall|j: int|
            0 <= j < draws.len() ==> 0 <= #[trigger] draws[j] < 10_000) && speech_outcome(
            pre.agents@,
            draws,
            events,
        ) && delivered_all(events, pre.agents@, post.agents@)
}

/// One scheduler step decomposed into its passes: the fast pass always runs,
/// then the steering pass exactly on every tenth step, then the speech pass
/// exactly on every twentieth, each starting from the state the previous one
/// left.
pub open spec fn step_passes(
    pre: Simulation,
    s1: Simulation,
    s2: Simulation,
    post: Simulation,
    step_index: u64,
    headings: Seq<Vel>,
) -> bool {
    &&& fast_pass_applied(pre, s1)
    &&& if step_index % 10 == 0 {
        steer_pass_applied(s1, s2, headings)
    } else {
        s2 == s1
    }
    &&& if step_index % 20 == 0 {
        slow_pass_applied(s2, post)
    } else {
        post == s2
    }
}

impl Simulation {
    /// A structurally sound simulation: every agent sound and every recorded
    /// position inside the arena's slack band.
    pub open spec fn wf(self) -> bool {
        &&& forall|i: int| 0 <= i < self.agents@.len() ==> (#[trigger] self.agents@[i]).wf()
        &&& self.transform_state.wf()
    }

    /// An empty simulation.
    pub fn new() -> (s: Simulation)
        ensures
            s.wf(),
            s.agents@.len() == 0,
            s.transform_state.positions() == Map::<u64, Pos>::empty(),
    {
        Simulation { agents: Vec::new(), transform_state: TransformState::new() }
    }

    /// Creates one agent with a fresh random id, a random spawn position and
    /// a random chattiness, and appends it to the registry.
    fn make_rand_character(&mut self)
        requires
            old(self).wf(),
        ensures
            final(self).wf(),
            final(self).agents@.len() == old(self).agents@.len() + 1,
            spawned_agent(final(self).agents@.last()),
            forall|i: int|
                0 <= i < old(self).agents@.len() ==> final(self).agents@[i] == old(self).agents@[i],
            final(self).transform_state == old(self).transform_state,
    {
        let id = fresh_id();
        let x = rand_i64_range(-SPAWN_RANGE, SPAWN_RANGE);
        let y = rand_i64_range(-SPAWN_RANGE, SPAWN_RANGE);
        let chattiness = rand_usize_below(100);
        let agent = Agent::new(id, Pos { x, y }, chattiness);
        self.agents.push(agent);
    }

    /// Bootstraps the configured number of agents.
    pub fn populate(&mut self, population: usize)
        requires
            old(self).wf(),
            old(self).agents@.len() + population <= usize::MAX,
        ensures
            final(self).wf(),
            final(self).agents@.len() == old(self).agents@.len() + population,
            forall|i: int|
                0 <= i < old(self).agents@.len() ==> final(self).agents@[i] == old(self).agents@[i],
            forall|i: int|
                old(self).agents@.len() <= i < final(self).agents@.len() ==> spawned_agent(
                    #[trigger] final(self).agents@[i],
                ),
            final(self).transform_state == old(self).transform_state,
    {
        let mut k: usize = 0;
        while k < population
            invariant
                old(self).agents@.len() + population <= usize::MAX,
                k <= population,
                self.wf(),
                self.agents@.len() == old(self).agents@.len() + k,
                forall|i: int|
                    0 <= i < old(self).agents@.len() ==> self.agents@[i] == old(self).agents@[i],
                forall|i: int|
                    old(self).agents@.len() <= i < self.agents@.len() ==> spawned_agent(
                        #[trigger] self.agents@[i],
                    ),
                self.transform_state == old(self).transform_state,
            decreases population - k,
        {
            self.make_rand_character();
            k = k + 1;
        }
    }

    /// Manufactures two rivals for every agent: two independently drawn
    /// existing agent ids — possibly equal, possibly the agent's own — each
    /// recorded with a maximally negative fresh opinion.
    pub fn make_rivals(&mut self)
        requires
            old(self).wf(),
            old(self).agents@.len() <= 1_000_000_000_000,
        ensures
            final(self).wf(),
            final(self).agents@.len() == old(self).agents@.len(),
            final(self).transform_state == old(self).transform_state,
            forall|i: int|
                0 <= i < final(self).agents@.len() ==> rivals_injected(
                    old(self).agents@,
                    old(self).agents@[i],
                    #[trigger] final(self).agents@[i],
                ),
    {
        let n = self.agents.len();
        let mut i: usize = 0;
        while i < n
            invariant
                n == self.agents@.len(),
                n == old(self).agents@.len(),
                n <= 1_000_000_000_000,
                i <= n,
                self.wf(),
                self.transform_state == old(self).transform_state,
                forall|j: int|
                    0 <= j < i ==> rivals_injected(
                        old(self).agents@,
                        old(self).agents@[j],
                        #[trigger] self.agents@[j],
                    ),
                forall|j: int| i <= j < n ==> self.agents@[j] == old(self).agents@[j],
            decreases n - i,
        {
            let r1 = rand_i64_range(0, n as i64) as usize;
            let r2 = rand_i64_range(0, n as i64) as usize;
            let id1 = self.agents[r1].id;
            let id2 = self.agents[r2].id;
            let rival = PersonalOpinion::new(RIVAL_SEED, RIVAL_SEED);
            let a = &mut self.agents[i];
            a.opinions.insert_opinion(id1, rival);
            a.opinions.insert_opinion(id2, rival);
            proof {
                assert(rival_pair_applied(
                    old(self).agents@[i as int].opinions,
                    self.agents@[i as int].opinions,
                    id1,
                    id2,
                ));
                assert(rivals_injected(
                    old(self).agents@,
                    old(self).agents@[i as int],
                    self.agents@[i as int],
                )) by {
                    assert(0 <= r1 < n && 0 <= r2 < n && rival_pair_applied(
                        old(self).agents@[i as int].opinions,
                        self.agents@[i as int].opinions,
                        old(self).agents@[r1 as int].id,
                        old(self).agents@[r2 as int].id,
                    ));
                }
            }
            i = i + 1;
        }
    }

    /// One fast tick: every agent is bounced off the walls if needed, moved
    /// by its velocity, and its resulting position offered to the position
    /// directory, where only a first report ever sticks.
    pub fn fast_tick(&mut self)
        requires
            old(self).wf(),
        ensures
            final(self).wf(),
            fast_pass_applied(*old(self), *final(self)),
    {
        let n = self.agents.len();
        let mut i: usize = 0;
        while i < n
            invariant
                n == self.agents@.len(),
                n == old(self).agents@.len(),
                i <= n,
                self.wf(),
                forall|j: int|
                    0 <= j < i ==> fast_agent_step(
                        old(self).agents@[j],
                        #[trigger] self.agents@[j],
                    ),
                forall|j: int| i <= j < n ==> self.agents@[j] == old(self).agents@[j],
                forall|k: u64|
                    #[trigger] old(self).transform_state.positions().contains_key(k)
                        ==> self.transform_state.positions().contains_key(k)
                        && self.transform_state.positions()[k]
                        == old(self).transform_state.positions()[k],
                forall|j: int|
                    0 <= j < i ==> self.transform_state.positions().contains_key(
                        (#[trigger] self.agents@[j]).id,
                    ),
                forall|k: u64|
                    self.transform_state.positions().contains_key(k) ==> old(self).transform_state.positions().contains_key(k) || exists|j: int|
                        0 <= j < i && (#[trigger] self.agents@[j]).id == k,
            decreases n - i,
        {
            let ghost prev = *self;
            let a = &mut self.agents[i];
            match boundary_decision(a.position) {
                Some(c) => {
                    a.velocity = c;
                    a.direction = derive_direction(c);
                },
                None => {},
            }
            let new_position = integrate(a.position, a.velocity);
            proof {
                lemma_integration_stays_in_arena(a.position, a.velocity, new_position);
            }
            a.position = new_position;
            let id = a.id;
            let p = a.position;
            self.transform_state.report(id, p);
            proof {
                assert(fast_agent_step(old(self).agents@[i as int], self.agents@[i as int]));
                assert forall|k: u64|
                    old(self).transform_state.positions().contains_key(k) implies
                    self.transform_state.positions().contains_key(k)
                        && self.transform_state.positions()[k]
                        == old(self).transform_state.positions()[k] by {
                    assert(prev.transform_state.positions().contains_key(k));
                    assert(prev.transform_state.positions()[k]
                        == old(self).transform_state.positions()[k]);
                }
                assert forall|k: u64|
                    self.transform_state.positions().contains_key(k) implies old(self).transform_state.positions().contains_key(k) || exists|j: int|
                    0 <= j < i + 1 && (#[trigger] self.agents@[j]).id == k by {
                    if !old(self).transform_state.positions().contains_key(k) {
                        if k == id {
                            assert(self.agents@[i as int].id == k);
                        } else {
                            assert(prev.transform_state.positions().contains_key(k));
                            let j0 = choose|j: int| 0 <= j < i && prev.agents@[j].id == k;
                            assert(self.agents@[j0].id == k);
                        }
                    }
                }
            }
            i = i + 1;
        }
    }

    /// One steering tick: with one-in-ten odds per agent, re-aim at the
    /// favorite person's first-reported position — or at the supplied wander
    /// heading when that position coincides with the agent's own or the rare
    /// roll fires — and refresh the facing; nine ticks in ten, coast.
    pub fn executive_functioning_tick(&mut self, wander_headings: &Vec<Vel>)
        requires
            old(self).wf(),
            wander_headings@.len() == old(self).agents@.len(),
            forall|i: int|
                0 <= i < wander_headings@.len() ==> vel_bounded(#[trigger] wander_headings@[i]),
        ensures
            final(self).wf(),
            steer_pass_applied(*old(self), *final(self), wander_headings@),
    {
        let n = self.agents.len();
        let mut i: usize = 0;
        while i < n
            invariant
                n == self.agents@.len(),
                n == old(self).agents@.len(),
                i <= n,
                self.wf(),
                wander_headings@.len() == n,
                forall|j: int|
                    0 <= j < wander_headings@.len() ==> vel_bounded(
                        #[trigger] wander_headings@[j],
                    ),
                self.transform_state == old(self).transform_state,
                forall|j: int|
                    0 <= j < i ==> steer_agent_step(
                        old(self).transform_state,
                        old(self).agents@[j],
                        #[trigger] self.agents@[j],
                        wander_headings@[j],
                    ),
                forall|j: int| i <= j < n ==> self.agents@[j] == old(self).agents@[j],
            decreases n - i,
        {
            let turn_roll = rand_usize_below(100);
            let rare_roll = rand_usize_below(100);
            let wander = wander_headings[i];
            let favorite_person_id = self.agents[i].opinions.get_fav_person_id();
            let fav_pos = self.transform_state.get(favorite_person_id);
            let pos = self.agents[i].position;
            let decision = steer_decision(
                turn_roll as u64,
                rare_roll as u64,
                pos,
                fav_pos,
                wander,
            );
            match decision {
                Some(v) => {
                    let a = &mut self.agents[i];
                    a.velocity = v;
                    a.direction = derive_direction(v);
                },
                None => {},
            }
            proof {
                assert(steer_outcome(
                    old(self).transform_state,
                    old(self).agents@[i as int],
                    self.agents@[i as int],
                    wander,
                    turn_roll as int,
                    rare_roll as int,
                ));
            }
            i = i + 1;
        }
    }

    /// One speech tick: each agent draws against a hundred-times-wider range
    /// than its chattiness and, when the draw lands at or below it, speaks
    /// one uniformly chosen entry of its opinion store as a statement.
    pub fn say_tick(&self) -> (events: Vec<GossipEvent>)
        requires
            self.wf(),
        ensures
            events@.len() <= self.agents@.len(),
            forall|e: int| 0 <= e < events@.len() ==> (#[trigger] events@[e]).wf(),
            forall|e: int|
                0 <= e < events@.len() ==> spoken_by_someone(self.agents@, #[trigger] events@[e]),
            exists|draws: Seq<int>|
                draws.len() == self.agents@.len() && (forall|j: int|
                    0 <= j < draws.len() ==> 0 <= #[trigger] draws[j] < 10_000)
                    && speech_outcome(self.agents@, draws, events@),
    {
        let mut events: Vec<GossipEvent> = Vec::new();
        let ghost mut draws: Seq<int> = Seq::empty();
        let n = self.agents.len();
        let mut i: usize = 0;
        while i < n
            invariant
                n == self.agents@.len(),
                i <= n,
                self.wf(),
                events@.len() <= i,
                draws.len() == i,
                forall|j: int| 0 <= j < draws.len() ==> 0 <= #[trigger] draws[j] < 10_000,
                speech_outcome(self.agents@.take(i as int), draws, events@),
                forall|e: int| 0 <= e < events@.len() ==> (#[trigger] events@[e]).wf(),
                forall|e: int|
                    0 <= e < events@.len() ==> spoken_by_someone(
                        self.agents@,
                        #[trigger] events@[e],
                    ),
            decreases n - i,
        {
            let should_think = rand_usize_below(10_000);
            let ghost draws0 = draws;
            let ghost evs0 = events@;
            proof {
                draws = draws.push(should_think as int);
                assert(self.agents@.take((i + 1) as int).take(i as int) =~= self.agents@.take(
                    i as int,
                ));
                assert(draws.take(i as int) =~= draws0);
                assert(self.agents@.take((i + 1) as int)[i as int] == self.agents@[i as int]);
            }
            if should_think <= self.agents[i].personality.chattiness {
                let a = &self.agents[i];
                let count = a.opinions.known_count();
                let idx = rand_usize_below(count);
                let st = a.opinions.statement_at(idx);
                let event = GossipEvent {
                    author: a.id,
                    origin: a.position,
                    distance: GOSSIP_RADIUS,
                    opinion: Some((st.0, st.1)),
                };
                proof {
                    assert(spoken_by(self.agents@[i as int], event));
                }
                events.push(event);
                proof {
                    assert(events@.take(events@.len() - 1) =~= evs0);
                    assert(events@.last() == event);
                    assert(speech_outcome(self.agents@.take((i + 1) as int), draws, events@));
                    assert forall|e: int|
                        0 <= e < events@.len() implies spoken_by_someone(
                        self.agents@,
                        #[trigger] events@[e],
                    ) by {
                        if e == events@.len() - 1 {
                            assert(spoken_by(self.agents@[i as int], events@[e]));
                        }
                    }
                }
            } else {
                proof {
                    assert(speech_outcome(self.agents@.take((i + 1) as int), draws, events@));
                }
            }
            i = i + 1;
        }
        proof {
            assert(self.agents@.take(n as int) =~= self.agents@);
            assert(speech_outcome(self.agents@, draws, events@));
        }
        events
    }

    /// Delivers one spoken statement: every agent other than the author whose
    /// position lies within the statement's radius folds it into its opinion
    /// store, with fresh first-impression draws for ids it did not know.
    pub fn deliver_event(&mut self, event: &GossipEvent)
        requires
            old(self).wf(),
            event.wf(),
        ensures
            final(self).wf(),
            final(self).agents@.len() == old(self).agents@.len(),
            final(self).transform_state == old(self).transform_state,
            forall|i: int|
                0 <= i < old(self).agents@.len() ==> heard_step(
                    *event,
                    old(self).agents@[i],
                    #[trigger] final(self).agents@[i],
                ),
    {
        let n = self.agents.len();
        let mut i: usize = 0;
        while i < n
            invariant
                n == self.agents@.len(),
                n == old(self).agents@.len(),
                i <= n,
                self.wf(),
                event.wf(),
                self.transform_state == old(self).transform_state,
                forall|j: int|
                    0 <= j < i ==> heard_step(
                        *event,
                        old(self).agents@[j],
                        #[trigger] self.agents@[j],
                    ),
                forall|j: int| i <= j < n ==> self.agents@[j] == old(self).agents@[j],
            decreases n - i,
        {
            let pos = self.agents[i].position;
            let aid = self.agents[i].id;
            let in_range = within_earshot(event.origin, pos, event.distance);
            if in_range && aid != event.author {
                match &event.opinion {
                    Some(st) => {
                        let b1 = rand_i64_range(-FIRST_IMPRESSION_LIMIT, FIRST_IMPRESSION_LIMIT);
                        let b2 = rand_i64_range(-FIRST_IMPRESSION_LIMIT, FIRST_IMPRESSION_LIMIT);
                        let subject = st.0;
                        let transmitted = st.1;
                        let a = &mut self.agents[i];
                        process_heard_opinion(
                            &mut a.opinions,
                            event.author,
                            subject,
                            &transmitted,
                            b1,
                            b2,
                        );
                        proof {
                            assert(gossip_applied(
                                old(self).agents@[i as int].opinions,
                                self.agents@[i as int].opinions,
                                event.author,
                                subject,
                                transmitted,
                                b1 as int,
                                b2 as int,
                            ));
                        }
                    },
                    None => {},
                }
            }
            i = i + 1;
        }
    }

    /// One slow tick: the speech pass collects this tick's statements — one
    /// per agent whose draw fires, in registry order — and the propagation
    /// pass delivers them all, in order, before the tick ends. Nothing but
    /// opinion stores changes.
    pub fn slow_tick(&mut self)
        requires
            old(self).wf(),
        ensures
            final(self).wf(),
            slow_pass_applied(*old(self), *final(self)),
            forall|i: int|
                0 <= i < old(self).agents@.len() ==> {
                    let pre = old(self).agents@[i];
                    let post = #[trigger] final(self).agents@[i];
                    post.id == pre.id && post.position == pre.position && post.velocity
                        == pre.velocity && post.direction == pre.direction && post.personality
                        == pre.personality
                },
    {
        let events = self.say_tick();
        let ghost speech_draws = choose|draws: Seq<int>|
            draws.len() == self.agents@.len() && (forall|j: int|
                0 <= j < draws.len() ==> 0 <= #[trigger] draws[j] < 10_000) && speech_outcome(
                self.agents@,
                draws,
                events@,
            );
        let mut e: usize = 0;
        while e < events.len()
            invariant
                e <= events@.len(),
                self.wf(),
                forall|ei: int| 0 <= ei < events@.len() ==> (#[trigger] events@[ei]).wf(),
                self.agents@.len() == old(self).agents@.len(),
                self.transform_state == old(self).transform_state,
                delivered_all(events@.take(e as int), old(self).agents@, self.agents@),
                forall|i: int|
                    0 <= i < old(self).agents@.len() ==> {
                        let pre = old(self).agents@[i];
                        let post = #[trigger] self.agents@[i];
                        post.id == pre.id && post.position == pre.position && post.velocity
                            == pre.velocity && post.direction == pre.direction && post.personality
                            == pre.personality
                    },
            decreases events@.len() - e,
        {
            let ghost mid = self.agents@;
            let event = &events[e];
            self.deliver_event(event);
            proof {
                assert(events@.take((e + 1) as int).take(e as int) =~= events@.take(e as int));
                assert(events@.take((e + 1) as int).last() == events@[e as int]);
                assert(delivered_all(events@.take(e as int), old(self).agents@, mid)
                    && delivered_one(events@[e as int], mid, self.agents@));
                assert(delivered_all(
                    events@.take((e + 1) as int),
                    old(self).agents@,
                    self.agents@,
                ));
            }
            e = e + 1;
        }
        proof {
            assert(events@.take(events@.len() as int) =~= events@);
            assert(delivered_all(events@, old(self).agents@, self.agents@));
        }
    }

    /// One scheduler step on the shared timeline. The fast pass runs every
    /// step; every tenth step the steering pass follows, and every twentieth
    /// the speech pass, reproducing the three fixed rates. No step creates or
    /// destroys an agent, changes who an agent is, or overwrites a recorded
    /// position.
    pub fn step(&mut self, step_index: u64, wander_headings: &Vec<Vel>)
        requires
            old(self).wf(),
            wander_headings@.len() == old(self).agents@.len(),
            forall|i: int|
                0 <= i < wander_headings@.len() ==> vel_bounded(#[trigger] wander_headings@[i]),
        ensures
            final(self).wf(),
            final(self).agents@.len() == old(self).agents@.len(),
            forall|i: int|
                0 <= i < old(self).agents@.len() ==> {
                    let pre = old(self).agents@[i];
                    let post = #[trigger] final(self).agents@[i];
                    post.id == pre.id && post.personality == pre.personality
                },
            forall|k: u64|
                #[trigger] old(self).transform_state.positions().contains_key(k)
                    ==> final(self).transform_state.positions().contains_key(k)
                    && final(self).transform_state.positions()[k]
                    == old(self).transform_state.positions()[k],
            exists|s1: Simulation, s2: Simulation|
                #[trigger] step_passes(
                    *old(self),
                    s1,
                    s2,
                    *final(self),
                    step_index,
                    wander_headings@,
                ),
    {
        self.fast_tick();
        let ghost s1 = *self;
        if step_index % 10 == 0 {
            self.executive_functioning_tick(wander_headings);
        }
        let ghost s2 = *self;
        if step_index % 20 == 0 {
            self.slow_tick();
        }
        proof {
            assert(step_passes(*old(self), s1, s2, *self, step_index, wander_headings@));
        }
    }
}

} // verus!
