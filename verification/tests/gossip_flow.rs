use gossip_sim::agent::{Agent, Personality};
use gossip_sim::gossip::{GossipEvent, GOSSIP_RADIUS, process_heard_opinion};
use gossip_sim::motion::{Pos, Vel, Direction};
use gossip_sim::opinion::PersonalOpinion;
use gossip_sim::sim::Simulation;
use gossip_sim::spatial::TransformState;
use gossip_sim::store::Opinions;

fn resting_agent(id: u64, x: i64, y: i64, chattiness: usize) -> Agent {
    Agent {
        id,
        position: Pos { x, y },
        velocity: Vel { x: 0, y: 0 },
        direction: Direction::Right,
        personality: Personality { chattiness },
        opinions: Opinions::new(id),
    }
}

#[test]
fn spatial_index_keeps_the_first_report() {
    let mut ts = TransformState::new();
    ts.report(1, Pos { x: 10, y: 20 });
    ts.report(1, Pos { x: 500, y: -600 });
    assert_eq!(ts.get(1), Some(Pos { x: 10, y: 20 }));
    assert_eq!(ts.get(2), None);
}

#[test]
fn first_contact_bootstraps_both_ids_and_inverts_the_statement() {
    let mut listener = Opinions::new(100);
    // spoken likeability display: 40 units
    let transmitted = PersonalOpinion::new(0, 133_334);
    assert_eq!(transmitted.likeability, 40_000);
    process_heard_opinion(&mut listener, 7, 9, &transmitted, -20_000, 10_000);

    // the speaker is now known, seeded with its first-impression draw
    let speaker = listener.get_opinion(7).unwrap();
    assert_eq!(speaker.likeability, -9_090);
    assert_eq!(speaker.trust, -9_090);
    assert_eq!(speaker.base_likeability_seed, -20_000);

    // unknown speaker means likeability 0, so the weight is -100 units and
    // the subject shifts by -100 * 40 units
    let subject = listener.get_opinion(9).unwrap();
    assert_eq!(subject.base_likeability_seed, 10_000);
    assert_eq!(subject.likeability_seed, 10_000 - 4_000_000);
    assert_eq!(subject.trust_seed, 10_000 - 2_000_000);
    assert_eq!(subject.likeability, -95_226);
    assert_eq!(subject.trust, -90_867);

    // a deeply disliked subject does not displace the self-favorite
    assert_eq!(listener.get_fav_person_id(), 100);
    assert_eq!(listener.favorite_snapshot(), 33_333);
    assert_eq!(listener.known_count(), 3);
}

#[test]
fn liked_speakers_transmit_with_damped_positive_weight() {
    let mut listener = Opinions::new(9);
    // the listener likes speaker 7 at 50 units, so the weight is 100 - 50
    listener.insert_opinion(7, PersonalOpinion::new(0, 200_000));
    let transmitted = PersonalOpinion::new(0, 133_334);
    process_heard_opinion(&mut listener, 7, 9, &transmitted, 0, 0);

    // the subject is the listener itself: base seeds 100/100 units, shifted
    // by 50 * 40 units on likeability and half that on trust
    let own = listener.get_opinion(9).unwrap();
    assert_eq!(own.likeability_seed, 100_000 + 2_000_000);
    assert_eq!(own.trust_seed, 100_000 + 1_000_000);
    assert_eq!(own.likeability, 91_304);
    assert_eq!(own.trust, 84_615);

    // the improved opinion beats the cached snapshot and is re-elected
    assert_eq!(listener.get_fav_person_id(), 9);
    assert_eq!(listener.favorite_snapshot(), 91_304);
}

#[test]
fn statement_about_the_speaker_itself_bootstraps_once() {
    let mut listener = Opinions::new(1);
    let transmitted = PersonalOpinion::new(0, 133_334);
    process_heard_opinion(&mut listener, 5, 5, &transmitted, -40_000, 0);
    assert_eq!(listener.known_count(), 2);
    let o = listener.get_opinion(5).unwrap();
    // the subject bootstrap draw wins; the statement then inverts at full
    // negative weight
    assert_eq!(o.base_likeability_seed, 0);
    assert_eq!(o.likeability_seed, -4_000_000);
    assert_eq!(o.likeability, -95_238);
    assert_eq!(o.trust, -90_909);
}

#[test]
fn delivery_reaches_only_listeners_in_earshot() {
    let mut sim = Simulation::new();
    // A speaks from the origin; B is inside the radius, C far outside
    sim.agents.push(resting_agent(1, 0, 0, 50));
    sim.agents.push(resting_agent(2, 100_000, 0, 50));
    sim.agents.push(resting_agent(3, 500_000, 0, 50));

    let spoken = PersonalOpinion::new(0, 133_334);
    let event = GossipEvent {
        author: 1,
        origin: Pos { x: 0, y: 0 },
        distance: GOSSIP_RADIUS,
        opinion: Some((3, spoken)),
    };
    sim.deliver_event(&event);

    // the author's own store is untouched
    assert_eq!(sim.agents[0].opinions.known_count(), 1);
    assert!(sim.agents[0].opinions.get_opinion(3).is_none());

    // B gained the speaker and the subject
    let b = &sim.agents[1].opinions;
    assert_eq!(b.known_count(), 3);
    assert!(b.get_opinion(1).is_some());
    let c_as_seen_by_b = b.get_opinion(3).unwrap();
    // whatever the bootstrap draw was, a full negative weight leaves the
    // subject strongly disliked
    assert!(c_as_seen_by_b.likeability < 0);
    // so B's favorite is still itself, snapshot untouched
    assert_eq!(b.get_fav_person_id(), 2);
    assert_eq!(b.favorite_snapshot(), 33_333);

    // C was out of earshot: nothing changed
    assert_eq!(sim.agents[2].opinions.known_count(), 1);
    assert!(sim.agents[2].opinions.get_opinion(1).is_none());
}

#[test]
fn fast_tick_corrects_walls_then_moves_and_reports() {
    let mut sim = Simulation::new();
    let mut runaway = resting_agent(4, 0, 401_000, 10);
    runaway.velocity = Vel { x: 0, y: 1_000 };
    runaway.direction = Direction::Up;
    sim.agents.push(runaway);
    sim.agents.push(resting_agent(5, 10_000, 10_000, 10));

    sim.fast_tick();

    // the agent past the top bound is redirected straight down
    assert_eq!(sim.agents[0].velocity, Vel { x: 0, y: -1_000 });
    assert_eq!(sim.agents[0].direction, Direction::Down);
    assert_eq!(sim.agents[0].position, Pos { x: 0, y: 400_000 });
    // an agent at rest inside the arena stays put
    assert_eq!(sim.agents[1].position, Pos { x: 10_000, y: 10_000 });
    // both post-move positions are recorded
    assert_eq!(sim.transform_state.get(4), Some(Pos { x: 0, y: 400_000 }));
    assert_eq!(sim.transform_state.get(5), Some(Pos { x: 10_000, y: 10_000 }));

    // the directory is write-once: later ticks do not refresh agent 4
    sim.fast_tick();
    assert_eq!(sim.transform_state.get(4), Some(Pos { x: 0, y: 400_000 }));
}

#[test]
fn steering_tick_aims_agents_at_their_favorites() {
    let mut sim = Simulation::new();
    let mut admirer = resting_agent(6, 0, 0, 10);
    // agent 6 admires agent 7, whose position is already on record
    let fav = PersonalOpinion::new(0, 200_000);
    admirer.opinions.insert_opinion(7, fav);
    admirer.opinions.check_if_new_favorite(&fav, 7);
    sim.agents.push(admirer);
    sim.transform_state.report(7, Pos { x: 3_000, y: 4_000 });

    let headings = vec![Vel { x: 0, y: 1_000 }];
    // the turn roll is random: step until the agent stops resting
    let mut turned = false;
    for _ in 0..2_000 {
        sim.executive_functioning_tick(&headings);
        if sim.agents[0].velocity != (Vel { x: 0, y: 0 }) {
            turned = true;
            break;
        }
    }
    assert!(turned);
    let v = sim.agents[0].velocity;
    // either the seek vector toward the favorite, or the rare wander heading
    assert!(v == Vel { x: 600, y: 800 } || v == Vel { x: 0, y: 1_000 });
}

#[test]
fn bootstrap_populates_and_seeds_rivals() {
    let mut sim = Simulation::new();
    sim.populate(3);
    assert_eq!(sim.agents.len(), 3);
    for a in sim.agents.iter() {
        assert!(a.opinions.known_count() == 1);
        assert_eq!(a.velocity, Vel { x: 0, y: 0 });
        assert_eq!(a.direction, Direction::Right);
        assert!(a.personality.chattiness < 100);
        assert!(a.position.x.abs() <= 200_000 && a.position.y.abs() <= 200_000);
        assert!(a.opinions.get_opinion(a.id).is_some());
    }
    sim.make_rivals();
    for a in sim.agents.iter() {
        // two draws land on one, two or no new people
        assert!(a.opinions.known_count() >= 1 && a.opinions.known_count() <= 3);
        // the favorite cache was not re-evaluated by the raw inserts
        assert_eq!(a.opinions.get_fav_person_id(), a.id);
    }
}

#[test]
fn earshot_includes_the_radius_itself() {
    let mut sim = Simulation::new();
    sim.agents.push(resting_agent(1, 0, 0, 50));
    // exactly on the radius: still within earshot
    sim.agents.push(resting_agent(2, 150_000, 0, 50));
    // one thousandth past it: out of earshot
    sim.agents.push(resting_agent(3, 150_001, 0, 50));
    let spoken = PersonalOpinion::new(0, 0);
    let event = GossipEvent {
        author: 1,
        origin: Pos { x: 0, y: 0 },
        distance: GOSSIP_RADIUS,
        opinion: Some((9, spoken)),
    };
    sim.deliver_event(&event);
    assert_eq!(sim.agents[1].opinions.known_count(), 3);
    assert_eq!(sim.agents[2].opinions.known_count(), 1);
}

#[test]
fn extreme_seeds_and_adjustments_stay_bounded() {
    let mut o = PersonalOpinion::new(1_000_000_000, -1_000_000_000);
    o.adjust_likeability(1_000_000_000);
    assert!(o.trust > -100_000 && o.trust < 100_000);
    assert!(o.likeability > -100_000 && o.likeability < 100_000);
    assert_eq!(o.likeability_seed, 0);
    assert_eq!(o.likeability, 0);
    o.adjust_trust(-1_000_000_000);
    assert_eq!(o.trust_seed, 0);
    assert_eq!(o.trust, 0);
    assert!(o.likeability > -100_000 && o.likeability < 100_000);
}

#[test]
fn slow_tick_moves_nothing() {
    let mut sim = Simulation::new();
    sim.populate(4);
    let before: Vec<(u64, i64, i64)> =
        sim.agents.iter().map(|a| (a.id, a.position.x, a.position.y)).collect();
    sim.slow_tick();
    let after: Vec<(u64, i64, i64)> =
        sim.agents.iter().map(|a| (a.id, a.position.x, a.position.y)).collect();
    assert_eq!(before, after);
}
