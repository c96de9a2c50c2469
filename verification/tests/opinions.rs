use gossip_sim::cli::parse;
use gossip_sim::fixed::{half_i64, mul_scaled};
use gossip_sim::opinion::PersonalOpinion;
use gossip_sim::store::Opinions;

#[test]
fn parse_uses_supplied_population() {
    let args = parse(Some(3));
    assert_eq!(args.population, 3);
}

#[test]
fn parse_defaults_to_eighty() {
    let args = parse(None);
    assert_eq!(args.population, 80);
}

#[test]
fn new_opinion_squashes_both_seeds() {
    let o = PersonalOpinion::new(100_000, 100_000);
    assert_eq!(o.trust, 33_333);
    assert_eq!(o.likeability, 33_333);
    assert_eq!(o.trust_seed, 100_000);
    assert_eq!(o.likeability_seed, 100_000);
    assert_eq!(o.base_trust_seed, 100_000);
    assert_eq!(o.base_likeability_seed, 100_000);
}

#[test]
fn new_opinion_is_odd_and_zero_at_zero() {
    let z = PersonalOpinion::new(0, 0);
    assert_eq!(z.trust, 0);
    assert_eq!(z.likeability, 0);
    let n = PersonalOpinion::new(-100_000, -100_000);
    assert_eq!(n.trust, -33_333);
    assert_eq!(n.likeability, -33_333);
}

#[test]
fn display_values_stay_strictly_inside_bounds() {
    let extremes = [
        PersonalOpinion::new(1_000_000_000, -1_000_000_000),
        PersonalOpinion::new(-1_000_000_000, 1_000_000_000),
        PersonalOpinion::new(999_999_999, 1),
    ];
    for o in extremes.iter() {
        assert!(o.trust > -100_000 && o.trust < 100_000);
        assert!(o.likeability > -100_000 && o.likeability < 100_000);
    }
}

#[test]
fn adjust_likeability_tethers_trust_at_half() {
    let mut o = PersonalOpinion::new(1_000, 2_000);
    o.adjust_likeability(500);
    assert_eq!(o.likeability_seed, 2_500);
    assert_eq!(o.trust_seed, 1_250);
    assert_eq!(o.likeability, 1_234);
    assert_eq!(o.trust, 621);
    assert_eq!(o.base_trust_seed, 1_000);
    assert_eq!(o.base_likeability_seed, 2_000);
}

#[test]
fn adjust_trust_tethers_likeability_at_half() {
    let mut o = PersonalOpinion::new(1_000, 2_000);
    o.adjust_trust(500);
    assert_eq!(o.trust_seed, 1_500);
    assert_eq!(o.likeability_seed, 2_250);
    assert_eq!(o.trust, 744);
    assert_eq!(o.likeability, 1_112);
}

#[test]
fn adjustment_replaces_instead_of_accumulating() {
    let mut twice = PersonalOpinion::new(1_000, 2_000);
    twice.adjust_likeability(500);
    twice.adjust_likeability(-301);
    let mut once = PersonalOpinion::new(1_000, 2_000);
    once.adjust_likeability(-301);
    assert_eq!(twice, once);
    assert_eq!(twice.likeability_seed, 1_699);
    assert_eq!(twice.trust_seed, 850);
}

#[test]
fn halving_rounds_toward_zero() {
    assert_eq!(half_i64(-301), -150);
    assert_eq!(half_i64(301), 150);
    assert_eq!(half_i64(0), 0);
}

#[test]
fn scaled_product_rounds_toward_zero() {
    assert_eq!(mul_scaled(-100_000, 40_000), -4_000_000);
    assert_eq!(mul_scaled(50_000, 40_000), 2_000_000);
    assert_eq!(mul_scaled(-3, 501), -1);
    assert_eq!(mul_scaled(3, 501), 1);
    assert_eq!(mul_scaled(0, 99_999), 0);
}

#[test]
fn store_starts_with_maximal_self_opinion_as_favorite() {
    let s = Opinions::new(42);
    assert_eq!(s.get_fav_person_id(), 42);
    assert_eq!(s.favorite_snapshot(), 33_333);
    assert_eq!(s.known_count(), 1);
    assert_eq!(s.known_id_at(0), 42);
    let o = s.get_opinion(42).unwrap();
    assert_eq!(o.likeability, 33_333);
    assert_eq!(o.trust, 33_333);
    assert!(s.get_opinion(7).is_none());
}

#[test]
fn favorite_replaced_only_on_strictly_greater_likeability() {
    let mut s = Opinions::new(1);
    let better = PersonalOpinion::new(0, 200_000);
    assert_eq!(better.likeability, 50_000);
    s.check_if_new_favorite(&better, 5);
    assert_eq!(s.get_fav_person_id(), 5);
    assert_eq!(s.favorite_snapshot(), 50_000);

    let worse = PersonalOpinion::new(0, 133_334);
    assert_eq!(worse.likeability, 40_000);
    s.check_if_new_favorite(&worse, 6);
    assert_eq!(s.get_fav_person_id(), 5);
    assert_eq!(s.favorite_snapshot(), 50_000);

    let equal = PersonalOpinion::new(0, 200_000);
    s.check_if_new_favorite(&equal, 7);
    assert_eq!(s.get_fav_person_id(), 5);
}

#[test]
fn favorite_snapshot_survives_live_drop_of_the_favorite() {
    let mut s = Opinions::new(1);
    let fav = PersonalOpinion::new(0, 200_000);
    s.insert_opinion(5, fav);
    s.check_if_new_favorite(&fav, 5);
    assert_eq!(s.favorite_snapshot(), 50_000);
    // the held opinion of the favorite collapses, but the snapshot stays
    s.insert_opinion(5, PersonalOpinion::new(-100_000, -100_000));
    assert_eq!(s.get_fav_person_id(), 5);
    assert_eq!(s.favorite_snapshot(), 50_000);
    // a candidate below the stale snapshot still does not win
    let candidate = PersonalOpinion::new(0, 163_700);
    assert_eq!(candidate.likeability, 45_009);
    s.check_if_new_favorite(&candidate, 6);
    assert_eq!(s.get_fav_person_id(), 5);
}

#[test]
fn statement_at_returns_the_indexed_entry() {
    let mut s = Opinions::new(9);
    s.insert_opinion(4, PersonalOpinion::new(0, 133_334));
    assert_eq!(s.known_count(), 2);
    assert_eq!(s.known_id_at(1), 4);
    let st = s.statement_at(1);
    assert_eq!(st.0, 4);
    assert_eq!(st.1.likeability, 40_000);
    let own = s.statement_at(0);
    assert_eq!(own.0, 9);
    assert_eq!(own.1.likeability, 33_333);
}
