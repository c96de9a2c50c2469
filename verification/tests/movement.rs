use gossip_sim::motion::{
    Pos, Vel, Direction, boundary_decision, integrate, isqrt, normalize, derive_direction,
    steer_decision,
};

#[test]
fn spritesheet_rows_match_the_atlas_layout() {
    assert_eq!(Direction::Up.spritesheet_row(), 3);
    assert_eq!(Direction::Down.spritesheet_row(), 0);
    assert_eq!(Direction::Left.spritesheet_row(), 1);
    assert_eq!(Direction::Right.spritesheet_row(), 2);
}

#[test]
fn facing_follows_the_dominant_axis() {
    assert_eq!(derive_direction(Vel { x: 10, y: 5 }), Direction::Right);
    assert_eq!(derive_direction(Vel { x: -10, y: 5 }), Direction::Left);
    assert_eq!(derive_direction(Vel { x: 5, y: -10 }), Direction::Down);
    assert_eq!(derive_direction(Vel { x: 5, y: 10 }), Direction::Up);
    // ties go to the vertical axis
    assert_eq!(derive_direction(Vel { x: 5, y: -5 }), Direction::Down);
    assert_eq!(derive_direction(Vel { x: 0, y: 0 }), Direction::Up);
}

#[test]
fn agent_past_the_top_is_pushed_straight_down() {
    let r = boundary_decision(Pos { x: 0, y: 401_000 });
    assert_eq!(r, Some(Vel { x: 0, y: -1_000 }));
}

#[test]
fn boundary_checks_in_priority_order() {
    // beyond top and right at once: only the top correction applies
    let r = boundary_decision(Pos { x: 701_000, y: 401_000 });
    assert_eq!(r, Some(Vel { x: 0, y: -1_000 }));
    // beyond bottom and right at once: the bottom correction wins
    let r = boundary_decision(Pos { x: 701_000, y: -401_000 });
    assert_eq!(r, Some(Vel { x: 0, y: 1_000 }));
    // beyond right only
    let r = boundary_decision(Pos { x: 701_000, y: 0 });
    assert_eq!(r, Some(Vel { x: -1_000, y: 0 }));
    // beyond left only
    let r = boundary_decision(Pos { x: -701_000, y: 0 });
    assert_eq!(r, Some(Vel { x: 1_000, y: 0 }));
    // exactly on a bound is still inside
    assert_eq!(boundary_decision(Pos { x: 700_000, y: 400_000 }), None);
}

#[test]
fn integration_adds_one_tick_of_velocity() {
    let q = integrate(Pos { x: 10, y: -20 }, Vel { x: 1_000, y: -1_000 });
    assert_eq!(q, Pos { x: 1_010, y: -1_020 });
}

#[test]
fn isqrt_matches_perfect_and_imperfect_squares() {
    assert_eq!(isqrt(0), 0);
    assert_eq!(isqrt(1), 1);
    assert_eq!(isqrt(24), 4);
    assert_eq!(isqrt(25), 5);
    assert_eq!(isqrt(26), 5);
    assert_eq!(isqrt(8_000_000_000_000), 2_828_427);
}

#[test]
fn normalize_scales_to_unit_length() {
    assert_eq!(normalize(3_000, 4_000), Vel { x: 600, y: 800 });
    assert_eq!(normalize(-3_000, 4_000), Vel { x: -600, y: 800 });
    assert_eq!(normalize(0, 2_000), Vel { x: 0, y: 1_000 });
    assert_eq!(normalize(-5, 0), Vel { x: -1_000, y: 0 });
}

#[test]
fn steering_coasts_when_the_turn_roll_misses() {
    let r = steer_decision(
        11,
        0,
        Pos { x: 0, y: 0 },
        Some(Pos { x: 3_000, y: 4_000 }),
        Vel { x: 1_000, y: 0 },
    );
    assert_eq!(r, None);
}

#[test]
fn steering_skips_agents_with_unreported_favorites() {
    let r = steer_decision(5, 0, Pos { x: 0, y: 0 }, None, Vel { x: 1_000, y: 0 });
    assert_eq!(r, None);
}

#[test]
fn steering_seeks_the_favorite() {
    let r = steer_decision(
        10,
        0,
        Pos { x: 0, y: 0 },
        Some(Pos { x: 3_000, y: 4_000 }),
        Vel { x: 1_000, y: 0 },
    );
    assert_eq!(r, Some(Vel { x: 600, y: 800 }));
}

#[test]
fn steering_wanders_on_the_rare_roll_or_a_coincident_target() {
    let wander = Vel { x: -707, y: 707 };
    let r = steer_decision(0, 69, Pos { x: 0, y: 0 }, Some(Pos { x: 3_000, y: 4_000 }), wander);
    assert_eq!(r, Some(wander));
    let r = steer_decision(0, 0, Pos { x: 5, y: 5 }, Some(Pos { x: 5, y: 5 }), wander);
    assert_eq!(r, Some(wander));
}
