use moon_sun::game::Game;
use moon_sun::object::{Object, ObjectKind, Team, Vec2};
use moon_sun::utils::{count_objects, score};

fn circle(x: i64, y: i64, team: Team, dx: i64, dy: i64, scale: i64) -> Object {
    Object {
        position: (x, y),
        team,
        kind: ObjectKind::Circle,
        direction: Vec2 { x: dx, y: dy },
        scale,
    }
}

fn square(x: i64, y: i64, team: Team, scale: i64) -> Object {
    Object {
        position: (x, y),
        team,
        kind: ObjectKind::Square,
        direction: Vec2 { x: 0, y: 0 },
        scale,
    }
}

#[test]
fn intersection_clamps_inside_square() {
    // Circle at (100, 100) with radius 25 against a square anchored at
    // (90, 90) with side 50: the closest point clamps to the center
    // itself, distance 0 < 625.
    let c = circle(100, 100, Team::MOON, 1, 1, 1);
    let s = square(90, 90, Team::MOON, 1);
    assert!(c.intersects(&s));
    assert!(s.intersects(&c));
}

#[test]
fn intersection_is_strict() {
    // A circle exactly 25 units left of the square's left edge touches
    // tangentially: squared distance equals the squared radius, which
    // does not count as intersection.
    let c = circle(75, 100, Team::MOON, 1, 1, 1);
    let s = square(100, 75, Team::MOON, 1);
    assert!(!c.intersects(&s));
    let nearer = circle(76, 100, Team::MOON, 1, 1, 1);
    assert!(nearer.intersects(&s));
}

#[test]
fn reflection_off_cell_to_the_right() {
    // A token moving diagonally (1, 1) into a same-team cell directly to
    // its right (normal along the x axis) leaves with direction (-1, 1)
    // and the cell switches sides.
    let mut t = circle(0, 0, Team::MOON, 1, 1, 1);
    let mut cell = square(10, 0, Team::MOON, 1);
    t.handle_collision(&mut cell);
    assert_eq!(t.direction, Vec2 { x: -1, y: 1 });
    assert_eq!(cell.team, Team::SUN);
    assert_eq!(t.team, Team::MOON);
    assert_eq!(t.position, (0, 0));
    assert_eq!(cell.position, (10, 0));
}

#[test]
fn different_team_collision_is_a_no_op() {
    // Overlap without shared team: pass-through, no bounce, no flip.
    let mut t = circle(0, 0, Team::MOON, 1, 1, 1);
    let mut cell = square(10, 0, Team::SUN, 1);
    let t0 = t;
    let cell0 = cell;
    t.handle_collision(&mut cell);
    assert_eq!(t, t0);
    assert_eq!(cell, cell0);
}

#[test]
fn non_intersecting_collision_is_a_no_op() {
    let mut t = circle(0, 0, Team::MOON, 1, 1, 1);
    let mut cell = square(500, 500, Team::MOON, 1);
    let t0 = t;
    let cell0 = cell;
    t.handle_collision(&mut cell);
    assert_eq!(t, t0);
    assert_eq!(cell, cell0);
}

#[test]
fn toggle_team_round_trip() {
    let mut cell = square(0, 0, Team::MOON, 1);
    cell.toggle_team();
    assert_eq!(cell.team, Team::SUN);
    cell.toggle_team();
    assert_eq!(cell.team, Team::MOON);
}

#[test]
fn boundary_reflection_near_wall() {
    // Token with its leading edge past the left wall: the x direction is
    // negated and the position nudged once by the new value; y is left
    // alone.
    let mut t = circle(150, 640, Team::MOON, -22, 5, 1);
    t.handle_boundary_collision((140, 140));
    assert_eq!(t.direction, Vec2 { x: 22, y: 5 });
    assert_eq!(t.position, (172, 640));
}

#[test]
fn boundary_reflection_far_wall_and_corner() {
    // Both axes past their far walls in the same call: both components
    // negate.
    let mut t = circle(1130, 1120, Team::MOON, 22, 15, 1);
    t.handle_boundary_collision((140, 140));
    assert_eq!(t.direction, Vec2 { x: -22, y: -15 });
    assert_eq!(t.position, (1108, 1105));
}

#[test]
fn boundary_keeps_center_within_tolerance() {
    // After boundary handling the center stays within the field
    // rectangle widened by one step on each side.
    let bounds = (140i64, 140i64);
    for x in [141, 165, 640, 1114, 1139] {
        for dx in [-22i64, 22] {
            let mut t = circle(x, 640, Team::MOON, dx, 5, 1);
            t.handle_boundary_collision(bounds);
            assert!(bounds.0 - 22 <= t.position.0);
            assert!(t.position.0 <= bounds.0 + 1000 + 22);
        }
    }
}

#[test]
fn initial_game_layout() {
    let g = Game::new_with_signs(1280, 1280, true, true, false, true);
    assert_eq!(g.scale_factor, 1);
    assert_eq!(g.bounds, (140, 140));
    assert_eq!(g.squares.len(), 400);
    // Left block owned by Moon, right block by Sun.
    assert_eq!(g.squares[0].position, (140, 140));
    assert_eq!(g.squares[0].team, Team::MOON);
    assert_eq!(g.squares[9].position, (590, 140));
    assert_eq!(g.squares[10].position, (140, 190));
    assert_eq!(g.squares[199].position, (590, 1090));
    assert_eq!(g.squares[200].position, (640, 140));
    assert_eq!(g.squares[200].team, Team::SUN);
    assert_eq!(g.squares[399].position, (1090, 1090));
    // Tokens at fixed window fractions with the requested signs.
    assert_eq!(g.moon_circle.position, (896, 768));
    assert_eq!(g.moon_circle.direction, Vec2 { x: 22, y: 22 });
    assert_eq!(g.moon_circle.team, Team::MOON);
    assert_eq!(g.sun_circle.position, (448, 768));
    assert_eq!(g.sun_circle.direction, Vec2 { x: -22, y: 22 });
    assert_eq!(g.sun_circle.team, Team::SUN);
}

#[test]
fn initial_score_is_even() {
    // A fresh grid of 400 cells split into two 200-cell blocks scores
    // 200 apiece.
    let g = Game::new_with_signs(1280, 1280, true, true, true, true);
    assert_eq!(score(&g.squares), (200, 200));
}

#[test]
fn new_with_random_signs_keeps_layout() {
    let g = Game::new(1280, 1280);
    assert_eq!(g.squares.len(), 400);
    assert_eq!(score(&g.squares), (200, 200));
    assert_eq!(g.moon_circle.direction.x.abs(), 22);
    assert_eq!(g.moon_circle.direction.y.abs(), 22);
    assert_eq!(g.sun_circle.direction.x.abs(), 22);
    assert_eq!(g.sun_circle.direction.y.abs(), 22);
}

#[test]
fn first_tick_moves_tokens_without_captures() {
    // On the fresh grid each token sits over the opposing block, so the
    // first tick only moves them.
    let mut g = Game::new_with_signs(1280, 1280, true, true, true, true);
    g.update();
    assert_eq!(g.moon_circle.position, (918, 790));
    assert_eq!(g.sun_circle.position, (470, 790));
    assert_eq!(score(&g.squares), (200, 200));
}

#[test]
fn tick_applies_capture_and_reflection() {
    let mut g = Game::new_with_signs(1280, 1280, true, true, true, true);
    g.bounds = (0, 0);
    g.squares = vec![square(500, 500, Team::SUN, 1)];
    g.sun_circle = circle(504, 504, Team::SUN, 1, 1, 1);
    g.moon_circle = circle(2000, 2000, Team::MOON, 1, 1, 1);
    g.update();
    // The sun token moved onto the cell, captured it and reflected off
    // the normal (-5, -5).
    assert_eq!(g.sun_circle.position, (505, 505));
    assert_eq!(g.sun_circle.direction, Vec2 { x: -1, y: -1 });
    assert_eq!(g.squares[0].team, Team::MOON);
}

#[test]
fn cell_captured_twice_in_one_tick() {
    // Both tokens overlap the same cell in one tick: the sun token
    // captures it first (to Moon), then the moon token captures it back
    // (to Sun) - two flips in immediate succession return the original
    // owner.
    let mut g = Game::new_with_signs(1280, 1280, true, true, true, true);
    g.bounds = (0, 0);
    g.squares = vec![square(500, 500, Team::SUN, 1)];
    g.sun_circle = circle(504, 504, Team::SUN, 1, 1, 1);
    g.moon_circle = circle(494, 504, Team::MOON, 1, 1, 1);
    g.update();
    assert_eq!(g.squares[0].team, Team::SUN);
    assert_eq!(g.sun_circle.direction, Vec2 { x: -1, y: -1 });
    // The moon token's approach is tangential to its normal (zero dot
    // product), so its direction survives its capture unchanged.
    assert_eq!(g.moon_circle.direction, Vec2 { x: 1, y: 1 });
}

#[test]
fn teams_stay_binary_over_many_ticks() {
    // Every cell's team is always one of the two values, however long
    // the session runs.
    let mut g = Game::new_with_signs(1280, 1280, true, false, false, true);
    for _ in 0..200 {
        g.update();
        let (moon, sun) = score(&g.squares);
        assert_eq!(moon as usize + sun as usize, g.squares.len());
    }
}

#[test]
fn resize_rescales_everything() {
    let mut g = Game::new_with_signs(1280, 1280, true, true, true, true);
    g.resize_event(2560, 2000);
    // Scale is the smaller of the two window-to-field ratios.
    assert_eq!(g.scale_factor, 2);
    assert_eq!(g.bounds, ((2560 - 2000) / 2, 0));
    for cell in &g.squares {
        assert_eq!(cell.scale, 2);
    }
    assert_eq!(g.sun_circle.scale, 2);
    assert_eq!(g.moon_circle.scale, 2);
}

#[test]
fn count_objects_counts_only_the_team() {
    let cells = vec![
        square(0, 0, Team::MOON, 1),
        square(50, 0, Team::SUN, 1),
        square(100, 0, Team::MOON, 1),
    ];
    assert_eq!(count_objects(&cells, Team::MOON), 2);
    assert_eq!(count_objects(&cells, Team::SUN), 1);
}
