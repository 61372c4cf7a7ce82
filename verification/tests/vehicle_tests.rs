use road_intersection::types::{LaneId, RouteType, SignalState, Vec2};
use road_intersection::vehicle::{lane_spawn_blocked, min_follow_gap, queue_count_on_lane, Vehicle};
use road_intersection::world::World;

#[test]
fn path_starts_at_spawn() {
    let world = World::new();
    let v = Vehicle::new(1, LaneId::SouthNb, RouteType::Straight, &world);
    let spawn = world.lane(LaneId::SouthNb).spawn;
    let pos = v.position();
    // Positions are in millipixels: within 0.01 px means within 10.
    assert!((pos.x - spawn.x).abs() < 10);
    assert!((pos.y - spawn.y).abs() < 10);
}

#[test]
fn red_light_holds_before_stop_line() {
    let world = World::new();
    let mut v = Vehicle::new(1, LaneId::SouthNb, RouteType::Straight, &world);
    let lane_length = world.lane(LaneId::SouthNb).lane_length;
    v.apply_advance(lane_length - 1000);
    let vehicles = [v.clone()];
    let advance = v.compute_advance(1000, SignalState::Red, &vehicles, 0);
    v.apply_advance(advance);
    assert!(v.route_progress() <= lane_length + 10);
}

#[test]
fn follower_stops_behind_leader() {
    let world = World::new();
    let mut leader = Vehicle::new(1, LaneId::NorthSb, RouteType::Straight, &world);
    let mut follower = Vehicle::new(2, LaneId::NorthSb, RouteType::Straight, &world);
    let gap = min_follow_gap();
    leader.apply_advance(gap + 20_000);
    let vehicles = vec![leader.clone(), follower.clone()];
    let advance = follower.compute_advance(1000, SignalState::Green, &vehicles, 1);
    follower.apply_advance(advance);
    assert!(follower.route_progress() <= gap + 10);
}

#[test]
fn free_vehicle_moves_at_full_speed() {
    let world = World::new();
    let v = Vehicle::new(1, LaneId::WestEb, RouteType::Left, &world);
    let vehicles = [v.clone()];
    // 90 px/s for 0.5 s is 45 px.
    assert_eq!(v.compute_advance(500, SignalState::Green, &vehicles, 0), 45_000);
    assert_eq!(v.compute_advance(500, SignalState::Red, &vehicles, 0), 45_000);
}

#[test]
fn follower_keeps_exact_gap() {
    let world = World::new();
    let mut leader = Vehicle::new(1, LaneId::NorthSb, RouteType::Left, &world);
    let follower = Vehicle::new(2, LaneId::NorthSb, RouteType::Right, &world);
    leader.apply_advance(50_000);
    let vehicles = vec![leader.clone(), follower.clone()];
    // Leader 50 px ahead, gap 38 px: 12 px of room.
    assert_eq!(follower.compute_advance(1000, SignalState::Green, &vehicles, 1), 12_000);
    assert_eq!(min_follow_gap(), 38_000);
}

#[test]
fn vehicle_finishes_at_path_end() {
    let world = World::new();
    let mut v = Vehicle::new(1, LaneId::NorthSb, RouteType::Straight, &world);
    // Spawn to stop line 290 px, across the box 204 px, then the exit arm 290 px.
    assert!(!v.is_finished());
    v.apply_advance(783_999);
    assert!(!v.is_finished());
    v.apply_advance(1);
    assert!(v.is_finished());
    let before = v.route_progress();
    v.apply_advance(5_000);
    assert_eq!(v.route_progress(), before);
    let vehicles = [v.clone()];
    assert_eq!(v.compute_advance(1000, SignalState::Green, &vehicles, 0), 0);
}

#[test]
fn position_interpolates_along_path() {
    let world = World::new();
    let mut v = Vehicle::new(1, LaneId::NorthSb, RouteType::Straight, &world);
    v.apply_advance(100_000);
    // Spawn (553, -4) px heading south: 100 px on is (553, 96).
    assert_eq!(v.position(), Vec2 { x: 553_000, y: 96_000 });
    assert_eq!(v.direction(), Vec2 { x: 0, y: 290_000 });
    // Moving along y: drawn with the length across the screen.
    assert_eq!(v.draw_extents(), (22_000, 25_300));
}

#[test]
fn horizontal_vehicle_extents() {
    let world = World::new();
    let v = Vehicle::new(1, LaneId::WestEb, RouteType::Straight, &world);
    assert_eq!(v.direction(), Vec2 { x: 290_000, y: 0 });
    assert_eq!(v.draw_extents(), (25_300, 22_000));
}

#[test]
fn diagonal_position_rounds_toward_zero() {
    let world = World::new();
    let mut v = Vehicle::new(1, LaneId::NorthSb, RouteType::Right, &world);
    // Spawn to stop 290 px, stop to centre row 102 px, then 23 px to the hub: 415 px.
    // The next segment runs from the hub (576, 388) to (474, 365): 104_560 millipixels
    // (the integer square root of 102_000^2 + 23_000^2).
    v.apply_advance(415_000 + 52_000);
    let p = v.position();
    // 102_000 * 52_000 / 104_560 = 50_726.8 and 23_000 * 52_000 / 104_560 = 11_438.4.
    assert_eq!(p, Vec2 { x: 576_000 - 50_726, y: 388_000 - 11_438 });
    assert_eq!(v.direction(), Vec2 { x: -102_000, y: -23_000 });
}

#[test]
fn spawn_blocking_and_queue_count() {
    let world = World::new();
    let mut a = Vehicle::new(1, LaneId::EastWb, RouteType::Straight, &world);
    assert!(lane_spawn_blocked(&[a.clone()], LaneId::EastWb));
    assert!(!lane_spawn_blocked(&[a.clone()], LaneId::WestEb));
    a.apply_advance(37_999);
    assert!(lane_spawn_blocked(&[a.clone()], LaneId::EastWb));
    a.apply_advance(1);
    assert!(!lane_spawn_blocked(&[a.clone()], LaneId::EastWb));
    let b = Vehicle::new(2, LaneId::EastWb, RouteType::Left, &world);
    let mut c = Vehicle::new(3, LaneId::EastWb, RouteType::Right, &world);
    c.apply_advance(290_000);
    let vs = vec![a, b, c];
    assert_eq!(queue_count_on_lane(&vs, LaneId::EastWb, 290_000), 2);
    assert_eq!(queue_count_on_lane(&vs, LaneId::NorthSb, 290_000), 0);
}

#[test]
fn vehicle_at_stop_line_waits_on_red() {
    let world = World::new();
    let mut v = Vehicle::new(1, LaneId::SouthNb, RouteType::Straight, &world);
    v.apply_advance(290_000);
    let vehicles = [v.clone()];
    assert_eq!(v.compute_advance(100, SignalState::Red, &vehicles, 0), 0);
    assert_eq!(v.compute_advance(100, SignalState::Green, &vehicles, 0), 9_000);
    // Once past the line (inside the box) a red signal no longer holds it.
    v.apply_advance(1);
    let vehicles = [v.clone()];
    assert_eq!(v.compute_advance(100, SignalState::Red, &vehicles, 0), 9_000);
}
