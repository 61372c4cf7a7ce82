use road_intersection::input::{try_spawn_from_key, InputAction, InputEvent, InputHandler, Key};
use road_intersection::simulation::Simulation;
use road_intersection::types::{lane_for_spawn_direction, LaneId};

fn lane_for_key(key: Key) -> Option<LaneId> {
    match key {
        Key::Up => Some(lane_for_spawn_direction(0)),
        Key::Down => Some(lane_for_spawn_direction(1)),
        Key::Right => Some(lane_for_spawn_direction(2)),
        Key::Left => Some(lane_for_spawn_direction(3)),
        _ => None,
    }
}

#[test]
fn arrow_keys_map_to_inbound_lanes() {
    assert_eq!(lane_for_key(Key::Up), Some(LaneId::SouthNb));
    assert_eq!(lane_for_key(Key::Down), Some(LaneId::NorthSb));
    assert_eq!(lane_for_key(Key::Right), Some(LaneId::WestEb));
    assert_eq!(lane_for_key(Key::Left), Some(LaneId::EastWb));
}

#[test]
fn spawn_from_key_adds_vehicle() {
    let mut sim = Simulation::new();
    let mut seed = 0u32;
    try_spawn_from_key(&mut sim, Key::Up, &mut seed);
    assert_eq!(sim.vehicles.len(), 1);
    assert_eq!(sim.vehicles[0].lane, LaneId::SouthNb);
}

#[test]
fn anti_spam_blocks_back_to_back_spawn() {
    let mut sim = Simulation::new();
    let mut seed = 0u32;
    try_spawn_from_key(&mut sim, Key::Up, &mut seed);
    try_spawn_from_key(&mut sim, Key::Up, &mut seed);
    assert_eq!(sim.vehicles.len(), 1);
}

#[test]
fn spawn_key_steps_seed_and_picks_route_and_kind() {
    let mut sim = Simulation::new();
    let mut seed = 0u32;
    try_spawn_from_key(&mut sim, Key::Down, &mut seed);
    // Two steps: route from seed 1 (right), kind from seed 2 (car).
    assert_eq!(seed, 2);
    assert_eq!(sim.vehicles[0].lane, LaneId::NorthSb);
    assert_eq!(sim.vehicles[0].route, road_intersection::types::RouteType::Right);
    assert_eq!(sim.vehicles[0].kind, road_intersection::types::VehicleKind::Car);
    assert_eq!(sim.vehicles[0].id, 1);
}

#[test]
fn random_key_uses_stepped_seed_for_direction() {
    let mut sim = Simulation::new();
    let mut seed = 0u32;
    try_spawn_from_key(&mut sim, Key::R, &mut seed);
    // Direction from seed 1 (down arrow: north approach), route from 2, kind from 3.
    assert_eq!(seed, 3);
    assert_eq!(sim.vehicles[0].lane, LaneId::NorthSb);
    assert_eq!(sim.vehicles[0].route, road_intersection::types::RouteType::Straight);
}

#[test]
fn seed_wraps_around() {
    let mut sim = Simulation::new();
    let mut seed = u32::MAX;
    try_spawn_from_key(&mut sim, Key::Left, &mut seed);
    assert_eq!(seed, 1);
    assert_eq!(sim.vehicles[0].lane, LaneId::EastWb);
    // Route from seed 0 (left), kind from seed 1 (car).
    assert_eq!(sim.vehicles[0].route, road_intersection::types::RouteType::Left);
}

#[test]
fn other_keys_spawn_nothing() {
    let mut sim = Simulation::new();
    let mut seed = 5u32;
    try_spawn_from_key(&mut sim, Key::Other, &mut seed);
    assert_eq!(seed, 5);
    assert_eq!(sim.vehicles.len(), 0);
}

#[test]
fn events_map_to_actions() {
    let mut sim = Simulation::new();
    let mut input = InputHandler::new();
    assert_eq!(input.handle_event(&mut sim, InputEvent::Quit), InputAction::Quit);
    assert_eq!(
        input.handle_event(&mut sim, InputEvent::KeyDown { key: Some(Key::Escape), repeat: false }),
        InputAction::Quit
    );
    assert_eq!(
        input.handle_event(&mut sim, InputEvent::KeyDown { key: Some(Key::Up), repeat: true }),
        InputAction::Continue
    );
    assert_eq!(sim.vehicles.len(), 0);
    assert_eq!(input.handle_event(&mut sim, InputEvent::KeyDown { key: None, repeat: false }), InputAction::Continue);
    assert_eq!(input.handle_event(&mut sim, InputEvent::Other), InputAction::Continue);
    assert_eq!(
        input.handle_event(&mut sim, InputEvent::KeyDown { key: Some(Key::Up), repeat: false }),
        InputAction::Continue
    );
    assert_eq!(sim.vehicles.len(), 1);
    let default_handler = InputHandler::default();
    let _ = default_handler;
}

#[test]
fn m_key_toggles_mute_without_spawning() {
    let mut sim = Simulation::new();
    let mut input = InputHandler::new();
    let m = InputEvent::KeyDown { key: Some(Key::M), repeat: false };
    assert_eq!(input.spawn_lane(m), None);
    assert_eq!(input.handle_event(&mut sim, m), InputAction::ToggleMute);
    assert_eq!(sim.vehicles.len(), 0);
    let m_held = InputEvent::KeyDown { key: Some(Key::M), repeat: true };
    assert_eq!(input.handle_event(&mut sim, m_held), InputAction::Continue);
}

#[test]
fn spawn_lane_predicts_the_spawn() {
    let mut sim = Simulation::new();
    let mut input = InputHandler::new();
    let r = InputEvent::KeyDown { key: Some(Key::R), repeat: false };
    assert_eq!(input.spawn_lane(r), Some(LaneId::NorthSb));
    input.handle_event(&mut sim, r);
    assert_eq!(sim.vehicles[0].lane, LaneId::NorthSb);
    // Seed now 3: the next R press picks direction 4 % 4 = 0, the south approach.
    assert_eq!(input.spawn_lane(r), Some(LaneId::SouthNb));
    assert_eq!(input.spawn_lane(InputEvent::KeyDown { key: Some(Key::Left), repeat: false }), Some(LaneId::EastWb));
    assert_eq!(input.spawn_lane(InputEvent::KeyDown { key: Some(Key::Left), repeat: true }), None);
    assert_eq!(input.spawn_lane(InputEvent::Quit), None);
}
