use road_intersection::simulation::{get_lane_queue_count, Simulation};
use road_intersection::traffic_lights::{TrafficLightController, TrafficPhase};
use road_intersection::types::{LaneId, RouteType, SignalState, VehicleKind};

fn red_everywhere(sim: &mut Simulation) {
    for lane in LaneId::all() {
        sim.set_lane_signal(lane, SignalState::Red);
    }
}

/// Spawns on one approach under red, 100 ms apart, until seven vehicles wait before
/// its stop line.
fn queue_seven(sim: &mut Simulation, lane: LaneId) {
    for _ in 0..300 {
        sim.spawn_vehicle(lane, RouteType::Straight, VehicleKind::Car);
        if get_lane_queue_count(sim, lane) >= 7 {
            return;
        }
        sim.update_vehicles(100);
    }
    panic!("queue did not fill");
}

#[test]
fn new_simulation_is_all_red_and_empty() {
    let sim = Simulation::new();
    for lane in LaneId::all() {
        assert_eq!(sim.lane_signal(lane), SignalState::Red);
        assert!(!sim.is_green(lane));
    }
    assert!(sim.vehicles.is_empty());
    assert_eq!(sim.next_vehicle_id(), 1);
}

#[test]
fn signals_are_per_lane() {
    let mut sim = Simulation::new();
    sim.set_lane_signal(LaneId::WestEb, SignalState::Green);
    assert!(sim.is_green(LaneId::WestEb));
    assert!(!sim.is_green(LaneId::EastWb));
    assert_eq!(sim.lane_signals[6], SignalState::Green);
}

#[test]
fn spawn_rules() {
    let mut sim = Simulation::new();
    assert!(!sim.spawn_vehicle(LaneId::NorthNb, RouteType::Straight, VehicleKind::Car));
    assert!(sim.spawn_vehicle(LaneId::NorthSb, RouteType::Left, VehicleKind::Motorcycle));
    assert!(!sim.spawn_vehicle(LaneId::NorthSb, RouteType::Left, VehicleKind::Car));
    assert!(sim.spawn_vehicle(LaneId::SouthNb, RouteType::Right, VehicleKind::Car));
    assert_eq!(sim.vehicles.len(), 2);
    assert_eq!(sim.vehicles[0].id, 1);
    assert_eq!(sim.vehicles[0].kind, VehicleKind::Motorcycle);
    assert_eq!(sim.vehicles[1].id, 2);
    assert_eq!(sim.next_vehicle_id(), 3);
}

#[test]
fn spawn_allowed_again_after_gap() {
    let mut sim = Simulation::new();
    assert!(sim.spawn_vehicle(LaneId::EastWb, RouteType::Straight, VehicleKind::Car));
    sim.update_vehicles(422);
    // 37.98 px travelled: still within the 38 px gap.
    assert!(!sim.spawn_vehicle(LaneId::EastWb, RouteType::Straight, VehicleKind::Car));
    sim.update_vehicles(1);
    assert!(sim.spawn_vehicle(LaneId::EastWb, RouteType::Straight, VehicleKind::Car));
}

#[test]
fn vehicle_list_is_capped() {
    let mut sim = Simulation::new();
    sim.set_lane_signal(LaneId::NorthSb, SignalState::Green);
    let mut spawned = 0;
    for _ in 0..200 {
        for lane in [LaneId::NorthSb, LaneId::SouthNb, LaneId::EastWb, LaneId::WestEb] {
            if sim.spawn_vehicle(lane, RouteType::Straight, VehicleKind::Car) {
                spawned += 1;
            }
        }
        sim.update_vehicles(500);
        assert!(sim.vehicles.len() <= 64);
    }
    assert!(spawned > 64);
}

#[test]
fn red_light_queue_builds_and_counts() {
    let mut sim = Simulation::new();
    red_everywhere(&mut sim);
    queue_seven(&mut sim, LaneId::NorthSb);
    assert_eq!(get_lane_queue_count(&sim, LaneId::NorthSb), 7);
    assert_eq!(get_lane_queue_count(&sim, LaneId::SouthNb), 0);
    for v in &sim.vehicles {
        assert!(v.route_progress() < 290_000);
    }
}

#[test]
fn vehicles_stop_at_red_and_leave_when_done() {
    let mut sim = Simulation::new();
    red_everywhere(&mut sim);
    assert!(sim.spawn_vehicle(LaneId::WestEb, RouteType::Straight, VehicleKind::Car));
    sim.update_vehicles(3000);
    // 270 px in three seconds: still short of the 290 px stop line.
    assert_eq!(sim.vehicles[0].route_progress(), 270_000);
    sim.update_vehicles(3000);
    assert_eq!(sim.vehicles[0].route_progress(), 290_000);
    // Waiting at the line: it stays there for as long as the light is red.
    for _ in 0..10 {
        sim.update_vehicles(1000);
        assert_eq!(sim.vehicles[0].route_progress(), 290_000);
    }
    sim.set_lane_signal(LaneId::WestEb, SignalState::Green);
    for _ in 0..20 {
        sim.update_vehicles(1000);
    }
    assert!(sim.vehicles.is_empty());
}

#[test]
fn follower_waits_behind_stopped_leader() {
    let mut sim = Simulation::new();
    red_everywhere(&mut sim);
    assert!(sim.spawn_vehicle(LaneId::SouthNb, RouteType::Left, VehicleKind::Car));
    sim.update_vehicles(2000);
    assert!(sim.spawn_vehicle(LaneId::SouthNb, RouteType::Right, VehicleKind::Car));
    for _ in 0..5 {
        sim.update_vehicles(1000);
    }
    let lead = sim.vehicles[0].route_progress();
    let follow = sim.vehicles[1].route_progress();
    assert!(follow + 38_000 <= lead);
    assert_eq!(lead, 290_000);
}

#[test]
fn controller_starts_north_and_cycles() {
    let mut sim = Simulation::new();
    let mut lights = TrafficLightController::new();
    assert!(!lights.update(&mut sim, 0));
    assert!(sim.is_green(LaneId::NorthSb));
    let greens = LaneId::all().iter().filter(|l| sim.is_green(**l)).count();
    assert_eq!(greens, 1);
    assert!(!lights.update(&mut sim, 7999));
    assert!(lights.update(&mut sim, 1));
    assert!(sim.is_green(LaneId::SouthNb));
    assert!(!sim.is_green(LaneId::NorthSb));
    assert!(lights.update(&mut sim, 8000));
    assert!(sim.is_green(LaneId::WestEb));
    assert!(lights.update(&mut sim, 8000));
    assert!(sim.is_green(LaneId::EastWb));
    assert!(lights.update(&mut sim, 8000));
    assert!(sim.is_green(LaneId::NorthSb));
}

#[test]
fn phases_follow_fixed_order() {
    assert_eq!(TrafficPhase::NorthSb.next(), TrafficPhase::SouthNb);
    assert_eq!(TrafficPhase::SouthNb.next(), TrafficPhase::WestEb);
    assert_eq!(TrafficPhase::WestEb.next(), TrafficPhase::EastWb);
    assert_eq!(TrafficPhase::EastWb.next(), TrafficPhase::NorthSb);
    assert_eq!(TrafficPhase::WestEb.lane(), LaneId::WestEb);
    assert_eq!(TrafficPhase::all().len(), 4);
}

#[test]
fn minimum_green_holds_even_under_congestion() {
    let mut sim = Simulation::new();
    red_everywhere(&mut sim);
    queue_seven(&mut sim, LaneId::SouthNb);
    let mut lights = TrafficLightController::new();
    assert!(!lights.update(&mut sim, 2999));
    assert!(sim.is_green(LaneId::NorthSb));
    // After the minimum green the uncongested north approach yields to the full south one.
    assert!(lights.update(&mut sim, 1));
    assert!(sim.is_green(LaneId::SouthNb));
}

#[test]
fn congestion_extends_green_to_fourteen_seconds() {
    let mut sim = Simulation::new();
    red_everywhere(&mut sim);
    queue_seven(&mut sim, LaneId::NorthSb);
    let mut lights = TrafficLightController::new();
    assert!(!lights.update(&mut sim, 8000));
    assert!(!lights.update(&mut sim, 5999));
    assert!(sim.is_green(LaneId::NorthSb));
    assert!(lights.update(&mut sim, 1));
    assert!(sim.is_green(LaneId::SouthNb));
}

#[test]
fn long_frame_switches_at_most_one_phase() {
    let mut sim = Simulation::new();
    let mut lights = TrafficLightController::default();
    assert!(lights.update(&mut sim, 100_000));
    assert!(sim.is_green(LaneId::SouthNb));
}

/// Unfinished vehicles of one queue are at least 38 px apart.
fn gaps_ok(sim: &Simulation) -> bool {
    let vs = &sim.vehicles;
    for i in 0..vs.len() {
        for j in 0..vs.len() {
            if i == j || vs[i].is_finished() || vs[j].is_finished() || vs[i].lane != vs[j].lane {
                continue;
            }
            let before_line = vs[i].route_progress() < vs[i].lane_length
                || vs[j].route_progress() < vs[j].lane_length;
            if !(before_line || vs[i].route == vs[j].route) {
                continue;
            }
            let (a, b) = (vs[i].route_progress(), vs[j].route_progress());
            if !(a + 38_000 <= b || b + 38_000 <= a) {
                return false;
            }
        }
    }
    true
}

#[test]
fn queues_stay_spaced_through_updates() {
    let mut sim = Simulation::new();
    let mut lights = TrafficLightController::new();
    let lanes = [LaneId::NorthSb, LaneId::SouthNb, LaneId::EastWb, LaneId::WestEb];
    let routes = [RouteType::Left, RouteType::Right, RouteType::Straight];
    for step in 0..2000usize {
        let lane = lanes[step % 4];
        sim.spawn_vehicle(lane, routes[step % 3], VehicleKind::Car);
        assert!(gaps_ok(&sim));
        sim.update_vehicles(37 + (step % 50) as u32);
        lights.update(&mut sim, 37 + (step % 50) as u32);
        assert!(gaps_ok(&sim));
    }
}

#[test]
fn can_spawn_matches_spawn() {
    let mut sim = Simulation::new();
    assert!(sim.can_spawn(LaneId::WestEb));
    assert!(!sim.can_spawn(LaneId::WestWb));
    assert!(sim.spawn_vehicle(LaneId::WestEb, RouteType::Left, VehicleKind::Car));
    assert!(!sim.can_spawn(LaneId::WestEb));
}
