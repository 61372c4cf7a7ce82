use road_intersection::geometry::{dist, isqrt};
use road_intersection::types::{
    lane_capacity, lane_for_spawn_direction, random_route_uniform, random_vehicle_kind, route_color,
    ColorRgb, LaneId, RouteType, Vec2, VehicleKind,
};
use road_intersection::world::World;

#[test]
fn lane_ids_index_and_name() {
    let all = LaneId::all();
    for (i, lane) in all.iter().enumerate() {
        assert_eq!(lane.index(), i);
    }
    assert_eq!(LaneId::NorthSb.name(), "N_SB");
    assert_eq!(LaneId::SouthNb.name(), "S_NB");
    assert_eq!(LaneId::EastWb.name(), "E_WB");
    assert_eq!(LaneId::WestWb.name(), "W_WB");
    assert_eq!(RouteType::all(), [RouteType::Left, RouteType::Right, RouteType::Straight]);
}

#[test]
fn route_colors_match_legend() {
    assert_eq!(route_color(RouteType::Left), ColorRgb { r: 0, g: 112, b: 236 });
    assert_eq!(route_color(RouteType::Right), ColorRgb { r: 236, g: 188, b: 0 });
    assert_eq!(route_color(RouteType::Straight), ColorRgb { r: 0, g: 168, b: 0 });
}

#[test]
fn spawn_directions() {
    assert_eq!(lane_for_spawn_direction(0), LaneId::SouthNb);
    assert_eq!(lane_for_spawn_direction(1), LaneId::NorthSb);
    assert_eq!(lane_for_spawn_direction(2), LaneId::WestEb);
    assert_eq!(lane_for_spawn_direction(3), LaneId::EastWb);
    assert_eq!(lane_for_spawn_direction(4), LaneId::SouthNb);
    assert_eq!(lane_for_spawn_direction(usize::MAX), LaneId::SouthNb);
}

#[test]
fn capacity_per_inbound_lane_is_seven() {
    assert_eq!(lane_capacity(290_000), 7);
    assert_eq!(lane_capacity(37_999), 0);
    assert_eq!(lane_capacity(38_000), 1);
    assert_eq!(lane_capacity(0), 0);
    assert_eq!(lane_capacity(u64::MAX), i32::MAX);
}

#[test]
fn seeds_pick_routes_and_kinds() {
    assert_eq!(random_route_uniform(0), RouteType::Left);
    assert_eq!(random_route_uniform(1), RouteType::Right);
    assert_eq!(random_route_uniform(2), RouteType::Straight);
    assert_eq!(random_route_uniform(3), RouteType::Left);
    assert_eq!(random_vehicle_kind(0), VehicleKind::Motorcycle);
    assert_eq!(random_vehicle_kind(1), VehicleKind::Car);
    assert_eq!(random_vehicle_kind(4), VehicleKind::Motorcycle);
    let motorcycles = (0..400u32).filter(|s| random_vehicle_kind(*s) == VehicleKind::Motorcycle).count();
    assert_eq!(motorcycles, 100);
}

#[test]
fn integer_square_roots() {
    assert_eq!(isqrt(0), 0);
    assert_eq!(isqrt(1), 1);
    assert_eq!(isqrt(15), 3);
    assert_eq!(isqrt(16), 4);
    assert_eq!(isqrt(u64::MAX), 4_294_967_295);
    assert_eq!(dist(Vec2 { x: 0, y: 0 }, Vec2 { x: 3000, y: -4000 }), 5000);
    assert_eq!(dist(Vec2 { x: -7, y: 2 }, Vec2 { x: -7, y: 2 }), 0);
}

#[test]
fn every_lane_is_one_arm_long() {
    let world = World::new();
    for lane in LaneId::all() {
        let info = world.lane(lane);
        assert_eq!(info.id, lane);
        assert_eq!(info.lane_length, 290_000);
        assert_eq!(dist(info.spawn, info.stop_line), 290_000);
    }
    let north = world.lane(LaneId::NorthSb);
    assert_eq!(north.spawn, Vec2 { x: 553_000, y: -4_000 });
    assert_eq!(north.stop_line, Vec2 { x: 553_000, y: 286_000 });
    assert_eq!(north.light_pos, Vec2 { x: 525_000, y: 272_000 });
    assert_eq!(north.heading, 90);
    assert!(north.inbound);
    assert!(!world.lane(LaneId::NorthNb).inbound);
}

#[test]
fn inbound_routes_run_from_stop_line_to_an_exit() {
    let world = World::new();
    let inbound = [LaneId::NorthSb, LaneId::SouthNb, LaneId::EastWb, LaneId::WestEb];
    for lane in inbound {
        let mut exits = Vec::new();
        for route in RouteType::all() {
            let path = world.route(lane, route);
            assert_eq!(path.lane, lane);
            assert_eq!(path.route, route);
            assert_eq!(path.waypoints[0], world.lane(lane).stop_line);
            let last = *path.waypoints.last().unwrap();
            let exit = LaneId::all()
                .into_iter()
                .find(|l| !world.lane(*l).inbound && world.lane(*l).spawn == last)
                .expect("route ends at an outbound lane");
            assert!(!exits.contains(&exit));
            exits.push(exit);
        }
    }
    let straight = world.route(LaneId::NorthSb, RouteType::Straight);
    assert_eq!(straight.path_length, 204_000 + 290_000);
    assert_eq!(world.route(LaneId::NorthSb, RouteType::Left).waypoints.len(), 5);
}

#[test]
fn outbound_lanes_have_only_a_straight_path() {
    let world = World::new();
    let out = world.route(LaneId::EastEb, RouteType::Straight);
    assert_eq!(out.waypoints, vec![Vec2 { x: 779_500, y: 411_000 }, Vec2 { x: 968_000, y: 411_000 }]);
    assert_eq!(out.path_length, 188_500);
    assert!(world.route(LaneId::EastEb, RouteType::Left).waypoints.is_empty());
    assert!(world.route(LaneId::EastEb, RouteType::Right).waypoints.is_empty());
    assert_eq!(world.route(LaneId::EastEb, RouteType::Right).path_length, 0);
}
