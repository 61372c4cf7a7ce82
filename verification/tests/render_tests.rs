use road_intersection::render::{frame_commands, label_height, label_width, to_px, traffic_light_anchor, DrawCmd};
use road_intersection::simulation::Simulation;
use road_intersection::types::{LaneId, RouteType, VehicleKind};

#[test]
fn label_metrics() {
    assert_eq!(label_width("NORTH", 3), 90);
    assert_eq!(label_width("EAST", 3), 72);
    assert_eq!(label_width("", 3), 0);
    assert_eq!(label_width("WEST", -2), -48);
    assert_eq!(label_height(3), 21);
}

#[test]
fn pixels_round_toward_zero() {
    assert_eq!(to_px(553_999), 553);
    assert_eq!(to_px(-4_000), -4);
    assert_eq!(to_px(-4_999), -4);
    assert_eq!(to_px(0), 0);
}

#[test]
fn light_anchors() {
    assert_eq!(traffic_light_anchor(LaneId::NorthSb), (624, 250, false));
    assert_eq!(traffic_light_anchor(LaneId::WestEb), (438, 436, true));
    assert_eq!(traffic_light_anchor(LaneId::EastEb), (714, 436, true));
}

#[test]
fn frame_starts_with_background_and_roads() {
    let sim = Simulation::new();
    let cmds = frame_commands(&sim);
    assert_eq!(cmds[0], DrawCmd::SetColor(0, 0, 0));
    assert_eq!(cmds[1], DrawCmd::Clear);
    assert_eq!(cmds[2], DrawCmd::SetColor(35, 38, 46));
    assert_eq!(cmds[3], DrawCmd::FillRect(0, 0, 1152, 864));
    assert_eq!(cmds[5], DrawCmd::FillRect(524, 55, 104, 754));
    assert_eq!(cmds[6], DrawCmd::FillRect(95, 336, 962, 104));
    // Route preview: the straight path of the north approach comes first.
    assert_eq!(cmds[17], DrawCmd::SetColor(80, 85, 95));
    assert_eq!(cmds[18], DrawCmd::Line(553, 286, 553, 490));
    assert_eq!(cmds[19], DrawCmd::Line(553, 490, 553, 780));
    // Every light is red at start: no lit green bulb.
    assert!(!cmds.contains(&DrawCmd::SetColor(35, 220, 75)));
    assert!(cmds.contains(&DrawCmd::SetColor(235, 45, 55)));
}

#[test]
fn frame_ends_with_vehicles() {
    let mut sim = Simulation::new();
    assert!(sim.spawn_vehicle(LaneId::SouthNb, RouteType::Left, VehicleKind::Car));
    let cmds = frame_commands(&sim);
    let n = cmds.len();
    assert_eq!(cmds[n - 2], DrawCmd::SetColor(0, 112, 236));
    // Spawn (599, 780) px heading north: 22 x 25.3 px body, half extents 11 and 12.
    assert_eq!(cmds[n - 1], DrawCmd::FillRect(599 - 11, 780 - 12, 22, 24));
}

#[test]
fn labels_draw_set_pixels_only() {
    let sim = Simulation::new();
    let cmds = frame_commands(&sim);
    let label_colour = cmds.iter().position(|c| *c == DrawCmd::SetColor(235, 238, 245)).unwrap();
    // 'N' at (531, 18), scale 3: the first row is 10001.
    assert_eq!(cmds[label_colour + 1], DrawCmd::FillRect(531, 18, 3, 3));
    assert_eq!(cmds[label_colour + 2], DrawCmd::FillRect(543, 18, 3, 3));
}

#[test]
fn direction_arrows_follow_entering_traffic() {
    let sim = Simulation::new();
    let cmds = frame_commands(&sim);
    // Down the west column near the top edge, up the east column near the bottom edge.
    assert!(cmds.contains(&DrawCmd::Line(553, 70, 553, 110)));
    assert!(cmds.contains(&DrawCmd::Line(599, 794, 599, 754)));
    // Right along the south row near the left edge, left along the north row near the right.
    assert!(cmds.contains(&DrawCmd::Line(70, 411, 110, 411)));
    assert!(cmds.contains(&DrawCmd::Line(1082, 365, 1042, 365)));
    // Before the box: down on the west column, up on the east column.
    assert!(cmds.contains(&DrawCmd::Line(553, 236, 553, 266)));
    assert!(cmds.contains(&DrawCmd::Line(599, 540, 599, 510)));
    assert!(!cmds.contains(&DrawCmd::Line(599, 70, 599, 110)));
}
