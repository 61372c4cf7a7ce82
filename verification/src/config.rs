//! Shared simulation constants.
//!
//! Lengths and coordinates are in millipixels (1000 per screen pixel), times in
//! milliseconds, speeds in millipixels per millisecond (numerically equal to pixels
//! per second), and scale factors in per-mille.
use vstd::prelude::*;

verus! {

/// Millipixels per screen pixel.
pub const MILLI: i64 = 1000;

pub const WINDOW_WIDTH: u32 = 1152;
pub const WINDOW_HEIGHT: u32 = 864;
pub const HUD_HEIGHT: u32 = 104;

/// Horizontal centre of the intersection: half the window width.
pub const CENTER_X: i64 = 576_000;
/// Vertical centre of the intersection: half the height above the HUD, plus 8 px.
pub const CENTER_Y: i64 = 388_000;

pub const VEHICLE_LENGTH: u64 = 22_000;
pub const MOTORCYCLE_LENGTH: u64 = 15_500;
pub const SAFETY_GAP: u64 = 16_000;
/// Extra bumper space when queued on the approach (before the stop line).
pub const WAITING_EXTRA_GAP: u64 = 14_000;
/// Multiplier (per-mille) on the follow gap before another car may spawn on the lane.
pub const SPAWN_QUEUE_FACTOR_PERMILLE: u64 = 1750;
/// Small buffer when crossing perpendicular traffic in the box.
pub const INTERSECTION_EXTRA_GAP: u64 = 6_000;
/// Millipixels per millisecond (that is, 90 pixels per second).
pub const VEHICLE_SPEED: u64 = 90;
/// Visual scale (per-mille) for vehicle sprites; collisions use the full `VEHICLE_LENGTH`.
pub const VEHICLE_DRAW_SCALE_PERMILLE: u64 = 1220;
/// Extra width (per-mille) for car sprites only.
pub const CAR_DRAW_WIDTH_SCALE_PERMILLE: u64 = 1160;
/// Extra scale (per-mille) for motorcycle sprites.
pub const MOTORCYCLE_DRAW_SCALE_PERMILLE: u64 = 1380;
/// On-screen scale (per-mille) for traffic-light sprites.
pub const SIGNAL_DRAW_SCALE_PERMILLE: u64 = 680;

pub const INTERSECTION_HALF: i64 = 102_000;
pub const LANE_WIDTH: i64 = 46_000;
/// Half a lane width: lane centrelines sit this far from the road centre.
pub const HALF_LANE_WIDTH: i64 = 23_000;
/// How far into the box (per-mille) before a left turn begins.
pub const TURN_LEFT_DEPTH_PERMILLE: i64 = 660;
/// Shallower entry (per-mille) for right turns.
pub const TURN_RIGHT_DEPTH_PERMILLE: i64 = 360;
/// Spawn point to stop line.
pub const ARM_LENGTH: i64 = 290_000;

/// How far traffic lights sit beside the lane.
pub const TRAFFIC_LIGHT_SIDE_OFFSET: i64 = 28_000;
pub const TRAFFIC_LIGHT_STOP_OFFSET: i64 = 14_000;
/// Crosswalk stripe band depth.
pub const CROSSWALK_DEPTH: u64 = 10_000;
/// Extra space between crosswalk and the front bumper when waiting on red.
pub const RED_LIGHT_STOP_MARGIN: u64 = 10_000;

/// Path-progress hold point on red: crosswalk depth, half the drawn car length,
/// and the stop margin.
pub fn red_light_hold_back() -> (r: u64)
    ensures
        r == CROSSWALK_DEPTH + VEHICLE_LENGTH * VEHICLE_DRAW_SCALE_PERMILLE / 2000
            + RED_LIGHT_STOP_MARGIN,
        r == 33_420,
{
    let front_bumper = VEHICLE_LENGTH * VEHICLE_DRAW_SCALE_PERMILLE / 2000;
    CROSSWALK_DEPTH + front_bumper + RED_LIGHT_STOP_MARGIN
}

/// Intersection box edges.
pub const IX0: i64 = CENTER_X - INTERSECTION_HALF;
pub const IX1: i64 = CENTER_X + INTERSECTION_HALF;
pub const IY0: i64 = CENTER_Y - INTERSECTION_HALF;
pub const IY1: i64 = CENTER_Y + INTERSECTION_HALF;

/// West column carries southbound traffic, east column northbound.
pub const LANE_WEST_X: i64 = CENTER_X - HALF_LANE_WIDTH;
pub const LANE_EAST_X: i64 = CENTER_X + HALF_LANE_WIDTH;
/// North row carries westbound traffic, south row eastbound.
pub const LANE_NORTH_Y: i64 = CENTER_Y - HALF_LANE_WIDTH;
pub const LANE_SOUTH_Y: i64 = CENTER_Y + HALF_LANE_WIDTH;

/// Tracks entering the intersection.
pub const ENTER_NB_X: i64 = LANE_EAST_X;
pub const ENTER_SB_X: i64 = LANE_WEST_X;
pub const ENTER_EB_Y: i64 = LANE_SOUTH_Y;
pub const ENTER_WB_Y: i64 = LANE_NORTH_Y;

/// Tracks leaving the intersection.
pub const EXIT_NB_X: i64 = LANE_EAST_X;
pub const EXIT_SB_X: i64 = LANE_WEST_X;
pub const EXIT_EB_Y: i64 = LANE_SOUTH_Y;
pub const EXIT_WB_Y: i64 = LANE_NORTH_Y;

pub const MAX_ROUTE_WAYPOINTS: usize = 16;
pub const MAX_VEHICLES: usize = 64;

/// Road and scenery layout shared by the renderer.
pub const ROAD_MARGIN_X: i64 = 95_000;
pub const ROAD_MARGIN_Y: i64 = 55_000;
pub const CURB_MARGIN_X: i64 = 72_000;
pub const CURB_MARGIN_Y: i64 = 48_000;
pub const ROAD_HALF_WIDTH: i64 = LANE_WIDTH + 10_000;
pub const SIDEWALK_WIDTH: i64 = 10_000;

} // verus!
