//! Lane identifiers, routes, colours and spawn helpers.
use vstd::prelude::*;
use crate::config;

verus! {

/// A point in millipixels.
#[derive(Debug, Clone, Copy, PartialEq, Eq, Structural)]
pub struct Vec2 {
    pub x: i64,
    pub y: i64,
}

#[derive(Debug, Clone, Copy, PartialEq, Eq, Hash, Structural)]
pub enum RouteType {
    Left,
    Right,
    Straight,
}

impl RouteType {
    /// The three routes in their canonical order.
    pub fn all() -> (r: [RouteType; 3])
        ensures
            r@ == seq![RouteType::Left, RouteType::Right, RouteType::Straight],
    {
        [RouteType::Left, RouteType::Right, RouteType::Straight]
    }
}

/// Car or motorcycle, chosen at spawn.
#[derive(Debug, Clone, Copy, PartialEq, Eq, Hash, Structural)]
pub enum VehicleKind {
    Car,
    Motorcycle,
}

/// Eight lanes: four road arms times two directions.
#[derive(Debug, Clone, Copy, PartialEq, Eq, Hash, Structural)]
pub enum LaneId {
    NorthSb,
    NorthNb,
    SouthNb,
    SouthSb,
    EastWb,
    EastEb,
    WestEb,
    WestWb,
}

/// Position of a lane in every per-lane table.
pub open spec fn lane_index_spec(id: LaneId) -> int {
    match id {
        LaneId::NorthSb => 0,
        LaneId::NorthNb => 1,
        LaneId::SouthNb => 2,
        LaneId::SouthSb => 3,
        LaneId::EastWb => 4,
        LaneId::EastEb => 5,
        LaneId::WestEb => 6,
        LaneId::WestWb => 7,
    }
}

/// The lane at a table position.
pub open spec fn lane_at(i: int) -> LaneId {
    if i == 0 {
        LaneId::NorthSb
    } else if i == 1 {
        LaneId::NorthNb
    } else if i == 2 {
        LaneId::SouthNb
    } else if i == 3 {
        LaneId::SouthSb
    } else if i == 4 {
        LaneId::EastWb
    } else if i == 5 {
        LaneId::EastEb
    } else if i == 6 {
        LaneId::WestEb
    } else {
        LaneId::WestWb
    }
}

/// Short label of a lane.
pub open spec fn lane_name_spec(id: LaneId) -> Seq<char> {
    match id {
        LaneId::NorthSb => "N_SB"@,
        LaneId::NorthNb => "N_NB"@,
        LaneId::SouthNb => "S_NB"@,
        LaneId::SouthSb => "S_SB"@,
        LaneId::EastWb => "E_WB"@,
        LaneId::EastEb => "E_EB"@,
        LaneId::WestEb => "W_EB"@,
        LaneId::WestWb => "W_WB"@,
    }
}

/// Lanes on which traffic enters the intersection.
pub open spec fn is_inbound_lane(id: LaneId) -> bool {
    id == LaneId::NorthSb || id == LaneId::SouthNb || id == LaneId::EastWb || id == LaneId::WestEb
}

impl LaneId {
    /// All eight lanes in table order.
    pub fn all() -> (r: [LaneId; 8])
        ensures
            r@.len() == 8,
            forall|i: int| 0 <= i < 8 ==> #[trigger] r@[i] == lane_at(i),
    {
        let r = [
            LaneId::NorthSb,
            LaneId::NorthNb,
            LaneId::SouthNb,
            LaneId::SouthSb,
            LaneId::EastWb,
            LaneId::EastEb,
            LaneId::WestEb,
            LaneId::WestWb,
        ];
        assert(r@.len() == 8);
        r
    }

    pub fn index(self) -> (i: usize)
        ensures
            i as int == lane_index_spec(self),
            i < 8,
    {
        match self {
            LaneId::NorthSb => 0,
            LaneId::NorthNb => 1,
            LaneId::SouthNb => 2,
            LaneId::SouthSb => 3,
            LaneId::EastWb => 4,
            LaneId::EastEb => 5,
            LaneId::WestEb => 6,
            LaneId::WestWb => 7,
        }
    }

    pub fn name(self) -> (s: &'static str)
        ensures
            s@ == lane_name_spec(self),
    {
        match self {
            LaneId::NorthSb => "N_SB",
            LaneId::NorthNb => "N_NB",
            LaneId::SouthNb => "S_NB",
            LaneId::SouthSb => "S_SB",
            LaneId::EastWb => "E_WB",
            LaneId::EastEb => "E_EB",
            LaneId::WestEb => "W_EB",
            LaneId::WestWb => "W_WB",
        }
    }
}

/// Table position and lane are inverse to each other.
pub proof fn lemma_lane_index_roundtrip(id: LaneId)
    ensures
        0 <= lane_index_spec(id) < 8,
        lane_at(lane_index_spec(id)) == id,
        forall|i: int| 0 <= i < 8 ==> lane_index_spec(#[trigger] lane_at(i)) == i,
{
}

#[derive(Debug, Clone, Copy, PartialEq, Eq, Structural)]
pub struct ColorRgb {
    pub r: u8,
    pub g: u8,
    pub b: u8,
}

/// Paint colour of each route: blue for left, yellow for right, green for straight.
pub open spec fn route_color_spec(route: RouteType) -> ColorRgb {
    match route {
        RouteType::Left => ColorRgb { r: 0, g: 112, b: 236 },
        RouteType::Right => ColorRgb { r: 236, g: 188, b: 0 },
        RouteType::Straight => ColorRgb { r: 0, g: 168, b: 0 },
    }
}

pub fn route_color(route: RouteType) -> (c: ColorRgb)
    ensures
        c == route_color_spec(route),
{
    match route {
        RouteType::Left => ColorRgb { r: 0, g: 112, b: 236 },
        RouteType::Right => ColorRgb { r: 236, g: 188, b: 0 },
        RouteType::Straight => ColorRgb { r: 0, g: 168, b: 0 },
    }
}

/// Distinct routes are painted in distinct colours.
pub proof fn law_route_colors_distinct(a: RouteType, b: RouteType)
    requires
        a != b,
    ensures
        route_color_spec(a) != route_color_spec(b),
{
}

#[derive(Debug, Clone, Copy, PartialEq, Eq, Structural)]
pub enum SignalState {
    Red,
    Green,
}

/// Keyboard spawn direction index (0 = up, 1 = down, 2 = right, 3 = left) to the
/// inbound lane it feeds; any other index falls back to the south approach.
pub open spec fn spawn_lane_spec(index: int) -> LaneId {
    if index == 0 {
        LaneId::SouthNb
    } else if index == 1 {
        LaneId::NorthSb
    } else if index == 2 {
        LaneId::WestEb
    } else if index == 3 {
        LaneId::EastWb
    } else {
        LaneId::SouthNb
    }
}

pub fn lane_for_spawn_direction(index: usize) -> (lane: LaneId)
    ensures
        lane == spawn_lane_spec(index as int),
{
    match index {
        0 => LaneId::SouthNb,
        1 => LaneId::NorthSb,
        2 => LaneId::WestEb,
        3 => LaneId::EastWb,
        _ => LaneId::SouthNb,
    }
}

/// Every spawn direction feeds an inbound lane, and the four directions feed four
/// different lanes.
pub proof fn law_spawn_directions_inbound(i: int, j: int)
    requires
        0 <= i < 4,
        0 <= j < 4,
        i != j,
    ensures
        is_inbound_lane(spawn_lane_spec(i)),
        spawn_lane_spec(i) != spawn_lane_spec(j),
{
}

/// Length of one queue slot: a car plus the safety gap.
pub open spec fn slot_length() -> nat {
    (config::VEHICLE_LENGTH + config::SAFETY_GAP) as nat
}

/// `floor(lane_length / (vehicle_length + safety_gap))`, saturated at `i32::MAX`.
pub open spec fn lane_capacity_spec(lane_length: nat) -> int {
    let q = lane_length / slot_length();
    if q > i32::MAX {
        i32::MAX as int
    } else {
        q as int
    }
}

pub fn lane_capacity(lane_length: u64) -> (c: i32)
    ensures
        c as int == lane_capacity_spec(lane_length as nat),
{
    let slot = config::VEHICLE_LENGTH + config::SAFETY_GAP;
    if slot == 0 {
        return 0;
    }
    let q = lane_length / slot;
    if q > 2147483647 {
        2147483647
    } else {
        q as i32
    }
}

/// Route picked by a spawn seed: uniform over left, right and straight.
pub open spec fn random_route_spec(seed: u32) -> RouteType {
    if seed % 3 == 0 {
        RouteType::Left
    } else if seed % 3 == 1 {
        RouteType::Right
    } else {
        RouteType::Straight
    }
}

pub fn random_route_uniform(seed: u32) -> (r: RouteType)
    ensures
        r == random_route_spec(seed),
{
    match seed % 3 {
        0 => RouteType::Left,
        1 => RouteType::Right,
        _ => RouteType::Straight,
    }
}

/// Vehicle kind picked by a spawn seed: one seed in four gives a motorcycle.
pub open spec fn random_kind_spec(seed: u32) -> VehicleKind {
    if seed % 4 == 0 {
        VehicleKind::Motorcycle
    } else {
        VehicleKind::Car
    }
}

pub fn random_vehicle_kind(seed: u32) -> (k: VehicleKind)
    ensures
        k == random_kind_spec(seed),
{
    if seed % 4 == 0 {
        VehicleKind::Motorcycle
    } else {
        VehicleKind::Car
    }
}


/// Routes are uniform over seeds: any three consecutive seeds give the three routes.
pub proof fn law_route_uniform(seed: u32)
    requires
        seed <= u32::MAX - 2,
    ensures
        random_route_spec(seed) != random_route_spec((seed + 1) as u32),
        random_route_spec(seed) != random_route_spec((seed + 2) as u32),
        random_route_spec((seed + 1) as u32) != random_route_spec((seed + 2) as u32),
{
}

/// One seed in four gives a motorcycle: exactly one of any four consecutive seeds.
pub proof fn law_one_in_four_motorcycles(seed: u32, k: u32)
    requires
        seed <= u32::MAX - 3,
        k <= 3,
    ensures
        random_kind_spec((seed + k) as u32) == VehicleKind::Motorcycle <==> (seed + k) % 4 == 0,
        exists|j: u32| j <= 3 && #[trigger] random_kind_spec((seed + j) as u32) == VehicleKind::Motorcycle,
{
    let j: u32 = ((4 - seed % 4) % 4) as u32;
    assert(random_kind_spec((seed + j) as u32) == VehicleKind::Motorcycle);
}

} // verus!
