//! Lanes, spawn points, stop lines and the waypoint paths through the intersection.
use vstd::prelude::*;
use crate::config::{
    ARM_LENGTH, CENTER_X, CENTER_Y, ENTER_EB_Y, ENTER_NB_X, ENTER_SB_X, ENTER_WB_Y, EXIT_EB_Y,
    EXIT_NB_X, EXIT_SB_X, EXIT_WB_Y, IX0, IX1, IY0, IY1, MAX_ROUTE_WAYPOINTS,
    TRAFFIC_LIGHT_SIDE_OFFSET, TRAFFIC_LIGHT_STOP_OFFSET,
};
use crate::geometry::{
    all_in_range, dist, dist_spec, lemma_axis_dist, lemma_polyline_bounded, max_dist,
    point_in_range, polyline_length,
};
use crate::types::{is_inbound_lane, lane_at, lane_capacity_spec, lane_index_spec, LaneId, RouteType, Vec2};

verus! {

/// Geometry of one lane. For an inbound lane `spawn` is where vehicles appear and
/// `stop_line` where they wait; for an outbound lane `spawn` is its far end.
#[derive(Debug, Clone, Copy)]
pub struct LaneInfo {
    pub id: LaneId,
    pub spawn: Vec2,
    pub stop_line: Vec2,
    pub light_pos: Vec2,
    /// Travel direction in degrees (0 = east, 90 = south, 180 = west, 270 = north).
    pub heading: u32,
    pub lane_length: u64,
    pub inbound: bool,
}

/// Waypoints of one route through the intersection, from the stop line onwards.
#[derive(Debug, Clone)]
pub struct RoutePath {
    pub lane: LaneId,
    pub route: RouteType,
    pub waypoints: Vec<Vec2>,
    pub path_length: u64,
}

pub struct RoutePathView {
    pub lane: LaneId,
    pub route: RouteType,
    pub waypoints: Seq<Vec2>,
    pub path_length: nat,
}

impl View for RoutePath {
    type V = RoutePathView;

    open spec fn view(&self) -> RoutePathView {
        RoutePathView {
            lane: self.lane,
            route: self.route,
            waypoints: self.waypoints@,
            path_length: self.path_length as nat,
        }
    }
}

#[derive(Debug, Clone)]
pub struct World {
    pub lanes: [LaneInfo; 8],
    pub routes: [[RoutePath; 3]; 8],
}

/// Position of a route in each lane's route table.
pub open spec fn route_index_spec(route: RouteType) -> int {
    match route {
        RouteType::Left => 0,
        RouteType::Right => 1,
        RouteType::Straight => 2,
    }
}

/// The route at a route-table position.
pub open spec fn route_at(i: int) -> RouteType {
    if i == 0 {
        RouteType::Left
    } else if i == 1 {
        RouteType::Right
    } else {
        RouteType::Straight
    }
}

/// A point from integer coordinates.
pub open spec fn pt(x: int, y: int) -> Vec2 {
    Vec2 { x: x as i64, y: y as i64 }
}

/// Spawn point, stop line, light position, heading and direction of each lane.
pub open spec fn lane_spec(id: LaneId) -> LaneInfo {
    let (spawn, stop, light, heading, inbound) = match id {
        LaneId::NorthSb => (
            pt((ENTER_SB_X as int), (IY0 as int) - (ARM_LENGTH as int)),
            pt((ENTER_SB_X as int), (IY0 as int)),
            pt((ENTER_SB_X as int) - (TRAFFIC_LIGHT_SIDE_OFFSET as int), (IY0 as int) - (TRAFFIC_LIGHT_STOP_OFFSET as int)),
            90u32,
            true,
        ),
        LaneId::SouthNb => (
            pt((ENTER_NB_X as int), (IY1 as int) + (ARM_LENGTH as int)),
            pt((ENTER_NB_X as int), (IY1 as int)),
            pt((ENTER_NB_X as int) + (TRAFFIC_LIGHT_SIDE_OFFSET as int), (IY1 as int) + (TRAFFIC_LIGHT_STOP_OFFSET as int)),
            270u32,
            true,
        ),
        LaneId::WestEb => (
            pt((IX0 as int) - (ARM_LENGTH as int), (ENTER_EB_Y as int)),
            pt((IX0 as int), (ENTER_EB_Y as int)),
            pt((IX0 as int) - (TRAFFIC_LIGHT_STOP_OFFSET as int), (ENTER_EB_Y as int) + (TRAFFIC_LIGHT_SIDE_OFFSET as int)),
            0u32,
            true,
        ),
        LaneId::EastWb => (
            pt((IX1 as int) + (ARM_LENGTH as int), (ENTER_WB_Y as int)),
            pt((IX1 as int), (ENTER_WB_Y as int)),
            pt((IX1 as int) + (TRAFFIC_LIGHT_STOP_OFFSET as int), (ENTER_WB_Y as int) - (TRAFFIC_LIGHT_SIDE_OFFSET as int)),
            180u32,
            true,
        ),
        LaneId::NorthNb => (
            pt((EXIT_NB_X as int), (IY0 as int) - (ARM_LENGTH as int)),
            pt((EXIT_NB_X as int), (IY0 as int)),
            pt((EXIT_NB_X as int), (IY0 as int) - 18_000),
            270u32,
            false,
        ),
        LaneId::SouthSb => (
            pt((EXIT_SB_X as int), (IY1 as int) + (ARM_LENGTH as int)),
            pt((EXIT_SB_X as int), (IY1 as int)),
            pt((EXIT_SB_X as int), (IY1 as int) + 18_000),
            90u32,
            false,
        ),
        LaneId::EastEb => (
            pt((IX1 as int) + (ARM_LENGTH as int), (EXIT_EB_Y as int)),
            pt((IX1 as int), (EXIT_EB_Y as int)),
            pt((IX1 as int) + 18_000, (EXIT_EB_Y as int)),
            0u32,
            false,
        ),
        LaneId::WestWb => (
            pt((IX0 as int) - (ARM_LENGTH as int), (EXIT_WB_Y as int)),
            pt((IX0 as int), (EXIT_WB_Y as int)),
            pt((IX0 as int) - 18_000, (EXIT_WB_Y as int)),
            180u32,
            false,
        ),
    };
    LaneInfo {
        id,
        spawn,
        stop_line: stop,
        light_pos: light,
        heading,
        lane_length: ARM_LENGTH as u64,
        inbound,
    }
}

/// Waypoints of each lane's left, right and straight paths.
pub open spec fn route_points_spec(lane: LaneId, route: RouteType) -> Seq<Vec2> {
    let hub = pt((CENTER_X as int), (CENTER_Y as int));
    let short = (ARM_LENGTH as int) * 35 / 100;
    match lane {
        LaneId::NorthSb => {
            let stop = pt((ENTER_SB_X as int), (IY0 as int));
            match route {
                RouteType::Straight => seq![stop, pt((ENTER_SB_X as int), (IY1 as int)), pt((EXIT_SB_X as int), (IY1 as int) + (ARM_LENGTH as int))],
                RouteType::Left => seq![
                    stop,
                    pt((ENTER_SB_X as int), (CENTER_Y as int)),
                    hub,
                    pt((CENTER_X as int), (ENTER_EB_Y as int)),
                    pt((IX1 as int) + (ARM_LENGTH as int), (EXIT_EB_Y as int)),
                ],
                RouteType::Right => seq![
                    stop,
                    pt((ENTER_SB_X as int), (CENTER_Y as int)),
                    hub,
                    pt((IX0 as int), (EXIT_WB_Y as int)),
                    pt((IX0 as int) - (ARM_LENGTH as int), (EXIT_WB_Y as int)),
                ],
            }
        },
        LaneId::SouthNb => {
            let stop = pt((ENTER_NB_X as int), (IY1 as int));
            match route {
                RouteType::Straight => seq![stop, pt((ENTER_NB_X as int), (IY0 as int)), pt((EXIT_NB_X as int), (IY0 as int) - (ARM_LENGTH as int))],
                RouteType::Left => seq![
                    stop,
                    pt((ENTER_NB_X as int), (CENTER_Y as int)),
                    hub,
                    pt((IX0 as int), (EXIT_WB_Y as int)),
                    pt((IX0 as int) - (ARM_LENGTH as int), (EXIT_WB_Y as int)),
                ],
                RouteType::Right => seq![
                    stop,
                    pt((ENTER_NB_X as int), (CENTER_Y as int)),
                    hub,
                    pt((IX1 as int), (EXIT_EB_Y as int)),
                    pt((IX1 as int) + (ARM_LENGTH as int), (EXIT_EB_Y as int)),
                ],
            }
        },
        LaneId::WestEb => {
            let stop = pt((IX0 as int), (ENTER_EB_Y as int));
            match route {
                RouteType::Straight => seq![stop, pt((IX1 as int), (ENTER_EB_Y as int)), pt((IX1 as int) + (ARM_LENGTH as int), (EXIT_EB_Y as int))],
                RouteType::Left => seq![
                    stop,
                    pt((CENTER_X as int), (ENTER_EB_Y as int)),
                    hub,
                    pt((ENTER_NB_X as int), (CENTER_Y as int)),
                    pt((EXIT_NB_X as int), (IY0 as int) - (ARM_LENGTH as int)),
                ],
                RouteType::Right => seq![
                    stop,
                    pt((CENTER_X as int), (ENTER_EB_Y as int)),
                    hub,
                    pt((ENTER_SB_X as int), (CENTER_Y as int)),
                    pt((EXIT_SB_X as int), (IY1 as int) + (ARM_LENGTH as int)),
                ],
            }
        },
        LaneId::EastWb => {
            let stop = pt((IX1 as int), (ENTER_WB_Y as int));
            match route {
                RouteType::Straight => seq![stop, pt((IX0 as int), (ENTER_WB_Y as int)), pt((IX0 as int) - (ARM_LENGTH as int), (EXIT_WB_Y as int))],
                RouteType::Left => seq![
                    stop,
                    pt((CENTER_X as int), (ENTER_WB_Y as int)),
                    hub,
                    pt((ENTER_SB_X as int), (CENTER_Y as int)),
                    pt((EXIT_SB_X as int), (IY1 as int) + (ARM_LENGTH as int)),
                ],
                RouteType::Right => seq![
                    stop,
                    pt((CENTER_X as int), (ENTER_WB_Y as int)),
                    hub,
                    pt((ENTER_NB_X as int), (CENTER_Y as int)),
                    pt((EXIT_NB_X as int), (IY0 as int) - (ARM_LENGTH as int)),
                ],
            }
        },
        LaneId::NorthNb => match route {
            RouteType::Straight => seq![pt((EXIT_NB_X as int), (IY0 as int) - short), pt((EXIT_NB_X as int), (IY0 as int) - (ARM_LENGTH as int))],
            _ => Seq::empty(),
        },
        LaneId::SouthSb => match route {
            RouteType::Straight => seq![pt((EXIT_SB_X as int), (IY1 as int) + short), pt((EXIT_SB_X as int), (IY1 as int) + (ARM_LENGTH as int))],
            _ => Seq::empty(),
        },
        LaneId::EastEb => match route {
            RouteType::Straight => seq![pt((IX1 as int) + short, (EXIT_EB_Y as int)), pt((IX1 as int) + (ARM_LENGTH as int), (EXIT_EB_Y as int))],
            _ => Seq::empty(),
        },
        LaneId::WestWb => match route {
            RouteType::Straight => seq![pt((IX0 as int) - short, (EXIT_WB_Y as int)), pt((IX0 as int) - (ARM_LENGTH as int), (EXIT_WB_Y as int))],
            _ => Seq::empty(),
        },
    }
}

/// The stored path of a lane and route: its waypoints and their total length.
pub open spec fn route_spec(lane: LaneId, route: RouteType) -> RoutePathView {
    let pts = route_points_spec(lane, route);
    RoutePathView { lane, route, waypoints: pts, path_length: polyline_length(pts) }
}

impl World {
    /// The lane record for a lane.
    pub open spec fn lane_view(&self, id: LaneId) -> LaneInfo {
        self.lanes@[lane_index_spec(id)]
    }

    /// The stored path for a lane and route.
    pub open spec fn route_view(&self, lane: LaneId, route: RouteType) -> RoutePathView {
        self.routes@[lane_index_spec(lane)]@[route_index_spec(route)]@
    }

    /// Every point is within the handled coordinate range and no path has more than
    /// `MAX_ROUTE_WAYPOINTS` waypoints.
    pub open spec fn wf(&self) -> bool {
        &&& forall|id: LaneId| #[trigger] point_in_range(self.lane_view(id).spawn)
        &&& forall|id: LaneId| #[trigger] point_in_range(self.lane_view(id).stop_line)
        &&& forall|l: LaneId, r: RouteType|
            #![trigger self.route_view(l, r)]
            self.route_view(l, r).waypoints.len() <= MAX_ROUTE_WAYPOINTS
                && all_in_range(self.route_view(l, r).waypoints)
    }

    /// The world holds exactly the intersection's lanes and routes.
    pub open spec fn is_standard(&self) -> bool {
        &&& forall|id: LaneId| #[trigger] self.lane_view(id) == lane_spec(id)
        &&& forall|l: LaneId, r: RouteType| #[trigger] self.route_view(l, r) == route_spec(l, r)
    }

    pub fn new() -> (w: Self)
        ensures
            w.is_standard(),
            w.wf(),
    {
        let placeholder = LaneInfo {
            id: LaneId::NorthSb,
            spawn: Vec2 { x: 0, y: 0 },
            stop_line: Vec2 { x: 0, y: 0 },
            light_pos: Vec2 { x: 0, y: 0 },
            heading: 0,
            lane_length: 0,
            inbound: false,
        };
        let mut world = World {
            lanes: [placeholder; 8],
            routes: [
                empty_routes(),
                empty_routes(),
                empty_routes(),
                empty_routes(),
                empty_routes(),
                empty_routes(),
                empty_routes(),
                empty_routes(),
            ],
        };
        init_lanes(&mut world);
        let all = LaneId::all();
        let mut k: usize = 0;
        while k < 8
            invariant
                0 <= k <= 8,
                forall|i: int| 0 <= i < 8 ==> #[trigger] all@[i] == lane_at(i),
                forall|id: LaneId| #[trigger] world.lane_view(id) == lane_spec(id),
                forall|l: LaneId, r: RouteType|
                    lane_index_spec(l) < k ==> #[trigger] world.route_view(l, r) == route_spec(l, r),
            decreases 8 - k,
        {
            let ghost before = world;
            build_paths_for_lane(&mut world, all[k]);
            assert forall|id: LaneId| #[trigger] world.lane_view(id) == lane_spec(id) by {
                assert(before.lane_view(id) == lane_spec(id));
            }
            k = k + 1;
        }
        proof {
            lemma_standard_world_wf(&world);
        }
        world
    }

    pub fn lane(&self, id: LaneId) -> (l: &LaneInfo)
        ensures
            *l == self.lane_view(id),
    {
        &self.lanes[lane_index(id)]
    }

    pub fn route(&self, lane: LaneId, route: RouteType) -> (p: &RoutePath)
        ensures
            p@ == self.route_view(lane, route),
    {
        &self.routes[lane_index(lane)][route_index(route)]
    }
}

pub fn lane_index(id: LaneId) -> (i: usize)
    ensures
        i as int == lane_index_spec(id),
        i < 8,
{
    match id {
        LaneId::NorthSb => 0,
        LaneId::NorthNb => 1,
        LaneId::SouthNb => 2,
        LaneId::SouthSb => 3,
        LaneId::EastWb => 4,
        LaneId::EastEb => 5,
        LaneId::WestEb => 6,
        LaneId::WestWb => 7,
    }
}

pub fn route_index(route: RouteType) -> (i: usize)
    ensures
        i as int == route_index_spec(route),
        i < 3,
{
    match route {
        RouteType::Left => 0,
        RouteType::Right => 1,
        RouteType::Straight => 2,
    }
}

/// A placeholder route table: the left, right and straight routes of the north
/// approach, each with no waypoints and zero length.
fn empty_routes() -> (r: [RoutePath; 3])
    ensures
        r@.len() == 3,
        forall|i: int|
            0 <= i < 3 ==> #[trigger] r@[i]@ == (RoutePathView {
                lane: LaneId::NorthSb,
                route: route_at(i),
                waypoints: Seq::empty(),
                path_length: 0,
            }),
{
    let r = [
        RoutePath { lane: LaneId::NorthSb, route: RouteType::Left, waypoints: Vec::new(), path_length: 0 },
        RoutePath { lane: LaneId::NorthSb, route: RouteType::Right, waypoints: Vec::new(), path_length: 0 },
        RoutePath { lane: LaneId::NorthSb, route: RouteType::Straight, waypoints: Vec::new(), path_length: 0 },
    ];
    assert(r@.len() == 3);
    assert(r@[0]@.waypoints =~= Seq::empty());
    assert(r@[1]@.waypoints =~= Seq::empty());
    assert(r@[2]@.waypoints =~= Seq::empty());
    r
}


fn setup_lane(
    lanes: &mut [LaneInfo; 8],
    id: LaneId,
    spawn: Vec2,
    stop: Vec2,
    light: Vec2,
    heading: u32,
    inbound: bool,
)
    requires
        point_in_range(spawn),
        point_in_range(stop),
    ensures
        final(lanes)@ == old(lanes)@.update(
            lane_index_spec(id),
            LaneInfo {
                id,
                spawn,
                stop_line: stop,
                light_pos: light,
                heading,
                lane_length: dist_spec(spawn, stop) as u64,
                inbound,
            },
        ),
        spawn.x == stop.x ==> dist_spec(spawn, stop) == if stop.y >= spawn.y {
            stop.y - spawn.y
        } else {
            spawn.y - stop.y
        },
        spawn.y == stop.y ==> dist_spec(spawn, stop) == if stop.x >= spawn.x {
            stop.x - spawn.x
        } else {
            spawn.x - stop.x
        },
{
    let lane_length = dist(spawn, stop);
    lanes[lane_index(id)] = LaneInfo {
        id,
        spawn,
        stop_line: stop,
        light_pos: light,
        heading,
        lane_length,
        inbound,
    };
    proof {
        if spawn.x == stop.x || spawn.y == stop.y {
            lemma_axis_dist(spawn, stop);
        }
    }
}

fn init_lanes(world: &mut World)
    ensures
        forall|id: LaneId| #[trigger] final(world).lane_view(id) == lane_spec(id),
        final(world).routes == old(world).routes,
{
    let arm = ARM_LENGTH;
    let ix0 = IX0;
    let ix1 = IX1;
    let iy0 = IY0;
    let iy1 = IY1;
    let er_nb = ENTER_NB_X;
    let er_sb = ENTER_SB_X;
    let er_eb = ENTER_EB_Y;
    let er_wb = ENTER_WB_Y;
    let ex_nb = EXIT_NB_X;
    let ex_sb = EXIT_SB_X;
    let ex_eb = EXIT_EB_Y;
    let ex_wb = EXIT_WB_Y;

    // Inbound lanes.
    setup_lane(
        &mut world.lanes,
        LaneId::NorthSb,
        Vec2 { x: er_sb, y: iy0 - arm },
        Vec2 { x: er_sb, y: iy0 },
        Vec2 { x: er_sb - TRAFFIC_LIGHT_SIDE_OFFSET, y: iy0 - TRAFFIC_LIGHT_STOP_OFFSET },
        90,
        true,
    );
    setup_lane(
        &mut world.lanes,
        LaneId::SouthNb,
        Vec2 { x: er_nb, y: iy1 + arm },
        Vec2 { x: er_nb, y: iy1 },
        Vec2 { x: er_nb + TRAFFIC_LIGHT_SIDE_OFFSET, y: iy1 + TRAFFIC_LIGHT_STOP_OFFSET },
        270,
        true,
    );
    setup_lane(
        &mut world.lanes,
        LaneId::WestEb,
        Vec2 { x: ix0 - arm, y: er_eb },
        Vec2 { x: ix0, y: er_eb },
        Vec2 { x: ix0 - TRAFFIC_LIGHT_STOP_OFFSET, y: er_eb + TRAFFIC_LIGHT_SIDE_OFFSET },
        0,
        true,
    );
    setup_lane(
        &mut world.lanes,
        LaneId::EastWb,
        Vec2 { x: ix1 + arm, y: er_wb },
        Vec2 { x: ix1, y: er_wb },
        Vec2 { x: ix1 + TRAFFIC_LIGHT_STOP_OFFSET, y: er_wb - TRAFFIC_LIGHT_SIDE_OFFSET },
        180,
        true,
    );

    // Outbound lanes, on the opposite track of each arm.
    setup_lane(
        &mut world.lanes,
        LaneId::NorthNb,
        Vec2 { x: ex_nb, y: iy0 - arm },
        Vec2 { x: ex_nb, y: iy0 },
        Vec2 { x: ex_nb, y: iy0 - 18_000 },
        270,
        false,
    );
    setup_lane(
        &mut world.lanes,
        LaneId::SouthSb,
        Vec2 { x: ex_sb, y: iy1 + arm },
        Vec2 { x: ex_sb, y: iy1 },
        Vec2 { x: ex_sb, y: iy1 + 18_000 },
        90,
        false,
    );
    setup_lane(
        &mut world.lanes,
        LaneId::EastEb,
        Vec2 { x: ix1 + arm, y: ex_eb },
        Vec2 { x: ix1, y: ex_eb },
        Vec2 { x: ix1 + 18_000, y: ex_eb },
        0,
        false,
    );
    setup_lane(
        &mut world.lanes,
        LaneId::WestWb,
        Vec2 { x: ix0 - arm, y: ex_wb },
        Vec2 { x: ix0, y: ex_wb },
        Vec2 { x: ix0 - 18_000, y: ex_wb },
        180,
        false,
    );
}

/// Accumulates waypoints and their running polyline length.
struct PathBuilder {
    lane: LaneId,
    route: RouteType,
    points: Vec<Vec2>,
    length: u64,
}

impl PathBuilder {
    spec fn inv(&self) -> bool {
        &&& self.points@.len() <= MAX_ROUTE_WAYPOINTS
        &&& all_in_range(self.points@)
        &&& self.length as nat == polyline_length(self.points@)
    }

    fn new(lane: LaneId, route: RouteType) -> (b: Self)
        ensures
            b.inv(),
            b.lane == lane,
            b.route == route,
            b.points@ == Seq::<Vec2>::empty(),
    {
        PathBuilder { lane, route, points: Vec::new(), length: 0 }
    }

    fn push(&mut self, p: Vec2)
        requires
            old(self).inv(),
            old(self).points@.len() < MAX_ROUTE_WAYPOINTS,
            point_in_range(p),
        ensures
            final(self).inv(),
            final(self).lane == old(self).lane,
            final(self).route == old(self).route,
            final(self).points@ == old(self).points@.push(p),
    {
        let n = self.points.len();
        proof {
            assert(self.points@.push(p).drop_last() =~= self.points@);
        }
        if n > 0 {
            let last = self.points[n - 1];
            let d = dist(last, p);
            proof {
                lemma_polyline_bounded(self.points@);
                assert(self.points@.len() * max_dist() <= MAX_ROUTE_WAYPOINTS * max_dist())
                    by (nonlinear_arith)
                    requires
                        self.points@.len() <= MAX_ROUTE_WAYPOINTS,
                ;
            }
            self.length = self.length + d;
        }
        self.points.push(p);
    }

    fn finish(self) -> (r: RoutePath)
        requires
            self.inv(),
        ensures
            r@ == (RoutePathView {
                lane: self.lane,
                route: self.route,
                waypoints: self.points@,
                path_length: polyline_length(self.points@),
            }),
            r@.waypoints.len() <= MAX_ROUTE_WAYPOINTS,
            all_in_range(r@.waypoints),
    {
        RoutePath { lane: self.lane, route: self.route, waypoints: self.points, path_length: self.length }
    }
}

fn set_route(world: &mut World, lane: LaneId, route: RouteType, path: RoutePath)
    ensures
        final(world).lanes == old(world).lanes,
        final(world).route_view(lane, route) == path@,
        forall|l: LaneId, r: RouteType|
            (l != lane || r != route) ==> #[trigger] final(world).route_view(l, r)
                == old(world).route_view(l, r),
{
    let li = lane_index(lane);
    let ri = route_index(route);
    world.routes[li][ri] = path;
}


fn build_paths_for_lane(world: &mut World, lane: LaneId)
    ensures
        final(world).lanes == old(world).lanes,
        forall|r: RouteType| #[trigger] final(world).route_view(lane, r) == route_spec(lane, r),
        forall|l: LaneId, r: RouteType|
            l != lane ==> #[trigger] final(world).route_view(l, r) == old(world).route_view(l, r),
{
    let arm = ARM_LENGTH;
    let cx = CENTER_X;
    let cy = CENTER_Y;
    let ix0 = IX0;
    let ix1 = IX1;
    let iy0 = IY0;
    let iy1 = IY1;
    let er_nb = ENTER_NB_X;
    let er_sb = ENTER_SB_X;
    let er_eb = ENTER_EB_Y;
    let er_wb = ENTER_WB_Y;
    let ex_nb = EXIT_NB_X;
    let ex_sb = EXIT_SB_X;
    let ex_eb = EXIT_EB_Y;
    let ex_wb = EXIT_WB_Y;
    let short = arm * 35 / 100;
    let hub = Vec2 { x: cx, y: cy };

    let mut straight = PathBuilder::new(lane, RouteType::Straight);
    let mut left = PathBuilder::new(lane, RouteType::Left);
    let mut right = PathBuilder::new(lane, RouteType::Right);

    match lane {
        // From the north, southbound on the west column.
        LaneId::NorthSb => {
            let stop = Vec2 { x: er_sb, y: iy0 };
            straight.push(stop);
            straight.push(Vec2 { x: er_sb, y: iy1 });
            straight.push(Vec2 { x: ex_sb, y: iy1 + arm });
            // Left turns east: into the box, through the centre, then east.
            left.push(stop);
            left.push(Vec2 { x: er_sb, y: cy });
            left.push(hub);
            left.push(Vec2 { x: cx, y: er_eb });
            left.push(Vec2 { x: ix1 + arm, y: ex_eb });
            // Right turns west: through the centre, then west.
            right.push(stop);
            right.push(Vec2 { x: er_sb, y: cy });
            right.push(hub);
            right.push(Vec2 { x: ix0, y: ex_wb });
            right.push(Vec2 { x: ix0 - arm, y: ex_wb });
        },
        // From the south, northbound on the east column.
        LaneId::SouthNb => {
            let stop = Vec2 { x: er_nb, y: iy1 };
            straight.push(stop);
            straight.push(Vec2 { x: er_nb, y: iy0 });
            straight.push(Vec2 { x: ex_nb, y: iy0 - arm });
            left.push(stop);
            left.push(Vec2 { x: er_nb, y: cy });
            left.push(hub);
            left.push(Vec2 { x: ix0, y: ex_wb });
            left.push(Vec2 { x: ix0 - arm, y: ex_wb });
            right.push(stop);
            right.push(Vec2 { x: er_nb, y: cy });
            right.push(hub);
            right.push(Vec2 { x: ix1, y: ex_eb });
            right.push(Vec2 { x: ix1 + arm, y: ex_eb });
        },
        // From the west, eastbound on the south row.
        LaneId::WestEb => {
            let stop = Vec2 { x: ix0, y: er_eb };
            straight.push(stop);
            straight.push(Vec2 { x: ix1, y: er_eb });
            straight.push(Vec2 { x: ix1 + arm, y: ex_eb });
            left.push(stop);
            left.push(Vec2 { x: cx, y: er_eb });
            left.push(hub);
            left.push(Vec2 { x: er_nb, y: cy });
            left.push(Vec2 { x: ex_nb, y: iy0 - arm });
            right.push(stop);
            right.push(Vec2 { x: cx, y: er_eb });
            right.push(hub);
            right.push(Vec2 { x: er_sb, y: cy });
            right.push(Vec2 { x: ex_sb, y: iy1 + arm });
        },
        // From the east, westbound on the north row.
        LaneId::EastWb => {
            let stop = Vec2 { x: ix1, y: er_wb };
            straight.push(stop);
            straight.push(Vec2 { x: ix0, y: er_wb });
            straight.push(Vec2 { x: ix0 - arm, y: ex_wb });
            left.push(stop);
            left.push(Vec2 { x: cx, y: er_wb });
            left.push(hub);
            left.push(Vec2 { x: er_sb, y: cy });
            left.push(Vec2 { x: ex_sb, y: iy1 + arm });
            right.push(stop);
            right.push(Vec2 { x: cx, y: er_wb });
            right.push(hub);
            right.push(Vec2 { x: er_nb, y: cy });
            right.push(Vec2 { x: ex_nb, y: iy0 - arm });
        },
        LaneId::NorthNb => {
            straight.push(Vec2 { x: ex_nb, y: iy0 - short });
            straight.push(Vec2 { x: ex_nb, y: iy0 - arm });
        },
        LaneId::SouthSb => {
            straight.push(Vec2 { x: ex_sb, y: iy1 + short });
            straight.push(Vec2 { x: ex_sb, y: iy1 + arm });
        },
        LaneId::EastEb => {
            straight.push(Vec2 { x: ix1 + short, y: ex_eb });
            straight.push(Vec2 { x: ix1 + arm, y: ex_eb });
        },
        LaneId::WestWb => {
            straight.push(Vec2 { x: ix0 - short, y: ex_wb });
            straight.push(Vec2 { x: ix0 - arm, y: ex_wb });
        },
    }
    proof {
        assert(straight.points@ =~= route_points_spec(lane, RouteType::Straight));
        assert(left.points@ =~= route_points_spec(lane, RouteType::Left));
        assert(right.points@ =~= route_points_spec(lane, RouteType::Right));
    }

    set_route(world, lane, RouteType::Straight, straight.finish());
    set_route(world, lane, RouteType::Left, left.finish());
    set_route(world, lane, RouteType::Right, right.finish());
}

/// Every point of the standard world is in range and no path is too long.
pub proof fn lemma_standard_world_wf(w: &World)
    requires
        w.is_standard(),
    ensures
        w.wf(),
{
    assert forall|id: LaneId| #[trigger] point_in_range(w.lane_view(id).spawn) by {
        assert(w.lane_view(id) == lane_spec(id));
    }
    assert forall|id: LaneId| #[trigger] point_in_range(w.lane_view(id).stop_line) by {
        assert(w.lane_view(id) == lane_spec(id));
    }
    assert forall|l: LaneId, r: RouteType|
        #![trigger w.route_view(l, r)]
        w.route_view(l, r).waypoints.len() <= MAX_ROUTE_WAYPOINTS
            && all_in_range(w.route_view(l, r).waypoints) by {
        assert(w.route_view(l, r) == route_spec(l, r));
        let pts = route_points_spec(l, r);
        assert forall|i: int| 0 <= i < pts.len() implies point_in_range(#[trigger] pts[i]) by {}
    }
}


/// The outbound lane on which a route through the intersection leaves.
pub open spec fn exit_lane_spec(lane: LaneId, route: RouteType) -> LaneId {
    match (lane, route) {
        (LaneId::NorthSb, RouteType::Straight) => LaneId::SouthSb,
        (LaneId::NorthSb, RouteType::Left) => LaneId::EastEb,
        (LaneId::NorthSb, RouteType::Right) => LaneId::WestWb,
        (LaneId::SouthNb, RouteType::Straight) => LaneId::NorthNb,
        (LaneId::SouthNb, RouteType::Left) => LaneId::WestWb,
        (LaneId::SouthNb, RouteType::Right) => LaneId::EastEb,
        (LaneId::WestEb, RouteType::Straight) => LaneId::EastEb,
        (LaneId::WestEb, RouteType::Left) => LaneId::NorthNb,
        (LaneId::WestEb, RouteType::Right) => LaneId::SouthSb,
        (LaneId::EastWb, RouteType::Straight) => LaneId::WestWb,
        (LaneId::EastWb, RouteType::Left) => LaneId::SouthSb,
        (LaneId::EastWb, RouteType::Right) => LaneId::NorthNb,
        _ => lane,
    }
}

/// Every lane is as long as the distance from its spawn point to its stop line, and
/// that distance is the arm length; a lane is inbound exactly when traffic enters the
/// intersection on it.
pub proof fn law_lane_geometry(id: LaneId)
    ensures
        lane_spec(id).lane_length == dist_spec(lane_spec(id).spawn, lane_spec(id).stop_line),
        lane_spec(id).lane_length == ARM_LENGTH,
        lane_spec(id).inbound == is_inbound_lane(id),
        lane_spec(id).id == id,
{
    lemma_axis_dist(lane_spec(id).spawn, lane_spec(id).stop_line);
}

/// Each inbound lane has a left, a right and a straight path: each starts at the lane's
/// stop line and ends at the far end of an outbound lane, and different routes leave on
/// different outbound lanes.
pub proof fn law_inbound_routes(lane: LaneId, r1: RouteType, r2: RouteType)
    requires
        is_inbound_lane(lane),
    ensures
        route_points_spec(lane, r1).len() >= 2,
        route_points_spec(lane, r1)[0] == lane_spec(lane).stop_line,
        route_points_spec(lane, r1).last() == lane_spec(exit_lane_spec(lane, r1)).spawn,
        !lane_spec(exit_lane_spec(lane, r1)).inbound,
        r1 != r2 ==> exit_lane_spec(lane, r1) != exit_lane_spec(lane, r2),
{
}

/// An outbound lane has a single straight path that ends at the lane's far end, and no
/// turning paths.
pub proof fn law_outbound_routes(lane: LaneId, r: RouteType)
    requires
        !is_inbound_lane(lane),
    ensures
        r == RouteType::Straight ==> route_points_spec(lane, r).len() == 2
            && route_points_spec(lane, r).last() == lane_spec(lane).spawn,
        r != RouteType::Straight ==> route_points_spec(lane, r).len() == 0,
{
}


/// Every lane holds seven queue slots: `floor(290 / (22 + 16))`.
pub proof fn law_lane_capacity_is_seven(id: LaneId)
    ensures
        lane_capacity_spec(lane_spec(id).lane_length as nat) == 7,
{
    assert(lane_spec(id).lane_length == 290_000);
    assert(290_000nat / 38_000nat == 7) by (nonlinear_arith);
}


/// Unit step of a heading in degrees (0 = east, 90 = south, 180 = west, 270 = north).
pub open spec fn heading_step(heading: u32) -> (int, int) {
    if heading == 0 {
        (1, 0)
    } else if heading == 90 {
        (0, 1)
    } else if heading == 180 {
        (-1, 0)
    } else {
        (0, -1)
    }
}

/// The point lies strictly inside the intersection box.
pub open spec fn inside_box(p: Vec2) -> bool {
    IX0 < p.x < IX1 && IY0 < p.y < IY1
}

/// Every lane runs one arm length along its heading, on its own arm outside the box:
/// traffic on an inbound lane travels from the spawn point to a stop line on the box's
/// edge facing it; traffic on an outbound lane travels from the box's edge out to the
/// lane's far end. Neither end lies inside the box.
pub proof fn law_lanes_run_along_heading(w: &World, id: LaneId)
    requires
        w.is_standard(),
    ensures
        ({
            let l = w.lane_view(id);
            let (hx, hy) = heading_step(l.heading);
            let (from, to) = if l.inbound { (l.spawn, l.stop_line) } else { (l.stop_line, l.spawn) };
            &&& l.heading == 0 || l.heading == 90 || l.heading == 180 || l.heading == 270
            &&& to.x - from.x == ARM_LENGTH * hx
            &&& to.y - from.y == ARM_LENGTH * hy
            &&& hx == 1 ==> l.stop_line.x == if l.inbound { IX0 } else { IX1 }
            &&& hx == -1 ==> l.stop_line.x == if l.inbound { IX1 } else { IX0 }
            &&& hy == 1 ==> l.stop_line.y == if l.inbound { IY0 } else { IY1 }
            &&& hy == -1 ==> l.stop_line.y == if l.inbound { IY1 } else { IY0 }
            &&& !inside_box(l.spawn)
            &&& !inside_box(l.stop_line)
        }),
{
    assert(w.lane_view(id) == lane_spec(id));
}

} // verus!
