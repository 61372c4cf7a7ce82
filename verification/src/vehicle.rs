//! Vehicles: path following, the safe gap behind a leader, and stopping at red.
use vstd::prelude::*;
use crate::config::{LANE_WIDTH, MAX_ROUTE_WAYPOINTS, SAFETY_GAP, VEHICLE_LENGTH, VEHICLE_SPEED};
use crate::geometry::{
    all_in_range, dist, dist_spec, lemma_dist_bounded, lemma_polyline_bounded, max_dist,
    point_in_range, polyline_length,
};
use crate::types::{
    route_color, route_color_spec, ColorRgb, LaneId, RouteType, SignalState, Vec2, VehicleKind,
};
use crate::world::World;

verus! {

/// Largest advance of one update: full speed for the longest frame.
pub open spec fn max_step() -> nat {
    (VEHICLE_SPEED * 4_294_967_295) as nat
}

/// A vehicle on a lane with a route fixed at spawn, from its spawn point to the end
/// of its exit path.
#[derive(Debug, Clone)]
pub struct Vehicle {
    pub id: u32,
    pub lane: LaneId,
    pub route: RouteType,
    pub kind: VehicleKind,
    /// Distance travelled along the path.
    pub route_progress: u64,
    /// Distance from the spawn point to the stop line.
    pub lane_length: u64,
    /// Spawn point followed by the route's waypoints.
    pub path_points: Vec<Vec2>,
    pub path_length: u64,
    pub finished: bool,
}

/// What a vehicle is: identity, route, distance travelled along its path (`progress`),
/// the distance from spawn to stop line, the path itself and whether it has completed it.
pub struct VehicleView {
    pub id: u32,
    pub lane: LaneId,
    pub route: RouteType,
    pub kind: VehicleKind,
    pub progress: nat,
    pub lane_length: nat,
    pub path: Seq<Vec2>,
    pub path_length: nat,
    pub finished: bool,
}

impl VehicleView {
    /// The path is in range and at most one point longer than a route, its length is
    /// the polyline length, and a vehicle that has not finished has not passed its end.
    pub open spec fn wf(self) -> bool {
        &&& self.path.len() <= MAX_ROUTE_WAYPOINTS + 1
        &&& all_in_range(self.path)
        &&& self.path_length == polyline_length(self.path)
        &&& self.progress <= self.path_length + max_step()
        &&& !self.finished ==> self.progress <= self.path_length
    }
}

impl View for Vehicle {
    type V = VehicleView;

    open spec fn view(&self) -> VehicleView {
        VehicleView {
            id: self.id,
            lane: self.lane,
            route: self.route,
            kind: self.kind,
            progress: self.route_progress as nat,
            lane_length: self.lane_length as nat,
            path: self.path_points@,
            path_length: self.path_length as nat,
            finished: self.finished,
        }
    }
}

/// The views of a sequence of vehicles.
pub open spec fn views(vs: Seq<Vehicle>) -> Seq<VehicleView> {
    vs.map_values(|v: Vehicle| v@)
}

/// Every vehicle of the sequence is well formed.
pub open spec fn all_wf(vs: Seq<VehicleView>) -> bool {
    forall|i: int| 0 <= i < vs.len() ==> (#[trigger] vs[i]).wf()
}

/// A freshly spawned vehicle: at its spawn point, following the spawn point and then
/// the route's waypoints.
pub open spec fn spawned_spec(id: u32, lane: LaneId, route: RouteType, world: World) -> VehicleView {
    let path = seq![world.lane_view(lane).spawn] + world.route_view(lane, route).waypoints;
    VehicleView {
        id,
        lane,
        route,
        kind: VehicleKind::Car,
        progress: 0,
        lane_length: world.lane_view(lane).lane_length as nat,
        path,
        path_length: polyline_length(path),
        finished: false,
    }
}

/// The vehicle after moving `advance` along its path: nothing changes once it has
/// finished or when the advance is zero; it finishes on reaching the path's end.
pub open spec fn advanced_spec(v: VehicleView, advance: nat) -> VehicleView {
    if v.finished || advance == 0 {
        v
    } else {
        VehicleView {
            progress: v.progress + advance,
            finished: v.progress + advance >= v.path_length,
            ..v
        }
    }
}

/// Minimum distance between a vehicle and the one ahead of it: a car plus the gap.
pub open spec fn follow_gap() -> nat {
    (VEHICLE_LENGTH + SAFETY_GAP) as nat
}

/// Two vehicles queue behind each other when they are on the same lane and either is
/// still before its stop line, or when they also share the route.
pub open spec fn shares_group(me: VehicleView, other: VehicleView) -> bool {
    &&& me.lane == other.lane
    &&& (me.progress < me.lane_length || other.progress < other.lane_length || me.route == other.route)
}

/// Vehicle `i` of `vs` is ahead of `me` in its queue.
pub open spec fn is_ahead(me: VehicleView, vs: Seq<VehicleView>, self_index: int, i: int) -> bool {
    &&& i != self_index
    &&& !vs[i].finished
    &&& shares_group(me, vs[i])
    &&& vs[i].progress > me.progress
}

/// Progress of the nearest vehicle ahead among the first `n` vehicles.
pub open spec fn leader_upto(me: VehicleView, vs: Seq<VehicleView>, self_index: int, n: int) -> Option<nat>
    decreases n,
{
    if n <= 0 {
        None
    } else {
        let prev = leader_upto(me, vs, self_index, n - 1);
        if is_ahead(me, vs, self_index, n - 1) {
            match prev {
                Some(p) => Some(if vs[n - 1].progress < p { vs[n - 1].progress } else { p }),
                None => Some(vs[n - 1].progress),
            }
        } else {
            prev
        }
    }
}

/// Progress of the nearest vehicle ahead, if any.
pub open spec fn leader_spec(me: VehicleView, vs: Seq<VehicleView>, self_index: int) -> Option<nat> {
    leader_upto(me, vs, self_index, vs.len() as int)
}

/// The advance, limited so that the follow gap to the leader is kept.
pub open spec fn cap_for_leader_spec(me: VehicleView, vs: Seq<VehicleView>, self_index: int, advance: nat) -> nat {
    match leader_spec(me, vs, self_index) {
        None => advance,
        Some(l) => {
            let room: nat = if l >= me.progress + follow_gap() {
                (l - me.progress - follow_gap()) as nat
            } else {
                0
            };
            if advance < room { advance } else { room }
        },
    }
}

/// The advance, limited so that a vehicle at or before its stop line does not pass it
/// on red: one exactly at the line may not move.
pub open spec fn cap_for_red_light_spec(me: VehicleView, signal: SignalState, advance: nat) -> nat {
    if signal == SignalState::Green || me.progress > me.lane_length {
        advance
    } else {
        let allowed = (me.lane_length - me.progress) as nat;
        if advance < allowed { advance } else { allowed }
    }
}

/// How far a vehicle moves in `dt_ms` milliseconds: full speed, then limited by the
/// leader and by a red signal; a finished vehicle does not move.
pub open spec fn advance_spec(me: VehicleView, dt_ms: nat, signal: SignalState, vs: Seq<VehicleView>, self_index: int) -> nat {
    if me.finished {
        0
    } else {
        cap_for_red_light_spec(
            me,
            signal,
            cap_for_leader_spec(me, vs, self_index, VEHICLE_SPEED as nat * dt_ms),
        )
    }
}

/// A vehicle too close to the lane's spawn point for another to appear there.
pub open spec fn blocks_spawn(v: VehicleView, lane: LaneId) -> bool {
    v.lane == lane && !v.finished && v.progress < follow_gap()
}

/// Some vehicle blocks spawning on the lane.
pub open spec fn spawn_blocked_spec(vs: Seq<VehicleView>, lane: LaneId) -> bool {
    exists|i: int| 0 <= i < vs.len() && blocks_spawn(#[trigger] vs[i], lane)
}

/// A vehicle waiting on the approach of the lane, before the stop line.
pub open spec fn is_queued(v: VehicleView, lane: LaneId, lane_length: nat) -> bool {
    v.lane == lane && !v.finished && v.progress < lane_length
}

/// Number of vehicles waiting on the approach of the lane.
pub open spec fn queued_count(vs: Seq<VehicleView>, lane: LaneId, lane_length: nat) -> nat
    decreases vs.len(),
{
    if vs.len() == 0 {
        0
    } else {
        queued_count(vs.drop_last(), lane, lane_length) + if is_queued(vs.last(), lane, lane_length) {
            1nat
        } else {
            0nat
        }
    }
}


/// Integer quotient rounded toward zero, for a positive divisor.
pub open spec fn div_toward_zero(n: int, d: int) -> int {
    if n >= 0 {
        n / d
    } else {
        -((-n) / d)
    }
}

/// The point at distance `d` (at most `seg`) from `a` toward `b`, where `seg` is the
/// length of the segment; a zero-length segment gives `a`.
pub open spec fn interpolate(a: Vec2, b: Vec2, seg: nat, d: nat) -> Vec2 {
    if seg == 0 {
        a
    } else {
        Vec2 {
            x: (a.x + div_toward_zero((b.x - a.x) * d, seg as int)) as i64,
            y: (a.y + div_toward_zero((b.y - a.y) * d, seg as int)) as i64,
        }
    }
}

/// Direction of the segment from `a` to `b`.
pub open spec fn seg_dir(a: Vec2, b: Vec2) -> Vec2 {
    Vec2 { x: (b.x - a.x) as i64, y: (b.y - a.y) as i64 }
}

/// Position and direction at `distance` along `path`, starting from segment `i`: the
/// first segment that reaches the distance, or the last segment, clamped to its end.
pub open spec fn sample_from(path: Seq<Vec2>, i: int, distance: nat) -> (Vec2, Vec2)
    decreases path.len() - i,
{
    if i < 0 || i + 2 > path.len() {
        (Vec2 { x: 0, y: 0 }, Vec2 { x: 0, y: 0 })
    } else {
        let a = path[i];
        let b = path[i + 1];
        let seg = dist_spec(a, b);
        if distance <= seg || i == path.len() - 2 {
            let d = if distance <= seg { distance } else { seg };
            (interpolate(a, b, seg, d), seg_dir(a, b))
        } else {
            sample_from(path, i + 1, (distance - seg) as nat)
        }
    }
}

/// Position and direction at `distance` along `path`. An empty path gives the origin,
/// a single point gives that point; the direction of a single point is zero.
pub open spec fn sample_spec(path: Seq<Vec2>, distance: nat) -> (Vec2, Vec2) {
    if path.len() == 0 {
        (Vec2 { x: 0, y: 0 }, Vec2 { x: 0, y: 0 })
    } else if path.len() == 1 {
        (path[0], Vec2 { x: 0, y: 0 })
    } else {
        sample_from(path, 0, distance)
    }
}

/// Half-open heading range `[45°, 135°)` of a direction, in which the vehicle is drawn
/// with its length across the screen.
pub open spec fn steep(d: Vec2) -> bool {
    let ay = if d.y >= 0 { d.y as int } else { -d.y };
    d.y != 0 && if d.x >= 0 { ay >= d.x } else { ay > -d.x }
}

/// Width of a vehicle's drawn body across its lane.
pub open spec fn narrow_extent() -> nat {
    (LANE_WIDTH * 55 / 100) as nat
}

/// Drawn width and height of a vehicle heading along `d`.
pub open spec fn extents_spec(d: Vec2) -> (nat, nat) {
    if steep(d) {
        (VEHICLE_LENGTH as nat, narrow_extent())
    } else {
        (narrow_extent(), VEHICLE_LENGTH as nat)
    }
}

impl Vehicle {
    pub fn new(id: u32, lane: LaneId, route: RouteType, world: &World) -> (v: Self)
        requires
            world.wf(),
        ensures
            v@ == spawned_spec(id, lane, route, *world),
            v@.wf(),
    {
        let lane_info = world.lane(lane);
        let route_path = world.route(lane, route);
        proof {
            assert(point_in_range(world.lane_view(lane).spawn));
            assert(world.route_view(lane, route).waypoints.len() <= MAX_ROUTE_WAYPOINTS);
        }
        let (path_points, path_length) = build_full_path(lane_info.spawn, route_path.waypoints.as_slice());
        let v = Self {
            id,
            lane,
            route,
            kind: VehicleKind::Car,
            route_progress: 0,
            lane_length: lane_info.lane_length,
            path_points,
            path_length,
            finished: false,
        };
        v
    }

    /// The same vehicle, of the given kind.
    pub fn with_kind(self, kind: VehicleKind) -> (v: Self)
        ensures
            v@ == (VehicleView { kind, ..self@ }),
    {
        Vehicle { kind, ..self }
    }

    /// The lane the vehicle was spawned on.
    pub fn lane_id(&self) -> (l: LaneId)
        ensures
            l == self@.lane,
    {
        self.lane
    }

    pub fn route_progress(&self) -> (p: u64)
        ensures
            p as nat == self@.progress,
    {
        self.route_progress
    }

    pub fn is_finished(&self) -> (b: bool)
        ensures
            b == self@.finished,
    {
        self.finished
    }

    pub fn color(&self) -> (c: ColorRgb)
        ensures
            c == route_color_spec(self@.route),
    {
        route_color(self.route)
    }

    pub fn position(&self) -> (p: Vec2)
        requires
            self@.wf(),
        ensures
            p == sample_spec(self@.path, self@.progress).0,
    {
        sample_path(&self.path_points, self.route_progress).0
    }

    /// Direction of the path segment the vehicle is on (its heading as a vector).
    pub fn direction(&self) -> (d: Vec2)
        requires
            self@.wf(),
        ensures
            d == sample_spec(self@.path, self@.progress).1,
    {
        sample_path(&self.path_points, self.route_progress).1
    }

    /// Drawn width and height of the vehicle's body.
    pub fn draw_extents(&self) -> (e: (u64, u64))
        requires
            self@.wf(),
        ensures
            (e.0 as nat, e.1 as nat) == extents_spec(sample_spec(self@.path, self@.progress).1),
    {
        let d = self.direction();
        proof {
            lemma_sample_dir_bounded(self@.path, self@.progress);
        }
        let narrow = (LANE_WIDTH * 55 / 100) as u64;
        let ay: i64 = if d.y >= 0 { d.y } else { -d.y };
        let is_steep = d.y != 0 && if d.x >= 0 { ay >= d.x } else { ay > -d.x };
        if is_steep {
            (VEHICLE_LENGTH, narrow)
        } else {
            (narrow, VEHICLE_LENGTH)
        }
    }

    pub fn compute_advance(&self, dt_ms: u32, signal: SignalState, vehicles: &[Vehicle], self_index: usize) -> (a: u64)
        ensures
            a as nat == advance_spec(self@, dt_ms as nat, signal, views(vehicles@), self_index as int),
    {
        if self.finished {
            return 0;
        }
        let mut advance = VEHICLE_SPEED * dt_ms as u64;
        advance = cap_for_leader(self, vehicles, self_index, advance);
        cap_for_red_light(self, signal, advance)
    }

    pub fn apply_advance(&mut self, advance: u64)
        requires
            old(self)@.wf(),
            advance as nat <= max_step(),
        ensures
            final(self)@ == advanced_spec(old(self)@, advance as nat),
            final(self)@.wf(),
    {
        if self.finished || advance == 0 {
            return;
        }
        proof {
            lemma_path_length_bounded(self@);
        }
        self.route_progress = self.route_progress + advance;
        if self.route_progress >= self.path_length {
            self.finished = true;
        }
    }
}

/// A well-formed path is short enough that progress arithmetic does not overflow.
pub proof fn lemma_path_length_bounded(v: VehicleView)
    requires
        v.wf(),
    ensures
        v.path_length <= 17 * max_dist(),
        v.progress + max_step() <= 17 * max_dist() + 2 * max_step(),
{
    lemma_polyline_bounded(v.path);
    assert(v.path.len() * max_dist() <= 17 * max_dist()) by (nonlinear_arith)
        requires
            v.path.len() <= 17,
    ;
}

fn build_full_path(spawn: Vec2, route_waypoints: &[Vec2]) -> (r: (Vec<Vec2>, u64))
    requires
        point_in_range(spawn),
        all_in_range(route_waypoints@),
        route_waypoints@.len() <= MAX_ROUTE_WAYPOINTS,
    ensures
        r.0@ == seq![spawn] + route_waypoints@,
        r.1 as nat == polyline_length(r.0@),
{
    let mut points: Vec<Vec2> = Vec::new();
    points.push(spawn);
    let mut j: usize = 0;
    while j < route_waypoints.len()
        invariant
            j <= route_waypoints@.len(),
            points@ == seq![spawn] + route_waypoints@.take(j as int),
        decreases route_waypoints@.len() - j,
    {
        points.push(route_waypoints[j]);
        proof {
            assert(route_waypoints@.take(j + 1) =~= route_waypoints@.take(j as int).push(route_waypoints@[j as int]));
        }
        j = j + 1;
    }
    proof {
        assert(route_waypoints@.take(j as int) =~= route_waypoints@);
    }
    let ghost full = points@;
    assert(all_in_range(full));
    let mut length: u64 = 0;
    let mut i: usize = 1;
    while i < points.len()
        invariant
            points@ == full,
            all_in_range(full),
            full.len() <= MAX_ROUTE_WAYPOINTS + 1,
            1 <= i <= full.len(),
            length as nat == polyline_length(full.take(i as int)),
        decreases full.len() - i,
    {
        let d = dist(points[i - 1], points[i]);
        proof {
            let t = full.take(i as int);
            assert(all_in_range(t));
            lemma_polyline_bounded(t);
            assert(t.len() * max_dist() <= 17 * max_dist()) by (nonlinear_arith)
                requires
                    t.len() <= 17,
            ;
            assert(full.take(i + 1).drop_last() =~= t);
        }
        length = length + d;
        i = i + 1;
    }
    proof {
        assert(full.take(i as int) =~= full);
    }
    (points, length)
}

/// Quotient toward zero of `n` by the positive `d`.
fn div_trunc(n: i64, d: u64) -> (q: i64)
    requires
        d > 0,
        d <= i64::MAX,
        n > i64::MIN,
    ensures
        q as int == div_toward_zero(n as int, d as int),
{
    let di = d as i64;
    if n >= 0 {
        n / di
    } else {
        -((-n) / di)
    }
}

fn sample_path(path: &[Vec2], distance: u64) -> (r: (Vec2, Vec2))
    requires
        all_in_range(path@),
    ensures
        r == sample_spec(path@, distance as nat),
{
    let n = path.len();
    if n == 0 {
        return (Vec2 { x: 0, y: 0 }, Vec2 { x: 0, y: 0 });
    }
    if n == 1 {
        return (path[0], Vec2 { x: 0, y: 0 });
    }
    let mut remaining = distance;
    let mut i: usize = 0;
    while i < n - 1
        invariant
            n == path@.len(),
            n >= 2,
            all_in_range(path@),
            i <= n - 2,
            sample_spec(path@, distance as nat) == sample_from(path@, i as int, remaining as nat),
        decreases n - i,
    {
        let a = path[i];
        let b = path[i + 1];
        let seg_len = dist(a, b);
        if remaining <= seg_len || i == n - 2 {
            let d = if remaining <= seg_len { remaining } else { seg_len };
            let dx = b.x - a.x;
            let dy = b.y - a.y;
            let pos = if seg_len > 0 {
                proof {
                    lemma_interpolate_bounds(a, b, seg_len as nat, d as nat);
                }
                let qx = div_trunc(dx * (d as i64), seg_len);
                let qy = div_trunc(dy * (d as i64), seg_len);
                Vec2 { x: a.x + qx, y: a.y + qy }
            } else {
                a
            };
            return (pos, Vec2 { x: dx, y: dy });
        }
        remaining = remaining - seg_len;
        i = i + 1;
    }
    // Unreachable: the last segment always returns.
    (path[n - 1], Vec2 { x: 0, y: 0 })
}


proof fn lemma_interpolate_bounds(a: Vec2, b: Vec2, seg: nat, d: nat)
    requires
        point_in_range(a),
        point_in_range(b),
        seg == dist_spec(a, b),
        0 < seg,
        d <= seg,
    ensures
        -8_000_000_000_000_000_000 <= (b.x - a.x) * d <= 8_000_000_000_000_000_000,
        -8_000_000_000_000_000_000 <= (b.y - a.y) * d <= 8_000_000_000_000_000_000,
        d <= 4_000_000_000,
        seg <= 4_000_000_000,
        i64::MIN <= a.x + div_toward_zero((b.x - a.x) * d, seg as int) <= i64::MAX,
        i64::MIN <= a.y + div_toward_zero((b.y - a.y) * d, seg as int) <= i64::MAX,
{
    lemma_dist_bounded(a, b);
    lemma_quotient_within(b.x - a.x, d as int, seg as int);
    lemma_quotient_within(b.y - a.y, d as int, seg as int);
}

proof fn lemma_quotient_within(delta: int, d: int, seg: int)
    requires
        -2_000_000_000 <= delta <= 2_000_000_000,
        0 <= d <= seg,
        0 < seg <= 4_000_000_000,
    ensures
        -8_000_000_000_000_000_000 <= delta * d <= 8_000_000_000_000_000_000,
        -2_000_000_000 <= div_toward_zero(delta * d, seg) <= 2_000_000_000,
        delta >= 0 ==> 0 <= div_toward_zero(delta * d, seg) <= delta,
        delta < 0 ==> delta <= div_toward_zero(delta * d, seg) <= 0,
{
    assert(-8_000_000_000_000_000_000 <= delta * d <= 8_000_000_000_000_000_000) by (nonlinear_arith)
        requires
            -2_000_000_000 <= delta <= 2_000_000_000,
            0 <= d <= 4_000_000_000,
    ;
    if delta >= 0 {
        assert(0 <= (delta * d) / seg <= delta) by (nonlinear_arith)
            requires
                delta >= 0,
                0 <= d <= seg,
                0 < seg,
        ;
    } else {
        let m = -delta;
        assert((-(delta * d)) == m * d) by (nonlinear_arith)
            requires
                m == -delta,
        ;
        assert(0 <= (m * d) / seg <= m) by (nonlinear_arith)
            requires
                m >= 0,
                0 <= d <= seg,
                0 < seg,
        ;
    }
}

/// Minimum distance between a vehicle and the one ahead: a car plus the safety gap.
pub fn min_follow_gap() -> (g: u64)
    ensures
        g as nat == follow_gap(),
{
    VEHICLE_LENGTH + SAFETY_GAP
}

/// Same-lane queue on the approach; same route once past the stop line.
fn shares_following_group(me: &Vehicle, other: &Vehicle) -> (b: bool)
    ensures
        b == shares_group(me@, other@),
{
    if me.lane != other.lane {
        return false;
    }
    if me.route_progress < me.lane_length || other.route_progress < other.lane_length {
        return true;
    }
    me.route == other.route
}

fn leader_progress(me: &Vehicle, vehicles: &[Vehicle], self_index: usize) -> (r: Option<u64>)
    ensures
        match r {
            Some(p) => leader_spec(me@, views(vehicles@), self_index as int) == Some(p as nat),
            None => leader_spec(me@, views(vehicles@), self_index as int) is None,
        },
{
    let ghost vs = views(vehicles@);
    let mut nearest: Option<u64> = None;
    let mut i: usize = 0;
    while i < vehicles.len()
        invariant
            vs == views(vehicles@),
            vs.len() == vehicles@.len(),
            i <= vehicles@.len(),
            match nearest {
                Some(p) => leader_upto(me@, vs, self_index as int, i as int) == Some(p as nat),
                None => leader_upto(me@, vs, self_index as int, i as int) is None,
            },
        decreases vehicles@.len() - i,
    {
        let other = &vehicles[i];
        assert(vs[i as int] == other@);
        if i != self_index && !other.finished && shares_following_group(me, other)
            && other.route_progress > me.route_progress {
            nearest = Some(
                match nearest {
                    Some(n) => if other.route_progress < n { other.route_progress } else { n },
                    None => other.route_progress,
                },
            );
        }
        i = i + 1;
    }
    nearest
}

fn cap_for_leader(me: &Vehicle, vehicles: &[Vehicle], self_index: usize, advance: u64) -> (r: u64)
    ensures
        r as nat == cap_for_leader_spec(me@, views(vehicles@), self_index as int, advance as nat),
{
    let leader = match leader_progress(me, vehicles, self_index) {
        Some(l) => l,
        None => {
            return advance;
        },
    };
    let gap = min_follow_gap();
    let room: u64 = if leader >= me.route_progress && leader - me.route_progress >= gap {
        leader - me.route_progress - gap
    } else {
        0
    };
    if advance < room {
        advance
    } else {
        room
    }
}

fn cap_for_red_light(me: &Vehicle, signal: SignalState, advance: u64) -> (r: u64)
    ensures
        r as nat == cap_for_red_light_spec(me@, signal, advance as nat),
{
    if signal == SignalState::Green || me.route_progress > me.lane_length {
        return advance;
    }
    let allowed = me.lane_length - me.route_progress;
    if advance < allowed {
        advance
    } else {
        allowed
    }
}

/// True if another vehicle on this lane is too close to the spawn point.
pub fn lane_spawn_blocked(vehicles: &[Vehicle], lane: LaneId) -> (b: bool)
    ensures
        b == spawn_blocked_spec(views(vehicles@), lane),
{
    let ghost vs = views(vehicles@);
    let min_gap = min_follow_gap();
    let mut i: usize = 0;
    while i < vehicles.len()
        invariant
            vs == views(vehicles@),
            vs.len() == vehicles@.len(),
            i <= vehicles@.len(),
            min_gap as nat == follow_gap(),
            forall|j: int| 0 <= j < i ==> !blocks_spawn(#[trigger] vs[j], lane),
        decreases vehicles@.len() - i,
    {
        let v = &vehicles[i];
        assert(vs[i as int] == v@);
        if v.lane == lane && !v.finished && v.route_progress < min_gap {
            assert(blocks_spawn(vs[i as int], lane));
            return true;
        }
        i = i + 1;
    }
    false
}

/// Vehicles waiting on the approach (before the stop line).
pub fn queue_count_on_lane(vehicles: &[Vehicle], lane: LaneId, lane_length: u64) -> (c: i32)
    ensures
        c == queued_count(views(vehicles@), lane, lane_length as nat) as i32,
        queued_count(views(vehicles@), lane, lane_length as nat) <= vehicles@.len(),
        vehicles@.len() <= i32::MAX ==> 0 <= c <= vehicles@.len() && c as nat == queued_count(
            views(vehicles@),
            lane,
            lane_length as nat,
        ),
{
    let ghost vs = views(vehicles@);
    let mut count: usize = 0;
    let mut i: usize = 0;
    while i < vehicles.len()
        invariant
            vs == views(vehicles@),
            vs.len() == vehicles@.len(),
            i <= vehicles@.len(),
            count as nat == queued_count(vs.take(i as int), lane, lane_length as nat),
            count <= i,
        decreases vehicles@.len() - i,
    {
        let v = &vehicles[i];
        proof {
            assert(vs[i as int] == v@);
            assert(vs.take(i + 1).drop_last() =~= vs.take(i as int));
        }
        if v.lane == lane && !v.finished && v.route_progress < lane_length {
            count = count + 1;
        }
        i = i + 1;
    }
    proof {
        assert(vs.take(i as int) =~= vs);
    }
    #[verifier::truncate]
    let c = count as i32;
    c
}


/// Directions sampled from an in-range path have bounded coordinates.
pub proof fn lemma_sample_from_dir_bounded(path: Seq<Vec2>, i: int, distance: nat)
    requires
        all_in_range(path),
    ensures
        -2_000_000_000 <= sample_from(path, i, distance).1.x <= 2_000_000_000,
        -2_000_000_000 <= sample_from(path, i, distance).1.y <= 2_000_000_000,
    decreases path.len() - i,
{
    if 0 <= i && i + 2 <= path.len() {
        let a = path[i];
        let b = path[i + 1];
        assert(point_in_range(a) && point_in_range(b));
        let seg = dist_spec(a, b);
        if !(distance <= seg || i == path.len() - 2) {
            lemma_sample_from_dir_bounded(path, i + 1, (distance - seg) as nat);
        }
    }
}

/// The direction at any point of an in-range path has bounded coordinates.
pub proof fn lemma_sample_dir_bounded(path: Seq<Vec2>, distance: nat)
    requires
        all_in_range(path),
    ensures
        -2_000_000_000 <= sample_spec(path, distance).1.x <= 2_000_000_000,
        -2_000_000_000 <= sample_spec(path, distance).1.y <= 2_000_000_000,
{
    lemma_sample_from_dir_bounded(path, 0, distance);
}


proof fn lemma_leader_upto(me: VehicleView, vs: Seq<VehicleView>, self_index: int, n: int)
    requires
        0 <= n <= vs.len(),
    ensures
        leader_upto(me, vs, self_index, n) is Some <==> exists|j: int|
            0 <= j < n && #[trigger] is_ahead(me, vs, self_index, j),
        leader_upto(me, vs, self_index, n) matches Some(l) ==> (forall|j: int|
            0 <= j < n && #[trigger] is_ahead(me, vs, self_index, j) ==> l <= vs[j].progress),
        leader_upto(me, vs, self_index, n) matches Some(l) ==> (exists|j: int|
            0 <= j < n && #[trigger] is_ahead(me, vs, self_index, j) && vs[j].progress == l),
    decreases n,
{
    if n > 0 {
        lemma_leader_upto(me, vs, self_index, n - 1);
        if is_ahead(me, vs, self_index, n - 1) {
            assert(is_ahead(me, vs, self_index, n - 1));
        }
    }
}

/// The leader is the nearest vehicle ahead in the same queue: there is one exactly when
/// some vehicle is ahead, no vehicle ahead is nearer, and the leader is one of them.
pub proof fn law_leader_is_nearest(me: VehicleView, vs: Seq<VehicleView>, self_index: int)
    ensures
        leader_spec(me, vs, self_index) is Some <==> exists|j: int|
            0 <= j < vs.len() && #[trigger] is_ahead(me, vs, self_index, j),
        leader_spec(me, vs, self_index) matches Some(l) ==> (forall|j: int|
            0 <= j < vs.len() && #[trigger] is_ahead(me, vs, self_index, j) ==> l <= vs[j].progress),
        leader_spec(me, vs, self_index) matches Some(l) ==> (exists|j: int|
            0 <= j < vs.len() && #[trigger] is_ahead(me, vs, self_index, j) && vs[j].progress == l),
        leader_spec(me, vs, self_index) matches Some(l) ==> l > me.progress,
{
    lemma_leader_upto(me, vs, self_index, vs.len() as int);
}

/// A vehicle never moves farther than full speed allows in the elapsed time.
pub proof fn law_advance_at_most_full_speed(me: VehicleView, dt_ms: nat, signal: SignalState, vs: Seq<VehicleView>, self_index: int)
    ensures
        advance_spec(me, dt_ms, signal, vs, self_index) <= VEHICLE_SPEED * dt_ms,
{
}

/// A vehicle at or before its stop line does not pass it while its signal is red; one
/// waiting exactly at the line stays there.
pub proof fn law_stops_at_red(me: VehicleView, dt_ms: nat, vs: Seq<VehicleView>, self_index: int)
    requires
        me.progress <= me.lane_length,
    ensures
        me.progress + advance_spec(me, dt_ms, SignalState::Red, vs, self_index) <= me.lane_length,
        me.progress == me.lane_length ==> advance_spec(me, dt_ms, SignalState::Red, vs, self_index) == 0,
{
}

/// A vehicle that moves stays at least the follow gap behind every vehicle ahead of it
/// in its queue.
pub proof fn law_keeps_follow_gap(me: VehicleView, dt_ms: nat, signal: SignalState, vs: Seq<VehicleView>, self_index: int, j: int)
    requires
        0 <= j < vs.len(),
        is_ahead(me, vs, self_index, j),
    ensures
        advance_spec(me, dt_ms, signal, vs, self_index) == 0
            || me.progress + advance_spec(me, dt_ms, signal, vs, self_index) + follow_gap() <= vs[j].progress,
{
    law_leader_is_nearest(me, vs, self_index);
}

/// A finished vehicle does not move, and moving never goes backwards, never
/// un-finishes a vehicle and never changes its lane, route or path.
pub proof fn law_progress_monotone(v: VehicleView, advance: nat, dt_ms: nat, signal: SignalState, vs: Seq<VehicleView>, self_index: int)
    ensures
        v.finished ==> advance_spec(v, dt_ms, signal, vs, self_index) == 0,
        v.finished ==> advanced_spec(v, advance) == v,
        advanced_spec(v, advance).progress >= v.progress,
        v.finished ==> advanced_spec(v, advance).finished,
        advanced_spec(v, advance).lane == v.lane,
        advanced_spec(v, advance).route == v.route,
        advanced_spec(v, advance).path == v.path,
        advanced_spec(v, advance).id == v.id,
{
}


proof fn lemma_sample_from_pos_in_range(path: Seq<Vec2>, i: int, distance: nat)
    requires
        all_in_range(path),
        0 <= i,
        i + 2 <= path.len(),
    ensures
        point_in_range(sample_from(path, i, distance).0),
    decreases path.len() - i,
{
    let a = path[i];
    let b = path[i + 1];
    assert(point_in_range(a) && point_in_range(b));
    let seg = dist_spec(a, b);
    if distance <= seg || i == path.len() - 2 {
        let d = if distance <= seg { distance } else { seg };
        if seg > 0 {
            lemma_dist_bounded(a, b);
            lemma_quotient_within(b.x - a.x, d as int, seg as int);
            lemma_quotient_within(b.y - a.y, d as int, seg as int);
        }
    } else {
        lemma_sample_from_pos_in_range(path, i + 1, (distance - seg) as nat);
    }
}

/// Every sampled position of an in-range path lies on the path's segments, so it is in
/// range too.
pub proof fn lemma_sample_pos_in_range(path: Seq<Vec2>, distance: nat)
    requires
        all_in_range(path),
    ensures
        point_in_range(sample_spec(path, distance).0),
{
    if path.len() == 1 {
        assert(point_in_range(path[0]));
    } else if path.len() >= 2 {
        lemma_sample_from_pos_in_range(path, 0, distance);
    }
}


/// A freshly spawned vehicle stands at its lane's spawn point.
pub proof fn law_spawned_at_spawn_point(id: u32, lane: LaneId, route: RouteType, world: World)
    ensures
        sample_spec(spawned_spec(id, lane, route, world).path, 0).0 == world.lane_view(lane).spawn,
        spawned_spec(id, lane, route, world).progress == 0,
        !spawned_spec(id, lane, route, world).finished,
{
    let path = spawned_spec(id, lane, route, world).path;
    assert(path[0] == world.lane_view(lane).spawn);
    if path.len() >= 2 {
        let seg = dist_spec(path[0], path[1]);
        if seg > 0 {
            assert(div_toward_zero((path[1].x - path[0].x) * 0, seg as int) == 0);
            assert(div_toward_zero((path[1].y - path[0].y) * 0, seg as int) == 0);
        }
    }
}


/// The number of queued vehicles never exceeds the number of vehicles.
pub proof fn lemma_queued_count_le(vs: Seq<VehicleView>, lane: LaneId, lane_length: nat)
    ensures
        queued_count(vs, lane, lane_length) <= vs.len(),
    decreases vs.len(),
{
    if vs.len() > 0 {
        lemma_queued_count_le(vs.drop_last(), lane, lane_length);
    }
}

/// Length of a path from its first point up to point `k`.
pub open spec fn cumulative_length(path: Seq<Vec2>, k: int) -> nat {
    polyline_length(path.take(k + 1))
}

/// Distance `d` from the start falls on segment `k` (from point `k` to point `k + 1`).
pub open spec fn on_segment(path: Seq<Vec2>, k: int, d: nat) -> bool {
    0 <= k && k + 2 <= path.len() && cumulative_length(path, k) <= d && d <= cumulative_length(path, k + 1)
}

proof fn lemma_cumulative_step(path: Seq<Vec2>, k: int)
    requires
        0 <= k,
        k + 2 <= path.len(),
    ensures
        cumulative_length(path, k + 1) == cumulative_length(path, k) + dist_spec(path[k], path[k + 1]),
{
    let t = path.take(k + 2);
    assert(t.drop_last() =~= path.take(k + 1));
    assert(t[t.len() - 2] == path[k] && t[t.len() - 1] == path[k + 1]);
}

proof fn lemma_sample_from_segment(path: Seq<Vec2>, i: int, r: nat)
    requires
        0 <= i,
        i + 2 <= path.len(),
        cumulative_length(path, i) + r <= cumulative_length(path, path.len() - 1),
    ensures
        exists|k: int|
            #[trigger] on_segment(path, k, cumulative_length(path, i) + r) && i <= k && sample_from(path, i, r)
                == (
                interpolate(
                    path[k],
                    path[k + 1],
                    dist_spec(path[k], path[k + 1]),
                    (cumulative_length(path, i) + r - cumulative_length(path, k)) as nat,
                ),
                seg_dir(path[k], path[k + 1]),
            ),
    decreases path.len() - i,
{
    lemma_cumulative_step(path, i);
    let seg = dist_spec(path[i], path[i + 1]);
    let d = cumulative_length(path, i) + r;
    if r <= seg {
        assert(on_segment(path, i, d));
    } else if i == path.len() - 2 {
        assert(false);
    } else {
        lemma_cumulative_mono(path, i + 1, path.len() - 1);
        lemma_sample_from_segment(path, i + 1, (r - seg) as nat);
        let k = choose|k: int|
            #[trigger] on_segment(path, k, cumulative_length(path, i + 1) + (r - seg) as nat) && i + 1 <= k
                && sample_from(path, i + 1, (r - seg) as nat) == (
                interpolate(
                    path[k],
                    path[k + 1],
                    dist_spec(path[k], path[k + 1]),
                    (cumulative_length(path, i + 1) + (r - seg) as nat - cumulative_length(path, k)) as nat,
                ),
                seg_dir(path[k], path[k + 1]),
            );
        assert(cumulative_length(path, i + 1) + (r - seg) as nat == d);
        assert(on_segment(path, k, d));
    }
}

proof fn lemma_cumulative_mono(path: Seq<Vec2>, a: int, b: int)
    requires
        0 <= a <= b < path.len(),
    ensures
        cumulative_length(path, a) <= cumulative_length(path, b),
    decreases b - a,
{
    if a < b {
        lemma_cumulative_mono(path, a, b - 1);
        lemma_cumulative_step(path, b - 1);
    }
}

/// Sampling a path at a distance `d` within its length finds the segment whose stretch
/// of the path covers `d`, and the point at `d` minus the length before that segment
/// along it: every segment, the last included, is reached, and the sampled point is `d`
/// along the path from its start.
pub proof fn law_sample_follows_path(path: Seq<Vec2>, d: nat)
    requires
        path.len() >= 2,
        d <= polyline_length(path),
    ensures
        exists|k: int|
            #[trigger] on_segment(path, k, d) && sample_spec(path, d) == (
                interpolate(
                    path[k],
                    path[k + 1],
                    dist_spec(path[k], path[k + 1]),
                    (d - cumulative_length(path, k)) as nat,
                ),
                seg_dir(path[k], path[k + 1]),
            ),
{
    assert(path.take(path.len() as int) =~= path);
    assert(path.take(1).len() == 1);
    assert(cumulative_length(path, 0) == 0);
    lemma_sample_from_segment(path, 0, d);
}

} // verus!
