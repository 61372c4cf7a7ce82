//! The simulation state: world, per-lane signals and the vehicle list.
use vstd::prelude::*;
use crate::config::{MAX_VEHICLES, VEHICLE_SPEED};
use crate::types::{lane_index_spec, LaneId, RouteType, SignalState, VehicleKind};
use crate::vehicle::{
    advance_spec, advanced_spec, all_wf, blocks_spawn, follow_gap, law_advance_at_most_full_speed,
    law_keeps_follow_gap, shares_group,
    lane_spawn_blocked, max_step, queue_count_on_lane, queued_count, spawn_blocked_spec,
    spawned_spec, views, Vehicle, VehicleView,
};
use crate::world::World;

verus! {

#[derive(Debug)]
pub struct Simulation {
    pub world: World,
    pub lane_signals: [SignalState; 8],
    pub vehicles: Vec<Vehicle>,
    /// Identifier the next spawned vehicle gets.
    pub next_vehicle_id: u32,
}

/// Each vehicle after one update: moved by the advance computed from the state before
/// the update and the signal of its lane.
pub open spec fn moved_spec(vs: Seq<VehicleView>, signals: Seq<SignalState>, dt_ms: nat) -> Seq<VehicleView> {
    Seq::new(
        vs.len(),
        |i: int|
            advanced_spec(
                vs[i],
                advance_spec(vs[i], dt_ms, signals[lane_index_spec(vs[i].lane)], vs, i),
            ),
    )
}

/// The vehicles that have not finished, in the order they had.
pub open spec fn keep_unfinished(vs: Seq<VehicleView>) -> Seq<VehicleView>
    decreases vs.len(),
{
    if vs.len() == 0 {
        vs
    } else {
        let rest = keep_unfinished(vs.drop_last());
        if vs.last().finished {
            rest
        } else {
            rest.push(vs.last())
        }
    }
}

/// The vehicle list after one update: every vehicle moved, finished ones removed.
pub open spec fn step_spec(vs: Seq<VehicleView>, signals: Seq<SignalState>, dt_ms: nat) -> Seq<VehicleView> {
    keep_unfinished(moved_spec(vs, signals, dt_ms))
}

/// What a spawn request does: when a vehicle may appear on the lane, a new vehicle of
/// the given route and kind, with the next identifier, is appended at the lane's spawn
/// point and the identifier counter moves on; otherwise nothing changes. The world and
/// the signals never change.
pub open spec fn spawn_outcome(pre: &Simulation, post: &Simulation, lane: LaneId, route: RouteType, kind: VehicleKind) -> bool {
    &&& post.world == pre.world
    &&& post.lane_signals == pre.lane_signals
    &&& if pre.spawn_allowed(lane) {
        &&& post.vehicle_views() == pre.vehicle_views().push(
            VehicleView { kind, ..spawned_spec(pre.next_id() as u32, lane, route, pre.world) },
        )
        &&& post.next_id() == pre.next_id() + 1
    } else {
        &&& post.vehicles == pre.vehicles
        &&& post.next_id() == pre.next_id()
    }
}

impl Simulation {
    /// Identifier the next spawned vehicle gets.
    pub open spec fn next_id(&self) -> nat {
        self.next_vehicle_id as nat
    }

    pub open spec fn vehicle_views(&self) -> Seq<VehicleView> {
        views(self.vehicles@)
    }

    pub open spec fn signal_view(&self, lane: LaneId) -> SignalState {
        self.lane_signals@[lane_index_spec(lane)]
    }

    /// The world is well formed and so is every vehicle.
    pub open spec fn wf(&self) -> bool {
        &&& self.world.wf()
        &&& all_wf(self.vehicle_views())
    }

    /// A vehicle may appear on the lane: it is inbound, the list is not full and no
    /// vehicle is too close to the spawn point.
    pub open spec fn spawn_allowed(&self, lane: LaneId) -> bool {
        &&& self.world.lane_view(lane).inbound
        &&& self.vehicles@.len() < MAX_VEHICLES
        &&& !spawn_blocked_spec(self.vehicle_views(), lane)
    }

    pub fn new() -> (s: Self)
        ensures
            s.world.is_standard(),
            s.wf(),
            s.vehicles@.len() == 0,
            forall|l: LaneId| #[trigger] s.signal_view(l) == SignalState::Red,
            s.next_id() == 1,
    {
        let s = Simulation {
            world: World::new(),
            lane_signals: [SignalState::Red; 8],
            vehicles: Vec::new(),
            next_vehicle_id: 1,
        };
        proof {
            assert(s.vehicle_views() =~= Seq::<VehicleView>::empty());
        }
        s
    }

    /// Whether a vehicle may appear on the lane now.
    pub fn can_spawn(&self, lane: LaneId) -> (b: bool)
        ensures
            b == self.spawn_allowed(lane),
    {
        self.world.lane(lane).inbound && self.vehicles.len() < MAX_VEHICLES && !lane_spawn_blocked(
            self.vehicles.as_slice(),
            lane,
        )
    }

    /// Identifier the next spawned vehicle gets.
    pub fn next_vehicle_id(&self) -> (id: u32)
        ensures
            id as nat == self.next_id(),
    {
        self.next_vehicle_id
    }

    pub fn set_lane_signal(&mut self, lane: LaneId, state: SignalState)
        ensures
            final(self).lane_signals@ == old(self).lane_signals@.update(lane_index_spec(lane), state),
            final(self).world == old(self).world,
            final(self).vehicles == old(self).vehicles,
            final(self).next_id() == old(self).next_id(),
    {
        self.lane_signals[lane.index()] = state;
    }

    pub fn lane_signal(&self, lane: LaneId) -> (s: SignalState)
        ensures
            s == self.signal_view(lane),
    {
        self.lane_signals[lane.index()]
    }

    pub fn is_green(&self, lane: LaneId) -> (b: bool)
        ensures
            b == (self.signal_view(lane) == SignalState::Green),
    {
        self.lane_signal(lane) == SignalState::Green
    }

    pub fn spawn_vehicle(&mut self, lane: LaneId, route: RouteType, kind: VehicleKind) -> (spawned: bool)
        requires
            old(self).wf(),
            old(self).spawn_allowed(lane) ==> old(self).next_id() < u32::MAX,
        ensures
            spawned == old(self).spawn_allowed(lane),
            spawn_outcome(&*old(self), &*final(self), lane, route, kind),
            final(self).wf(),
    {
        if !self.world.lane(lane).inbound {
            return false;
        }
        if self.vehicles.len() >= MAX_VEHICLES {
            return false;
        }
        if lane_spawn_blocked(self.vehicles.as_slice(), lane) {
            return false;
        }
        let id = self.next_vehicle_id;
        self.next_vehicle_id = self.next_vehicle_id + 1;
        let v = Vehicle::new(id, lane, route, &self.world).with_kind(kind);
        let ghost before = self.vehicles@;
        self.vehicles.push(v);
        proof {
            assert(views(self.vehicles@) =~= views(before).push(v@));
            assert forall|i: int| 0 <= i < self.vehicle_views().len() implies (#[trigger] self.vehicle_views()[i]).wf() by {
                if i < before.len() {
                    assert(views(before)[i] == self.vehicle_views()[i]);
                }
            }
        }
        true
    }

    pub fn update_vehicles(&mut self, dt_ms: u32)
        requires
            old(self).wf(),
        ensures
            final(self).vehicle_views() == step_spec(old(self).vehicle_views(), old(self).lane_signals@, dt_ms as nat),
            final(self).wf(),
            final(self).world == old(self).world,
            final(self).lane_signals == old(self).lane_signals,
            final(self).next_id() == old(self).next_id(),
    {
        let signals = self.lane_signals;
        let ghost vs = self.vehicle_views();
        let ghost moved = moved_spec(vs, signals@, dt_ms as nat);
        let n = self.vehicles.len();
        let mut advances: Vec<u64> = Vec::new();
        let mut i: usize = 0;
        while i < n
            invariant
                n == self.vehicles@.len(),
                vs == self.vehicle_views(),
                signals == self.lane_signals,
                i <= n,
                advances@.len() == i,
                forall|j: int| 0 <= j < i ==> #[trigger] advances@[j] as nat == advance_spec(
                    vs[j], dt_ms as nat, signals@[lane_index_spec(vs[j].lane)], vs, j),
            decreases n - i,
        {
            let lane = self.vehicles[i].lane_id();
            let signal = signals[lane.index()];
            let a = self.vehicles[i].compute_advance(dt_ms, signal, self.vehicles.as_slice(), i);
            proof {
                assert(vs[i as int] == self.vehicles@[i as int]@);
            }
            advances.push(a);
            i = i + 1;
        }

        proof {
            assert forall|j: int| 0 <= j < n implies (#[trigger] self.vehicles@[j]@).wf() by {
                assert(vs[j] == self.vehicles@[j]@);
            }
        }
        let mut i: usize = 0;
        while i < n
            invariant
                n == self.vehicles@.len(),
                n == vs.len(),
                moved == moved_spec(vs, signals@, dt_ms as nat),
                all_wf(vs),
                i <= n,
                advances@.len() == n,
                forall|j: int| 0 <= j < n ==> #[trigger] advances@[j] as nat == advance_spec(
                    vs[j], dt_ms as nat, signals@[lane_index_spec(vs[j].lane)], vs, j),
                forall|j: int| 0 <= j < i ==> #[trigger] self.vehicles@[j]@ == moved[j],
                forall|j: int| i <= j < n ==> #[trigger] self.vehicles@[j]@ == vs[j],
                forall|j: int| 0 <= j < n ==> (#[trigger] self.vehicles@[j]@).wf(),
                self.world == old(self).world,
                self.lane_signals == old(self).lane_signals,
                self.next_id() == old(self).next_id(),
            decreases n - i,
        {
            proof {
                law_advance_at_most_full_speed(
                    vs[i as int], dt_ms as nat, signals@[lane_index_spec(vs[i as int].lane)], vs, i as int);
                assert(VEHICLE_SPEED * (dt_ms as nat) <= max_step()) by (nonlinear_arith)
                    requires
                        dt_ms <= 4_294_967_295u32,
                ;
                assert(advances@[i as int] as nat == advance_spec(
                    vs[i as int], dt_ms as nat, signals@[lane_index_spec(vs[i as int].lane)], vs, i as int));
            }
            let a = advances[i];
            self.vehicles[i].apply_advance(a);
            i = i + 1;
        }
        proof {
            assert(self.vehicle_views() =~= moved);
        }

        // Drop the vehicles that have completed their path, keeping the order.
        let mut k: usize = 0;
        let mut j: usize = 0;
        while j < n
            invariant
                n == moved.len(),
                j <= n,
                self.vehicle_views() == keep_unfinished(moved.take(j as int)) + moved.skip(j as int),
                k as nat == keep_unfinished(moved.take(j as int)).len(),
                all_wf(moved),
                self.world == old(self).world,
                self.lane_signals == old(self).lane_signals,
                self.next_id() == old(self).next_id(),
            decreases n - j,
        {
            proof {
                lemma_keep_unfinished_len(moved.take(j as int));
                assert(self.vehicles@.len() == self.vehicle_views().len());
                assert(k < self.vehicles@.len());
                assert(self.vehicle_views()[k as int] == moved[j as int]);
                assert(moved.take(j + 1).drop_last() =~= moved.take(j as int));
            }
            if self.vehicles[k].is_finished() {
                let ghost before = self.vehicles@;
                let _ = self.vehicles.remove(k);
                proof {
                    assert(views(self.vehicles@) =~= views(before).remove(k as int));
                    assert(self.vehicle_views() =~= keep_unfinished(moved.take(j + 1)) + moved.skip(j + 1));
                }
            } else {
                proof {
                    assert(self.vehicle_views() =~= keep_unfinished(moved.take(j + 1)) + moved.skip(j + 1));
                }
                k = k + 1;
            }
            j = j + 1;
        }
        proof {
            assert(moved.take(n as int) =~= moved);
            assert(moved.skip(n as int) =~= Seq::<VehicleView>::empty());
            assert(self.vehicle_views() =~= keep_unfinished(moved));
            lemma_keep_unfinished_subset(moved);
        }
    }
}

pub fn get_lane_queue_count(sim: &Simulation, lane: LaneId) -> (c: i32)
    ensures
        c == queued_count(sim.vehicle_views(), lane, sim.world.lane_view(lane).lane_length as nat) as i32,
        sim.vehicles@.len() <= i32::MAX ==> 0 <= c <= sim.vehicles@.len() && c as nat == queued_count(
            sim.vehicle_views(),
            lane,
            sim.world.lane_view(lane).lane_length as nat,
        ),
{
    let lane_length = sim.world.lane(lane).lane_length;
    queue_count_on_lane(sim.vehicles.as_slice(), lane, lane_length)
}

proof fn lemma_keep_unfinished_len(vs: Seq<VehicleView>)
    ensures
        keep_unfinished(vs).len() <= vs.len(),
    decreases vs.len(),
{
    if vs.len() > 0 {
        lemma_keep_unfinished_len(vs.drop_last());
    }
}

/// Every kept vehicle is one of the given ones, well formed when they all are, and unfinished.
pub proof fn lemma_keep_unfinished_subset(vs: Seq<VehicleView>)
    ensures
        keep_unfinished(vs).len() <= vs.len(),
        forall|i: int| 0 <= i < keep_unfinished(vs).len() ==> !(#[trigger] keep_unfinished(vs)[i]).finished,
        forall|i: int| 0 <= i < keep_unfinished(vs).len() ==> vs.contains(#[trigger] keep_unfinished(vs)[i]),
        all_wf(vs) ==> all_wf(keep_unfinished(vs)),
    decreases vs.len(),
{
    if vs.len() > 0 {
        let rest = vs.drop_last();
        lemma_keep_unfinished_subset(rest);
        let k = keep_unfinished(vs);
        assert forall|i: int| 0 <= i < k.len() implies vs.contains(#[trigger] k[i]) by {
            if i < keep_unfinished(rest).len() {
                let w = choose|w: int| 0 <= w < rest.len() && rest[w] == keep_unfinished(rest)[i];
                assert(vs[w] == k[i]);
            } else {
                assert(vs[vs.len() - 1] == k[i]);
            }
        }
        if all_wf(vs) {
            assert(all_wf(rest));
            assert forall|i: int| 0 <= i < k.len() implies (#[trigger] k[i]).wf() by {
                if i < keep_unfinished(rest).len() {
                } else {
                    assert(k[i] == vs.last());
                }
            }
        }
    }
}


proof fn lemma_keep_unfinished_complete(vs: Seq<VehicleView>, i: int)
    requires
        0 <= i < vs.len(),
        !vs[i].finished,
    ensures
        keep_unfinished(vs).contains(vs[i]),
    decreases vs.len(),
{
    let rest = vs.drop_last();
    if i == vs.len() - 1 {
        assert(keep_unfinished(vs).last() == vs[i]);
    } else {
        lemma_keep_unfinished_complete(rest, i);
        let w = choose|w: int| 0 <= w < keep_unfinished(rest).len() && keep_unfinished(rest)[w] == vs[i];
        assert(keep_unfinished(vs)[w] == vs[i]);
    }
}

/// Right after a vehicle appears on a lane, no other vehicle may appear there: a
/// second spawn on the same lane is refused.
pub proof fn law_back_to_back_spawn_blocked(
    vs: Seq<VehicleView>,
    id: u32,
    lane: LaneId,
    route: RouteType,
    kind: VehicleKind,
    world: World,
)
    ensures
        spawn_blocked_spec(
            vs.push(VehicleView { kind, ..spawned_spec(id, lane, route, world) }),
            lane,
        ),
{
    let w = vs.push(VehicleView { kind, ..spawned_spec(id, lane, route, world) });
    assert(blocks_spawn(w[vs.len() as int], lane));
}

/// An update keeps, in order, exactly the moved vehicles that have not finished: none
/// that is kept has finished, every unfinished one is kept, and the list never grows.
pub proof fn law_update_drops_only_finished(vs: Seq<VehicleView>, signals: Seq<SignalState>, dt_ms: nat, i: int)
    requires
        0 <= i < vs.len(),
    ensures
        step_spec(vs, signals, dt_ms).len() <= vs.len(),
        forall|k: int| 0 <= k < step_spec(vs, signals, dt_ms).len()
            ==> !(#[trigger] step_spec(vs, signals, dt_ms)[k]).finished,
        !moved_spec(vs, signals, dt_ms)[i].finished ==> step_spec(vs, signals, dt_ms).contains(
            moved_spec(vs, signals, dt_ms)[i],
        ),
{
    lemma_keep_unfinished_subset(moved_spec(vs, signals, dt_ms));
    if !moved_spec(vs, signals, dt_ms)[i].finished {
        lemma_keep_unfinished_complete(moved_spec(vs, signals, dt_ms), i);
    }
}

/// In an update, a vehicle at or before its stop line whose signal is red does not pass
/// the stop line, and one waiting at the line stays where it is. A vehicle whose path
/// runs on past its stop line is still in the list afterwards.
pub proof fn law_update_stops_at_red(vs: Seq<VehicleView>, signals: Seq<SignalState>, dt_ms: nat, i: int)
    requires
        0 <= i < vs.len(),
        signals[lane_index_spec(vs[i].lane)] == SignalState::Red,
        vs[i].progress <= vs[i].lane_length,
    ensures
        moved_spec(vs, signals, dt_ms)[i].progress <= vs[i].lane_length,
        vs[i].progress == vs[i].lane_length ==> moved_spec(vs, signals, dt_ms)[i] == vs[i],
        !vs[i].finished && vs[i].lane_length < vs[i].path_length ==> {
            &&& !moved_spec(vs, signals, dt_ms)[i].finished
            &&& step_spec(vs, signals, dt_ms).contains(moved_spec(vs, signals, dt_ms)[i])
        },
{
    crate::vehicle::law_stops_at_red(vs[i], dt_ms, vs, i);
    if !vs[i].finished && vs[i].lane_length < vs[i].path_length {
        lemma_keep_unfinished_complete(moved_spec(vs, signals, dt_ms), i);
    }
}

/// In an update, a vehicle that moves ends at least the follow gap behind every vehicle
/// that was ahead of it in its queue, wherever that vehicle moves to.
pub proof fn law_update_keeps_follow_gap(vs: Seq<VehicleView>, signals: Seq<SignalState>, dt_ms: nat, i: int, j: int)
    requires
        0 <= i < vs.len(),
        0 <= j < vs.len(),
        crate::vehicle::is_ahead(vs[i], vs, i, j),
    ensures
        moved_spec(vs, signals, dt_ms)[i].progress == vs[i].progress
            || moved_spec(vs, signals, dt_ms)[i].progress + follow_gap()
            <= moved_spec(vs, signals, dt_ms)[j].progress,
{
    let sig = signals[lane_index_spec(vs[i].lane)];
    crate::vehicle::law_keeps_follow_gap(vs[i], dt_ms, sig, vs, i, j);
}

/// Spawning never takes the vehicle list past `MAX_VEHICLES`, and an update never
/// lengthens it.
pub proof fn law_vehicle_count_bounded(
    pre: Simulation,
    post: Simulation,
    lane: LaneId,
    route: RouteType,
    kind: VehicleKind,
    signals: Seq<SignalState>,
    dt_ms: nat,
)
    requires
        pre.vehicles@.len() <= MAX_VEHICLES,
        spawn_outcome(&pre, &post, lane, route, kind),
    ensures
        post.vehicles@.len() <= MAX_VEHICLES,
        step_spec(pre.vehicle_views(), signals, dt_ms).len() <= pre.vehicles@.len(),
{
    assert(post.vehicle_views().len() == post.vehicles@.len());
    lemma_keep_unfinished_len(moved_spec(pre.vehicle_views(), signals, dt_ms));
}

/// An update never changes who a vehicle is, where it was spawned, its route, its kind
/// or its path, and never moves it backwards.
pub proof fn law_update_keeps_identity(vs: Seq<VehicleView>, signals: Seq<SignalState>, dt_ms: nat, i: int)
    requires
        0 <= i < vs.len(),
    ensures
        moved_spec(vs, signals, dt_ms).len() == vs.len(),
        moved_spec(vs, signals, dt_ms)[i].id == vs[i].id,
        moved_spec(vs, signals, dt_ms)[i].lane == vs[i].lane,
        moved_spec(vs, signals, dt_ms)[i].route == vs[i].route,
        moved_spec(vs, signals, dt_ms)[i].kind == vs[i].kind,
        moved_spec(vs, signals, dt_ms)[i].path == vs[i].path,
        moved_spec(vs, signals, dt_ms)[i].progress >= vs[i].progress,
{
}


/// Any two unfinished vehicles that queue behind each other are at least the follow
/// gap apart.
pub open spec fn gaps_kept(vs: Seq<VehicleView>) -> bool {
    forall|i: int, j: int|
        #![trigger vs[i], vs[j]]
        0 <= i < vs.len() && 0 <= j < vs.len() && i != j && !vs[i].finished && !vs[j].finished
            && shares_group(vs[i], vs[j]) ==> vs[i].progress + follow_gap() <= vs[j].progress
            || vs[j].progress + follow_gap() <= vs[i].progress
}

proof fn lemma_moved_pair(vs: Seq<VehicleView>, signals: Seq<SignalState>, dt_ms: nat, i: int, j: int)
    requires
        gaps_kept(vs),
        0 <= i < vs.len(),
        0 <= j < vs.len(),
        i != j,
        !moved_spec(vs, signals, dt_ms)[i].finished,
        !moved_spec(vs, signals, dt_ms)[j].finished,
        shares_group(moved_spec(vs, signals, dt_ms)[i], moved_spec(vs, signals, dt_ms)[j]),
        vs[i].progress < vs[j].progress,
    ensures
        moved_spec(vs, signals, dt_ms)[i].progress + follow_gap() <= moved_spec(vs, signals, dt_ms)[j].progress,
{
    let m = moved_spec(vs, signals, dt_ms);
    assert(!vs[i].finished && !vs[j].finished);
    assert(shares_group(vs[i], vs[j]));
    assert(vs[i].progress + follow_gap() <= vs[j].progress);
    assert(crate::vehicle::is_ahead(vs[i], vs, i, j));
    let sig = signals[lane_index_spec(vs[i].lane)];
    law_keeps_follow_gap(vs[i], dt_ms, sig, vs, i, j);
}

proof fn lemma_keep_unfinished_gaps(vs: Seq<VehicleView>)
    requires
        gaps_kept(vs),
    ensures
        gaps_kept(keep_unfinished(vs)),
    decreases vs.len(),
{
    if vs.len() > 0 {
        let rest = vs.drop_last();
        assert(gaps_kept(rest)) by {
            assert forall|i: int, j: int|
                #![trigger rest[i], rest[j]]
                0 <= i < rest.len() && 0 <= j < rest.len() && i != j && !rest[i].finished && !rest[j].finished
                    && shares_group(rest[i], rest[j]) implies rest[i].progress + follow_gap() <= rest[j].progress
                    || rest[j].progress + follow_gap() <= rest[i].progress by {
                assert(rest[i] == vs[i] && rest[j] == vs[j]);
            }
        }
        lemma_keep_unfinished_gaps(rest);
        lemma_keep_unfinished_subset(rest);
        let kr = keep_unfinished(rest);
        let k = keep_unfinished(vs);
        if !vs.last().finished {
            let n = kr.len() as int;
            assert forall|i: int, j: int|
                #![trigger k[i], k[j]]
                0 <= i < k.len() && 0 <= j < k.len() && i != j && !k[i].finished && !k[j].finished
                    && shares_group(k[i], k[j]) implies k[i].progress + follow_gap() <= k[j].progress
                    || k[j].progress + follow_gap() <= k[i].progress by {
                if i < n && j < n {
                    assert(k[i] == kr[i] && k[j] == kr[j]);
                } else if i < n {
                    assert(j == n);
                    assert(kr.contains(kr[i]));
                    let w = choose|w: int| 0 <= w < rest.len() && rest[w] == kr[i];
                    assert(vs[w] == k[i]);
                    assert(vs[vs.len() - 1] == k[j]);
                } else {
                    assert(i == n);
                    assert(kr.contains(kr[j]));
                    let w = choose|w: int| 0 <= w < rest.len() && rest[w] == kr[j];
                    assert(vs[w] == k[j]);
                    assert(vs[vs.len() - 1] == k[i]);
                }
            }
        }
    }
}

/// An update keeps every queue spaced: when any two unfinished vehicles that queue
/// behind each other are at least the follow gap apart before the update, they are
/// after it, among the moved vehicles and among those kept.
pub proof fn law_update_keeps_gaps(vs: Seq<VehicleView>, signals: Seq<SignalState>, dt_ms: nat)
    requires
        gaps_kept(vs),
    ensures
        gaps_kept(moved_spec(vs, signals, dt_ms)),
        gaps_kept(step_spec(vs, signals, dt_ms)),
{
    let m = moved_spec(vs, signals, dt_ms);
    assert forall|i: int, j: int|
        #![trigger m[i], m[j]]
        0 <= i < m.len() && 0 <= j < m.len() && i != j && !m[i].finished && !m[j].finished
            && shares_group(m[i], m[j]) implies m[i].progress + follow_gap() <= m[j].progress
            || m[j].progress + follow_gap() <= m[i].progress by {
        assert(!vs[i].finished && !vs[j].finished);
        assert(shares_group(vs[i], vs[j]));
        if vs[i].progress < vs[j].progress {
            lemma_moved_pair(vs, signals, dt_ms, i, j);
        } else {
            assert(vs[j].progress + follow_gap() <= vs[i].progress);
            assert(shares_group(m[j], m[i]));
            lemma_moved_pair(vs, signals, dt_ms, j, i);
        }
    }
    lemma_keep_unfinished_gaps(m);
}

/// A spawn keeps every queue spaced: the new vehicle only appears when no vehicle on its
/// lane is within the follow gap of the spawn point.
pub proof fn law_spawn_keeps_gaps(pre: Simulation, post: Simulation, lane: LaneId, route: RouteType, kind: VehicleKind)
    requires
        gaps_kept(pre.vehicle_views()),
        spawn_outcome(&pre, &post, lane, route, kind),
    ensures
        gaps_kept(post.vehicle_views()),
{
    if pre.spawn_allowed(lane) {
        let a = pre.vehicle_views();
        let b = post.vehicle_views();
        let n = a.len() as int;
        assert forall|i: int, j: int|
            #![trigger b[i], b[j]]
            0 <= i < b.len() && 0 <= j < b.len() && i != j && !b[i].finished && !b[j].finished
                && shares_group(b[i], b[j]) implies b[i].progress + follow_gap() <= b[j].progress
                || b[j].progress + follow_gap() <= b[i].progress by {
            if i < n && j < n {
                assert(b[i] == a[i] && b[j] == a[j]);
            } else if i < n {
                assert(b[i] == a[i]);
                assert(!blocks_spawn(a[i], lane));
            } else {
                assert(b[j] == a[j]);
                assert(!blocks_spawn(a[j], lane));
            }
        }
    } else {
        assert(post.vehicle_views() == pre.vehicle_views());
    }
}

} // verus!
