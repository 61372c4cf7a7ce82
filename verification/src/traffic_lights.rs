//! Four-phase traffic-light controller with a congestion rule.
use vstd::prelude::*;
use crate::simulation::{get_lane_queue_count, law_update_stops_at_red, moved_spec, Simulation};
use crate::types::{
    is_inbound_lane, lane_at, lane_capacity, lane_capacity_spec, lane_index_spec, LaneId,
    SignalState,
};
use crate::vehicle::{lemma_queued_count_le, queued_count, VehicleView};

verus! {

/// Shortest green, in milliseconds.
pub const MIN_GREEN_MS: u64 = 3000;
/// Longest green when the current approach is not congested.
pub const NORMAL_MAX_GREEN_MS: u64 = 8000;
/// Longest green while the current approach is congested.
pub const EXTENDED_MAX_GREEN_MS: u64 = 14000;

/// One inbound approach is green at a time; the greens follow each other in a fixed
/// order so that no two paths through the box are open together.
#[derive(Debug, Clone, Copy, PartialEq, Eq, Structural)]
pub enum TrafficPhase {
    NorthSb,
    SouthNb,
    WestEb,
    EastWb,
}

/// The approach that is green in a phase.
pub open spec fn phase_lane_spec(p: TrafficPhase) -> LaneId {
    match p {
        TrafficPhase::NorthSb => LaneId::NorthSb,
        TrafficPhase::SouthNb => LaneId::SouthNb,
        TrafficPhase::WestEb => LaneId::WestEb,
        TrafficPhase::EastWb => LaneId::EastWb,
    }
}

/// The phase that follows: north, south, west, east, then north again.
pub open spec fn next_phase_spec(p: TrafficPhase) -> TrafficPhase {
    match p {
        TrafficPhase::NorthSb => TrafficPhase::SouthNb,
        TrafficPhase::SouthNb => TrafficPhase::WestEb,
        TrafficPhase::WestEb => TrafficPhase::EastWb,
        TrafficPhase::EastWb => TrafficPhase::NorthSb,
    }
}

/// The phase at a position of the cycle.
pub open spec fn phase_at(i: int) -> TrafficPhase {
    if i == 0 {
        TrafficPhase::NorthSb
    } else if i == 1 {
        TrafficPhase::SouthNb
    } else if i == 2 {
        TrafficPhase::WestEb
    } else {
        TrafficPhase::EastWb
    }
}

impl TrafficPhase {
    /// The four phases in cycle order.
    pub fn all() -> (r: [TrafficPhase; 4])
        ensures
            r@.len() == 4,
            forall|i: int| 0 <= i < 4 ==> #[trigger] r@[i] == phase_at(i),
    {
        let r = [TrafficPhase::NorthSb, TrafficPhase::SouthNb, TrafficPhase::WestEb, TrafficPhase::EastWb];
        assert(r@.len() == 4);
        r
    }

    pub fn lane(self) -> (l: LaneId)
        ensures
            l == phase_lane_spec(self),
    {
        match self {
            TrafficPhase::NorthSb => LaneId::NorthSb,
            TrafficPhase::SouthNb => LaneId::SouthNb,
            TrafficPhase::WestEb => LaneId::WestEb,
            TrafficPhase::EastWb => LaneId::EastWb,
        }
    }

    pub fn next(self) -> (p: TrafficPhase)
        ensures
            p == next_phase_spec(self),
    {
        match self {
            TrafficPhase::NorthSb => TrafficPhase::SouthNb,
            TrafficPhase::SouthNb => TrafficPhase::WestEb,
            TrafficPhase::WestEb => TrafficPhase::EastWb,
            TrafficPhase::EastWb => TrafficPhase::NorthSb,
        }
    }
}

#[derive(Debug)]
pub struct TrafficLightController {
    phase: TrafficPhase,
    elapsed_in_phase: u64,
}

/// The current phase and how long (in milliseconds) it has been green.
pub struct ControllerView {
    pub phase: TrafficPhase,
    pub elapsed_ms: nat,
}

impl ControllerView {
    /// A phase never stays green for the extended maximum.
    pub open spec fn wf(self) -> bool {
        self.elapsed_ms < EXTENDED_MAX_GREEN_MS
    }
}

impl View for TrafficLightController {
    type V = ControllerView;

    closed spec fn view(&self) -> ControllerView {
        ControllerView { phase: self.phase, elapsed_ms: self.elapsed_in_phase as nat }
    }
}

/// The lane's queue has reached its capacity (and the capacity is positive).
pub open spec fn at_capacity_spec(sim: &Simulation, lane: LaneId) -> bool {
    let len = sim.world.lane_view(lane).lane_length as nat;
    let capacity = lane_capacity_spec(len);
    let queued = queued_count(sim.vehicle_views(), lane, len) as i32;
    capacity > 0 && queued >= capacity
}

/// Some approach other than the current phase's is at capacity.
pub open spec fn other_at_capacity(sim: &Simulation, phase: TrafficPhase) -> bool {
    exists|i: int| 0 <= i < 4 && phase_at(i) != phase && #[trigger] at_capacity_spec(sim, phase_lane_spec(phase_at(i)))
}

/// Whether the green moves on after `elapsed` milliseconds of `phase`: never before the
/// minimum green; yield to a congested approach unless the current one is congested
/// too; always at the extended maximum; at the normal maximum unless congested.
pub open spec fn should_switch_spec(sim: &Simulation, phase: TrafficPhase, elapsed: nat) -> bool {
    if elapsed < MIN_GREEN_MS {
        false
    } else {
        let current_full = at_capacity_spec(sim, phase_lane_spec(phase));
        if other_at_capacity(sim, phase) && !current_full {
            true
        } else if elapsed >= EXTENDED_MAX_GREEN_MS {
            true
        } else if elapsed >= NORMAL_MAX_GREEN_MS && !current_full {
            true
        } else {
            false
        }
    }
}

/// Signal of every lane in a phase: green on the phase's approach, red elsewhere.
pub open spec fn signals_for(phase: TrafficPhase) -> Seq<SignalState> {
    Seq::new(
        8,
        |i: int|
            if i == lane_index_spec(phase_lane_spec(phase)) {
                SignalState::Green
            } else {
                SignalState::Red
            },
    )
}

/// Controller state after an update in which `dt_ms` elapsed.
pub open spec fn controller_step(c: ControllerView, sim: &Simulation, dt_ms: nat) -> ControllerView {
    let elapsed = c.elapsed_ms + dt_ms;
    if should_switch_spec(sim, c.phase, elapsed) {
        ControllerView { phase: next_phase_spec(c.phase), elapsed_ms: 0 }
    } else {
        ControllerView { phase: c.phase, elapsed_ms: elapsed }
    }
}

impl TrafficLightController {
    pub fn new() -> (c: Self)
        ensures
            c@ == (ControllerView { phase: TrafficPhase::NorthSb, elapsed_ms: 0 }),
            c@.wf(),
    {
        Self { phase: TrafficPhase::NorthSb, elapsed_in_phase: 0 }
    }

    /// Advances the phase timer by `dt_ms`, switches phase when due and writes the
    /// phase's signals into the simulation. Returns `true` when the green just moved.
    pub fn update(&mut self, sim: &mut Simulation, dt_ms: u32) -> (switched: bool)
        requires
            old(self)@.wf(),
        ensures
            final(self)@ == controller_step(old(self)@, &*old(sim), dt_ms as nat),
            switched == should_switch_spec(&*old(sim), old(self)@.phase, old(self)@.elapsed_ms + dt_ms as nat),
            final(self)@.wf(),
            final(sim).lane_signals@ == signals_for(final(self)@.phase),
            final(sim).world == old(sim).world,
            final(sim).vehicles == old(sim).vehicles,
            final(sim).next_vehicle_id == old(sim).next_vehicle_id,
    {
        self.elapsed_in_phase = self.elapsed_in_phase + dt_ms as u64;

        let switched = if self.should_switch_phase(sim) {
            self.switch_phase();
            true
        } else {
            false
        };

        self.apply_phase_to_simulation(sim);
        switched
    }

    fn should_switch_phase(&self, sim: &Simulation) -> (b: bool)
        ensures
            b == should_switch_spec(sim, self@.phase, self@.elapsed_ms),
    {
        if self.elapsed_in_phase < MIN_GREEN_MS {
            return false;
        }

        let current_lane = self.phase.lane();
        let current_is_full = lane_is_at_capacity(sim, current_lane);
        let phases = TrafficPhase::all();
        let mut other_waiting_full = false;
        let mut i: usize = 0;
        while i < 4
            invariant
                i <= 4,
                forall|k: int| 0 <= k < 4 ==> #[trigger] phases@[k] == phase_at(k),
                other_waiting_full == exists|k: int|
                    0 <= k < i && phase_at(k) != self@.phase
                        && #[trigger] at_capacity_spec(sim, phase_lane_spec(phase_at(k))),
            decreases 4 - i,
        {
            let p = phases[i];
            if p != self.phase && lane_is_at_capacity(sim, p.lane()) {
                other_waiting_full = true;
            }
            i = i + 1;
        }

        // Yield the green to a congested approach that is still waiting.
        if other_waiting_full && !current_is_full {
            return true;
        }
        if self.elapsed_in_phase >= EXTENDED_MAX_GREEN_MS {
            return true;
        }
        if self.elapsed_in_phase >= NORMAL_MAX_GREEN_MS && !current_is_full {
            return true;
        }
        false
    }

    fn switch_phase(&mut self)
        ensures
            final(self)@ == (ControllerView { phase: next_phase_spec(old(self)@.phase), elapsed_ms: 0 }),
    {
        self.phase = self.phase.next();
        self.elapsed_in_phase = 0;
    }

    fn apply_phase_to_simulation(&self, sim: &mut Simulation)
        ensures
            final(sim).lane_signals@ == signals_for(self@.phase),
            final(sim).world == old(sim).world,
            final(sim).vehicles == old(sim).vehicles,
            final(sim).next_vehicle_id == old(sim).next_vehicle_id,
    {
        let lanes = LaneId::all();
        let mut i: usize = 0;
        while i < 8
            invariant
                i <= 8,
                forall|k: int| 0 <= k < 8 ==> #[trigger] lanes@[k] == lane_at(k),
                forall|k: int| 0 <= k < i ==> #[trigger] sim.lane_signals@[k] == SignalState::Red,
                sim.world == old(sim).world,
                sim.vehicles == old(sim).vehicles,
                sim.next_vehicle_id == old(sim).next_vehicle_id,
            decreases 8 - i,
        {
            sim.set_lane_signal(lanes[i], SignalState::Red);
            i = i + 1;
        }
        sim.set_lane_signal(self.phase.lane(), SignalState::Green);
        proof {
            assert(sim.lane_signals@ =~= signals_for(self@.phase));
        }
    }
}

impl Default for TrafficLightController {
    fn default() -> (c: Self)
        ensures
            c@ == (ControllerView { phase: TrafficPhase::NorthSb, elapsed_ms: 0 }),
    {
        Self::new()
    }
}

fn lane_is_at_capacity(sim: &Simulation, lane: LaneId) -> (b: bool)
    ensures
        b == at_capacity_spec(sim, lane),
{
    let lane_info = sim.world.lane(lane);
    let capacity = lane_capacity(lane_info.lane_length);
    let queue_count = get_lane_queue_count(sim, lane);
    capacity > 0 && queue_count >= capacity
}


/// Exactly one lane is green in every phase: the phase's approach, which is an inbound
/// lane. So no two approaches, and in particular no two conflicting movements, are
/// ever green together.
pub proof fn law_single_green(phase: TrafficPhase, a: LaneId, b: LaneId)
    ensures
        signals_for(phase).len() == 8,
        signals_for(phase)[lane_index_spec(phase_lane_spec(phase))] == SignalState::Green,
        is_inbound_lane(phase_lane_spec(phase)),
        signals_for(phase)[lane_index_spec(a)] == SignalState::Green
            && signals_for(phase)[lane_index_spec(b)] == SignalState::Green ==> a == b,
{
}

/// The phases cycle north, south, west, east: four steps return to the start, and the
/// four phases green four different approaches.
pub proof fn law_phase_cycle(p: TrafficPhase, q: TrafficPhase)
    ensures
        next_phase_spec(next_phase_spec(next_phase_spec(next_phase_spec(p)))) == p,
        next_phase_spec(p) != p,
        p != q ==> phase_lane_spec(p) != phase_lane_spec(q),
{
}

/// A green never ends before the minimum green time.
pub proof fn law_min_green(sim: &Simulation, phase: TrafficPhase, elapsed: nat)
    requires
        elapsed < MIN_GREEN_MS,
    ensures
        !should_switch_spec(sim, phase, elapsed),
{
}

/// A green always ends at the extended maximum.
pub proof fn law_max_green(sim: &Simulation, phase: TrafficPhase, elapsed: nat)
    requires
        elapsed >= EXTENDED_MAX_GREEN_MS,
    ensures
        should_switch_spec(sim, phase, elapsed),
{
}

/// While the current approach's queue is at capacity its green is extended: it only
/// ends at the extended maximum.
pub proof fn law_congestion_extends_green(sim: &Simulation, phase: TrafficPhase, elapsed: nat)
    requires
        at_capacity_spec(sim, phase_lane_spec(phase)),
        elapsed < EXTENDED_MAX_GREEN_MS,
    ensures
        !should_switch_spec(sim, phase, elapsed),
{
}

/// Without congestion a green ends at the normal maximum.
pub proof fn law_normal_green(sim: &Simulation, phase: TrafficPhase, elapsed: nat)
    requires
        forall|l: LaneId| !#[trigger] at_capacity_spec(sim, l),
        elapsed >= NORMAL_MAX_GREEN_MS,
    ensures
        should_switch_spec(sim, phase, elapsed),
{
}

/// After the minimum green, an uncongested approach yields to a congested one.
pub proof fn law_yield_to_congested(sim: &Simulation, phase: TrafficPhase, other: TrafficPhase, elapsed: nat)
    requires
        elapsed >= MIN_GREEN_MS,
        other != phase,
        at_capacity_spec(sim, phase_lane_spec(other)),
        !at_capacity_spec(sim, phase_lane_spec(phase)),
    ensures
        should_switch_spec(sim, phase, elapsed),
{
    let i: int = match other {
        TrafficPhase::NorthSb => 0,
        TrafficPhase::SouthNb => 1,
        TrafficPhase::WestEb => 2,
        TrafficPhase::EastWb => 3,
    };
    assert(phase_at(i) == other);
    assert(at_capacity_spec(sim, phase_lane_spec(phase_at(i))));
}

/// A green lasts less than the extended maximum after every update.
pub proof fn law_green_bounded(c: ControllerView, sim: &Simulation, dt_ms: nat)
    requires
        c.wf(),
    ensures
        controller_step(c, sim, dt_ms).wf(),
        controller_step(c, sim, dt_ms).phase == c.phase
            || controller_step(c, sim, dt_ms).phase == next_phase_spec(c.phase),
{
}


/// Under the signals of a phase, a vehicle at or before its stop line on any other lane
/// does not pass the stop line in a vehicle update: of the vehicles not yet in the box,
/// only those of the green approach enter it.
pub proof fn law_only_green_approach_enters(vs: Seq<VehicleView>, phase: TrafficPhase, dt_ms: nat, i: int)
    requires
        0 <= i < vs.len(),
        vs[i].lane != phase_lane_spec(phase),
        vs[i].progress <= vs[i].lane_length,
    ensures
        moved_spec(vs, signals_for(phase), dt_ms)[i].progress <= vs[i].lane_length,
{
    crate::types::lemma_lane_index_roundtrip(vs[i].lane);
    crate::types::lemma_lane_index_roundtrip(phase_lane_spec(phase));
    law_update_stops_at_red(vs, signals_for(phase), dt_ms, i);
}


/// In the intersection's world a lane is at capacity exactly when seven or more vehicles
/// wait before its stop line: `floor(290 / (22 + 16)) = 7`.
pub proof fn law_capacity_threshold(sim: &Simulation, lane: LaneId)
    requires
        sim.world.is_standard(),
        sim.vehicles@.len() <= i32::MAX,
    ensures
        at_capacity_spec(sim, lane) <==> queued_count(sim.vehicle_views(), lane, 290_000) >= 7,
{
    assert(sim.world.lane_view(lane) == crate::world::lane_spec(lane));
    crate::world::law_lane_capacity_is_seven(lane);
    lemma_queued_count_le(sim.vehicle_views(), lane, 290_000);
}

/// While every lane has fewer than seven vehicles waiting, no green ends before the
/// normal maximum.
pub proof fn law_no_congestion_keeps_normal_green(sim: &Simulation, phase: TrafficPhase, elapsed: nat)
    requires
        sim.world.is_standard(),
        sim.vehicles@.len() <= i32::MAX,
        forall|l: LaneId| #[trigger] queued_count(sim.vehicle_views(), l, 290_000) < 7,
        elapsed < NORMAL_MAX_GREEN_MS,
    ensures
        !should_switch_spec(sim, phase, elapsed),
{
    assert forall|l: LaneId| !#[trigger] at_capacity_spec(sim, l) by {
        law_capacity_threshold(sim, l);
        assert(queued_count(sim.vehicle_views(), l, 290_000) < 7);
    }
}

/// Once seven vehicles wait on the green approach, its green lasts until the extended
/// maximum.
pub proof fn law_full_queue_extends_green(sim: &Simulation, phase: TrafficPhase, elapsed: nat)
    requires
        sim.world.is_standard(),
        sim.vehicles@.len() <= i32::MAX,
        queued_count(sim.vehicle_views(), phase_lane_spec(phase), 290_000) >= 7,
        elapsed < EXTENDED_MAX_GREEN_MS,
    ensures
        !should_switch_spec(sim, phase, elapsed),
{
    law_capacity_threshold(sim, phase_lane_spec(phase));
}

} // verus!
