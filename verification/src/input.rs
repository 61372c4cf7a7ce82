//! Keyboard commands: spawn keys, the random-direction key, muting and quitting.
use vstd::prelude::*;
use crate::simulation::{spawn_outcome, Simulation};
use crate::types::{
    lane_for_spawn_direction, random_kind_spec, random_route_spec, random_route_uniform,
    random_vehicle_kind, spawn_lane_spec, is_inbound_lane, LaneId,
};

verus! {

/// Result of processing one input event.
#[derive(Debug, Clone, Copy, PartialEq, Eq, Structural)]
pub enum InputAction {
    Continue,
    Quit,
    /// Switch the sound effects on or off.
    ToggleMute,
}

/// The keys the simulation reacts to.
#[derive(Debug, Clone, Copy, PartialEq, Eq, Structural)]
pub enum Key {
    Up,
    Down,
    Left,
    Right,
    R,
    M,
    Escape,
    Other,
}

/// An input event: a request to close the window, a key press (`key` is `None` when the
/// key has no key code) or anything else.
#[derive(Debug, Clone, Copy, PartialEq, Eq, Structural)]
pub enum InputEvent {
    Quit,
    KeyDown { key: Option<Key>, repeat: bool },
    Other,
}

pub struct InputHandler {
    spawn_seed: u32,
}

impl View for InputHandler {
    type V = u32;

    /// The spawn seed.
    closed spec fn view(&self) -> u32 {
        self.spawn_seed
    }
}

/// The seed after one step: plus one, wrapping.
pub open spec fn seed_step(s: u32) -> u32 {
    if s == u32::MAX {
        0
    } else {
        (s + 1) as u32
    }
}

/// Lane a key spawns on: the arrow keys their fixed approaches, `R` the direction
/// picked by the stepped seed; other keys spawn nothing.
pub open spec fn key_lane_spec(key: Key, seed: u32) -> Option<LaneId> {
    match key {
        Key::Up => Some(spawn_lane_spec(0)),
        Key::Down => Some(spawn_lane_spec(1)),
        Key::Right => Some(spawn_lane_spec(2)),
        Key::Left => Some(spawn_lane_spec(3)),
        Key::R => Some(spawn_lane_spec((seed_step(seed) % 4) as int)),
        _ => None,
    }
}

/// What a spawn key does to the simulation and the seed: keys that spawn nothing
/// change nothing; otherwise the seed steps (twice, and once more for `R`), the route
/// and vehicle kind come from the stepped seeds, and the spawn request is made.
pub open spec fn key_outcome(pre: &Simulation, post: &Simulation, key: Key, seed: u32, seed_after: u32) -> bool {
    match key_lane_spec(key, seed) {
        None => seed_after == seed && *post == *pre,
        Some(lane) => {
            let s1 = if key == Key::R { seed_step(seed) } else { seed };
            let s2 = seed_step(s1);
            let s3 = seed_step(s2);
            &&& seed_after == s3
            &&& spawn_outcome(pre, post, lane, random_route_spec(s2), random_kind_spec(s3))
        },
    }
}

/// Action an event asks for: quit on a close request or a fresh Escape press, toggle
/// the sound on a fresh M press.
pub open spec fn action_spec(event: InputEvent) -> InputAction {
    match event {
        InputEvent::Quit => InputAction::Quit,
        InputEvent::KeyDown { key: Some(Key::Escape), repeat: false } => InputAction::Quit,
        InputEvent::KeyDown { key: Some(Key::M), repeat: false } => InputAction::ToggleMute,
        _ => InputAction::Continue,
    }
}

/// The key of a fresh key press that goes to the spawn handling (neither Escape nor M).
pub open spec fn spawn_key_of(event: InputEvent) -> Option<Key> {
    match event {
        InputEvent::KeyDown { key: Some(k), repeat: false } => if k != Key::Escape && k != Key::M {
            Some(k)
        } else {
            None
        },
        _ => None,
    }
}

/// Lane an event spawns on with the given seed, if it spawns at all.
pub open spec fn event_lane_spec(event: InputEvent, seed: u32) -> Option<LaneId> {
    match spawn_key_of(event) {
        Some(k) => key_lane_spec(k, seed),
        None => None,
    }
}

/// A spawn on `lane`, if there is one and it is allowed, has an identifier to take.
pub open spec fn id_for_spawn(sim: &Simulation, lane: Option<LaneId>) -> bool {
    match lane {
        Some(l) => sim.spawn_allowed(l) ==> sim.next_id() < u32::MAX,
        None => true,
    }
}

impl InputHandler {
    pub fn new() -> (h: Self)
        ensures
            h@ == 0,
    {
        Self { spawn_seed: 0 }
    }

    /// The lane the event would spawn on, given the current seed.
    pub fn spawn_lane(&self, event: InputEvent) -> (l: Option<LaneId>)
        ensures
            l == event_lane_spec(event, self@),
    {
        let key = match event {
            InputEvent::KeyDown { key: Some(k), repeat: false } => k,
            _ => {
                return None;
            },
        };
        match key {
            Key::Up => Some(lane_for_spawn_direction(0)),
            Key::Down => Some(lane_for_spawn_direction(1)),
            Key::Right => Some(lane_for_spawn_direction(2)),
            Key::Left => Some(lane_for_spawn_direction(3)),
            Key::R => Some(lane_for_spawn_direction((self.spawn_seed.wrapping_add(1) % 4) as usize)),
            _ => None,
        }
    }

    pub fn handle_event(&mut self, sim: &mut Simulation, event: InputEvent) -> (a: InputAction)
        requires
            old(sim).wf(),
            id_for_spawn(&*old(sim), event_lane_spec(event, old(self)@)),
        ensures
            a == action_spec(event),
            final(sim).wf(),
            match spawn_key_of(event) {
                Some(k) => key_outcome(&*old(sim), &*final(sim), k, old(self)@, final(self)@),
                None => *final(sim) == *old(sim) && final(self)@ == old(self)@,
            },
    {
        match event {
            InputEvent::Quit => InputAction::Quit,
            InputEvent::KeyDown { key: Some(key), repeat: false } => {
                if key == Key::Escape {
                    InputAction::Quit
                } else if key == Key::M {
                    InputAction::ToggleMute
                } else {
                    try_spawn_from_key(sim, key, &mut self.spawn_seed);
                    InputAction::Continue
                }
            },
            _ => InputAction::Continue,
        }
    }
}

impl Default for InputHandler {
    fn default() -> (h: Self)
        ensures
            h@ == 0,
    {
        Self::new()
    }
}

/// Spawns a vehicle for a key press: on the key's lane, with a route and kind drawn from
/// the seed.
pub fn try_spawn_from_key(sim: &mut Simulation, key: Key, seed: &mut u32)
    requires
        old(sim).wf(),
        id_for_spawn(&*old(sim), key_lane_spec(key, *old(seed))),
    ensures
        key_outcome(&*old(sim), &*final(sim), key, *old(seed), *final(seed)),
        final(sim).wf(),
{
    let lane = match key {
        Key::Up => lane_for_spawn_direction(0),
        Key::Down => lane_for_spawn_direction(1),
        Key::Right => lane_for_spawn_direction(2),
        Key::Left => lane_for_spawn_direction(3),
        Key::R => {
            *seed = seed.wrapping_add(1);
            lane_for_spawn_direction((*seed % 4) as usize)
        },
        _ => {
            return;
        },
    };

    *seed = seed.wrapping_add(1);
    let route = random_route_uniform(*seed);
    *seed = seed.wrapping_add(1);
    let kind = random_vehicle_kind(*seed);
    let _ = sim.spawn_vehicle(lane, route, kind);
}


/// The R key picks each approach equally often: for any four consecutive seeds (without
/// wrapping) it spawns on four different inbound lanes, so each approach once, and the
/// choice repeats every four seeds.
pub proof fn law_random_key_uniform(seed: u32, i: u32, j: u32)
    requires
        seed <= u32::MAX - 8,
        i < 4,
        j < 4,
    ensures
        key_lane_spec(Key::R, (seed + i) as u32) matches Some(l) && is_inbound_lane(l),
        i != j ==> key_lane_spec(Key::R, (seed + i) as u32) != key_lane_spec(Key::R, (seed + j) as u32),
        key_lane_spec(Key::R, (seed + i) as u32) == key_lane_spec(Key::R, (seed + i + 4) as u32),
{
}

/// Each arrow key spawns on its own inbound lane, whatever the seed, and `R` always
/// spawns on some inbound lane; Escape, M and other keys spawn nothing.
pub proof fn law_key_lanes(seed: u32, other_seed: u32)
    ensures
        key_lane_spec(Key::Up, seed) == Some(LaneId::SouthNb),
        key_lane_spec(Key::Down, seed) == Some(LaneId::NorthSb),
        key_lane_spec(Key::Right, seed) == Some(LaneId::WestEb),
        key_lane_spec(Key::Left, seed) == Some(LaneId::EastWb),
        key_lane_spec(Key::Up, seed) == key_lane_spec(Key::Up, other_seed),
        key_lane_spec(Key::R, seed) matches Some(l) && is_inbound_lane(l),
        key_lane_spec(Key::Escape, seed) is None,
        key_lane_spec(Key::M, seed) is None,
        key_lane_spec(Key::Other, seed) is None,
{
}

} // verus!
