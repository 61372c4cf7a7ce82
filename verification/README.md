# Road intersection

A four-way intersection: two crossing roads with one lane per direction, four
inbound approaches with red/green signals, and vehicles that follow fixed left,
right or straight routes, stop at red and keep a safe gap behind the vehicle
ahead. The simulation logic is a Verus library; a small SDL2 program drives it.

## Units

The library works in integers:

- lengths and coordinates in millipixels (1000 per screen pixel);
- time in milliseconds;
- speed in millipixels per millisecond (numerically pixels per second);
- scale factors in per-mille.

Distances are Euclidean distances rounded down to whole millipixels
(`geometry::isqrt`). Positions along a path are interpolated with integer
division rounded toward zero.

## Layout

| Path | Contents |
|------|----------|
| `src/config.rs` | Dimensions, speeds and layout constants |
| `src/types.rs` | Lane identifiers, routes, colours, spawn helpers, lane capacity |
| `src/geometry.rs` | Integer square root, distances, polyline lengths |
| `src/world.rs` | Lanes, spawn points, stop lines and route waypoints |
| `src/vehicle.rs` | Path following, the follow gap, stopping at red |
| `src/simulation.rs` | Vehicle list, spawning, per-lane signals, queue counts |
| `src/traffic_lights.rs` | Four-phase controller and the congestion rule |
| `src/input.rs` | Spawn keys, the random key, quitting |
| `src/render.rs` | One frame as a list of drawing commands |
| `app/` | SDL2 window, event loop, audio, sprites, console tables |

## Controller

One inbound approach is green at a time, in the order north, south, west,
east. A green lasts at least 3 s and normally at most 8 s. When an approach's
queue reaches its capacity, `floor(lane_length / (vehicle_length + safety_gap))`
(7 vehicles), its green is extended up to 14 s, and an uncongested approach
yields to a congested one after the minimum green.

## Vehicles and keys

Vehicles stop at a red light at their stop line and wait there until it turns
green; they keep a gap of one car plus 16 px behind the vehicle ahead in their
queue. The arrow keys spawn on the four approaches, `r` on a direction picked
from the spawn seed, `m` toggles the sound and Esc quits. Each frame handles
input, then moves the vehicles, then updates the lights, then draws.

## Checking

`verus` verifies `src/`; the tests under `tests/` run against the compiled
library.
