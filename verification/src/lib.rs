//! Four-way road intersection: lanes and routes, vehicles that follow them, and a
//! four-phase traffic-light controller with a congestion rule.
pub mod config;
pub mod types;
pub mod geometry;
pub mod world;
pub mod vehicle;
pub mod simulation;
pub mod traffic_lights;
pub mod input;
pub mod render;
