//! A verified tilt-driven particle toy: maps accelerometer samples onto a
//! small two-dimensional particle simulation and a pair of clamped tilt
//! angles for a renderer.
//!
//! All scalar quantities are fixed-point values ([`fixed::Fx`]), so every
//! arithmetic step has an exact, machine-checked meaning.

pub mod fixed;
pub mod sim;
pub mod text;

pub use fixed::Fx;
pub use sim::{AccelerometerData, BeerSimulator, FluidParticle, FluidState};
