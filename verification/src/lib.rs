//! Priority-based arbitration of exclusive, preemptible access to shared subsystems.

pub mod channel;
pub mod engine;
pub mod group;
pub mod priority;
pub mod protocol;
pub mod referred;
pub mod systems;
