//! A tick-based tank battle engine: a world store of tanks and bullets, the
//! staged tick (command application, kinematics, collision classification,
//! damage, outcome), and the decisions around agents and image builds.

pub mod world;
pub mod event;
pub mod mask;
pub mod acquire;
pub mod command;
pub mod physics;
pub mod resolve;
pub mod outcome;
pub mod tick;
pub mod builder;
