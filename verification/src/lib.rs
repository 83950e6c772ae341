use vstd::prelude::*;

pub mod api;
pub mod camera;
pub mod car;
pub mod components;
pub mod controls;
pub mod dqn;
pub mod ear_clipping;
pub mod gamepad;
pub mod light;
pub mod mesh;
pub mod net;
pub mod replay;
pub mod sound;

verus! {
} // verus!
