//! Markers and settings that the game's systems are organised by.
use vstd::prelude::*;

verus! {

/// The stages of a frame's car update: inputs are read first, the neural
/// network then drives, and the electronic stability program runs last.
#[derive(PartialEq, Eq, Structural, Debug, Clone, Copy, Hash)]
pub enum CarSet {
    Input,
    NeuralNetwork,
    Esp,
}

/// Marks the dashboard text that shows the trainer's exploration rate.
#[derive(PartialEq, Eq, Structural, Debug, Clone, Copy)]
pub struct TrainerEpsilonText;

/// Marks the dashboard text that shows the trainer's generation.
#[derive(PartialEq, Eq, Structural, Debug, Clone, Copy)]
pub struct TrainerGenerationText;

/// Marks the dashboard text that shows the trainer's rewards.
#[derive(PartialEq, Eq, Structural, Debug, Clone, Copy)]
pub struct TrainerRewardsText;

/// The plugin that lets a neural network drive the car.
#[derive(PartialEq, Eq, Structural, Debug, Clone, Copy)]
pub struct NeuralNetworkPlugin;

/// The game's settings.
pub struct Config {
    /// How many cars are put on the track.
    pub cars_count: usize,
}

impl Default for Config {
    /// One car.
    fn default() -> (r: Self)
        ensures
            r.cars_count == 1,
    {
        Self { cars_count: 1 }
    }
}

} // verus!
