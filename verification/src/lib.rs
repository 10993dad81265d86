//! Estimates the electrical power that the supplies of a site deliver over a
//! run: a clock hands out evenly spaced ticks, each tick is evaluated under
//! the intensity factors that the sun's position gives the solar arrays, and
//! the samples are collected in the order of time.
//!
//! Every quantity is a whole number with a fixed unit: instants and steps in
//! nanoseconds, angles in microdegrees, rated power in milliwatts, intensity
//! factors in parts per million, delivered power in nanowatts. The position
//! of the sun is not computed here; whoever drives a run reads it for each
//! tick and hands in the factors.

pub mod clock;
pub mod config;
pub mod error;
pub mod irradiance;
pub mod panel;
pub mod sample;
pub mod simulation;
pub mod site;
pub mod supply;
pub mod time;

pub use crate::config::Configuration;
pub use crate::panel::SolarPanelArray;
pub use crate::simulation::evaluate;
