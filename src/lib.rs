//! Sonification of host telemetry: sound pack configuration, disk statistics,
//! the sample schedule of the grain pitch shifter and the engine's control logic.
pub mod control;
pub mod diskstats;
pub mod engine;
pub mod grain;
pub mod pack;
pub mod prefs;
pub mod text;
