//! Procedural generation of chord instrument presets for a tracker's FM and
//! hypersynth engines: semitone offsets become operator ratios, routing
//! topologies, inversions and bit-packed chord tables.

pub mod pitch;
pub mod chord;
pub mod preset;
pub mod table;
pub mod emit;
pub mod error;
pub mod encode;
