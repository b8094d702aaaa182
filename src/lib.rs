//! A block-based audio mixing core on integer samples.
//!
//! The control side hands commands to a bounded queue; the render side,
//! once per block, applies them to resources kept in fixed-capacity
//! generational arenas, moves parameters, clocks and sequences on, plays
//! sound instances into the tracks of a mixer graph, and mixes the graph
//! down to the main track's output. Blocks are stereo, left and right
//! samples interleaved.

pub mod arena;
pub mod clock;
pub mod engine;
pub mod instance;
pub mod mixer;
pub mod queue;
pub mod sample;
pub mod sequence;
pub mod tween;
