//! Simulation core of a reflex/avoidance arcade game.
//!
//! The library owns the game logic: bouncing hazard sprites with collision
//! queries, a frame-indexed sprite animation state machine, a clamped health
//! meter, anchored multi-line text layout, audio-signal windowing and the
//! bar-graph interpolation that visualizes a signal window, and the per-tick
//! world update with its game-phase transitions. Rendering, input polling and
//! asset loading live outside; the library exchanges plain values with them.
//!
//! Fractional quantities (health, anchor and alignment fractions) are held in
//! hundredths, so every rule is exact integer arithmetic.

pub mod audio;
pub mod game;
pub mod graph;
pub mod health;
pub mod movable;
pub mod multi_sprite;
pub mod rng;
pub mod text_layout;
