//! Verified game logic for a series of small 2D/3D game lessons: input
//! decoding, audio mixing rules, phase navigation, HUD and legend text,
//! and the tile layout of a brick-breaker level.
pub mod input;
pub mod text;
pub mod audio;
pub mod sounds;
pub mod mixer;
pub mod phases;
pub mod controls;
pub mod persistence;
pub mod mover;
pub mod sprites;
pub mod breakout;
pub mod arkanoid;
