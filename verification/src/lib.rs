//! Core of a 2D side-scrolling runner game.
//!
//! A player-controlled character traverses a procedurally extended obstacle
//! course, with jumping, sliding, collision, and a game-over/restart cycle.
//! The modules here hold the verified simulation: geometry, the character
//! locomotion state machine, obstacles and collision, procedural segment
//! generation, the world tick, and the outer game-flow state machine.
//! Rendering, audio, asset loading and input capture are left to the
//! surrounding (unverified) layers, which drive this core with plain values.

pub mod game;
pub mod image;
pub mod point;
pub mod rect;
pub mod redhatboy_state;
pub mod obstacle;
pub mod platform;
pub mod redhatboy;
pub mod renderer;
pub mod segment;
pub mod sheet;
pub mod walk;
