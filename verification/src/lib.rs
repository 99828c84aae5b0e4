//! A minimal single-player grid-based snake game engine.
//!
//! The engine owns the whole game state (grid size, snake body, direction,
//! food, terminal flag) and exposes two mutators: `change_direction`, driven
//! by the host's input events, and `tick`, driven by the host's timer. A
//! presentation layer reads the public fields after each tick to draw the
//! grid; rendering and event wiring are the host's business, not the
//! engine's.

pub mod laws;
pub mod snake;

pub use snake::Direction;
pub use snake::Position;
pub use snake::SnakeGame;
