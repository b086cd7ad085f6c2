//! Simulation core of a grid-based snake game on a toroidal board.
//!
//! The board owns a flat `Dead`/`Lit` cell buffer, the snake, and the bait
//! cell; `tick` advances the game one step, handling wrap-around movement,
//! bait consumption, growth, and self-collision. The random source used to
//! re-place the bait and the game-over notifier are injected capabilities,
//! so the whole state machine is deterministic given their answers.

pub mod board;
pub mod grid;
pub mod laws;
pub mod snake;

pub use board::BaitRng;
pub use board::Board;
pub use board::Cell;
pub use board::CountingNotifier;
pub use board::GameOverNotifier;
pub use board::LcgRng;
pub use snake::Direction;
pub use snake::Snake;
