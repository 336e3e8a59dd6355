//! A 3-by-3 two-player board game core: a bit-packed board store and an
//! exhaustive adversarial search that plays the game optimally.
//!
//! The board packs nine three-valued cells (empty / player one / player two)
//! two bits per cell into three storage units. The engine detects wins and
//! draws and, via full-depth minimax search, returns the optimal next move
//! for the computer player. Rendering and input handling live outside this
//! library; the helpers here only map cell states to marker text and numpad
//! keys to cell indices.

pub mod board;
pub mod engine;
pub mod interface;
pub mod laws;
