//! Move-decision engine for a grid-based multiplayer snake game.
//!
//! Each turn the engine receives the board, filters the moves that do not
//! immediately collide with a wall, a snake body or a hazard, explores the
//! resulting move tree within a time and a depth budget, and answers with the
//! direction whose subtree reaches deepest.

pub mod cells;
pub mod clock;
pub mod customization;
pub mod engine;
pub mod filter;
pub mod policy;
pub mod schemas;
pub mod snake;
pub mod tree;
