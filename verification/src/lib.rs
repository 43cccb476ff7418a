//! A terminal trivia game library: trivia questions with deterministic
//! answer ordering, a round state machine, and display helpers, all with
//! verified contracts.

pub mod api;
pub mod game;
pub mod input;
pub mod text;
pub mod ui;
