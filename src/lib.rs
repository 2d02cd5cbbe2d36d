//! Deterministic state-transition core of a small replicated ledger whose
//! blocks each carry one move of a shared tic-tac-toe game.

pub mod codec;
pub mod game;
pub mod block;
pub mod state;
pub mod service;
