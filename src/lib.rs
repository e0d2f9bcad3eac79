//! A blackjack engine: cards and shoes, soft-ace hand totals, and the
//! round state machine with its bet accounting.

pub mod art;
pub mod card;
pub mod game;
pub mod laws;
pub mod render;
