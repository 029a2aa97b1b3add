//! Bookkeeping for a game of Clue: who may hold which weapon, suspect and
//! room, what follows from each recorded suggestion, and which cards can
//! still be in the envelope.

pub mod cards;
pub mod inventory;
pub mod deduction;
pub mod game;
pub mod command;
