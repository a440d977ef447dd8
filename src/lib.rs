//! A CHIP-8 interpreter whose instruction semantics are stated as contracts
//! and proved by Verus.

pub mod emu;
pub mod keypad;
pub mod laws;
pub mod rom;
pub mod settings;
