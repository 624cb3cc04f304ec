//! A terminal emulator core: a character grid with a cursor, scroll region,
//! alternate screen and scrollback, and the control-sequence dispatcher that
//! drives it.

pub mod model;
pub mod terminal;
pub mod parser;
pub mod laws;
pub mod input;
pub mod display;
