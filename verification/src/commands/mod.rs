//! The operations behind the commands.

pub mod held;
pub mod listen;
pub mod preview;
pub mod reset;
pub mod script;
