//! A console for a bare-metal board: one character sink, reached through
//! capability traits, that turns each newline into a carriage return and a
//! newline and counts the characters it was asked to write.

pub mod console;
pub mod device;
pub mod qemu;
