//! The simple graphical client: its messages, what the user types, and how it
//! reads the server's lines through the key exchange and afterwards.

pub mod fctp;
pub mod session;
