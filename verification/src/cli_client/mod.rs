//! The command-line client: plain-text messages, the `key:value` input line, and
//! the gluing of the lines it reads into messages.

pub mod fctp;
pub mod input;
