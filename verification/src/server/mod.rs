//! The server: its identity and certificate, the registry of connected clients,
//! the messages it writes and reads under each client's session key, the commands
//! it answers, and what it does with each chunk a connection receives.

pub mod connection;
pub mod fctp;
pub mod fctp_client;
pub mod fctp_secure;
pub mod identity;
