pub mod fctp;
pub mod fctp_me;
pub mod fctp_secure;
pub mod session;
pub mod connection;
