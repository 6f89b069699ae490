pub mod text;
pub mod cli_client;
pub mod fctp_text;
pub mod crypt;
pub mod protocol_utils;
pub mod gui_client;
pub mod server;
