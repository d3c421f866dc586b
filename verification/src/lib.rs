//! Changes the public IP address of one or several VPS through the Boil Token API.

pub mod address;
pub mod boil;
pub mod bot;
pub mod cli;
pub mod config;
pub mod ip_quality;
pub mod number;
pub mod reconnect;
pub mod redact;
pub mod server_manage;
pub mod status_card;
pub mod text;
pub mod time;
pub mod timer;
