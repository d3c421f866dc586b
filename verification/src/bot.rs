//! The Telegram bot: who may give orders, what the orders mean, and what is answered.

pub mod buttons;
pub mod callbacks;
pub mod change;
pub mod classic;
pub mod commands;
pub mod dispatch;
pub mod flows;
pub mod formatting;
pub mod pairing;
pub mod secrecy;
pub mod server_delete;
pub mod server_edit;
pub mod server_list;
pub mod server_wizard;
pub mod state;
pub mod status;
pub mod timer_ui;
pub mod ui;
