//! A Telegram label-printing bot's logic: its configuration, who may print
//! and when, the copy count a caption asks for, and the `lp` command line.
pub mod clock;
pub mod config;
pub mod handlers;
pub mod history;
pub mod print;
pub mod text;
