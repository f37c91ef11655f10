//! The logic of two chat bots.
//!
//! The calculating kangaroo finds the last euro amount in a message
//! ([`euro_to_mark::get_euro`]) and answers with what it would have been worth
//! in Mark ([`kaenguru::format_response`]). The commenting bot answers messages
//! that contain a configured trigger ([`replies::choose_reply`]). Around them
//! stand the reading of the configuration's version ([`config::check_version`])
//! and the decisions of the logging setup ([`logger`]).
pub mod config;
pub mod euro_to_mark;
pub mod kaenguru;
pub mod logger;
pub mod replies;
pub mod text;
pub mod xd;
