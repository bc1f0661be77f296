//! Rules engine and session bookkeeping for a chat-hosted chess game, plus the
//! server category and permission tables of the surrounding bot.

pub mod square;
pub mod board;
pub mod rules;
pub mod status;
pub mod error;
pub mod notation;
pub mod resolve;
pub mod session;
pub mod storage;
pub mod pterodactyl;
