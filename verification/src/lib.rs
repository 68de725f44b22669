//! The decisions of a chat bot, verified.
//!
//! The bot answers three commands. `~del A B` deletes every message of a
//! channel from message `A` to message `B`, both included ([`bulkdel`]);
//! `~poll "question" "choice" ..` opens a poll ([`poll`]); `~roll NdM` rolls
//! dice ([`dice`]). [`text`] builds the answers that the bot writes, and
//! [`settings`] and [`logging`] say what the bot is configured with.
//!
//! Nothing here talks to the chat platform. What is to be fetched, sent or
//! deleted is handed out as plain values, and what came of it is taken back
//! as plain values.

pub mod bulkdel;
pub mod dice;
pub mod logging;
pub mod poll;
pub mod settings;
pub mod text;
