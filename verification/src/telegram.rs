//! What the bot keeps about people on Telegram.

pub mod allowed_users;
