//! A bounded, per-conversation message memory for a chat bot, and the
//! rendering of its windows into transcripts for a summarizer.
//!
//! [`store::MessageStore`] keeps the newest messages of every chat and
//! thread, [`transcript::render`] flattens a window of them into text, and
//! [`command`] decides what the bot answers to each message and command.

pub mod clock;
pub mod command;
pub mod count;
pub mod decimal;
pub mod markup;
pub mod message;
pub mod store;
pub mod transcript;
pub mod uptime;
pub mod window;

pub use message::{ChatThreadId, MessageView, SavedMessage};
pub use store::{MessageStore, StoreStats, MAX_MESSAGES};
