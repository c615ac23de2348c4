//! The messages that the store retains and the keys that it retains them under.

use vstd::prelude::*;

verus! {

/// One isolated scrollback: a chat, and within it either the main line
/// (`thread_id` is `None`) or one of its threads.
#[derive(Clone, Copy, Debug, PartialEq, Eq, Hash)]
pub struct ChatThreadId {
    pub chat_id: i64,
    pub thread_id: Option<i32>,
}

/// A text message as it is kept in memory.
#[derive(Debug, PartialEq, Eq)]
pub struct SavedMessage {
    pub message_id: i32,
    /// Display name of the sender, if one could be made out.
    pub from_user: Option<String>,
    /// The message that this one answers; it may no longer be retained.
    pub reply_to_message_id: Option<i32>,
    pub text: String,
}

/// What a [`SavedMessage`] holds, with its strings as character sequences.
pub struct MessageView {
    pub message_id: i32,
    pub from_user: Option<Seq<char>>,
    pub reply_to_message_id: Option<i32>,
    pub text: Seq<char>,
}

impl View for SavedMessage {
    type V = MessageView;

    open spec fn view(&self) -> MessageView {
        MessageView {
            message_id: self.message_id,
            from_user: match self.from_user {
                Some(name) => Some(name@),
                None => None,
            },
            reply_to_message_id: self.reply_to_message_id,
            text: self.text@,
        }
    }
}

impl DeepView for SavedMessage {
    type V = MessageView;

    open spec fn deep_view(&self) -> MessageView {
        self@
    }
}

impl Clone for SavedMessage {
    fn clone(&self) -> (copy: Self)
        ensures
            copy == *self,
    {
        SavedMessage {
            message_id: self.message_id,
            from_user: match &self.from_user {
                Some(name) => Some(name.clone()),
                None => None,
            },
            reply_to_message_id: self.reply_to_message_id,
            text: self.text.clone(),
        }
    }
}

} // verus!
