//! What the bot does with what it receives: which messages it remembers, and
//! what it replies to each command. Sending and receiving are left to the
//! caller.

use crate::count::{parse_count, requested_count};
use crate::decimal::{decimal, push_decimal};
use crate::markup::{escape_markdown, markdown_escaped};
use crate::message::{ChatThreadId, MessageView, SavedMessage};
use crate::store::{messages_in, total_messages, with_message, Contents, MessageStore, StoreStats};
use crate::transcript::{render, transcript};
use crate::uptime::is_uptime_text;
use crate::window::keep_last;
use vstd::prelude::*;
use vstd::string::StringExecFns;

verus! {

/// Who sent a message.
#[derive(Debug, PartialEq, Eq)]
pub struct Sender {
    pub first_name: String,
    pub last_name: Option<String>,
}

/// A message as it comes in from a chat.
#[derive(Debug, PartialEq, Eq)]
pub struct IncomingMessage {
    pub chat_id: i64,
    pub thread_id: Option<i32>,
    pub message_id: i32,
    /// The sender; some messages have none.
    pub from: Option<Sender>,
    /// The message that this one answers.
    pub reply_to_message_id: Option<i32>,
    /// The text; a message that is not a text message has none.
    pub text: Option<String>,
}

/// A command given to the bot.
#[derive(Debug, PartialEq, Eq)]
pub enum Command {
    /// Say hello.
    Start,
    /// List the commands.
    Help,
    /// Summarize the newest messages; the text after the command says how
    /// many.
    Summarize(String),
    /// Report how much is held in memory.
    Memory,
    /// Say what happens to the messages.
    Privacy,
}

/// What the bot is to do in answer to a command.
#[derive(Debug, PartialEq, Eq)]
pub enum Reply {
    /// Send this text as it is.
    Text(String),
    /// Send this text as MarkdownV2.
    Markdown(String),
    /// Send the list of commands.
    Descriptions,
    /// Send `notice`, have `transcript` summarized, and put what
    /// [`summary_reply`] makes of the outcome in the place of the notice.
    Summarize { notice: String, transcript: String },
}

/// A [`Reply`] with its texts as character sequences.
pub enum ReplyView {
    Text(Seq<char>),
    Markdown(Seq<char>),
    Descriptions,
    Summarize { notice: Seq<char>, transcript: Seq<char> },
}

impl View for Reply {
    type V = ReplyView;

    open spec fn view(&self) -> ReplyView {
        match *self {
            Reply::Text(text) => ReplyView::Text(text@),
            Reply::Markdown(text) => ReplyView::Markdown(text@),
            Reply::Descriptions => ReplyView::Descriptions,
            Reply::Summarize { notice, transcript } => ReplyView::Summarize {
                notice: notice@,
                transcript: transcript@,
            },
        }
    }
}

/// The name a sender is shown by: first name and last name with a space
/// between them, or the first name alone.
pub open spec fn display_name_text(first_name: Seq<char>, last_name: Option<Seq<char>>) -> Seq<
    char,
> {
    match last_name {
        Some(last_name) => first_name + " "@ + last_name,
        None => first_name,
    }
}

/// What is remembered of an incoming message: nothing, unless it has both a
/// text and a sender.
pub open spec fn remembered(
    message_id: i32,
    from: Option<(Seq<char>, Option<Seq<char>>)>,
    reply_to_message_id: Option<i32>,
    text: Option<Seq<char>>,
) -> Option<MessageView> {
    match (text, from) {
        (Some(text), Some(sender)) => Some(
            MessageView {
                message_id,
                from_user: Some(display_name_text(sender.0, sender.1)),
                reply_to_message_id,
                text,
            },
        ),
        _ => None,
    }
}

impl Sender {
    /// The sender's names as character sequences.
    pub open spec fn names(&self) -> (Seq<char>, Option<Seq<char>>) {
        (
            self.first_name@,
            match self.last_name {
                Some(last_name) => Some(last_name@),
                None => None,
            },
        )
    }

    /// The name the sender is shown by.
    pub fn display_name(&self) -> (name: String)
        ensures
            name@ == display_name_text(self.names().0, self.names().1),
    {
        let mut name = self.first_name.clone();
        match &self.last_name {
            Some(last_name) => {
                name.append(" ");
                name.append(last_name.as_str());
            },
            None => {},
        }
        name
    }
}

impl IncomingMessage {
    /// The chat or thread that the message belongs to.
    pub open spec fn key(&self) -> ChatThreadId {
        ChatThreadId { chat_id: self.chat_id, thread_id: self.thread_id }
    }

    /// What is remembered of the message, if anything.
    pub open spec fn remembered(&self) -> Option<MessageView> {
        remembered(
            self.message_id,
            match self.from {
                Some(sender) => Some(sender.names()),
                None => None,
            },
            self.reply_to_message_id,
            match self.text {
                Some(text) => Some(text@),
                None => None,
            },
        )
    }
}

/// Takes note of an incoming message. A text message from a known sender is
/// stored as the newest of its chat or thread, under the sender's display
/// name. Any other message is passed over: the store stays as it is.
pub fn handle_message(store: &mut MessageStore, message: IncomingMessage)
    requires
        old(store).wf(),
    ensures
        final(store).wf(),
        final(store).limit() == old(store).limit(),
        final(store)@ == match message.remembered() {
            Some(saved) => with_message(old(store)@, message.key(), saved, old(store).limit()),
            None => old(store)@,
        },
{
    let IncomingMessage { chat_id, thread_id, message_id, from, reply_to_message_id, text } =
        message;
    match text {
        Some(text) => match from {
            Some(sender) => {
                let saved_message = SavedMessage {
                    message_id,
                    from_user: Some(sender.display_name()),
                    reply_to_message_id,
                    text,
                };
                store.add_message(chat_id, thread_id, saved_message);
            },
            None => {},
        },
        None => {},
    }
}

/// The greeting.
pub open spec fn start_text() -> Seq<char> {
    "Hello!\n\nI can summarize the last n messages in this chat or thread\\.\nUse /summarize <n> to get started\\.\nFor more commands, use /help\\."@
}

/// What the bot says of the messages it keeps.
pub open spec fn privacy_text() -> Seq<char> {
    "This bot stores all messages *only* in memory and *never* writes any data to disk\\.\n\n[Source Code](https://github.com/DuckyBlender/duck_summarizer)"@
}

/// The answer to a request whose number of messages is no number, or none
/// that the store can serve.
pub open spec fn invalid_count_text(capacity: nat) -> Seq<char> {
    "Please provide a valid number between 1 and "@ + decimal(capacity)
}

/// The answer to a request where nothing is retained.
pub open spec fn no_messages_text() -> Seq<char> {
    "No messages to summarize."@
}

/// The notice that `count` messages are being summarized.
pub open spec fn summarizing_text(count: nat) -> Seq<char> {
    "Summarizing "@ + decimal(count) + " messages..."@
}

/// A summary as it is shown: in italics, with its own characters escaped.
pub open spec fn summary_text(summary: Seq<char>) -> Seq<char> {
    "_"@ + markdown_escaped(summary) + "_"@
}

/// What is shown where no summary could be had.
pub open spec fn failure_text() -> Seq<char> {
    "Failed to summarize the conversation."@
}

/// The report on what is held in memory.
pub open spec fn memory_report_text(
    messages: nat,
    chats: nat,
    in_thread: bool,
    current: nat,
    uptime: Seq<char>,
) -> Seq<char> {
    "There are *"@ + decimal(messages) + "* messages in memory from *"@ + decimal(chats)
        + "* different chats/threads\\.\nMessages in this "@ + (if in_thread {
        "thread"@
    } else {
        "chat"@
    }) + ": *"@ + decimal(current) + "*\nUptime: *"@ + markdown_escaped(uptime)
        + "*\n_Messages are *only* saved in memory since bot startup\\._"@
}

/// The reply to a request to summarize in the chat or thread `key`, where
/// `argument` is the text after the command. An argument that is no valid
/// number is turned down whatever the store holds.
pub open spec fn summarize_reply(
    contents: Contents,
    capacity: nat,
    key: ChatThreadId,
    argument: Seq<char>,
) -> ReplyView {
    match requested_count(argument, capacity) {
        None => ReplyView::Text(invalid_count_text(capacity)),
        Some(count) => {
            let snapshot = keep_last(messages_in(contents, key), count);
            if snapshot.len() == 0 {
                ReplyView::Text(no_messages_text())
            } else {
                ReplyView::Summarize {
                    notice: summarizing_text(snapshot.len()),
                    transcript: transcript(snapshot),
                }
            }
        },
    }
}

/// A request whose number of messages is not valid is turned down on the
/// strength of its argument alone: whatever the store holds, and whichever
/// chat or thread it comes from, the reply is the same.
pub proof fn lemma_invalid_count_ignores_store(
    argument: Seq<char>,
    capacity: nat,
    contents: Contents,
    key: ChatThreadId,
    other_contents: Contents,
    other_key: ChatThreadId,
)
    requires
        requested_count(argument, capacity) is None,
    ensures
        summarize_reply(contents, capacity, key, argument) == ReplyView::Text(
            invalid_count_text(capacity),
        ),
        summarize_reply(contents, capacity, key, argument) == summarize_reply(
            other_contents,
            capacity,
            other_key,
            argument,
        ),
{
}

/// The reply to a request for the memory report in the chat or thread `key`,
/// at a moment when the uptime reads `uptime`.
pub open spec fn memory_reply(contents: Contents, key: ChatThreadId, uptime: Seq<char>) -> ReplyView {
    ReplyView::Markdown(
        memory_report_text(
            total_messages(contents),
            contents.dom().len(),
            key.thread_id is Some,
            messages_in(contents, key).len(),
            uptime,
        ),
    )
}

/// Writes the report on what is held in memory: the counts of `stats`, the
/// number of messages `current` in this chat, or in this thread if
/// `in_thread`, and the uptime.
pub fn memory_report(stats: StoreStats, in_thread: bool, current: usize, uptime: &str) -> (report:
    String)
    ensures
        report@ == memory_report_text(
            stats.messages as nat,
            stats.chats as nat,
            in_thread,
            current as nat,
            uptime@,
        ),
{
    let mut report = "There are *".to_owned();
    push_decimal(&mut report, stats.messages);
    report.append("* messages in memory from *");
    push_decimal(&mut report, stats.chats as u128);
    report.append("* different chats/threads\\.\nMessages in this ");
    if in_thread {
        report.append("thread");
    } else {
        report.append("chat");
    }
    report.append(": *");
    push_decimal(&mut report, current as u128);
    report.append("*\nUptime: *");
    let escaped = escape_markdown(uptime);
    report.append(escaped.as_str());
    report.append("*\n_Messages are *only* saved in memory since bot startup\\._");
    report
}

/// Decides the reply to a command given in a chat or thread. The store is
/// only read.
pub fn handle_command(
    store: &MessageStore,
    chat_id: i64,
    thread_id: Option<i32>,
    command: &Command,
) -> (reply: Reply)
    requires
        store.wf(),
    ensures
        match *command {
            Command::Start => reply@ == ReplyView::Text(start_text()),
            Command::Help => reply@ == ReplyView::Descriptions,
            Command::Summarize(argument) => reply@ == summarize_reply(
                store@,
                store.limit(),
                ChatThreadId { chat_id, thread_id },
                argument@,
            ),
            Command::Memory => exists|uptime: Seq<char>|
                is_uptime_text(uptime) && reply@ == #[trigger] memory_reply(
                    store@,
                    ChatThreadId { chat_id, thread_id },
                    uptime,
                ),
            Command::Privacy => reply@ == ReplyView::Markdown(privacy_text()),
        },
{
    match command {
        Command::Start => Reply::Text(
            "Hello!\n\nI can summarize the last n messages in this chat or thread\\.\nUse /summarize <n> to get started\\.\nFor more commands, use /help\\.".to_owned(),
        ),
        Command::Help => Reply::Descriptions,
        Command::Summarize(argument) => {
            match parse_count(argument.as_str(), store.capacity()) {
                None => {
                    let mut text = "Please provide a valid number between 1 and ".to_owned();
                    push_decimal(&mut text, store.capacity() as u128);
                    Reply::Text(text)
                },
                Some(count) => {
                    let messages = store.get_last_n_messages(chat_id, thread_id, count);
                    if messages.len() == 0 {
                        Reply::Text("No messages to summarize.".to_owned())
                    } else {
                        let mut notice = "Summarizing ".to_owned();
                        push_decimal(&mut notice, messages.len() as u128);
                        notice.append(" messages...");
                        Reply::Summarize { notice, transcript: render(messages.as_slice()) }
                    }
                },
            }
        },
        Command::Memory => {
            let stats = store.stats();
            let current = store.count_for(chat_id, thread_id);
            let uptime = store.get_uptime();
            let report = memory_report(stats, thread_id.is_some(), current, uptime.as_str());
            let reply = Reply::Markdown(report);
            assert(reply@ == memory_reply(store@, ChatThreadId { chat_id, thread_id }, uptime@));
            reply
        },
        Command::Privacy => Reply::Markdown(
            "This bot stores all messages *only* in memory and *never* writes any data to disk\\.\n\n[Source Code](https://github.com/DuckyBlender/duck_summarizer)".to_owned(),
        ),
    }
}

/// Decides what takes the place of the notice once the summarizer has
/// answered: the summary in italics, or, where there is none, a plain
/// sentence that says so.
pub fn summary_reply(summary: Option<String>) -> (reply: Reply)
    ensures
        reply@ == match summary {
            Some(summary) => ReplyView::Markdown(summary_text(summary@)),
            None => ReplyView::Text(failure_text()),
        },
{
    match summary {
        Some(summary) => {
            let mut text = "_".to_owned();
            let escaped = escape_markdown(summary.as_str());
            text.append(escaped.as_str());
            text.append("_");
            Reply::Markdown(text)
        },
        None => Reply::Text("Failed to summarize the conversation.".to_owned()),
    }
}

/// Picks the summary out of what the summarizer returned: its first choice,
/// if it made any.
pub fn first_choice(choices: &Vec<String>) -> (summary: Option<String>)
    ensures
        choices@.len() == 0 ==> summary is None,
        choices@.len() > 0 ==> (summary matches Some(text) && text@ == choices@[0]@),
{
    if choices.len() == 0 {
        None
    } else {
        Some(choices[0].clone())
    }
}

} // verus!
