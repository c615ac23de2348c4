//! The transcript renderer: a window of messages flattened into text, one
//! line per message, for the summarizer to read.

use crate::message::{MessageView, SavedMessage};
use vstd::prelude::*;
use vstd::string::StringExecFns;

verus! {

/// The name a message is attributed to: its sender's, or `Unknown` where the
/// sender is not known.
pub open spec fn author_label(from_user: Option<Seq<char>>) -> Seq<char> {
    match from_user {
        Some(name) => name,
        None => "Unknown"@,
    }
}

/// `text` with every line feed replaced by a backslash and the letter `n`.
pub open spec fn escape_newlines(text: Seq<char>) -> Seq<char>
    decreases text.len(),
{
    if text.len() == 0 {
        Seq::empty()
    } else if text.last() == '\n' {
        escape_newlines(text.drop_last()) + seq!['\\', 'n']
    } else {
        escape_newlines(text.drop_last()).push(text.last())
    }
}

/// Whom a reply to message `id` is addressed to: the label of the first
/// message in the snapshot that has this id, or `someone` where the snapshot
/// holds no such message.
pub open spec fn reply_target(snapshot: Seq<MessageView>, id: i32) -> Seq<char>
    decreases snapshot.len(),
{
    if snapshot.len() == 0 {
        "someone"@
    } else if snapshot.first().message_id == id {
        author_label(snapshot.first().from_user)
    } else {
        reply_target(snapshot.drop_first(), id)
    }
}

/// The line for one message of a snapshot, with the line feed that ends it.
pub open spec fn line(snapshot: Seq<MessageView>, message: MessageView) -> Seq<char> {
    author_label(message.from_user) + match message.reply_to_message_id {
        Some(id) => " (replying to "@ + reply_target(snapshot, id) + ")"@,
        None => Seq::empty(),
    } + ": "@ + escape_newlines(message.text) + seq!['\n']
}

/// The lines of the first `n` messages of a snapshot, in their order.
pub open spec fn transcript_of_first(snapshot: Seq<MessageView>, n: nat) -> Seq<char>
    decreases n,
{
    if n == 0 {
        Seq::empty()
    } else {
        transcript_of_first(snapshot, (n - 1) as nat) + line(snapshot, snapshot[n - 1])
    }
}

/// The transcript of a snapshot: the lines of all its messages, oldest first.
pub open spec fn transcript(snapshot: Seq<MessageView>) -> Seq<char> {
    transcript_of_first(snapshot, snapshot.len())
}

fn push_author(out: &mut String, from_user: &Option<String>)
    ensures
        final(out)@ == old(out)@ + author_label(
            match *from_user {
                Some(name) => Some(name@),
                None => None,
            },
        ),
{
    match from_user {
        Some(name) => out.append(name.as_str()),
        None => out.append("Unknown"),
    }
}

fn push_escaped(out: &mut String, text: &str)
    ensures
        final(out)@ == old(out)@ + escape_newlines(text@),
{
    for c in it: text.chars()
        invariant
            it.seq() == text@,
            out@ == old(out)@ + escape_newlines(text@.take(it.index())),
    {
        assert(text@.take(it.index() + 1).drop_last() =~= text@.take(it.index()));
        if c == '\n' {
            out.push('\\');
            out.push('n');
        } else {
            out.push(c);
        }
        assert(out@ =~= old(out)@ + escape_newlines(text@.take(it.index() + 1)));
    }
    assert(text@.take(text@.len() as int) =~= text@);
}

fn push_reply_target(out: &mut String, messages: &[SavedMessage], id: i32)
    ensures
        final(out)@ == old(out)@ + reply_target(messages.deep_view(), id),
{
    let ghost snapshot = messages.deep_view();
    let mut i: usize = 0;
    assert(snapshot.skip(0) =~= snapshot);
    while i < messages.len()
        invariant
            i <= messages.len(),
            snapshot == messages.deep_view(),
            out@ == old(out)@,
            reply_target(snapshot, id) == reply_target(snapshot.skip(i as int), id),
        decreases messages.len() - i,
    {
        assert(snapshot.skip(i as int).drop_first() =~= snapshot.skip(i + 1));
        if messages[i].message_id == id {
            push_author(out, &messages[i].from_user);
            return ;
        }
        i = i + 1;
    }
    out.append("someone");
}

/// Renders a snapshot as a transcript: for each message, oldest first, one
/// line `author: text`, or `author (replying to target): text` for a reply.
/// The target is looked up in the snapshot itself. Line feeds inside a
/// message are written as a backslash and `n`, so every message takes one
/// line; each line, the last too, ends with a line feed.
pub fn render(messages: &[SavedMessage]) -> (text: String)
    ensures
        text@ == transcript(messages.deep_view()),
{
    let ghost snapshot = messages.deep_view();
    let mut text = String::new();
    let mut i: usize = 0;
    while i < messages.len()
        invariant
            i <= messages.len(),
            snapshot == messages.deep_view(),
            text@ == transcript_of_first(snapshot, i as nat),
        decreases messages.len() - i,
    {
        let ghost before = text@;
        let message = &messages[i];
        push_author(&mut text, &message.from_user);
        match message.reply_to_message_id {
            Some(id) => {
                text.append(" (replying to ");
                push_reply_target(&mut text, messages, id);
                text.append(")");
            },
            None => {},
        }
        text.append(": ");
        push_escaped(&mut text, message.text.as_str());
        text.push('\n');
        assert(text@ =~= before + line(snapshot, snapshot[i as int]));
        i = i + 1;
    }
    text
}

/// The number of line feeds in `text`.
pub open spec fn count_newlines(text: Seq<char>) -> nat
    decreases text.len(),
{
    if text.len() == 0 {
        0
    } else if text.last() == '\n' {
        count_newlines(text.drop_last()) + 1
    } else {
        count_newlines(text.drop_last())
    }
}

/// Whether every message of the snapshot is attributed to a name without a
/// line feed in it.
pub open spec fn names_on_one_line(snapshot: Seq<MessageView>) -> bool {
    forall|i: int|
        0 <= i < snapshot.len() ==> count_newlines(
            author_label((#[trigger] snapshot[i]).from_user),
        ) == 0
}

proof fn lemma_count_concat(head: Seq<char>, tail: Seq<char>)
    ensures
        count_newlines(head + tail) == count_newlines(head) + count_newlines(tail),
    decreases tail.len(),
{
    if tail.len() == 0 {
        assert(head + tail =~= head);
    } else {
        assert((head + tail).drop_last() =~= head + tail.drop_last());
        lemma_count_concat(head, tail.drop_last());
    }
}

proof fn lemma_count_none(text: Seq<char>)
    requires
        forall|i: int| 0 <= i < text.len() ==> text[i] != '\n',
    ensures
        count_newlines(text) == 0,
    decreases text.len(),
{
    if text.len() > 0 {
        lemma_count_none(text.drop_last());
    }
}

proof fn lemma_fixed_words_have_no_newline()
    ensures
        count_newlines("Unknown"@) == 0,
        count_newlines("someone"@) == 0,
        count_newlines(" (replying to "@) == 0,
        count_newlines(")"@) == 0,
        count_newlines(": "@) == 0,
{
    reveal_strlit("Unknown");
    reveal_strlit("someone");
    reveal_strlit(" (replying to ");
    reveal_strlit(")");
    reveal_strlit(": ");
    lemma_count_none("Unknown"@);
    lemma_count_none("someone"@);
    lemma_count_none(" (replying to "@);
    lemma_count_none(")"@);
    lemma_count_none(": "@);
}

/// No line feed is left in an escaped text.
pub proof fn lemma_escaped_has_no_newline(text: Seq<char>)
    ensures
        count_newlines(escape_newlines(text)) == 0,
    decreases text.len(),
{
    if text.len() > 0 {
        lemma_escaped_has_no_newline(text.drop_last());
        if text.last() == '\n' {
            lemma_count_none(seq!['\\', 'n']);
            lemma_count_concat(escape_newlines(text.drop_last()), seq!['\\', 'n']);
        } else {
            assert(escape_newlines(text).drop_last() =~= escape_newlines(text.drop_last()));
        }
    }
}

proof fn lemma_reply_target_has_no_newline(snapshot: Seq<MessageView>, id: i32)
    requires
        names_on_one_line(snapshot),
    ensures
        count_newlines(reply_target(snapshot, id)) == 0,
    decreases snapshot.len(),
{
    lemma_fixed_words_have_no_newline();
    if snapshot.len() > 0 {
        assert(snapshot.first() == snapshot[0]);
        if snapshot.first().message_id != id {
            let rest = snapshot.drop_first();
            assert forall|i: int| 0 <= i < rest.len() implies count_newlines(
                author_label((#[trigger] rest[i]).from_user),
            ) == 0 by {
                assert(rest[i] == snapshot[i + 1]);
            }
            lemma_reply_target_has_no_newline(rest, id);
        }
    }
}

/// A message takes exactly one line, whatever its text holds: the only line
/// feed of its line is the one that ends it. This asks that no name in the
/// snapshot holds a line feed, as names are written out as they are.
pub proof fn lemma_line_is_one_line(snapshot: Seq<MessageView>, message: MessageView)
    requires
        names_on_one_line(snapshot),
        count_newlines(author_label(message.from_user)) == 0,
    ensures
        count_newlines(line(snapshot, message)) == 1,
        line(snapshot, message).last() == '\n',
{
    lemma_fixed_words_have_no_newline();
    lemma_escaped_has_no_newline(message.text);
    let author = author_label(message.from_user);
    let reply = match message.reply_to_message_id {
        Some(id) => " (replying to "@ + reply_target(snapshot, id) + ")"@,
        None => Seq::empty(),
    };
    assert(count_newlines(reply) == 0) by {
        match message.reply_to_message_id {
            Some(id) => {
                lemma_reply_target_has_no_newline(snapshot, id);
                lemma_count_concat(" (replying to "@, reply_target(snapshot, id));
                lemma_count_concat(" (replying to "@ + reply_target(snapshot, id), ")"@);
            },
            None => {},
        }
    }
    lemma_count_concat(author, reply);
    lemma_count_concat(author + reply, ": "@);
    lemma_count_concat(author + reply + ": "@, escape_newlines(message.text));
    let body = author + reply + ": "@ + escape_newlines(message.text);
    assert(line(snapshot, message) == body + seq!['\n']);
    assert((body + seq!['\n']).drop_last() =~= body);
}

/// The transcript has as many lines as the snapshot has messages, where no
/// name in the snapshot holds a line feed.
pub proof fn lemma_one_line_per_message(snapshot: Seq<MessageView>)
    requires
        names_on_one_line(snapshot),
    ensures
        count_newlines(transcript(snapshot)) == snapshot.len(),
{
    lemma_lines_of_first(snapshot, snapshot.len());
}

proof fn lemma_lines_of_first(snapshot: Seq<MessageView>, n: nat)
    requires
        names_on_one_line(snapshot),
        n <= snapshot.len(),
    ensures
        count_newlines(transcript_of_first(snapshot, n)) == n,
    decreases n,
{
    if n > 0 {
        lemma_lines_of_first(snapshot, (n - 1) as nat);
        lemma_line_is_one_line(snapshot, snapshot[n - 1]);
        lemma_count_concat(
            transcript_of_first(snapshot, (n - 1) as nat),
            line(snapshot, snapshot[n - 1]),
        );
    }
}

/// Reply resolution: a reply to a message that the snapshot holds names that
/// message's author, by the label of the first message with the id; a reply
/// to a message that it does not hold names `someone`.
pub proof fn lemma_reply_resolution(snapshot: Seq<MessageView>, id: i32)
    ensures
        (forall|i: int| 0 <= i < snapshot.len() ==> (#[trigger] snapshot[i]).message_id != id)
            ==> reply_target(snapshot, id) == "someone"@,
        forall|i: int|
            0 <= i < snapshot.len() && (#[trigger] snapshot[i]).message_id == id && (forall|j: int|
                0 <= j < i ==> (#[trigger] snapshot[j]).message_id != id) ==> reply_target(
                snapshot,
                id,
            ) == author_label(snapshot[i].from_user),
    decreases snapshot.len(),
{
    if snapshot.len() > 0 {
        let rest = snapshot.drop_first();
        lemma_reply_resolution(rest, id);
        assert(snapshot.first() == snapshot[0]);
        if snapshot.first().message_id != id {
            assert forall|i: int|
                0 <= i < snapshot.len() && (#[trigger] snapshot[i]).message_id == id && (forall|
                    j: int,
                | 0 <= j < i ==> (#[trigger] snapshot[j]).message_id != id) implies reply_target(
                snapshot,
                id,
            ) == author_label(snapshot[i].from_user) by {
                assert(rest[i - 1] == snapshot[i]);
                assert forall|j: int| 0 <= j < i - 1 implies (#[trigger] rest[j]).message_id
                    != id by {
                    assert(rest[j] == snapshot[j + 1]);
                }
            }
            if forall|i: int| 0 <= i < snapshot.len() ==> (#[trigger] snapshot[i]).message_id != id {
                assert forall|i: int| 0 <= i < rest.len() implies (#[trigger] rest[i]).message_id
                    != id by {
                    assert(rest[i] == snapshot[i + 1]);
                }
            }
        } else {
            assert forall|i: int|
                0 <= i < snapshot.len() && (#[trigger] snapshot[i]).message_id == id && (forall|
                    j: int,
                | 0 <= j < i ==> (#[trigger] snapshot[j]).message_id != id) implies reply_target(
                snapshot,
                id,
            ) == author_label(snapshot[i].from_user) by {
                if i > 0 {
                    assert(snapshot[0].message_id != id);
                }
            }
        }
    }
}

/// Rendering is a function of what the snapshot holds: two snapshots whose
/// messages agree one by one have one and the same transcript.
pub proof fn lemma_render_deterministic(first: Vec<SavedMessage>, second: Vec<SavedMessage>)
    requires
        first@.len() == second@.len(),
        forall|i: int| 0 <= i < first@.len() ==> first@[i]@ == second@[i]@,
    ensures
        transcript(first.deep_view()) == transcript(second.deep_view()),
{
    assert(first.deep_view() =~= second.deep_view());
}

} // verus!
