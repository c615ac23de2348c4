//! The bounded conversation store: for every chat and thread, the newest
//! messages up to a fixed capacity, oldest evicted first.

use crate::clock::utc_now;
use crate::message::{ChatThreadId, MessageView, SavedMessage};
use crate::uptime::{format_uptime, is_uptime_text};
use crate::window::{append, append_all, keep_last, lemma_bounded_fifo};
use chrono::NaiveDateTime;
use std::collections::hash_map::Entry;
use std::collections::{HashMap, VecDeque};
use vstd::prelude::*;
use vstd::std_specs::iter::IteratorSpec;

verus! {

broadcast use vstd::std_specs::hash::group_hash_axioms;

/// How many messages a store made by [`MessageStore::new`] keeps per chat or
/// thread.
pub const MAX_MESSAGES: usize = 1000;

/// What the store retains, as mathematics: for each key that was ever
/// written, its messages from oldest to newest.
pub type Contents = Map<ChatThreadId, Seq<MessageView>>;

/// The messages retained under `key`, oldest first; none for a key that was
/// never written.
pub open spec fn messages_in(contents: Contents, key: ChatThreadId) -> Seq<MessageView> {
    if contents.contains_key(key) {
        contents[key]
    } else {
        Seq::empty()
    }
}

/// The contents after `message` has arrived under `key` in a store that
/// keeps `capacity` messages per key.
pub open spec fn with_message(
    contents: Contents,
    key: ChatThreadId,
    message: MessageView,
    capacity: nat,
) -> Contents {
    contents.insert(key, append(messages_in(contents, key), message, capacity))
}

/// The contents after each of `arrivals` has arrived under `key`, in turn.
pub open spec fn with_messages(
    contents: Contents,
    key: ChatThreadId,
    arrivals: Seq<MessageView>,
    capacity: nat,
) -> Contents
    decreases arrivals.len(),
{
    if arrivals.len() == 0 {
        contents
    } else {
        with_message(
            with_messages(contents, key, arrivals.drop_last(), capacity),
            key,
            arrivals.last(),
            capacity,
        )
    }
}

/// Adds the number of messages under `key` to a running sum.
pub open spec fn count_into(contents: Contents) -> spec_fn(nat, ChatThreadId) -> nat {
    |sum: nat, key: ChatThreadId| sum + contents[key].len()
}

/// The number of messages retained under all keys together.
pub open spec fn total_messages(contents: Contents) -> nat {
    contents.dom().fold(0nat, count_into(contents))
}

/// Messages that arrive under one key form a bounded queue there: its
/// window is the window of the arrivals.
proof fn lemma_arrivals_fill_window(
    contents: Contents,
    key: ChatThreadId,
    arrivals: Seq<MessageView>,
    capacity: nat,
)
    ensures
        messages_in(with_messages(contents, key, arrivals, capacity), key) == append_all(
            messages_in(contents, key),
            arrivals,
            capacity,
        ),
    decreases arrivals.len(),
{
    if arrivals.len() > 0 {
        lemma_arrivals_fill_window(contents, key, arrivals.drop_last(), capacity);
    }
}

/// Bounded first-in-first-out, per key: after any number of messages have
/// arrived under `key`, and after each one of them, the key holds at most
/// `capacity` messages, and a tail query for as many as it holds returns
/// exactly the newest `capacity` (or fewer) of what it held before and what
/// arrived, in arrival order. A message older than that cannot be had.
pub proof fn lemma_store_bounded_fifo(
    contents: Contents,
    key: ChatThreadId,
    arrivals: Seq<MessageView>,
    capacity: nat,
)
    requires
        messages_in(contents, key).len() <= capacity,
    ensures
        forall|calls: int|
            #![trigger arrivals.take(calls)]
            0 <= calls <= arrivals.len() ==> {
                let retained = messages_in(
                    with_messages(contents, key, arrivals.take(calls), capacity),
                    key,
                );
                &&& retained.len() <= capacity
                &&& keep_last(retained, retained.len()) == keep_last(
                    messages_in(contents, key) + arrivals.take(calls),
                    capacity,
                )
            },
{
    assert forall|calls: int| #![trigger arrivals.take(calls)] 0 <= calls <= arrivals.len() implies {
        let retained = messages_in(
            with_messages(contents, key, arrivals.take(calls), capacity),
            key,
        );
        &&& retained.len() <= capacity
        &&& keep_last(retained, retained.len()) == keep_last(
            messages_in(contents, key) + arrivals.take(calls),
            capacity,
        )
    } by {
        lemma_arrivals_fill_window(contents, key, arrivals.take(calls), capacity);
        lemma_bounded_fifo(messages_in(contents, key), arrivals.take(calls), capacity);
    }
}

/// Per-key isolation: a message that arrives under `key` changes nothing
/// under any other key. Its count and every tail query on it answer as
/// before.
pub proof fn lemma_other_keys_untouched(
    contents: Contents,
    key: ChatThreadId,
    message: MessageView,
    capacity: nat,
    other: ChatThreadId,
    n: nat,
)
    requires
        other != key,
    ensures
        with_message(contents, key, message, capacity).contains_key(other)
            == contents.contains_key(other),
        messages_in(with_message(contents, key, message, capacity), other) == messages_in(
            contents,
            other,
        ),
        messages_in(with_message(contents, key, message, capacity), other).len() == messages_in(
            contents,
            other,
        ).len(),
        keep_last(messages_in(with_message(contents, key, message, capacity), other), n)
            == keep_last(messages_in(contents, other), n),
{
}

/// The integer under which a key is filed: the chat in the high part, and in
/// the low part zero for the main line or the thread's number moved into
/// `1..=2^32`.
spec fn key_code(key: ChatThreadId) -> i128 {
    (key.chat_id * 0x2_0000_0000 + match key.thread_id {
        Some(thread) => thread + 0x8000_0001,
        None => 0,
    }) as i128
}

/// The key that is filed under `code`, where there is one.
spec fn key_of(code: i128) -> ChatThreadId {
    ChatThreadId {
        chat_id: (code / 0x2_0000_0000) as i64,
        thread_id: if code % 0x2_0000_0000 == 0 {
            None
        } else {
            Some((code % 0x2_0000_0000 - 0x8000_0001) as i32)
        },
    }
}

/// Distinct keys are filed under distinct integers: the key can be read back
/// from its code.
proof fn lemma_key_code_inverse(key: ChatThreadId)
    ensures
        key_of(key_code(key)) == key,
{
}

fn encode_key(chat_id: i64, thread_id: Option<i32>) -> (code: i128)
    ensures
        code == key_code(ChatThreadId { chat_id, thread_id }),
{
    let low: i128 = match thread_id {
        Some(thread) => thread as i128 + 0x8000_0001,
        None => 0,
    };
    chat_id as i128 * 0x2_0000_0000 + low
}

/// Aggregate counts over a store.
#[derive(Clone, Copy, Debug, PartialEq, Eq)]
pub struct StoreStats {
    /// Chats and threads that were ever written.
    pub chats: usize,
    /// Messages retained in all of them together.
    pub messages: u128,
}

/// Recent messages of every chat and thread, each in a window of its own
/// that holds at most `capacity()` messages.
pub struct MessageStore {
    chats: HashMap<i128, VecDeque<SavedMessage>>,
    capacity: usize,
    startup_time: NaiveDateTime,
}

impl View for MessageStore {
    type V = Contents;

    closed spec fn view(&self) -> Contents {
        Map::new(
            |key: ChatThreadId| self.chats@.contains_key(key_code(key)),
            |key: ChatThreadId| self.chats@[key_code(key)].deep_view(),
        )
    }
}

impl MessageStore {
    /// The store's invariant: every window is filed under the code of a key
    /// and holds no more than the capacity.
    pub closed spec fn wf(&self) -> bool {
        forall|code: i128| #[trigger]
            self.chats@.contains_key(code) ==> key_code(key_of(code)) == code
                && self.chats@[code]@.len() <= self.capacity
    }

    /// The number of messages kept per chat or thread.
    pub closed spec fn limit(&self) -> nat {
        self.capacity as nat
    }

    /// An empty store that keeps [`MAX_MESSAGES`] messages per chat or thread.
    pub fn new() -> (store: Self)
        ensures
            store.wf(),
            store.limit() == MAX_MESSAGES,
            store@ == Contents::empty(),
    {
        Self::with_capacity(MAX_MESSAGES)
    }

    /// An empty store that keeps `capacity` messages per chat or thread.
    pub fn with_capacity(capacity: usize) -> (store: Self)
        ensures
            store.wf(),
            store.limit() == capacity,
            store@ == Contents::empty(),
    {
        let store = MessageStore { chats: HashMap::new(), capacity, startup_time: utc_now() };
        assert(store@ =~= Contents::empty());
        store
    }

    /// The number of messages kept per chat or thread.
    pub fn capacity(&self) -> (capacity: usize)
        ensures
            capacity == self.limit(),
    {
        self.capacity
    }

    /// Stores `message` as the newest of its chat or thread. Where the
    /// window is full its oldest message leaves first. No other chat or
    /// thread is touched.
    pub fn add_message(&mut self, chat_id: i64, thread_id: Option<i32>, message: SavedMessage)
        requires
            old(self).wf(),
        ensures
            final(self).wf(),
            final(self).limit() == old(self).limit(),
            final(self)@ == with_message(
                old(self)@,
                ChatThreadId { chat_id, thread_id },
                message@,
                old(self).limit(),
            ),
    {
        let ghost key = ChatThreadId { chat_id, thread_id };
        let code = encode_key(chat_id, thread_id);
        let capacity = self.capacity;
        let chat_messages = match self.chats.entry(code) {
            Entry::Occupied(slot) => slot.into_mut(),
            Entry::Vacant(slot) => slot.insert(VecDeque::new()),
        };
        let ghost before = chat_messages.deep_view();
        if capacity > 0 {
            if chat_messages.len() >= capacity {
                chat_messages.pop_front();
            }
            chat_messages.push_back(message);
        }
        proof {
            assert(chat_messages.deep_view() =~= append(before, message@, capacity as nat));
            lemma_key_code_inverse(key);
            assert forall|other: ChatThreadId| other != key implies key_code(other) != code by {
                lemma_key_code_inverse(other);
            }
        }
        assert(before =~= messages_in(old(self)@, key));
        assert(self@ =~= with_message(old(self)@, key, message@, capacity as nat));
    }

    /// The number of messages retained for a chat or thread; zero if it was
    /// never written.
    pub fn count_for(&self, chat_id: i64, thread_id: Option<i32>) -> (count: usize)
        requires
            self.wf(),
        ensures
            count == messages_in(self@, ChatThreadId { chat_id, thread_id }).len(),
            count <= self.limit(),
    {
        let code = encode_key(chat_id, thread_id);
        match self.chats.get(&code) {
            Some(messages) => messages.len(),
            None => 0,
        }
    }

    /// Copies of the newest `n` messages of a chat or thread, oldest first:
    /// all of them if there are no more than `n`, none for a chat or thread
    /// that was never written.
    pub fn get_last_n_messages(&self, chat_id: i64, thread_id: Option<i32>, n: usize) -> (messages:
        Vec<SavedMessage>)
        requires
            self.wf(),
        ensures
            messages.deep_view() == keep_last(
                messages_in(self@, ChatThreadId { chat_id, thread_id }),
                n as nat,
            ),
    {
        let ghost key = ChatThreadId { chat_id, thread_id };
        let code = encode_key(chat_id, thread_id);
        let mut messages: Vec<SavedMessage> = Vec::new();
        match self.chats.get(&code) {
            Some(stored) => {
                let len = stored.len();
                let count = if n < len { n } else { len };
                let mut i: usize = len - count;
                while i < len
                    invariant
                        len == stored@.len(),
                        count <= len,
                        len - count <= i <= len,
                        messages@ == stored@.subrange(len - count, i as int),
                    decreases len - i,
                {
                    messages.push(stored[i].clone());
                    i = i + 1;
                }
                assert(messages.deep_view() =~= keep_last(stored.deep_view(), n as nat));
            },
            None => {
                assert(messages.deep_view() =~= keep_last(Seq::<MessageView>::empty(), n as nat));
            },
        }
        messages
    }

    /// How many chats and threads the store knows, and how many messages it
    /// retains in all of them together.
    pub fn stats(&self) -> (stats: StoreStats)
        requires
            self.wf(),
        ensures
            stats.chats == self@.dom().len(),
            stats.messages == total_messages(self@),
    {
        let mut total: u128 = 0;
        let ghost mut seen: Set<ChatThreadId> = Set::empty();
        let ghost pairs = self.chats.iter().remaining();
        let ghost mut done: int = 0;
        proof {
            vstd::set::fold::lemma_fold_empty(0nat, count_into(self@));
            assert(pairs.len() == self.chats@.dom().len());
            assert(self.chats@.len() == self.chats.len());
        }
        for entry in it: self.chats.iter()
            invariant
                self.wf(),
                it.seq() == pairs,
                it.index() == done,
                pairs.no_duplicates(),
                pairs.len() <= usize::MAX,
                seen.finite(),
                forall|key: ChatThreadId|
                    seen.contains(key) <==> exists|j: int|
                        0 <= j < done && key == key_of(*(#[trigger] pairs[j]).0),
                total == seen.fold(0nat, count_into(self@)),
                total <= done * usize::MAX,
        {
            let ghost code = *entry.0;
            let ghost key = key_of(code);
            proof {
                assert(entry == it.seq()[it.index()]);
                assert(self.chats@.contains_key(code) && self.chats@[code] == *entry.1);
                assert(!seen.contains(key)) by {
                    if seen.contains(key) {
                        let j = choose|j: int|
                            0 <= j < done && key == key_of(*(#[trigger] pairs[j]).0);
                        let twin = *pairs[j].0;
                        assert(self.chats@.contains_key(twin));
                        assert(pairs[j] == pairs[done]);
                    }
                }
                assert(vstd::set::fold::is_fun_commutative(count_into(self@)));
                vstd::set::fold::lemma_fold_insert(seen, 0nat, count_into(self@), key);
                assert(self@[key].len() == entry.1@.len());
                seen = seen.insert(key);
                done = done + 1;
            }
            total = total + entry.1.len() as u128;
        }
        proof {
            self.lemma_keys_counted();
            assert(done == pairs.len());
            assert(seen =~= self@.dom()) by {
                assert forall|key: ChatThreadId| seen.contains(key) implies self@.dom().contains(
                    key,
                ) by {
                    let j = choose|j: int|
                        0 <= j < done && key == key_of(*(#[trigger] pairs[j]).0);
                    assert(self.chats@.contains_key(*pairs[j].0));
                }
                assert forall|key: ChatThreadId| self@.dom().contains(key) implies seen.contains(
                    key,
                ) by {
                    let code = key_code(key);
                    lemma_key_code_inverse(key);
                    let pair = (&code, &self.chats@[code]);
                    assert(pairs.contains(pair));
                    let j = choose|j: int| 0 <= j < pairs.len() && pairs[j] == pair;
                    assert(key == key_of(*pairs[j].0));
                }
            }
        }
        StoreStats { chats: self.chats.len(), messages: total }
    }

    /// The time since the store was made, as [`format_uptime`] writes it.
    /// Which time that is depends on the clock alone.
    pub fn get_uptime(&self) -> (text: String)
        ensures
            is_uptime_text(text@),
    {
        let now = utc_now();
        let duration = now.signed_duration_since(self.startup_time);
        format_uptime(
            duration.num_days(),
            duration.num_hours(),
            duration.num_minutes(),
            duration.num_seconds(),
        )
    }

    /// The store knows as many keys as its table has entries.
    proof fn lemma_keys_counted(&self)
        requires
            self.wf(),
        ensures
            self@.dom().finite(),
            self@.dom().len() == self.chats@.dom().len(),
    {
        let codes = self.chats@.dom();
        let decode = |code: i128| key_of(code);
        assert(self@.dom() =~= codes.map(decode)) by {
            assert forall|key: ChatThreadId| self@.dom().contains(key) implies codes.map(
                decode,
            ).contains(key) by {
                lemma_key_code_inverse(key);
                assert(codes.contains(key_code(key)) && decode(key_code(key)) == key);
            }
        }
        assert(vstd::relations::injective_on(decode, codes)) by {
            assert forall|a: i128, b: i128|
                codes.contains(a) && codes.contains(b) && #[trigger] decode(a) == #[trigger] decode(
                    b,
                ) implies a == b by {
                assert(key_code(key_of(a)) == a && key_code(key_of(b)) == b);
            }
        }
        vstd::set_lib::lemma_map_size(codes, self@.dom(), decode);
    }
}

} // verus!
