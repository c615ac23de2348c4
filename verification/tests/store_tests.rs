use duck_summarizer::command::{handle_command, Command, Reply};
use duck_summarizer::message::SavedMessage;
use duck_summarizer::store::{MessageStore, StoreStats, MAX_MESSAGES};

fn message(id: i32) -> SavedMessage {
    SavedMessage {
        message_id: id,
        from_user: Some(format!("user{}", id)),
        reply_to_message_id: None,
        text: format!("text {}", id),
    }
}

fn ids(messages: &[SavedMessage]) -> Vec<i32> {
    messages.iter().map(|m| m.message_id).collect()
}

#[test]
fn end_to_end_capacity_three() {
    let mut store = MessageStore::with_capacity(3);
    for id in 1..=4 {
        store.add_message(7, None, message(id));
    }
    assert_eq!(store.count_for(7, None), 3);
    assert_eq!(ids(&store.get_last_n_messages(7, None, 10)), vec![2, 3, 4]);

    let reply = handle_command(&store, 7, None, &Command::Summarize("2".to_string()));
    assert_eq!(
        reply,
        Reply::Summarize {
            notice: "Summarizing 2 messages...".to_string(),
            transcript: "user3: text 3\nuser4: text 4\n".to_string(),
        }
    );
}

#[test]
fn window_holds_the_newest_after_every_append() {
    let capacity = 5;
    let mut store = MessageStore::with_capacity(capacity);
    let mut arrived: Vec<i32> = Vec::new();
    for id in 1..=23 {
        store.add_message(-100, Some(9), message(id));
        arrived.push(id);
        let count = store.count_for(-100, Some(9));
        assert!(count <= capacity);
        let newest: Vec<i32> = arrived.iter().rev().take(capacity).rev().cloned().collect();
        assert_eq!(ids(&store.get_last_n_messages(-100, Some(9), count)), newest);
    }
    assert_eq!(ids(&store.get_last_n_messages(-100, Some(9), capacity)), vec![19, 20, 21, 22, 23]);
}

#[test]
fn evicted_message_cannot_be_had() {
    let mut store = MessageStore::with_capacity(2);
    for id in 1..=3 {
        store.add_message(1, None, message(id));
    }
    let all = store.get_last_n_messages(1, None, usize::MAX);
    assert_eq!(ids(&all), vec![2, 3]);
    assert!(all.iter().all(|m| m.message_id != 1));
}

#[test]
fn stored_message_comes_back_unchanged() {
    let mut store = MessageStore::new();
    let sent = SavedMessage {
        message_id: 42,
        from_user: Some("Ada Lovelace".to_string()),
        reply_to_message_id: Some(41),
        text: "line one\nline two".to_string(),
    };
    store.add_message(3, Some(4), sent.clone());
    assert_eq!(store.get_last_n_messages(3, Some(4), 1), vec![sent]);
}

#[test]
fn keys_are_isolated() {
    let mut store = MessageStore::with_capacity(3);
    store.add_message(1, None, message(10));
    store.add_message(1, None, message(11));
    let before = store.get_last_n_messages(1, None, 10);

    for id in 1..=20 {
        store.add_message(2, None, message(id));
        store.add_message(1, Some(0), message(100 + id));
        store.add_message(1, Some(5), message(200 + id));
    }

    assert_eq!(store.count_for(1, None), 2);
    assert_eq!(store.get_last_n_messages(1, None, 10), before);
    assert_eq!(ids(&store.get_last_n_messages(2, None, 10)), vec![18, 19, 20]);
    assert_eq!(ids(&store.get_last_n_messages(1, Some(0), 10)), vec![118, 119, 120]);
    assert_eq!(ids(&store.get_last_n_messages(1, Some(5), 10)), vec![218, 219, 220]);
}

#[test]
fn no_thread_is_none_of_the_threads() {
    let mut store = MessageStore::new();
    store.add_message(5, None, message(1));
    assert_eq!(store.count_for(5, Some(0)), 0);
    assert_eq!(store.count_for(5, Some(i32::MIN)), 0);
    assert_eq!(store.count_for(5, Some(i32::MAX)), 0);
    assert_eq!(store.count_for(5, Some(-1)), 0);
    assert_eq!(store.count_for(5, None), 1);
}

#[test]
fn keys_at_the_ends_of_their_ranges_stay_apart() {
    let chats = [i64::MIN, i64::MIN + 1, -1, 0, 1, i64::MAX - 1, i64::MAX];
    let threads = [None, Some(i32::MIN), Some(-1), Some(0), Some(1), Some(i32::MAX)];
    let mut store = MessageStore::with_capacity(4);
    let mut next = 0;
    for chat in chats {
        for thread in threads {
            next += 1;
            store.add_message(chat, thread, message(next));
        }
    }
    let mut expected = 0;
    for chat in chats {
        for thread in threads {
            expected += 1;
            assert_eq!(ids(&store.get_last_n_messages(chat, thread, 4)), vec![expected]);
        }
    }
    assert_eq!(store.stats(), StoreStats { chats: 42, messages: 42 });
}

#[test]
fn tail_query_answers() {
    let mut store = MessageStore::with_capacity(10);
    for id in 1..=6 {
        store.add_message(1, None, message(id));
    }
    assert_eq!(ids(&store.get_last_n_messages(1, None, 6)), vec![1, 2, 3, 4, 5, 6]);
    assert_eq!(ids(&store.get_last_n_messages(1, None, 7)), vec![1, 2, 3, 4, 5, 6]);
    assert_eq!(ids(&store.get_last_n_messages(1, None, usize::MAX)), vec![1, 2, 3, 4, 5, 6]);
    assert_eq!(ids(&store.get_last_n_messages(1, None, 0)), Vec::<i32>::new());
    assert_eq!(ids(&store.get_last_n_messages(1, None, 1)), vec![6]);
    assert_eq!(ids(&store.get_last_n_messages(1, None, 3)), vec![4, 5, 6]);
    assert_eq!(ids(&store.get_last_n_messages(1, None, 5)), vec![2, 3, 4, 5, 6]);
}

#[test]
fn unknown_key_is_empty() {
    let store = MessageStore::new();
    assert_eq!(store.count_for(1, None), 0);
    assert!(store.get_last_n_messages(1, None, 10).is_empty());
    assert!(store.get_last_n_messages(1, Some(2), 0).is_empty());
    assert_eq!(store.stats(), StoreStats { chats: 0, messages: 0 });
}

#[test]
fn reading_creates_no_key() {
    let store = MessageStore::new();
    let _ = store.get_last_n_messages(1, None, 10);
    let _ = store.count_for(2, Some(3));
    assert_eq!(store.stats().chats, 0);
}

#[test]
fn default_capacity_is_one_thousand() {
    assert_eq!(MAX_MESSAGES, 1000);
    let mut store = MessageStore::new();
    assert_eq!(store.capacity(), 1000);
    for id in 1..=1001 {
        store.add_message(1, None, message(id));
    }
    assert_eq!(store.count_for(1, None), 1000);
    let all = store.get_last_n_messages(1, None, 1000);
    assert_eq!(all.first().map(|m| m.message_id), Some(2));
    assert_eq!(all.last().map(|m| m.message_id), Some(1001));
}

#[test]
fn capacity_one_keeps_the_newest() {
    let mut store = MessageStore::with_capacity(1);
    store.add_message(1, None, message(1));
    store.add_message(1, None, message(2));
    assert_eq!(ids(&store.get_last_n_messages(1, None, 5)), vec![2]);
}

#[test]
fn capacity_zero_retains_nothing() {
    let mut store = MessageStore::with_capacity(0);
    store.add_message(1, None, message(1));
    store.add_message(1, None, message(2));
    assert_eq!(store.capacity(), 0);
    assert_eq!(store.count_for(1, None), 0);
    assert!(store.get_last_n_messages(1, None, 5).is_empty());
    assert_eq!(store.stats(), StoreStats { chats: 1, messages: 0 });
}

#[test]
fn stats_count_keys_and_messages() {
    let mut store = MessageStore::with_capacity(3);
    for id in 1..=5 {
        store.add_message(1, None, message(id));
    }
    store.add_message(1, Some(1), message(6));
    store.add_message(2, None, message(7));
    store.add_message(2, None, message(8));
    assert_eq!(store.stats(), StoreStats { chats: 3, messages: 6 });
}

#[test]
fn snapshot_is_a_copy() {
    let mut store = MessageStore::with_capacity(2);
    store.add_message(1, None, message(1));
    store.add_message(1, None, message(2));
    let snapshot = store.get_last_n_messages(1, None, 2);
    store.add_message(1, None, message(3));
    store.add_message(1, None, message(4));
    assert_eq!(ids(&snapshot), vec![1, 2]);
    assert_eq!(ids(&store.get_last_n_messages(1, None, 2)), vec![3, 4]);
}

#[test]
fn uptime_of_a_new_store_is_a_few_seconds() {
    let store = MessageStore::new();
    let uptime = store.get_uptime();
    assert!(uptime == "0s" || uptime == "1s", "uptime was {}", uptime);
}
