use messages_server::ordering::{arrange_messages, page, skip_items, sort_newest_first};
use messages_server::records::{Message, MessageRow};

fn row(date: usize) -> MessageRow {
    MessageRow {
        text: None,
        date,
        group_action_type: 0,
        item_type: 0,
        other_handle: None,
        is_from_me: false,
        associated_message_guid: None,
        associated_message_type: None,
        cache_roomnames: None,
        country: None,
        date_delivered: 0,
        date_played: 0,
        date_read: 0,
        did_notify_recipient: false,
        error: 0,
        expressive_send_style_id: None,
        group_title: None,
        handle_id: 0,
        subject: None,
        has_dd_results: false,
        is_audio_message: false,
        is_auto_reply: false,
        is_corrupt: false,
        is_delayed: false,
        is_forward: false,
        is_service_message: false,
        is_spam: false,
        is_system_message: false,
        reply_to_guid: None,
        share_direction: 0,
        share_status: 0,
        thread_originator_guid: None,
        thread_originator_part: None,
        was_delivered_quietly: false,
    }
}

/// A message created `millis` milliseconds after the Apple epoch.
fn message(guid: &str, millis: usize) -> Message {
    Message::from_row(row(millis * 1_000_000), None, Vec::new(), "chat".to_string(), guid.to_string(), 1)
}

fn guids(messages: &[Message]) -> Vec<String> {
    messages.iter().map(|m| m.guid.clone()).collect()
}

#[test]
fn test_slice() {
    let messages = vec![0_i32, 1, 2, 3, 4, 5, 6, 7, 8, 9, 10];
    let offset = 2;
    let limit = 3;
    let messages = page(messages, offset, limit);
    assert_eq!(messages, vec![2, 3, 4]);
}

#[test]
fn page_clips_at_the_end() {
    assert_eq!(page(vec![1, 2, 3], 1, 10), vec![2, 3]);
    assert_eq!(page(vec![1, 2, 3], 3, 10), Vec::<i32>::new());
    assert_eq!(page(vec![1, 2, 3], 7, 2), Vec::<i32>::new());
    assert_eq!(page(vec![1, 2, 3], 0, 0), Vec::<i32>::new());
    assert_eq!(page(Vec::<i32>::new(), 0, 5), Vec::<i32>::new());
}

#[test]
fn consecutive_pages_concatenate() {
    let items: Vec<i32> = (0..9).collect();
    for (offset, first, second) in [(0, 3, 3), (2, 4, 10), (7, 1, 1), (12, 2, 2)] {
        let mut joined = page(items.clone(), offset, first);
        joined.extend(page(items.clone(), offset + first, second));
        assert_eq!(joined, page(items.clone(), offset, first + second));
    }
}

#[test]
fn skip_items_drops_the_front() {
    assert_eq!(skip_items(vec![1, 2, 3, 4], 1), vec![2, 3, 4]);
    assert_eq!(skip_items(vec![1, 2], 2), Vec::<i32>::new());
}

#[test]
fn sort_puts_newest_first() {
    let sorted = sort_newest_first(vec![message("a", 1), message("b", 3), message("c", 2)]);
    assert_eq!(guids(&sorted), vec!["b", "c", "a"]);
    for pair in sorted.windows(2) {
        assert!(pair[0].date_created >= pair[1].date_created);
    }
}

#[test]
fn sort_is_stable_for_equal_dates() {
    let sorted = sort_newest_first(vec![
        message("a", 5),
        message("b", 7),
        message("c", 5),
        message("d", 7),
        message("e", 5),
    ]);
    assert_eq!(guids(&sorted), vec!["b", "d", "a", "c", "e"]);
}

#[test]
fn sort_keeps_every_message() {
    let input = vec![message("x", 9), message("y", 1), message("z", 4), message("w", 4)];
    let sorted = sort_newest_first(input);
    let mut names = guids(&sorted);
    names.sort();
    assert_eq!(names, vec!["w", "x", "y", "z"]);
    assert!(sort_newest_first(Vec::new()).is_empty());
}

#[test]
fn arrange_sorts_then_pages() {
    let input = vec![message("a", 1), message("b", 2), message("c", 3), message("d", 4), message("e", 5)];
    let arranged = arrange_messages(input, 1, 2);
    assert_eq!(guids(&arranged), vec!["d", "c"]);
    assert!(arranged.windows(2).all(|w| w[0].date_created >= w[1].date_created));
    let input = vec![message("a", 1), message("b", 2)];
    assert_eq!(guids(&arrange_messages(input, 5, 2)), Vec::<String>::new());
}
