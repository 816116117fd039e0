use messages_server::counts::ChatCounts;
use messages_server::lookups::{participant_lookups, present};
use messages_server::request::{
    drop_last_char, is_authorized, is_sort_order, list_names, requested_extras, seconds_bounds,
    unauthorized_body, ChatQuery, MessageQuery,
};
use messages_server::store::{chat_fetch_count, count_query, database_path, poll_threshold};
use messages_server::time::{unix_to_apple, APPLE_EPOCH_OFFSET};

fn names(list: &[&str]) -> Vec<String> {
    list.iter().map(|s| s.to_string()).collect()
}

#[test]
fn chat_counts_count_by_service() {
    let counts = ChatCounts::from_services(&names(&["iMessage", "SMS", "iMessage", "RCS", "imessage"]));
    assert_eq!(counts.total(), 5);
    assert_eq!(counts.service_count("iMessage"), Some(2));
    assert_eq!(counts.service_count("SMS"), Some(1));
    assert_eq!(counts.service_count("RCS"), None);
    let empty = ChatCounts::from_services(&Vec::new());
    assert_eq!(empty.total(), 0);
    assert_eq!(empty.service_count("iMessage"), Some(0));
    assert_eq!(empty.service_count("SMS"), Some(0));
}

#[test]
fn chat_counts_breakdown_within_total() {
    let counts = ChatCounts::from_services(&names(&["SMS", "SMS", "iMessage", "other"]));
    let listed = counts.service_count("iMessage").unwrap() + counts.service_count("SMS").unwrap();
    assert!(listed <= counts.total());
    assert_eq!(listed, 3);
}

#[test]
fn participant_lookups_match_the_chat() {
    let join = vec![Some(4), Some(5), None, Some(4), Some(6)];
    assert_eq!(participant_lookups(&join, 4), vec![4, 4]);
    assert_eq!(participant_lookups(&join, 7), Vec::<u32>::new());
    assert_eq!(participant_lookups(&Vec::new(), 1), Vec::<u32>::new());
}

#[test]
fn present_keeps_found_values_in_order() {
    assert_eq!(present(vec![Some(3), None, Some(1), Some(2), None]), vec![3, 1, 2]);
    assert_eq!(present::<i32>(vec![None, None]), Vec::<i32>::new());
}

#[test]
fn authorization_needs_the_password() {
    assert!(is_authorized(Some("balls"), "balls"));
    assert!(!is_authorized(Some("ball"), "balls"));
    assert!(!is_authorized(None, "balls"));
    assert!(!is_authorized(Some(""), "balls"));
}

#[test]
fn unauthorized_body_text() {
    assert_eq!(
        unauthorized_body(),
        "{\"status\":401,\"message\":\"You are not authorized to access this resource\",\"error\":{\"type\":\"Authentication Error\",\"message\":\"Unauthorized\"}}"
    );
}

#[test]
fn extras_come_from_the_with_parameter() {
    assert_eq!(requested_extras(Some("lastmessage,participants"), "lastmessage", "participants"), (true, true));
    assert_eq!(requested_extras(Some("participants"), "lastmessage", "participants"), (false, true));
    assert_eq!(requested_extras(None, "lastmessage", "participants"), (false, false));
}

#[test]
fn list_names_finds_exact_entries() {
    assert!(list_names(&names(&["participants", "lastmessage"]), "lastmessage"));
    assert!(!list_names(&names(&["lastmessages"]), "lastmessage"));
}

#[test]
fn chat_query_plan_defaults() {
    let plan = ChatQuery { limit: None, offset: None, with: None, sort: None }.plan();
    assert_eq!((plan.limit, plan.offset, plan.last_message, plan.participants), (1000, 0, false, true));
    assert_eq!(plan.sort, None);
    let plan = ChatQuery {
        limit: Some(5),
        offset: Some(10),
        with: Some(names(&["lastmessage"])),
        sort: Some("lastmessage".to_string()),
    }
    .plan();
    assert_eq!((plan.limit, plan.offset, plan.last_message, plan.participants), (5, 10, true, true));
    assert_eq!(plan.sort.as_deref(), Some("lastmessage"));
}

#[test]
fn message_query_defaults() {
    let q = MessageQuery::from_params(None, None, None, None, None, None).unwrap();
    assert!(!q.attachments && !q.handle);
    assert_eq!((q.limit, q.offset), (1000, 0));
    assert_eq!(q.sort, "ASC");
    assert_eq!(q.after, 0);
    assert_eq!(q.before, u128::MAX - APPLE_EPOCH_OFFSET);
}

#[test]
fn message_query_reads_parameters() {
    let q = MessageQuery::from_params(
        Some("chats,participants"),
        Some("25"),
        Some("50"),
        Some("DESC"),
        Some("1700000000000"),
        Some(""),
    )
    .unwrap();
    assert!(q.attachments && q.handle);
    assert_eq!((q.limit, q.offset), (25, 50));
    assert_eq!(q.sort, "DESC");
    assert_eq!(q.after, unix_to_apple(1_700_000_000_000 * 1_000_000));
    assert_eq!(q.before, u128::MAX);
    let q = MessageQuery::from_params(None, None, None, None, Some(""), Some("5")).unwrap();
    assert_eq!(q.after, 0);
    assert_eq!(q.before, 0);
}

#[test]
fn message_query_rejects_bad_numbers() {
    assert!(MessageQuery::from_params(None, Some("ten"), None, None, None, None).is_none());
    assert!(MessageQuery::from_params(None, None, Some("-1"), None, None, None).is_none());
    assert!(MessageQuery::from_params(None, None, None, None, Some("x"), None).is_none());
    assert!(MessageQuery::from_params(None, None, None, None, None, Some("340282366920938463463374607431768211455")).is_none());
}

#[test]
fn sort_orders_are_asc_and_desc() {
    assert!(is_sort_order("ASC"));
    assert!(is_sort_order("DESC"));
    assert!(!is_sort_order("asc"));
    assert!(!is_sort_order(""));
}

#[test]
fn seconds_bounds_convert_to_apple_time() {
    assert_eq!(seconds_bounds(None, None), Some((0, 0)));
    assert_eq!(
        seconds_bounds(Some(1_700_000_000), Some(978_307_201)),
        Some((721_692_800_000_000_000, 1_000_000_000))
    );
    assert_eq!(seconds_bounds(Some(u128::MAX), None), None);
}

#[test]
fn drop_last_char_strips_the_line_break() {
    assert_eq!(drop_last_char("me@icloud.com\n"), Some("me@icloud.com".to_string()));
    assert_eq!(drop_last_char("a"), Some(String::new()));
    assert_eq!(drop_last_char(""), None);
    assert_eq!(drop_last_char("café"), None);
}

#[test]
fn poll_threshold_is_apple_time() {
    assert_eq!(poll_threshold(APPLE_EPOCH_OFFSET), Some(0));
    assert_eq!(poll_threshold(1_700_000_000_000_000_000), Some(721_692_800_000_000_000));
    assert_eq!(poll_threshold(5), None);
    assert_eq!(poll_threshold(u128::MAX), None);
    let t = 1_234_567_890_123_456_789u128;
    assert_eq!(poll_threshold(t).map(u128::from), Some(unix_to_apple(t)));
}

#[test]
fn chat_fetch_count_adds() {
    assert_eq!(chat_fetch_count(1000, 20), Some(1020));
    assert_eq!(chat_fetch_count(usize::MAX, 1), None);
}

#[test]
fn store_texts() {
    assert_eq!(count_query("chat"), "SELECT COUNT(*) FROM chat");
    assert_eq!(database_path("/Users/me"), "/Users/me/Library/Messages/chat.db");
}
