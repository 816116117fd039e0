use vstd::prelude::*;
use crate::time::{apple_from_unix, APPLE_EPOCH_OFFSET};

verus! {

/// The Apple-time threshold after which new messages are polled for: the
/// last read time (Unix nanoseconds) on the Apple time base, when it is no
/// earlier than the Apple epoch and fits in a `u64`.
pub open spec fn poll_threshold_of(last_read_time: int) -> Option<int> {
    if last_read_time < APPLE_EPOCH_OFFSET || last_read_time - APPLE_EPOCH_OFFSET > u64::MAX {
        None
    } else {
        Some(last_read_time - APPLE_EPOCH_OFFSET)
    }
}

/// The Apple-time threshold for polling new messages; `None` where the last
/// read time lies before the Apple epoch or the threshold does not fit a `u64`.
pub fn poll_threshold(last_read_time: u128) -> (threshold: Option<u64>)
    ensures
        match poll_threshold_of(last_read_time as int) {
            Some(t) => threshold == Some(t as u64),
            None => threshold is None,
        },
{
    if last_read_time < APPLE_EPOCH_OFFSET {
        return None;
    }
    let since = last_read_time - APPLE_EPOCH_OFFSET;
    if since > u64::MAX as u128 {
        None
    } else {
        Some(since as u64)
    }
}

/// Whenever a polling threshold exists, it is the last read time converted to
/// the Apple time base.
pub proof fn lemma_poll_threshold_is_apple_time(last_read_time: u128)
    ensures
        poll_threshold_of(last_read_time as int) matches Some(t) ==> t == apple_from_unix(
            last_read_time as int,
        ),
{
}

/// How many chats to fetch for a page at `offset` holding `limit` chats;
/// `None` where the sum does not fit a `usize`.
pub fn chat_fetch_count(limit: usize, offset: usize) -> (count: Option<usize>)
    ensures
        count matches Some(c) ==> c == limit + offset,
        count is None <==> limit + offset > usize::MAX,
{
    limit.checked_add(offset)
}

/// The query text that counts the rows of `table`.
pub open spec fn count_query_text(table: Seq<char>) -> Seq<char> {
    "SELECT COUNT(*) FROM "@ + table
}

/// Builds the query that counts the rows of `table`.
pub fn count_query(table: &str) -> (query: String)
    ensures
        query@ == count_query_text(table@),
{
    let mut query = String::from_str("SELECT COUNT(*) FROM ");
    query.append(table);
    query
}

/// Where the message database lies under the home directory `home`.
pub open spec fn database_path_text(home: Seq<char>) -> Seq<char> {
    home + "/Library/Messages/chat.db"@
}

/// The path of the message database under the home directory `home`.
pub fn database_path(home: &str) -> (path: String)
    ensures
        path@ == database_path_text(home@),
{
    let mut path = String::from_str(home);
    path.append("/Library/Messages/chat.db");
    path
}

/// The polling threshold exists exactly when the last read time is at or
/// after the Apple epoch and its distance from it fits a `u64`, and then it
/// is the last read time on the Apple time base.
pub proof fn lemma_poll_threshold_exists(last_read_time: u128)
    ensures
        (poll_threshold_of(last_read_time as int) is Some) <==> (last_read_time
            >= APPLE_EPOCH_OFFSET && last_read_time - APPLE_EPOCH_OFFSET <= u64::MAX),
        last_read_time >= APPLE_EPOCH_OFFSET && last_read_time - APPLE_EPOCH_OFFSET <= u64::MAX
            ==> poll_threshold_of(last_read_time as int) == Some(
            apple_from_unix(last_read_time as int),
        ),
{
}

} // verus!
